//! Loading of icons: the checks that a picture file has to pass before it is
//! handed to the decoder, the decoding, the check of what the decoder hands
//! back, and the registration of the pixels.
//!
//! The decoder is trusted to return, with pixels or with an error, on the
//! files that pass the checks. No other file is handed to it: it computes
//! the sizes of its buffers from the header without a check for overflow,
//! it sizes its rows once, when the picture's data begins, by the header and
//! by the transparency chunk seen so far, and it takes no care of a header,
//! of transparency or of an animation that comes after that.

use vstd::prelude::*;
use crate::registry::TextureRegistry;

verus! {

/// Number of bytes that the signature and the header chunk take at the start
/// of a file.
pub const HEADER_BYTES: usize = 33;

/// Name of the header chunk.
pub const NAME_IHDR: u32 = 0x4948_4452;

/// Name of a data chunk.
pub const NAME_IDAT: u32 = 0x4944_4154;

/// Name of the end chunk.
pub const NAME_IEND: u32 = 0x4945_4e44;

/// Name of the transparency chunk.
pub const NAME_TRNS: u32 = 0x7452_4e53;

/// Names of the three chunks of an animation.
pub const NAME_ACTL: u32 = 0x6163_544c;

pub const NAME_FCTL: u32 = 0x6663_544c;

pub const NAME_FDAT: u32 = 0x6664_4154;

/// The pixels of a decoded icon, row by row from the top, four bytes per
/// pixel: blue, green, red and opacity.
#[derive(Clone, Debug, PartialEq, Eq)]
pub struct Pixels {
    pub width: u32,
    pub height: u32,
    pub bgra: Vec<u8>,
}

/// The mathematical value of [`Pixels`].
pub struct PixelsView {
    pub width: u32,
    pub height: u32,
    pub bgra: Seq<u8>,
}

impl View for Pixels {
    type V = PixelsView;

    open spec fn view(&self) -> PixelsView {
        PixelsView { width: self.width, height: self.height, bgra: self.bgra@ }
    }
}

/// What the header chunk of a file declares.
#[derive(Clone, Copy, Debug, PartialEq, Eq, Structural)]
pub struct PngHeader {
    pub width: u32,
    pub height: u32,
    pub bit_depth: u8,
    pub color_type: u8,
    pub compression: u8,
    pub filter: u8,
    pub interlace: u8,
}

/// Why a file is no icon.
#[derive(Clone, Copy, Debug, PartialEq, Eq, Structural)]
pub enum IconError {
    /// The file does not begin with the signature and a header chunk.
    NotPng,
    /// The header declares no pixels, or more than the machine can address.
    BadSize,
    /// The header declares a bit depth that its colour type does not have, or
    /// a method of compression, filtering or interlacing that the format does
    /// not know.
    BadHeader,
    /// The chunks are in an order that the decoder does not stand: a second
    /// header, or a chunk of transparency or of an animation after the first
    /// data chunk.
    BadChunks,
    /// The decoder rejected the file.
    Undecodable,
    /// The decoder handed back another size than the file declares, or not
    /// four bytes for each pixel.
    Malformed,
    /// The registry has issued its last handle.
    RegistryFull,
}

/// The error of the decoder.
#[verifier::external_type_specification]
#[verifier::external_body]
pub struct ExImageError(image::ImageError);

/// What the decoder makes of a file that it accepts: width, height, and the
/// pixels as blue, green, red and opacity. `None` stands for a file that it
/// rejects.
pub uninterp spec fn png_decoded(bytes: Seq<u8>) -> Option<(u32, u32, Seq<u8>)>;

/// Byte `i` of the first sixteen bytes of every file of the format: the
/// signature, the length of the header chunk, and the chunk's name.
pub open spec fn preamble(i: int) -> u8 {
    if i == 0 {
        137
    } else if i == 1 {
        80
    } else if i == 2 {
        78
    } else if i == 3 {
        71
    } else if i == 4 {
        13
    } else if i == 5 {
        10
    } else if i == 6 {
        26
    } else if i == 7 {
        10
    } else if i == 8 {
        0
    } else if i == 9 {
        0
    } else if i == 10 {
        0
    } else if i == 11 {
        13
    } else if i == 12 {
        73
    } else if i == 13 {
        72
    } else if i == 14 {
        68
    } else {
        82
    }
}

/// The number that four bytes from position `at` spell, most significant
/// byte first.
pub open spec fn be32(bytes: Seq<u8>, at: int) -> int {
    bytes[at] * 0x100_0000 + bytes[at + 1] * 0x1_0000 + bytes[at + 2] * 0x100 + bytes[at + 3]
}

/// Whether `bytes` begin with the signature and a whole header chunk.
pub open spec fn has_preamble(bytes: Seq<u8>) -> bool {
    &&& bytes.len() >= HEADER_BYTES
    &&& forall|i: int| 0 <= i < 16 ==> #[trigger] bytes[i] == preamble(i)
}

/// What the header chunk declares, where the file begins as the format
/// demands.
pub open spec fn declared_header(bytes: Seq<u8>) -> Option<PngHeader> {
    if has_preamble(bytes) {
        Some(
            PngHeader {
                width: be32(bytes, 16) as u32,
                height: be32(bytes, 20) as u32,
                bit_depth: bytes[24],
                color_type: bytes[25],
                compression: bytes[26],
                filter: bytes[27],
                interlace: bytes[28],
            },
        )
    } else {
        None
    }
}

impl PngHeader {
    /// The picture has at least one pixel, and the number of bits of its
    /// deepest form, 64 a pixel and a byte to spare for each line, is one
    /// that the machine can count. The decoder multiplies up to that number
    /// without a check.
    pub open spec fn size_ok(self) -> bool {
        &&& 1 <= self.width
        &&& 1 <= self.height
        &&& 64 * (self.width * self.height) + 8 * self.height <= usize::MAX
    }

    /// The bit depth is one that the format gives the colour type: 1 to 16
    /// for grey, 1 to 8 for a palette, 8 or 16 for the others.
    pub open spec fn depth_ok(self) -> bool {
        let d = self.bit_depth;
        if self.color_type == 0 {
            d == 1 || d == 2 || d == 4 || d == 8 || d == 16
        } else if self.color_type == 3 {
            d == 1 || d == 2 || d == 4 || d == 8
        } else if self.color_type == 2 || self.color_type == 4 || self.color_type == 6 {
            d == 8 || d == 16
        } else {
            false
        }
    }

    /// Depth and colour type fit, and the methods are those that the format
    /// knows.
    pub open spec fn fields_ok(self) -> bool {
        &&& self.depth_ok()
        &&& self.compression == 0
        &&& self.filter == 0
        &&& self.interlace <= 1
    }
}

/// Whether the chunks from position `at` on stand in an order that the
/// decoder can be trusted with, `data_seen` saying whether a data chunk
/// stands before them. A chunk begins with its length and its name, four
/// bytes each, and ends with four bytes of checksum after its content. The
/// walk ends well at the end chunk, at the end of the file, and at a chunk
/// that the file cuts short. It ends badly at a second header, and at a
/// chunk of transparency or of an animation that follows a data chunk. Every
/// other chunk is passed over, wherever it stands.
pub open spec fn chunks_sound(bytes: Seq<u8>, at: int, data_seen: bool) -> bool
    decreases bytes.len() - at,
{
    if at < 0 || at + 8 > bytes.len() {
        true
    } else {
        let name = be32(bytes, at + 4);
        let next = at + 12 + be32(bytes, at);
        if name == NAME_IEND {
            true
        } else if name == NAME_IHDR || (data_seen && (name == NAME_TRNS || name == NAME_ACTL || name
            == NAME_FCTL || name == NAME_FDAT)) {
            false
        } else {
            next > bytes.len() || chunks_sound(bytes, next, data_seen || name == NAME_IDAT)
        }
    }
}

/// Why a file is not handed to the decoder, if it is not.
pub open spec fn refusal(bytes: Seq<u8>) -> Option<IconError> {
    match declared_header(bytes) {
        None => Some(IconError::NotPng),
        Some(header) => if !header.size_ok() {
            Some(IconError::BadSize)
        } else if !header.fields_ok() {
            Some(IconError::BadHeader)
        } else if !chunks_sound(bytes, HEADER_BYTES as int, false) {
            Some(IconError::BadChunks)
        } else {
            None
        },
    }
}

/// What the pixels handed back for a file that declares `width` by `height`
/// are accepted as: the icon, where the size is the declared one and there
/// are four bytes for each pixel.
pub open spec fn accepted(width: u32, height: u32, decoded: (u32, u32, Seq<u8>)) -> Result<
    PixelsView,
    IconError,
> {
    if decoded.0 == width && decoded.1 == height && decoded.2.len() == 4 * width * height {
        Ok(PixelsView { width, height, bgra: decoded.2 })
    } else {
        Err(IconError::Malformed)
    }
}

/// The icon that a file holds, or why it holds none.
pub open spec fn icon_of(bytes: Seq<u8>) -> Result<PixelsView, IconError> {
    match refusal(bytes) {
        Some(error) => Err(error),
        None => match png_decoded(bytes) {
            None => Err(IconError::Undecodable),
            Some(decoded) => accepted(
                declared_header(bytes).unwrap().width,
                declared_header(bytes).unwrap().height,
                decoded,
            ),
        },
    }
}

/// Decodes a picture with `image::load_from_memory_with_format` in the PNG
/// format, converts it with `DynamicImage::to_bgra`, and hands back its
/// `dimensions` and its raw bytes. All that is claimed is that the outcome is
/// a function of the file's bytes, which `png_decoded` names. Only files that
/// nothing is to be refused of are handed to it: see the head of this file.
/// Whether the machine has the memory for a picture is not a matter of the
/// file's bytes and no part of the contract.
#[verifier::external_body]
fn decode_png(bytes: &[u8]) -> (decoded: Result<(u32, u32, Vec<u8>), image::ImageError>)
    requires
        refusal(bytes@) is None,
    ensures
        match decoded {
            Ok(picture) => png_decoded(bytes@) == Some((picture.0, picture.1, picture.2@)),
            Err(_) => png_decoded(bytes@) is None,
        },
{
    let picture = image::load_from_memory_with_format(bytes, image::ImageFormat::PNG)?.to_bgra();
    let (width, height) = picture.dimensions();
    Ok((width, height, picture.into_raw()))
}

/// The number that four bytes from position `at` spell.
fn read_be32(bytes: &[u8], at: usize) -> (value: u32)
    requires
        at + 4 <= bytes@.len(),
    ensures
        value == be32(bytes@, at as int),
{
    let b0: u32 = bytes[at] as u32;
    let b1: u32 = bytes[at + 1] as u32;
    let b2: u32 = bytes[at + 2] as u32;
    let b3: u32 = bytes[at + 3] as u32;
    b0 * 0x100_0000 + b1 * 0x1_0000 + b2 * 0x100 + b3
}

/// Byte `i` of the preamble.
fn preamble_byte(i: usize) -> (byte: u8)
    requires
        i < 16,
    ensures
        byte == preamble(i as int),
{
    if i == 0 {
        137
    } else if i == 1 {
        80
    } else if i == 2 {
        78
    } else if i == 3 {
        71
    } else if i == 4 {
        13
    } else if i == 5 {
        10
    } else if i == 6 {
        26
    } else if i == 7 {
        10
    } else if i <= 10 {
        0
    } else if i == 11 {
        13
    } else if i == 12 {
        73
    } else if i == 13 {
        72
    } else if i == 14 {
        68
    } else {
        82
    }
}

/// What the header chunk of a file declares.
pub fn png_header(bytes: &[u8]) -> (header: Option<PngHeader>)
    ensures
        header == declared_header(bytes@),
{
    if bytes.len() < HEADER_BYTES {
        return None;
    }
    let mut i: usize = 0;
    while i < 16
        invariant
            0 <= i <= 16,
            bytes@.len() >= HEADER_BYTES,
            forall|k: int| 0 <= k < i ==> #[trigger] bytes@[k] == preamble(k),
        decreases 16 - i,
    {
        if bytes[i] != preamble_byte(i) {
            return None;
        }
        i = i + 1;
    }
    Some(
        PngHeader {
            width: read_be32(bytes, 16),
            height: read_be32(bytes, 20),
            bit_depth: bytes[24],
            color_type: bytes[25],
            compression: bytes[26],
            filter: bytes[27],
            interlace: bytes[28],
        },
    )
}

impl PngHeader {
    /// Whether the picture has at least one pixel and no more than the
    /// machine can address.
    pub fn has_good_size(&self) -> (ok: bool)
        ensures
            ok == self.size_ok(),
    {
        assert(0 <= self.width * self.height <= 0xffff_ffff * 0xffff_ffff) by (nonlinear_arith)
            requires
                0 <= self.width <= 0xffff_ffff,
                0 <= self.height <= 0xffff_ffff,
        ;
        let pixels: u128 = (self.width as u128) * (self.height as u128);
        1 <= self.width && 1 <= self.height && 64 * pixels + 8 * (self.height as u128)
            <= usize::MAX as u128
    }

    /// Whether depth and colour type fit and the methods are known.
    pub fn has_good_fields(&self) -> (ok: bool)
        ensures
            ok == self.fields_ok(),
    {
        let d: u8 = self.bit_depth;
        let depth = if self.color_type == 0 {
            d == 1 || d == 2 || d == 4 || d == 8 || d == 16
        } else if self.color_type == 3 {
            d == 1 || d == 2 || d == 4 || d == 8
        } else if self.color_type == 2 || self.color_type == 4 || self.color_type == 6 {
            d == 8 || d == 16
        } else {
            false
        };
        depth && self.compression == 0 && self.filter == 0 && self.interlace <= 1
    }
}

/// Walks the chunks that follow the header and says whether they stand in
/// an order that the decoder can be trusted with.
pub fn chunks_are_sound(bytes: &[u8]) -> (ok: bool)
    ensures
        ok == chunks_sound(bytes@, HEADER_BYTES as int, false),
{
    let mut at: usize = HEADER_BYTES;
    let mut data_seen: bool = false;
    while at <= bytes.len() && bytes.len() - at >= 8
        invariant
            HEADER_BYTES <= at,
            chunks_sound(bytes@, HEADER_BYTES as int, false) == chunks_sound(
                bytes@,
                at as int,
                data_seen,
            ),
        decreases bytes@.len() - at,
    {
        let length: u32 = read_be32(bytes, at);
        let name: u32 = read_be32(bytes, at + 4);
        if name == NAME_IEND {
            return true;
        }
        if name == NAME_IHDR || (data_seen && (name == NAME_TRNS || name == NAME_ACTL || name
            == NAME_FCTL || name == NAME_FDAT)) {
            return false;
        }
        if (length as u64) + 12 > (bytes.len() - at) as u64 {
            return true;
        }
        if name == NAME_IDAT {
            data_seen = true;
        }
        at = at + 12 + length as usize;
    }
    true
}

/// Why a file is not handed to the decoder, if it is not.
pub fn check_file(bytes: &[u8]) -> (verdict: Option<IconError>)
    ensures
        verdict == refusal(bytes@),
{
    match png_header(bytes) {
        None => Some(IconError::NotPng),
        Some(header) => {
            if !header.has_good_size() {
                Some(IconError::BadSize)
            } else if !header.has_good_fields() {
                Some(IconError::BadHeader)
            } else if !chunks_are_sound(bytes) {
                Some(IconError::BadChunks)
            } else {
                None
            }
        },
    }
}

/// Accepts the pixels that the decoder handed back for a file that declares
/// `width` by `height`, or says that they do not fit the declaration.
pub fn check_pixels(width: u32, height: u32, decoded: (u32, u32, Vec<u8>)) -> (icon: Result<
    Pixels,
    IconError,
>)
    ensures
        match icon {
            Ok(pixels) => accepted(width, height, (decoded.0, decoded.1, decoded.2@)) == Ok::<
                PixelsView,
                IconError,
            >(pixels@),
            Err(e) => accepted(width, height, (decoded.0, decoded.1, decoded.2@)) == Err::<
                PixelsView,
                IconError,
            >(e),
        },
{
    assert(0 <= 4 * width * height <= 4 * 0xffff_ffff * 0xffff_ffff) by (nonlinear_arith)
        requires
            0 <= width <= 0xffff_ffff,
            0 <= height <= 0xffff_ffff,
    ;
    let wanted: u128 = 4 * (width as u128) * (height as u128);
    if decoded.0 == width && decoded.1 == height && decoded.2.len() as u128 == wanted {
        Ok(Pixels { width, height, bgra: decoded.2 })
    } else {
        Err(IconError::Malformed)
    }
}

/// Decodes an icon from the bytes of its file: checks the header and the
/// order of the chunks, has the file decoded, and checks that the pixels fit
/// the declared size.
pub fn decode_icon(bytes: &[u8]) -> (icon: Result<Pixels, IconError>)
    ensures
        match icon {
            Ok(pixels) => icon_of(bytes@) == Ok::<PixelsView, IconError>(pixels@),
            Err(e) => icon_of(bytes@) == Err::<PixelsView, IconError>(e),
        },
{
    match check_file(bytes) {
        Some(error) => Err(error),
        None => {
            let header = png_header(bytes).unwrap();
            match decode_png(bytes) {
                Err(_) => Err(IconError::Undecodable),
                Ok(decoded) => check_pixels(header.width, header.height, decoded),
            }
        },
    }
}

/// Loads an icon: decodes it from the bytes of its file and registers its
/// pixels. It returns the handle that the registry issued for them, under
/// which they resolve from then on; the handles issued before keep their
/// pixels. Where the file holds no icon, or the registry has no handle left,
/// nothing is registered.
pub fn icon_load(registry: &mut TextureRegistry<Pixels>, bytes: &[u8]) -> (loaded: Result<
    u32,
    IconError,
>)
    ensures
        match loaded {
            Ok(handle) => {
                &&& old(registry)@.len() < u32::MAX
                &&& handle == old(registry)@.len() + 1
                &&& final(registry)@.len() == handle
                &&& final(registry)@.subrange(0, handle - 1) == old(registry)@
                &&& icon_of(bytes@) == Ok::<PixelsView, IconError>(final(registry)@[handle - 1]@)
                &&& final(registry).issued(handle)
                &&& forall|h: u32|
                    old(registry).issued(h) ==> final(registry).issued(h)
                        && final(registry).resource(h) == old(registry).resource(h)
            },
            Err(e) => {
                &&& final(registry)@ == old(registry)@
                &&& if old(registry)@.len() >= u32::MAX {
                    e == IconError::RegistryFull
                } else {
                    icon_of(bytes@) == Err::<PixelsView, IconError>(e)
                }
            },
        },
{
    if !registry.has_room() {
        return Err(IconError::RegistryFull);
    }
    match decode_icon(bytes) {
        Err(e) => Err(e),
        Ok(pixels) => {
            let handle = registry.register(pixels);
            assert(registry@.subrange(0, handle - 1) =~= old(registry)@);
            Ok(handle)
        },
    }
}

} // verus!
