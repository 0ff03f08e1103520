use piecanvas::icon::{
    check_file, check_pixels, chunks_are_sound, decode_icon, icon_load, png_header, IconError,
    Pixels, PngHeader,
};
use piecanvas::registry::TextureRegistry;

const SIGNATURE: [u8; 8] = [137, 80, 78, 71, 13, 10, 26, 10];
const HEADER_ONE_RGB: [u8; 25] = [
    0, 0, 0, 13, 73, 72, 68, 82, 0, 0, 0, 1, 0, 0, 0, 1, 8, 2, 0, 0, 0, 144, 119, 83, 222,
];
const DATA_ONE_RGB: [u8; 24] = [
    0, 0, 0, 12, 73, 68, 65, 84, 120, 218, 99, 96, 231, 224, 4, 0, 0, 50, 0, 25, 177, 25, 206, 170,
];
const TEXT: [u8; 15] = [0, 0, 0, 3, 116, 69, 88, 116, 107, 0, 118, 203, 4, 243, 144];
const ANIMATION: [u8; 20] =
    [0, 0, 0, 8, 97, 99, 84, 76, 0, 0, 0, 1, 0, 0, 0, 0, 180, 45, 233, 160];
const FRAME_DATA: [u8; 16] = [0, 0, 0, 4, 102, 100, 65, 84, 0, 0, 0, 0, 5, 200, 174, 97];
const TRANSPARENCY: [u8; 18] =
    [0, 0, 0, 6, 116, 82, 78, 83, 0, 0, 0, 0, 0, 0, 110, 166, 7, 145];
const PALETTE: [u8; 15] = [0, 0, 0, 3, 80, 76, 84, 69, 1, 2, 3, 13, 135, 100, 213];
const END: [u8; 12] = [0, 0, 0, 0, 73, 69, 78, 68, 174, 66, 96, 130];

fn file(parts: &[&[u8]]) -> Vec<u8> {
    let mut bytes = SIGNATURE.to_vec();
    for part in parts {
        bytes.extend_from_slice(part);
    }
    bytes
}

fn two_by_two() -> Vec<u8> {
    vec![
        137, 80, 78, 71, 13, 10, 26, 10, 0, 0, 0, 13, 73, 72, 68, 82, 0, 0, 0, 2, 0, 0, 0, 2, 8, 6,
        0, 0, 0, 114, 182, 13, 36, 0, 0, 0, 22, 73, 68, 65, 84, 120, 218, 99, 248, 207, 192, 240,
        31, 8, 27, 24, 64, 52, 151, 136, 156, 6, 0, 54, 169, 4, 225, 100, 219, 77, 126, 0, 0, 0, 0,
        73, 69, 78, 68, 174, 66, 96, 130,
    ]
}

fn one_opaque_pixel() -> Vec<u8> {
    file(&[&HEADER_ONE_RGB, &DATA_ONE_RGB, &END])
}

fn with_transparent_color() -> Vec<u8> {
    vec![
        137, 80, 78, 71, 13, 10, 26, 10, 0, 0, 0, 13, 73, 72, 68, 82, 0, 0, 0, 2, 0, 0, 0, 1, 8, 2,
        0, 0, 0, 123, 64, 232, 221, 0, 0, 0, 6, 116, 82, 78, 83, 0, 1, 0, 2, 0, 3, 201, 75, 171,
        245, 0, 0, 0, 15, 73, 68, 65, 84, 120, 218, 99, 96, 100, 98, 102, 97, 101, 3, 0, 0, 63, 0,
        22, 152, 193, 104, 19, 0, 0, 0, 0, 73, 69, 78, 68, 174, 66, 96, 130,
    ]
}

fn with_palette() -> Vec<u8> {
    vec![
        137, 80, 78, 71, 13, 10, 26, 10, 0, 0, 0, 13, 73, 72, 68, 82, 0, 0, 0, 2, 0, 0, 0, 1, 8, 3,
        0, 0, 0, 195, 252, 143, 184, 0, 0, 0, 6, 80, 76, 84, 69, 10, 20, 30, 40, 50, 60, 213, 27,
        180, 233, 0, 0, 0, 11, 73, 68, 65, 84, 120, 218, 99, 96, 100, 0, 0, 0, 5, 0, 2, 66, 194,
        68, 159, 0, 0, 0, 0, 73, 69, 78, 68, 174, 66, 96, 130,
    ]
}

fn data_in_two_chunks() -> Vec<u8> {
    vec![
        137, 80, 78, 71, 13, 10, 26, 10, 0, 0, 0, 13, 73, 72, 68, 82, 0, 0, 0, 1, 0, 0, 0, 1, 8, 2,
        0, 0, 0, 144, 119, 83, 222, 0, 0, 0, 5, 73, 68, 65, 84, 120, 218, 99, 96, 231, 221, 197,
        194, 63, 0, 0, 0, 7, 73, 68, 65, 84, 224, 4, 0, 0, 50, 0, 25, 146, 227, 166, 27, 0, 0, 0,
        0, 73, 69, 78, 68, 174, 66, 96, 130,
    ]
}

/// One pixel, interlaced, with an empty data chunk and a transparency chunk
/// before the data.
fn transparency_after_data_began() -> Vec<u8> {
    vec![
        137, 80, 78, 71, 13, 10, 26, 10, 0, 0, 0, 13, 73, 72, 68, 82, 0, 0, 0, 1, 0, 0, 0, 1, 8, 2,
        0, 0, 1, 231, 112, 99, 72, 0, 0, 0, 0, 73, 68, 65, 84, 53, 175, 6, 30, 0, 0, 0, 6, 116, 82,
        78, 83, 0, 0, 0, 0, 0, 0, 110, 166, 7, 145, 0, 0, 0, 12, 73, 68, 65, 84, 120, 156, 99, 224,
        18, 145, 3, 0, 0, 104, 0, 61, 84, 8, 163, 247, 0, 0, 0, 0, 73, 69, 78, 68, 174, 66, 96,
        130,
    ]
}

#[test]
fn icon_is_decoded_to_blue_green_red_and_opacity() {
    assert_eq!(
        decode_icon(&two_by_two()),
        Ok(Pixels {
            width: 2,
            height: 2,
            bgra: vec![0, 0, 255, 255, 0, 255, 0, 128, 255, 0, 0, 0, 30, 20, 10, 40],
        })
    );
    assert_eq!(
        decode_icon(&one_opaque_pixel()),
        Ok(Pixels { width: 1, height: 1, bgra: vec![9, 8, 7, 255] })
    );
}

#[test]
fn chunks_before_the_data_are_taken_along() {
    assert_eq!(
        decode_icon(&with_transparent_color()),
        Ok(Pixels { width: 2, height: 1, bgra: vec![3, 2, 1, 0, 6, 5, 4, 255] })
    );
    assert_eq!(
        decode_icon(&with_palette()),
        Ok(Pixels { width: 2, height: 1, bgra: vec![60, 50, 40, 255, 30, 20, 10, 255] })
    );
    assert_eq!(
        decode_icon(&file(&[&HEADER_ONE_RGB, &TEXT, &TEXT, &DATA_ONE_RGB, &END])),
        Ok(Pixels { width: 1, height: 1, bgra: vec![9, 8, 7, 255] })
    );
    assert_eq!(
        decode_icon(&data_in_two_chunks()),
        Ok(Pixels { width: 1, height: 1, bgra: vec![9, 8, 7, 255] })
    );
    assert_eq!(
        decode_icon(&file(&[&HEADER_ONE_RGB, &DATA_ONE_RGB, &END, &TEXT, &[1, 2, 3]])),
        Ok(Pixels { width: 1, height: 1, bgra: vec![9, 8, 7, 255] })
    );
}

#[test]
fn loaded_icon_is_registered_under_the_next_handle() {
    let mut registry: TextureRegistry<Pixels> = TextureRegistry::new();
    assert_eq!(icon_load(&mut registry, &one_opaque_pixel()), Ok(1));
    assert_eq!(icon_load(&mut registry, &two_by_two()), Ok(2));
    assert_eq!(icon_load(&mut registry, &with_palette()), Ok(3));
    assert_eq!(registry.len(), 3);
    assert_eq!(
        registry.resolve(1),
        Ok(&Pixels { width: 1, height: 1, bgra: vec![9, 8, 7, 255] })
    );
    assert_eq!(registry.resolve(2).map(|p| (p.width, p.height, p.bgra.len())), Ok((2, 2, 16)));
    assert_eq!(registry.resolve(3).map(|p| p.bgra[0]), Ok(60));
}

#[test]
fn file_that_is_no_icon_registers_nothing() {
    let mut registry: TextureRegistry<Pixels> = TextureRegistry::new();
    assert_eq!(icon_load(&mut registry, &one_opaque_pixel()), Ok(1));
    assert_eq!(icon_load(&mut registry, b"GIF89a"), Err(IconError::NotPng));
    assert_eq!(
        icon_load(&mut registry, &transparency_after_data_began()),
        Err(IconError::BadChunks)
    );
    let mut cut = two_by_two();
    cut.truncate(50);
    assert_eq!(icon_load(&mut registry, &cut), Err(IconError::Undecodable));
    assert_eq!(registry.len(), 1);
    assert_eq!(icon_load(&mut registry, &two_by_two()), Ok(2));
}

#[test]
fn header_declares_size_depth_and_methods() {
    assert_eq!(
        png_header(&two_by_two()),
        Some(PngHeader {
            width: 2,
            height: 2,
            bit_depth: 8,
            color_type: 6,
            compression: 0,
            filter: 0,
            interlace: 0
        })
    );
    assert_eq!(png_header(&two_by_two()[..33]).map(|h| h.width), Some(2));
    assert_eq!(png_header(&two_by_two()[..32]), None);
    assert_eq!(png_header(&[]), None);
    let mut wide = two_by_two();
    wide[16] = 1;
    wide[17] = 2;
    wide[18] = 3;
    wide[19] = 4;
    wide[20] = 255;
    wide[23] = 7;
    wide[28] = 9;
    let header = png_header(&wide).unwrap();
    assert_eq!((header.width, header.height, header.interlace), (0x0102_0304, 0xff00_0007, 9));
    for i in 0..16 {
        let mut broken = two_by_two();
        broken[i] ^= 1;
        assert_eq!(png_header(&broken), None);
        assert_eq!(check_file(&broken), Some(IconError::NotPng));
    }
}

#[test]
fn file_of_another_format_is_no_icon() {
    assert_eq!(decode_icon(b"GIF89a"), Err(IconError::NotPng));
    assert_eq!(decode_icon(&[]), Err(IconError::NotPng));
    let mut jpeg = two_by_two();
    jpeg[0] = 0xff;
    assert_eq!(decode_icon(&jpeg), Err(IconError::NotPng));
}

#[test]
fn file_that_declares_no_pixels_or_too_many_is_not_decoded() {
    let mut empty = two_by_two();
    empty[19] = 0;
    assert_eq!(decode_icon(&empty), Err(IconError::BadSize));
    let mut flat = two_by_two();
    flat[23] = 0;
    assert_eq!(decode_icon(&flat), Err(IconError::BadSize));
    let mut vast = two_by_two();
    for i in 16..24 {
        vast[i] = 255;
    }
    assert_eq!(decode_icon(&vast), Err(IconError::BadSize));
    let good = PngHeader {
        width: 1 << 24,
        height: 1,
        bit_depth: 8,
        color_type: 6,
        compression: 0,
        filter: 0,
        interlace: 0,
    };
    assert!(good.has_good_size());
    assert!(PngHeader { width: 5000, height: 3000, ..good }.has_good_size());
    assert!(PngHeader { width: 4097, height: 4097, ..good }.has_good_size());
    assert!(!PngHeader { width: 0, ..good }.has_good_size());
    assert!(!PngHeader { height: 0, ..good }.has_good_size());
    assert!(!PngHeader { width: u32::MAX, height: u32::MAX, ..good }.has_good_size());
    let most = (usize::MAX / 64) as u128;
    let side = 1u128 << 20;
    let height = ((most - 1) / side).min(u32::MAX as u128) as u32;
    assert!(PngHeader { width: 1 << 20, height, ..good }.has_good_size());
}

#[test]
fn header_with_a_depth_or_method_the_format_does_not_know_is_refused() {
    let good = png_header(&two_by_two()).unwrap();
    assert!(good.has_good_fields());
    for (color_type, depths) in [
        (0u8, vec![1u8, 2, 4, 8, 16]),
        (2, vec![8, 16]),
        (3, vec![1, 2, 4, 8]),
        (4, vec![8, 16]),
        (6, vec![8, 16]),
        (1, vec![]),
        (5, vec![]),
        (7, vec![]),
    ] {
        for depth in 0..=32u8 {
            let header = PngHeader { color_type, bit_depth: depth, ..good };
            assert_eq!(header.has_good_fields(), depths.contains(&depth));
        }
    }
    assert!(PngHeader { interlace: 1, ..good }.has_good_fields());
    assert!(!PngHeader { interlace: 2, ..good }.has_good_fields());
    assert!(!PngHeader { compression: 1, ..good }.has_good_fields());
    assert!(!PngHeader { filter: 1, ..good }.has_good_fields());
    let mut shallow = two_by_two();
    shallow[24] = 4;
    assert_eq!(decode_icon(&shallow), Err(IconError::BadHeader));
    let mut woven = two_by_two();
    woven[28] = 2;
    assert_eq!(decode_icon(&woven), Err(IconError::BadHeader));
}

#[test]
fn chunks_in_an_order_the_decoder_does_not_stand_are_refused() {
    let refused: Vec<Vec<u8>> = vec![
        transparency_after_data_began(),
        file(&[&HEADER_ONE_RGB, &DATA_ONE_RGB, &TRANSPARENCY, &END]),
        file(&[&HEADER_ONE_RGB, &DATA_ONE_RGB, &TRANSPARENCY[..8]]),
        file(&[&HEADER_ONE_RGB, &DATA_ONE_RGB, &TEXT, &TRANSPARENCY, &END]),
        file(&[&HEADER_ONE_RGB, &DATA_ONE_RGB, &HEADER_ONE_RGB, &END]),
        file(&[&HEADER_ONE_RGB, &HEADER_ONE_RGB, &DATA_ONE_RGB, &END]),
        file(&[&HEADER_ONE_RGB, &TEXT, &HEADER_ONE_RGB[..8]]),
        file(&[&HEADER_ONE_RGB, &DATA_ONE_RGB, &ANIMATION, &END]),
        file(&[&HEADER_ONE_RGB, &DATA_ONE_RGB, &FRAME_DATA, &END]),
        file(&[&HEADER_ONE_RGB, &TEXT, &DATA_ONE_RGB, &DATA_ONE_RGB, &ANIMATION, &END]),
    ];
    for bytes in refused {
        assert!(!chunks_are_sound(&bytes));
        assert_eq!(check_file(&bytes), Some(IconError::BadChunks));
        assert_eq!(decode_icon(&bytes), Err(IconError::BadChunks));
    }
    let walked: Vec<Vec<u8>> = vec![
        file(&[&HEADER_ONE_RGB]),
        file(&[&HEADER_ONE_RGB, &END]),
        file(&[&HEADER_ONE_RGB, &TEXT, &END, &HEADER_ONE_RGB]),
        file(&[&HEADER_ONE_RGB, &DATA_ONE_RGB]),
        file(&[&HEADER_ONE_RGB, &DATA_ONE_RGB[..20]]),
        file(&[&HEADER_ONE_RGB, &DATA_ONE_RGB, &TEXT[..7]]),
        file(&[&HEADER_ONE_RGB, &DATA_ONE_RGB, &TRANSPARENCY[..7]]),
        file(&[&HEADER_ONE_RGB, &TEXT[..14]]),
        file(&[&HEADER_ONE_RGB, &[255, 255, 255, 255, 116, 69, 88, 116, 0]]),
        file(&[&HEADER_ONE_RGB, &DATA_ONE_RGB, &DATA_ONE_RGB, &END, &ANIMATION]),
        file(&[&HEADER_ONE_RGB, &DATA_ONE_RGB, &TEXT, &END]),
        file(&[&HEADER_ONE_RGB, &DATA_ONE_RGB, &TEXT, &PALETTE, &TEXT, &DATA_ONE_RGB, &END]),
        file(&[&HEADER_ONE_RGB, &ANIMATION, &TRANSPARENCY, &DATA_ONE_RGB, &END]),
        file(&[&HEADER_ONE_RGB, &FRAME_DATA, &DATA_ONE_RGB, &END]),
    ];
    for bytes in walked {
        assert!(chunks_are_sound(&bytes));
        assert_eq!(check_file(&bytes), None);
    }
}

#[test]
fn chunks_that_the_decoder_passes_over_may_follow_the_data() {
    let pixel = Ok(Pixels { width: 1, height: 1, bgra: vec![9, 8, 7, 255] });
    assert_eq!(decode_icon(&file(&[&HEADER_ONE_RGB, &DATA_ONE_RGB, &TEXT, &END])), pixel);
    assert_eq!(decode_icon(&file(&[&HEADER_ONE_RGB, &DATA_ONE_RGB, &PALETTE, &END])), pixel);
    assert_eq!(
        decode_icon(&file(&[&HEADER_ONE_RGB, &TEXT, &DATA_ONE_RGB, &TEXT, &TEXT, &END])),
        pixel
    );
    assert_eq!(decode_icon(&file(&[&HEADER_ONE_RGB, &ANIMATION, &DATA_ONE_RGB, &END])), pixel);
    let mut registry: TextureRegistry<Pixels> = TextureRegistry::new();
    assert_eq!(
        icon_load(&mut registry, &file(&[&HEADER_ONE_RGB, &DATA_ONE_RGB, &TEXT, &END])),
        Ok(1)
    );
    assert_eq!(registry.resolve(1), Ok(&Pixels { width: 1, height: 1, bgra: vec![9, 8, 7, 255] }));
}

#[test]
fn file_that_the_decoder_rejects_is_no_icon() {
    let mut cut = two_by_two();
    cut.truncate(50);
    assert_eq!(decode_icon(&cut), Err(IconError::Undecodable));
    let mut damaged = two_by_two();
    damaged[45] ^= 0x55;
    assert_eq!(decode_icon(&damaged), Err(IconError::Undecodable));
    assert_eq!(decode_icon(&file(&[&HEADER_ONE_RGB, &END])), Err(IconError::Undecodable));
    assert_eq!(decode_icon(&file(&[&HEADER_ONE_RGB])), Err(IconError::Undecodable));
}

#[test]
fn pixels_must_fit_the_declared_size() {
    assert_eq!(
        check_pixels(1, 2, (1, 2, vec![1, 2, 3, 4, 5, 6, 7, 8])),
        Ok(Pixels { width: 1, height: 2, bgra: vec![1, 2, 3, 4, 5, 6, 7, 8] })
    );
    assert_eq!(check_pixels(1, 2, (2, 1, vec![0; 8])), Err(IconError::Malformed));
    assert_eq!(check_pixels(1, 2, (1, 2, vec![0; 7])), Err(IconError::Malformed));
    assert_eq!(check_pixels(1, 2, (1, 2, vec![0; 9])), Err(IconError::Malformed));
    assert_eq!(
        check_pixels(0, 5, (0, 5, Vec::new())),
        Ok(Pixels { width: 0, height: 5, bgra: Vec::new() })
    );
    assert_eq!(
        check_pixels(u32::MAX, u32::MAX, (u32::MAX, u32::MAX, vec![0; 4])),
        Err(IconError::Malformed)
    );
}
