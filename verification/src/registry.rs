//! The registry that issues texture handles and resolves them again.

use vstd::prelude::*;
use crate::canvas::NULL_TEXTURE;

verus! {

/// The error of resolving a handle that was never issued.
#[derive(Clone, Copy, Debug, PartialEq, Eq, Structural)]
pub struct UnknownTextureHandle {
    pub handle: u32,
}

/// Associates texture handles with the backend's resources. Handles are
/// issued in order from 1 upwards; the resource of handle `h` is kept at
/// position `h - 1`, so that resolving takes one step. Nothing is ever
/// removed.
pub struct TextureRegistry<R> {
    resources: Vec<R>,
}

impl<R> View for TextureRegistry<R> {
    type V = Seq<R>;

    /// The registered resources in the order of their registration.
    closed spec fn view(&self) -> Seq<R> {
        self.resources@
    }
}

impl<R> TextureRegistry<R> {
    /// Whether `handle` was issued by this registry.
    pub open spec fn issued(self, handle: u32) -> bool {
        1 <= handle <= self@.len()
    }

    /// The resource that `handle` stands for.
    pub open spec fn resource(self, handle: u32) -> R
        recommends
            self.issued(handle),
    {
        self@[handle - 1]
    }

    /// A registry without any texture.
    pub fn new() -> (registry: TextureRegistry<R>)
        ensures
            registry@ == Seq::<R>::empty(),
    {
        TextureRegistry { resources: Vec::new() }
    }

    /// The number of registered textures, which is also the last handle
    /// issued.
    pub fn len(&self) -> (n: usize)
        ensures
            n == self@.len(),
    {
        self.resources.len()
    }

    /// Whether another texture can be registered: handles are 32 bits wide.
    pub fn has_room(&self) -> (room: bool)
        ensures
            room == (self@.len() < u32::MAX),
    {
        self.resources.len() < u32::MAX as usize
    }

    /// Registers `resource` and returns its handle: the next one after the
    /// last issued, never the reserved null handle. Every handle issued
    /// before keeps its resource.
    pub fn register(&mut self, resource: R) -> (handle: u32)
        requires
            old(self)@.len() < u32::MAX,
        ensures
            handle == old(self)@.len() + 1,
            handle != NULL_TEXTURE,
            final(self)@ == old(self)@.push(resource),
            final(self).issued(handle),
            final(self).resource(handle) == resource,
            forall|h: u32| old(self).issued(h) ==> final(self).issued(h) && final(self).resource(h)
                == old(self).resource(h),
    {
        self.resources.push(resource);
        self.resources.len() as u32
    }

    /// Whether `handle` was issued by this registry.
    pub fn contains(&self, handle: u32) -> (known: bool)
        ensures
            known == self.issued(handle),
    {
        1 <= handle && handle as usize <= self.resources.len()
    }

    /// The resource of `handle`, or the error that names the handle where it
    /// was never issued. The reserved null handle is never issued.
    pub fn resolve(&self, handle: u32) -> (found: Result<&R, UnknownTextureHandle>)
        ensures
            found is Ok <==> self.issued(handle),
            found matches Ok(resource) ==> *resource == self.resource(handle),
            found matches Err(e) ==> e.handle == handle,
    {
        if 1 <= handle && handle as usize <= self.resources.len() {
            Ok(&self.resources[handle as usize - 1])
        } else {
            Err(UnknownTextureHandle { handle })
        }
    }
}

} // verus!
