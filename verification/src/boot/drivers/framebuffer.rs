//! The framebuffer console of the early boot stage.
use crate::devices::framebuffer::Framebuffer;
use crate::devices::tty::fb::FbTtyWriter;
use vstd::prelude::*;

verus! {

/// The cursor that renders text onto a framebuffer.
pub type FramebufferWriterInner = FbTtyWriter;

/// A framebuffer together with the cursor that writes text to it.
pub struct FramebufferWriter {
    fb: Framebuffer,
    inner: FramebufferWriterInner,
}

impl FramebufferWriter {
    pub closed spec fn spec_fb(&self) -> Framebuffer {
        self.fb
    }

    pub closed spec fn spec_inner(&self) -> FramebufferWriterInner {
        self.inner
    }

    /// A writer with its cursor at the top left corner of `fb`.
    pub fn new(fb: Framebuffer) -> (r: Self)
        ensures
            r.spec_fb() == fb,
            r.spec_inner().spec_x() == 0,
            r.spec_inner().spec_y() == 0,
    {
        Self { fb, inner: FramebufferWriterInner::new() }
    }

    /// The address the framebuffer is mapped at.
    pub fn fb_addr(&self) -> (r: u64)
        ensures
            r == self.spec_fb().spec_addr(),
    {
        self.fb.addr()
    }

    /// Moves the framebuffer to another address, once it is mapped there.
    pub fn set_fb_addr(&mut self, addr: u64)
        ensures
            final(self).spec_fb().spec_addr() == addr,
            final(self).spec_fb()@ == old(self).spec_fb()@,
            final(self).spec_fb().spec_info() == old(self).spec_fb().spec_info(),
            final(self).spec_inner() == old(self).spec_inner(),
    {
        self.fb.set_addr(addr);
    }

    /// The size of the framebuffer in bytes.
    pub fn fb_size(&self) -> (r: usize)
        ensures
            r == self.spec_fb()@.len(),
    {
        self.fb.len()
    }

    /// The framebuffer and the cursor.
    pub fn to_inner(self) -> (r: (Framebuffer, FramebufferWriterInner))
        ensures
            r.0 == self.spec_fb(),
            r.1 == self.spec_inner(),
    {
        (self.fb, self.inner)
    }
}

} // verus!
