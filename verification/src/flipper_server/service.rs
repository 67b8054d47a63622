//! The decisions of the video service: the configuration that opens a session, and, for each
//! captured screen, whether to send a frame and which.
use crate::error::CompressionError;
use crate::flipper_core::message::{Config, Frame};
use crate::flipper_core::utils::{
    bytes_equal, compress, xor_in_place, xor_zip, zlib_compressed, zlib_decompressed,
};
use vstd::prelude::*;

verus! {

/// The state of the video service: the screen that the other end holds last.
pub struct FrameSender {
    last_frame: Vec<u8>,
}

impl View for FrameSender {
    type V = Seq<u8>;

    closed spec fn view(&self) -> Seq<u8> {
        self.last_frame@
    }
}

impl FrameSender {
    /// Starts a session with the first captured screen of a `width` by `height` window; gives
    /// the configuration to send first, with the size of that screen as the frame size.
    pub fn start(width: usize, height: usize, first_frame: Vec<u8>) -> (r: (Self, Config))
        ensures
            r.0@ == first_frame@,
            r.1.width == width as u64,
            r.1.height == height as u64,
            r.1.frame_size == first_frame@.len() as u64,
    {
        let config = Config::new(width as u64, height as u64, first_frame.len() as u64);
        (FrameSender { last_frame: first_frame }, config)
    }

    /// Starts from an all-zero screen of `screen_size` bytes, so that the first captured screen
    /// is sent whole as the first delta. A size over `isize::MAX` is left out: such a screen
    /// cannot be allocated.
    pub fn blank(screen_size: u64) -> (s: Self)
        requires
            screen_size <= isize::MAX,
        ensures
            s@ == Seq::new(screen_size as nat, |i: int| 0u8),
    {
        let last_frame = vec![0u8; screen_size as usize];
        assert(last_frame@ =~= Seq::new(screen_size as nat, |i: int| 0u8));
        FrameSender { last_frame }
    }

    /// The frame that follows the configuration: the whole first screen, compressed.
    pub fn first_frame(&self) -> (r: Result<Frame, CompressionError>)
        ensures
            r is Ok,
            r matches Ok(f) ==> f@ == zlib_compressed(self@) && zlib_decompressed(f@) == Some(
                self@,
            ),
    {
        match compress(self.last_frame.as_slice()) {
            Ok(bytes) => Ok(Frame(bytes)),
            Err(e) => Err(e),
        }
    }

    /// Handles a newly captured screen: nothing to send when it equals the last one, else the
    /// compressed xor of the two, after which the new screen is the last one.
    pub fn on_capture(&mut self, new_frame: Vec<u8>) -> (r: Result<Option<Frame>, CompressionError>)
        ensures
            old(self)@ == new_frame@ ==> r is Ok && r->Ok_0 is None,
            old(self)@ == new_frame@ ==> final(self)@ == old(self)@,
            old(self)@ != new_frame@ ==> r matches Ok(Some(_)),
            r matches Ok(Some(f)) ==> f@ == zlib_compressed(xor_zip(old(self)@, new_frame@)),
            r matches Ok(Some(f)) ==> zlib_decompressed(f@) == Some(xor_zip(old(self)@, new_frame@)),
            r matches Ok(Some(f)) ==> final(self)@ == new_frame@,
    {
        if bytes_equal(self.last_frame.as_slice(), new_frame.as_slice()) {
            return Ok(None);
        }
        let mut delta = self.last_frame.clone();
        xor_in_place(&mut delta, new_frame.as_slice());
        match compress(delta.as_slice()) {
            Ok(bytes) => {
                self.last_frame = new_frame;
                Ok(Some(Frame(bytes)))
            },
            Err(e) => Err(e),
        }
    }
}

} // verus!
