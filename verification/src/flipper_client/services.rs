//! The decisions of the viewer: the screen it rebuilds from the frames it receives, and the
//! image it shows after each.
use crate::error::ReceiveError;
use crate::flipper_core::message::{Config, EntryModel, MessageEntry};
use crate::flipper_core::utils::{
    decompress, frame_to_img_bytes, img_bytes, img_layout_fits, is_xor_delta, lemma_img_bytes_pixels,
    lemma_xor_delta, lemma_xor_zip_delta, xor_in_place, xor_zip, zlib_decompressed,
};
use vstd::prelude::*;

verus! {

/// The state of the viewer: the screen geometry and the screen rebuilt so far.
pub struct FrameReceiver {
    width: usize,
    height: usize,
    last_frame: Vec<u8>,
}

impl FrameReceiver {
    /// The screen rebuilt so far.
    pub closed spec fn screen(&self) -> Seq<u8> {
        self.last_frame@
    }

    /// The width of the screen, in pixels.
    pub closed spec fn width(&self) -> usize {
        self.width
    }

    /// The height of the screen, in pixels.
    pub closed spec fn height(&self) -> usize {
        self.height
    }

    /// Whether every frame received can be shown as an image.
    pub open spec fn renders(&self) -> bool {
        img_layout_fits(self.screen().len() as int, self.width() as int, self.height() as int)
    }

    /// Starts from the configuration of a session: an all-zero screen of `frame_size` bytes.
    /// A size over `isize::MAX` is left out: such a screen cannot be allocated.
    pub fn new(config: &Config) -> (r: Self)
        requires
            config.frame_size <= isize::MAX,
        ensures
            r.screen() == Seq::new(config.frame_size as nat, |i: int| 0u8),
            r.width() == config.width as usize,
            r.height() == config.height as usize,
    {
        let last_frame = vec![0u8; config.frame_size as usize];
        assert(last_frame@ =~= Seq::new(config.frame_size as nat, |i: int| 0u8));
        FrameReceiver {
            width: config.width as usize,
            height: config.height as usize,
            last_frame,
        }
    }

    /// Whether every frame received can be shown as an image.
    pub fn can_render(&self) -> (b: bool)
        ensures
            b == self.renders(),
    {
        crate::flipper_core::utils::img_layout_ok(self.last_frame.len(), self.width, self.height)
    }

    /// What handling a message with view `msg` gives, and the screen after it.
    pub open spec fn outcome(&self, msg: EntryModel) -> (Result<Option<Seq<u8>>, ReceiveError>, Seq<u8>) {
        receive_outcome(self.screen(), self.width() as int, self.height() as int, msg)
    }

    /// Starts a session from its first message, which must be a configuration; gives `None`
    /// for any other message. A frame size over `isize::MAX` is left out: such a screen cannot
    /// be allocated.
    pub fn start(first: MessageEntry) -> (r: Option<Self>)
        requires
            first matches MessageEntry::Config(c) ==> c.frame_size <= isize::MAX,
        ensures
            r is Some <==> first is Config,
            first matches MessageEntry::Config(c) ==> r matches Some(v) && v.screen() == Seq::new(
                c.frame_size as nat,
                |i: int| 0u8,
            ) && v.width() == c.width as usize && v.height() == c.height as usize,
    {
        match first {
            MessageEntry::Config(config) => Some(FrameReceiver::new(&config)),
            _ => None,
        }
    }

    /// Handles a received message: a frame is decompressed and xored into the screen, and
    /// the image of the new screen is given; any other message is passed over. A frame that
    /// decompresses onto a screen that cannot be shown is left out.
    pub fn on_message(&mut self, msg: MessageEntry) -> (r: Result<Option<Vec<u8>>, ReceiveError>)
        requires
            msg matches MessageEntry::Frame(f) && zlib_decompressed(f@) is Some ==> old(
                self,
            ).renders(),
        ensures
            final(self).width() == old(self).width(),
            final(self).height() == old(self).height(),
            final(self).screen() == old(self).outcome(msg@).1,
            r is Ok <==> old(self).outcome(msg@).0 is Ok,
            r matches Ok(None) ==> old(self).outcome(msg@).0 == Ok::<
                Option<Seq<u8>>,
                ReceiveError,
            >(None),
            r matches Ok(Some(img)) ==> old(self).outcome(msg@).0 == Ok::<
                Option<Seq<u8>>,
                ReceiveError,
            >(Some(img@)),
            r matches Err(e) ==> old(self).outcome(msg@).0 == Err::<Option<Seq<u8>>, ReceiveError>(
                e,
            ),
    {
        match msg {
            MessageEntry::Frame(frame) => {
                let decompressed_bytes = match decompress(frame.0.as_slice()) {
                    Ok(d) => d,
                    Err(_) => return Err(ReceiveError::Decompress),
                };
                xor_in_place(&mut self.last_frame, decompressed_bytes.as_slice());
                let img_bytes = frame_to_img_bytes(
                    self.last_frame.as_slice(),
                    self.width,
                    self.height,
                );
                Ok(Some(img_bytes))
            },
            _ => Ok(None),
        }
    }

    /// Handles a received message as `on_message` does, and refuses a frame that decompresses
    /// onto a screen that cannot be shown, leaving the screen as it was.
    pub fn handle(&mut self, msg: MessageEntry) -> (r: Result<Option<Vec<u8>>, ReceiveError>)
        ensures
            final(self).width() == old(self).width(),
            final(self).height() == old(self).height(),
            final(self).screen() == old(self).outcome(msg@).1,
            r is Ok <==> old(self).outcome(msg@).0 is Ok,
            r matches Ok(None) ==> old(self).outcome(msg@).0 == Ok::<
                Option<Seq<u8>>,
                ReceiveError,
            >(None),
            r matches Ok(Some(img)) ==> old(self).outcome(msg@).0 == Ok::<
                Option<Seq<u8>>,
                ReceiveError,
            >(Some(img@)),
            r matches Err(e) ==> old(self).outcome(msg@).0 == Err::<Option<Seq<u8>>, ReceiveError>(
                e,
            ),
    {
        if let MessageEntry::Frame(frame) = &msg {
            if !self.can_render() {
                return match decompress(frame.0.as_slice()) {
                    Ok(_) => Err(ReceiveError::ImageLayout),
                    Err(_) => Err(ReceiveError::Decompress),
                };
            }
        }
        self.on_message(msg)
    }
}

/// What the viewer does with a message with view `msg` on the screen `screen` of a `width` by
/// `height` image: the result, and the screen after it. A frame is decompressed and xored into
/// the screen, and the image of the new screen is the result; a frame that does not decompress,
/// or whose screen cannot be shown, is refused and the screen stays; any other message is
/// passed over.
pub open spec fn receive_outcome(screen: Seq<u8>, width: int, height: int, msg: EntryModel) -> (
    Result<Option<Seq<u8>>, ReceiveError>,
    Seq<u8>,
) {
    match msg {
        EntryModel::Config(_) => (Ok(None), screen),
        EntryModel::Frame(f) => match zlib_decompressed(f) {
            None => (Err(ReceiveError::Decompress), screen),
            Some(d) => if !img_layout_fits(screen.len() as int, width, height) {
                (Err(ReceiveError::ImageLayout), screen)
            } else {
                (Ok(Some(img_bytes(xor_zip(screen, d), width, height))), xor_zip(screen, d))
            },
        },
    }
}

/// A frame made from the last screen and a new screen of the same length brings a viewer that
/// holds the last screen to the new one.
pub proof fn lemma_screens_stay_in_sync(last: Seq<u8>, new: Seq<u8>, sent: Seq<u8>)
    requires
        last.len() == new.len(),
        zlib_decompressed(sent) == Some(xor_zip(last, new)),
    ensures
        xor_zip(last, zlib_decompressed(sent)->Some_0) == new,
{
    lemma_xor_delta(last, new);
}

/// The first frame, the whole first screen compressed, brings the all-zero screen of the
/// configured size to the first screen.
pub proof fn lemma_first_frame_restores(first: Seq<u8>, sent: Seq<u8>)
    requires
        zlib_decompressed(sent) == Some(first),
    ensures
        xor_zip(Seq::new(first.len(), |i: int| 0u8), zlib_decompressed(sent)->Some_0) == first,
{
    let zeros = Seq::new(first.len(), |i: int| 0u8);
    assert forall|i: int| 0 <= i < first.len() implies #[trigger] xor_zip(zeros, first)[i]
        == first[i] by {
        let y = first[i];
        assert(0u8 ^ y == y) by (bit_vector);
    }
    assert(xor_zip(zeros, first) =~= first);
}

/// A screen of `n` zero bytes.
pub open spec fn blank_screen(n: nat) -> Seq<u8> {
    Seq::new(n, |j: int| 0u8)
}

/// The screen that the viewer holds after taking the frames `frames`, in order, from `screen`.
pub open spec fn screen_after_frames(
    screen: Seq<u8>,
    width: int,
    height: int,
    frames: Seq<Seq<u8>>,
) -> Seq<u8>
    decreases frames.len(),
{
    if frames.len() == 0 {
        screen
    } else {
        receive_outcome(
            screen_after_frames(screen, width, height, frames.drop_last()),
            width,
            height,
            EntryModel::Frame(frames.last()),
        ).1
    }
}

/// An image given for a frame has four bytes per pixel of the configured geometry, and the
/// pixel at column `x` of row `y` is the new screen's bytes at
/// `i = (len / height) * y + 4 * x` taken as `s[i + 2], s[i + 1], s[i]`, then alpha 255; the new
/// screen is as long as the old.
pub proof fn lemma_received_image(screen: Seq<u8>, width: int, height: int, f: Seq<u8>)
    requires
        receive_outcome(screen, width, height, EntryModel::Frame(f)).0 is Ok,
    ensures
        ({
            let (r, s) = receive_outcome(screen, width, height, EntryModel::Frame(f));
            &&& s.len() == screen.len()
            &&& r matches Ok(Some(img))
            &&& img.len() == 4 * width * height
            &&& forall|y: int, x: int|
                0 <= y < height && 0 <= x < width ==> #[trigger] img.subrange(
                    4 * (y * width + x),
                    4 * (y * width + x) + 4,
                ) == seq![
                    s[(s.len() as int / height) * y + 4 * x + 2],
                    s[(s.len() as int / height) * y + 4 * x + 1],
                    s[(s.len() as int / height) * y + 4 * x],
                    255u8,
                ]
        }),
{
    let d = zlib_decompressed(f)->Some_0;
    lemma_img_bytes_pixels(xor_zip(screen, d), width, height);
}

/// The viewer rebuilds every screen the sender captured: starting from the all-zero screen,
/// after taking the first frame (the whole first screen) and then each delta between
/// successive screens, it holds the latest screen, and the image it gives for each frame is the
/// image of that screen.
pub proof fn lemma_viewer_rebuilds_screens(
    width: int,
    height: int,
    screens: Seq<Seq<u8>>,
    frames: Seq<Seq<u8>>,
)
    requires
        screens.len() > 0,
        frames.len() == screens.len(),
        forall|i: int| 0 <= i < screens.len() ==> (#[trigger] screens[i]).len() == screens[0].len(),
        img_layout_fits(screens[0].len() as int, width, height),
        zlib_decompressed(frames[0]) == Some(screens[0]),
        forall|i: int|
            0 < i < frames.len() ==> (#[trigger] zlib_decompressed(frames[i])) is Some
                && is_xor_delta(zlib_decompressed(frames[i])->Some_0, screens[i - 1], screens[i]),
    ensures
        forall|k: int|
            1 <= k <= frames.len() ==> #[trigger] screen_after_frames(
                blank_screen(screens[0].len()),
                width,
                height,
                frames.take(k),
            ) == screens[k - 1],
        forall|k: int|
            1 <= k <= frames.len() ==> #[trigger] receive_outcome(
                screen_after_frames(
                    blank_screen(screens[0].len()),
                    width,
                    height,
                    frames.take(k - 1),
                ),
                width,
                height,
                EntryModel::Frame(frames[k - 1]),
            ).0 == Ok::<Option<Seq<u8>>, ReceiveError>(
                Some(img_bytes(screens[k - 1], width, height)),
            ),
{
    let zeros = blank_screen(screens[0].len());
    assert forall|k: int| 1 <= k <= frames.len() implies #[trigger] screen_after_frames(
        zeros,
        width,
        height,
        frames.take(k),
    ) == screens[k - 1] by {
        lemma_viewer_step(width, height, screens, frames, k);
    }
    assert forall|k: int| 1 <= k <= frames.len() implies #[trigger] receive_outcome(
        screen_after_frames(zeros, width, height, frames.take(k - 1)),
        width,
        height,
        EntryModel::Frame(frames[k - 1]),
    ).0 == Ok::<Option<Seq<u8>>, ReceiveError>(Some(img_bytes(screens[k - 1], width, height))) by {
        lemma_viewer_step(width, height, screens, frames, k);
    }
}

proof fn lemma_viewer_step(
    width: int,
    height: int,
    screens: Seq<Seq<u8>>,
    frames: Seq<Seq<u8>>,
    k: int,
)
    requires
        screens.len() > 0,
        frames.len() == screens.len(),
        forall|i: int| 0 <= i < screens.len() ==> (#[trigger] screens[i]).len() == screens[0].len(),
        img_layout_fits(screens[0].len() as int, width, height),
        zlib_decompressed(frames[0]) == Some(screens[0]),
        forall|i: int|
            0 < i < frames.len() ==> (#[trigger] zlib_decompressed(frames[i])) is Some
                && is_xor_delta(zlib_decompressed(frames[i])->Some_0, screens[i - 1], screens[i]),
        1 <= k <= frames.len(),
    ensures
        screen_after_frames(
            blank_screen(screens[0].len()),
            width,
            height,
            frames.take(k),
        ) == screens[k - 1],
        receive_outcome(
            screen_after_frames(
                blank_screen(screens[0].len()),
                width,
                height,
                frames.take(k - 1),
            ),
            width,
            height,
            EntryModel::Frame(frames[k - 1]),
        ).0 == Ok::<Option<Seq<u8>>, ReceiveError>(Some(img_bytes(screens[k - 1], width, height))),
    decreases k,
{
    let zeros = blank_screen(screens[0].len());
    let before = screen_after_frames(zeros, width, height, frames.take(k - 1));
    assert(frames.take(k).drop_last() =~= frames.take(k - 1));
    assert(frames.take(k).last() == frames[k - 1]);
    if k == 1 {
        assert(frames.take(0) =~= Seq::<Seq<u8>>::empty());
        assert(before == zeros);
        lemma_first_frame_restores(screens[0], frames[0]);
        assert(zeros =~= Seq::new(screens[0].len(), |i: int| 0u8));
    } else {
        lemma_viewer_step(width, height, screens, frames, k - 1);
        assert(before == screens[k - 2]);
        assert(screens[k - 1].len() == screens[0].len());
        assert(screens[k - 2].len() == screens[0].len());
        let d = zlib_decompressed(frames[k - 1])->Some_0;
        lemma_xor_zip_delta(screens[k - 2], screens[k - 1], d);
    }
}

} // verus!
