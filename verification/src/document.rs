//! Pacing of the drawing sent to a document window.
//!
//! Drawing instructions collect while the scene is busy; once it is idle they
//! are sent to the window, but no more than one batch per frame: the next batch
//! waits until the window reports a new frame. A request to clear the canvas
//! drops everything that was waiting before it. A change of window size sends
//! what is waiting at once, unless a frame is still being drawn.

use vstd::prelude::*;

verus! {

/// The size of a document window when it opens.
pub open spec fn initial_size() -> (usize, usize) {
    (1000, 1000)
}

/// The mathematical state of the pacing.
pub struct FramesModel<T> {
    /// Drawing instructions waiting to be sent
    pub pending: Seq<T>,
    /// A batch was sent and the window has not reported a new frame since
    pub waiting_for_new_frame: bool,
    /// An idle notification was asked for and has not arrived
    pub waiting_for_idle: bool,
    /// The window size that drawing was last flushed for
    pub size: (usize, usize),
    /// The window size most recently requested
    pub requested_size: (usize, usize),
}

/// The pacing of the drawing sent to a document window.
pub struct DocumentFrames<T> {
    pending: Vec<T>,
    waiting_for_new_frame: bool,
    waiting_for_idle: bool,
    size: (usize, usize),
    requested_size: (usize, usize),
}

impl<T> View for DocumentFrames<T> {
    type V = FramesModel<T>;

    closed spec fn view(&self) -> FramesModel<T> {
        FramesModel {
            pending: self.pending@,
            waiting_for_new_frame: self.waiting_for_new_frame,
            waiting_for_idle: self.waiting_for_idle,
            size: self.size,
            requested_size: self.requested_size,
        }
    }
}

/// One drawing instruction arrives: a clear of the canvas replaces everything waiting.
pub open spec fn spec_draw_item<T>(m: FramesModel<T>, item: T, clears_canvas: bool) -> FramesModel<T> {
    FramesModel { pending: if clears_canvas { seq![item] } else { m.pending.push(item) }, ..m }
}

/// A batch of drawing has arrived: an idle notification is asked for unless one is awaited.
pub open spec fn spec_drawing_done<T>(m: FramesModel<T>) -> (FramesModel<T>, bool) {
    if m.waiting_for_idle { (m, false) } else { (FramesModel { waiting_for_idle: true, ..m }, true) }
}

/// The window reports a new frame: if drawing is waiting, an idle notification is asked for
/// (unless one is awaited).
pub open spec fn spec_new_frame<T>(m: FramesModel<T>) -> (FramesModel<T>, bool) {
    let m1 = FramesModel { waiting_for_new_frame: false, ..m };
    if m1.pending.len() > 0 && !m1.waiting_for_idle {
        (FramesModel { waiting_for_idle: true, ..m1 }, true)
    } else {
        (m1, false)
    }
}

/// The scene is idle: what is waiting is sent, unless nothing is or a frame is being drawn.
pub open spec fn spec_idle<T>(m: FramesModel<T>) -> (FramesModel<T>, Option<Seq<T>>) {
    let m1 = FramesModel { waiting_for_idle: false, ..m };
    if m1.pending.len() > 0 && !m1.waiting_for_new_frame {
        (FramesModel { pending: Seq::empty(), waiting_for_new_frame: true, ..m1 }, Some(m1.pending))
    } else {
        (m1, None)
    }
}

/// The window was resized (the last request in a batch of requests counts).
pub open spec fn spec_resize<T>(m: FramesModel<T>, w: usize, h: usize) -> FramesModel<T> {
    FramesModel { requested_size: (w, h), ..m }
}

/// The end of a batch of requests: if the size changed, what is waiting is sent at once
/// (even if it is nothing), unless a frame is being drawn.
pub open spec fn spec_end_of_batch<T>(m: FramesModel<T>) -> (FramesModel<T>, Option<Seq<T>>) {
    if m.requested_size != m.size {
        let m1 = FramesModel { size: m.requested_size, ..m };
        if !m1.waiting_for_new_frame {
            (FramesModel { pending: Seq::empty(), waiting_for_new_frame: true, ..m1 }, Some(m1.pending))
        } else {
            (m1, None)
        }
    } else {
        (m, None)
    }
}

impl<T> DocumentFrames<T> {
    /// A window with nothing waiting, at its initial size.
    pub fn new() -> (d: Self)
        ensures
            d@.pending == Seq::<T>::empty(),
            !d@.waiting_for_new_frame,
            !d@.waiting_for_idle,
            d@.size == initial_size(),
            d@.requested_size == initial_size(),
    {
        DocumentFrames {
            pending: Vec::new(),
            waiting_for_new_frame: false,
            waiting_for_idle: false,
            size: (1000, 1000),
            requested_size: (1000, 1000),
        }
    }

    /// Takes the waiting drawing.
    fn take_pending(&mut self) -> (r: Vec<T>)
        ensures
            r@ == old(self)@.pending,
            final(self)@ == (FramesModel { pending: Seq::empty(), ..old(self)@ }),
    {
        let mut taken: Vec<T> = Vec::new();
        std::mem::swap(&mut taken, &mut self.pending);
        assert(self@ =~= (FramesModel { pending: Seq::empty(), ..old(self)@ }));
        taken
    }

    /// One drawing instruction arrives.
    pub fn draw_item(&mut self, item: T, clears_canvas: bool)
        ensures
            final(self)@ == spec_draw_item(old(self)@, item, clears_canvas),
    {
        if clears_canvas {
            let mut v: Vec<T> = Vec::new();
            v.push(item);
            self.pending = v;
            assert(self.pending@ =~= seq![item]);
        } else {
            self.pending.push(item);
        }
    }

    /// A batch of drawing has arrived; true if the host must ask for an idle notification.
    pub fn drawing_done(&mut self) -> (ask_idle: bool)
        ensures
            (final(self)@, ask_idle) == spec_drawing_done(old(self)@),
    {
        if self.waiting_for_idle {
            false
        } else {
            self.waiting_for_idle = true;
            true
        }
    }

    /// The window reports a new frame; true if the host must ask for an idle notification.
    pub fn new_frame(&mut self) -> (ask_idle: bool)
        ensures
            (final(self)@, ask_idle) == spec_new_frame(old(self)@),
    {
        self.waiting_for_new_frame = false;
        if self.pending.len() > 0 && !self.waiting_for_idle {
            self.waiting_for_idle = true;
            true
        } else {
            false
        }
    }

    /// The scene is idle; returns the drawing to send to the window, if any.
    pub fn idle(&mut self) -> (send: Option<Vec<T>>)
        ensures
            final(self)@ == spec_idle(old(self)@).0,
            match send {
                Some(v) => spec_idle(old(self)@).1 == Some(v@),
                None => spec_idle(old(self)@).1.is_none(),
            },
    {
        self.waiting_for_idle = false;
        if self.pending.len() > 0 && !self.waiting_for_new_frame {
            let taken = self.take_pending();
            self.waiting_for_new_frame = true;
            Some(taken)
        } else {
            None
        }
    }

    /// The window asks to be resized.
    pub fn resize(&mut self, w: usize, h: usize)
        ensures
            final(self)@ == spec_resize(old(self)@, w, h),
    {
        self.requested_size = (w, h);
    }

    /// A batch of requests has been handled; returns the drawing to send at once, if any.
    pub fn end_of_batch(&mut self) -> (send: Option<Vec<T>>)
        ensures
            final(self)@ == spec_end_of_batch(old(self)@).0,
            match send {
                Some(v) => spec_end_of_batch(old(self)@).1 == Some(v@),
                None => spec_end_of_batch(old(self)@).1.is_none(),
            },
    {
        if self.requested_size.0 != self.size.0 || self.requested_size.1 != self.size.1 {
            self.size = self.requested_size;
            if !self.waiting_for_new_frame {
                let taken = self.take_pending();
                self.waiting_for_new_frame = true;
                Some(taken)
            } else {
                None
            }
        } else {
            None
        }
    }
}

/// Nothing is sent to the window while a frame is being drawn: an idle notification and the
/// end of a batch send nothing until the window reports a new frame.
pub proof fn law_one_batch_per_frame<T>(m: FramesModel<T>)
    requires
        m.waiting_for_new_frame,
    ensures
        spec_idle(m).1.is_none(),
        spec_end_of_batch(m).1.is_none(),
        spec_idle(m).0.waiting_for_new_frame,
        spec_end_of_batch(m).0.waiting_for_new_frame,
{
}

/// Nothing is lost: what the window is sent on idle is exactly what was waiting, and a clear
/// of the canvas leaves only itself waiting.
pub proof fn law_idle_sends_what_waits<T>(m: FramesModel<T>, item: T)
    requires
        !m.waiting_for_new_frame,
    ensures
        spec_idle(spec_draw_item(m, item, false)).1 == Some(m.pending.push(item)),
        spec_idle(spec_draw_item(m, item, true)).1 == Some(seq![item]),
{
}

} // verus!
