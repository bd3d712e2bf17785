//! Pictures of the cursor, one after the other.

use crate::screenshot::picture::{byte_len, Picture, PictureView};
use crate::screenshot::geometry::Transform;
use crate::wayland::shm::{swap_red_and_blue, swapped, ShmImage};
use vstd::prelude::*;

verus! {

/// The buffer into which the cursor is captured.
#[derive(Debug, Clone, Copy, PartialEq, Eq, Structural)]
pub struct CursorBuffer {
    pub width: u32,
    pub height: u32,
    /// Nothing was captured into it yet.
    pub is_new: bool,
}

/// What the stream waits for.
#[derive(Debug, Clone, Copy, PartialEq, Eq, Structural)]
pub enum State {
    WaitingForFormats,
    Capturing,
}

/// A picture of the cursor.
#[derive(Debug)]
pub struct CursorFrame {
    pub image: Picture,
    /// The point of the picture that is where the cursor points.
    pub hotspot: (i32, i32),
}

/// What came of the capture that is under way.
#[derive(Debug)]
pub enum Reply {
    /// It is not done.
    Pending,
    /// It is done.
    Done,
    /// Nothing will come any more.
    Gone,
}

/// What the stream does.
#[derive(Debug)]
pub enum CursorStep {
    /// It looks after the capture that is under way.
    Poll,
    /// It waits.
    Wait,
    /// It has the cursor captured into its buffer, and waits.
    Capture,
}

/// Pictures of the cursor, one after the other.
#[derive(Debug)]
pub struct CursorStream {
    pub state: State,
    pub buffer: Option<CursorBuffer>,
}

impl CursorStream {
    /// A capture goes into a buffer.
    pub open spec fn wf(self) -> bool {
        self.state == State::Capturing ==> self.buffer is Some
    }

    /// Whether there is a buffer of a size.
    pub open spec fn has_buffer(self, size: (u32, u32)) -> bool {
        match self.buffer {
            Some(buffer) => (buffer.width, buffer.height) == size,
            None => false,
        }
    }

    /// The stream once the size of the cursor is known: with a buffer of that size. A capture into
    /// another one no longer counts.
    pub open spec fn prepared(self, size: Option<(u32, u32)>) -> CursorStream {
        match size {
            Some(size) => if self.has_buffer(size) {
                self
            } else {
                CursorStream {
                    state: State::WaitingForFormats,
                    buffer: Some(CursorBuffer { width: size.0, height: size.1, is_new: true }),
                }
            },
            None => self,
        }
    }

    /// The stream once a capture has begun, if there is a buffer for it.
    pub open spec fn started(self) -> CursorStream {
        CursorStream {
            state: match self.buffer {
                Some(_) => State::Capturing,
                None => State::WaitingForFormats,
            },
            buffer: self.buffer,
        }
    }

    /// A stream that has not started.
    pub fn new() -> (r: Self)
        ensures
            r.state == State::WaitingForFormats,
            r.buffer is None,
            r.wf(),
    {
        CursorStream { state: State::WaitingForFormats, buffer: None }
    }

    /// Takes notice of the size of the cursor, once it is known. The size is given back when a
    /// buffer of that size has to be made; a capture into another one no longer counts then.
    pub fn prepare(&mut self, size: Option<(u32, u32)>) -> (r: Option<(u32, u32)>)
        requires
            old(self).wf(),
        ensures
            final(self).wf(),
            *final(self) == old(self).prepared(size),
            r == match size {
                Some(size) => if old(self).has_buffer(size) {
                    None
                } else {
                    Some(size)
                },
                None => None,
            },
    {
        match size {
            Some((width, height)) => {
                let same = match self.buffer {
                    Some(buffer) => buffer.width == width && buffer.height == height,
                    None => false,
                };
                if same {
                    None
                } else {
                    self.buffer = Some(CursorBuffer { width, height, is_new: true });
                    self.state = State::WaitingForFormats;
                    Some((width, height))
                }
            },
            None => None,
        }
    }

    /// What comes next: to look after the capture, or else to begin one if there is a buffer.
    pub fn next_step(&mut self) -> (r: CursorStep)
        requires
            old(self).wf(),
        ensures
            final(self).wf(),
            *final(self) == old(self).started(),
            r == match (old(self).state, old(self).buffer) {
                (State::Capturing, _) => CursorStep::Poll,
                (State::WaitingForFormats, Some(_)) => CursorStep::Capture,
                (State::WaitingForFormats, None) => CursorStep::Wait,
            },
    {
        match self.state {
            State::Capturing => CursorStep::Poll,
            State::WaitingForFormats => match self.buffer {
                Some(_) => {
                    self.state = State::Capturing;
                    CursorStep::Capture
                },
                None => CursorStep::Wait,
            },
        }
    }

    /// What follows from what came of the capture. A capture that is done is read; where nothing
    /// will come, another one begins.
    pub fn on_reply(&self, reply: Reply) -> (r: Option<CursorStep>)
        requires
            self.wf(),
            self.state == State::Capturing,
        ensures
            r == match reply {
                Reply::Pending => Some(CursorStep::Wait),
                Reply::Gone => Some(CursorStep::Capture),
                Reply::Done => None,
            },
    {
        match reply {
            Reply::Pending => Some(CursorStep::Wait),
            Reply::Gone => Some(CursorStep::Capture),
            Reply::Done => None,
        }
    }

    /// Reads the buffer after a capture, given where the cursor points in it, or nothing where the
    /// cursor is not watched any more. The stream ends then, and it ends where the bytes are fewer
    /// than the pixels take.
    pub fn read_frame(&mut self, hotspot: Option<(i32, i32)>, bytes: Vec<u8>) -> (r: Option<
        CursorFrame,
    >)
        requires
            old(self).wf(),
            old(self).state == State::Capturing,
            bytes@.len() % 4 == 0,
        ensures
            final(self).wf(),
            final(self).state == old(self).state,
            ({
                let buffer = old(self).buffer->0;
                let len = byte_len(buffer.width as int, buffer.height as int);
                match hotspot {
                    Some(point) => {
                        &&& final(self).buffer == Some(CursorBuffer { is_new: false, ..buffer })
                        &&& r is Some <==> len <= bytes@.len()
                        &&& r matches Some(frame) ==> {
                            &&& frame.hotspot == point
                            &&& frame.image@ == (PictureView {
                                width: buffer.width,
                                height: buffer.height,
                                data: swapped(bytes@).take(len),
                            })
                            &&& frame.image.wf()
                        }
                    },
                    None => *final(self) == *old(self) && r is None,
                }
            }),
    {
        match (hotspot, self.buffer) {
            (Some(hotspot), Some(buffer)) => {
                self.buffer = Some(
                    CursorBuffer { width: buffer.width, height: buffer.height, is_new: false },
                );
                let mut bytes = bytes;
                swap_red_and_blue(&mut bytes);
                let memory = ShmImage {
                    width: buffer.width,
                    height: buffer.height,
                    transform: Transform::Normal,
                    data: bytes,
                };
                match memory.image() {
                    Ok(image) => Some(CursorFrame { image, hotspot }),
                    Err(_) => None,
                }
            },
            _ => None,
        }
    }
}

/// Once the size of the cursor is known, one turn of the stream is enough to have a capture under way
/// into a buffer of that size, whatever was before.
pub proof fn law_known_cursor_is_captured(stream: CursorStream, size: (u32, u32))
    requires
        stream.wf(),
    ensures
        stream.prepared(Some(size)).started().state == State::Capturing,
        stream.prepared(Some(size)).started().has_buffer(size),
{
}

} // verus!
