//! Buffers between a stream of frames and a reader or writer of bytes. The
//! stream itself is polled elsewhere; here is what is decided between the
//! polls.

use vstd::prelude::*;

verus! {

/// What polling the receiver gave.
pub enum ReceiverEvent<M> {
    /// A frame came. The receiver is handed back.
    Frame(Vec<u8>, M),
    /// The stream ended.
    End,
    /// Nothing is there yet. The receiver is handed back.
    NotReady(M),
    /// The stream failed.
    Failed,
}

/// What a read does next.
#[derive(Clone, Copy, Debug, PartialEq, Eq, Structural)]
pub enum ReadStep {
    /// The read returns this many bytes.
    Done(usize),
    /// More bytes are pending: copy them, then poll again if the buffer has
    /// room left.
    Continue,
    /// The read fails: nothing was read and nothing is there yet.
    WouldBlock,
    /// The read fails: the stream failed.
    BrokenPipe,
}

/// Turns a receiver of frames into a source of bytes.
pub struct AsyncReader<M> {
    /// The receiver, while it is neither taken out to be polled nor gone.
    pub opt_receiver: Option<M>,
    /// Bytes of the last frame that no read has taken yet.
    pub pending_in: Vec<u8>,
}

impl<M> AsyncReader<M> {
    /// A reader over a receiver, with nothing pending.
    pub fn new(receiver: M) -> (reader: Self)
        ensures
            reader.opt_receiver == Some(receiver),
            reader.pending_in@.len() == 0,
    {
        AsyncReader { opt_receiver: Some(receiver), pending_in: Vec::new() }
    }

    /// Moves pending bytes into `buf` from `start` on: as many as are
    /// pending and fit. Returns how many.
    pub fn read_pending(&mut self, buf: &mut Vec<u8>, start: usize) -> (copied: usize)
        requires
            start <= old(buf)@.len(),
        ensures
            copied == if old(buf)@.len() - start <= old(self).pending_in@.len() {
                old(buf)@.len() - start
            } else {
                old(self).pending_in@.len() as int
            },
            final(buf)@ == old(buf)@.take(start as int) + old(self).pending_in@.take(copied as int)
                + old(buf)@.skip(start + copied),
            final(self).pending_in@ == old(self).pending_in@.skip(copied as int),
            final(self).opt_receiver == old(self).opt_receiver,
    {
        let len = buf.len();
        let room = len - start;
        let copied = if room <= self.pending_in.len() {
            room
        } else {
            self.pending_in.len()
        };
        let mut i: usize = 0;
        while i < copied
            invariant
                0 <= i <= copied,
                start + copied <= len,
                copied <= self.pending_in@.len(),
                start + copied <= buf@.len(),
                buf@.len() == old(buf)@.len(),
                self.pending_in@ == old(self).pending_in@,
                self.opt_receiver == old(self).opt_receiver,
                buf@ == old(buf)@.take(start as int) + old(self).pending_in@.take(i as int) + old(buf)@.skip(start + i),
            decreases copied - i,
        {
            buf[start + i] = self.pending_in[i];
            proof {
                assert(buf@ =~= old(buf)@.take(start as int) + old(self).pending_in@.take(i + 1)
                    + old(buf)@.skip(start + i + 1));
            }
            i += 1;
        }
        let mut rest: Vec<u8> = Vec::new();
        let mut k: usize = copied;
        while k < self.pending_in.len()
            invariant
                copied <= k <= self.pending_in@.len(),
                self.pending_in@ == old(self).pending_in@,
                self.opt_receiver == old(self).opt_receiver,
                rest@ == old(self).pending_in@.subrange(copied as int, k as int),
            decreases self.pending_in@.len() - k,
        {
            rest.push(self.pending_in[k]);
            proof {
                assert(rest@ =~= old(self).pending_in@.subrange(copied as int, k + 1));
            }
            k += 1;
        }
        proof {
            assert(rest@ =~= old(self).pending_in@.skip(copied as int));
        }
        self.pending_in = rest;
        copied
    }

    /// Takes the receiver out, to poll it.
    pub fn take_receiver(&mut self) -> (receiver: Option<M>)
        ensures
            receiver == old(self).opt_receiver,
            final(self).opt_receiver is None,
            final(self).pending_in == old(self).pending_in,
    {
        self.opt_receiver.take()
    }

    /// Decides what a read does after the receiver was polled, given how
    /// many bytes the read has so far.
    ///
    /// A frame becomes the pending bytes, and the read goes on. The end of
    /// the stream ends the read with what it has. When nothing is there yet,
    /// the read returns what it has if it has anything, and would block if
    /// not. A failed stream breaks the read. The receiver is kept unless the
    /// stream ended or failed.
    pub fn after_poll(&mut self, event: ReceiverEvent<M>, total_read: usize) -> (step: ReadStep)
        ensures
            match event {
                ReceiverEvent::Frame(data, receiver) => {
                    &&& step == ReadStep::Continue
                    &&& final(self).pending_in == data
                    &&& final(self).opt_receiver == Some(receiver)
                },
                ReceiverEvent::End => {
                    &&& step == ReadStep::Done(total_read)
                    &&& *final(self) == *old(self)
                },
                ReceiverEvent::NotReady(receiver) => {
                    &&& step == if total_read > 0 {
                        ReadStep::Done(total_read)
                    } else {
                        ReadStep::WouldBlock
                    }
                    &&& final(self).pending_in == old(self).pending_in
                    &&& final(self).opt_receiver == Some(receiver)
                },
                ReceiverEvent::Failed => {
                    &&& step == ReadStep::BrokenPipe
                    &&& *final(self) == *old(self)
                },
            },
    {
        match event {
            ReceiverEvent::Frame(data, receiver) => {
                self.opt_receiver = Some(receiver);
                self.pending_in = data;
                ReadStep::Continue
            },
            ReceiverEvent::End => ReadStep::Done(total_read),
            ReceiverEvent::NotReady(receiver) => {
                self.opt_receiver = Some(receiver);
                if total_read > 0 {
                    ReadStep::Done(total_read)
                } else {
                    ReadStep::WouldBlock
                }
            },
            ReceiverEvent::Failed => ReadStep::BrokenPipe,
        }
    }
}

/// What handing a frame to the sender gave.
pub enum SenderEvent {
    /// The sender took the frame.
    Ready,
    /// The sender is full, and hands the frame back.
    NotReady(Vec<u8>),
    /// The sink failed.
    Failed,
}

/// What a write does next.
#[derive(Clone, Copy, Debug, PartialEq, Eq, Structural)]
pub enum WriteStep {
    /// The write returns this many bytes.
    Done(usize),
    /// The frame is gone: buffer more bytes if there are any.
    Continue,
    /// The write fails: nothing was written and the sender is full.
    WouldBlock,
    /// The write fails: the sink failed.
    BrokenPipe,
}

/// Turns a sender of frames into a sink of bytes.
pub struct AsyncWriter<K> {
    /// The sender, while it is neither taken out to be used nor gone.
    pub opt_sender: Option<K>,
    /// Bytes that no frame has taken yet.
    pub pending_out: Vec<u8>,
    /// The most bytes that a frame holds.
    pub max_frame_len: usize,
}

impl<K> AsyncWriter<K> {
    /// No more bytes are pending than a frame holds.
    pub open spec fn wf(&self) -> bool {
        self.pending_out@.len() <= self.max_frame_len
    }

    /// A writer over a sender, with nothing pending.
    pub fn new(sender: K, max_frame_len: usize) -> (writer: Self)
        ensures
            writer.wf(),
            writer.opt_sender == Some(sender),
            writer.pending_out@.len() == 0,
            writer.max_frame_len == max_frame_len,
    {
        AsyncWriter { opt_sender: Some(sender), pending_out: Vec::new(), max_frame_len }
    }

    /// Buffers bytes of `buf` from `start` on: as many as are there and fit
    /// into the frame. Returns how many.
    pub fn buffer(&mut self, buf: &[u8], start: usize) -> (taken: usize)
        requires
            old(self).wf(),
            start <= buf@.len(),
        ensures
            final(self).wf(),
            taken == if buf@.len() - start <= old(self).max_frame_len - old(self).pending_out@.len() {
                buf@.len() - start
            } else {
                old(self).max_frame_len - old(self).pending_out@.len()
            },
            final(self).pending_out@ == old(self).pending_out@ + buf@.subrange(
                start as int,
                start + taken,
            ),
            final(self).max_frame_len == old(self).max_frame_len,
            final(self).opt_sender == old(self).opt_sender,
    {
        let free_bytes = self.max_frame_len - self.pending_out.len();
        let len = buf.len();
        let rest = len - start;
        let taken = if rest <= free_bytes {
            rest
        } else {
            free_bytes
        };
        let mut i: usize = 0;
        while i < taken
            invariant
                0 <= i <= taken,
                start + taken <= len,
                start + taken <= buf@.len(),
                old(self).pending_out@.len() + taken <= self.max_frame_len,
                self.max_frame_len == old(self).max_frame_len,
                self.opt_sender == old(self).opt_sender,
                self.pending_out@ == old(self).pending_out@ + buf@.subrange(
                    start as int,
                    start + i,
                ),
            decreases taken - i,
        {
            self.pending_out.push(buf[start + i]);
            proof {
                assert(self.pending_out@ =~= old(self).pending_out@ + buf@.subrange(
                    start as int,
                    start + i + 1,
                ));
            }
            i += 1;
        }
        taken
    }

    /// Takes the pending bytes out as a frame, to hand them to the sender.
    pub fn take_frame(&mut self) -> (frame: Vec<u8>)
        ensures
            frame == old(self).pending_out,
            final(self).pending_out@.len() == 0,
            final(self).wf(),
            final(self).max_frame_len == old(self).max_frame_len,
            final(self).opt_sender == old(self).opt_sender,
    {
        let mut frame: Vec<u8> = Vec::new();
        core::mem::swap(&mut self.pending_out, &mut frame);
        frame
    }

    /// Takes the sender out, to use it.
    pub fn take_sender(&mut self) -> (sender: Option<K>)
        ensures
            sender == old(self).opt_sender,
            final(self).opt_sender is None,
            final(self).pending_out == old(self).pending_out,
            final(self).max_frame_len == old(self).max_frame_len,
    {
        self.opt_sender.take()
    }

    /// Puts the sender back.
    pub fn restore_sender(&mut self, sender: K)
        ensures
            final(self).opt_sender == Some(sender),
            final(self).pending_out == old(self).pending_out,
            final(self).max_frame_len == old(self).max_frame_len,
    {
        self.opt_sender = Some(sender);
    }

    /// Decides what a write does after a frame was handed to the sender,
    /// given how many bytes the write has buffered so far.
    ///
    /// When the sender took the frame, the write goes on. When the sender is
    /// full, the frame is pending again, and the write returns what it has
    /// buffered if that is anything, and would block if not. A failed sink
    /// breaks the write.
    pub fn after_send(&mut self, event: SenderEvent, total_write: usize) -> (step: WriteStep)
        requires
            old(self).pending_out@.len() == 0,
            event matches SenderEvent::NotReady(frame) ==> frame@.len() <= old(self).max_frame_len,
        ensures
            final(self).wf(),
            final(self).max_frame_len == old(self).max_frame_len,
            final(self).opt_sender == old(self).opt_sender,
            match event {
                SenderEvent::Ready => {
                    &&& step == WriteStep::Continue
                    &&& final(self).pending_out == old(self).pending_out
                },
                SenderEvent::NotReady(frame) => {
                    &&& step == if total_write > 0 {
                        WriteStep::Done(total_write)
                    } else {
                        WriteStep::WouldBlock
                    }
                    &&& final(self).pending_out == frame
                },
                SenderEvent::Failed => {
                    &&& step == WriteStep::BrokenPipe
                    &&& final(self).pending_out == old(self).pending_out
                },
            },
    {
        match event {
            SenderEvent::Ready => WriteStep::Continue,
            SenderEvent::NotReady(frame) => {
                self.pending_out = frame;
                if total_write > 0 {
                    WriteStep::Done(total_write)
                } else {
                    WriteStep::WouldBlock
                }
            },
            SenderEvent::Failed => WriteStep::BrokenPipe,
        }
    }
}

} // verus!
