//! Inter-half link protocol.
//!
//! The primary half sends one request byte per deadline tick and collects
//! the secondary's fixed-size reply one byte per cycle; a session that has
//! not completed when the next deadline fires is discarded and re-requested
//! (the resync policy). The serial port itself is driven by the caller: the
//! functions here make every decision and record every byte, and the caller
//! reports the outcome of each port operation back to them.

use vstd::prelude::*;
use crate::encoding;
use crate::rows_view;

verus! {

/// Primary-side link session: the partially filled receive buffer of one
/// request/reply exchange.
pub struct ComLink<const N: usize> {
    /// Reply bytes collected so far, in `buffer[0 .. recvd]`.
    pub buffer: [u8; N],
    /// How many reply bytes have been collected.
    pub recvd: usize,
    /// Whether a request has been sent whose reply is still being awaited.
    pub is_waiting: bool,
}

impl<const N: usize> ComLink<N> {
    /// Session invariant: the fill level stays strictly below the frame
    /// size. Reaching the frame size is the one way a session completes,
    /// and completing resets the fill level at once.
    pub open spec fn wf(&self) -> bool {
        self.recvd < N
    }

    /// A fresh, idle session with a zeroed buffer. A link carries frames
    /// of at least one byte.
    pub fn new() -> (r: ComLink<N>)
        requires
            N >= 1,
        ensures
            r.wf(),
            !r.is_waiting,
            r.recvd == 0,
            forall|i: int| 0 <= i < N ==> r.buffer@[i] == 0,
    {
        ComLink {
            buffer: vstd::array::array_fill_for_copy_types::<u8, N>(0),
            recvd: 0,
            is_waiting: false,
        }
    }

    /// Whether a reply is currently being awaited. At a request deadline
    /// this is also the resync decision: an awaiting session is stale, and
    /// the caller must flush the serial input before a new request goes out.
    pub fn awaiting(&self) -> (r: bool)
        ensures
            r == self.is_waiting,
    {
        self.is_waiting
    }

    /// The request deadline has fired. `flush_ok` reports the outcome of
    /// the input flush, which the caller performed exactly when the session
    /// was awaiting a reply; a successful flush discards the stale bytes
    /// collected so far. Returns whether the caller is to send the request
    /// byte now; a failed flush abandons this deadline instead, leaving the
    /// session to the next one.
    pub fn tick(&mut self, flush_ok: Option<bool>) -> (send_request: bool)
        requires
            old(self).wf(),
            flush_ok.is_some() == old(self).is_waiting,
        ensures
            final(self).wf(),
            final(self).is_waiting == old(self).is_waiting,
            final(self).buffer == old(self).buffer,
            send_request == (flush_ok is None || flush_ok == Some(true)),
            final(self).recvd == if flush_ok == Some(true) {
                0usize
            } else {
                old(self).recvd
            },
    {
        match flush_ok {
            None => true,
            Some(true) => {
                self.recvd = 0;
                true
            },
            Some(false) => false,
        }
    }

    /// The caller has tried to send the request byte; a session is awaiting
    /// a reply from the first successful send onward.
    pub fn request_sent(&mut self, write_ok: bool)
        requires
            old(self).wf(),
        ensures
            final(self).wf(),
            final(self).buffer == old(self).buffer,
            final(self).recvd == old(self).recvd,
            final(self).is_waiting == (old(self).is_waiting || write_ok),
    {
        if write_ok {
            self.is_waiting = true;
        }
    }

    /// Collect at most one reply byte, read by the caller only while the
    /// session was awaiting one. The byte that fills the buffer completes
    /// the session: the full frame is returned and the session resets to
    /// idle. A frame is returned exactly when a byte arrives at fill level
    /// `N - 1`.
    pub fn poll(&mut self, incoming: Option<u8>) -> (r: Option<[u8; N]>)
        requires
            old(self).wf(),
            incoming.is_some() ==> old(self).is_waiting,
        ensures
            final(self).wf(),
            match incoming {
                None => *final(self) == *old(self) && r is None,
                Some(byte) => {
                    let filled = old(self).buffer@.update(old(self).recvd as int, byte);
                    if old(self).recvd + 1 == N {
                        &&& r matches Some(frame) && frame@ == filled
                        &&& final(self).recvd == 0
                        &&& !final(self).is_waiting
                        &&& final(self).buffer@ == filled
                    } else {
                        &&& r is None
                        &&& final(self).recvd == old(self).recvd + 1
                        &&& final(self).is_waiting == old(self).is_waiting
                        &&& final(self).buffer@ == filled
                    }
                },
            },
    {
        match incoming {
            None => None,
            Some(byte) => {
                self.buffer[self.recvd] = byte;
                self.recvd = self.recvd + 1;
                if self.recvd >= N {
                    self.recvd = 0;
                    self.is_waiting = false;
                    Some(self.buffer)
                } else {
                    None
                }
            },
        }
    }
}

/// An all-clear 5x6 grid: no switch pressed.
pub open spec fn clear_grid() -> Seq<Seq<bool>> {
    Seq::new(5, |r: int| Seq::new(6, |c: int| false))
}

/// Secondary side of the link: the reply to one request byte is the wire
/// image of the most recent completed scan, or of an all-clear grid while
/// none has completed yet.
pub fn reply_frame(last_scan: &Option<[[bool; 6]; 5]>) -> (frame: [u8; 4])
    ensures
        match last_scan {
            Some(g) => frame@ == encoding::encode_spec(rows_view(*g)),
            None => frame@ == encoding::encode_spec(clear_grid()),
        },
{
    match last_scan {
        Some(g) => encoding::encode(g),
        None => {
            let row: [bool; 6] = vstd::array::array_fill_for_copy_types::<bool, 6>(false);
            let zero: [[bool; 6]; 5] = vstd::array::array_fill_for_copy_types::<[bool; 6], 5>(row);
            proof {
                assert(rows_view(zero) =~~= clear_grid());
            }
            encoding::encode(&zero)
        },
    }
}

} // verus!
