//! Session state and the five-step handshake.
//!
//! `ProtocolState` owns the two mutable items the engine carries between
//! reads: the peer-assigned address (a broadcast sentinel until the
//! device hands one out) and the bytes read past the last frame's end
//! delimiter. `Handshake` drives the fixed greeting/address/readiness
//! exchange: it waits for each expected command in turn, skips everything
//! else, and produces the wire bytes of each reply.

use vstd::prelude::*;
use crate::codec;
use crate::codec::Frame;
use crate::errors::WqvError;
use crate::link;
use crate::link::FrameScanner;
use crate::link::ScanResult;

verus! {

/// The broadcast address, and the sentinel for "no peer address learned".
pub const BROADCAST_ADDR: u8 = 0xFF;

/// The command of the handshake frame that assigns this side an address.
pub const ADDR_ASSIGN_CMD: u8 = 0x93;

/// Where the assigned address sits in that frame's payload.
pub const ADDR_ASSIGN_IDX: usize = 4;

/// How the destination address of an outgoing frame is chosen: the
/// learned peer address, the broadcast address, or a literal byte.
#[derive(Clone, Copy, Debug, PartialEq, Eq, Structural)]
pub enum Addr {
    Auto,
    Broadcast,
    Fixed(u8),
}

/// The concrete address byte a selector resolves to at send time.
pub open spec fn resolve_addr(a: Addr, watch_addr: u8) -> u8 {
    match a {
        Addr::Auto => watch_addr,
        Addr::Broadcast => BROADCAST_ADDR,
        Addr::Fixed(x) => x,
    }
}

/// Session state of the engine: the peer-assigned address and the bytes
/// held over from the last physical read.
pub struct ProtocolState {
    /// Address the device assigned to this side; `BROADCAST_ADDR` until a
    /// handshake frame carrying an address has been received.
    pub watch_addr: u8,
    /// Bytes read past the last frame's end delimiter, held for the next
    /// read.
    pub rem_buf: Vec<u8>,
}

impl ProtocolState {
    /// Bytes read past the last end delimiter, waiting to be scanned
    /// before the channel is read again.
    pub open spec fn residual(&self) -> Seq<u8> {
        self.rem_buf@
    }

    /// A fresh session: no peer address learned, no bytes held over.
    pub fn new() -> (r: Self)
        ensures
            r.watch_addr == BROADCAST_ADDR,
            r.residual() == Seq::<u8>::empty(),
    {
        ProtocolState { watch_addr: BROADCAST_ADDR, rem_buf: Vec::new() }
    }

    /// True when bytes from an earlier read are still waiting.
    pub fn has_residual(&self) -> (r: bool)
        ensures
            r == (self.residual().len() != 0),
    {
        self.rem_buf.len() != 0
    }

    /// Hands out the held-over bytes, leaving none behind. The caller
    /// scans these before performing another physical read.
    pub fn take_residual(&mut self) -> (r: Vec<u8>)
        ensures
            r@ == old(self).residual(),
            final(self).residual() == Seq::<u8>::empty(),
            final(self).watch_addr == old(self).watch_addr,
    {
        let mut out: Vec<u8> = Vec::new();
        core::mem::swap(&mut out, &mut self.rem_buf);
        out
    }

    /// Feeds one run of bytes to the frame scanner. When the scanner
    /// completes a frame, the bytes after its end delimiter are stored as
    /// this session's residual and the frame interior is returned.
    pub fn scan_bytes(&mut self, scanner: &mut FrameScanner, buf: &[u8]) -> (r: Option<Vec<u8>>)
        ensures
            final(self).watch_addr == old(self).watch_addr,
            match r {
                Some(frame) => {
                    &&& link::scan_spec(old(scanner)@.0, old(scanner)@.1, buf@)
                        == ScanResult::Framed(frame@, final(self).residual())
                    &&& final(scanner)@ == (false, Seq::<u8>::empty())
                },
                None => {
                    &&& link::scan_spec(old(scanner)@.0, old(scanner)@.1, buf@)
                        == ScanResult::More(final(scanner)@.0, final(scanner)@.1)
                    &&& final(self).residual() == old(self).residual()
                },
            },
    {
        match scanner.feed(buf) {
            Some((frame, residual)) => {
                self.rem_buf = residual;
                Some(frame)
            },
            None => None,
        }
    }

    /// Decodes a frame interior, and learns the peer address from an
    /// address-assignment frame whose payload is long enough to carry
    /// one; any other frame leaves the address untouched.
    pub fn accept_frame(&mut self, raw: &[u8]) -> (r: Result<Frame, WqvError>)
        ensures
            final(self).residual() == old(self).residual(),
            match r {
                Ok(f) => {
                    &&& codec::decode_ok(raw@)
                    &&& f.address == codec::decoded_address(raw@)
                    &&& f.command == codec::decoded_command(raw@)
                    &&& f.payload@ == codec::decoded_payload(raw@)
                    &&& final(self).watch_addr == (if f.command == ADDR_ASSIGN_CMD
                        && f.payload@.len() > ADDR_ASSIGN_IDX {
                        f.payload@[ADDR_ASSIGN_IDX as int]
                    } else {
                        old(self).watch_addr
                    })
                },
                Err(e) => {
                    &&& !codec::decode_ok(raw@)
                    &&& e == codec::decode_err(raw@)
                    &&& final(self).watch_addr == old(self).watch_addr
                },
            },
    {
        let frame = codec::decode_frame(raw)?;
        if frame.command == ADDR_ASSIGN_CMD && frame.payload.len() > ADDR_ASSIGN_IDX {
            self.watch_addr = frame.payload[ADDR_ASSIGN_IDX];
        }
        Ok(frame)
    }

    /// Builds the wire form of an outgoing frame, the address selector
    /// resolved against the learned peer address.
    pub fn build_frame(&self, adr: Addr, cmd: u8, data: &[u8]) -> (r: Vec<u8>)
        ensures
            r@ == codec::encode_frame_seq(resolve_addr(adr, self.watch_addr), cmd, data@),
    {
        let concrete: u8 = match adr {
            Addr::Auto => self.watch_addr,
            Addr::Fixed(a) => a,
            Addr::Broadcast => BROADCAST_ADDR,
        };
        codec::encode_frame(concrete, cmd, data)
    }
}

/// The command each handshake step waits for, by number of steps done.
pub open spec fn hs_expected_cmd(step: int) -> u8 {
    if step == 0 {
        0xB3
    } else if step == 1 {
        0x93
    } else if step == 2 {
        0x11
    } else if step == 3 {
        0x10
    } else {
        0x11
    }
}

/// The command each step replies with.
pub open spec fn hs_reply_cmd(step: int) -> u8 {
    if step == 0 {
        0xA3
    } else if step == 1 {
        0x63
    } else if step == 2 {
        0x01
    } else if step == 3 {
        0x21
    } else {
        0x20
    }
}

/// The payload each step replies with: the local time on the greeting,
/// one fixed byte on the last step, nothing in between.
pub open spec fn hs_reply_payload(step: int, hour: u8, minute: u8, second: u8) -> Seq<u8> {
    if step == 0 {
        seq![hour, minute, second, 0x00]
    } else if step == 4 {
        seq![0x06u8]
    } else {
        Seq::empty()
    }
}

/// Where each reply is addressed: the greeting reply is broadcast, every
/// later one goes to the learned peer address.
pub open spec fn hs_reply_addr(step: int) -> Addr {
    if step == 0 {
        Addr::Broadcast
    } else {
        Addr::Auto
    }
}

/// How many steps the handshake has.
pub const HS_STEPS: u8 = 5;

/// The strictly linear five-step handshake. Frames whose command is not
/// the one the current step waits for are skipped, never an error; a
/// matching frame advances the session by one step and yields the reply
/// to send. The local time of day is fixed when the handshake is created
/// and goes out with the greeting reply.
pub struct Handshake {
    /// Number of completed steps so far.
    pub step: u8,
    /// Local hour, sent in the greeting reply.
    pub hour: u8,
    /// Local minute, sent in the greeting reply.
    pub minute: u8,
    /// Local second, sent in the greeting reply.
    pub second: u8,
}

impl Handshake {
    /// Number of completed steps, between 0 and `HS_STEPS`.
    pub open spec fn steps_done(&self) -> int {
        self.step as int
    }

    /// A handshake that has not started, carrying the local time of day
    /// for the greeting reply.
    pub fn new(hour: u8, minute: u8, second: u8) -> (r: Self)
        ensures
            r.steps_done() == 0,
            r.hour == hour,
            r.minute == minute,
            r.second == second,
    {
        Handshake { step: 0, hour, minute, second }
    }

    /// True once all five replies have been produced.
    pub fn is_done(&self) -> (r: bool)
        ensures
            r == (self.steps_done() >= HS_STEPS),
    {
        self.step >= HS_STEPS
    }

    /// Reacts to one decoded frame. A frame bearing the awaited command
    /// advances the handshake and returns the reply's wire bytes,
    /// addressed as the step prescribes; any other frame (or a finished
    /// handshake) changes nothing and returns no reply.
    pub fn on_frame(&mut self, proto: &ProtocolState, frame: &Frame) -> (r: Option<Vec<u8>>)
        ensures
            final(self).hour == old(self).hour,
            final(self).minute == old(self).minute,
            final(self).second == old(self).second,
            match r {
                Some(w) => {
                    &&& old(self).steps_done() < HS_STEPS
                    &&& frame.command == hs_expected_cmd(old(self).steps_done())
                    &&& final(self).steps_done() == old(self).steps_done() + 1
                    &&& w@ == codec::encode_frame_seq(
                        resolve_addr(hs_reply_addr(old(self).steps_done()), proto.watch_addr),
                        hs_reply_cmd(old(self).steps_done()),
                        hs_reply_payload(
                            old(self).steps_done(),
                            old(self).hour,
                            old(self).minute,
                            old(self).second,
                        ),
                    )
                },
                None => {
                    &&& old(self).steps_done() >= HS_STEPS || frame.command != hs_expected_cmd(
                        old(self).steps_done(),
                    )
                    &&& final(self).steps_done() == old(self).steps_done()
                },
            },
    {
        if self.step >= HS_STEPS {
            return None;
        }
        let expected: u8 = if self.step == 0 {
            0xB3
        } else if self.step == 1 {
            0x93
        } else if self.step == 2 {
            0x11
        } else if self.step == 3 {
            0x10
        } else {
            0x11
        };
        if frame.command != expected {
            return None;
        }
        let mut payload: Vec<u8> = Vec::new();
        let reply_cmd: u8;
        let reply_addr: Addr;
        if self.step == 0 {
            payload.push(self.hour);
            payload.push(self.minute);
            payload.push(self.second);
            payload.push(0x00);
            reply_cmd = 0xA3;
            reply_addr = Addr::Broadcast;
        } else if self.step == 1 {
            reply_cmd = 0x63;
            reply_addr = Addr::Auto;
        } else if self.step == 2 {
            reply_cmd = 0x01;
            reply_addr = Addr::Auto;
        } else if self.step == 3 {
            reply_cmd = 0x21;
            reply_addr = Addr::Auto;
        } else {
            payload.push(0x06);
            reply_cmd = 0x20;
            reply_addr = Addr::Auto;
        }
        proof {
            assert(payload@ =~= hs_reply_payload(
                self.steps_done(),
                self.hour,
                self.minute,
                self.second,
            ));
        }
        let wire = proto.build_frame(reply_addr, reply_cmd, payload.as_slice());
        self.step = self.step + 1;
        Some(wire)
    }
}

/// The command the device answers the transfer-complete notice with.
pub const FAREWELL_ACK_CMD: u8 = 0x53;

/// The closing exchange after a completed transfer: this side announces
/// that it is done, waits for the device's acknowledgment (skipping
/// anything else), and signs off.
pub struct Farewell {
    /// Number of completed steps so far: the announcement, then the
    /// sign-off.
    pub step: u8,
}

impl Farewell {
    /// Number of completed steps, between 0 and 2.
    pub open spec fn steps_done(&self) -> int {
        self.step as int
    }

    /// A farewell that has not started.
    pub fn new() -> (r: Self)
        ensures
            r.steps_done() == 0,
    {
        Farewell { step: 0 }
    }

    /// True once the sign-off has been produced.
    pub fn is_done(&self) -> (r: bool)
        ensures
            r == (self.steps_done() >= 2),
    {
        self.step >= 2
    }

    /// The transfer-complete announcement, to the learned peer address.
    /// Produced once, before any frame is awaited; afterwards nothing.
    pub fn opening_frame(&mut self, proto: &ProtocolState) -> (r: Option<Vec<u8>>)
        ensures
            match r {
                Some(w) => {
                    &&& old(self).steps_done() == 0
                    &&& final(self).steps_done() == 1
                    &&& w@ == codec::encode_frame_seq(proto.watch_addr, 0x42, seq![0x06u8])
                },
                None => {
                    &&& old(self).steps_done() != 0
                    &&& final(self).steps_done() == old(self).steps_done()
                },
            },
    {
        if self.step != 0 {
            return None;
        }
        let payload: Vec<u8> = vec![0x06];
        proof {
            assert(payload@ =~= seq![0x06u8]);
        }
        let wire = proto.build_frame(Addr::Auto, 0x42, payload.as_slice());
        self.step = 1;
        Some(wire)
    }

    /// Reacts to one decoded frame: the device's acknowledgment draws
    /// the sign-off, anything else (or any other state) draws nothing.
    pub fn on_frame(&mut self, proto: &ProtocolState, frame: &Frame) -> (r: Option<Vec<u8>>)
        ensures
            match r {
                Some(w) => {
                    &&& old(self).steps_done() == 1
                    &&& frame.command == FAREWELL_ACK_CMD
                    &&& final(self).steps_done() == 2
                    &&& w@ == codec::encode_frame_seq(
                        proto.watch_addr,
                        0x63,
                        Seq::<u8>::empty(),
                    )
                },
                None => {
                    &&& old(self).steps_done() != 1 || frame.command != FAREWELL_ACK_CMD
                    &&& final(self).steps_done() == old(self).steps_done()
                },
            },
    {
        if self.step != 1 || frame.command != FAREWELL_ACK_CMD {
            return None;
        }
        let payload: Vec<u8> = Vec::new();
        let wire = proto.build_frame(Addr::Auto, 0x63, payload.as_slice());
        self.step = 2;
        Some(wire)
    }
}

} // verus!
