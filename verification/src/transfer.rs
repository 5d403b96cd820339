//! Bulk transfer: pulling the image out of the device in acknowledged
//! chunks.
//!
//! Each data chunk arrives in a frame whose command is the next entry of
//! an 8-slot rotation table, with a marker byte in front of the data.
//! The receiver answers with the acknowledgment command paired to that
//! slot; the rotation lets both sides spot a lost or duplicated chunk
//! among 8 in flight. A dedicated command ends the transfer, and the
//! assembled buffer is then the complete payload.

use vstd::prelude::*;
use crate::codec;
use crate::codec::Frame;
use crate::errors::WqvError;
use crate::session::Addr;
use crate::session::ProtocolState;
use crate::session::resolve_addr;

verus! {

/// Command that ends the transfer.
pub const EOT_CMD: u8 = 0x31;

/// First byte of every data chunk's payload.
pub const CHUNK_MARKER: u8 = 0x05;

/// The rotation table's chunk-bearing command at a slot.
pub open spec fn put_cmd(i: int) -> u8 {
    if i == 0 {
        0x32
    } else if i == 1 {
        0x34
    } else if i == 2 {
        0x36
    } else if i == 3 {
        0x38
    } else if i == 4 {
        0x3A
    } else if i == 5 {
        0x3C
    } else if i == 6 {
        0x3E
    } else {
        0x30
    }
}

/// The acknowledgment command paired to a slot of the rotation table.
pub open spec fn ack_cmd(i: int) -> u8 {
    if i == 0 {
        0x41
    } else if i == 1 {
        0x61
    } else if i == 2 {
        0x81
    } else if i == 3 {
        0xA1
    } else if i == 4 {
        0xC1
    } else if i == 5 {
        0xE1
    } else if i == 6 {
        0x01
    } else {
        0x21
    }
}

/// The slot a chunk-bearing command sits in, or -1 when the command is
/// not in the rotation table.
pub open spec fn put_index(c: u8) -> int {
    if c == 0x32 {
        0
    } else if c == 0x34 {
        1
    } else if c == 0x36 {
        2
    } else if c == 0x38 {
        3
    } else if c == 0x3A {
        4
    } else if c == 0x3C {
        5
    } else if c == 0x3E {
        6
    } else if c == 0x30 {
        7
    } else {
        -1
    }
}

/// What one transfer step asks the caller to do: send an acknowledgment
/// and record a chunk, or stop because the device ended the transfer.
pub enum TransferStep {
    /// The end-of-transmission command arrived; the assembled buffer is
    /// complete.
    Finished,
    /// A chunk arrived: its data (marker byte stripped), the offset it
    /// starts at in the assembled buffer, and the acknowledgment frame to
    /// send back.
    Chunk { ack: Vec<u8>, chunk: Vec<u8>, offset: usize },
}

/// The receiver's state: the buffer assembled so far, and whether the
/// end of the transmission has been seen.
pub struct BulkTransfer {
    /// Chunk data received so far, in arrival order.
    pub data: Vec<u8>,
    /// True once the end-of-transmission command has arrived.
    pub done: bool,
}

impl BulkTransfer {
    /// The buffer assembled so far.
    pub open spec fn assembled(&self) -> Seq<u8> {
        self.data@
    }

    /// A receiver that has seen nothing yet.
    pub fn new() -> (r: Self)
        ensures
            r.assembled() == Seq::<u8>::empty(),
            !r.done,
    {
        BulkTransfer { data: Vec::new(), done: false }
    }

    /// Hands out the assembled buffer once the transfer has ended.
    pub fn into_data(self) -> (r: Vec<u8>)
        ensures
            r@ == self.assembled(),
    {
        self.data
    }

    /// Consumes one decoded frame of the transfer. The end command
    /// finishes the transfer; a chunk frame whose command sits in the
    /// rotation table and whose payload starts with the marker byte is
    /// appended to the buffer and acknowledged with the slot's paired
    /// command (addressed to the learned peer address); anything else is
    /// a protocol error and changes nothing.
    pub fn on_frame(&mut self, proto: &ProtocolState, frame: &Frame) -> (r: Result<
        TransferStep,
        WqvError,
    >)
        requires
            !old(self).done,
        ensures
            (frame.command == EOT_CMD || (put_index(frame.command) >= 0 && frame.payload@.len() > 0
                && frame.payload@[0] == CHUNK_MARKER)) <==> r is Ok,
            match r {
                Ok(step) => match step {
                    TransferStep::Finished => {
                        &&& frame.command == EOT_CMD
                        &&& final(self).done
                        &&& final(self).assembled() == old(self).assembled()
                    },
                    TransferStep::Chunk { ack, chunk, offset } => {
                        &&& frame.command != EOT_CMD
                        &&& put_index(frame.command) >= 0
                        &&& frame.payload@.len() > 0
                        &&& frame.payload@[0] == CHUNK_MARKER
                        &&& chunk@ == frame.payload@.skip(1)
                        &&& offset == old(self).assembled().len()
                        &&& final(self).assembled() == old(self).assembled()
                            + frame.payload@.skip(1)
                        &&& !final(self).done
                        &&& ack@ == codec::encode_frame_seq(
                            resolve_addr(Addr::Auto, proto.watch_addr),
                            ack_cmd(put_index(frame.command)),
                            Seq::<u8>::empty(),
                        )
                    },
                },
                Err(e) => {
                    &&& final(self).assembled() == old(self).assembled()
                    &&& !final(self).done
                    &&& frame.command != EOT_CMD
                    &&& if put_index(frame.command) < 0 {
                        e == WqvError::UnknownTransferCommand
                    } else {
                        e == WqvError::BadChunkMarker && (frame.payload@.len() == 0
                            || frame.payload@[0] != CHUNK_MARKER)
                    }
                },
            },
    {
        if frame.command == EOT_CMD {
            self.done = true;
            return Ok(TransferStep::Finished);
        }
        let idx_opt = put_index_of(frame.command);
        let idx: usize = match idx_opt {
            Some(i) => i,
            None => {
                return Err(WqvError::UnknownTransferCommand);
            },
        };
        if frame.payload.len() == 0 || frame.payload[0] != CHUNK_MARKER {
            return Err(WqvError::BadChunkMarker);
        }
        let chunk = vstd::slice::slice_to_vec(
            vstd::slice::slice_subrange(frame.payload.as_slice(), 1, frame.payload.len()),
        );
        proof {
            assert(chunk@ =~= frame.payload@.skip(1));
        }
        let offset = self.data.len();
        self.data.extend_from_slice(chunk.as_slice());
        let empty: Vec<u8> = Vec::new();
        let ack = proto.build_frame(Addr::Auto, ack_cmd_of(idx), empty.as_slice());
        Ok(TransferStep::Chunk { ack, chunk, offset })
    }
}

/// Looks a command up in the rotation table.
fn put_index_of(c: u8) -> (r: Option<usize>)
    ensures
        match r {
            Some(i) => i < 8 && put_index(c) == i && put_cmd(i as int) == c,
            None => put_index(c) == -1,
        },
{
    if c == 0x32 {
        Some(0)
    } else if c == 0x34 {
        Some(1)
    } else if c == 0x36 {
        Some(2)
    } else if c == 0x38 {
        Some(3)
    } else if c == 0x3A {
        Some(4)
    } else if c == 0x3C {
        Some(5)
    } else if c == 0x3E {
        Some(6)
    } else if c == 0x30 {
        Some(7)
    } else {
        None
    }
}

/// The acknowledgment command of a slot.
fn ack_cmd_of(i: usize) -> (r: u8)
    requires
        i < 8,
    ensures
        r == ack_cmd(i as int),
{
    if i == 0 {
        0x41
    } else if i == 1 {
        0x61
    } else if i == 2 {
        0x81
    } else if i == 3 {
        0xA1
    } else if i == 4 {
        0xC1
    } else if i == 5 {
        0xE1
    } else if i == 6 {
        0x01
    } else {
        0x21
    }
}

} // verus!
