//! Frame synchronization over a noisy byte stream.
//!
//! The scanner discards everything before the first start delimiter,
//! collects the interior bytes that follow, and stops at the end
//! delimiter, handing back the frame interior together with whatever
//! arrived after it in the same read. It tolerates garbage before a
//! frame, frames split across physical reads, and several frames
//! delivered in one read.

use vstd::prelude::*;
use crate::codec;
use crate::codec::FRAME_END;
use crate::codec::FRAME_START;

verus! {

/// Outcome of scanning a run of bytes: either the scan is still under
/// way (has a start delimiter been seen, and which interior bytes were
/// collected so far), or a full frame interior was delimited, together
/// with the bytes that followed its end delimiter.
pub enum ScanResult {
    More(bool, Seq<u8>),
    Framed(Seq<u8>, Seq<u8>),
}

/// What the scanner does with one run of bytes, from a given state.
/// A start delimiter arms the scanner and is itself dropped; once armed,
/// an end delimiter finishes the frame and everything else is collected;
/// before arming, everything else is discarded.
pub open spec fn scan_spec(started: bool, acc: Seq<u8>, input: Seq<u8>) -> ScanResult
    decreases input.len(),
{
    if input.len() == 0 {
        ScanResult::More(started, acc)
    } else {
        let b = input[0];
        if b == FRAME_START {
            scan_spec(true, acc, input.skip(1))
        } else if started && b == FRAME_END {
            ScanResult::Framed(acc, input.skip(1))
        } else if started {
            scan_spec(true, acc.push(b), input.skip(1))
        } else {
            scan_spec(false, acc, input.skip(1))
        }
    }
}

/// The wire form of a frame interior: the interior between the two
/// delimiters.
pub open spec fn delimited(interior: Seq<u8>) -> Seq<u8> {
    seq![FRAME_START] + interior + seq![FRAME_END]
}

/// True when `s` holds neither delimiter byte, so the scanner passes it
/// through unharmed.
pub open spec fn delimiter_free(s: Seq<u8>) -> bool {
    forall|i: int| 0 <= i < s.len() ==> s[i] != FRAME_START && s[i] != FRAME_END
}

/// The running scan across one frame: carries the collected interior
/// bytes between physical reads until the end delimiter arrives.
pub struct FrameScanner {
    started: bool,
    acc: Vec<u8>,
}

impl View for FrameScanner {
    type V = (bool, Seq<u8>);

    closed spec fn view(&self) -> (bool, Seq<u8>) {
        (self.started, self.acc@)
    }
}

impl FrameScanner {
    /// A scanner that has seen nothing yet.
    pub fn new() -> (r: Self)
        ensures
            r@ == (false, Seq::<u8>::empty()),
    {
        FrameScanner { started: false, acc: Vec::new() }
    }

    /// Feeds one run of bytes to the scanner. Returns the frame interior
    /// and the unconsumed residual when the end delimiter was reached,
    /// and nothing while the frame is still incomplete; either way the
    /// scanner afterwards stands exactly where `scan_spec` says.
    pub fn feed(&mut self, buf: &[u8]) -> (r: Option<(Vec<u8>, Vec<u8>)>)
        ensures
            match r {
                Some(fr) => {
                    &&& scan_spec(old(self)@.0, old(self)@.1, buf@) == ScanResult::Framed(
                        fr.0@,
                        fr.1@,
                    )
                    &&& final(self)@ == (false, Seq::<u8>::empty())
                },
                None => scan_spec(old(self)@.0, old(self)@.1, buf@) == ScanResult::More(
                    final(self)@.0,
                    final(self)@.1,
                ),
            },
    {
        let mut i: usize = 0;
        proof {
            assert(buf@.skip(0) =~= buf@);
        }
        while i < buf.len()
            invariant
                i <= buf@.len(),
                scan_spec(old(self)@.0, old(self)@.1, buf@) == scan_spec(
                    self.started,
                    self.acc@,
                    buf@.skip(i as int),
                ),
            decreases buf@.len() - i,
        {
            let b = buf[i];
            let ghost rest = buf@.skip(i as int);
            proof {
                assert(rest[0] == b);
                assert(rest.skip(1) =~= buf@.skip(i as int + 1));
            }
            if b == FRAME_START {
                self.started = true;
            } else if self.started && b == FRAME_END {
                proof {
                    assert(scan_spec(self.started, self.acc@, rest) == ScanResult::Framed(
                        self.acc@,
                        rest.skip(1),
                    ));
                }
                let residual = vstd::slice::slice_to_vec(
                    vstd::slice::slice_subrange(buf, i + 1, buf.len()),
                );
                proof {
                    assert(residual@ =~= buf@.skip(i as int + 1));
                }
                let mut frame: Vec<u8> = Vec::new();
                core::mem::swap(&mut frame, &mut self.acc);
                self.started = false;
                return Some((frame, residual));
            } else if self.started {
                self.acc.push(b);
            }
            i = i + 1;
        }
        proof {
            assert(buf@.skip(buf@.len() as int) =~= Seq::<u8>::empty());
        }
        None
    }
}

/// Bytes that hold no start delimiter are discarded while the scanner is
/// not yet armed: leading noise does not change what is decoded.
pub proof fn lemma_scan_passes_noise(acc: Seq<u8>, noise: Seq<u8>, rest: Seq<u8>)
    requires
        forall|i: int| 0 <= i < noise.len() ==> noise[i] != FRAME_START,
    ensures
        scan_spec(false, acc, noise + rest) == scan_spec(false, acc, rest),
    decreases noise.len(),
{
    if noise.len() == 0 {
        assert(noise + rest =~= rest);
    } else {
        let s = noise + rest;
        assert(s[0] == noise[0]);
        assert(s.skip(1) =~= noise.skip(1) + rest);
        lemma_scan_passes_noise(acc, noise.skip(1), rest);
    }
}

/// An armed scanner collects a delimiter-free interior up to the end
/// delimiter and returns exactly the bytes after it.
proof fn lemma_scan_collects(acc: Seq<u8>, interior: Seq<u8>, rest: Seq<u8>)
    requires
        delimiter_free(interior),
    ensures
        scan_spec(true, acc, interior + (seq![FRAME_END] + rest)) == ScanResult::Framed(
            acc + interior,
            rest,
        ),
    decreases interior.len(),
{
    let s = interior + (seq![FRAME_END] + rest);
    if interior.len() == 0 {
        assert(s[0] == FRAME_END);
        assert(s.skip(1) =~= rest);
        assert(acc + interior =~= acc);
    } else {
        let b = interior[0];
        assert(s[0] == b && b != FRAME_START && b != FRAME_END);
        assert(s.skip(1) =~= interior.skip(1) + (seq![FRAME_END] + rest));
        lemma_scan_collects(acc.push(b), interior.skip(1), rest);
        assert(acc.push(b) + interior.skip(1) =~= acc + interior);
    }
}

/// From any state, a whole delimited frame with a delimiter-free interior
/// is recognized as exactly that interior, with the bytes after the end
/// delimiter untouched. (A start delimiter re-arms the scanner but keeps
/// bytes already collected, so the interior found is what the scanner
/// held plus the frame's own interior.)
pub proof fn lemma_scan_finds_frame(
    started: bool,
    acc: Seq<u8>,
    interior: Seq<u8>,
    rest: Seq<u8>,
)
    requires
        delimiter_free(interior),
    ensures
        scan_spec(started, acc, delimited(interior) + rest) == ScanResult::Framed(
            acc + interior,
            rest,
        ),
{
    let s = delimited(interior) + rest;
    assert(s[0] == FRAME_START);
    assert(s.skip(1) =~= interior + (seq![FRAME_END] + rest));
    lemma_scan_collects(acc, interior, rest);
}

/// Arbitrary leading noise (free of the start delimiter) before a valid
/// delimited frame changes nothing: the stream yields the same frame and
/// the same residual as it would without the noise.
pub proof fn lemma_noise_before_frame(noise: Seq<u8>, interior: Seq<u8>, rest: Seq<u8>)
    requires
        forall|i: int| 0 <= i < noise.len() ==> noise[i] != FRAME_START,
        delimiter_free(interior),
    ensures
        scan_spec(false, Seq::<u8>::empty(), noise + (delimited(interior) + rest)) == scan_spec(
            false,
            Seq::<u8>::empty(),
            delimited(interior) + rest,
        ),
        scan_spec(false, Seq::<u8>::empty(), delimited(interior) + rest) == ScanResult::Framed(
            interior,
            rest,
        ),
{
    lemma_scan_passes_noise(Seq::<u8>::empty(), noise, delimited(interior) + rest);
    lemma_scan_finds_frame(false, Seq::<u8>::empty(), interior, rest);
    assert(Seq::<u8>::empty() + interior =~= interior);
}

/// Two back-to-back frames in one read are both recovered, in order,
/// with no byte lost or duplicated: the first scan returns the second
/// frame whole as its residual, and scanning that residual yields the
/// second frame with the trailing bytes intact.
pub proof fn lemma_two_frames(first: Seq<u8>, second: Seq<u8>, rest: Seq<u8>)
    requires
        delimiter_free(first),
        delimiter_free(second),
    ensures
        scan_spec(false, Seq::<u8>::empty(), delimited(first) + (delimited(second) + rest))
            == ScanResult::Framed(first, delimited(second) + rest),
        scan_spec(false, Seq::<u8>::empty(), delimited(second) + rest) == ScanResult::Framed(
            second,
            rest,
        ),
{
    lemma_scan_finds_frame(false, Seq::<u8>::empty(), first, delimited(second) + rest);
    assert(Seq::<u8>::empty() + first =~= first);
    lemma_scan_finds_frame(false, Seq::<u8>::empty(), second, rest);
    assert(Seq::<u8>::empty() + second =~= second);
}

/// The whole path of one frame, send side to receive side: the encoded
/// wire form of a frame, followed by anything else, is synchronized to
/// exactly its interior, and that interior decodes back to the address,
/// command and payload it was built from. The address, command and
/// checksum bytes travel raw, so the statement asks that none of them
/// collides with a delimiter or the escape introducer.
pub proof fn lemma_wire_round_trip(adr: u8, cmd: u8, payload: Seq<u8>, rest: Seq<u8>)
    requires
        !codec::needs_escape(adr),
        !codec::needs_escape(cmd),
        !codec::needs_escape(
            codec::checksum_hi(codec::checksum_of(codec::frame_body(adr, cmd, payload))),
        ),
        !codec::needs_escape(
            codec::checksum_lo(codec::checksum_of(codec::frame_body(adr, cmd, payload))),
        ),
    ensures
        scan_spec(false, Seq::<u8>::empty(), codec::encode_frame_seq(adr, cmd, payload) + rest)
            == ScanResult::Framed(codec::encode_interior(adr, cmd, payload), rest),
        codec::decode_ok(codec::encode_interior(adr, cmd, payload)),
        codec::decoded_address(codec::encode_interior(adr, cmd, payload)) == adr,
        codec::decoded_command(codec::encode_interior(adr, cmd, payload)) == cmd,
        codec::decoded_payload(codec::encode_interior(adr, cmd, payload)) == payload,
{
    let chk = codec::checksum_of(codec::frame_body(adr, cmd, payload));
    let hi = codec::checksum_hi(chk);
    let lo = codec::checksum_lo(chk);
    let e = codec::escape_seq(payload);
    let interior = codec::encode_interior(adr, cmd, payload);

    codec::lemma_escape_delimiter_free(payload);
    assert(delimiter_free(interior)) by {
        assert(forall|i: int| 0 <= i < e.len() ==> interior[i + 2] == e[i]);
        assert(interior[0] == adr && interior[1] == cmd);
        assert(interior[interior.len() - 2] == hi && interior[interior.len() - 1] == lo);
        assert(forall|i: int|
            0 <= i < interior.len() ==> interior[i] == adr || interior[i] == cmd || interior[i]
                == hi || interior[i] == lo || (2 <= i < interior.len() - 2 && interior[i] == e[i
                - 2]));
    }
    assert(codec::encode_frame_seq(adr, cmd, payload) + rest =~= delimited(interior) + rest);
    lemma_scan_finds_frame(false, Seq::<u8>::empty(), interior, rest);
    assert(Seq::<u8>::empty() + interior =~= interior);
    codec::lemma_decode_encode(adr, cmd, payload);
}

} // verus!
