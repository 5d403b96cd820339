//! Frame codec: the bit-exact wire form of one frame.
//!
//! A frame travels as
//! `0xC0 | address | command | escaped(payload) | checksum_hi | checksum_lo | 0xC1`.
//! Only the payload bytes are escaped; address, command and the checksum
//! bytes go out raw, mirroring the device's own behaviour. The checksum is
//! the 16-bit wrap-around sum of the unescaped `address, command, payload`
//! bytes, sent big-endian.

use vstd::prelude::*;
use crate::errors::WqvError;

verus! {

/// Start-of-frame delimiter on the wire.
pub const FRAME_START: u8 = 0xC0;
/// End-of-frame delimiter on the wire.
pub const FRAME_END: u8 = 0xC1;
/// Escape introducer for payload bytes that collide with the reserved bytes.
pub const ESCAPE: u8 = 0x7D;
/// Mask XOR-ed onto a byte hidden behind the escape introducer.
pub const ESCAPE_MASK: u8 = 0x20;

/// Mathematical sum of a byte sequence, without any truncation.
pub open spec fn sum_bytes(s: Seq<u8>) -> int
    decreases s.len(),
{
    if s.len() == 0 {
        0
    } else {
        sum_bytes(s.drop_last()) + s.last()
    }
}

/// The 16-bit wrap-around checksum: the byte sum reduced mod 2^16.
pub open spec fn checksum_of(s: Seq<u8>) -> u16 {
    (sum_bytes(s) % 0x10000) as u16
}

/// Computes the 16-bit wrap-around checksum of `data`.
pub fn checksum(data: &[u8]) -> (r: u16)
    ensures
        r == checksum_of(data@),
{
    let mut chsum: u16 = 0;
    let mut i: usize = 0;
    while i < data.len()
        invariant
            i <= data@.len(),
            chsum as int == sum_bytes(data@.take(i as int)) % 0x10000,
        decreases data@.len() - i,
    {
        let t: u32 = chsum as u32 + data[i] as u32;
        proof {
            let pre = data@.take(i as int);
            let post = data@.take(i as int + 1);
            assert(post.drop_last() =~= pre);
            assert(sum_bytes(post) == sum_bytes(pre) + data@[i as int]);
            lemma_sum_bytes_bounds(pre);
            vstd::arithmetic::div_mod::lemma_add_mod_noop(
                sum_bytes(pre),
                data@[i as int] as int,
                0x10000,
            );
            vstd::arithmetic::div_mod::lemma_small_mod(data@[i as int] as nat, 0x10000);
        }
        chsum = (t % 0x10000) as u16;
        i = i + 1;
    }
    proof {
        assert(data@.take(data@.len() as int) =~= data@);
    }
    chsum
}

/// The byte sum of a sequence is nonnegative.
proof fn lemma_sum_bytes_bounds(s: Seq<u8>)
    ensures
        0 <= sum_bytes(s),
    decreases s.len(),
{
    if s.len() > 0 {
        lemma_sum_bytes_bounds(s.drop_last());
    }
}

/// True of the bytes that cannot travel raw inside a frame.
pub open spec fn needs_escape(b: u8) -> bool {
    b == FRAME_START || b == FRAME_END || b == ESCAPE
}

/// The wire form of one payload byte: reserved bytes hide behind the
/// escape introducer with the mask applied, all others travel as they are.
pub open spec fn escape_byte(b: u8) -> Seq<u8> {
    if needs_escape(b) {
        seq![ESCAPE, b ^ ESCAPE_MASK]
    } else {
        seq![b]
    }
}

/// The escaped wire form of a payload.
pub open spec fn escape_seq(s: Seq<u8>) -> Seq<u8>
    decreases s.len(),
{
    if s.len() == 0 {
        Seq::empty()
    } else {
        escape_byte(s[0]) + escape_seq(s.skip(1))
    }
}

/// True when no escape introducer is left dangling at the end of `s`:
/// every occurrence of the introducer is followed by its masked byte.
pub open spec fn properly_escaped(s: Seq<u8>) -> bool
    decreases s.len(),
{
    if s.len() == 0 {
        true
    } else if s[0] == ESCAPE {
        s.len() >= 2 && properly_escaped(s.skip(2))
    } else {
        properly_escaped(s.skip(1))
    }
}

/// What unescaping yields: every `(introducer, x)` pair becomes `x` with
/// the mask taken back off, every other byte stands for itself. A dangling
/// introducer at the very end yields nothing (callers rule it out through
/// `properly_escaped`).
pub open spec fn unescape_seq(s: Seq<u8>) -> Seq<u8>
    decreases s.len(),
{
    if s.len() == 0 {
        Seq::empty()
    } else if s[0] == ESCAPE {
        if s.len() >= 2 {
            seq![s[1] ^ ESCAPE_MASK] + unescape_seq(s.skip(2))
        } else {
            Seq::empty()
        }
    } else {
        seq![s[0]] + unescape_seq(s.skip(1))
    }
}

/// Escapes a payload for the wire.
pub fn escp_data(data: &[u8]) -> (r: Vec<u8>)
    ensures
        r@ == escape_seq(data@),
{
    let mut fin: Vec<u8> = Vec::new();
    let mut i: usize = 0;
    proof {
        assert(data@.skip(0) =~= data@);
    }
    while i < data.len()
        invariant
            i <= data@.len(),
            fin@ + escape_seq(data@.skip(i as int)) == escape_seq(data@),
        decreases data@.len() - i,
    {
        let b = data[i];
        proof {
            let rest = data@.skip(i as int);
            assert(rest[0] == b);
            assert(rest.skip(1) =~= data@.skip(i as int + 1));
            assert(escape_seq(rest) == escape_byte(b) + escape_seq(data@.skip(i as int + 1)));
        }
        if b == FRAME_START || b == FRAME_END || b == ESCAPE {
            fin.push(ESCAPE);
            fin.push(b ^ ESCAPE_MASK);
        } else {
            fin.push(b);
        }
        proof {
            assert(fin@ + escape_seq(data@.skip(i as int + 1)) =~= escape_seq(data@));
        }
        i = i + 1;
    }
    proof {
        assert(data@.skip(data@.len() as int) =~= Seq::<u8>::empty());
        assert(fin@ =~= escape_seq(data@));
    }
    fin
}

/// Reports whether `data` is free of a dangling escape introducer.
pub fn is_properly_escaped(data: &[u8]) -> (r: bool)
    ensures
        r == properly_escaped(data@),
{
    let mut i: usize = 0;
    proof {
        assert(data@.skip(0) =~= data@);
    }
    while i < data.len()
        invariant
            i <= data@.len(),
            properly_escaped(data@) <==> properly_escaped(data@.skip(i as int)),
        decreases data@.len() - i,
    {
        let ghost rest = data@.skip(i as int);
        if data[i] == ESCAPE {
            if i + 1 >= data.len() {
                proof {
                    assert(rest[0] == ESCAPE && rest.len() < 2);
                }
                return false;
            }
            proof {
                assert(rest[0] == ESCAPE && rest.len() >= 2);
                assert(rest.skip(2) =~= data@.skip(i as int + 2));
            }
            i = i + 2;
        } else {
            proof {
                assert(rest[0] != ESCAPE);
                assert(rest.skip(1) =~= data@.skip(i as int + 1));
            }
            i = i + 1;
        }
    }
    proof {
        assert(data@.skip(data@.len() as int) =~= Seq::<u8>::empty());
    }
    true
}

/// Unescapes a frame interior. The input must be free of a dangling
/// escape introducer; `decode_frame` checks that first and reports a
/// truncated escape as an error.
pub fn unescp_data(data: &[u8]) -> (r: Vec<u8>)
    requires
        properly_escaped(data@),
    ensures
        r@ == unescape_seq(data@),
{
    let mut fin: Vec<u8> = Vec::new();
    let mut i: usize = 0;
    proof {
        assert(data@.skip(0) =~= data@);
    }
    while i < data.len()
        invariant
            i <= data@.len(),
            properly_escaped(data@.skip(i as int)),
            fin@ + unescape_seq(data@.skip(i as int)) == unescape_seq(data@),
        decreases data@.len() - i,
    {
        let ghost rest = data@.skip(i as int);
        if data[i] == ESCAPE {
            proof {
                assert(rest[0] == ESCAPE);
                assert(rest.len() >= 2 && properly_escaped(rest.skip(2)));
                assert(rest[1] == data@[i as int + 1]);
                assert(rest.skip(2) =~= data@.skip(i as int + 2));
            }
            let unesc = data[i + 1] ^ ESCAPE_MASK;
            fin.push(unesc);
            proof {
                assert(fin@ + unescape_seq(data@.skip(i as int + 2)) =~= unescape_seq(data@));
            }
            i = i + 2;
        } else {
            proof {
                assert(rest[0] != ESCAPE);
                assert(rest.skip(1) =~= data@.skip(i as int + 1));
            }
            fin.push(data[i]);
            proof {
                assert(fin@ + unescape_seq(data@.skip(i as int + 1)) =~= unescape_seq(data@));
            }
            i = i + 1;
        }
    }
    proof {
        assert(data@.skip(data@.len() as int) =~= Seq::<u8>::empty());
        assert(fin@ =~= unescape_seq(data@));
    }
    fin
}

/// Escaping is involutive: unescaping an escaped payload gives the payload
/// back, whatever bytes it held, and the escaped form never ends in a
/// dangling introducer.
pub proof fn lemma_unescape_escape(s: Seq<u8>)
    ensures
        properly_escaped(escape_seq(s)),
        unescape_seq(escape_seq(s)) == s,
    decreases s.len(),
{
    if s.len() == 0 {
    } else {
        lemma_unescape_escape(s.skip(1));
        let e = escape_seq(s);
        let tail = escape_seq(s.skip(1));
        if needs_escape(s[0]) {
            assert(e =~= seq![ESCAPE, s[0] ^ ESCAPE_MASK] + tail);
            assert(e[0] == ESCAPE && e.len() >= 2);
            assert(e.skip(2) =~= tail);
            assert(e[1] == (s[0] ^ ESCAPE_MASK));
            let b = s[0];
            assert(((b ^ 0x20u8) ^ 0x20u8) == b) by (bit_vector);
            assert(unescape_seq(e) == seq![s[0]] + unescape_seq(tail));
            assert(seq![s[0]] + s.skip(1) =~= s);
        } else {
            assert(e =~= seq![s[0]] + tail);
            assert(e[0] == s[0] && e[0] != ESCAPE);
            assert(e.skip(1) =~= tail);
            assert(unescape_seq(e) == seq![s[0]] + unescape_seq(tail));
            assert(seq![s[0]] + s.skip(1) =~= s);
        }
    }
}

/// Unescaping distributes over concatenation when the first part stands on
/// its own (no escape pair straddles the boundary).
pub proof fn lemma_unescape_append(a: Seq<u8>, b: Seq<u8>)
    requires
        properly_escaped(a),
    ensures
        unescape_seq(a + b) == unescape_seq(a) + unescape_seq(b),
        properly_escaped(b) ==> properly_escaped(a + b),
    decreases a.len(),
{
    if a.len() == 0 {
        assert(a + b =~= b);
        assert(unescape_seq(a) + unescape_seq(b) =~= unescape_seq(b));
    } else if a[0] == ESCAPE {
        lemma_unescape_append(a.skip(2), b);
        let ab = a + b;
        assert(ab[0] == ESCAPE && ab.len() >= 2);
        assert(ab[1] == a[1]);
        assert(ab.skip(2) =~= a.skip(2) + b);
        assert(unescape_seq(ab) == seq![a[1] ^ ESCAPE_MASK] + (unescape_seq(a.skip(2))
            + unescape_seq(b)));
        assert(seq![a[1] ^ ESCAPE_MASK] + (unescape_seq(a.skip(2)) + unescape_seq(b)) =~= (
        seq![a[1] ^ ESCAPE_MASK] + unescape_seq(a.skip(2))) + unescape_seq(b));
    } else {
        lemma_unescape_append(a.skip(1), b);
        let ab = a + b;
        assert(ab[0] == a[0] && ab[0] != ESCAPE);
        assert(ab.skip(1) =~= a.skip(1) + b);
        assert(unescape_seq(ab) == seq![a[0]] + (unescape_seq(a.skip(1)) + unescape_seq(b)));
        assert(seq![a[0]] + (unescape_seq(a.skip(1)) + unescape_seq(b)) =~= (seq![a[0]]
            + unescape_seq(a.skip(1))) + unescape_seq(b));
    }
}

/// One frame of the link layer: a concrete address byte, a command byte,
/// and the unescaped payload.
pub struct Frame {
    pub address: u8,
    pub command: u8,
    pub payload: Vec<u8>,
}

/// The 16-bit value that two bytes spell in big-endian order.
pub open spec fn u16_from_be(hi: u8, lo: u8) -> u16 {
    (hi * 256 + lo) as u16
}

/// High byte of a 16-bit checksum as it appears on the wire.
pub open spec fn checksum_hi(c: u16) -> u8 {
    (c >> 8) as u8
}

/// Low byte of a 16-bit checksum as it appears on the wire.
pub open spec fn checksum_lo(c: u16) -> u8 {
    (c & 0xff) as u8
}

/// The unescaped bytes that the checksum covers: address, command, payload.
pub open spec fn frame_body(adr: u8, cmd: u8, payload: Seq<u8>) -> Seq<u8> {
    seq![adr, cmd] + payload
}

/// The interior of an encoded frame: everything between the delimiters.
/// Address, command and checksum go out raw; only the payload is escaped.
pub open spec fn encode_interior(adr: u8, cmd: u8, payload: Seq<u8>) -> Seq<u8> {
    let chk = checksum_of(frame_body(adr, cmd, payload));
    seq![adr, cmd] + escape_seq(payload) + seq![checksum_hi(chk), checksum_lo(chk)]
}

/// The full wire form of a frame, delimiters included.
pub open spec fn encode_frame_seq(adr: u8, cmd: u8, payload: Seq<u8>) -> Seq<u8> {
    seq![FRAME_START] + encode_interior(adr, cmd, payload) + seq![FRAME_END]
}

/// Encodes one frame for the wire, delimiters included.
pub fn encode_frame(adr: u8, cmd: u8, payload: &[u8]) -> (r: Vec<u8>)
    ensures
        r@ == encode_frame_seq(adr, cmd, payload@),
{
    let mut body: Vec<u8> = Vec::new();
    body.push(adr);
    body.push(cmd);
    body.extend_from_slice(payload);
    proof {
        assert(body@ =~= frame_body(adr, cmd, payload@));
    }
    let chk = checksum(body.as_slice());

    let mut esc = escp_data(payload);
    let mut out: Vec<u8> = Vec::new();
    out.push(FRAME_START);
    out.push(adr);
    out.push(cmd);
    out.append(&mut esc);
    out.push((chk >> 8) as u8);
    out.push((chk & 0xff) as u8);
    out.push(FRAME_END);
    proof {
        assert(out@ =~= encode_frame_seq(adr, cmd, payload@));
    }
    out
}

/// True when a frame interior decodes: no dangling escape, at least the
/// 4-byte header and trailer after unescaping, and a matching checksum.
pub open spec fn decode_ok(raw: Seq<u8>) -> bool {
    &&& properly_escaped(raw)
    &&& unescape_seq(raw).len() >= 4
    &&& checksum_matches(unescape_seq(raw))
}

/// The trailing two bytes of `u`, read big-endian, equal the 16-bit sum
/// of everything before them.
pub open spec fn checksum_matches(u: Seq<u8>) -> bool
    recommends
        u.len() >= 2,
{
    u16_from_be(u[u.len() - 2], u[u.len() - 1]) == checksum_of(u.take(u.len() - 2))
}

/// Address of a decodable frame interior.
pub open spec fn decoded_address(raw: Seq<u8>) -> u8 {
    unescape_seq(raw)[0]
}

/// Command of a decodable frame interior.
pub open spec fn decoded_command(raw: Seq<u8>) -> u8 {
    unescape_seq(raw)[1]
}

/// Payload of a decodable frame interior: the unescaped bytes between the
/// two header bytes and the two checksum bytes.
pub open spec fn decoded_payload(raw: Seq<u8>) -> Seq<u8> {
    unescape_seq(raw).subrange(2, unescape_seq(raw).len() - 2)
}

/// The error that decoding a non-decodable interior reports: the causes
/// are checked in this order.
pub open spec fn decode_err(raw: Seq<u8>) -> WqvError
    recommends
        !decode_ok(raw),
{
    if !properly_escaped(raw) {
        WqvError::TruncatedEscape
    } else if unescape_seq(raw).len() < 4 {
        WqvError::FrameTooShort
    } else {
        WqvError::ChecksumMismatch
    }
}

/// Decodes a frame interior (the bytes between, and exclusive of, the
/// delimiters): unescapes it, splits off address, command and checksum,
/// and verifies the checksum.
pub fn decode_frame(raw: &[u8]) -> (r: Result<Frame, WqvError>)
    ensures
        match r {
            Ok(f) => decode_ok(raw@) && f.address == decoded_address(raw@) && f.command
                == decoded_command(raw@) && f.payload@ == decoded_payload(raw@),
            Err(e) => !decode_ok(raw@) && e == decode_err(raw@),
        },
{
    if !is_properly_escaped(raw) {
        return Err(WqvError::TruncatedEscape);
    }
    let u = unescp_data(raw);
    let n = u.len();
    if n < 4 {
        return Err(WqvError::FrameTooShort);
    }
    let head = vstd::slice::slice_subrange(u.as_slice(), 0, n - 2);
    proof {
        assert(head@ =~= unescape_seq(raw@).take(n - 2));
    }
    let chk_actual = checksum(head);
    let chk_expected: u16 = (u[n - 2] as u16) * 256 + (u[n - 1] as u16);
    if chk_expected != chk_actual {
        return Err(WqvError::ChecksumMismatch);
    }
    let payload = vstd::slice::slice_to_vec(vstd::slice::slice_subrange(u.as_slice(), 2, n - 2));
    proof {
        assert(payload@ =~= decoded_payload(raw@));
    }
    Ok(Frame { address: u[0], command: u[1], payload })
}

/// A raw byte other than the escape introducer unescapes to itself.
proof fn lemma_unescape_raw_single(x: u8)
    requires
        x != ESCAPE,
    ensures
        properly_escaped(seq![x]),
        unescape_seq(seq![x]) == seq![x],
{
    let s = seq![x];
    assert(s.len() == 1 && s[0] == x);
    assert(s.skip(1) =~= Seq::<u8>::empty());
    assert(properly_escaped(Seq::<u8>::empty()));
    assert(unescape_seq(Seq::<u8>::empty()) == Seq::<u8>::empty());
    assert(unescape_seq(s) == seq![x] + unescape_seq(s.skip(1)));
    assert(seq![x] + Seq::<u8>::empty() =~= seq![x]);
}

/// Splitting a 16-bit value into its big-endian bytes and reading them
/// back gives the value.
proof fn lemma_be_split(c: u16)
    ensures
        u16_from_be((c >> 8) as u8, (c & 0xff) as u8) == c,
{
    assert(((c >> 8) as u8 as u16) * 256 + ((c & 0xff) as u8 as u16) == c) by (bit_vector);
}

/// Round trip of the codec: an encoded frame's interior decodes back to
/// the address, command and payload it was built from. The address,
/// command and checksum bytes travel unescaped, so the statement asks
/// that none of those four bytes equals the escape introducer; a frame
/// whose raw address byte is the introducer is corrupted on its way back.
pub proof fn lemma_decode_encode(adr: u8, cmd: u8, payload: Seq<u8>)
    requires
        adr != ESCAPE,
        cmd != ESCAPE,
        checksum_hi(checksum_of(frame_body(adr, cmd, payload))) != ESCAPE,
        checksum_lo(checksum_of(frame_body(adr, cmd, payload))) != ESCAPE,
    ensures
        decode_ok(encode_interior(adr, cmd, payload)),
        decoded_address(encode_interior(adr, cmd, payload)) == adr,
        decoded_command(encode_interior(adr, cmd, payload)) == cmd,
        decoded_payload(encode_interior(adr, cmd, payload)) == payload,
{
    let chk = checksum_of(frame_body(adr, cmd, payload));
    let hi = checksum_hi(chk);
    let lo = checksum_lo(chk);
    let e = escape_seq(payload);
    let interior = encode_interior(adr, cmd, payload);

    lemma_unescape_escape(payload);
    lemma_unescape_raw_single(adr);
    lemma_unescape_raw_single(cmd);
    lemma_unescape_raw_single(hi);
    lemma_unescape_raw_single(lo);

    // tail = escaped payload, then the two raw checksum bytes
    let tail = e + (seq![hi] + seq![lo]);
    lemma_unescape_append(seq![hi], seq![lo]);
    lemma_unescape_append(e, seq![hi] + seq![lo]);
    assert(unescape_seq(tail) == payload + (seq![hi] + seq![lo]));
    assert(properly_escaped(tail));

    lemma_unescape_append(seq![cmd], tail);
    lemma_unescape_append(seq![adr], seq![cmd] + tail);
    assert(interior =~= seq![adr] + (seq![cmd] + tail));

    let u = unescape_seq(interior);
    assert(u == seq![adr] + (seq![cmd] + (payload + (seq![hi] + seq![lo]))));
    assert(u =~= frame_body(adr, cmd, payload) + seq![hi, lo]);
    assert(u.len() == payload.len() + 4);
    assert(u.take(u.len() - 2) =~= frame_body(adr, cmd, payload));
    assert(u[u.len() - 2] == hi && u[u.len() - 1] == lo);
    lemma_be_split(chk);
    assert(checksum_matches(u));
    assert(u.subrange(2, u.len() - 2) =~= payload);
}

/// The escaped form of any payload is free of both delimiters: a raw
/// byte that passes through is not a reserved byte, and a masked byte
/// never collides with one.
pub proof fn lemma_escape_delimiter_free(s: Seq<u8>)
    ensures
        forall|i: int|
            0 <= i < escape_seq(s).len() ==> escape_seq(s)[i] != FRAME_START && escape_seq(s)[i]
                != FRAME_END,
    decreases s.len(),
{
    if s.len() > 0 {
        lemma_escape_delimiter_free(s.skip(1));
        let e = escape_seq(s);
        let tail = escape_seq(s.skip(1));
        if needs_escape(s[0]) {
            let b = s[0];
            assert(b == 0xC0u8 || b == 0xC1u8 || b == 0x7Du8 ==> (b ^ 0x20u8) != 0xC0u8 && (b
                ^ 0x20u8) != 0xC1u8) by (bit_vector);
            assert(e =~= seq![ESCAPE, b ^ ESCAPE_MASK] + tail);
            assert(forall|i: int| 2 <= i < e.len() ==> e[i] == tail[i - 2]);
        } else {
            assert(e =~= seq![s[0]] + tail);
            assert(forall|i: int| 1 <= i < e.len() ==> e[i] == tail[i - 1]);
        }
    }
}

} // verus!
