//! Parser for the transferred image blob.
//!
//! The blob's fixed layout: a 24-byte space-padded text name, five date
//! bytes (year offset from 2000, month, day, hour, minute), and 7200
//! bytes of nibble-packed pixel data for a 120 by 120 image. 7229 bytes
//! in all. The pixel buffer is handed out as it is; unpacking it to a
//! bitmap is the caller's business. The hour/minute order follows the
//! device as observed, not the public protocol write-up.

use vstd::prelude::*;
use vstd::string::StrSliceExecFns;
use vstd::string::StringSliceAdditionalSpecFns;
use vstd::utf8::decode_utf8;
use vstd::utf8::valid_utf8;
use crate::errors::WqvError;

verus! {

/// Total length of a transferred image blob.
pub const BLOB_LEN: usize = 7229;

/// Length of the space-padded name field.
pub const NAME_LEN: usize = 24;

/// Length of the packed pixel buffer.
pub const PIXEL_LEN: usize = 7200;

/// Where the pixel buffer starts inside the blob.
pub const PIXEL_OFF: usize = 29;

/// A calendar date and time of day, minute precision, as the device
/// stamps its images.
#[derive(Clone, Copy, Debug, PartialEq, Eq, Structural)]
pub struct Timestamp {
    pub year: u16,
    pub month: u8,
    pub day: u8,
    pub hour: u8,
    pub minute: u8,
}

/// The Gregorian leap-year rule.
pub open spec fn is_leap_year(y: int) -> bool {
    y % 4 == 0 && (y % 100 != 0 || y % 400 == 0)
}

/// Days in a month of the Gregorian calendar.
pub open spec fn days_in_month(y: int, m: int) -> int {
    if m == 2 {
        if is_leap_year(y) {
            29
        } else {
            28
        }
    } else if m == 4 || m == 6 || m == 9 || m == 11 {
        30
    } else {
        31
    }
}

impl Timestamp {
    /// The fields name a real calendar date and a real time of day.
    pub open spec fn valid(self) -> bool {
        &&& 1 <= self.month <= 12
        &&& 1 <= self.day <= days_in_month(self.year as int, self.month as int)
        &&& self.hour < 24
        &&& self.minute < 60
    }
}

/// The characters the name is trimmed of: the Unicode whitespace set.
pub open spec fn is_space_char(c: char) -> bool {
    let u = c as u32;
    ||| u == 0x09
    ||| u == 0x0A
    ||| u == 0x0B
    ||| u == 0x0C
    ||| u == 0x0D
    ||| u == 0x20
    ||| u == 0x85
    ||| u == 0xA0
    ||| u == 0x1680
    ||| (0x2000 <= u && u <= 0x200A)
    ||| u == 0x2028
    ||| u == 0x2029
    ||| u == 0x202F
    ||| u == 0x205F
    ||| u == 0x3000
}

/// `s` with its leading whitespace removed.
pub open spec fn trim_front_chars(s: Seq<char>) -> Seq<char>
    decreases s.len(),
{
    if s.len() > 0 && is_space_char(s[0]) {
        trim_front_chars(s.skip(1))
    } else {
        s
    }
}

/// `s` with its trailing whitespace removed.
pub open spec fn trim_back_chars(s: Seq<char>) -> Seq<char>
    decreases s.len(),
{
    if s.len() > 0 && is_space_char(s.last()) {
        trim_back_chars(s.drop_last())
    } else {
        s
    }
}

/// `s` with whitespace removed from both ends.
pub open spec fn trimmed_chars(s: Seq<char>) -> Seq<char> {
    trim_back_chars(trim_front_chars(s))
}

/// True when the name field holds valid text: its bytes are UTF-8.
pub open spec fn name_ok(d: Seq<u8>) -> bool {
    valid_utf8(d.subrange(0, NAME_LEN as int))
}

/// The timestamp spelled by the blob's five date bytes.
pub open spec fn blob_timestamp(d: Seq<u8>) -> Timestamp {
    Timestamp {
        year: (2000 + d[24]) as u16,
        month: d[25],
        day: d[26],
        hour: d[27],
        minute: d[28],
    }
}

/// True when a blob parses: right length, valid text name, real date.
pub open spec fn parse_ok(d: Seq<u8>) -> bool {
    &&& d.len() == BLOB_LEN
    &&& name_ok(d)
    &&& blob_timestamp(d).valid()
}

/// The error a malformed blob is reported with: the causes are checked
/// in this order.
pub open spec fn parse_err(d: Seq<u8>) -> WqvError
    recommends
        !parse_ok(d),
{
    if d.len() != BLOB_LEN {
        WqvError::BadBlobLength
    } else if !name_ok(d) {
        WqvError::InvalidName
    } else {
        WqvError::InvalidDate
    }
}

/// One decoded image: the trimmed name, the timestamp, and the packed
/// pixel buffer exactly as transferred.
pub struct ImageBlob {
    pub name: String,
    pub date: Timestamp,
    pub img: Vec<u8>,
}

/// Relies on `core::str::from_utf8`: it succeeds exactly on valid UTF-8,
/// and the returned text is carried by exactly the given bytes.
#[verifier::external_body]
fn bytes_as_str<'a>(b: &'a [u8]) -> (r: Option<&'a str>)
    ensures
        match r {
            Some(s) => valid_utf8(b@) && s.spec_bytes() == b@,
            None => !valid_utf8(b@),
        },
{
    core::str::from_utf8(b).ok()
}

/// Whitespace test, executable form.
fn is_space(c: char) -> (r: bool)
    ensures
        r == is_space_char(c),
{
    let u = c as u32;
    u == 0x09 || u == 0x0A || u == 0x0B || u == 0x0C || u == 0x0D || u == 0x20 || u == 0x85 || u
        == 0xA0 || u == 0x1680 || (0x2000 <= u && u <= 0x200A) || u == 0x2028 || u == 0x2029 || u
        == 0x202F || u == 0x205F || u == 0x3000
}

/// Days in a month, executable form.
fn days_in_month_exec(y: u16, m: u8) -> (d: u8)
    requires
        1 <= m <= 12,
    ensures
        d == days_in_month(y as int, m as int),
{
    if m == 2 {
        if y % 4 == 0 && (y % 100 != 0 || y % 400 == 0) {
            29
        } else {
            28
        }
    } else if m == 4 || m == 6 || m == 9 || m == 11 {
        30
    } else {
        31
    }
}

/// Trims surrounding whitespace off a text, character-wise.
fn trim_text(text: &str) -> (r: String)
    ensures
        r@ == trimmed_chars(text@),
{
    let total = text.unicode_len();
    let mut lo: usize = 0;
    proof {
        assert(text@.skip(0) =~= text@);
    }
    while lo < total && is_space(text.get_char(lo))
        invariant
            lo <= total,
            total == text@.len(),
            trim_front_chars(text@) == trim_front_chars(text@.skip(lo as int)),
        decreases total - lo,
    {
        proof {
            let rest = text@.skip(lo as int);
            assert(rest[0] == text@[lo as int] && is_space_char(rest[0]));
            assert(rest.skip(1) =~= text@.skip(lo as int + 1));
        }
        lo = lo + 1;
    }
    proof {
        if lo < total {
            assert(!is_space_char(text@.skip(lo as int)[0]));
        } else {
            assert(text@.skip(lo as int) =~= Seq::<char>::empty());
        }
        assert(trim_front_chars(text@) == text@.skip(lo as int));
        assert(text@.skip(lo as int) =~= text@.subrange(lo as int, total as int));
    }

    let mut hi: usize = total;
    while hi > lo && is_space(text.get_char(hi - 1))
        invariant
            lo <= hi <= total,
            total == text@.len(),
            trim_back_chars(text@.skip(lo as int)) == trim_back_chars(
                text@.subrange(lo as int, hi as int),
            ),
        decreases hi,
    {
        proof {
            let mid = text@.subrange(lo as int, hi as int);
            assert(mid.last() == text@[hi as int - 1] && is_space_char(mid.last()));
            assert(mid.drop_last() =~= text@.subrange(lo as int, hi as int - 1));
        }
        hi = hi - 1;
    }
    proof {
        let mid = text@.subrange(lo as int, hi as int);
        if hi > lo {
            assert(!is_space_char(mid.last()));
        } else {
            assert(mid =~= Seq::<char>::empty());
        }
        assert(trimmed_chars(text@) == text@.subrange(lo as int, hi as int));
    }
    let kept = text.substring_char(lo, hi);
    kept.to_owned()
}

/// Decodes the fixed binary layout of a transferred blob into a name, a
/// timestamp and the raw pixel buffer.
///
/// The blob must be exactly `BLOB_LEN` bytes; the name bytes must be
/// valid text (UTF-8), and the decoded name is trimmed of surrounding
/// whitespace; the date bytes must spell a real calendar date and time.
pub fn parse_image_blob(data: &[u8]) -> (r: Result<ImageBlob, WqvError>)
    ensures
        match r {
            Ok(b) => {
                &&& parse_ok(data@)
                &&& b.name@ == trimmed_chars(decode_utf8(data@.subrange(0, NAME_LEN as int)))
                &&& b.date == blob_timestamp(data@)
                &&& b.img@ == data@.skip(PIXEL_OFF as int)
            },
            Err(e) => {
                &&& !parse_ok(data@)
                &&& e == parse_err(data@)
            },
        },
{
    if data.len() != BLOB_LEN {
        return Err(WqvError::BadBlobLength);
    }
    let name_bytes = vstd::slice::slice_subrange(data, 0, NAME_LEN);
    let ghost ns = data@.subrange(0, NAME_LEN as int);

    // the name must be valid text, and is trimmed once decoded
    let text: &str = match bytes_as_str(name_bytes) {
        Some(t) => t,
        None => {
            return Err(WqvError::InvalidName);
        },
    };
    proof {
        // the text is carried by the name bytes, so its characters are
        // their decoding
        vstd::utf8::encode_utf8_decode_utf8(text@);
        assert(text@ == decode_utf8(ns));
    }
    let name = trim_text(text);

    // the five date bytes must name a real date and time
    let year: u16 = 2000 + (data[24] as u16);
    let month: u8 = data[25];
    let day: u8 = data[26];
    let hour: u8 = data[27];
    let minute: u8 = data[28];
    if month < 1 || month > 12 {
        return Err(WqvError::InvalidDate);
    }
    if day < 1 || day > days_in_month_exec(year, month) {
        return Err(WqvError::InvalidDate);
    }
    if hour >= 24 || minute >= 60 {
        return Err(WqvError::InvalidDate);
    }
    let date = Timestamp { year, month, day, hour, minute };

    let img = vstd::slice::slice_to_vec(vstd::slice::slice_subrange(data, PIXEL_OFF, BLOB_LEN));
    proof {
        assert(img@ =~= data@.skip(PIXEL_OFF as int));
    }
    Ok(ImageBlob { name, date, img })
}

} // verus!
