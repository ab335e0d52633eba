//! Wire framing of protocol messages.
//!
//! A frame is a header block followed by a payload.  The header block is a
//! run of lines, each ended by CR LF, and is closed by an empty line.  The
//! line `Content-Length: <decimal>` gives the number of payload bytes that
//! follow the empty line; every other header line is skipped.  A byte stream
//! carries frames back to back, and a read may end anywhere inside one.
use vstd::prelude::*;
use vstd::slice::*;

verus! {

pub const CR: u8 = 13;

pub const LF: u8 = 10;

/// Number of bytes in the text `Content-Length: `.
pub const LENGTH_FIELD_LEN: usize = 16;

/// What is wrong with a header block.
#[derive(Clone, Copy, Debug, PartialEq, Eq, Structural)]
pub enum FrameError {
    /// The header block ended without a `Content-Length` line.
    MissingContentLength,
    /// The value of a `Content-Length` line is empty, holds something other
    /// than decimal digits, or does not fit the machine's address range.
    InvalidContentLength,
}

/// What the front of a byte stream holds.
pub enum Parsed {
    /// More bytes are needed before anything can be said.
    Incomplete,
    /// The header block cannot be read.
    Malformed(FrameError),
    /// One whole frame: its payload, and the number of bytes it occupies.
    Frame { payload: Seq<u8>, consumed: int },
}

/// The executable counterpart of [`Parsed`].
#[derive(Debug)]
pub enum Decoded {
    Incomplete,
    Malformed(FrameError),
    Frame { payload: Vec<u8>, consumed: usize },
}

impl View for Decoded {
    type V = Parsed;

    open spec fn view(&self) -> Parsed {
        match self {
            Decoded::Incomplete => Parsed::Incomplete,
            Decoded::Malformed(e) => Parsed::Malformed(*e),
            Decoded::Frame { payload, consumed } => Parsed::Frame {
                payload: payload@,
                consumed: *consumed as int,
            },
        }
    }
}

/// The bytes of the text `Content-Length: `.
pub open spec fn length_field() -> Seq<u8> {
    seq![
        67u8, 111u8, 110u8, 116u8, 101u8, 110u8, 116u8, 45u8,
        76u8, 101u8, 110u8, 103u8, 116u8, 104u8, 58u8, 32u8,
    ]
}

pub open spec fn is_digit(b: u8) -> bool {
    48 <= b && b <= 57
}

/// The decimal numeral of `n`, without leading zeros.
pub open spec fn decimal(n: nat) -> Seq<u8>
    decreases n,
{
    if n < 10 {
        seq![(48 + n) as u8]
    } else {
        decimal(n / 10).push((48 + n % 10) as u8)
    }
}

/// The number that a run of decimal digits denotes, most significant first.
pub open spec fn digits_value(digits: Seq<u8>) -> nat
    decreases digits.len(),
{
    if digits.len() == 0 {
        0
    } else {
        digits_value(digits.drop_last()) * 10 + (digits.last() - 48) as nat
    }
}

pub open spec fn all_digits(digits: Seq<u8>) -> bool {
    forall|i: int| 0 <= i < digits.len() ==> is_digit(#[trigger] digits[i])
}

/// A `Content-Length` value that can be honoured: at least one digit,
/// digits only, and a number that a buffer length can reach.
pub open spec fn valid_length(digits: Seq<u8>) -> bool {
    &&& digits.len() > 0
    &&& all_digits(digits)
    &&& digits_value(digits) <= usize::MAX
}

/// The header and payload of one frame.
pub open spec fn frame(payload: Seq<u8>) -> Seq<u8> {
    length_field() + decimal(payload.len()) + seq![CR, LF, CR, LF] + payload
}

pub open spec fn crlf_at(buf: Seq<u8>, i: int) -> bool {
    0 <= i && i + 1 < buf.len() && buf[i] == CR && buf[i + 1] == LF
}

/// Position of the first CR LF that starts at or after `from`.
pub open spec fn first_crlf(buf: Seq<u8>, from: int) -> Option<int>
    decreases buf.len() - from,
{
    if from < 0 || from + 1 >= buf.len() {
        None
    } else if crlf_at(buf, from) {
        Some(from)
    } else {
        first_crlf(buf, from + 1)
    }
}

pub open spec fn is_length_line(line: Seq<u8>) -> bool {
    line.len() >= LENGTH_FIELD_LEN && line.subrange(0, LENGTH_FIELD_LEN as int) =~= length_field()
}

/// Reads header lines from `pos` on, `length` being the value of the last
/// `Content-Length` line seen so far, and then the payload.
pub open spec fn scan_headers(buf: Seq<u8>, pos: int, length: Option<nat>) -> Parsed
    decreases buf.len() - pos,
    via scan_headers_decreases
{
    match first_crlf(buf, pos) {
        None => Parsed::Incomplete,
        Some(end) => {
            if end == pos {
                match length {
                    None => Parsed::Malformed(FrameError::MissingContentLength),
                    Some(n) => {
                        if end + 2 + n <= buf.len() {
                            Parsed::Frame {
                                payload: buf.subrange(end + 2, end + 2 + n),
                                consumed: end + 2 + n,
                            }
                        } else {
                            Parsed::Incomplete
                        }
                    },
                }
            } else {
                let line = buf.subrange(pos, end);
                if is_length_line(line) {
                    let digits = line.skip(LENGTH_FIELD_LEN as int);
                    if valid_length(digits) {
                        scan_headers(buf, end + 2, Some(digits_value(digits)))
                    } else {
                        Parsed::Malformed(FrameError::InvalidContentLength)
                    }
                } else {
                    scan_headers(buf, end + 2, length)
                }
            }
        },
    }
}

#[via_fn]
proof fn scan_headers_decreases(buf: Seq<u8>, pos: int, length: Option<nat>) {
    lemma_first_crlf(buf, pos);
}

/// What the front of `buf` holds, read as a frame.
pub open spec fn parse_frame(buf: Seq<u8>) -> Parsed {
    scan_headers(buf, 0, None)
}

/// `first_crlf` finds a CR LF, no earlier than `from`, and none lies before it.
pub proof fn lemma_first_crlf(buf: Seq<u8>, from: int)
    ensures
        match first_crlf(buf, from) {
            Some(i) => from <= i && crlf_at(buf, i) && forall|j: int|
                from <= j < i ==> !crlf_at(buf, j),
            None => forall|j: int| 0 <= from <= j ==> !crlf_at(buf, j),
        },
    decreases buf.len() - from,
{
    if from < 0 || from + 1 >= buf.len() {
    } else if crlf_at(buf, from) {
    } else {
        lemma_first_crlf(buf, from + 1);
    }
}

/// A CR LF at `i` with none in `from..i` is the first one from `from` on.
pub proof fn lemma_first_crlf_is(buf: Seq<u8>, from: int, i: int)
    requires
        0 <= from <= i,
        crlf_at(buf, i),
        forall|j: int| from <= j < i ==> !crlf_at(buf, j),
    ensures
        first_crlf(buf, from) == Some(i),
    decreases i - from,
{
    if from < i {
        lemma_first_crlf_is(buf, from + 1, i);
    }
}

/// Finds the first CR LF that starts at or after `from`.
fn find_crlf(buf: &[u8], from: usize) -> (r: Option<usize>)
    ensures
        match r {
            Some(i) => first_crlf(buf@, from as int) == Some(i as int),
            None => first_crlf(buf@, from as int) is None,
        },
{
    let len: usize = buf.len();
    let mut i: usize = from;
    while i < len && i + 1 < len
        invariant
            from <= i,
            len == buf@.len(),
            first_crlf(buf@, i as int) == first_crlf(buf@, from as int),
        decreases len - i,
    {
        if buf[i] == CR && buf[i + 1] == LF {
            return Some(i);
        }
        i = i + 1;
    }
    None
}

/// The byte at place `i` of the text `Content-Length: `.
fn length_field_byte(i: usize) -> (b: u8)
    requires
        i < LENGTH_FIELD_LEN,
    ensures
        b == length_field()[i as int],
{
    match i {
        0 => 67,
        1 => 111,
        2 => 110,
        3 => 116,
        4 => 101,
        5 => 110,
        6 => 116,
        7 => 45,
        8 => 76,
        9 => 101,
        10 => 110,
        11 => 103,
        12 => 116,
        13 => 104,
        14 => 58,
        _ => 32,
    }
}

/// Whether the line `buf[start..end]` begins with `Content-Length: `.
fn starts_with_length_field(buf: &[u8], start: usize, end: usize) -> (r: bool)
    requires
        start <= end <= buf@.len(),
    ensures
        r == is_length_line(buf@.subrange(start as int, end as int)),
{
    if end - start < LENGTH_FIELD_LEN {
        return false;
    }
    let ghost line = buf@.subrange(start as int, end as int);
    let mut i: usize = 0;
    while i < LENGTH_FIELD_LEN
        invariant
            i <= LENGTH_FIELD_LEN,
            start + LENGTH_FIELD_LEN <= end <= buf@.len(),
            line == buf@.subrange(start as int, end as int),
            forall|k: int| 0 <= k < i ==> line[k] == length_field()[k],
        decreases LENGTH_FIELD_LEN - i,
    {
        if buf[start + i] != length_field_byte(i) {
            assert(line.subrange(0, LENGTH_FIELD_LEN as int)[i as int] == line[i as int]);
            return false;
        }
        i = i + 1;
    }
    true
}

/// `digits_value` of a run of digits grows with every digit appended.
pub proof fn lemma_digits_value_prefix(digits: Seq<u8>, k: int)
    requires
        0 <= k <= digits.len(),
        all_digits(digits),
    ensures
        digits_value(digits.take(k)) <= digits_value(digits),
    decreases digits.len() - k,
{
    if k < digits.len() {
        let next = digits.take(k + 1);
        assert(next.drop_last() =~= digits.take(k));
        assert(next.last() == digits[k]);
        lemma_digits_value_prefix(digits, k + 1);
    } else {
        assert(digits.take(k) =~= digits);
    }
}

/// Reads `buf[start..end]` as a `Content-Length` value.
fn parse_length(buf: &[u8], start: usize, end: usize) -> (r: Option<usize>)
    requires
        start <= end <= buf@.len(),
    ensures
        match r {
            Some(n) => valid_length(buf@.subrange(start as int, end as int)) && n == digits_value(
                buf@.subrange(start as int, end as int),
            ),
            None => !valid_length(buf@.subrange(start as int, end as int)),
        },
{
    let ghost digits = buf@.subrange(start as int, end as int);
    if start == end {
        return None;
    }
    let mut value: usize = 0;
    let mut i: usize = start;
    while i < end
        invariant
            start <= i <= end <= buf@.len(),
            digits == buf@.subrange(start as int, end as int),
            all_digits(digits.take(i - start)),
            value == digits_value(digits.take(i - start)),
        decreases end - i,
    {
        let b: u8 = buf[i];
        let ghost seen = digits.take(i - start);
        let ghost next = digits.take(i - start + 1);
        assert(next.drop_last() =~= seen);
        assert(next.last() == b);
        if b < 48 || b > 57 {
            assert(!is_digit(digits[i - start]));
            return None;
        }
        assert(all_digits(next)) by {
            assert forall|k: int| 0 <= k < next.len() implies is_digit(#[trigger] next[k]) by {
                if k < seen.len() {
                    assert(next[k] == seen[k]);
                }
            }
        }
        let digit: usize = (b - 48) as usize;
        let grown: Option<usize> = match value.checked_mul(10) {
            Some(tens) => tens.checked_add(digit),
            None => None,
        };
        match grown {
            Some(v) => {
                value = v;
            },
            None => {
                proof {
                    assert(digits_value(next) > usize::MAX);
                    if all_digits(digits) {
                        lemma_digits_value_prefix(digits, i - start + 1);
                    }
                }
                return None;
            },
        }
        i = i + 1;
    }
    assert(digits.take(end - start) =~= digits);
    Some(value)
}

/// Reads the front of `buf` as one frame.
pub fn decode_frame(buf: &[u8]) -> (r: Decoded)
    ensures
        r@ == parse_frame(buf@),
{
    let len: usize = buf.len();
    let mut pos: usize = 0;
    let mut length: Option<usize> = None;
    loop
        invariant
            len == buf@.len(),
            pos <= len,
            scan_headers(
                buf@,
                pos as int,
                match length {
                    Some(n) => Some(n as nat),
                    None => None,
                },
            ) == parse_frame(buf@),
        decreases buf@.len() - pos,
    {
        proof {
            lemma_first_crlf(buf@, pos as int);
        }
        let end: usize = match find_crlf(buf, pos) {
            Some(end) => end,
            None => {
                return Decoded::Incomplete;
            },
        };
        assert(crlf_at(buf@, end as int));
        let next: usize = end + 2;
        if end == pos {
            let n: usize = match length {
                Some(n) => n,
                None => {
                    return Decoded::Malformed(FrameError::MissingContentLength);
                },
            };
            if n > len - next {
                return Decoded::Incomplete;
            }
            let payload: Vec<u8> = slice_to_vec(slice_subrange(buf, next, next + n));
            return Decoded::Frame { payload, consumed: next + n };
        }
        if starts_with_length_field(buf, pos, end) {
            let ghost line = buf@.subrange(pos as int, end as int);
            assert(line.skip(LENGTH_FIELD_LEN as int) =~= buf@.subrange(
                pos + LENGTH_FIELD_LEN,
                end as int,
            ));
            match parse_length(buf, pos + LENGTH_FIELD_LEN, end) {
                Some(n) => {
                    length = Some(n);
                },
                None => {
                    return Decoded::Malformed(FrameError::InvalidContentLength);
                },
            }
        }
        pos = next;
    }
}

/// Appends `bytes` to `out`.
fn push_all(out: &mut Vec<u8>, bytes: &[u8])
    ensures
        final(out)@ == old(out)@ + bytes@,
{
    let n: usize = bytes.len();
    let mut i: usize = 0;
    while i < n
        invariant
            i <= n,
            n == bytes@.len(),
            out@ == old(out)@ + bytes@.take(i as int),
        decreases n - i,
    {
        out.push(bytes[i]);
        assert(bytes@.take(i + 1) =~= bytes@.take(i as int).push(bytes@[i as int]));
        i = i + 1;
    }
    assert(bytes@.take(n as int) =~= bytes@);
}

/// Appends the decimal numeral of `n` to `out`.
fn push_decimal(out: &mut Vec<u8>, n: usize)
    ensures
        final(out)@ == old(out)@ + decimal(n as nat),
    decreases n,
{
    if n >= 10 {
        push_decimal(out, n / 10);
    }
    let digit: u8 = (n % 10) as u8;
    out.push(48 + digit);
}

/// Appends the text `Content-Length: ` to `out`.
fn push_length_field(out: &mut Vec<u8>)
    ensures
        final(out)@ == old(out)@ + length_field(),
{
    let mut i: usize = 0;
    while i < LENGTH_FIELD_LEN
        invariant
            i <= LENGTH_FIELD_LEN,
            out@ == old(out)@ + length_field().take(i as int),
        decreases LENGTH_FIELD_LEN - i,
    {
        out.push(length_field_byte(i));
        assert(length_field().take(i + 1) =~= length_field().take(i as int).push(
            length_field()[i as int],
        ));
        i = i + 1;
    }
    assert(length_field().take(LENGTH_FIELD_LEN as int) =~= length_field());
}

/// Puts `payload` into a frame.
pub fn encode_frame(payload: &[u8]) -> (out: Vec<u8>)
    ensures
        out@ == frame(payload@),
{
    let mut out: Vec<u8> = Vec::new();
    push_length_field(&mut out);
    push_decimal(&mut out, payload.len());
    out.push(CR);
    out.push(LF);
    out.push(CR);
    out.push(LF);
    assert(out@ =~= length_field() + decimal(payload@.len()) + seq![CR, LF, CR, LF]);
    push_all(&mut out, payload);
    out
}

/// The decimal numeral of `n` is a run of digits that denotes `n`.
pub proof fn lemma_decimal(n: nat)
    ensures
        decimal(n).len() > 0,
        all_digits(decimal(n)),
        digits_value(decimal(n)) == n,
    decreases n,
{
    if n < 10 {
        let d = decimal(n);
        assert(d.drop_last() =~= Seq::<u8>::empty());
        assert(digits_value(d.drop_last()) == 0);
    } else {
        lemma_decimal(n / 10);
        let d = decimal(n);
        assert(d.drop_last() =~= decimal(n / 10));
    }
}

/// Round trip of framing: the front of a stream that begins with the frame
/// of `payload` reads as that payload, and the frame is what it occupies.
pub proof fn lemma_frame_round_trip(payload: Seq<u8>, rest: Seq<u8>)
    requires
        payload.len() <= usize::MAX,
    ensures
        parse_frame(frame(payload) + rest) == (Parsed::Frame {
            payload,
            consumed: frame(payload).len() as int,
        }),
{
    let n = payload.len();
    let line = length_field() + decimal(n);
    let buf = frame(payload) + rest;
    let end = line.len() as int;
    lemma_decimal(n);
    assert forall|j: int| 0 <= j < end implies !crlf_at(buf, j) by {
        if j < LENGTH_FIELD_LEN {
            assert(buf[j] == length_field()[j]);
        } else {
            assert(buf[j] == decimal(n)[j - LENGTH_FIELD_LEN]);
            assert(is_digit(decimal(n)[j - LENGTH_FIELD_LEN]));
        }
    }
    assert(buf[end] == CR && buf[end + 1] == LF);
    assert(buf[end + 2] == CR && buf[end + 3] == LF);
    lemma_first_crlf_is(buf, 0, end);
    assert(buf.subrange(0, end) =~= line);
    assert(line.subrange(0, LENGTH_FIELD_LEN as int) =~= length_field());
    assert(line.skip(LENGTH_FIELD_LEN as int) =~= decimal(n));
    lemma_first_crlf_is(buf, end + 2, end + 2);
    assert(buf.subrange(end + 4, end + 4 + n) =~= payload);
    assert(scan_headers(buf, end + 2, Some(n)) == (Parsed::Frame {
        payload,
        consumed: end + 4 + n,
    }));
}

/// A frame, once it is whole, lies inside the buffer and is not empty.
pub proof fn lemma_scan_consumed(buf: Seq<u8>, pos: int, length: Option<nat>)
    requires
        0 <= pos,
    ensures
        match scan_headers(buf, pos, length) {
            Parsed::Frame { payload, consumed } => pos < consumed <= buf.len() && payload.len()
                <= consumed,
            _ => true,
        },
    decreases buf.len() - pos,
{
    lemma_first_crlf(buf, pos);
    match first_crlf(buf, pos) {
        None => {},
        Some(end) => {
            if end != pos {
                let line = buf.subrange(pos, end);
                if is_length_line(line) {
                    let digits = line.skip(LENGTH_FIELD_LEN as int);
                    if valid_length(digits) {
                        lemma_scan_consumed(buf, end + 2, Some(digits_value(digits)));
                    }
                } else {
                    lemma_scan_consumed(buf, end + 2, length);
                }
            }
        },
    }
}

/// What has been read stays read: once the front of a buffer is a frame or
/// is malformed, bytes that arrive later do not change that.
pub proof fn lemma_scan_stable(buf: Seq<u8>, more: Seq<u8>, pos: int, length: Option<nat>)
    requires
        0 <= pos,
        !(scan_headers(buf, pos, length) is Incomplete),
    ensures
        scan_headers(buf + more, pos, length) == scan_headers(buf, pos, length),
    decreases buf.len() - pos,
{
    let ext = buf + more;
    lemma_first_crlf(buf, pos);
    match first_crlf(buf, pos) {
        None => {},
        Some(end) => {
            assert forall|j: int| pos <= j < end implies !crlf_at(ext, j) by {
                assert(!crlf_at(buf, j));
                assert(ext[j] == buf[j] && ext[j + 1] == buf[j + 1]);
            }
            assert(ext[end] == buf[end] && ext[end + 1] == buf[end + 1]);
            lemma_first_crlf_is(ext, pos, end);
            if end == pos {
                match length {
                    None => {},
                    Some(n) => {
                        assert(ext.subrange(end + 2, end + 2 + n) =~= buf.subrange(
                            end + 2,
                            end + 2 + n,
                        ));
                    },
                }
            } else {
                assert(ext.subrange(pos, end) =~= buf.subrange(pos, end));
                let line = buf.subrange(pos, end);
                if is_length_line(line) {
                    let digits = line.skip(LENGTH_FIELD_LEN as int);
                    if valid_length(digits) {
                        lemma_scan_stable(buf, more, end + 2, Some(digits_value(digits)));
                    }
                } else {
                    lemma_scan_stable(buf, more, end + 2, length);
                }
            }
        },
    }
}

/// Partial reads: where a read ends does not matter.  A buffer whose front
/// already reads as a frame or as malformed reads the same after any
/// further bytes.
pub proof fn lemma_parse_stable(buf: Seq<u8>, more: Seq<u8>)
    requires
        !(parse_frame(buf) is Incomplete),
    ensures
        parse_frame(buf + more) == parse_frame(buf),
{
    lemma_scan_stable(buf, more, 0, None);
}

/// Partial reads: every proper prefix of a frame is incomplete, so a frame
/// is handed out only when its last byte has arrived.
pub proof fn lemma_frame_prefix_incomplete(payload: Seq<u8>, k: int)
    requires
        payload.len() <= usize::MAX,
        0 <= k < frame(payload).len(),
    ensures
        parse_frame(frame(payload).take(k)) is Incomplete,
{
    let whole = frame(payload);
    let front = whole.take(k);
    let back = whole.skip(k);
    assert(front + back =~= whole);
    assert(whole + Seq::<u8>::empty() =~= whole);
    lemma_frame_round_trip(payload, Seq::empty());
    if !(parse_frame(front) is Incomplete) {
        lemma_parse_stable(front, back);
        lemma_scan_consumed(front, 0, None);
    }
}

/// The frames of `payloads`, back to back.
pub open spec fn stream(payloads: Seq<Seq<u8>>) -> Seq<u8>
    decreases payloads.len(),
{
    if payloads.len() == 0 {
        Seq::empty()
    } else {
        frame(payloads.first()) + stream(payloads.drop_first())
    }
}

/// A stream with one more frame at its end.
pub proof fn lemma_stream_push(payloads: Seq<Seq<u8>>, last: Seq<u8>)
    ensures
        stream(payloads.push(last)) == stream(payloads) + frame(last),
    decreases payloads.len(),
{
    let longer = payloads.push(last);
    if payloads.len() == 0 {
        assert(longer.drop_first() =~= Seq::<Seq<u8>>::empty());
        assert(stream(longer.drop_first()) =~= Seq::<u8>::empty());
        assert(stream(longer) =~= frame(last));
        assert(stream(payloads) + frame(last) =~= frame(last));
    } else {
        assert(longer.drop_first() =~= payloads.drop_first().push(last));
        lemma_stream_push(payloads.drop_first(), last);
        assert(stream(longer) =~= stream(payloads) + frame(last));
    }
}

/// The payloads of the whole frames at the front of `buf`, in wire order,
/// up to the first place that is incomplete or malformed.
pub open spec fn payloads_of(buf: Seq<u8>) -> Seq<Seq<u8>>
    decreases buf.len(),
    via payloads_of_decreases
{
    match parse_frame(buf) {
        Parsed::Frame { payload, consumed } => seq![payload] + payloads_of(buf.skip(consumed)),
        _ => Seq::empty(),
    }
}

#[via_fn]
proof fn payloads_of_decreases(buf: Seq<u8>) {
    lemma_scan_consumed(buf, 0, None);
}

/// Wire order: a stream of frames followed by `tail` reads as the payloads
/// of those frames, each once and in the order written, followed by what
/// `tail` reads as.
pub proof fn lemma_stream_round_trip(payloads: Seq<Seq<u8>>, tail: Seq<u8>)
    requires
        forall|i: int| 0 <= i < payloads.len() ==> (#[trigger] payloads[i]).len() <= usize::MAX,
    ensures
        payloads_of(stream(payloads) + tail) == payloads + payloads_of(tail),
    decreases payloads.len(),
{
    if payloads.len() == 0 {
        assert(stream(payloads) + tail =~= tail);
        assert(payloads + payloads_of(tail) =~= payloads_of(tail));
    } else {
        let first = payloads.first();
        let others = payloads.drop_first();
        let rest = stream(others) + tail;
        let buf = stream(payloads) + tail;
        assert(buf =~= frame(first) + rest);
        lemma_frame_round_trip(first, rest);
        assert(buf.skip(frame(first).len() as int) =~= rest);
        assert forall|i: int| 0 <= i < others.len() implies (#[trigger] others[i]).len()
            <= usize::MAX by {
            assert(others[i] == payloads[i + 1]);
        }
        lemma_stream_round_trip(others, tail);
        assert(seq![first] + (others + payloads_of(tail)) =~= payloads + payloads_of(tail));
    }
}

/// Buffers the bytes that arrive and hands out whole frames.
pub struct FrameDecoder {
    buffer: Vec<u8>,
}

impl View for FrameDecoder {
    type V = Seq<u8>;

    /// The bytes that have arrived and belong to no frame handed out so far.
    closed spec fn view(&self) -> Seq<u8> {
        self.buffer@
    }
}

impl FrameDecoder {
    pub fn new() -> (decoder: Self)
        ensures
            decoder@ == Seq::<u8>::empty(),
    {
        FrameDecoder { buffer: Vec::new() }
    }

    /// Takes in the bytes of one read, however many they are.
    pub fn feed(&mut self, bytes: &[u8])
        ensures
            final(self)@ == old(self)@ + bytes@,
    {
        push_all(&mut self.buffer, bytes);
    }

    /// Number of bytes that wait in the buffer.
    pub fn buffered(&self) -> (n: usize)
        ensures
            n == self@.len(),
    {
        self.buffer.len()
    }

    /// Hands out the next whole frame's payload and drops the frame from the
    /// buffer.  `None` asks for more bytes.  A malformed header block is
    /// reported, now and on every later call.
    pub fn next_frame(&mut self) -> (r: Option<Result<Vec<u8>, FrameError>>)
        ensures
            match parse_frame(old(self)@) {
                Parsed::Incomplete => r is None && final(self)@ == old(self)@,
                Parsed::Malformed(e) => r == Some(Err::<Vec<u8>, FrameError>(e)) && final(self)@
                    == old(self)@,
                Parsed::Frame { payload, consumed } => r matches Some(Ok(p)) && p@ == payload
                    && final(self)@ == old(self)@.skip(consumed),
            },
    {
        match decode_frame(self.buffer.as_slice()) {
            Decoded::Incomplete => None,
            Decoded::Malformed(e) => Some(Err(e)),
            Decoded::Frame { payload, consumed } => {
                proof {
                    lemma_scan_consumed(self.buffer@, 0, None);
                }
                let rest: Vec<u8> = self.buffer.split_off(consumed);
                self.buffer = rest;
                Some(Ok(payload))
            },
        }
    }
}

} // verus!
