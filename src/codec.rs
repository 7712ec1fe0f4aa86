//! The netstring wire format: `<decimal length>:<payload>,`.

use vstd::prelude::*;
use vstd::string::StringSliceAdditionalSpecFns;
use vstd::utf8::*;

verus! {

/// The largest number of bytes that may precede the `:` of a frame.
pub const DIGIT_LIMIT: usize = 64;

/// Why a frame could not be decoded.
#[derive(Clone, Copy, Debug, PartialEq, Eq, Structural)]
pub enum FrameError {
    /// The stream ended before (or inside) a length prefix.
    ConnectionClosed,
    /// The bytes do not form a frame: a malformed length prefix, a missing
    /// `,` after the payload, a truncated payload or a payload that is not UTF-8.
    InvalidFrame,
    /// More bytes are needed before the frame can be decided.
    Incomplete,
    /// The stream failed to deliver bytes.
    ReadFailed,
}

/// The ASCII decimal digits of `n`, without leading zeros.
pub open spec fn digits_of(n: nat) -> Seq<u8>
    decreases n,
{
    if n < 10 {
        seq![(48 + n) as u8]
    } else {
        digits_of(n / 10).push((48 + n % 10) as u8)
    }
}

/// The frame that carries `payload`.
pub open spec fn frame_of(payload: Seq<u8>) -> Seq<u8> {
    digits_of(payload.len()) + seq![58u8] + payload + seq![44u8]
}

/// Appends the decimal digits of `n` to `out`.
fn push_decimal(out: &mut Vec<u8>, n: usize)
    ensures
        final(out)@ == old(out)@ + digits_of(n as nat),
    decreases n,
{
    if n >= 10 {
        push_decimal(out, n / 10);
    }
    out.push(48u8 + (n % 10) as u8);
    proof {
        assert(final(out)@ =~= old(out)@ + digits_of(n as nat));
    }
}

/// Appends the frame that carries `text` to `out`.
pub fn append_frame(out: &mut Vec<u8>, text: &str)
    ensures
        final(out)@ == old(out)@ + frame_of(text.spec_bytes()),
{
    let bytes = text.as_bytes();
    push_decimal(out, bytes.len());
    out.push(58u8);
    let ghost start = out@;
    let mut i: usize = 0;
    while i < bytes.len()
        invariant
            0 <= i <= bytes@.len(),
            out@ == start + bytes@.subrange(0, i as int),
        decreases bytes@.len() - i,
    {
        out.push(bytes[i]);
        proof {
            assert(bytes@.subrange(0, i + 1) =~= bytes@.subrange(0, i as int).push(bytes@[i as int]));
        }
        i = i + 1;
    }
    out.push(44u8);
    proof {
        assert(bytes@.subrange(0, bytes@.len() as int) =~= bytes@);
        assert(final(out)@ =~= old(out)@ + frame_of(text.spec_bytes()));
    }
}

/// The frame that carries `text`: its UTF-8 byte length in decimal, `:`,
/// the text itself and `,`.
pub fn encode(text: &str) -> (r: Vec<u8>)
    ensures
        r@ == frame_of(text.spec_bytes()),
{
    let mut out: Vec<u8> = Vec::new();
    append_frame(&mut out, text);
    proof {
        assert(out@ =~= frame_of(text.spec_bytes()));
    }
    out
}

/// Whether `b` is an ASCII decimal digit.
pub open spec fn is_digit(b: u8) -> bool {
    48 <= b <= 57
}

/// Whether every byte of `s` is an ASCII decimal digit.
pub open spec fn all_digits(s: Seq<u8>) -> bool {
    forall|i: int| 0 <= i < s.len() ==> is_digit(#[trigger] s[i])
}

/// The number that the decimal digits `s` spell.
pub open spec fn decimal_value(s: Seq<u8>) -> nat
    decreases s.len(),
{
    if s.len() == 0 {
        0
    } else {
        decimal_value(s.drop_last()) * 10 + (s.last() - 48) as nat
    }
}

/// The index of the first `:` of `b` at or after `i`, among the first
/// `DIGIT_LIMIT` bytes; `-1` when there is none.
pub open spec fn colon_from(b: Seq<u8>, i: int) -> int
    decreases b.len() - i,
{
    if i < 0 || i >= b.len() || i >= DIGIT_LIMIT {
        -1
    } else if b[i] == 58 {
        i
    } else {
        colon_from(b, i + 1)
    }
}

/// What decoding one frame from the start of `b` gives: the payload's text
/// and the number of bytes the frame takes, or why there is no frame.
/// `ended` tells whether `b` is all that the stream will ever hold.
pub open spec fn decode_spec(b: Seq<u8>, ended: bool) -> Result<(Seq<char>, nat), FrameError> {
    let k = colon_from(b, 0);
    if k < 0 {
        if b.len() >= DIGIT_LIMIT {
            Err(FrameError::InvalidFrame)
        } else if ended {
            Err(FrameError::ConnectionClosed)
        } else {
            Err(FrameError::Incomplete)
        }
    } else {
        let digits = b.subrange(0, k);
        if k == 0 || !all_digits(digits) || decimal_value(digits) > u64::MAX {
            Err(FrameError::InvalidFrame)
        } else {
            let end = k + 1 + decimal_value(digits);
            if end < b.len() {
                let payload = b.subrange(k + 1, end);
                if b[end] != 44 || !valid_utf8(payload) {
                    Err(FrameError::InvalidFrame)
                } else {
                    Ok((decode_utf8(payload), (end + 1) as nat))
                }
            } else if ended {
                Err(FrameError::InvalidFrame)
            } else {
                Err(FrameError::Incomplete)
            }
        }
    }
}

/// Whether a decoding result agrees with `decode_spec(b, ended)`.
pub open spec fn decodes_as(r: Result<(String, usize), FrameError>, b: Seq<u8>, ended: bool) -> bool {
    match r {
        Ok((s, used)) => decode_spec(b, ended) == Ok::<(Seq<char>, nat), FrameError>((s@, used as nat)),
        Err(e) => decode_spec(b, ended) == Err::<(Seq<char>, nat), FrameError>(e),
    }
}

/// Relies on `String::from_utf8`: it succeeds exactly when the bytes are
/// valid UTF-8, and the string then holds those bytes.
#[verifier::external_body]
fn text_from_utf8(bytes: Vec<u8>) -> (r: Option<String>)
    ensures
        r is Some <==> valid_utf8(bytes@),
        r matches Some(s) ==> encode_utf8(s@) == bytes@,
{
    String::from_utf8(bytes).ok()
}

/// A prefix of a digit string never spells a larger number.
proof fn lemma_prefix_value_le(s: Seq<u8>, j: int)
    requires
        all_digits(s),
        0 <= j <= s.len(),
    ensures
        decimal_value(s.subrange(0, j)) <= decimal_value(s),
    decreases s.len(),
{
    if j < s.len() {
        let t = s.drop_last();
        assert(all_digits(t)) by {
            assert forall|i: int| 0 <= i < t.len() implies is_digit(#[trigger] t[i]) by {
                assert(t[i] == s[i]);
            }
        }
        lemma_prefix_value_le(t, j);
        assert(t.subrange(0, j) =~= s.subrange(0, j));
    } else {
        assert(s.subrange(0, j) =~= s);
    }
}

/// Decodes one frame from the start of `buf`.
///
/// On success gives the payload's text and the number of bytes the frame
/// took. `ended` tells whether `buf` is all that the stream will ever hold:
/// a stream that ends before a `:` is `ConnectionClosed`, one that ends
/// later is `InvalidFrame`, and without the end more bytes are `Incomplete`.
pub fn decode(buf: &[u8], ended: bool) -> (r: Result<(String, usize), FrameError>)
    ensures
        decodes_as(r, buf@, ended),
{
    let len = buf.len();
    let limit = if len < DIGIT_LIMIT {
        len
    } else {
        DIGIT_LIMIT
    };
    let mut k: usize = 0;
    while k < limit && buf[k] != 58u8
        invariant
            0 <= k <= limit,
            limit <= len == buf@.len(),
            limit == len || limit == DIGIT_LIMIT,
            limit < DIGIT_LIMIT ==> limit == len,
            colon_from(buf@, 0) == colon_from(buf@, k as int),
        decreases limit - k,
    {
        k = k + 1;
    }
    if k == limit {
        return if len >= DIGIT_LIMIT {
            Err(FrameError::InvalidFrame)
        } else if ended {
            Err(FrameError::ConnectionClosed)
        } else {
            Err(FrameError::Incomplete)
        };
    }
    let ghost digits = buf@.subrange(0, k as int);
    if k == 0 {
        return Err(FrameError::InvalidFrame);
    }
    let mut value: u64 = 0;
    let mut j: usize = 0;
    while j < k
        invariant
            0 <= j <= k,
            0 < k < len == buf@.len(),
            colon_from(buf@, 0) == k as int,
            digits == buf@.subrange(0, k as int),
            all_digits(buf@.subrange(0, j as int)),
            value as nat == decimal_value(buf@.subrange(0, j as int)),
        decreases k - j,
    {
        let d = buf[j];
        if d < 48u8 || d > 57u8 {
            proof {
                assert(digits[j as int] == d);
            }
            return Err(FrameError::InvalidFrame);
        }
        let ghost next = buf@.subrange(0, j + 1);
        proof {
            assert(next.drop_last() =~= buf@.subrange(0, j as int));
            assert(all_digits(next)) by {
                assert forall|i: int| 0 <= i < next.len() implies is_digit(#[trigger] next[i]) by {
                    if i < j {
                        assert(next[i] == buf@.subrange(0, j as int)[i]);
                    }
                }
            }
        }
        let step = match value.checked_mul(10) {
            Some(t) => t.checked_add((d - 48u8) as u64),
            None => None,
        };
        match step {
            Some(v) => {
                value = v;
            },
            None => {
                proof {
                    assert(all_digits(digits) ==> decimal_value(digits) > u64::MAX) by {
                        if all_digits(digits) {
                            lemma_prefix_value_le(digits, j + 1);
                            assert(digits.subrange(0, j + 1) =~= next);
                        }
                    }
                }
                return Err(FrameError::InvalidFrame);
            },
        }
        j = j + 1;
    }
    proof {
        assert(buf@.subrange(0, j as int) =~= digits);
    }
    let start = k + 1;
    if value >= (len - start) as u64 {
        return if ended {
            Err(FrameError::InvalidFrame)
        } else {
            Err(FrameError::Incomplete)
        };
    }
    let end = start + value as usize;
    if buf[end] != 44u8 {
        return Err(FrameError::InvalidFrame);
    }
    let mut payload: Vec<u8> = Vec::new();
    let mut i: usize = start;
    while i < end
        invariant
            start <= i <= end,
            end < len == buf@.len(),
            payload@ == buf@.subrange(start as int, i as int),
        decreases end - i,
    {
        payload.push(buf[i]);
        proof {
            assert(buf@.subrange(start as int, i + 1) =~= buf@.subrange(start as int, i as int).push(
                buf@[i as int],
            ));
        }
        i = i + 1;
    }
    let ghost bytes = payload@;
    match text_from_utf8(payload) {
        Some(s) => {
            proof {
                encode_utf8_decode_utf8(s@);
            }
            Ok((s, end + 1))
        },
        None => Err(FrameError::InvalidFrame),
    }
}

/// Ten to the power `k`.
pub open spec fn pow10(k: nat) -> nat
    decreases k,
{
    if k == 0 {
        1
    } else {
        10 * pow10((k - 1) as nat)
    }
}

/// The digits of `n` are decimal digits that spell `n`.
proof fn lemma_digits_spell(n: nat)
    ensures
        digits_of(n).len() >= 1,
        all_digits(digits_of(n)),
        decimal_value(digits_of(n)) == n,
    decreases n,
{
    let d = digits_of(n);
    if n >= 10 {
        lemma_digits_spell(n / 10);
        assert(d.drop_last() =~= digits_of(n / 10));
        assert(d.last() == (48 + n % 10) as u8);
        assert(n == (n / 10) * 10 + n % 10) by (nonlinear_arith);
        assert forall|i: int| 0 <= i < d.len() implies is_digit(#[trigger] d[i]) by {
            if i < d.len() - 1 {
                assert(d[i] == digits_of(n / 10)[i]);
            }
        }
    } else {
        assert(d.drop_last() =~= Seq::<u8>::empty());
        assert(decimal_value(d.drop_last()) == 0);
    }
}

/// A number below `10^k` has at most `k` digits.
proof fn lemma_digits_len(n: nat, k: nat)
    requires
        k >= 1,
        n < pow10(k),
    ensures
        digits_of(n).len() <= k,
    decreases n,
{
    if n >= 10 {
        assert(k >= 2) by {
            if k == 1 {
                assert(pow10(1) == 10 * pow10(0));
            }
        }
        let k1 = (k - 1) as nat;
        assert(pow10(k) == 10 * pow10(k1));
        assert(n / 10 < pow10(k1)) by (nonlinear_arith)
            requires
                n < 10 * pow10(k1),
        ;
        lemma_digits_len(n / 10, k1);
    }
}

/// Every `u64` has at most twenty decimal digits.
proof fn lemma_u64_digits(n: nat)
    requires
        n <= u64::MAX,
    ensures
        digits_of(n).len() <= 20,
{
    reveal_with_fuel(pow10, 21);
    lemma_digits_len(n, 20);
}

/// The first `:` at or after `i` is at `k` when the bytes in between are no `:`.
proof fn lemma_colon_at(b: Seq<u8>, i: int, k: int)
    requires
        0 <= i <= k < b.len(),
        k < DIGIT_LIMIT,
        b[k] == 58,
        forall|j: int| i <= j < k ==> b[j] != 58,
    ensures
        colon_from(b, i) == k,
    decreases k - i,
{
    if i < k {
        lemma_colon_at(b, i + 1, k);
    }
}

/// A frame, whatever follows it, decodes to its payload and takes its own length.
pub proof fn lemma_decode_frame(p: Seq<u8>, rest: Seq<u8>, ended: bool)
    requires
        valid_utf8(p),
        p.len() <= u64::MAX,
    ensures
        decode_spec(frame_of(p) + rest, ended) == Ok::<(Seq<char>, nat), FrameError>(
            (decode_utf8(p), frame_of(p).len()),
        ),
{
    let d = digits_of(p.len());
    let b = frame_of(p) + rest;
    lemma_digits_spell(p.len());
    lemma_u64_digits(p.len());
    let k = d.len() as int;
    assert forall|j: int| 0 <= j < k implies b[j] != 58 by {
        assert(b[j] == d[j]);
        assert(is_digit(d[j]));
    }
    lemma_colon_at(b, 0, k);
    assert(b.subrange(0, k) =~= d);
    assert(b.subrange(k + 1, k + 1 + p.len()) =~= p);
    assert(b[k + 1 + p.len()] == 44);
}

/// Decoding an encoded text gives the text back, and the frame is used up
/// exactly.
pub proof fn lemma_round_trip(t: &str, ended: bool)
    requires
        t.spec_bytes().len() <= u64::MAX,
    ensures
        decode_spec(frame_of(t.spec_bytes()), ended) == Ok::<(Seq<char>, nat), FrameError>(
            (t@, frame_of(t.spec_bytes()).len()),
        ),
{
    let p = t.spec_bytes();
    encode_utf8_valid_utf8(t@);
    encode_utf8_decode_utf8(t@);
    lemma_decode_frame(p, Seq::empty(), ended);
    assert(frame_of(p) + Seq::<u8>::empty() =~= frame_of(p));
}

/// A frame starts with the decimal digits of the payload's byte length,
/// then `:`, then the payload, and ends with `,`.
pub proof fn lemma_frame_shape(payload: Seq<u8>)
    ensures
        ({
            let f = frame_of(payload);
            let d = digits_of(payload.len());
            &&& all_digits(d)
            &&& d.len() >= 1
            &&& decimal_value(d) == payload.len()
            &&& f.subrange(0, d.len() as int) == d
            &&& f[d.len() as int] == 58
            &&& f.subrange(d.len() as int + 1, f.len() - 1) == payload
            &&& f.last() == 44
            &&& f.len() == d.len() + payload.len() + 2
        }),
{
    let f = frame_of(payload);
    let d = digits_of(payload.len());
    lemma_digits_spell(payload.len());
    assert(f.subrange(0, d.len() as int) =~= d);
    assert(f.subrange(d.len() as int + 1, f.len() - 1) =~= payload);
}

/// Two frames in a row decode one after the other: the first decode gives
/// the first text and takes exactly its frame, and decoding what is left
/// gives the second text.
pub proof fn lemma_frames_in_sequence(first: &str, second: &str, ended: bool)
    requires
        first.spec_bytes().len() <= u64::MAX,
        second.spec_bytes().len() <= u64::MAX,
    ensures
        ({
            let a = frame_of(first.spec_bytes());
            let b = frame_of(second.spec_bytes());
            &&& decode_spec(a + b, ended) == Ok::<(Seq<char>, nat), FrameError>((first@, a.len()))
            &&& (a + b).subrange(a.len() as int, (a + b).len() as int) == b
            &&& decode_spec(b, ended) == Ok::<(Seq<char>, nat), FrameError>((second@, b.len()))
        }),
{
    let a = frame_of(first.spec_bytes());
    let b = frame_of(second.spec_bytes());
    encode_utf8_valid_utf8(first@);
    encode_utf8_decode_utf8(first@);
    lemma_decode_frame(first.spec_bytes(), b, ended);
    assert((a + b).subrange(a.len() as int, (a + b).len() as int) =~= b);
    lemma_round_trip(second, ended);
}

/// A `:` found is within the bytes and the limit.
proof fn lemma_colon_bounds(p: Seq<u8>, i: int)
    requires
        0 <= i,
        colon_from(p, i) >= 0,
    ensures
        i <= colon_from(p, i) < p.len(),
        colon_from(p, i) < DIGIT_LIMIT,
        p[colon_from(p, i)] == 58,
    decreases p.len() - i,
{
    if i < p.len() && i < DIGIT_LIMIT && p[i] != 58 {
        lemma_colon_bounds(p, i + 1);
    }
}

/// More bytes after the first `:` (or after `DIGIT_LIMIT` bytes without
/// one) do not move it.
proof fn lemma_colon_stable(p: Seq<u8>, q: Seq<u8>, i: int)
    requires
        0 <= i,
        colon_from(p, i) >= 0 || p.len() >= DIGIT_LIMIT,
    ensures
        colon_from(p + q, i) == colon_from(p, i),
    decreases p.len() - i,
{
    if i < p.len() && i < DIGIT_LIMIT {
        assert((p + q)[i] == p[i]);
        if p[i] != 58 {
            lemma_colon_stable(p, q, i + 1);
        }
    }
}

/// Once the bytes received decide a frame, more bytes do not change the
/// outcome: decoding gives the same as soon as it gives anything but
/// `Incomplete`, however the stream's bytes arrive.
pub proof fn lemma_decided_by_prefix(p: Seq<u8>, q: Seq<u8>, ended: bool)
    requires
        decode_spec(p, false) != Err::<(Seq<char>, nat), FrameError>(FrameError::Incomplete),
    ensures
        decode_spec(p + q, ended) == decode_spec(p, false),
{
    let b = p + q;
    let k = colon_from(p, 0);
    lemma_colon_stable(p, q, 0);
    if k >= 0 {
        lemma_colon_bounds(p, 0);
        assert(b.subrange(0, k) =~= p.subrange(0, k));
        let digits = p.subrange(0, k);
        if k > 0 && all_digits(digits) && decimal_value(digits) <= u64::MAX {
            let end = k + 1 + decimal_value(digits);
            assert(end < p.len());
            assert(b.subrange(k + 1, end) =~= p.subrange(k + 1, end));
            assert(b[end] == p[end]);
        }
    }
}

/// The frames of the payloads `ps`, one after another.
pub open spec fn frames_of(ps: Seq<Seq<u8>>) -> Seq<u8>
    decreases ps.len(),
{
    if ps.len() == 0 {
        Seq::empty()
    } else {
        frame_of(ps[0]) + frames_of(ps.drop_first())
    }
}

/// Frames written one after another are read back one at a time. Once the
/// first `i` frames have been read, the stream holds the frames from the
/// `i`-th on; reading then gives the `i`-th text and takes exactly its
/// frame. When no frame is left, an ended stream reports `ConnectionClosed`.
pub proof fn lemma_frames_read_in_order(ps: Seq<Seq<u8>>, i: int, ended: bool)
    requires
        0 <= i <= ps.len(),
        forall|j: int| 0 <= j < ps.len() ==> valid_utf8(#[trigger] ps[j]) && ps[j].len() <= u64::MAX,
    ensures
        i == ps.len() ==> decode_spec(frames_of(ps.subrange(i, ps.len() as int)), true)
            == Err::<(Seq<char>, nat), FrameError>(FrameError::ConnectionClosed),
        i < ps.len() ==> {
            let held = frames_of(ps.subrange(i, ps.len() as int));
            let f = frame_of(ps[i]);
            &&& decode_spec(held, ended) == Ok::<(Seq<char>, nat), FrameError>(
                (decode_utf8(ps[i]), f.len()),
            )
            &&& held.subrange(f.len() as int, held.len() as int) == frames_of(
                ps.subrange(i + 1, ps.len() as int),
            )
        },
{
    let tail = ps.subrange(i, ps.len() as int);
    if i < ps.len() {
        assert(tail[0] == ps[i]);
        assert(tail.drop_first() =~= ps.subrange(i + 1, ps.len() as int));
        let rest = frames_of(ps.subrange(i + 1, ps.len() as int));
        assert(frames_of(tail) == frame_of(ps[i]) + rest);
        lemma_decode_frame(ps[i], rest, ended);
        let held = frames_of(tail);
        assert(held.subrange(frame_of(ps[i]).len() as int, held.len() as int) =~= rest);
    } else {
        assert(tail.len() == 0);
        assert(frames_of(tail) == Seq::<u8>::empty());
    }
}

} // verus!
