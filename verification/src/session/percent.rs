//! Percent-decoding of path segments.

use vstd::prelude::*;
use vstd::string::*;
use vstd::utf8::*;

use crate::text;

verus! {

/// The value of a hexadecimal digit.
pub open spec fn hex_value(b: u8) -> Option<nat> {
    if 48 <= b <= 57 {
        Some((b - 48) as nat)
    } else if 97 <= b <= 102 {
        Some((b - 87) as nat)
    } else if 65 <= b <= 70 {
        Some((b - 55) as nat)
    } else {
        None
    }
}

/// The byte that the two characters of an escape stand for: two hexadecimal digits.
pub open spec fn escape_value(a: u8, b: u8) -> Option<u8> {
    match (hex_value(a), hex_value(b)) {
        (Some(x), Some(y)) => Some((16 * x + y) as u8),
        _ => None,
    }
}

/// The bytes that `s` stands for from position `i` on, with each `%XX` escape replaced
/// by its byte, or the words for the first escape that is malformed.
pub open spec fn unescaped(s: Seq<u8>, i: nat) -> Result<Seq<u8>, Seq<char>>
    decreases s.len() - i,
{
    if i >= s.len() {
        Ok(Seq::empty())
    } else if s[i as int] == 37 {
        if i + 2 >= s.len() {
            Err("truncated percent-escape at position "@ + text::decimal_text(i))
        } else {
            let a = s[(i + 1) as int];
            let b = s[(i + 2) as int];
            let pair = seq![a, b];
            if !valid_utf8(pair) {
                Err("non-UTF8 percent-escape at position "@ + text::decimal_text(i))
            } else {
                match escape_value(a, b) {
                    None => Err(
                        "invalid hex '"@ + decode_utf8(pair) + "' at position "@
                            + text::decimal_text(i),
                    ),
                    Some(byte) => match unescaped(s, i + 3) {
                        Ok(rest) => Ok(seq![byte] + rest),
                        Err(words) => Err(words),
                    },
                }
            }
        }
    } else {
        match unescaped(s, i + 1) {
            Ok(rest) => Ok(seq![s[i as int]] + rest),
            Err(words) => Err(words),
        }
    }
}

/// The text that `s` stands for, with each `%XX` escape replaced by its byte, or the
/// words for what is wrong with it.
pub open spec fn percent_decoded(s: Seq<char>) -> Result<Seq<char>, Seq<char>> {
    match unescaped(encode_utf8(s), 0) {
        Err(words) => Err(words),
        Ok(bytes) => if valid_utf8(bytes) {
            Ok(decode_utf8(bytes))
        } else {
            Err("decoded host is not valid UTF-8"@)
        },
    }
}

/// The value of a hexadecimal digit.
fn hex_digit(b: u8) -> (r: Option<u8>)
    ensures
        match hex_value(b) {
            Some(v) => r == Some(v as u8),
            None => r is None,
        },
{
    if 48 <= b && b <= 57 {
        Some(b - 48)
    } else if 97 <= b && b <= 102 {
        Some(b - 87)
    } else if 65 <= b && b <= 70 {
        Some(b - 55)
    } else {
        None
    }
}

/// The byte that the two characters of an escape stand for.
fn escape(a: u8, b: u8) -> (r: Option<u8>)
    ensures
        r == escape_value(a, b),
{
    match (hex_digit(a), hex_digit(b)) {
        (Some(x), Some(y)) => Some(16 * x + y),
        _ => None,
    }
}

/// Replaces each `%XX` escape of a path segment by the byte that it stands for; all else
/// stays as it is.
pub fn percent_decode(s: &str) -> (r: Result<String, String>)
    ensures
        match percent_decoded(s@) {
            Ok(t) => r is Ok && r->Ok_0@ == t,
            Err(words) => r is Err && r->Err_0@ == words,
        },
{
    let bytes: &[u8] = s.as_bytes();
    let ghost whole = unescaped(bytes@, 0);
    let mut out: Vec<u8> = Vec::new();
    let mut i: usize = 0;
    assert(whole is Ok ==> whole->Ok_0 =~= out@ + whole->Ok_0);
    while i < bytes.len()
        invariant
            bytes@ == encode_utf8(s@),
            whole == unescaped(bytes@, 0),
            match unescaped(bytes@, i as nat) {
                Ok(rest) => whole == Ok::<Seq<u8>, Seq<char>>(out@ + rest),
                Err(words) => whole == Err::<Seq<u8>, Seq<char>>(words),
            },
        decreases bytes@.len() - i,
    {
        let ghost before = out@;
        if bytes[i] == 37 {
            if bytes.len() - i <= 2 {
                return Err(
                    text::concat2(
                        "truncated percent-escape at position ",
                        text::decimal(i as u64).as_str(),
                    ),
                );
            }
            let a: u8 = bytes[i + 1];
            let b: u8 = bytes[i + 2];
            let ghost pair = seq![a, b];
            let mut two: Vec<u8> = Vec::new();
            two.push(a);
            two.push(b);
            assert(two@ =~= pair);
            match text::string_from_utf8(two) {
                None => {
                    return Err(
                        text::concat2(
                            "non-UTF8 percent-escape at position ",
                            text::decimal(i as u64).as_str(),
                        ),
                    );
                },
                Some(hex) => match escape(a, b) {
                    None => {
                        let mut words: String = text::concat3(
                            "invalid hex '",
                            hex.as_str(),
                            "' at position ",
                        );
                        words.append(text::decimal(i as u64).as_str());
                        return Err(words);
                    },
                    Some(byte) => {
                        out.push(byte);
                        proof {
                            if let Ok(rest) = unescaped(bytes@, (i + 3) as nat) {
                                assert(before + (seq![byte] + rest) =~= out@ + rest);
                            }
                        }
                        i = i + 3;
                    },
                },
            }
        } else {
            out.push(bytes[i]);
            proof {
                if let Ok(rest) = unescaped(bytes@, (i + 1) as nat) {
                    assert(before + (seq![bytes@[i as int]] + rest) =~= out@ + rest);
                }
            }
            i = i + 1;
        }
    }
    assert(out@ + Seq::<u8>::empty() =~= out@);
    match text::string_from_utf8(out) {
        Some(t) => Ok(t),
        None => Err("decoded host is not valid UTF-8".to_owned()),
    }
}

/// A hexadecimal digit as a character, in lower or upper case.
pub open spec fn hex_char(d: nat, lower: bool) -> char
    recommends
        d < 16,
{
    if d < 10 {
        (48 + d) as char
    } else if lower {
        (87 + d) as char
    } else {
        (55 + d) as char
    }
}

/// A percent-encoding of bytes. A byte stays as it is when `keep` says so, unless it is
/// a percent sign or not ASCII; each other byte becomes an escape, and `lower` says which of
/// its two digits are in lower case. Both are asked with the number of bytes to go.
pub open spec fn percent_encoded(
    bytes: Seq<u8>,
    keep: spec_fn(nat) -> bool,
    lower: spec_fn(nat) -> (bool, bool),
) -> Seq<char>
    decreases bytes.len(),
{
    if bytes.len() == 0 {
        Seq::empty()
    } else {
        let b = bytes[0];
        let rest = percent_encoded(bytes.skip(1), keep, lower);
        if b < 128 && b != 37 && keep(bytes.len()) {
            seq![b as char] + rest
        } else {
            let (first, second) = lower(bytes.len());
            seq!['%', hex_char(b as nat / 16, first), hex_char(b as nat % 16, second)] + rest
        }
    }
}

proof fn lemma_percent_encoded_ascii(
    bytes: Seq<u8>,
    keep: spec_fn(nat) -> bool,
    lower: spec_fn(nat) -> (bool, bool),
)
    ensures
        is_ascii_chars(percent_encoded(bytes, keep, lower)),
    decreases bytes.len(),
{
    if bytes.len() > 0 {
        lemma_percent_encoded_ascii(bytes.skip(1), keep, lower);
    }
}

proof fn lemma_ascii_pair(a: u8, b: u8)
    requires
        a < 128,
        b < 128,
    ensures
        valid_utf8(seq![a, b]),
{
    let chars = seq![a as char, b as char];
    is_ascii_chars_encode_utf8(chars);
    assert(encode_utf8(chars) =~= seq![a, b]);
    encode_utf8_valid_utf8(chars);
}

proof fn lemma_unescaped_encoded(
    s: Seq<u8>,
    i: nat,
    bytes: Seq<u8>,
    keep: spec_fn(nat) -> bool,
    lower: spec_fn(nat) -> (bool, bool),
)
    requires
        s.len() == i + percent_encoded(bytes, keep, lower).len(),
        forall|j: int|
            0 <= j < percent_encoded(bytes, keep, lower).len() ==> #[trigger] s[i as int + j]
                == percent_encoded(bytes, keep, lower)[j] as u8,
    ensures
        unescaped(s, i) == Ok::<Seq<u8>, Seq<char>>(bytes),
    decreases bytes.len(),
{
    let e = percent_encoded(bytes, keep, lower);
    if bytes.len() == 0 {
        assert(bytes =~= Seq::empty());
    } else {
        let b = bytes[0];
        let rest = bytes.skip(1);
        let tail = percent_encoded(rest, keep, lower);
        assert(s[i as int + 0] == e[0] as u8);
        if b < 128 && b != 37 && keep(bytes.len()) {
            assert forall|j: int| 0 <= j < tail.len() implies #[trigger] s[i as int + 1 + j]
                == tail[j] as u8 by {
                assert(s[i as int + (1 + j)] == e[1 + j] as u8);
            }
            lemma_unescaped_encoded(s, i + 1, rest, keep, lower);
            assert(seq![b] + rest =~= bytes);
        } else {
            assert(s[i as int + 1] == e[1] as u8);
            assert(s[i as int + 2] == e[2] as u8);
            lemma_ascii_pair(s[i as int + 1], s[i as int + 2]);
            assert forall|j: int| 0 <= j < tail.len() implies #[trigger] s[i as int + 3 + j]
                == tail[j] as u8 by {
                assert(s[i as int + (3 + j)] == e[3 + j] as u8);
            }
            lemma_unescaped_encoded(s, i + 3, rest, keep, lower);
            assert(seq![b] + rest =~= bytes);
        }
    }
}

proof fn lemma_unescaped_of_encoded(
    bytes: Seq<u8>,
    keep: spec_fn(nat) -> bool,
    lower: spec_fn(nat) -> (bool, bool),
)
    ensures
        unescaped(encode_utf8(percent_encoded(bytes, keep, lower)), 0) == Ok::<
            Seq<u8>,
            Seq<char>,
        >(bytes),
{
    let e = percent_encoded(bytes, keep, lower);
    lemma_percent_encoded_ascii(bytes, keep, lower);
    is_ascii_chars_encode_utf8(e);
    assert forall|j: int| 0 <= j < e.len() implies #[trigger] encode_utf8(e)[0 + j]
        == e[j] as u8 by {}
    lemma_unescaped_encoded(encode_utf8(e), 0, bytes, keep, lower);
}

/// Percent-decoding undoes percent-encoding, whichever characters the encoding keeps and
/// whichever case each digit of an escape is written in.
pub proof fn law_percent_round_trip(
    t: Seq<char>,
    keep: spec_fn(nat) -> bool,
    lower: spec_fn(nat) -> (bool, bool),
)
    ensures
        percent_decoded(percent_encoded(encode_utf8(t), keep, lower)) == Ok::<
            Seq<char>,
            Seq<char>,
        >(t),
{
    lemma_unescaped_of_encoded(encode_utf8(t), keep, lower);
    encode_utf8_valid_utf8(t);
    encode_utf8_decode_utf8(t);
}

/// Escapes that stand for bytes that are no text are refused, whatever the bytes.
pub proof fn law_percent_not_text(
    bytes: Seq<u8>,
    keep: spec_fn(nat) -> bool,
    lower: spec_fn(nat) -> (bool, bool),
)
    requires
        !valid_utf8(bytes),
    ensures
        percent_decoded(percent_encoded(bytes, keep, lower)) == Err::<Seq<char>, Seq<char>>(
            "decoded host is not valid UTF-8"@,
        ),
{
    lemma_unescaped_of_encoded(bytes, keep, lower);
}

/// The digits of an escape: 0 to 9, and a to f in either case, worth ten to fifteen. The first
/// counts sixteenfold.
pub proof fn law_escape_digits(x: nat, y: nat, first_lower: bool, second_lower: bool)
    requires
        x < 16,
        y < 16,
    ensures
        ({
            let a = if x < 10 {
                48 + x
            } else if first_lower {
                87 + x
            } else {
                55 + x
            };
            let b = if y < 10 {
                48 + y
            } else if second_lower {
                87 + y
            } else {
                55 + y
            };
            escape_value(a as u8, b as u8) == Some((16 * x + y) as u8)
        }),
{
}

/// Whether a byte is a character 0 to 9, A to F or a to f.
pub open spec fn is_hex(b: u8) -> bool {
    48 <= b <= 57 || 65 <= b <= 70 || 97 <= b <= 102
}

/// An escape stands for a byte just when both its characters are hexadecimal digits.
pub proof fn law_escape_only_digits(a: u8, b: u8)
    ensures
        escape_value(a, b) is Some <==> (48 <= a <= 57 || 65 <= a <= 70 || 97 <= a <= 102) && (48
            <= b <= 57 || 65 <= b <= 70 || 97 <= b <= 102),
{
}

proof fn lemma_encode_concat(p: Seq<char>, q: Seq<char>)
    ensures
        encode_utf8(p + q) == encode_utf8(p) + encode_utf8(q),
    decreases p.len(),
{
    if p.len() == 0 {
        assert(p + q =~= q);
        assert(encode_utf8(p) + encode_utf8(q) =~= encode_utf8(q));
    } else {
        assert((p + q).drop_first() =~= p.drop_first() + q);
        lemma_encode_concat(p.drop_first(), q);
        assert(encode_utf8(p + q) =~= encode_utf8(p) + encode_utf8(q));
    }
}

proof fn lemma_unescaped_prefix(a: Seq<u8>, b: Seq<u8>, i: nat)
    requires
        i <= a.len(),
        unescaped(a, i) is Ok,
    ensures
        unescaped(a + b, i) == (match unescaped(a + b, a.len()) {
            Ok(rest) => Ok::<Seq<u8>, Seq<char>>(unescaped(a, i)->Ok_0 + rest),
            Err(words) => Err(words),
        }),
    decreases a.len() - i,
{
    let s = a + b;
    if i == a.len() {
        if let Ok(rest) = unescaped(s, i) {
            assert(unescaped(a, i)->Ok_0 + rest =~= rest);
        }
    } else {
        let step: nat = if a[i as int] == 37 {
            3
        } else {
            1
        };
        assert(s[i as int] == a[i as int]);
        if step == 3 {
            assert(s[i as int + 1] == a[i as int + 1]);
            assert(s[i as int + 2] == a[i as int + 2]);
        }
        lemma_unescaped_prefix(a, b, i + step);
        let byte = if step == 3 {
            escape_value(a[i as int + 1], a[i as int + 2])->Some_0
        } else {
            a[i as int]
        };
        let tail = unescaped(a, i + step)->Ok_0;
        assert(unescaped(a, i)->Ok_0 == seq![byte] + tail);
        if let Ok(rest) = unescaped(s, a.len()) {
            assert(unescaped(s, i)->Ok_0 == seq![byte] + (tail + rest));
            assert(seq![byte] + (tail + rest) =~= (seq![byte] + tail) + rest);
        }
    }
}

proof fn lemma_unescaped_shift(a: Seq<u8>, b: Seq<u8>, i: nat)
    requires
        i <= b.len(),
        unescaped(b, i) is Ok,
    ensures
        unescaped(a + b, a.len() + i) == unescaped(b, i),
    decreases b.len() - i,
{
    if i < b.len() {
        let step: nat = if b[i as int] == 37 {
            3
        } else {
            1
        };
        assert((a + b)[(a.len() + i) as int] == b[i as int]);
        if step == 3 {
            assert((a + b)[(a.len() + i + 1) as int] == b[i as int + 1]);
            assert((a + b)[(a.len() + i + 2) as int] == b[i as int + 2]);
        }
        lemma_unescaped_shift(a, b, i + step);
    }
}

/// Decoding goes piece by piece: what two pieces that can be decoded stand for is, one after
/// the other, what the text made of both stands for.
pub proof fn law_percent_pieces(p: Seq<char>, q: Seq<char>)
    requires
        percent_decoded(p) is Ok,
        percent_decoded(q) is Ok,
    ensures
        percent_decoded(p + q) == Ok::<Seq<char>, Seq<char>>(
            percent_decoded(p)->Ok_0 + percent_decoded(q)->Ok_0,
        ),
{
    let a = encode_utf8(p);
    let b = encode_utf8(q);
    let x = unescaped(a, 0)->Ok_0;
    let y = unescaped(b, 0)->Ok_0;
    lemma_encode_concat(p, q);
    lemma_unescaped_prefix(a, b, 0);
    lemma_unescaped_shift(a, b, 0);
    decode_utf8_encode_utf8(x);
    decode_utf8_encode_utf8(y);
    lemma_encode_concat(decode_utf8(x), decode_utf8(y));
    encode_utf8_valid_utf8(decode_utf8(x) + decode_utf8(y));
    encode_utf8_decode_utf8(decode_utf8(x) + decode_utf8(y));
}

proof fn lemma_after_piece(p: Seq<char>, q: Seq<char>)
    requires
        percent_decoded(p) is Ok,
    ensures
        ({
            let s = encode_utf8(p) + seq![37u8] + encode_utf8(q);
            &&& encode_utf8(p + seq!['%'] + q) == s
            &&& unescaped(s, encode_utf8(p).len()) matches Err(words) ==> percent_decoded(
                p + seq!['%'] + q,
            ) == Err::<Seq<char>, Seq<char>>(words)
        }),
{
    let a = encode_utf8(p);
    lemma_encode_concat(p, seq!['%']);
    lemma_encode_concat(p + seq!['%'], q);
    is_ascii_chars_encode_utf8(seq!['%']);
    assert(encode_utf8(seq!['%']) =~= seq![37u8]);
    let b = seq![37u8] + encode_utf8(q);
    assert(a + seq![37u8] + encode_utf8(q) =~= a + b);
    lemma_unescaped_prefix(a, b, 0);
}

/// A percent sign with fewer than two bytes behind it is refused, with its position in bytes.
pub proof fn law_percent_truncated(p: Seq<char>, q: Seq<char>)
    requires
        percent_decoded(p) is Ok,
        encode_utf8(q).len() < 2,
    ensures
        percent_decoded(p + seq!['%'] + q) == Err::<Seq<char>, Seq<char>>(
            "truncated percent-escape at position "@ + text::decimal_text(encode_utf8(p).len()),
        ),
{
    lemma_after_piece(p, q);
}

/// A percent sign with two bytes of text behind it that are not two hexadecimal digits is
/// refused, with that text and its position in bytes, whatever follows.
pub proof fn law_percent_not_hex(p: Seq<char>, w: Seq<char>, q: Seq<char>)
    requires
        percent_decoded(p) is Ok,
        encode_utf8(w).len() == 2,
        !is_hex(encode_utf8(w)[0]) || !is_hex(encode_utf8(w)[1]),
    ensures
        percent_decoded(p + seq!['%'] + (w + q)) == Err::<Seq<char>, Seq<char>>(
            "invalid hex '"@ + w + "' at position "@ + text::decimal_text(encode_utf8(p).len()),
        ),
{
    let s = encode_utf8(p) + seq![37u8] + encode_utf8(w + q);
    let i = encode_utf8(p).len();
    lemma_after_piece(p, w + q);
    lemma_encode_concat(w, q);
    assert(seq![s[i as int + 1], s[i as int + 2]] =~= encode_utf8(w));
    encode_utf8_valid_utf8(w);
    encode_utf8_decode_utf8(w);
}

/// A percent sign with two bytes behind it that are no text is refused, with its position in
/// bytes.
pub proof fn law_percent_cut_character(p: Seq<char>, q: Seq<char>)
    requires
        percent_decoded(p) is Ok,
        encode_utf8(q).len() >= 2,
        !valid_utf8(encode_utf8(q).take(2)),
    ensures
        percent_decoded(p + seq!['%'] + q) == Err::<Seq<char>, Seq<char>>(
            "non-UTF8 percent-escape at position "@ + text::decimal_text(encode_utf8(p).len()),
        ),
{
    let s = encode_utf8(p) + seq![37u8] + encode_utf8(q);
    let i = encode_utf8(p).len();
    lemma_after_piece(p, q);
    assert(seq![s[i as int + 1], s[i as int + 2]] =~= encode_utf8(q).take(2));
}

proof fn lemma_scalar_bytes(v: u32)
    requires
        v >= 128,
    ensures
        forall|i: int| 0 <= i < encode_scalar(v).len() ==> #[trigger] encode_scalar(v)[i] >= 128,
{
    assert(leading_byte_width_2(v) >= 128) by (bit_vector);
    assert(leading_byte_width_3(v) >= 128) by (bit_vector);
    assert(leading_byte_width_4(v) >= 128) by (bit_vector);
    assert(last_continuation_byte(v) >= 128) by (bit_vector);
    assert(second_last_continuation_byte(v) >= 128) by (bit_vector);
    assert(third_last_continuation_byte(v) >= 128) by (bit_vector);
}

proof fn lemma_no_percent_bytes(s: Seq<char>)
    requires
        forall|i: int| 0 <= i < s.len() ==> #[trigger] s[i] != '%',
    ensures
        forall|i: int| 0 <= i < encode_utf8(s).len() ==> #[trigger] encode_utf8(s)[i] != 37,
    decreases s.len(),
{
    if s.len() > 0 {
        let c: char = s[0];
        char_is_scalar(c);
        char_u32_cast(c, c as u32);
        let v = c as u32;
        assert(v != 37);
        let head = encode_scalar(v);
        let rest = s.drop_first();
        lemma_no_percent_bytes(rest);
        if v < 128 {
            assert(v & 0x7F == v) by (bit_vector)
                requires
                    v < 128,
            ;
            assert(s[0] != '%');
            assert(head =~= seq![v as u8]);
        } else {
            lemma_scalar_bytes(v);
        }
        assert forall|i: int| 0 <= i < encode_utf8(s).len() implies #[trigger] encode_utf8(s)[i]
            != 37 by {
            if i < head.len() {
                assert(encode_utf8(s)[i] == head[i]);
            } else {
                assert(encode_utf8(s)[i] == encode_utf8(rest)[i - head.len()]);
            }
        }
    }
}

proof fn lemma_unescaped_plain(s: Seq<u8>, i: nat)
    requires
        i <= s.len(),
        forall|j: int| 0 <= j < s.len() ==> #[trigger] s[j] != 37,
    ensures
        unescaped(s, i) == Ok::<Seq<u8>, Seq<char>>(s.skip(i as int)),
    decreases s.len() - i,
{
    if i < s.len() {
        lemma_unescaped_plain(s, i + 1);
        assert(seq![s[i as int]] + s.skip(i as int + 1) =~= s.skip(i as int));
    } else {
        assert(s.skip(i as int) =~= Seq::empty());
    }
}

/// A text without a percent sign stands for itself.
pub proof fn law_percent_plain(s: Seq<char>)
    requires
        forall|i: int| 0 <= i < s.len() ==> #[trigger] s[i] != '%',
    ensures
        percent_decoded(s) == Ok::<Seq<char>, Seq<char>>(s),
{
    lemma_no_percent_bytes(s);
    lemma_unescaped_plain(encode_utf8(s), 0);
    assert(encode_utf8(s).skip(0) =~= encode_utf8(s));
    encode_utf8_valid_utf8(s);
    encode_utf8_decode_utf8(s);
}

/// Decoding a text that is not empty never gives the empty text.
pub proof fn law_percent_not_empty(s: Seq<char>)
    requires
        s.len() > 0,
    ensures
        percent_decoded(s) matches Ok(t) ==> t.len() > 0,
{
    encode_utf8_first_scalar(s);
    assert(encode_utf8(s).len() > 0);
    assert(unescaped(encode_utf8(s), 0) matches Ok(bytes) ==> bytes.len() > 0);
}

/// The text that comes out is the one whose bytes the escapes and characters stand for, and it
/// comes out whenever those bytes are text.
pub proof fn law_percent_bytes(s: Seq<char>)
    ensures
        percent_decoded(s) matches Ok(t) ==> unescaped(encode_utf8(s), 0) == Ok::<
            Seq<u8>,
            Seq<char>,
        >(encode_utf8(t)),
        unescaped(encode_utf8(s), 0) matches Ok(bytes) ==> (percent_decoded(s) is Ok <==> valid_utf8(
            bytes,
        )),
{
    if let Ok(bytes) = unescaped(encode_utf8(s), 0) {
        if valid_utf8(bytes) {
            decode_utf8_encode_utf8(bytes);
        }
    }
}

} // verus!
