//! Text-versus-binary classification of a sampled file prefix.
//!
//! A file is text when its sample holds no NUL byte, is well-formed UTF-8,
//! and has a control-character ratio below one tenth; otherwise it is binary.

use vstd::prelude::*;

verus! {

/// How many bytes of a file's head are sampled for classification.
pub const SAMPLE_LEN: usize = 1024;

/// Numerator of the control-character ratio threshold.
pub const CONTROL_LIMIT_NUMER: usize = 1;

/// Denominator of the control-character ratio threshold: a sample is text
/// only while fewer than `CONTROL_LIMIT_NUMER / CONTROL_LIMIT_DENOM` of its
/// bytes are disallowed control characters.
pub const CONTROL_LIMIT_DENOM: usize = 10;

/// Control bytes that ordinary text may hold: TAB, LF, FF, CR.
pub open spec fn is_allowed_control(b: u8) -> bool {
    b == 9 || b == 10 || b == 12 || b == 13
}

/// A byte that counts against the control-character budget: an ASCII
/// control code outside the allow-list.
pub open spec fn is_counted_control(b: u8) -> bool {
    b <= 31 && !is_allowed_control(b)
}

/// How many bytes of `s` are counted control characters.
pub open spec fn control_count(s: Seq<u8>) -> int
    decreases s.len(),
{
    if s.len() == 0 {
        0
    } else {
        control_count(s.drop_last()) + if is_counted_control(s.last()) {
            1int
        } else {
            0int
        }
    }
}

/// True when some byte of `s` is NUL.
pub open spec fn contains_nul(s: Seq<u8>) -> bool {
    exists|i: int| 0 <= i < s.len() && s[i] == 0u8
}

/// A UTF-8 continuation byte: `10xxxxxx`.
pub open spec fn is_utf8_cont(b: u8) -> bool {
    0x80 <= b && b <= 0xBF
}

/// Well-formedness of `s` as UTF-8 from position `i` on, per the encoding's
/// shortest-form rules: ASCII stands alone; leads `0xC2..=0xDF`,
/// `0xE0..=0xEF` and `0xF0..=0xF4` open two-, three- and four-byte
/// sequences, with the first continuation range narrowed at `0xE0`, `0xED`,
/// `0xF0` and `0xF4` to exclude overlong forms, surrogates and code points
/// past `U+10FFFF`.
pub open spec fn utf8_valid_from(s: Seq<u8>, i: int) -> bool
    decreases s.len() - i,
{
    if i < 0 || i >= s.len() {
        true
    } else {
        let b0 = s[i];
        if b0 < 0x80 {
            utf8_valid_from(s, i + 1)
        } else if 0xC2 <= b0 && b0 <= 0xDF {
            i + 1 < s.len() && is_utf8_cont(s[i + 1]) && utf8_valid_from(s, i + 2)
        } else if b0 == 0xE0 {
            i + 2 < s.len() && 0xA0 <= s[i + 1] && s[i + 1] <= 0xBF && is_utf8_cont(s[i + 2])
                && utf8_valid_from(s, i + 3)
        } else if (0xE1 <= b0 && b0 <= 0xEC) || b0 == 0xEE || b0 == 0xEF {
            i + 2 < s.len() && is_utf8_cont(s[i + 1]) && is_utf8_cont(s[i + 2])
                && utf8_valid_from(s, i + 3)
        } else if b0 == 0xED {
            i + 2 < s.len() && 0x80 <= s[i + 1] && s[i + 1] <= 0x9F && is_utf8_cont(s[i + 2])
                && utf8_valid_from(s, i + 3)
        } else if b0 == 0xF0 {
            i + 3 < s.len() && 0x90 <= s[i + 1] && s[i + 1] <= 0xBF && is_utf8_cont(s[i + 2])
                && is_utf8_cont(s[i + 3]) && utf8_valid_from(s, i + 4)
        } else if 0xF1 <= b0 && b0 <= 0xF3 {
            i + 3 < s.len() && is_utf8_cont(s[i + 1]) && is_utf8_cont(s[i + 2])
                && is_utf8_cont(s[i + 3]) && utf8_valid_from(s, i + 4)
        } else if b0 == 0xF4 {
            i + 3 < s.len() && 0x80 <= s[i + 1] && s[i + 1] <= 0x8F && is_utf8_cont(s[i + 2])
                && is_utf8_cont(s[i + 3]) && utf8_valid_from(s, i + 4)
        } else {
            false
        }
    }
}

/// Well-formedness of a whole byte sequence as UTF-8.
pub open spec fn is_valid_utf8(s: Seq<u8>) -> bool {
    utf8_valid_from(s, 0)
}

/// The control-character ratio is under the threshold; an empty sample
/// counts as ratio zero.
pub open spec fn below_control_limit(s: Seq<u8>) -> bool {
    s.len() == 0 || control_count(s) * CONTROL_LIMIT_DENOM < s.len() * CONTROL_LIMIT_NUMER
}

/// The classification verdict on a sampled prefix: text exactly when no NUL
/// byte occurs, the bytes are well-formed UTF-8, and disallowed control
/// characters stay under the ratio threshold.
pub open spec fn is_text_spec(s: Seq<u8>) -> bool {
    &&& !contains_nul(s)
    &&& is_valid_utf8(s)
    &&& below_control_limit(s)
}

/// Whether some byte of the sample is NUL.
pub fn has_nul_byte(sample: &Vec<u8>) -> (r: bool)
    ensures
        r == contains_nul(sample@),
{
    let n = sample.len();
    let mut i: usize = 0;
    while i < n
        invariant
            0 <= i <= n,
            n == sample@.len(),
            forall|k: int| 0 <= k < i ==> sample@[k] != 0u8,
        decreases n - i,
    {
        if sample[i] == 0 {
            return true;
        }
        i = i + 1;
    }
    false
}

fn is_cont_byte(b: u8) -> (r: bool)
    ensures
        r == is_utf8_cont(b),
{
    0x80 <= b && b <= 0xBF
}

/// Whether the sample is well-formed UTF-8.
pub fn validate_utf8(sample: &Vec<u8>) -> (r: bool)
    ensures
        r == is_valid_utf8(sample@),
{
    let n = sample.len();
    let mut i: usize = 0;
    while i < n
        invariant
            0 <= i <= n,
            n == sample@.len(),
            is_valid_utf8(sample@) == utf8_valid_from(sample@, i as int),
        decreases n - i,
    {
        let ghost j = i as int;
        let b0 = sample[i];
        let rem = n - i;
        if b0 < 0x80 {
            i = i + 1;
        } else if 0xC2 <= b0 && b0 <= 0xDF {
            if rem > 1 && is_cont_byte(sample[i + 1]) {
                i = i + 2;
            } else {
                assert(!utf8_valid_from(sample@, j));
                return false;
            }
        } else if b0 == 0xE0 {
            if rem > 2 && 0xA0 <= sample[i + 1] && sample[i + 1] <= 0xBF && is_cont_byte(
                sample[i + 2],
            ) {
                i = i + 3;
            } else {
                assert(!utf8_valid_from(sample@, j));
                return false;
            }
        } else if (0xE1 <= b0 && b0 <= 0xEC) || b0 == 0xEE || b0 == 0xEF {
            if rem > 2 && is_cont_byte(sample[i + 1]) && is_cont_byte(sample[i + 2]) {
                i = i + 3;
            } else {
                assert(!utf8_valid_from(sample@, j));
                return false;
            }
        } else if b0 == 0xED {
            if rem > 2 && 0x80 <= sample[i + 1] && sample[i + 1] <= 0x9F && is_cont_byte(
                sample[i + 2],
            ) {
                i = i + 3;
            } else {
                assert(!utf8_valid_from(sample@, j));
                return false;
            }
        } else if b0 == 0xF0 {
            if rem > 3 && 0x90 <= sample[i + 1] && sample[i + 1] <= 0xBF && is_cont_byte(
                sample[i + 2],
            ) && is_cont_byte(sample[i + 3]) {
                i = i + 4;
            } else {
                assert(!utf8_valid_from(sample@, j));
                return false;
            }
        } else if 0xF1 <= b0 && b0 <= 0xF3 {
            if rem > 3 && is_cont_byte(sample[i + 1]) && is_cont_byte(sample[i + 2])
                && is_cont_byte(sample[i + 3]) {
                i = i + 4;
            } else {
                assert(!utf8_valid_from(sample@, j));
                return false;
            }
        } else if b0 == 0xF4 {
            if rem > 3 && 0x80 <= sample[i + 1] && sample[i + 1] <= 0x8F && is_cont_byte(
                sample[i + 2],
            ) && is_cont_byte(sample[i + 3]) {
                i = i + 4;
            } else {
                assert(!utf8_valid_from(sample@, j));
                return false;
            }
        } else {
            assert(!utf8_valid_from(sample@, j));
            return false;
        }
        assert(utf8_valid_from(sample@, j) == utf8_valid_from(sample@, i as int));
    }
    true
}

/// How many counted control characters the sample holds.
pub fn count_controls(sample: &Vec<u8>) -> (c: usize)
    ensures
        c == control_count(sample@),
{
    let n = sample.len();
    let mut count: usize = 0;
    let mut i: usize = 0;
    while i < n
        invariant
            0 <= i <= n,
            n == sample@.len(),
            count <= i,
            count == control_count(sample@.take(i as int)),
        decreases n - i,
    {
        let b = sample[i];
        proof {
            assert(sample@.take(i as int + 1).drop_last() =~= sample@.take(i as int));
            assert(sample@.take(i as int + 1).last() == sample@[i as int]);
        }
        if b <= 31 && !(b == 9 || b == 10 || b == 12 || b == 13) {
            count = count + 1;
        }
        i = i + 1;
    }
    proof {
        assert(sample@.take(n as int) =~= sample@);
    }
    count
}

/// Classifies a sampled prefix: true for text, false for binary.
pub fn is_text_sample(sample: &Vec<u8>) -> (r: bool)
    ensures
        r == is_text_spec(sample@),
{
    if has_nul_byte(sample) {
        return false;
    }
    if !validate_utf8(sample) {
        return false;
    }
    let n = sample.len();
    if n == 0 {
        return true;
    }
    let c = count_controls(sample);
    (c as u128) * (CONTROL_LIMIT_DENOM as u128) < (n as u128) * (CONTROL_LIMIT_NUMER as u128)
}

/// A NUL byte anywhere in the sample classifies the file as binary, whatever
/// the rest of the sample holds.
pub proof fn lemma_nul_classifies_binary(s: Seq<u8>)
    requires
        contains_nul(s),
    ensures
        !is_text_spec(s),
{
}

/// A sample that is not well-formed UTF-8 classifies the file as binary.
pub proof fn lemma_invalid_utf8_classifies_binary(s: Seq<u8>)
    requires
        !is_valid_utf8(s),
    ensures
        !is_text_spec(s),
{
}

/// On a non-empty sample free of NUL and well-formed as UTF-8, the
/// control-character ratio alone decides: text exactly when the counted
/// controls stay under one tenth of the sample.
pub proof fn lemma_control_ratio_decides(s: Seq<u8>)
    requires
        s.len() > 0,
        !contains_nul(s),
        is_valid_utf8(s),
    ensures
        is_text_spec(s) <==> control_count(s) * CONTROL_LIMIT_DENOM < s.len()
            * CONTROL_LIMIT_NUMER,
{
}

/// An empty sample is classified text: it holds nothing binary and its
/// control ratio counts as zero.
pub proof fn lemma_empty_sample_is_text()
    ensures
        is_text_spec(Seq::<u8>::empty()),
{
    assert(!contains_nul(Seq::<u8>::empty()));
    assert(utf8_valid_from(Seq::<u8>::empty(), 0));
}

} // verus!
