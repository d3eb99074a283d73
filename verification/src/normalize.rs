//! Line-ending normalization: rewriting CRLF pairs and lone CR bytes to LF.

use vstd::prelude::*;

verus! {

/// Carriage return (`\r`).
pub const CR: u8 = 13;

/// Line feed (`\n`).
pub const LF: u8 = 10;

/// True when the byte sequence holds a carriage return anywhere, which is
/// exactly when normalization changes it.
pub open spec fn contains_cr(s: Seq<u8>) -> bool {
    exists|i: int| 0 <= i < s.len() && s[i] == CR
}

/// The normalized form of `s` from position `i` on: a CR,LF pair collapses
/// to one LF, a lone CR becomes LF, every other byte is copied.
pub open spec fn normalize_from(s: Seq<u8>, i: int) -> Seq<u8>
    decreases s.len() - i,
{
    if i < 0 || i >= s.len() {
        Seq::empty()
    } else if s[i] == CR {
        if i + 1 < s.len() && s[i + 1] == LF {
            seq![LF] + normalize_from(s, i + 2)
        } else {
            seq![LF] + normalize_from(s, i + 1)
        }
    } else {
        seq![s[i]] + normalize_from(s, i + 1)
    }
}

/// The normalized form of a whole byte sequence.
pub open spec fn normalize_spec(s: Seq<u8>) -> Seq<u8> {
    normalize_from(s, 0)
}

/// Whether the file's bytes need rewriting: some CR is present.
pub fn needs_normalization(contents: &Vec<u8>) -> (r: bool)
    ensures
        r == contains_cr(contents@),
{
    let n = contents.len();
    let mut i: usize = 0;
    while i < n
        invariant
            0 <= i <= n,
            n == contents@.len(),
            forall|k: int| 0 <= k < i ==> contents@[k] != CR,
        decreases n - i,
    {
        if contents[i] == CR {
            return true;
        }
        i = i + 1;
    }
    false
}

/// Rewrites line endings to LF.
///
/// Returns `None` (unchanged) exactly when no CR occurs, in which case the
/// contents are already in normalized form; otherwise returns the rewritten
/// bytes, with every CR,LF pair collapsed to one LF and every lone CR
/// replaced by LF.
pub fn normalize_bytes(contents: &Vec<u8>) -> (r: Option<Vec<u8>>)
    ensures
        r is Some <==> contains_cr(contents@),
        r matches Some(v) ==> v@ == normalize_spec(contents@),
        r is None ==> normalize_spec(contents@) == contents@,
{
    if !needs_normalization(contents) {
        proof {
            lemma_normalize_noop_without_cr(contents@);
        }
        return None;
    }
    let n = contents.len();
    let mut out: Vec<u8> = Vec::new();
    let mut i: usize = 0;
    while i < n
        invariant
            0 <= i <= n,
            n == contents@.len(),
            normalize_spec(contents@) == out@ + normalize_from(contents@, i as int),
        decreases n - i,
    {
        let ghost prev_out = out@;
        let ghost j = i as int;
        if contents[i] == CR {
            out.push(LF);
            if i + 1 < n && contents[i + 1] == LF {
                i = i + 2;
            } else {
                i = i + 1;
            }
        } else {
            out.push(contents[i]);
            i = i + 1;
        }
        proof {
            assert(normalize_from(contents@, j) == seq![out@[out@.len() - 1]]
                + normalize_from(contents@, i as int));
            assert(out@ + normalize_from(contents@, i as int) == prev_out
                + normalize_from(contents@, j)) by {
                assert(out@ == prev_out + seq![out@[out@.len() - 1]]);
                assert(out@ + normalize_from(contents@, i as int) =~= prev_out
                    + normalize_from(contents@, j));
            }
        }
    }
    proof {
        assert(out@ + normalize_from(contents@, n as int) =~= out@);
    }
    Some(out)
}

/// A byte sequence without CR — in particular one whose line endings are
/// all LF — is already normalized: rewriting it is the identity.
pub proof fn lemma_normalize_noop_without_cr(s: Seq<u8>)
    requires
        !contains_cr(s),
    ensures
        normalize_spec(s) == s,
{
    lemma_normalize_from_noop(s, 0);
    assert(s.subrange(0, s.len() as int) =~= s);
}

proof fn lemma_normalize_from_noop(s: Seq<u8>, i: int)
    requires
        0 <= i <= s.len(),
        !contains_cr(s),
    ensures
        normalize_from(s, i) == s.subrange(i, s.len() as int),
    decreases s.len() - i,
{
    if i >= s.len() {
        assert(normalize_from(s, i) =~= s.subrange(i, s.len() as int));
    } else {
        assert(s[i] != CR);
        lemma_normalize_from_noop(s, i + 1);
        assert(seq![s[i]] + s.subrange(i + 1, s.len() as int) =~= s.subrange(
            i,
            s.len() as int,
        ));
    }
}

/// The output of normalization never holds a CR.
pub proof fn lemma_normalize_removes_cr(s: Seq<u8>)
    ensures
        !contains_cr(normalize_spec(s)),
{
    lemma_normalize_from_removes_cr(s, 0);
}

proof fn lemma_normalize_from_removes_cr(s: Seq<u8>, i: int)
    ensures
        !contains_cr(normalize_from(s, i)),
    decreases s.len() - i,
{
    if i < 0 || i >= s.len() {
    } else if s[i] == CR {
        if i + 1 < s.len() && s[i + 1] == LF {
            lemma_normalize_from_removes_cr(s, i + 2);
        } else {
            lemma_normalize_from_removes_cr(s, i + 1);
        }
    } else {
        lemma_normalize_from_removes_cr(s, i + 1);
    }
}

proof fn lemma_normalize_from_shift(x: Seq<u8>, y: Seq<u8>, j: int)
    requires
        0 <= j <= y.len(),
    ensures
        normalize_from(x + y, x.len() + j) == normalize_from(y, j),
    decreases y.len() - j,
{
    let t = x + y;
    if j == y.len() {
        assert(normalize_from(t, x.len() + j) =~= normalize_from(y, j));
    } else {
        assert(t[x.len() + j] == y[j]);
        if y[j] == CR {
            if j + 1 < y.len() && y[j + 1] == LF {
                assert(t[x.len() + j + 1] == y[j + 1]);
                lemma_normalize_from_shift(x, y, j + 2);
            } else {
                assert(j + 1 < y.len() ==> t[x.len() + j + 1] == y[j + 1]);
                lemma_normalize_from_shift(x, y, j + 1);
            }
        } else {
            lemma_normalize_from_shift(x, y, j + 1);
        }
    }
}

proof fn lemma_normalize_split_at_cr(a: Seq<u8>, suffix: Seq<u8>, i: int)
    requires
        0 <= i <= a.len(),
        suffix.len() > 0,
        suffix[0] == CR,
    ensures
        normalize_from(a + suffix, i) == normalize_from(a, i) + normalize_from(
            a + suffix,
            a.len() as int,
        ),
    decreases a.len() - i,
{
    let t = a + suffix;
    if i == a.len() {
        assert(normalize_from(a, i) + normalize_from(t, a.len() as int) =~= normalize_from(
            t,
            a.len() as int,
        ));
    } else {
        assert(t[i] == a[i]);
        let tail = normalize_from(t, a.len() as int);
        if a[i] == CR {
            if i + 1 < a.len() && a[i + 1] == LF {
                assert(t[i + 1] == a[i + 1]);
                lemma_normalize_split_at_cr(a, suffix, i + 2);
                assert(seq![LF] + (normalize_from(a, i + 2) + tail) =~= (seq![LF]
                    + normalize_from(a, i + 2)) + tail);
            } else {
                assert(t[i + 1] == if i + 1 < a.len() {
                    a[i + 1]
                } else {
                    suffix[0]
                });
                assert(!(i + 1 < t.len() && t[i + 1] == LF));
                lemma_normalize_split_at_cr(a, suffix, i + 1);
                assert(seq![LF] + (normalize_from(a, i + 1) + tail) =~= (seq![LF]
                    + normalize_from(a, i + 1)) + tail);
            }
        } else {
            lemma_normalize_split_at_cr(a, suffix, i + 1);
            assert(seq![a[i]] + (normalize_from(a, i + 1) + tail) =~= (seq![a[i]]
                + normalize_from(a, i + 1)) + tail);
        }
    }
}

/// A CR,LF pair anywhere in the contents becomes exactly one LF: the bytes
/// around it normalize independently.
pub proof fn lemma_crlf_collapses_to_lf(a: Seq<u8>, b: Seq<u8>)
    ensures
        normalize_spec(a + seq![CR, LF] + b) == normalize_spec(a) + seq![LF] + normalize_spec(b),
{
    let suffix = seq![CR, LF] + b;
    let t = a + suffix;
    assert(a + seq![CR, LF] + b =~= t);
    lemma_normalize_split_at_cr(a, suffix, 0);
    assert(t[a.len() as int] == CR);
    assert(t[a.len() as int + 1] == LF);
    assert(normalize_from(t, a.len() as int) == seq![LF] + normalize_from(t, a.len() as int + 2));
    assert((a + seq![CR, LF]) + b =~= t);
    lemma_normalize_from_shift(a + seq![CR, LF], b, 0);
    assert(normalize_from(t, a.len() as int + 2) == normalize_spec(b));
    assert(normalize_spec(a) + (seq![LF] + normalize_spec(b)) =~= normalize_spec(a) + seq![LF]
        + normalize_spec(b));
}

/// A lone CR at the very end of the contents becomes one LF.
pub proof fn lemma_trailing_cr_becomes_lf(a: Seq<u8>)
    ensures
        normalize_spec(a + seq![CR]) == normalize_spec(a) + seq![LF],
{
    let suffix = seq![CR];
    let t = a + suffix;
    lemma_normalize_split_at_cr(a, suffix, 0);
    assert(t[a.len() as int] == CR);
    assert(a.len() as int + 1 == t.len());
    assert(normalize_from(t, a.len() as int) == seq![LF] + normalize_from(t, a.len() as int + 1));
    assert(normalize_from(t, a.len() as int + 1) =~= Seq::<u8>::empty());
    assert(seq![LF] + Seq::<u8>::empty() =~= seq![LF]);
}

/// Two consecutive CRs with no LF after them become two LFs, each converted
/// independently.
pub proof fn lemma_double_cr_becomes_two_lf(a: Seq<u8>, b: Seq<u8>)
    requires
        b.len() == 0 || b[0] != LF,
    ensures
        normalize_spec(a + seq![CR, CR] + b) == normalize_spec(a) + seq![LF, LF] + normalize_spec(
            b,
        ),
{
    let suffix = seq![CR, CR] + b;
    let t = a + suffix;
    assert(a + seq![CR, CR] + b =~= t);
    lemma_normalize_split_at_cr(a, suffix, 0);
    assert(t[a.len() as int] == CR);
    assert(t[a.len() as int + 1] == CR);
    assert(normalize_from(t, a.len() as int) == seq![LF] + normalize_from(t, a.len() as int + 1));
    assert(a.len() as int + 2 < t.len() ==> t[a.len() as int + 2] == b[0]);
    assert(!(a.len() as int + 2 < t.len() && t[a.len() as int + 2] == LF));
    assert(normalize_from(t, a.len() as int + 1) == seq![LF] + normalize_from(t, a.len() as int + 2));
    assert((a + seq![CR, CR]) + b =~= t);
    lemma_normalize_from_shift(a + seq![CR, CR], b, 0);
    assert(normalize_from(t, a.len() as int + 2) == normalize_spec(b));
    assert(normalize_spec(a) + (seq![LF] + (seq![LF] + normalize_spec(b))) =~= normalize_spec(a)
        + seq![LF, LF] + normalize_spec(b));
}

/// Normalization is idempotent: rewriting an already-normalized sequence
/// yields the same bytes again.
pub proof fn lemma_normalize_idempotent(s: Seq<u8>)
    ensures
        normalize_spec(normalize_spec(s)) == normalize_spec(s),
{
    lemma_normalize_removes_cr(s);
    lemma_normalize_noop_without_cr(normalize_spec(s));
}

} // verus!
