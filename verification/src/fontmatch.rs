//! Prefix matching of a wanted font name against a full font name: the
//! wanted text must open the full name, and the full name must end there or
//! continue with whitespace.

use vstd::prelude::*;

verus! {

/// Whether a character has the Unicode white-space property, as
/// `char::is_whitespace` decides it.
pub uninterp spec fn char_is_whitespace(c: char) -> bool;

/// Relies on char::is_whitespace: whether the character is Unicode
/// white space, a result that depends on the character alone.
#[verifier::external_body]
fn is_whitespace_char(c: char) -> (r: bool)
    ensures
        r == char_is_whitespace(c),
{
    c.is_whitespace()
}

/// The wanted text is a prefix of the full text, and the full text either
/// ends right after it or continues with a white-space character.
pub open spec fn matched_spec(wanted: Seq<char>, full: Seq<char>) -> bool {
    &&& wanted.len() <= full.len()
    &&& full.take(wanted.len() as int) == wanted
    &&& (full.len() == wanted.len() || char_is_whitespace(full[wanted.len() as int]))
}

/// Whether `full_text` matches `wanted_text`: it starts with the wanted
/// characters and ends there or continues with whitespace.
pub fn matched(wanted_text: &str, full_text: &str) -> (r: bool)
    ensures
        r == matched_spec(wanted_text@, full_text@),
{
    let wl = wanted_text.unicode_len();
    let fl = full_text.unicode_len();
    let mut i: usize = 0;
    while i < wl
        invariant
            0 <= i <= wl,
            wl == wanted_text@.len(),
            fl == full_text@.len(),
            i <= fl,
            forall|k: int| 0 <= k < i ==> full_text@[k] == wanted_text@[k],
        decreases wl - i,
    {
        if i >= fl {
            assert(wanted_text@.len() > full_text@.len());
            return false;
        }
        let wc = wanted_text.get_char(i);
        let fc = full_text.get_char(i);
        if wc != fc {
            proof {
                if wanted_text@.len() <= full_text@.len() {
                    assert(full_text@.take(wl as int)[i as int] != wanted_text@[i as int]);
                }
            }
            return false;
        }
        i = i + 1;
    }
    assert(full_text@.take(wl as int) =~= wanted_text@);
    if fl == wl {
        true
    } else {
        let next = full_text.get_char(wl);
        is_whitespace_char(next)
    }
}

} // verus!
