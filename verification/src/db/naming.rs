//! Naming conventions of the generated artefacts.

use vstd::prelude::*;
use crate::text::{char_to_uppercase, chars_of, push_char, push_str, char_upper_text, upper_text, to_uppercase};

verus! {

/// `to_pascal` over `s`: the words separated by `_` are concatenated, the
/// first character of each upper-cased (Unicode), the rest kept; the
/// second component says whether the next character starts a word.
pub open spec fn pascal_state(s: Seq<char>) -> (Seq<char>, bool)
    decreases s.len(),
{
    if s.len() == 0 {
        (Seq::empty(), true)
    } else {
        let (out, at_start) = pascal_state(s.drop_last());
        let c = s.last();
        if c == '_' {
            (out, true)
        } else if at_start {
            (out + char_upper_text(c), false)
        } else {
            (out.push(c), false)
        }
    }
}

pub open spec fn pascal_spec(s: Seq<char>) -> Seq<char> {
    pascal_state(s).0
}

/// `content_core` → `ContentCore`.
pub fn to_pascal(s: &str) -> (r: String)
    ensures
        r@ == pascal_spec(s@),
{
    let cs = chars_of(s);
    let mut out = String::new();
    let mut at_start = true;
    let mut i: usize = 0;
    assert(s@.take(0) =~= Seq::<char>::empty());
    while i < cs.len()
        invariant
            cs@ == s@,
            i <= cs@.len(),
            pascal_state(s@.take(i as int)) == (out@, at_start),
        decreases cs.len() - i,
    {
        let c = cs[i];
        assert(s@.take(i + 1).drop_last() =~= s@.take(i as int));
        assert(s@.take(i + 1).last() == c);
        if c == '_' {
            at_start = true;
        } else if at_start {
            let up = char_to_uppercase(c);
            push_str(&mut out, up.as_str());
            at_start = false;
        } else {
            push_char(&mut out, c);
            at_start = false;
        }
        i += 1;
    }
    assert(s@.take(i as int) =~= s@);
    out
}

/// `content_core` → `CONTENT_CORE` (Unicode upper case).
pub fn to_screaming(s: &str) -> (r: String)
    ensures
        r@ == upper_text(s@),
{
    to_uppercase(s)
}

} // verus!
