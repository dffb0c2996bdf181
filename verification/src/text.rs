//! Anchor stripping: the `#` character would act as a fragment separator once
//! the text is interpolated into the translator request URL, so every `#` is
//! replaced by a single space before the URL is built.

use vstd::prelude::*;
use crate::chars::{chars_of, string_of_chars};

verus! {

/// The characters of `s` with every `#` replaced by a single space.
pub open spec fn strip_anchor_spec(s: Seq<char>) -> Seq<char> {
    s.map_values(|c: char| if c == '#' { ' ' } else { c })
}

/// Replace every `#` with a space, leaving all other characters unchanged.
pub fn strip_anchor(text: &str) -> (r: String)
    ensures
        r@ == strip_anchor_spec(text@),
{
    let cs = chars_of(text);
    let mut out: Vec<char> = Vec::new();
    let mut i: usize = 0;
    while i < cs.len()
        invariant
            i <= cs@.len(),
            cs@ == text@,
            out@ == strip_anchor_spec(text@.take(i as int)),
        decreases cs@.len() - i,
    {
        let c = cs[i];
        if c == '#' {
            out.push(' ');
        } else {
            out.push(c);
        }
        proof {
            assert(strip_anchor_spec(text@.take(i + 1 as int)) =~= strip_anchor_spec(
                text@.take(i as int),
            ).push(if text@[i as int] == '#' {
                ' '
            } else {
                text@[i as int]
            }));
        }
        i += 1;
    }
    proof {
        assert(text@.take(text@.len() as int) =~= text@);
    }
    string_of_chars(&out)
}

/// Stripping anchors twice is the same as stripping them once.
pub proof fn lemma_strip_anchor_idempotent(s: Seq<char>)
    ensures
        strip_anchor_spec(strip_anchor_spec(s)) == strip_anchor_spec(s),
{
    assert(strip_anchor_spec(strip_anchor_spec(s)) =~= strip_anchor_spec(s));
}

/// The stripped text never contains `#`.
pub proof fn lemma_strip_anchor_no_hash(s: Seq<char>)
    ensures
        !strip_anchor_spec(s).contains('#'),
{
    assert forall|i: int| 0 <= i < strip_anchor_spec(s).len() implies strip_anchor_spec(s)[i]
        != '#' by {}
}

/// Stripping anchors introduces no character but the space, so a text free of
/// `<` and `>` stays free of them.
pub proof fn lemma_strip_anchor_no_angles(s: Seq<char>)
    requires
        !s.contains('<'),
        !s.contains('>'),
    ensures
        !strip_anchor_spec(s).contains('<'),
        !strip_anchor_spec(s).contains('>'),
{
    assert forall|i: int| 0 <= i < strip_anchor_spec(s).len() implies strip_anchor_spec(s)[i]
        != '<' && strip_anchor_spec(s)[i] != '>' by {
        assert(!(s[i] == '<') && !(s[i] == '>')) by {
            if s[i] == '<' {
                assert(s.contains('<'));
            }
            if s[i] == '>' {
                assert(s.contains('>'));
            }
        }
    }
}

} // verus!
