//! Decoding of character entities in cleaned text. The sanitizer's
//! serializer re-encodes only `&` and U+00A0 in text content, so `&amp;` and
//! `&nbsp;` are what its output holds; the `&quot;`, `&#39;` and `&apos;`
//! branches are defensive, for text that reaches the decoder from elsewhere.
//!
//! `&lt;` and `&gt;` are deliberately left encoded: decoding them would put
//! literal `<` or `>` back into a text whose whole point is to be free of
//! markup characters.

use vstd::prelude::*;
use crate::chars::{chars_of, string_of_chars};

verus! {

/// `s` starts with `&amp;`.
pub open spec fn starts_amp(s: Seq<char>) -> bool {
    s.len() >= 5 && s[0] == '&' && s[1] == 'a' && s[2] == 'm' && s[3] == 'p' && s[4] == ';'
}

/// `s` starts with `&quot;`.
pub open spec fn starts_quot(s: Seq<char>) -> bool {
    s.len() >= 6 && s[0] == '&' && s[1] == 'q' && s[2] == 'u' && s[3] == 'o' && s[4] == 't'
        && s[5] == ';'
}

/// `s` starts with `&#39;`.
pub open spec fn starts_num_apos(s: Seq<char>) -> bool {
    s.len() >= 5 && s[0] == '&' && s[1] == '#' && s[2] == '3' && s[3] == '9' && s[4] == ';'
}

/// `s` starts with `&apos;`.
pub open spec fn starts_apos(s: Seq<char>) -> bool {
    s.len() >= 6 && s[0] == '&' && s[1] == 'a' && s[2] == 'p' && s[3] == 'o' && s[4] == 's'
        && s[5] == ';'
}

/// `s` starts with `&nbsp;`.
pub open spec fn starts_nbsp(s: Seq<char>) -> bool {
    s.len() >= 6 && s[0] == '&' && s[1] == 'n' && s[2] == 'b' && s[3] == 's' && s[4] == 'p'
        && s[5] == ';'
}

/// One left-to-right pass that rewrites each recognized entity to its
/// character and copies everything else unchanged.
pub open spec fn decode_entities_spec(s: Seq<char>) -> Seq<char>
    decreases s.len(),
{
    if s.len() == 0 {
        Seq::empty()
    } else if starts_amp(s) {
        seq!['&'] + decode_entities_spec(s.skip(5))
    } else if starts_quot(s) {
        seq!['"'] + decode_entities_spec(s.skip(6))
    } else if starts_num_apos(s) {
        seq!['\''] + decode_entities_spec(s.skip(5))
    } else if starts_apos(s) {
        seq!['\''] + decode_entities_spec(s.skip(6))
    } else if starts_nbsp(s) {
        seq!['\u{a0}'] + decode_entities_spec(s.skip(6))
    } else {
        seq![s[0]] + decode_entities_spec(s.skip(1))
    }
}

proof fn lemma_not_contains_skip(s: Seq<char>, k: int, c: char)
    requires
        0 <= k <= s.len(),
        !s.contains(c),
    ensures
        !s.skip(k).contains(c),
{
    assert forall|i: int| 0 <= i < s.skip(k).len() implies s.skip(k)[i] != c by {
        if s.skip(k)[i] == c {
            assert(s[i + k] == c);
            assert(s.contains(c));
        }
    }
}

proof fn lemma_cons_not_contains(x: char, rest: Seq<char>, c: char)
    requires
        x != c,
        !rest.contains(c),
    ensures
        !(seq![x] + rest).contains(c),
{
    assert forall|i: int| 0 <= i < (seq![x] + rest).len() implies (seq![x] + rest)[i] != c by {
        if i > 0 {
            if rest[i - 1] == c {
                assert(rest.contains(c));
            }
        }
    }
}

/// Decoding introduces no `<` and no `>`: a text free of them stays free.
pub proof fn lemma_decode_no_angles(s: Seq<char>)
    requires
        !s.contains('<'),
        !s.contains('>'),
    ensures
        !decode_entities_spec(s).contains('<'),
        !decode_entities_spec(s).contains('>'),
    decreases s.len(),
{
    if s.len() == 0 {
    } else {
        let k: int = if starts_amp(s) {
            5
        } else if starts_quot(s) {
            6
        } else if starts_num_apos(s) {
            5
        } else if starts_apos(s) {
            6
        } else if starts_nbsp(s) {
            6
        } else {
            1
        };
        let x: char = if starts_amp(s) {
            '&'
        } else if starts_quot(s) {
            '"'
        } else if starts_num_apos(s) {
            '\''
        } else if starts_apos(s) {
            '\''
        } else if starts_nbsp(s) {
            '\u{a0}'
        } else {
            s[0]
        };
        assert(x != '<' && x != '>') by {
            if x == s[0] {
                if s[0] == '<' {
                    assert(s.contains('<'));
                }
                if s[0] == '>' {
                    assert(s.contains('>'));
                }
            }
        }
        lemma_not_contains_skip(s, k, '<');
        lemma_not_contains_skip(s, k, '>');
        lemma_decode_no_angles(s.skip(k));
        lemma_cons_not_contains(x, decode_entities_spec(s.skip(k)), '<');
        lemma_cons_not_contains(x, decode_entities_spec(s.skip(k)), '>');
        assert(decode_entities_spec(s) == seq![x] + decode_entities_spec(s.skip(k)));
    }
}

/// Decode the recognized entities in one pass over the text.
pub fn decode_entities(s: &str) -> (r: String)
    ensures
        r@ == decode_entities_spec(s@),
{
    let cs = chars_of(s);
    let n = cs.len();
    let mut out: Vec<char> = Vec::new();
    let mut i: usize = 0;
    proof {
        assert(s@.skip(0) =~= s@);
        assert(out@ + decode_entities_spec(s@) =~= decode_entities_spec(s@));
    }
    while i < n
        invariant
            i <= n,
            n == cs@.len(),
            cs@ == s@,
            decode_entities_spec(s@) == out@ + decode_entities_spec(s@.skip(i as int)),
        decreases n - i,
    {
        let ghost sk = s@.skip(i as int);
        let amp = n - i >= 5 && cs[i] == '&' && cs[i + 1] == 'a' && cs[i + 2] == 'm' && cs[i + 3]
            == 'p' && cs[i + 4] == ';';
        let quot = n - i >= 6 && cs[i] == '&' && cs[i + 1] == 'q' && cs[i + 2] == 'u' && cs[i + 3]
            == 'o' && cs[i + 4] == 't' && cs[i + 5] == ';';
        let num_apos = n - i >= 5 && cs[i] == '&' && cs[i + 1] == '#' && cs[i + 2] == '3' && cs[i
            + 3] == '9' && cs[i + 4] == ';';
        let apos = n - i >= 6 && cs[i] == '&' && cs[i + 1] == 'a' && cs[i + 2] == 'p' && cs[i + 3]
            == 'o' && cs[i + 4] == 's' && cs[i + 5] == ';';
        let nbsp = n - i >= 6 && cs[i] == '&' && cs[i + 1] == 'n' && cs[i + 2] == 'b' && cs[i + 3]
            == 's' && cs[i + 4] == 'p' && cs[i + 5] == ';';
        proof {
            assert(amp == starts_amp(sk));
            assert(quot == starts_quot(sk));
            assert(num_apos == starts_num_apos(sk));
            assert(apos == starts_apos(sk));
            assert(nbsp == starts_nbsp(sk));
        }
        let step: usize;
        if amp {
            out.push('&');
            step = 5;
            proof {
                assert(decode_entities_spec(sk) == seq!['&'] + decode_entities_spec(sk.skip(5)));
            }
        } else if quot {
            out.push('"');
            step = 6;
            proof {
                assert(decode_entities_spec(sk) == seq!['"'] + decode_entities_spec(sk.skip(6)));
            }
        } else if num_apos {
            out.push('\'');
            step = 5;
            proof {
                assert(decode_entities_spec(sk) == seq!['\''] + decode_entities_spec(sk.skip(5)));
            }
        } else if apos {
            out.push('\'');
            step = 6;
            proof {
                assert(decode_entities_spec(sk) == seq!['\''] + decode_entities_spec(sk.skip(6)));
            }
        } else if nbsp {
            out.push('\u{a0}');
            step = 6;
            proof {
                assert(decode_entities_spec(sk) == seq!['\u{a0}'] + decode_entities_spec(
                    sk.skip(6),
                ));
            }
        } else {
            out.push(cs[i]);
            step = 1;
            proof {
                assert(sk[0] == s@[i as int]);
                assert(decode_entities_spec(sk) == seq![sk[0]] + decode_entities_spec(sk.skip(1)));
            }
        }
        proof {
            assert(sk.skip(step as int) =~= s@.skip(i + step as int));
            assert(out@ + decode_entities_spec(s@.skip(i + step as int)) =~= decode_entities_spec(
                s@,
            ));
        }
        i += step;
    }
    proof {
        assert(s@.skip(n as int) =~= Seq::<char>::empty());
        assert(out@ =~= decode_entities_spec(s@));
    }
    string_of_chars(&out)
}

} // verus!
