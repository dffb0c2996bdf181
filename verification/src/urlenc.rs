//! Percent-encoding of query components, the translator request URL, and the
//! deep link through the web translator UI.

use vstd::prelude::*;
use vstd::string::StringExecFns;
use vstd::utf8::encode_utf8;
use crate::chars::{chars_of, string_of_chars};

verus! {

broadcast use vstd::utf8::char_u32_cast;

/// Bytes that percent-encoding leaves as they are: ASCII letters, digits,
/// `-`, `.`, `_` and `~`.
pub open spec fn is_unreserved_byte(b: u8) -> bool {
    (0x41 <= b && b <= 0x5a) || (0x61 <= b && b <= 0x7a) || (0x30 <= b && b <= 0x39) || b == 0x2d
        || b == 0x2e || b == 0x5f || b == 0x7e
}

/// The uppercase hexadecimal digit for `n` in `0..16`.
pub open spec fn hex_char(n: int) -> char {
    if n < 10 {
        ((48 + n) as u8) as char
    } else {
        ((55 + n) as u8) as char
    }
}

/// How one byte is rendered in a percent-encoded component.
pub open spec fn encode_byte_spec(b: u8) -> Seq<char> {
    if is_unreserved_byte(b) {
        seq![b as char]
    } else {
        seq!['%', hex_char((b / 16) as int), hex_char((b % 16) as int)]
    }
}

/// The percent-encoding of a byte string.
pub open spec fn percent_encode_spec(bs: Seq<u8>) -> Seq<char>
    decreases bs.len(),
{
    if bs.len() == 0 {
        Seq::empty()
    } else {
        encode_byte_spec(bs[0]) + percent_encode_spec(bs.skip(1))
    }
}

fn hex_char_exec(n: u8) -> (c: char)
    requires
        n < 16,
    ensures
        c == hex_char(n as int),
{
    let b: u8 = if n < 10 {
        48 + n
    } else {
        55 + n
    };
    b as char
}

/// Percent-encode the UTF-8 bytes of `s` for use as one query component.
pub fn percent_encode(s: &str) -> (r: String)
    ensures
        r@ == percent_encode_spec(encode_utf8(s@)),
{
    let bs = s.as_bytes();
    let n = bs.len();
    let ghost full = encode_utf8(s@);
    let mut out: Vec<char> = Vec::new();
    let mut i: usize = 0;
    proof {
        assert(full.skip(0) =~= full);
        assert(out@ + percent_encode_spec(full) =~= percent_encode_spec(full));
    }
    while i < n
        invariant
            i <= n,
            n == full.len(),
            bs@ == full,
            percent_encode_spec(full) == out@ + percent_encode_spec(full.skip(i as int)),
        decreases n - i,
    {
        let ghost sk = full.skip(i as int);
        let b = bs[i];
        if (0x41 <= b && b <= 0x5a) || (0x61 <= b && b <= 0x7a) || (0x30 <= b && b <= 0x39) || b
            == 0x2d || b == 0x2e || b == 0x5f || b == 0x7e {
            out.push(b as char);
        } else {
            out.push('%');
            out.push(hex_char_exec(b / 16));
            out.push(hex_char_exec(b % 16));
        }
        proof {
            assert(sk[0] == full[i as int]);
            assert(percent_encode_spec(sk) == encode_byte_spec(sk[0]) + percent_encode_spec(
                sk.skip(1),
            ));
            assert(sk.skip(1) =~= full.skip(i + 1));
            assert(out@ + percent_encode_spec(full.skip(i + 1)) =~= percent_encode_spec(full));
        }
        i += 1;
    }
    proof {
        assert(full.skip(n as int) =~= Seq::<u8>::empty());
        assert(out@ =~= percent_encode_spec(full));
    }
    string_of_chars(&out)
}

/// The translation endpoint.
pub open spec fn base_url_spec() -> Seq<char> {
    "https://translate.yandex.net/api/v1.5/tr.json/translate"@
}

/// The full translator request URL for a key and a sanitized text: the two
/// are percent-encoded; the language pair and format are fixed.
pub open spec fn translate_url_spec(key: Seq<char>, text: Seq<char>) -> Seq<char> {
    base_url_spec() + "?key="@ + percent_encode_spec(encode_utf8(key)) + "&text="@
        + percent_encode_spec(encode_utf8(text)) + "&lang=it-en&format=plain"@
}

/// Build the translator request URL.
pub fn build_translate_url(key: &str, text: &str) -> (r: String)
    ensures
        r@ == translate_url_spec(key@, text@),
{
    let mut u = "https://translate.yandex.net/api/v1.5/tr.json/translate".to_owned();
    u.append("?key=");
    let ek = percent_encode(key);
    u.append(ek.as_str());
    u.append("&text=");
    let et = percent_encode(text);
    u.append(et.as_str());
    u.append("&lang=it-en&format=plain");
    proof {
        assert(u@ =~= translate_url_spec(key@, text@));
    }
    u
}

/// The deep link that re-opens the source article through the web translator.
pub open spec fn deep_link_spec(link: Seq<char>) -> Seq<char> {
    "https://translate.yandex.com/translate?url="@ + link + "&lang=it-en"@
}

/// Build the deep link for a source link.
pub fn build_deep_link(link: &str) -> (r: String)
    ensures
        r@ == deep_link_spec(link@),
{
    let mut u = "https://translate.yandex.com/translate?url=".to_owned();
    u.append(link);
    u.append("&lang=it-en");
    proof {
        assert(u@ =~= deep_link_spec(link@));
    }
    u
}

/// The value of a hexadecimal digit, or `-1` for any other character.
pub open spec fn hex_val(c: char) -> int {
    let u = c as u32;
    if 48 <= u && u <= 57 {
        u - 48
    } else if 65 <= u && u <= 70 {
        u - 55
    } else if 97 <= u && u <= 102 {
        u - 87
    } else {
        -1
    }
}

fn hex_val_exec(c: char) -> (v: Option<u8>)
    ensures
        v == (if hex_val(c) >= 0 {
            Some(hex_val(c) as u8)
        } else {
            None::<u8>
        }),
{
    let u = c as u32;
    if 48 <= u && u <= 57 {
        Some((u - 48) as u8)
    } else if 65 <= u && u <= 70 {
        Some((u - 55) as u8)
    } else if 97 <= u && u <= 102 {
        Some((u - 87) as u8)
    } else {
        None
    }
}

/// The uppercase hexadecimal digits decode back to their values.
pub proof fn lemma_hex_char_val(n: int)
    requires
        0 <= n < 16,
    ensures
        hex_val(hex_char(n)) == n,
{
}

/// Strict percent-decoding of one query component: `%XX` becomes the byte
/// `XX`, any other ASCII character its own byte; anything else fails.
pub open spec fn percent_decode_spec(s: Seq<char>) -> Option<Seq<u8>>
    decreases s.len(),
{
    if s.len() == 0 {
        Some(Seq::empty())
    } else if s[0] == '%' {
        if s.len() >= 3 && hex_val(s[1]) >= 0 && hex_val(s[2]) >= 0 {
            match percent_decode_spec(s.skip(3)) {
                Some(r) => Some(seq![(hex_val(s[1]) * 16 + hex_val(s[2])) as u8] + r),
                None => None,
            }
        } else {
            None
        }
    } else if (s[0] as u32) < 128 {
        match percent_decode_spec(s.skip(1)) {
            Some(r) => Some(seq![(s[0] as u32) as u8] + r),
            None => None,
        }
    } else {
        None
    }
}

proof fn lemma_concat_not_contains(a: Seq<char>, b: Seq<char>, c: char)
    requires
        !a.contains(c),
        !b.contains(c),
    ensures
        !(a + b).contains(c),
{
    assert forall|i: int| 0 <= i < (a + b).len() implies (a + b)[i] != c by {
        if i < a.len() {
            if a[i] == c {
                assert(a.contains(c));
            }
        } else {
            if b[i - a.len()] == c {
                assert(b.contains(c));
            }
        }
    }
}

/// Percent-encoding never emits `c`, for any `c` that is not `%`, not a
/// hexadecimal digit, and not an unreserved ASCII character.
pub proof fn lemma_pe_not_contains(bs: Seq<u8>, c: char)
    requires
        c != '%',
        hex_val(c) < 0,
        !((c as u32) < 128 && is_unreserved_byte((c as u32) as u8)),
    ensures
        !percent_encode_spec(bs).contains(c),
    decreases bs.len(),
{
    if bs.len() == 0 {
    } else {
        let b = bs[0];
        let e = encode_byte_spec(b);
        lemma_pe_not_contains(bs.skip(1), c);
        assert(!e.contains(c)) by {
            if is_unreserved_byte(b) {
                assert(e =~= seq![b as char]);
                if (b as char) == c {
                    assert((c as u32) == b as u32);
                }
                assert forall|i: int| 0 <= i < e.len() implies e[i] != c by {}
            } else {
                lemma_hex_char_val((b / 16) as int);
                lemma_hex_char_val((b % 16) as int);
                assert forall|i: int| 0 <= i < e.len() implies e[i] != c by {
                    if i == 1 && e[i] == c {
                        assert(hex_val(c) == (b / 16) as int);
                    }
                    if i == 2 && e[i] == c {
                        assert(hex_val(c) == (b % 16) as int);
                    }
                }
            }
        }
        lemma_concat_not_contains(e, percent_encode_spec(bs.skip(1)), c);
        assert(percent_encode_spec(bs) == e + percent_encode_spec(bs.skip(1)));
    }
}

/// Percent-decoding inverts percent-encoding on every byte string.
pub proof fn lemma_percent_decode_encode(bs: Seq<u8>)
    ensures
        percent_decode_spec(percent_encode_spec(bs)) == Some(bs),
    decreases bs.len(),
{
    if bs.len() == 0 {
        assert(percent_encode_spec(bs) =~= Seq::<char>::empty());
        assert(bs =~= Seq::<u8>::empty());
    } else {
        let b = bs[0];
        let rest = bs.skip(1);
        lemma_percent_decode_encode(rest);
        let e = encode_byte_spec(b);
        let t = percent_encode_spec(rest);
        let s = percent_encode_spec(bs);
        assert(s == e + t);
        if is_unreserved_byte(b) {
            assert(s[0] == b as char);
            assert((s[0] as u32) == b as u32);
            assert(s[0] != '%') by {
                assert(('%' as u32) == 37);
            }
            assert(s.skip(1) =~= t);
            assert(percent_decode_spec(s) == Some(seq![(s[0] as u32) as u8] + rest));
            assert(seq![(s[0] as u32) as u8] + rest =~= bs);
        } else {
            lemma_hex_char_val((b / 16) as int);
            lemma_hex_char_val((b % 16) as int);
            assert(s.len() >= 3);
            assert(s[0] == '%' && s[1] == hex_char((b / 16) as int) && s[2] == hex_char(
                (b % 16) as int,
            ));
            assert(s.skip(3) =~= t);
            assert(hex_val(s[1]) * 16 + hex_val(s[2]) == b as int);
            assert(percent_decode_spec(s) == Some(seq![(hex_val(s[1]) * 16 + hex_val(s[2])) as u8]
                + rest));
            assert(seq![(hex_val(s[1]) * 16 + hex_val(s[2])) as u8] + rest =~= bs);
        }
    }
}

/// The index of the first `c` in `s` at or after `i`, or `s.len()` if there
/// is none.
pub open spec fn find_char_from(s: Seq<char>, c: char, i: int) -> int
    decreases s.len() - i,
{
    if i < 0 || i >= s.len() {
        s.len() as int
    } else if s[i] == c {
        i
    } else {
        find_char_from(s, c, i + 1)
    }
}

proof fn lemma_find_first(s: Seq<char>, c: char, i: int, j: int)
    requires
        0 <= i <= j < s.len(),
        forall|k: int| i <= k < j ==> s[k] != c,
        s[j] == c,
    ensures
        find_char_from(s, c, i) == j,
    decreases j - i,
{
    if i < j {
        assert(s[i] != c);
        lemma_find_first(s, c, i + 1, j);
    }
}

fn find_char(cs: &Vec<char>, c: char, from: usize) -> (r: usize)
    requires
        from <= cs@.len(),
    ensures
        r == find_char_from(cs@, c, from as int),
        from <= r <= cs@.len(),
{
    let n = cs.len();
    let mut j = from;
    while j < n
        invariant
            from <= j <= n,
            n == cs@.len(),
            find_char_from(cs@, c, from as int) == find_char_from(cs@, c, j as int),
        decreases n - j,
    {
        if cs[j] == c {
            return j;
        }
        proof {
            assert(find_char_from(cs@, c, j as int) == find_char_from(cs@, c, j + 1));
        }
        j += 1;
    }
    n
}

fn percent_decode_range(cs: &Vec<char>, from: usize, to: usize) -> (r: Option<Vec<u8>>)
    requires
        from <= to <= cs@.len(),
    ensures
        (match r {
            Some(v) => percent_decode_spec(cs@.subrange(from as int, to as int)) == Some(v@),
            None => percent_decode_spec(cs@.subrange(from as int, to as int)) is None,
        }),
{
    let ghost full = cs@.subrange(from as int, to as int);
    let mut out: Vec<u8> = Vec::new();
    let mut i: usize = from;
    proof {
        match percent_decode_spec(full) {
            Some(r) => {
                assert(out@ + r =~= r);
            },
            None => {},
        }
    }
    while i < to
        invariant
            from <= i <= to <= cs@.len(),
            full == cs@.subrange(from as int, to as int),
            percent_decode_spec(full) == (match percent_decode_spec(
                cs@.subrange(i as int, to as int),
            ) {
                Some(r) => Some(out@ + r),
                None => None::<Seq<u8>>,
            }),
        decreases to - i,
    {
        let ghost sk = cs@.subrange(i as int, to as int);
        proof {
            assert(sk[0] == cs@[i as int]);
        }
        let c = cs[i];
        if c == '%' {
            if to - i >= 3 {
                let h1 = hex_val_exec(cs[i + 1]);
                let h2 = hex_val_exec(cs[i + 2]);
                if h1.is_some() && h2.is_some() {
                    let x = h1.unwrap();
                    let y = h2.unwrap();
                    let ghost prev = out@;
                    out.push(x * 16 + y);
                    proof {
                        assert(sk[1] == cs@[i + 1] && sk[2] == cs@[i + 2]);
                        assert(sk.skip(3) =~= cs@.subrange(i + 3, to as int));
                        assert((hex_val(sk[1]) * 16 + hex_val(sk[2])) as u8 == x * 16 + y);
                        match percent_decode_spec(cs@.subrange(i + 3, to as int)) {
                            Some(r) => {
                                assert(percent_decode_spec(sk) == Some(
                                    seq![(x * 16 + y) as u8] + r,
                                ));
                                assert(out@ + r =~= prev + (seq![(x * 16 + y) as u8] + r));
                            },
                            None => {
                                assert(percent_decode_spec(sk) is None);
                            },
                        }
                    }
                    i += 3;
                } else {
                    proof {
                        assert(percent_decode_spec(sk) is None);
                    }
                    return None;
                }
            } else {
                proof {
                    assert(percent_decode_spec(sk) is None);
                }
                return None;
            }
        } else {
            let u = c as u32;
            if u < 128 {
                let ghost prev = out@;
                out.push(u as u8);
                proof {
                    assert(sk.skip(1) =~= cs@.subrange(i + 1, to as int));
                    match percent_decode_spec(cs@.subrange(i + 1, to as int)) {
                        Some(r) => {
                            assert(percent_decode_spec(sk) == Some(seq![(sk[0] as u32) as u8] + r));
                            assert(out@ + r =~= prev + (seq![(sk[0] as u32) as u8] + r));
                        },
                        None => {
                            assert(percent_decode_spec(sk) is None);
                        },
                    }
                }
                i += 1;
            } else {
                proof {
                    assert(percent_decode_spec(sk) is None);
                }
                return None;
            }
        }
    }
    proof {
        assert(cs@.subrange(to as int, to as int) =~= Seq::<char>::empty());
        assert(out@ + Seq::<u8>::empty() =~= out@);
    }
    Some(out)
}

/// The percent-decoded value of the `text` query parameter: the segment
/// between the first `&text=` and the next `&` (or the end of the URL).
pub open spec fn text_param_spec(u: Seq<char>) -> Option<Seq<u8>> {
    let a = find_char_from(u, '&', 0);
    if a + 6 <= u.len() && u.subrange(a, a + 6) == "&text="@ {
        let e = find_char_from(u, '&', a + 6);
        percent_decode_spec(u.subrange(a + 6, e))
    } else {
        None
    }
}

/// Parse a translator request URL back: the decoded bytes of its `text`
/// parameter, or `None` where the URL holds no well-formed one.
pub fn extract_text_param(url: &str) -> (r: Option<Vec<u8>>)
    ensures
        (match r {
            Some(v) => text_param_spec(url@) == Some(v@),
            None => text_param_spec(url@) is None,
        }),
{
    let cs = chars_of(url);
    let n = cs.len();
    let a = find_char(&cs, '&', 0);
    if n - a >= 6 {
        if cs[a] == '&' && cs[a + 1] == 't' && cs[a + 2] == 'e' && cs[a + 3] == 'x' && cs[a + 4]
            == 't' && cs[a + 5] == '=' {
            proof {
                reveal_strlit("&text=");
                assert(cs@.subrange(a as int, a + 6) =~= "&text="@);
            }
            let e = find_char(&cs, '&', a + 6);
            percent_decode_range(&cs, a + 6, e)
        } else {
            proof {
                reveal_strlit("&text=");
                assert(cs@.subrange(a as int, a + 6) != "&text="@) by {
                    if cs@.subrange(a as int, a + 6) == "&text="@ {
                        assert(cs@.subrange(a as int, a + 6)[0] == cs@[a as int]);
                        assert(cs@.subrange(a as int, a + 6)[1] == cs@[a + 1]);
                        assert(cs@.subrange(a as int, a + 6)[2] == cs@[a + 2]);
                        assert(cs@.subrange(a as int, a + 6)[3] == cs@[a + 3]);
                        assert(cs@.subrange(a as int, a + 6)[4] == cs@[a + 4]);
                        assert(cs@.subrange(a as int, a + 6)[5] == cs@[a + 5]);
                    }
                }
            }
            None
        }
    } else {
        None
    }
}

/// For every key and sanitized text, the translator request URL parses back:
/// its `text` parameter decodes to exactly the UTF-8 bytes of the text, and
/// those bytes decode to the text itself.
pub proof fn lemma_translate_url_text_param(key: Seq<char>, text: Seq<char>)
    ensures
        text_param_spec(translate_url_spec(key, text)) == Some(encode_utf8(text)),
        vstd::utf8::decode_utf8(encode_utf8(text)) == text,
{
    vstd::utf8::encode_utf8_decode_utf8(text);
    let bu = base_url_spec();
    let qk = "?key="@;
    let ek = percent_encode_spec(encode_utf8(key));
    let t6 = "&text="@;
    let et = percent_encode_spec(encode_utf8(text));
    let z = "&lang=it-en&format=plain"@;
    let u = translate_url_spec(key, text);
    reveal_strlit("https://translate.yandex.net/api/v1.5/tr.json/translate");
    reveal_strlit("?key=");
    reveal_strlit("&text=");
    reveal_strlit("&lang=it-en&format=plain");
    assert(u =~= bu + qk + ek + t6 + et + z);
    let la = bu.len() + qk.len() + ek.len();
    lemma_pe_not_contains(encode_utf8(key), '&');
    lemma_pe_not_contains(encode_utf8(text), '&');
    assert forall|k: int| 0 <= k < la implies u[k] != '&' by {
        if k < bu.len() {
            assert(u[k] == bu[k]);
        } else if k < bu.len() + qk.len() {
            assert(u[k] == qk[k - bu.len()]);
        } else {
            assert(u[k] == ek[k - bu.len() - qk.len()]);
            if ek[k - bu.len() - qk.len()] == '&' {
                assert(ek.contains('&'));
            }
        }
    }
    assert(u[la as int] == t6[0]);
    assert(u[la as int] == '&');
    lemma_find_first(u, '&', 0, la as int);
    let a = find_char_from(u, '&', 0);
    assert(a == la);
    assert(u.subrange(a, a + 6) =~= t6);
    let ee = a + 6 + et.len();
    assert forall|k: int| a + 6 <= k < ee implies u[k] != '&' by {
        assert(u[k] == et[k - a - 6]);
        if et[k - a - 6] == '&' {
            assert(et.contains('&'));
        }
    }
    assert(u[ee as int] == z[0]);
    assert(u[ee as int] == '&');
    lemma_find_first(u, '&', a + 6, ee as int);
    assert(find_char_from(u, '&', a + 6) == ee);
    assert(u.subrange(a + 6, ee) =~= et);
    lemma_percent_decode_encode(encode_utf8(text));
}

} // verus!
