//! The policy allow-list document: a JSON object with one `policy_ids` key
//! holding an array of plain strings. The grammar is given as recursive
//! functions over the character sequence and the executable parser is proved
//! to follow it exactly. String escapes are not part of the grammar: an
//! escaped entry could never be a plain hex hash, so such a document is
//! rejected as a whole.

use crate::text::{chars_of, string_from_chars};
use vstd::prelude::*;

verus! {

/// JSON insignificant whitespace.
pub open spec fn is_ws(c: char) -> bool {
    c == ' ' || c == '\t' || c == '\n' || c == '\r'
}

/// A character that may stand inside a string literal of the document:
/// printable, no quote, no backslash.
pub open spec fn is_plain(c: char) -> bool {
    c != '"' && c != '\\' && c as u32 >= 32
}

/// The first position at or after `i` that holds no whitespace.
pub open spec fn skip_ws(s: Seq<char>, i: int) -> int
    decreases s.len() - i when 0 <= i <= s.len()
{
    if i < s.len() && is_ws(s[i]) {
        skip_ws(s, i + 1)
    } else {
        i
    }
}

/// Skipping whitespace never moves backwards nor past the end.
pub proof fn lemma_skip_ws(s: Seq<char>, i: int)
    requires
        0 <= i <= s.len(),
    ensures
        i <= skip_ws(s, i) <= s.len(),
    decreases s.len() - i,
{
    if i < s.len() && is_ws(s[i]) {
        lemma_skip_ws(s, i + 1);
    }
}

/// The position of the closing quote of a string literal whose body starts at
/// `i`, provided every character before it is plain.
pub open spec fn scan_str(s: Seq<char>, i: int) -> Option<int>
    decreases s.len() - i when 0 <= i <= s.len()
{
    if i >= s.len() {
        None
    } else if s[i] == '"' {
        Some(i)
    } else if is_plain(s[i]) {
        scan_str(s, i + 1)
    } else {
        None
    }
}

/// A found closing quote lies at or after the start, inside the text.
pub proof fn lemma_scan_str(s: Seq<char>, i: int)
    requires
        0 <= i <= s.len(),
        scan_str(s, i) is Some,
    ensures
        i <= scan_str(s, i)->0 < s.len(),
        s[scan_str(s, i)->0] == '"',
    decreases s.len() - i,
{
    if i < s.len() && s[i] != '"' && is_plain(s[i]) {
        lemma_scan_str(s, i + 1);
    }
}

/// The key the document must hold.
pub open spec fn policy_ids_key() -> Seq<char> {
    seq!['p', 'o', 'l', 'i', 'c', 'y', '_', 'i', 'd', 's']
}

/// Parses the array elements from the start of one string literal onwards:
/// the string bodies in order, and the position after the closing bracket.
pub open spec fn parse_elems(s: Seq<char>, i: int) -> Option<(Seq<Seq<char>>, int)>
    decreases s.len() - i when 0 <= i <= s.len() via parse_elems_dec
{
    if i >= s.len() || s[i] != '"' {
        None
    } else {
        match scan_str(s, i + 1) {
            None => None,
            Some(end) => {
                let content = s.subrange(i + 1, end);
                let j = skip_ws(s, end + 1);
                if j < s.len() && s[j] == ',' {
                    let k = skip_ws(s, j + 1);
                    if k <= s.len() {
                        match parse_elems(s, k) {
                            None => None,
                            Some((rest, p)) => Some((seq![content] + rest, p)),
                        }
                    } else {
                        None
                    }
                } else if j < s.len() && s[j] == ']' {
                    Some((seq![content], j + 1))
                } else {
                    None
                }
            },
        }
    }
}

#[via_fn]
proof fn parse_elems_dec(s: Seq<char>, i: int) {
    if 0 <= i < s.len() && s[i] == '"' {
        if scan_str(s, i + 1) is Some {
            lemma_scan_str(s, i + 1);
            let end = scan_str(s, i + 1)->0;
            lemma_skip_ws(s, end + 1);
            let j = skip_ws(s, end + 1);
            if j < s.len() && s[j] == ',' {
                lemma_skip_ws(s, j + 1);
            }
        }
    }
}

/// Parses the whole allow-list document: one object, one `policy_ids` key,
/// one array of plain strings, nothing after it.
pub open spec fn parse_doc(s: Seq<char>) -> Option<Seq<Seq<char>>> {
    let i0 = skip_ws(s, 0);
    if !(i0 < s.len() && s[i0] == '{') {
        None
    } else {
        let i1 = skip_ws(s, i0 + 1);
        if !(i1 < s.len() && s[i1] == '"') {
            None
        } else {
            match scan_str(s, i1 + 1) {
                None => None,
                Some(kend) => {
                    if s.subrange(i1 + 1, kend) != policy_ids_key() {
                        None
                    } else {
                        let i2 = skip_ws(s, kend + 1);
                        if !(i2 < s.len() && s[i2] == ':') {
                            None
                        } else {
                            let i3 = skip_ws(s, i2 + 1);
                            if !(i3 < s.len() && s[i3] == '[') {
                                None
                            } else {
                                let i4 = skip_ws(s, i3 + 1);
                                if i4 < s.len() && s[i4] == ']' {
                                    let i5 = skip_ws(s, i4 + 1);
                                    if i5 < s.len() && s[i5] == '}' && skip_ws(s, i5 + 1)
                                        == s.len() {
                                        Some(Seq::empty())
                                    } else {
                                        None
                                    }
                                } else {
                                    match parse_elems(s, i4) {
                                        None => None,
                                        Some((ids, p)) => {
                                            if p <= s.len() {
                                                let i5 = skip_ws(s, p);
                                                if i5 < s.len() && s[i5] == '}' && skip_ws(
                                                    s,
                                                    i5 + 1,
                                                ) == s.len() {
                                                    Some(ids)
                                                } else {
                                                    None
                                                }
                                            } else {
                                                None
                                            }
                                        },
                                    }
                                }
                            }
                        }
                    }
                },
            }
        }
    }
}

/// Whether a character is insignificant whitespace.
fn is_ws_exec(c: char) -> (r: bool)
    ensures
        r == is_ws(c),
{
    c == ' ' || c == '\t' || c == '\n' || c == '\r'
}

/// The first position at or after `i` that holds no whitespace.
fn skip_ws_exec(s: &Vec<char>, i: usize) -> (r: usize)
    requires
        i <= s@.len(),
    ensures
        r == skip_ws(s@, i as int),
        i <= r <= s@.len(),
    decreases s@.len() - i,
{
    if i < s.len() && is_ws_exec(s[i]) {
        skip_ws_exec(s, i + 1)
    } else {
        i
    }
}

/// The closing quote of a string body starting at `i`, if the body is plain.
fn scan_str_exec(s: &Vec<char>, i: usize) -> (r: Option<usize>)
    requires
        i <= s@.len(),
    ensures
        r is Some <==> scan_str(s@, i as int) is Some,
        r matches Some(e) ==> e as int == scan_str(s@, i as int)->0 && i <= e < s@.len(),
    decreases s@.len() - i,
{
    if i >= s.len() {
        None
    } else if s[i] == '"' {
        Some(i)
    } else if s[i] != '\\' && (s[i] as u32) >= 32 {
        scan_str_exec(s, i + 1)
    } else {
        None
    }
}

/// Copies one stretch of characters out of the text.
fn sub_chars(s: &Vec<char>, a: usize, b: usize) -> (r: Vec<char>)
    requires
        a <= b <= s@.len(),
    ensures
        r@ == s@.subrange(a as int, b as int),
{
    let mut r: Vec<char> = Vec::new();
    let mut i: usize = a;
    while i < b
        invariant
            a <= i <= b <= s@.len(),
            r@ == s@.subrange(a as int, i as int),
        decreases b - i,
    {
        r.push(s[i]);
        proof {
            assert(r@ =~= s@.subrange(a as int, i + 1));
        }
        i = i + 1;
    }
    proof {
        assert(r@ =~= s@.subrange(a as int, b as int));
    }
    r
}

/// Checks that a stretch of the text spells the `policy_ids` key.
fn is_policy_ids_key(s: &Vec<char>, a: usize, b: usize) -> (r: bool)
    requires
        a <= b <= s@.len(),
    ensures
        r == (s@.subrange(a as int, b as int) == policy_ids_key()),
{
    let key: [char; 10] = ['p', 'o', 'l', 'i', 'c', 'y', '_', 'i', 'd', 's'];
    if b - a != 10 {
        proof {
            assert(s@.subrange(a as int, b as int).len() != policy_ids_key().len());
        }
        return false;
    }
    let mut i: usize = 0;
    while i < 10
        invariant
            i <= 10,
            a + 10 == b,
            b <= s@.len(),
            key@ == policy_ids_key(),
            forall|j: int| 0 <= j < i ==> s@.subrange(a as int, b as int)[j] == policy_ids_key()[j],
        decreases 10 - i,
    {
        if s[a + i] != key[i] {
            proof {
                assert(s@.subrange(a as int, b as int)[i as int] == s@[a + i]);
            }
            return false;
        }
        proof {
            assert(s@.subrange(a as int, b as int)[i as int] == s@[a + i]);
        }
        i = i + 1;
    }
    proof {
        assert(s@.subrange(a as int, b as int) =~= policy_ids_key());
    }
    true
}

/// Parses the array elements from one string literal onwards; mirrors
/// `parse_elems`.
fn parse_elems_exec(s: &Vec<char>, i: usize) -> (r: Option<(Vec<String>, usize)>)
    requires
        i <= s@.len(),
    ensures
        r is Some <==> parse_elems(s@, i as int) is Some,
        r matches Some(p) ==> ({
            &&& p.0@.map_values(|t: String| t@) == (parse_elems(s@, i as int)->0).0
            &&& p.1 as int == (parse_elems(s@, i as int)->0).1
            &&& p.1 <= s@.len()
        }),
    decreases s@.len() - i,
{
    if i >= s.len() || s[i] != '"' {
        None
    } else {
        match scan_str_exec(s, i + 1) {
            None => None,
            Some(end) => {
                proof {
                    lemma_scan_str(s@, i + 1);
                }
                let content = sub_chars(s, i + 1, end);
                let j = skip_ws_exec(s, end + 1);
                if j < s.len() && s[j] == ',' {
                    let k = skip_ws_exec(s, j + 1);
                    match parse_elems_exec(s, k) {
                        None => None,
                        Some((rest, p)) => {
                            let mut out: Vec<String> = Vec::new();
                            out.push(string_from_chars(&content));
                            let mut rest_mut = rest;
                            out.append(&mut rest_mut);
                            proof {
                                let sp = (parse_elems(s@, i as int)->0).0;
                                assert(out@.map_values(|t: String| t@) =~= sp);
                            }
                            Some((out, p))
                        },
                    }
                } else if j < s.len() && s[j] == ']' {
                    let mut out: Vec<String> = Vec::new();
                    out.push(string_from_chars(&content));
                    proof {
                        let sp = (parse_elems(s@, i as int)->0).0;
                        assert(out@.map_values(|t: String| t@) =~= sp);
                    }
                    Some((out, j + 1))
                } else {
                    None
                }
            },
        }
    }
}

/// Parses the whole allow-list document; mirrors `parse_doc`.
pub fn parse_doc_exec(text: &str) -> (r: Option<Vec<String>>)
    ensures
        r is Some <==> parse_doc(text@) is Some,
        r matches Some(v) ==> v@.map_values(|t: String| t@) == parse_doc(text@)->0,
{
    let s = chars_of(text);
    let i0 = skip_ws_exec(&s, 0);
    if !(i0 < s.len() && s[i0] == '{') {
        return None;
    }
    let i1 = skip_ws_exec(&s, i0 + 1);
    if !(i1 < s.len() && s[i1] == '"') {
        return None;
    }
    let kend = match scan_str_exec(&s, i1 + 1) {
        None => {
            return None;
        },
        Some(e) => e,
    };
    proof {
        lemma_scan_str(s@, i1 + 1);
    }
    if !is_policy_ids_key(&s, i1 + 1, kend) {
        return None;
    }
    let i2 = skip_ws_exec(&s, kend + 1);
    if !(i2 < s.len() && s[i2] == ':') {
        return None;
    }
    let i3 = skip_ws_exec(&s, i2 + 1);
    if !(i3 < s.len() && s[i3] == '[') {
        return None;
    }
    let i4 = skip_ws_exec(&s, i3 + 1);
    if i4 < s.len() && s[i4] == ']' {
        let i5 = skip_ws_exec(&s, i4 + 1);
        if i5 < s.len() && s[i5] == '}' && skip_ws_exec(&s, i5 + 1) == s.len() {
            let out: Vec<String> = Vec::new();
            proof {
                assert(out@.map_values(|t: String| t@) =~= parse_doc(text@)->0);
            }
            Some(out)
        } else {
            None
        }
    } else {
        match parse_elems_exec(&s, i4) {
            None => None,
            Some((ids, p)) => {
                let i5 = skip_ws_exec(&s, p);
                if i5 < s.len() && s[i5] == '}' && skip_ws_exec(&s, i5 + 1) == s.len() {
                    Some(ids)
                } else {
                    None
                }
            },
        }
    }
}

} // verus!
