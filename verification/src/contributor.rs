use vstd::prelude::*;

verus! {

/// An author or maintainer entry: either a plain label, or a name/email pair
/// extracted from the `name="..."`/`email="..."` mini-grammar.
#[derive(Debug, Clone, PartialEq, Eq)]
pub enum Contributor {
    Flat(String),
    Complex { name: String, email: String },
}

/// A word character of the capture grammar: ASCII letter, digit or
/// underscore. The grammar's classes are deliberately ASCII: the capture
/// syntax itself (`name="`, `email="`, quotes) is ASCII, and a token whose
/// captured text would need characters beyond ASCII falls through to the
/// verbatim rule instead of matching.
pub open spec fn is_word_char(c: char) -> bool {
    ||| ('a' as u32) <= (c as u32) && (c as u32) <= ('z' as u32)
    ||| ('A' as u32) <= (c as u32) && (c as u32) <= ('Z' as u32)
    ||| ('0' as u32) <= (c as u32) && (c as u32) <= ('9' as u32)
    ||| c == '_'
}

/// A whitespace character of the capture grammar: space, tab, newline,
/// carriage return, vertical tab and form feed (ASCII, as the word class).
pub open spec fn is_space_char(c: char) -> bool {
    c == ' ' || c == '\t' || c == '\n' || c == '\r' || c == '\u{b}' || c == '\u{c}'
}

/// A character allowed inside a `name="..."` capture: word characters,
/// whitespace, hyphen and dot.
pub open spec fn is_name_char(c: char) -> bool {
    is_word_char(c) || is_space_char(c) || c == '-' || c == '.'
}

/// A character allowed inside an `email="..."` capture: everything a name
/// capture allows, plus `@`.
pub open spec fn is_email_char(c: char) -> bool {
    is_name_char(c) || c == '@'
}

/// The character class of a capture, chosen by which pattern is sought.
pub open spec fn capture_char_ok(email: bool, c: char) -> bool {
    if email {
        is_email_char(c)
    } else {
        is_name_char(c)
    }
}

/// The literal text that opens a capture: `name="` or `email="`.
pub open spec fn pattern_prefix(email: bool) -> Seq<char> {
    if email {
        seq!['e', 'm', 'a', 'i', 'l', '=', '"']
    } else {
        seq!['n', 'a', 'm', 'e', '=', '"']
    }
}

/// The pattern matches inside `s` starting at `i` and closing its quote at
/// `j`: the opening text stands at `i`, every character between the quotes
/// lies in the capture's class, and `s[j]` is the closing quote.
pub open spec fn match_at(s: Seq<char>, email: bool, i: int, j: int) -> bool {
    let p = pattern_prefix(email);
    &&& 0 <= i
    &&& i + p.len() <= j < s.len()
    &&& s.subrange(i, i + p.len() as int) == p
    &&& s[j] == '"'
    &&& forall|k: int| i + p.len() <= k < j ==> capture_char_ok(email, s[k])
}

/// The pattern matches somewhere in `s` starting at `i`.
pub open spec fn match_from(s: Seq<char>, email: bool, i: int) -> bool {
    exists|j: int| match_at(s, email, i, j)
}

/// `s` contains a well-formed capture of the requested kind.
pub open spec fn has_capture(s: Seq<char>, email: bool) -> bool {
    exists|i: int| match_from(s, email, i)
}

/// `cap` is the text captured by the leftmost match of the pattern in `s`.
pub open spec fn is_capture(s: Seq<char>, email: bool, cap: Seq<char>) -> bool {
    exists|i: int, j: int|
        {
            &&& match_at(s, email, i, j)
            &&& forall|i2: int| 0 <= i2 < i ==> !match_from(s, email, i2)
            &&& cap == s.subrange(i + pattern_prefix(email).len() as int, j)
        }
}

/// The decision table of the contributor parser: both captures give
/// `Complex`, exactly one gives `Flat` of that capture, neither gives `Flat`
/// of the verbatim token.
pub open spec fn parses_to(t: Seq<char>, c: Contributor) -> bool {
    if has_capture(t, false) && has_capture(t, true) {
        c matches Contributor::Complex { name, email } && is_capture(t, false, name@)
            && is_capture(t, true, email@)
    } else if has_capture(t, false) {
        c matches Contributor::Flat(x) && is_capture(t, false, x@)
    } else if has_capture(t, true) {
        c matches Contributor::Flat(x) && is_capture(t, true, x@)
    } else {
        c matches Contributor::Flat(x) && x@ == t
    }
}

/// Decides membership in the capture's character class.
fn capture_char_ok_x(email: bool, c: char) -> (b: bool)
    ensures
        b == capture_char_ok(email, c),
{
    let u = c as u32;
    let word = (('a' as u32) <= u && u <= ('z' as u32)) || (('A' as u32) <= u && u <= ('Z' as u32))
        || (('0' as u32) <= u && u <= ('9' as u32)) || c == '_';
    let space = c == ' ' || c == '\t' || c == '\n' || c == '\r' || c == '\u{b}' || c == '\u{c}';
    let name = word || space || c == '-' || c == '.';
    if email {
        name || c == '@'
    } else {
        name
    }
}

/// Finds the leftmost match of the capture pattern in `s` and returns its
/// captured text, or `None` when the pattern matches nowhere.
fn find_capture(s: &str, pat: &str, email: bool) -> (r: Option<String>)
    requires
        pat@ == pattern_prefix(email),
    ensures
        r is Some <==> has_capture(s@, email),
        r matches Some(cap) ==> is_capture(s@, email, cap@),
{
    let n = s.unicode_len();
    let plen = pat.unicode_len();
    if n < plen {
        proof {
            assert forall|i: int| !match_from(s@, email, i) by {
                assert forall|j: int| !match_at(s@, email, i, j) by {}
            }
        }
        return None;
    }
    let mut i: usize = 0;
    while i <= n - plen
        invariant
            pat@ == pattern_prefix(email),
            plen == pattern_prefix(email).len(),
            n == s@.len(),
            0 < plen <= n,
            i <= n - plen + 1,
            forall|i2: int| 0 <= i2 < i ==> !match_from(s@, email, i2),
        decreases n - i,
    {
        // does the opening text stand at position i?
        let mut k: usize = 0;
        let mut prefix_ok = true;
        while k < plen
            invariant
                pat@ == pattern_prefix(email),
                plen == pattern_prefix(email).len(),
                n == s@.len(),
                i + plen <= n,
                k <= plen,
                prefix_ok <==> (forall|k2: int| 0 <= k2 < k ==> s@[i + k2] == pat@[k2]),
            decreases plen - k,
        {
            if s.get_char(i + k) != pat.get_char(k) {
                prefix_ok = false;
                proof {
                    assert(!(s@[i + k] == pat@[k as int]));
                }
                k = plen;
            } else {
                k = k + 1;
            }
        }
        if prefix_ok {
            // scan the capture's class run that follows the opening text
            let start = i + plen;
            let mut j = start;
            loop
                invariant_except_break
                    n == s@.len(),
                    start <= j <= n,
                    forall|k2: int| start <= k2 < j ==> capture_char_ok(email, s@[k2]),
                ensures
                    n == s@.len(),
                    start <= j <= n,
                    forall|k2: int| start <= k2 < j ==> capture_char_ok(email, s@[k2]),
                    j == n || !capture_char_ok(email, s@[j as int]),
                decreases n - j,
            {
                if j == n {
                    break ;
                }
                if !capture_char_ok_x(email, s.get_char(j)) {
                    break ;
                }
                j = j + 1;
            }
            if j < n && s.get_char(j) == '"' {
                let cap = s.substring_char(start, j);
                proof {
                    assert(s@.subrange(i as int, i + plen) == pat@) by {
                        assert(s@.subrange(i as int, i + plen) =~= pat@);
                    }
                    assert(match_at(s@, email, i as int, j as int));
                    assert(match_from(s@, email, i as int));
                    assert(has_capture(s@, email));
                    assert(cap@ == s@.subrange(
                        i + pattern_prefix(email).len() as int,
                        j as int,
                    ));
                    assert(is_capture(s@, email, cap@));
                }
                return Some(cap.to_owned());
            } else {
                // the class run is not closed by a quote: no match starts at i
                proof {
                    assert(!capture_char_ok(email, '"'));
                    assert forall|j2: int| !match_at(s@, email, i as int, j2) by {
                        if match_at(s@, email, i as int, j2) {
                            if j2 < j {
                                assert(capture_char_ok(email, s@[j2]));
                            } else if j2 == j {
                                assert(j < n && s@[j as int] == '"');
                            } else {
                                assert(start <= j < j2);
                                assert(capture_char_ok(email, s@[j as int]));
                            }
                        }
                    }
                }
            }
        } else {
            // the opening text does not stand at i: no match starts at i
            proof {
                let k_bad = choose|k2: int| 0 <= k2 < plen && s@[i + k2] != pat@[k2];
                assert forall|j2: int| !match_at(s@, email, i as int, j2) by {
                    if match_at(s@, email, i as int, j2) {
                        assert(s@.subrange(i as int, i + plen)[k_bad] == pat@[k_bad]);
                    }
                }
            }
        }
        i = i + 1;
    }
    proof {
        assert forall|i2: int| !match_from(s@, email, i2) by {
            if 0 <= i2 < i {
            } else {
                assert forall|j2: int| !match_at(s@, email, i2, j2) by {}
            }
        }
    }
    None
}

/// Turns one semicolon-split token into a contributor record by the decision
/// table: both a `name="..."` and an `email="..."` capture give `Complex`,
/// exactly one capture gives `Flat` of the captured text, and a token with
/// neither capture is kept verbatim as a `Flat` label. The capture classes
/// are ASCII (see `is_word_char`); a name or address written with other
/// characters is kept verbatim.
pub fn parse_contributor(token: &str) -> (r: Contributor)
    ensures
        parses_to(token@, r),
{
    proof {
        reveal_strlit("name=\"");
        reveal_strlit("email=\"");
        assert("name=\""@ =~= pattern_prefix(false));
        assert("email=\""@ =~= pattern_prefix(true));
    }
    let name = find_capture(token, "name=\"", false);
    let email = find_capture(token, "email=\"", true);
    match (name, email) {
        (Some(n), Some(e)) => Contributor::Complex { name: n, email: e },
        (Some(n), None) => Contributor::Flat(n),
        (None, Some(e)) => Contributor::Flat(e),
        (None, None) => Contributor::Flat(token.to_owned()),
    }
}

/// Two equal contributor records, compared field by field through their
/// views.
pub open spec fn same_contributor(c1: Contributor, c2: Contributor) -> bool {
    ||| (c1 matches Contributor::Flat(x) && (c2 matches Contributor::Flat(y) && x@ == y@))
    ||| (c1 matches Contributor::Complex { name: n1, email: e1 } && (c2 matches
        Contributor::Complex { name: n2, email: e2 } && n1@ == n2@ && e1@ == e2@))
}

/// The leftmost capture of a pattern is unique: any two captured texts for
/// the same token and pattern are the same text.
pub proof fn lemma_capture_unique(s: Seq<char>, email: bool, cap1: Seq<char>, cap2: Seq<char>)
    requires
        is_capture(s, email, cap1),
        is_capture(s, email, cap2),
    ensures
        cap1 == cap2,
{
    let plen = pattern_prefix(email).len() as int;
    let (i1, j1) = choose|i: int, j: int|
        {
            &&& match_at(s, email, i, j)
            &&& forall|i2: int| 0 <= i2 < i ==> !match_from(s, email, i2)
            &&& cap1 == s.subrange(i + plen, j)
        };
    let (i2, j2) = choose|i: int, j: int|
        {
            &&& match_at(s, email, i, j)
            &&& forall|i2: int| 0 <= i2 < i ==> !match_from(s, email, i2)
            &&& cap2 == s.subrange(i + plen, j)
        };
    assert(match_from(s, email, i1));
    assert(match_from(s, email, i2));
    assert(i1 == i2);
    assert(!capture_char_ok(email, '"'));
    if j1 < j2 {
        assert(capture_char_ok(email, s[j1]));
    } else if j2 < j1 {
        assert(capture_char_ok(email, s[j2]));
    }
}

/// The decision table pins the parse result: any two contributor records
/// that parse from the same token agree, field by field.
pub proof fn lemma_parse_deterministic(t: Seq<char>, c1: Contributor, c2: Contributor)
    requires
        parses_to(t, c1),
        parses_to(t, c2),
    ensures
        same_contributor(c1, c2),
{
    if has_capture(t, false) && has_capture(t, true) {
        let (n1, e1) = (c1->Complex_name, c1->Complex_email);
        let (n2, e2) = (c2->Complex_name, c2->Complex_email);
        lemma_capture_unique(t, false, n1@, n2@);
        lemma_capture_unique(t, true, e1@, e2@);
    } else if has_capture(t, false) {
        lemma_capture_unique(t, false, c1->Flat_0@, c2->Flat_0@);
    } else if has_capture(t, true) {
        lemma_capture_unique(t, true, c1->Flat_0@, c2->Flat_0@);
    }
}

} // verus!
