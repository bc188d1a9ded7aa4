use vstd::prelude::*;
use crate::contributor::Contributor;
use crate::pyproject::{BuildSystem, Project};

verus! {

// ---------------------------------------------------------------------------
// The document model: what the serialized manifest looks like, line by line.
// ---------------------------------------------------------------------------

/// A character that a basic string cannot carry verbatim: the quote, the
/// backslash, and every control character.
pub open spec fn is_special(c: char) -> bool {
    c == '"' || c == '\\' || (c as u32) < 0x20 || (c as u32) == 0x7f
}

/// The lower-case hexadecimal digit for a value below sixteen.
pub open spec fn hex_digit(n: int) -> char {
    if n == 0 {
        '0'
    } else if n == 1 {
        '1'
    } else if n == 2 {
        '2'
    } else if n == 3 {
        '3'
    } else if n == 4 {
        '4'
    } else if n == 5 {
        '5'
    } else if n == 6 {
        '6'
    } else if n == 7 {
        '7'
    } else if n == 8 {
        '8'
    } else if n == 9 {
        '9'
    } else if n == 10 {
        'a'
    } else if n == 11 {
        'b'
    } else if n == 12 {
        'c'
    } else if n == 13 {
        'd'
    } else if n == 14 {
        'e'
    } else {
        'f'
    }
}

/// The escaped form of one character inside a quoted string.
pub open spec fn esc_char(c: char) -> Seq<char> {
    if c == '"' {
        "\\\""@
    } else if c == '\\' {
        "\\\\"@
    } else if c == '\n' {
        "\\n"@
    } else if c == '\r' {
        "\\r"@
    } else if c == '\t' {
        "\\t"@
    } else if (c as u32) < 0x20 || (c as u32) == 0x7f {
        "\\u00"@ + seq![hex_digit(((c as u32) / 16) as int), hex_digit(((c as u32) % 16) as int)]
    } else {
        seq![c]
    }
}

/// The body of a quoted string: every character escaped as needed.
pub open spec fn toml_escape(s: Seq<char>) -> Seq<char>
    decreases s.len(),
{
    if s.len() == 0 {
        Seq::empty()
    } else {
        esc_char(s[0]) + toml_escape(s.drop_first())
    }
}

/// A quoted string value.
pub open spec fn quoted(s: Seq<char>) -> Seq<char> {
    "\""@ + toml_escape(s) + "\""@
}

/// Already-rendered array elements joined by commas.
pub open spec fn comma_join(elems: Seq<Seq<char>>) -> Seq<char>
    decreases elems.len(),
{
    if elems.len() == 0 {
        Seq::empty()
    } else if elems.len() == 1 {
        elems[0]
    } else {
        elems[0] + ", "@ + comma_join(elems.drop_first())
    }
}

/// A `key = "value"` line; `pre` is the key text together with ` = `.
pub open spec fn line_str(pre: Seq<char>, value: Seq<char>) -> Seq<char> {
    pre + quoted(value)
}

/// A `key = [elements]` line; `pre` is the key text together with ` = `.
pub open spec fn line_arr(pre: Seq<char>, elems: Seq<Seq<char>>) -> Seq<char> {
    pre + "["@ + comma_join(elems) + "]"@
}

/// An optional string field: its line when the value is non-empty, no line
/// at all when it is empty.
pub open spec fn opt_str(pre: Seq<char>, value: Seq<char>) -> Seq<Seq<char>> {
    if value.len() == 0 {
        seq![]
    } else {
        seq![line_str(pre, value)]
    }
}

/// An optional list field: its line when the list is non-empty, no line at
/// all when it is empty.
pub open spec fn opt_arr(pre: Seq<char>, elems: Seq<Seq<char>>) -> Seq<Seq<char>> {
    if elems.len() == 0 {
        seq![]
    } else {
        seq![line_arr(pre, elems)]
    }
}

/// How one contributor is rendered inside an array: a plain label as a
/// single string, a name/email pair as an inline table.
pub open spec fn contributor_toml(c: Contributor) -> Seq<char> {
    match c {
        Contributor::Flat(s) => quoted(s@),
        Contributor::Complex { name, email } => "{ name = "@ + quoted(name@) + ", email = "@
            + quoted(email@) + " }"@,
    }
}

/// Rendered elements of a string list.
pub open spec fn str_elems(l: Seq<String>) -> Seq<Seq<char>> {
    l.map_values(|s: String| quoted(s@))
}

/// Rendered elements of a contributor list.
pub open spec fn contrib_elems(l: Seq<Contributor>) -> Seq<Seq<char>> {
    l.map_values(|c: Contributor| contributor_toml(c))
}

/// The lines of the document: each line followed by a newline.
pub open spec fn unlines(lines: Seq<Seq<char>>) -> Seq<char>
    decreases lines.len(),
{
    if lines.len() == 0 {
        Seq::empty()
    } else {
        lines[0] + "\n"@ + unlines(lines.drop_first())
    }
}

proof fn lemma_unlines_app(a: Seq<Seq<char>>, b: Seq<Seq<char>>)
    ensures
        unlines(a + b) == unlines(a) + unlines(b),
    decreases a.len(),
{
    if a.len() == 0 {
        assert(a + b =~= b);
        assert(unlines(a) + unlines(b) =~= unlines(b));
    } else {
        assert((a + b).drop_first() =~= a.drop_first() + b);
        assert((a + b)[0] == a[0]);
        lemma_unlines_app(a.drop_first(), b);
        assert(unlines(a + b) =~= unlines(a) + unlines(b));
    }
}

// ---------------------------------------------------------------------------
// Escaping and quoting, executable.
// ---------------------------------------------------------------------------

proof fn lemma_escape_app(a: Seq<char>, b: Seq<char>)
    ensures
        toml_escape(a + b) == toml_escape(a) + toml_escape(b),
    decreases a.len(),
{
    if a.len() == 0 {
        assert(a + b =~= b);
        assert(toml_escape(a) + toml_escape(b) =~= toml_escape(b));
    } else {
        assert((a + b).drop_first() =~= a.drop_first() + b);
        assert((a + b)[0] == a[0]);
        lemma_escape_app(a.drop_first(), b);
        assert(toml_escape(a + b) =~= toml_escape(a) + toml_escape(b));
    }
}

/// Text without special characters passes through escaping unchanged.
proof fn lemma_escape_plain(a: Seq<char>)
    requires
        forall|k: int| 0 <= k < a.len() ==> !is_special(a[k]),
    ensures
        toml_escape(a) == a,
    decreases a.len(),
{
    if a.len() == 0 {
    } else {
        assert(!is_special(a[0]));
        assert(esc_char(a[0]) == seq![a[0]]);
        assert forall|k: int| 0 <= k < a.drop_first().len() implies !is_special(
            #[trigger] a.drop_first()[k],
        ) by {
            assert(a.drop_first()[k] == a[k + 1]);
        }
        lemma_escape_plain(a.drop_first());
        assert(toml_escape(a) =~= a);
    }
}

proof fn lemma_escape_one(c: char)
    ensures
        toml_escape(seq![c]) == esc_char(c),
{
    assert(seq![c].drop_first() =~= Seq::<char>::empty());
    assert(toml_escape(Seq::<char>::empty()) == Seq::<char>::empty());
    assert(toml_escape(seq![c]) =~= esc_char(c));
}

fn is_special_x(c: char) -> (b: bool)
    ensures
        b == is_special(c),
{
    c == '"' || c == '\\' || (c as u32) < 0x20 || (c as u32) == 0x7f
}

fn append_hex_digit(out: &mut String, n: u32)
    requires
        n < 16,
    ensures
        final(out)@ == old(out)@ + seq![hex_digit(n as int)],
{
    if n == 0 {
        out.append("0");
    } else if n == 1 {
        out.append("1");
    } else if n == 2 {
        out.append("2");
    } else if n == 3 {
        out.append("3");
    } else if n == 4 {
        out.append("4");
    } else if n == 5 {
        out.append("5");
    } else if n == 6 {
        out.append("6");
    } else if n == 7 {
        out.append("7");
    } else if n == 8 {
        out.append("8");
    } else if n == 9 {
        out.append("9");
    } else if n == 10 {
        out.append("a");
    } else if n == 11 {
        out.append("b");
    } else if n == 12 {
        out.append("c");
    } else if n == 13 {
        out.append("d");
    } else if n == 14 {
        out.append("e");
    } else {
        out.append("f");
    }
    proof {
        reveal_strlit("0");
        reveal_strlit("1");
        reveal_strlit("2");
        reveal_strlit("3");
        reveal_strlit("4");
        reveal_strlit("5");
        reveal_strlit("6");
        reveal_strlit("7");
        reveal_strlit("8");
        reveal_strlit("9");
        reveal_strlit("a");
        reveal_strlit("b");
        reveal_strlit("c");
        reveal_strlit("d");
        reveal_strlit("e");
        reveal_strlit("f");
        assert(out@ =~= old(out)@ + seq![hex_digit(n as int)]);
    }
}

/// Appends the escaped form of `s` to `out`.
fn append_escaped(out: &mut String, s: &str)
    ensures
        final(out)@ == old(out)@ + toml_escape(s@),
{
    let n = s.unicode_len();
    let mut last: usize = 0;
    let mut i: usize = 0;
    while i < n
        invariant
            n == s@.len(),
            last <= i <= n,
            out@ == old(out)@ + toml_escape(s@.subrange(0, last as int)),
            forall|k: int| last <= k < i ==> !is_special(s@[k]),
        decreases n - i,
    {
        let c = s.get_char(i);
        if is_special_x(c) {
            out.append(s.substring_char(last, i));
            if c == '"' {
                out.append("\\\"");
            } else if c == '\\' {
                out.append("\\\\");
            } else if c == '\n' {
                out.append("\\n");
            } else if c == '\r' {
                out.append("\\r");
            } else if c == '\t' {
                out.append("\\t");
            } else {
                let u = c as u32;
                out.append("\\u00");
                append_hex_digit(out, u / 16);
                append_hex_digit(out, u % 16);
            }
            proof {
                let pre = s@.subrange(0, last as int);
                let run = s@.subrange(last as int, i as int);
                lemma_escape_plain(run);
                lemma_escape_app(pre, run);
                assert(pre + run =~= s@.subrange(0, i as int));
                lemma_escape_app(s@.subrange(0, i as int), seq![s@[i as int]]);
                lemma_escape_one(s@[i as int]);
                assert(s@.subrange(0, i as int) + seq![s@[i as int]] =~= s@.subrange(
                    0,
                    i + 1,
                ));
                assert(out@ =~= old(out)@ + toml_escape(s@.subrange(0, i + 1)));
            }
            last = i + 1;
        }
        i = i + 1;
    }
    out.append(s.substring_char(last, n));
    proof {
        let pre = s@.subrange(0, last as int);
        let run = s@.subrange(last as int, n as int);
        lemma_escape_plain(run);
        lemma_escape_app(pre, run);
        assert(pre + run =~= s@);
        assert(out@ =~= old(out)@ + toml_escape(s@));
    }
}

/// Appends `"s"`, escaped and quoted, to `out`.
fn append_quoted(out: &mut String, s: &str)
    ensures
        final(out)@ == old(out)@ + quoted(s@),
{
    out.append("\"");
    append_escaped(out, s);
    out.append("\"");
    proof {
        assert(out@ =~= old(out)@ + quoted(s@));
    }
}

// ---------------------------------------------------------------------------
// The two tables of the document.
// ---------------------------------------------------------------------------

/// The lines of the `[build-system]` table: both fields always present.
pub open spec fn build_lines(b: BuildSystem) -> Seq<Seq<char>> {
    seq![
        "[build-system]"@,
        line_arr("requires = "@, str_elems(b.requires@)),
        line_str("build-backend = "@, b.build_backend@),
    ]
}

/// The lines of the `[project]` table: name and version always present,
/// every optional field only while non-empty.
pub open spec fn project_lines(p: Project) -> Seq<Seq<char>> {
    seq![
        "[project]"@,
        line_str("name = "@, p.name@),
        line_str("version = "@, p.version@),
    ] + opt_str("description = "@, p.description@) + opt_str("readme = "@, p.readme@) + opt_str(
        "requires-python = "@,
        p.requires_python@,
    ) + opt_str("license = "@, p.license@) + opt_arr("authors = "@, contrib_elems(p.authors@))
        + opt_arr("maintainers = "@, contrib_elems(p.maintainers@)) + opt_arr(
        "keywords = "@,
        str_elems(p.keywords@),
    ) + opt_arr("classifiers = "@, str_elems(p.classifiers@))
}

/// The lines of the whole document: the build-system table, a blank
/// separator line, the project table.
pub open spec fn manifest_lines(b: BuildSystem, p: Project) -> Seq<Seq<char>> {
    build_lines(b) + seq![Seq::<char>::empty()] + project_lines(p)
}

/// The serialized document text.
pub open spec fn manifest_toml(b: BuildSystem, p: Project) -> Seq<char> {
    unlines(manifest_lines(b, p))
}

// ---------------------------------------------------------------------------
// Executable rendering.
// ---------------------------------------------------------------------------

proof fn lemma_comma_join_push(l: Seq<Seq<char>>, x: Seq<char>)
    requires
        l.len() >= 1,
    ensures
        comma_join(l.push(x)) == comma_join(l) + ", "@ + x,
    decreases l.len(),
{
    if l.len() == 1 {
        assert(l.push(x).drop_first() =~= seq![x]);
        assert(comma_join(seq![x]) == x);
        assert(comma_join(l.push(x)) =~= comma_join(l) + ", "@ + x);
    } else {
        assert(l.push(x).drop_first() =~= l.drop_first().push(x));
        lemma_comma_join_push(l.drop_first(), x);
        assert(comma_join(l.push(x)) =~= comma_join(l) + ", "@ + x);
    }
}

proof fn lemma_unlines_one(x: Seq<char>)
    ensures
        unlines(seq![x]) == x + "\n"@,
{
    assert(seq![x].drop_first() =~= Seq::<Seq<char>>::empty());
    assert(unlines(Seq::<Seq<char>>::empty()) == Seq::<char>::empty());
    assert(unlines(seq![x]) =~= x + "\n"@);
}

/// Appends the comma-joined, quoted elements of a string list.
fn append_str_elems(out: &mut String, items: &Vec<String>)
    ensures
        final(out)@ == old(out)@ + comma_join(str_elems(items@)),
{
    let ghost elems = str_elems(items@);
    if items.len() == 0 {
        proof {
            assert(old(out)@ + comma_join(elems) =~= out@);
        }
        return ;
    }
    append_quoted(out, items[0].as_str());
    proof {
        assert(elems[0] == quoted(items@[0]@));
        assert(elems.take(1) =~= seq![elems[0]]);
        assert(comma_join(elems.take(1)) == elems[0]);
    }
    let mut i: usize = 1;
    while i < items.len()
        invariant
            1 <= i <= items@.len(),
            elems == str_elems(items@),
            elems.len() == items@.len(),
            out@ == old(out)@ + comma_join(elems.take(i as int)),
        decreases items@.len() - i,
    {
        out.append(", ");
        append_quoted(out, items[i].as_str());
        proof {
            assert(elems[i as int] == quoted(items@[i as int]@));
            assert(elems.take(i as int).push(elems[i as int]) =~= elems.take(i + 1));
            lemma_comma_join_push(elems.take(i as int), elems[i as int]);
            assert(out@ =~= old(out)@ + comma_join(elems.take(i + 1)));
        }
        i = i + 1;
    }
    proof {
        assert(elems.take(elems.len() as int) =~= elems);
    }
}

/// Appends one contributor in its array-element form.
fn append_contributor(out: &mut String, c: &Contributor)
    ensures
        final(out)@ == old(out)@ + contributor_toml(*c),
{
    match c {
        Contributor::Flat(s) => {
            append_quoted(out, s.as_str());
        },
        Contributor::Complex { name, email } => {
            out.append("{ name = ");
            append_quoted(out, name.as_str());
            out.append(", email = ");
            append_quoted(out, email.as_str());
            out.append(" }");
            proof {
                assert(out@ =~= old(out)@ + contributor_toml(*c));
            }
        },
    }
}

/// Appends the comma-joined elements of a contributor list.
fn append_contrib_elems(out: &mut String, items: &Vec<Contributor>)
    ensures
        final(out)@ == old(out)@ + comma_join(contrib_elems(items@)),
{
    let ghost elems = contrib_elems(items@);
    if items.len() == 0 {
        proof {
            assert(old(out)@ + comma_join(elems) =~= out@);
        }
        return ;
    }
    append_contributor(out, &items[0]);
    proof {
        assert(elems[0] == contributor_toml(items@[0]));
        assert(elems.take(1) =~= seq![elems[0]]);
        assert(comma_join(elems.take(1)) == elems[0]);
    }
    let mut i: usize = 1;
    while i < items.len()
        invariant
            1 <= i <= items@.len(),
            elems == contrib_elems(items@),
            elems.len() == items@.len(),
            out@ == old(out)@ + comma_join(elems.take(i as int)),
        decreases items@.len() - i,
    {
        out.append(", ");
        append_contributor(out, &items[i]);
        proof {
            assert(elems[i as int] == contributor_toml(items@[i as int]));
            assert(elems.take(i as int).push(elems[i as int]) =~= elems.take(i + 1));
            lemma_comma_join_push(elems.take(i as int), elems[i as int]);
            assert(out@ =~= old(out)@ + comma_join(elems.take(i + 1)));
        }
        i = i + 1;
    }
    proof {
        assert(elems.take(elems.len() as int) =~= elems);
    }
}

/// Appends a `key = "value"` line and its newline.
fn append_line_str(out: &mut String, pre: &str, value: &str)
    ensures
        final(out)@ == old(out)@ + line_str(pre@, value@) + "\n"@,
{
    out.append(pre);
    append_quoted(out, value);
    out.append("\n");
    proof {
        assert(out@ =~= old(out)@ + line_str(pre@, value@) + "\n"@);
    }
}

/// Appends an optional string field: its line while the value is non-empty,
/// nothing while it is empty.
fn append_opt_line_str(out: &mut String, pre: &str, value: &str)
    ensures
        final(out)@ == old(out)@ + unlines(opt_str(pre@, value@)),
{
    if !value.is_empty() {
        append_line_str(out, pre, value);
        proof {
            lemma_unlines_one(line_str(pre@, value@));
            assert(out@ =~= old(out)@ + unlines(opt_str(pre@, value@)));
        }
    } else {
        proof {
            assert(out@ =~= old(out)@ + unlines(opt_str(pre@, value@)));
        }
    }
}

/// Appends a `key = [..]` line of quoted strings and its newline.
fn append_line_str_arr(out: &mut String, pre: &str, items: &Vec<String>)
    ensures
        final(out)@ == old(out)@ + line_arr(pre@, str_elems(items@)) + "\n"@,
{
    out.append(pre);
    out.append("[");
    append_str_elems(out, items);
    out.append("]");
    out.append("\n");
    proof {
        assert(out@ =~= old(out)@ + line_arr(pre@, str_elems(items@)) + "\n"@);
    }
}

/// Appends an optional string-list field.
fn append_opt_line_str_arr(out: &mut String, pre: &str, items: &Vec<String>)
    ensures
        final(out)@ == old(out)@ + unlines(opt_arr(pre@, str_elems(items@))),
{
    if items.len() != 0 {
        append_line_str_arr(out, pre, items);
        proof {
            lemma_unlines_one(line_arr(pre@, str_elems(items@)));
            assert(out@ =~= old(out)@ + unlines(opt_arr(pre@, str_elems(items@))));
        }
    } else {
        proof {
            assert(str_elems(items@).len() == 0);
            assert(out@ =~= old(out)@ + unlines(opt_arr(pre@, str_elems(items@))));
        }
    }
}

/// Appends an optional contributor-list field.
fn append_opt_line_contrib_arr(out: &mut String, pre: &str, items: &Vec<Contributor>)
    ensures
        final(out)@ == old(out)@ + unlines(opt_arr(pre@, contrib_elems(items@))),
{
    if items.len() != 0 {
        out.append(pre);
        out.append("[");
        append_contrib_elems(out, items);
        out.append("]");
        out.append("\n");
        proof {
            lemma_unlines_one(line_arr(pre@, contrib_elems(items@)));
            assert(out@ =~= old(out)@ + unlines(opt_arr(pre@, contrib_elems(items@))));
        }
    } else {
        proof {
            assert(contrib_elems(items@).len() == 0);
            assert(out@ =~= old(out)@ + unlines(opt_arr(pre@, contrib_elems(items@))));
        }
    }
}

/// Serializes the manifest: the build-system table, a blank line, the
/// project table, with every field-omission rule applied.
#[verifier::rlimit(100)]
pub fn render_manifest(b: &BuildSystem, p: &Project) -> (r: String)
    ensures
        r@ == manifest_toml(*b, *p),
{
    let mut out = String::new();
    out.append("[build-system]");
    out.append("\n");
    append_line_str_arr(&mut out, "requires = ", &b.requires);
    append_line_str(&mut out, "build-backend = ", b.build_backend.as_str());
    out.append("\n");
    out.append("[project]");
    out.append("\n");
    append_line_str(&mut out, "name = ", p.name.as_str());
    append_line_str(&mut out, "version = ", p.version.as_str());
    append_opt_line_str(&mut out, "description = ", p.description.as_str());
    append_opt_line_str(&mut out, "readme = ", p.readme.as_str());
    append_opt_line_str(&mut out, "requires-python = ", p.requires_python.as_str());
    append_opt_line_str(&mut out, "license = ", p.license.as_str());
    append_opt_line_contrib_arr(&mut out, "authors = ", &p.authors);
    append_opt_line_contrib_arr(&mut out, "maintainers = ", &p.maintainers);
    append_opt_line_str_arr(&mut out, "keywords = ", &p.keywords);
    append_opt_line_str_arr(&mut out, "classifiers = ", &p.classifiers);
    proof {
        lemma_render_assembly(*b, *p);
        assert(out@ =~= manifest_toml(*b, *p));
    }
    out
}

/// The document text, unfolded into the concatenation of its table
/// segments: what the emitting order of `render_manifest` produces.
#[verifier::rlimit(100)]
proof fn lemma_render_assembly(b: BuildSystem, p: Project)
    ensures
        manifest_toml(b, p) == ("[build-system]"@ + "\n"@ + (line_arr(
            "requires = "@,
            str_elems(b.requires@),
        ) + "\n"@) + (line_str("build-backend = "@, b.build_backend@) + "\n"@) + "\n"@) + (
        "[project]"@ + "\n"@ + (line_str("name = "@, p.name@) + "\n"@) + (line_str(
            "version = "@,
            p.version@,
        ) + "\n"@) + unlines(opt_str("description = "@, p.description@)) + unlines(
            opt_str("readme = "@, p.readme@),
        ) + unlines(opt_str("requires-python = "@, p.requires_python@)) + unlines(
            opt_str("license = "@, p.license@),
        ) + unlines(opt_arr("authors = "@, contrib_elems(p.authors@))) + unlines(
            opt_arr("maintainers = "@, contrib_elems(p.maintainers@)),
        ) + unlines(opt_arr("keywords = "@, str_elems(p.keywords@))) + unlines(
            opt_arr("classifiers = "@, str_elems(p.classifiers@)),
        )),
{
    let bs_hdr = "[build-system]"@;
    let bs_req = line_arr("requires = "@, str_elems(b.requires@));
    let bs_bkd = line_str("build-backend = "@, b.build_backend@);
    let pj_hdr = "[project]"@;
    let pj_name = line_str("name = "@, p.name@);
    let pj_ver = line_str("version = "@, p.version@);
    let base3 = seq![pj_hdr, pj_name, pj_ver];
    let s1 = opt_str("description = "@, p.description@);
    let s2 = opt_str("readme = "@, p.readme@);
    let s3 = opt_str("requires-python = "@, p.requires_python@);
    let s4 = opt_str("license = "@, p.license@);
    let s5 = opt_arr("authors = "@, contrib_elems(p.authors@));
    let s6 = opt_arr("maintainers = "@, contrib_elems(p.maintainers@));
    let s7 = opt_arr("keywords = "@, str_elems(p.keywords@));
    let s8 = opt_arr("classifiers = "@, str_elems(p.classifiers@));
    lemma_unlines_app(build_lines(b) + seq![Seq::<char>::empty()], project_lines(p));
    lemma_unlines_app(build_lines(b), seq![Seq::<char>::empty()]);
    lemma_unlines_one(Seq::<char>::empty());
    assert(Seq::<char>::empty() + "\n"@ =~= "\n"@);
    assert(build_lines(b) =~= seq![bs_hdr] + seq![bs_req] + seq![bs_bkd]);
    lemma_unlines_app(seq![bs_hdr] + seq![bs_req], seq![bs_bkd]);
    lemma_unlines_app(seq![bs_hdr], seq![bs_req]);
    lemma_unlines_one(bs_hdr);
    lemma_unlines_one(bs_req);
    lemma_unlines_one(bs_bkd);
    assert(unlines(build_lines(b) + seq![Seq::<char>::empty()]) == bs_hdr + "\n"@ + (bs_req
        + "\n"@) + (bs_bkd + "\n"@) + "\n"@);
    lemma_unlines_app(base3 + s1 + s2 + s3 + s4 + s5 + s6 + s7, s8);
    lemma_unlines_app(base3 + s1 + s2 + s3 + s4 + s5 + s6, s7);
    lemma_unlines_app(base3 + s1 + s2 + s3 + s4 + s5, s6);
    lemma_unlines_app(base3 + s1 + s2 + s3 + s4, s5);
    lemma_unlines_app(base3 + s1 + s2 + s3, s4);
    lemma_unlines_app(base3 + s1 + s2, s3);
    lemma_unlines_app(base3 + s1, s2);
    lemma_unlines_app(base3, s1);
    assert(base3 =~= seq![pj_hdr] + seq![pj_name] + seq![pj_ver]);
    lemma_unlines_app(seq![pj_hdr] + seq![pj_name], seq![pj_ver]);
    lemma_unlines_app(seq![pj_hdr], seq![pj_name]);
    lemma_unlines_one(pj_hdr);
    lemma_unlines_one(pj_name);
    lemma_unlines_one(pj_ver);
    assert(unlines(project_lines(p)) == pj_hdr + "\n"@ + (pj_name + "\n"@) + (pj_ver + "\n"@)
        + unlines(s1) + unlines(s2) + unlines(s3) + unlines(s4) + unlines(s5) + unlines(s6)
        + unlines(s7) + unlines(s8));
}

// ---------------------------------------------------------------------------
// Field omission: which keys the serialized document carries.
// ---------------------------------------------------------------------------

/// Some line of the document starts with `pre` (the key text with ` = `).
pub open spec fn key_line_present(lines: Seq<Seq<char>>, pre: Seq<char>) -> bool {
    exists|i: int| 0 <= i < lines.len() && pre.is_prefix_of(#[trigger] lines[i])
}

proof fn lemma_key_concat(a: Seq<Seq<char>>, b: Seq<Seq<char>>, pre: Seq<char>)
    ensures
        key_line_present(a + b, pre) <==> (key_line_present(a, pre) || key_line_present(b, pre)),
{
    if key_line_present(a + b, pre) {
        let i = choose|i: int| 0 <= i < (a + b).len() && pre.is_prefix_of(#[trigger] (a + b)[i]);
        if i < a.len() {
            assert(a[i] == (a + b)[i]);
        } else {
            assert(b[i - a.len()] == (a + b)[i]);
        }
    }
    if key_line_present(a, pre) {
        let i = choose|i: int| 0 <= i < a.len() && pre.is_prefix_of(#[trigger] a[i]);
        assert((a + b)[i] == a[i]);
        assert(key_line_present(a + b, pre));
    }
    if key_line_present(b, pre) {
        let i = choose|i: int| 0 <= i < b.len() && pre.is_prefix_of(#[trigger] b[i]);
        assert((a + b)[a.len() + i] == b[i]);
        assert(key_line_present(a + b, pre));
    }
}

proof fn lemma_key_one(x: Seq<char>, pre: Seq<char>)
    ensures
        key_line_present(seq![x], pre) <==> pre.is_prefix_of(x),
{
    assert(seq![x][0] == x);
}

proof fn lemma_prefix_line_str(pre: Seq<char>, v: Seq<char>)
    ensures
        pre.is_prefix_of(line_str(pre, v)),
{
    assert(line_str(pre, v).subrange(0, pre.len() as int) =~= pre);
}

proof fn lemma_prefix_line_arr(pre: Seq<char>, elems: Seq<Seq<char>>)
    ensures
        pre.is_prefix_of(line_arr(pre, elems)),
{
    assert(line_arr(pre, elems).subrange(0, pre.len() as int) =~= pre);
}

proof fn lemma_not_prefix_direct(p: Seq<char>, line: Seq<char>, j: int)
    requires
        0 <= j < p.len(),
        j < line.len(),
        p[j] != line[j],
    ensures
        !p.is_prefix_of(line),
{
    if p.is_prefix_of(line) {
        assert(line.subrange(0, p.len() as int)[j] == line[j]);
    }
}

proof fn lemma_opt_str_absent(p: Seq<char>, pre: Seq<char>, v: Seq<char>, j: int)
    requires
        0 <= j < p.len(),
        j < pre.len(),
        p[j] != pre[j],
    ensures
        !key_line_present(opt_str(pre, v), p),
{
    if v.len() != 0 {
        lemma_key_one(line_str(pre, v), p);
        assert(line_str(pre, v)[j] == pre[j]);
        lemma_not_prefix_direct(p, line_str(pre, v), j);
    }
}

proof fn lemma_opt_arr_absent(p: Seq<char>, pre: Seq<char>, elems: Seq<Seq<char>>, j: int)
    requires
        0 <= j < p.len(),
        j < pre.len(),
        p[j] != pre[j],
    ensures
        !key_line_present(opt_arr(pre, elems), p),
{
    if elems.len() != 0 {
        lemma_key_one(line_arr(pre, elems), p);
        assert(line_arr(pre, elems)[j] == pre[j]);
        lemma_not_prefix_direct(p, line_arr(pre, elems), j);
    }
}

proof fn lemma_opt_str_self(pre: Seq<char>, v: Seq<char>)
    ensures
        key_line_present(opt_str(pre, v), pre) <==> v.len() != 0,
{
    if v.len() != 0 {
        lemma_key_one(line_str(pre, v), pre);
        lemma_prefix_line_str(pre, v);
    }
}

proof fn lemma_opt_arr_self(pre: Seq<char>, elems: Seq<Seq<char>>)
    ensures
        key_line_present(opt_arr(pre, elems), pre) <==> elems.len() != 0,
{
    if elems.len() != 0 {
        lemma_key_one(line_arr(pre, elems), pre);
        lemma_prefix_line_arr(pre, elems);
    }
}

/// Which of the fifteen possible lines of the document the key prefix
/// stands on, if any.
#[verifier::rlimit(100)]
proof fn lemma_key_split(b: BuildSystem, p: Project, pre: Seq<char>)
    ensures
        key_line_present(manifest_lines(b, p), pre) <==> {
            ||| pre.is_prefix_of("[build-system]"@)
            ||| pre.is_prefix_of(line_arr("requires = "@, str_elems(b.requires@)))
            ||| pre.is_prefix_of(line_str("build-backend = "@, b.build_backend@))
            ||| pre.is_prefix_of(Seq::<char>::empty())
            ||| pre.is_prefix_of("[project]"@)
            ||| pre.is_prefix_of(line_str("name = "@, p.name@))
            ||| pre.is_prefix_of(line_str("version = "@, p.version@))
            ||| key_line_present(opt_str("description = "@, p.description@), pre)
            ||| key_line_present(opt_str("readme = "@, p.readme@), pre)
            ||| key_line_present(opt_str("requires-python = "@, p.requires_python@), pre)
            ||| key_line_present(opt_str("license = "@, p.license@), pre)
            ||| key_line_present(opt_arr("authors = "@, contrib_elems(p.authors@)), pre)
            ||| key_line_present(opt_arr("maintainers = "@, contrib_elems(p.maintainers@)), pre)
            ||| key_line_present(opt_arr("keywords = "@, str_elems(p.keywords@)), pre)
            ||| key_line_present(opt_arr("classifiers = "@, str_elems(p.classifiers@)), pre)
        },
{
    let bs_hdr = "[build-system]"@;
    let bs_req = line_arr("requires = "@, str_elems(b.requires@));
    let bs_bkd = line_str("build-backend = "@, b.build_backend@);
    let pj_hdr = "[project]"@;
    let pj_name = line_str("name = "@, p.name@);
    let pj_ver = line_str("version = "@, p.version@);
    let base3 = seq![pj_hdr, pj_name, pj_ver];
    let s1 = opt_str("description = "@, p.description@);
    let s2 = opt_str("readme = "@, p.readme@);
    let s3 = opt_str("requires-python = "@, p.requires_python@);
    let s4 = opt_str("license = "@, p.license@);
    let s5 = opt_arr("authors = "@, contrib_elems(p.authors@));
    let s6 = opt_arr("maintainers = "@, contrib_elems(p.maintainers@));
    let s7 = opt_arr("keywords = "@, str_elems(p.keywords@));
    let s8 = opt_arr("classifiers = "@, str_elems(p.classifiers@));
    lemma_key_concat(build_lines(b) + seq![Seq::<char>::empty()], project_lines(p), pre);
    lemma_key_concat(build_lines(b), seq![Seq::<char>::empty()], pre);
    assert(build_lines(b) =~= seq![bs_hdr] + seq![bs_req] + seq![bs_bkd]);
    lemma_key_concat(seq![bs_hdr] + seq![bs_req], seq![bs_bkd], pre);
    lemma_key_concat(seq![bs_hdr], seq![bs_req], pre);
    lemma_key_one(bs_hdr, pre);
    lemma_key_one(bs_req, pre);
    lemma_key_one(bs_bkd, pre);
    lemma_key_one(Seq::<char>::empty(), pre);
    lemma_key_concat(base3 + s1 + s2 + s3 + s4 + s5 + s6 + s7, s8, pre);
    lemma_key_concat(base3 + s1 + s2 + s3 + s4 + s5 + s6, s7, pre);
    lemma_key_concat(base3 + s1 + s2 + s3 + s4 + s5, s6, pre);
    lemma_key_concat(base3 + s1 + s2 + s3 + s4, s5, pre);
    lemma_key_concat(base3 + s1 + s2 + s3, s4, pre);
    lemma_key_concat(base3 + s1 + s2, s3, pre);
    lemma_key_concat(base3 + s1, s2, pre);
    lemma_key_concat(base3, s1, pre);
    assert(base3 =~= seq![pj_hdr] + seq![pj_name] + seq![pj_ver]);
    lemma_key_concat(seq![pj_hdr] + seq![pj_name], seq![pj_ver], pre);
    lemma_key_concat(seq![pj_hdr], seq![pj_name], pre);
    lemma_key_one(pj_hdr, pre);
    lemma_key_one(pj_name, pre);
    lemma_key_one(pj_ver, pre);
}

#[verifier::rlimit(100)]
proof fn lemma_omit_description(b: BuildSystem, p: Project)
    ensures
        key_line_present(manifest_lines(b, p), "description = "@) <==> p.description@.len() != 0,
{
    let pre = "description = "@;
    reveal_strlit("[build-system]");
    reveal_strlit("[project]");
    reveal_strlit("requires = ");
    reveal_strlit("build-backend = ");
    reveal_strlit("name = ");
    reveal_strlit("version = ");
    reveal_strlit("description = ");
    reveal_strlit("readme = ");
    reveal_strlit("requires-python = ");
    reveal_strlit("license = ");
    reveal_strlit("authors = ");
    reveal_strlit("maintainers = ");
    reveal_strlit("keywords = ");
    reveal_strlit("classifiers = ");
    lemma_key_split(b, p, pre);
    lemma_not_prefix_direct(pre, "[build-system]"@, 0);
    assert(line_arr("requires = "@, str_elems(b.requires@))[0] == "requires = "@[0]);
    lemma_not_prefix_direct(pre, line_arr("requires = "@, str_elems(b.requires@)), 0);
    assert(line_str("build-backend = "@, b.build_backend@)[0] == "build-backend = "@[0]);
    lemma_not_prefix_direct(pre, line_str("build-backend = "@, b.build_backend@), 0);
    assert(!pre.is_prefix_of(Seq::<char>::empty()));
    lemma_not_prefix_direct(pre, "[project]"@, 0);
    assert(line_str("name = "@, p.name@)[0] == "name = "@[0]);
    lemma_not_prefix_direct(pre, line_str("name = "@, p.name@), 0);
    assert(line_str("version = "@, p.version@)[0] == "version = "@[0]);
    lemma_not_prefix_direct(pre, line_str("version = "@, p.version@), 0);
    lemma_opt_str_self(pre, p.description@);
    lemma_opt_str_absent(pre, "readme = "@, p.readme@, 0);
    lemma_opt_str_absent(pre, "requires-python = "@, p.requires_python@, 0);
    lemma_opt_str_absent(pre, "license = "@, p.license@, 0);
    lemma_opt_arr_absent(pre, "authors = "@, contrib_elems(p.authors@), 0);
    lemma_opt_arr_absent(pre, "maintainers = "@, contrib_elems(p.maintainers@), 0);
    lemma_opt_arr_absent(pre, "keywords = "@, str_elems(p.keywords@), 0);
    lemma_opt_arr_absent(pre, "classifiers = "@, str_elems(p.classifiers@), 0);
}

#[verifier::rlimit(100)]
proof fn lemma_omit_readme(b: BuildSystem, p: Project)
    ensures
        key_line_present(manifest_lines(b, p), "readme = "@) <==> p.readme@.len() != 0,
{
    let pre = "readme = "@;
    reveal_strlit("[build-system]");
    reveal_strlit("[project]");
    reveal_strlit("requires = ");
    reveal_strlit("build-backend = ");
    reveal_strlit("name = ");
    reveal_strlit("version = ");
    reveal_strlit("description = ");
    reveal_strlit("readme = ");
    reveal_strlit("requires-python = ");
    reveal_strlit("license = ");
    reveal_strlit("authors = ");
    reveal_strlit("maintainers = ");
    reveal_strlit("keywords = ");
    reveal_strlit("classifiers = ");
    lemma_key_split(b, p, pre);
    lemma_not_prefix_direct(pre, "[build-system]"@, 0);
    assert(line_arr("requires = "@, str_elems(b.requires@))[2] == "requires = "@[2]);
    lemma_not_prefix_direct(pre, line_arr("requires = "@, str_elems(b.requires@)), 2);
    assert(line_str("build-backend = "@, b.build_backend@)[0] == "build-backend = "@[0]);
    lemma_not_prefix_direct(pre, line_str("build-backend = "@, b.build_backend@), 0);
    assert(!pre.is_prefix_of(Seq::<char>::empty()));
    lemma_not_prefix_direct(pre, "[project]"@, 0);
    assert(line_str("name = "@, p.name@)[0] == "name = "@[0]);
    lemma_not_prefix_direct(pre, line_str("name = "@, p.name@), 0);
    assert(line_str("version = "@, p.version@)[0] == "version = "@[0]);
    lemma_not_prefix_direct(pre, line_str("version = "@, p.version@), 0);
    lemma_opt_str_absent(pre, "description = "@, p.description@, 0);
    lemma_opt_str_self(pre, p.readme@);
    lemma_opt_str_absent(pre, "requires-python = "@, p.requires_python@, 2);
    lemma_opt_str_absent(pre, "license = "@, p.license@, 0);
    lemma_opt_arr_absent(pre, "authors = "@, contrib_elems(p.authors@), 0);
    lemma_opt_arr_absent(pre, "maintainers = "@, contrib_elems(p.maintainers@), 0);
    lemma_opt_arr_absent(pre, "keywords = "@, str_elems(p.keywords@), 0);
    lemma_opt_arr_absent(pre, "classifiers = "@, str_elems(p.classifiers@), 0);
}

#[verifier::rlimit(100)]
proof fn lemma_omit_requires_python(b: BuildSystem, p: Project)
    ensures
        key_line_present(manifest_lines(b, p), "requires-python = "@) <==> p.requires_python@.len() != 0,
{
    let pre = "requires-python = "@;
    reveal_strlit("[build-system]");
    reveal_strlit("[project]");
    reveal_strlit("requires = ");
    reveal_strlit("build-backend = ");
    reveal_strlit("name = ");
    reveal_strlit("version = ");
    reveal_strlit("description = ");
    reveal_strlit("readme = ");
    reveal_strlit("requires-python = ");
    reveal_strlit("license = ");
    reveal_strlit("authors = ");
    reveal_strlit("maintainers = ");
    reveal_strlit("keywords = ");
    reveal_strlit("classifiers = ");
    lemma_key_split(b, p, pre);
    lemma_not_prefix_direct(pre, "[build-system]"@, 0);
    assert(line_arr("requires = "@, str_elems(b.requires@))[8] == "requires = "@[8]);
    lemma_not_prefix_direct(pre, line_arr("requires = "@, str_elems(b.requires@)), 8);
    assert(line_str("build-backend = "@, b.build_backend@)[0] == "build-backend = "@[0]);
    lemma_not_prefix_direct(pre, line_str("build-backend = "@, b.build_backend@), 0);
    assert(!pre.is_prefix_of(Seq::<char>::empty()));
    lemma_not_prefix_direct(pre, "[project]"@, 0);
    assert(line_str("name = "@, p.name@)[0] == "name = "@[0]);
    lemma_not_prefix_direct(pre, line_str("name = "@, p.name@), 0);
    assert(line_str("version = "@, p.version@)[0] == "version = "@[0]);
    lemma_not_prefix_direct(pre, line_str("version = "@, p.version@), 0);
    lemma_opt_str_absent(pre, "description = "@, p.description@, 0);
    lemma_opt_str_absent(pre, "readme = "@, p.readme@, 2);
    lemma_opt_str_self(pre, p.requires_python@);
    lemma_opt_str_absent(pre, "license = "@, p.license@, 0);
    lemma_opt_arr_absent(pre, "authors = "@, contrib_elems(p.authors@), 0);
    lemma_opt_arr_absent(pre, "maintainers = "@, contrib_elems(p.maintainers@), 0);
    lemma_opt_arr_absent(pre, "keywords = "@, str_elems(p.keywords@), 0);
    lemma_opt_arr_absent(pre, "classifiers = "@, str_elems(p.classifiers@), 0);
}

#[verifier::rlimit(100)]
proof fn lemma_omit_license(b: BuildSystem, p: Project)
    ensures
        key_line_present(manifest_lines(b, p), "license = "@) <==> p.license@.len() != 0,
{
    let pre = "license = "@;
    reveal_strlit("[build-system]");
    reveal_strlit("[project]");
    reveal_strlit("requires = ");
    reveal_strlit("build-backend = ");
    reveal_strlit("name = ");
    reveal_strlit("version = ");
    reveal_strlit("description = ");
    reveal_strlit("readme = ");
    reveal_strlit("requires-python = ");
    reveal_strlit("license = ");
    reveal_strlit("authors = ");
    reveal_strlit("maintainers = ");
    reveal_strlit("keywords = ");
    reveal_strlit("classifiers = ");
    lemma_key_split(b, p, pre);
    lemma_not_prefix_direct(pre, "[build-system]"@, 0);
    assert(line_arr("requires = "@, str_elems(b.requires@))[0] == "requires = "@[0]);
    lemma_not_prefix_direct(pre, line_arr("requires = "@, str_elems(b.requires@)), 0);
    assert(line_str("build-backend = "@, b.build_backend@)[0] == "build-backend = "@[0]);
    lemma_not_prefix_direct(pre, line_str("build-backend = "@, b.build_backend@), 0);
    assert(!pre.is_prefix_of(Seq::<char>::empty()));
    lemma_not_prefix_direct(pre, "[project]"@, 0);
    assert(line_str("name = "@, p.name@)[0] == "name = "@[0]);
    lemma_not_prefix_direct(pre, line_str("name = "@, p.name@), 0);
    assert(line_str("version = "@, p.version@)[0] == "version = "@[0]);
    lemma_not_prefix_direct(pre, line_str("version = "@, p.version@), 0);
    lemma_opt_str_absent(pre, "description = "@, p.description@, 0);
    lemma_opt_str_absent(pre, "readme = "@, p.readme@, 0);
    lemma_opt_str_absent(pre, "requires-python = "@, p.requires_python@, 0);
    lemma_opt_str_self(pre, p.license@);
    lemma_opt_arr_absent(pre, "authors = "@, contrib_elems(p.authors@), 0);
    lemma_opt_arr_absent(pre, "maintainers = "@, contrib_elems(p.maintainers@), 0);
    lemma_opt_arr_absent(pre, "keywords = "@, str_elems(p.keywords@), 0);
    lemma_opt_arr_absent(pre, "classifiers = "@, str_elems(p.classifiers@), 0);
}

#[verifier::rlimit(100)]
proof fn lemma_omit_authors(b: BuildSystem, p: Project)
    ensures
        key_line_present(manifest_lines(b, p), "authors = "@) <==> contrib_elems(p.authors@).len() != 0,
{
    let pre = "authors = "@;
    reveal_strlit("[build-system]");
    reveal_strlit("[project]");
    reveal_strlit("requires = ");
    reveal_strlit("build-backend = ");
    reveal_strlit("name = ");
    reveal_strlit("version = ");
    reveal_strlit("description = ");
    reveal_strlit("readme = ");
    reveal_strlit("requires-python = ");
    reveal_strlit("license = ");
    reveal_strlit("authors = ");
    reveal_strlit("maintainers = ");
    reveal_strlit("keywords = ");
    reveal_strlit("classifiers = ");
    lemma_key_split(b, p, pre);
    lemma_not_prefix_direct(pre, "[build-system]"@, 0);
    assert(line_arr("requires = "@, str_elems(b.requires@))[0] == "requires = "@[0]);
    lemma_not_prefix_direct(pre, line_arr("requires = "@, str_elems(b.requires@)), 0);
    assert(line_str("build-backend = "@, b.build_backend@)[0] == "build-backend = "@[0]);
    lemma_not_prefix_direct(pre, line_str("build-backend = "@, b.build_backend@), 0);
    assert(!pre.is_prefix_of(Seq::<char>::empty()));
    lemma_not_prefix_direct(pre, "[project]"@, 0);
    assert(line_str("name = "@, p.name@)[0] == "name = "@[0]);
    lemma_not_prefix_direct(pre, line_str("name = "@, p.name@), 0);
    assert(line_str("version = "@, p.version@)[0] == "version = "@[0]);
    lemma_not_prefix_direct(pre, line_str("version = "@, p.version@), 0);
    lemma_opt_str_absent(pre, "description = "@, p.description@, 0);
    lemma_opt_str_absent(pre, "readme = "@, p.readme@, 0);
    lemma_opt_str_absent(pre, "requires-python = "@, p.requires_python@, 0);
    lemma_opt_str_absent(pre, "license = "@, p.license@, 0);
    lemma_opt_arr_self(pre, contrib_elems(p.authors@));
    lemma_opt_arr_absent(pre, "maintainers = "@, contrib_elems(p.maintainers@), 0);
    lemma_opt_arr_absent(pre, "keywords = "@, str_elems(p.keywords@), 0);
    lemma_opt_arr_absent(pre, "classifiers = "@, str_elems(p.classifiers@), 0);
}

#[verifier::rlimit(100)]
proof fn lemma_omit_maintainers(b: BuildSystem, p: Project)
    ensures
        key_line_present(manifest_lines(b, p), "maintainers = "@) <==> contrib_elems(p.maintainers@).len() != 0,
{
    let pre = "maintainers = "@;
    reveal_strlit("[build-system]");
    reveal_strlit("[project]");
    reveal_strlit("requires = ");
    reveal_strlit("build-backend = ");
    reveal_strlit("name = ");
    reveal_strlit("version = ");
    reveal_strlit("description = ");
    reveal_strlit("readme = ");
    reveal_strlit("requires-python = ");
    reveal_strlit("license = ");
    reveal_strlit("authors = ");
    reveal_strlit("maintainers = ");
    reveal_strlit("keywords = ");
    reveal_strlit("classifiers = ");
    lemma_key_split(b, p, pre);
    lemma_not_prefix_direct(pre, "[build-system]"@, 0);
    assert(line_arr("requires = "@, str_elems(b.requires@))[0] == "requires = "@[0]);
    lemma_not_prefix_direct(pre, line_arr("requires = "@, str_elems(b.requires@)), 0);
    assert(line_str("build-backend = "@, b.build_backend@)[0] == "build-backend = "@[0]);
    lemma_not_prefix_direct(pre, line_str("build-backend = "@, b.build_backend@), 0);
    assert(!pre.is_prefix_of(Seq::<char>::empty()));
    lemma_not_prefix_direct(pre, "[project]"@, 0);
    assert(line_str("name = "@, p.name@)[0] == "name = "@[0]);
    lemma_not_prefix_direct(pre, line_str("name = "@, p.name@), 0);
    assert(line_str("version = "@, p.version@)[0] == "version = "@[0]);
    lemma_not_prefix_direct(pre, line_str("version = "@, p.version@), 0);
    lemma_opt_str_absent(pre, "description = "@, p.description@, 0);
    lemma_opt_str_absent(pre, "readme = "@, p.readme@, 0);
    lemma_opt_str_absent(pre, "requires-python = "@, p.requires_python@, 0);
    lemma_opt_str_absent(pre, "license = "@, p.license@, 0);
    lemma_opt_arr_absent(pre, "authors = "@, contrib_elems(p.authors@), 0);
    lemma_opt_arr_self(pre, contrib_elems(p.maintainers@));
    lemma_opt_arr_absent(pre, "keywords = "@, str_elems(p.keywords@), 0);
    lemma_opt_arr_absent(pre, "classifiers = "@, str_elems(p.classifiers@), 0);
}

#[verifier::rlimit(100)]
proof fn lemma_omit_keywords(b: BuildSystem, p: Project)
    ensures
        key_line_present(manifest_lines(b, p), "keywords = "@) <==> str_elems(p.keywords@).len() != 0,
{
    let pre = "keywords = "@;
    reveal_strlit("[build-system]");
    reveal_strlit("[project]");
    reveal_strlit("requires = ");
    reveal_strlit("build-backend = ");
    reveal_strlit("name = ");
    reveal_strlit("version = ");
    reveal_strlit("description = ");
    reveal_strlit("readme = ");
    reveal_strlit("requires-python = ");
    reveal_strlit("license = ");
    reveal_strlit("authors = ");
    reveal_strlit("maintainers = ");
    reveal_strlit("keywords = ");
    reveal_strlit("classifiers = ");
    lemma_key_split(b, p, pre);
    lemma_not_prefix_direct(pre, "[build-system]"@, 0);
    assert(line_arr("requires = "@, str_elems(b.requires@))[0] == "requires = "@[0]);
    lemma_not_prefix_direct(pre, line_arr("requires = "@, str_elems(b.requires@)), 0);
    assert(line_str("build-backend = "@, b.build_backend@)[0] == "build-backend = "@[0]);
    lemma_not_prefix_direct(pre, line_str("build-backend = "@, b.build_backend@), 0);
    assert(!pre.is_prefix_of(Seq::<char>::empty()));
    lemma_not_prefix_direct(pre, "[project]"@, 0);
    assert(line_str("name = "@, p.name@)[0] == "name = "@[0]);
    lemma_not_prefix_direct(pre, line_str("name = "@, p.name@), 0);
    assert(line_str("version = "@, p.version@)[0] == "version = "@[0]);
    lemma_not_prefix_direct(pre, line_str("version = "@, p.version@), 0);
    lemma_opt_str_absent(pre, "description = "@, p.description@, 0);
    lemma_opt_str_absent(pre, "readme = "@, p.readme@, 0);
    lemma_opt_str_absent(pre, "requires-python = "@, p.requires_python@, 0);
    lemma_opt_str_absent(pre, "license = "@, p.license@, 0);
    lemma_opt_arr_absent(pre, "authors = "@, contrib_elems(p.authors@), 0);
    lemma_opt_arr_absent(pre, "maintainers = "@, contrib_elems(p.maintainers@), 0);
    lemma_opt_arr_self(pre, str_elems(p.keywords@));
    lemma_opt_arr_absent(pre, "classifiers = "@, str_elems(p.classifiers@), 0);
}

#[verifier::rlimit(100)]
proof fn lemma_omit_classifiers(b: BuildSystem, p: Project)
    ensures
        key_line_present(manifest_lines(b, p), "classifiers = "@) <==> str_elems(p.classifiers@).len() != 0,
{
    let pre = "classifiers = "@;
    reveal_strlit("[build-system]");
    reveal_strlit("[project]");
    reveal_strlit("requires = ");
    reveal_strlit("build-backend = ");
    reveal_strlit("name = ");
    reveal_strlit("version = ");
    reveal_strlit("description = ");
    reveal_strlit("readme = ");
    reveal_strlit("requires-python = ");
    reveal_strlit("license = ");
    reveal_strlit("authors = ");
    reveal_strlit("maintainers = ");
    reveal_strlit("keywords = ");
    reveal_strlit("classifiers = ");
    lemma_key_split(b, p, pre);
    lemma_not_prefix_direct(pre, "[build-system]"@, 0);
    assert(line_arr("requires = "@, str_elems(b.requires@))[0] == "requires = "@[0]);
    lemma_not_prefix_direct(pre, line_arr("requires = "@, str_elems(b.requires@)), 0);
    assert(line_str("build-backend = "@, b.build_backend@)[0] == "build-backend = "@[0]);
    lemma_not_prefix_direct(pre, line_str("build-backend = "@, b.build_backend@), 0);
    assert(!pre.is_prefix_of(Seq::<char>::empty()));
    lemma_not_prefix_direct(pre, "[project]"@, 0);
    assert(line_str("name = "@, p.name@)[0] == "name = "@[0]);
    lemma_not_prefix_direct(pre, line_str("name = "@, p.name@), 0);
    assert(line_str("version = "@, p.version@)[0] == "version = "@[0]);
    lemma_not_prefix_direct(pre, line_str("version = "@, p.version@), 0);
    lemma_opt_str_absent(pre, "description = "@, p.description@, 0);
    lemma_opt_str_absent(pre, "readme = "@, p.readme@, 0);
    lemma_opt_str_absent(pre, "requires-python = "@, p.requires_python@, 0);
    lemma_opt_str_absent(pre, "license = "@, p.license@, 0);
    lemma_opt_arr_absent(pre, "authors = "@, contrib_elems(p.authors@), 0);
    lemma_opt_arr_absent(pre, "maintainers = "@, contrib_elems(p.maintainers@), 0);
    lemma_opt_arr_absent(pre, "keywords = "@, str_elems(p.keywords@), 0);
    lemma_opt_arr_self(pre, str_elems(p.classifiers@));
}

/// Fields left empty never appear as keys in the serialized output — the
/// four optional strings and the four lists alike; required fields always
/// appear, even when they hold their defaults unchanged.
pub proof fn lemma_field_omission(b: BuildSystem, p: Project)
    ensures
        key_line_present(manifest_lines(b, p), "requires = "@),
        key_line_present(manifest_lines(b, p), "build-backend = "@),
        key_line_present(manifest_lines(b, p), "name = "@),
        key_line_present(manifest_lines(b, p), "version = "@),
        key_line_present(manifest_lines(b, p), "description = "@) <==> p.description@.len() != 0,
        key_line_present(manifest_lines(b, p), "readme = "@) <==> p.readme@.len() != 0,
        key_line_present(manifest_lines(b, p), "requires-python = "@) <==> p.requires_python@.len()
            != 0,
        key_line_present(manifest_lines(b, p), "license = "@) <==> p.license@.len() != 0,
        key_line_present(manifest_lines(b, p), "authors = "@) <==> p.authors@.len() != 0,
        key_line_present(manifest_lines(b, p), "maintainers = "@) <==> p.maintainers@.len() != 0,
        key_line_present(manifest_lines(b, p), "keywords = "@) <==> p.keywords@.len() != 0,
        key_line_present(manifest_lines(b, p), "classifiers = "@) <==> p.classifiers@.len() != 0,
{
    lemma_key_split(b, p, "requires = "@);
    lemma_prefix_line_arr("requires = "@, str_elems(b.requires@));
    lemma_key_split(b, p, "build-backend = "@);
    lemma_prefix_line_str("build-backend = "@, b.build_backend@);
    lemma_key_split(b, p, "name = "@);
    lemma_prefix_line_str("name = "@, p.name@);
    lemma_key_split(b, p, "version = "@);
    lemma_prefix_line_str("version = "@, p.version@);
    lemma_omit_description(b, p);
    lemma_omit_readme(b, p);
    lemma_omit_requires_python(b, p);
    lemma_omit_license(b, p);
    lemma_omit_authors(b, p);
    lemma_omit_maintainers(b, p);
    lemma_omit_keywords(b, p);
    lemma_omit_classifiers(b, p);
    assert(contrib_elems(p.authors@).len() == p.authors@.len());
    assert(contrib_elems(p.maintainers@).len() == p.maintainers@.len());
    assert(str_elems(p.keywords@).len() == p.keywords@.len());
    assert(str_elems(p.classifiers@).len() == p.classifiers@.len());
}

} // verus!
