//! `.env` templates: lines with `{{ item.id }}` expressions, an optional
//! `# target: <path>` first line, and the text of an assembled env file.
use vstd::prelude::*;

use crate::text::{
    byte_offset, chars_eq, chars_of, find_chars, find_from, has_prefix, has_suffix, join, lemma_find_from_props,
    lemma_split_on_nonempty, occurs_at, slice_chars, split_chars, split_on, starts_with_chars,
    string_of, trim, trim_chars, utf8_len, views,
};

verus! {

/// `{{`
pub open spec fn open_braces() -> Seq<char> {
    seq!['{', '{']
}

/// `}}`
pub open spec fn close_braces() -> Seq<char> {
    seq!['}', '}']
}

pub proof fn lemma_close_after_open(line: Seq<char>, s: int, e: int)
    requires
        occurs_at(line, open_braces(), s),
        occurs_at(line, close_braces(), e),
        s <= e,
    ensures
        s + 2 <= e,
{
    assert(line.subrange(s, s + 2)[0] == line[s]);
    assert(line.subrange(s, s + 2)[1] == line[s + 1]);
    assert(line.subrange(e, e + 2)[0] == line[e]);
}

/// The `{{ ... }}` expressions of a line from position `from` on: for each, its
/// start, its end (just past `}}`) and its trimmed content; empty ones are
/// skipped, and an unclosed `{{` ends the search.
pub open spec fn exprs_from(line: Seq<char>, from: int) -> Seq<(int, int, Seq<char>)>
    decreases line.len() + 1 - from,
{
    if from < 0 || from > line.len() {
        Seq::empty()
    } else {
        match find_from(line, open_braces(), from) {
            None => Seq::empty(),
            Some(s) => match find_from(line, close_braces(), s) {
                None => Seq::empty(),
                Some(e) => {
                    proof {
                        lemma_find_from_props(line, open_braces(), from);
                        lemma_find_from_props(line, close_braces(), s);
                        lemma_close_after_open(line, s, e);
                    }
                    let inner = trim(line.subrange(s + 2, e));
                    let rest = exprs_from(line, e + 2);
                    if inner.len() > 0 {
                        seq![(s, e + 2, inner)] + rest
                    } else {
                        rest
                    }
                },
            },
        }
    }
}

/// The `{{ item.id }}` expressions of a line as `(start, end, item_id)`
/// tuples, the positions counting characters.
pub fn expression_spans(line: &str) -> (r: Vec<(usize, usize, String)>)
    ensures
        r@.len() == exprs_from(line@, 0).len(),
        forall|k: int|
            0 <= k < r@.len() ==> {
                let (s, e, id) = #[trigger] r@[k];
                let (s2, e2, id2) = exprs_from(line@, 0)[k];
                s == s2 && e == e2 && id@ == id2
            },
{
    let v = chars_of(line);
    let open: Vec<char> = vec!['{', '{'];
    let close: Vec<char> = vec!['}', '}'];
    assert(open@ =~= open_braces());
    assert(close@ =~= close_braces());
    let mut results: Vec<(usize, usize, String)> = Vec::new();
    let mut from: usize = 0;
    while from <= v.len()
        invariant
            from <= v.len() + 1,
            v@ == line@,
            open@ == open_braces(),
            close@ == close_braces(),
            forall|k: int|
                0 <= k < results@.len() ==> {
                    let (s, e, id) = #[trigger] results@[k];
                    let (s2, e2, id2) = exprs_from(line@, 0)[k];
                    s == s2 && e == e2 && id@ == id2
                },
            exprs_from(line@, 0).len() == results@.len() + exprs_from(line@, from as int).len(),
            forall|k: int|
                0 <= k < exprs_from(line@, from as int).len() ==> exprs_from(line@, 0)[results@.len() + k]
                    == #[trigger] exprs_from(line@, from as int)[k],
        ensures
            exprs_from(line@, from as int).len() == 0,
        decreases v.len() + 1 - from,
    {
        let s = match find_chars(&v, &open, from) {
            None => {
                assert(exprs_from(line@, from as int).len() == 0);
                break;
            },
            Some(s) => s,
        };
        let e = match find_chars(&v, &close, s) {
            None => {
                assert(exprs_from(line@, from as int).len() == 0);
                break;
            },
            Some(e) => e,
        };
        proof {
            lemma_find_from_props(v@, open@, from as int);
            lemma_find_from_props(v@, close@, s as int);
            lemma_close_after_open(v@, s as int, e as int);
        }
        let inner_raw = slice_chars(&v, s + 2, e);
        let inner = trim_chars(&inner_raw);
        let ghost rest = exprs_from(line@, (e + 2) as int);
        let ghost here = exprs_from(line@, from as int);
        if inner.len() > 0 {
            assert(here == seq![(s as int, (e + 2) as int, inner@)] + rest);
            let ghost old_len: int = results@.len() as int;
            assert(here[0] == (s as int, (e + 2) as int, inner@));
            assert(exprs_from(line@, 0)[old_len] == here[0]);
            let ghost r0 = results@;
            let inner_s = string_of(&inner);
            results.push((s, e + 2, inner_s));
            proof {
                assert forall|k: int| 0 <= k < results@.len() implies {
                    let (s1, e1, id1) = #[trigger] results@[k];
                    let (s2, e2, id2) = exprs_from(line@, 0)[k];
                    s1 == s2 && e1 == e2 && id1@ == id2
                } by {
                    if k < old_len {
                        assert(results@[k] == r0[k]);
                    }
                }
                assert forall|k: int| 0 <= k < rest.len() implies exprs_from(line@, 0)[results@.len() + k]
                    == #[trigger] rest[k] by {
                    assert(here[k + 1] == rest[k]);
                }
            }
        } else {
            assert(here == rest);
        }
        from = e + 2;
    }
    results
}

/// Positions of the expressions of a line are ordered and inside the line.
pub proof fn lemma_exprs_in_bounds(line: Seq<char>, from: int)
    requires
        0 <= from,
    ensures
        forall|k: int|
            0 <= k < exprs_from(line, from).len() ==> from <= (#[trigger] exprs_from(line, from)[k]).0
                && exprs_from(line, from)[k].0 + 2 <= exprs_from(line, from)[k].1 <= line.len(),
        forall|a: int, b: int|
            0 <= a < b < exprs_from(line, from).len() ==> (#[trigger] exprs_from(line, from)[a]).1
                <= (#[trigger] exprs_from(line, from)[b]).0,
    decreases line.len() + 1 - from,
{
    if from <= line.len() {
        crate::text::lemma_find_from_props(line, crate::template::open_braces(), from);
        match crate::text::find_from(line, crate::template::open_braces(), from) {
            None => {},
            Some(s) => {
                crate::text::lemma_find_from_props(line, crate::template::close_braces(), s);
                match crate::text::find_from(line, crate::template::close_braces(), s) {
                    None => {},
                    Some(e) => {
                        crate::template::lemma_close_after_open(line, s, e);
                        lemma_exprs_in_bounds(line, e + 2);
                        let rest = exprs_from(line, e + 2);
                        let all = exprs_from(line, from);
                        if all.len() > rest.len() {
                            assert forall|k: int| 0 < k < all.len() implies #[trigger] all[k] == rest[k
                                - 1] by {}
                        }
                    },
                }
            },
        }
    }
}

/// Extract `{{ item.id }}` expressions from a line, returning
/// `(start, end, item_id)` tuples; the positions are byte offsets into the
/// line, as `str` slicing takes them.
pub fn find_expressions(line: &str) -> (r: Vec<(usize, usize, String)>)
    ensures
        r@.len() == exprs_from(line@, 0).len(),
        forall|k: int|
            0 <= k < r@.len() ==> {
                let (s, e, id) = #[trigger] r@[k];
                let (s2, e2, id2) = exprs_from(line@, 0)[k];
                s == utf8_len(line@.take(s2)) && e == utf8_len(line@.take(e2)) && id@ == id2
            },
{
    let total = line.as_bytes().len();
    let v = chars_of(line);
    let spans = expression_spans(line);
    proof {
        lemma_exprs_in_bounds(line@, 0);
    }
    let mut out: Vec<(usize, usize, String)> = Vec::new();
    let mut k: usize = 0;
    while k < spans.len()
        invariant
            k <= spans@.len(),
            v@ == line@,
            total == utf8_len(line@),
            spans@.len() == exprs_from(line@, 0).len(),
            forall|j: int|
                0 <= j < spans@.len() ==> {
                    let (s, e, id) = #[trigger] spans@[j];
                    let (s2, e2, id2) = exprs_from(line@, 0)[j];
                    s == s2 && e == e2 && id@ == id2
                },
            forall|j: int|
                0 <= j < exprs_from(line@, 0).len() ==> (#[trigger] exprs_from(line@, 0)[j]).0
                    <= exprs_from(line@, 0)[j].1 <= line@.len(),
            out@.len() == k,
            forall|j: int|
                0 <= j < k ==> {
                    let (s, e, id) = #[trigger] out@[j];
                    let (s2, e2, id2) = exprs_from(line@, 0)[j];
                    s == utf8_len(line@.take(s2)) && e == utf8_len(line@.take(e2)) && id@ == id2
                },
        decreases spans@.len() - k,
    {
        let (s, e, id) = &spans[k];
        let bs = byte_offset(&v, *s, total);
        let be = byte_offset(&v, *e, total);
        out.push((bs, be, id.clone()));
        k = k + 1;
    }
    out
}

// ---------------------------------------------------------------------------
// Lines of a text
// ---------------------------------------------------------------------------

/// A line without the `\r` of a `\r\n` ending.
pub open spec fn strip_cr(s: Seq<char>) -> Seq<char> {
    if s.len() > 0 && s.last() == '\r' {
        s.drop_last()
    } else {
        s
    }
}

/// The lines of a text, as std's `str::lines` gives them: split at `\n`, a
/// `\r` before a `\n` dropped, and no empty line after a final line ending.
pub open spec fn lines_of(text: Seq<char>) -> Seq<Seq<char>> {
    let parts = split_on(text, '\n');
    let body = parts.drop_last().map_values(|p: Seq<char>| strip_cr(p));
    if parts.last().len() == 0 {
        body
    } else {
        body.push(parts.last())
    }
}

/// The lines of a text.
pub fn text_lines(text: &str) -> (r: Vec<String>)
    ensures
        views(r@) == lines_of(text@),
{
    let v = chars_of(text);
    let parts = split_chars(&v, '\n');
    proof {
        lemma_split_on_nonempty(text@, '\n');
    }
    let ghost ps = split_on(text@, '\n');
    let n = parts.len();
    let mut out: Vec<String> = Vec::new();
    let mut i: usize = 0;
    while i + 1 < n
        invariant
            n == parts@.len(),
            n == ps.len(),
            n >= 1,
            i + 1 <= n,
            forall|k: int| 0 <= k < n ==> #[trigger] parts@[k]@ == ps[k],
            views(out@) == ps.take(i as int).map_values(|p: Seq<char>| strip_cr(p)),
        decreases n - i,
    {
        let p = &parts[i];
        let line = if p.len() > 0 && p[p.len() - 1] == '\r' {
            slice_chars(p, 0, p.len() - 1)
        } else {
            slice_chars(p, 0, p.len())
        };
        proof {
            assert(p@.subrange(0, p@.len() as int) =~= p@);
            assert(p@.subrange(0, p@.len() - 1) =~= p@.drop_last());
        }
        let ghost before = out@;
        out.push(string_of(&line));
        proof {
            assert(views(out@) =~= views(before).push(line@));
            assert(ps.take(i + 1).map_values(|p: Seq<char>| strip_cr(p)) =~= ps.take(
                i as int,
            ).map_values(|p: Seq<char>| strip_cr(p)).push(strip_cr(ps[i as int])));
        }
        i = i + 1;
    }
    assert(ps.take((n - 1) as int) =~= ps.drop_last());
    let last = &parts[n - 1];
    if last.len() > 0 {
        let ghost before = out@;
        out.push(string_of(last));
        assert(views(out@) =~= views(before).push(last@));
    }
    out
}

// ---------------------------------------------------------------------------
// Templates
// ---------------------------------------------------------------------------

/// A parsed template file: lines with optional `{{ item.id }}` expressions.
pub struct Template {
    pub target: String,
    pub lines: Vec<String>,
}

/// `# target:`
pub open spec fn target_marker() -> Seq<char> {
    seq!['#', ' ', 't', 'a', 'r', 'g', 'e', 't', ':']
}

/// `.template`
pub open spec fn template_suffix() -> Seq<char> {
    seq!['.', 't', 'e', 'm', 'p', 'l', 'a', 't', 'e']
}

/// The target a template writes to: the `# target:` line's path when the
/// first line is one, else the file name without `.template`.
pub open spec fn template_target(contents: Seq<char>, filename: Seq<char>) -> Seq<char> {
    let lines = lines_of(contents);
    if lines.len() > 0 && has_prefix(lines[0], target_marker()) {
        trim(lines[0].skip(target_marker().len() as int))
    } else if has_suffix(filename, template_suffix()) {
        filename.take(filename.len() - template_suffix().len())
    } else {
        filename
    }
}

/// The lines a template renders from: all lines but a `# target:` first line.
pub open spec fn template_lines(contents: Seq<char>) -> Seq<Seq<char>> {
    let lines = lines_of(contents);
    if lines.len() > 0 && has_prefix(lines[0], target_marker()) {
        lines.drop_first()
    } else {
        lines
    }
}

/// Parse the text of a template file named `filename`.
pub fn parse_template(contents: &str, filename: &str) -> (r: Template)
    ensures
        r.target@ == template_target(contents@, filename@),
        views(r.lines@) == template_lines(contents@),
{
    let mut lines = text_lines(contents);
    let marker: Vec<char> = vec!['#', ' ', 't', 'a', 'r', 'g', 'e', 't', ':'];
    let suffix: Vec<char> = vec!['.', 't', 'e', 'm', 'p', 'l', 'a', 't', 'e'];
    assert(marker@ =~= target_marker());
    assert(suffix@ =~= template_suffix());
    if lines.len() > 0 {
        let first = chars_of(lines[0].as_str());
        if starts_with_chars(&first, &marker) {
            let rest = slice_chars(&first, marker.len(), first.len());
            let t = trim_chars(&rest);
            assert(rest@ =~= first@.skip(target_marker().len() as int));
            let ghost l0 = lines@;
            lines.remove(0);
            assert(views(lines@) =~= views(l0).drop_first());
            return Template { target: string_of(&t), lines };
        }
    }
    let name = chars_of(filename);
    let target = if crate::text::ends_with_chars(&name, &suffix) {
        slice_chars(&name, 0, name.len() - suffix.len())
    } else {
        slice_chars(&name, 0, name.len())
    };
    assert(name@.subrange(0, name@.len() as int) =~= name@);
    assert(name@.subrange(0, name@.len() - template_suffix().len()) =~= name@.take(
        name@.len() - template_suffix().len(),
    ));
    Template { target: string_of(&target), lines }
}

/// The text of an env file with these lines: each followed by a newline.
pub open spec fn env_file_text(lines: Seq<Seq<char>>) -> Seq<char> {
    if lines.len() == 0 {
        Seq::empty()
    } else {
        join(lines, seq!['\n']).push('\n')
    }
}

/// The text of an env file with these lines.
pub fn env_file_contents(lines: &Vec<String>) -> (r: String)
    ensures
        r@ == env_file_text(views(lines@)),
{
    if lines.len() == 0 {
        return String::new();
    }
    let nl: Vec<char> = vec!['\n'];
    let sep = string_of(&nl);
    assert(nl@ =~= seq!['\n']);
    let body = crate::text::join_strings(lines, sep.as_str());
    let r = crate::text::concat(body.as_str(), sep.as_str());
    assert(body@ + seq!['\n'] =~= body@.push('\n'));
    r
}

} // verus!
