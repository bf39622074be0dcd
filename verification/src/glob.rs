//! Glob patterns over item IDs: `*` stands for any run of characters.
use vstd::prelude::*;

use crate::text::{
    chars_eq, chars_of, ends_with_chars, find_chars, find_from, has_prefix, has_suffix, join,
    lemma_find_from_props, lemma_split_on_nonempty, occurs_at, slice_chars, split_chars, split_on,
    starts_with_chars,
};

verus! {

/// Whether `text` matches `pattern`, where each `*` in the pattern matches any
/// (possibly empty) run of characters and every other character matches itself.
pub open spec fn wild_match(pattern: Seq<char>, text: Seq<char>) -> bool
    decreases pattern.len(), text.len(),
{
    if pattern.len() == 0 {
        text.len() == 0
    } else if pattern[0] == '*' {
        wild_match(pattern.drop_first(), text) || (text.len() > 0 && wild_match(
            pattern,
            text.drop_first(),
        ))
    } else {
        text.len() > 0 && text[0] == pattern[0] && wild_match(
            pattern.drop_first(),
            text.drop_first(),
        )
    }
}

/// Whether `s` holds no `*`.
pub open spec fn star_free(s: Seq<char>) -> bool {
    forall|k: int| 0 <= k < s.len() ==> s[k] != '*'
}

/// A star-free prefix of the pattern must be a prefix of the text.
proof fn lemma_literal_prefix(a: Seq<char>, q: Seq<char>, t: Seq<char>)
    requires
        star_free(a),
    ensures
        wild_match(a + q, t) == (has_prefix(t, a) && wild_match(q, t.skip(a.len() as int))),
    decreases a.len(),
{
    if a.len() == 0 {
        assert(a + q =~= q);
        assert(t.skip(0) =~= t);
        assert(t.take(0) =~= a);
    } else {
        let p = a + q;
        assert(p[0] == a[0]);
        assert(p.drop_first() =~= a.drop_first() + q);
        if t.len() > 0 {
            lemma_literal_prefix(a.drop_first(), q, t.drop_first());
            if a.len() <= t.len() {
                assert(t.drop_first().skip(a.len() - 1) =~= t.skip(a.len() as int));
            }
            if has_prefix(t, a) {
                assert(t.drop_first().take(a.len() - 1) =~= t.take(a.len() as int).drop_first());
                assert(t[0] == t.take(a.len() as int)[0]);
            }
            if t[0] == a[0] && has_prefix(t.drop_first(), a.drop_first()) {
                assert(t.take(a.len() as int) =~= seq![t[0]] + t.drop_first().take(a.len() - 1));
                assert(a =~= seq![a[0]] + a.drop_first());
            }
        }
    }
}

/// A star-free pattern matches exactly itself.
proof fn lemma_literal(a: Seq<char>, t: Seq<char>)
    requires
        star_free(a),
    ensures
        wild_match(a, t) == (t == a),
{
    lemma_literal_prefix(a, Seq::empty(), t);
    assert(a + Seq::<char>::empty() =~= a);
    if has_prefix(t, a) && t.skip(a.len() as int).len() == 0 {
        assert(t =~= t.take(a.len() as int));
    }
    if t == a {
        assert(t.take(a.len() as int) =~= a);
    }
}

/// A leading `*` may skip any prefix of the text.
proof fn lemma_leading_star(b: Seq<char>, u: Seq<char>)
    ensures
        wild_match(seq!['*'] + b, u) == (exists|j: int|
            0 <= j <= u.len() && #[trigger] wild_match(b, u.skip(j))),
    decreases u.len(),
{
    let p = seq!['*'] + b;
    assert(p[0] == '*');
    assert(p.drop_first() =~= b);
    assert(u.skip(0) =~= u);
    if u.len() > 0 {
        lemma_leading_star(b, u.drop_first());
        assert(wild_match(p, u) == (wild_match(b, u) || wild_match(p, u.drop_first())));
        if wild_match(b, u) {
            assert(wild_match(b, u.skip(0)));
        }
        if wild_match(p, u.drop_first()) {
            let j = choose|j: int|
                0 <= j <= u.drop_first().len() && #[trigger] wild_match(b, u.drop_first().skip(j));
            assert(u.drop_first().skip(j) =~= u.skip(j + 1));
            assert(wild_match(b, u.skip(j + 1)));
        }
        if exists|j: int| 0 <= j <= u.len() && #[trigger] wild_match(b, u.skip(j)) {
            let j = choose|j: int| 0 <= j <= u.len() && #[trigger] wild_match(b, u.skip(j));
            if j > 0 {
                assert(u.drop_first().skip(j - 1) =~= u.skip(j));
                assert(wild_match(b, u.drop_first().skip(j - 1)));
                assert(wild_match(p, u.drop_first()));
            } else {
                assert(wild_match(b, u));
            }
        }
    } else {
        assert(wild_match(p, u) == wild_match(b, u));
        if wild_match(b, u) {
            assert(wild_match(b, u.skip(0)));
        }
        if exists|j: int| 0 <= j <= u.len() && #[trigger] wild_match(b, u.skip(j)) {
            let j = choose|j: int| 0 <= j <= u.len() && #[trigger] wild_match(b, u.skip(j));
            assert(j == 0);
        }
    }
}

/// A pattern that starts with `*` and matches a suffix also matches the whole.
proof fn lemma_leading_star_mono(b: Seq<char>, u: Seq<char>, m: int)
    requires
        0 <= m <= u.len(),
        wild_match(seq!['*'] + b, u.skip(m)),
    ensures
        wild_match(seq!['*'] + b, u),
{
    lemma_leading_star(b, u.skip(m));
    lemma_leading_star(b, u);
    let j = choose|j: int| 0 <= j <= u.skip(m).len() && #[trigger] wild_match(b, u.skip(m).skip(j));
    assert(u.skip(m).skip(j) =~= u.skip(m + j));
    assert(wild_match(b, u.skip(m + j)));
}

/// After a `*`, a star-free segment is best matched at its first occurrence.
proof fn lemma_middle_segment(c: Seq<char>, d: Seq<char>, u: Seq<char>)
    requires
        star_free(c),
    ensures
        wild_match(seq!['*'] + (c + (seq!['*'] + d)), u) == (match find_from(u, c, 0) {
            None => false,
            Some(k) => wild_match(seq!['*'] + d, u.skip(k + c.len())),
        }),
{
    let b = c + (seq!['*'] + d);
    let q = seq!['*'] + d;
    lemma_leading_star(b, u);
    lemma_find_from_props(u, c, 0);
    if wild_match(seq!['*'] + b, u) {
        let j = choose|j: int| 0 <= j <= u.len() && #[trigger] wild_match(b, u.skip(j));
        lemma_literal_prefix(c, q, u.skip(j));
        assert(occurs_at(u, c, j)) by {
            assert(u.skip(j).take(c.len() as int) =~= u.subrange(j, j + c.len()));
        }
        let k = find_from(u, c, 0)->0;
        assert(k <= j);
        assert(u.skip(j).skip(c.len() as int) =~= u.skip(k + c.len()).skip(j - k));
        lemma_leading_star_mono(d, u.skip(k + c.len()), j - k);
    }
    if let Some(k) = find_from(u, c, 0) {
        if wild_match(q, u.skip(k + c.len())) {
            lemma_literal_prefix(c, q, u.skip(k));
            assert(u.skip(k).take(c.len() as int) =~= u.subrange(k, k + c.len()));
            assert(u.skip(k).skip(c.len() as int) =~= u.skip(k + c.len()));
            assert(wild_match(b, u.skip(k)));
        }
    }
}

/// A final star-free segment after a `*` must be a suffix.
proof fn lemma_last_segment(c: Seq<char>, u: Seq<char>)
    requires
        star_free(c),
    ensures
        wild_match(seq!['*'] + c, u) == has_suffix(u, c),
{
    lemma_leading_star(c, u);
    if has_suffix(u, c) {
        let j = u.len() - c.len();
        lemma_literal(c, u.skip(j));
        assert(wild_match(c, u.skip(j)));
    }
    if wild_match(seq!['*'] + c, u) {
        let j = choose|j: int| 0 <= j <= u.len() && #[trigger] wild_match(c, u.skip(j));
        lemma_literal(c, u.skip(j));
        assert(j == u.len() - c.len());
    }
}

// ---------------------------------------------------------------------------
// The pattern as `*`-separated segments
// ---------------------------------------------------------------------------

proof fn lemma_join_update_last(s: Seq<Seq<char>>, y: Seq<char>, sep: Seq<char>)
    requires
        s.len() >= 2,
    ensures
        join(s.update(s.len() - 1, y), sep) == join(s.drop_last(), sep) + sep + y,
{
    let s2 = s.update(s.len() - 1, y);
    assert(s2.drop_last() =~= s.drop_last());
}

proof fn lemma_split_segments(p: Seq<char>)
    ensures
        join(split_on(p, '*'), seq!['*']) == p,
        forall|k: int|
            0 <= k < split_on(p, '*').len() ==> star_free(#[trigger] split_on(p, '*')[k]),
    decreases p.len(),
{
    lemma_split_on_nonempty(p, '*');
    if p.len() > 0 {
        let prev = split_on(p.drop_last(), '*');
        lemma_split_segments(p.drop_last());
        lemma_split_on_nonempty(p.drop_last(), '*');
        if p.last() == '*' {
            let s = prev.push(Seq::<char>::empty());
            assert(s.drop_last() =~= prev);
            assert(p =~= p.drop_last() + seq!['*'] + Seq::<char>::empty());
        } else {
            let x = prev.last().push(p.last());
            if prev.len() >= 2 {
                lemma_join_update_last(prev, x, seq!['*']);
                lemma_join_update_last(prev, prev.last(), seq!['*']);
                assert(prev.update(prev.len() - 1, prev.last()) =~= prev);
                assert(p =~= p.drop_last().push(p.last()));
            } else {
                assert(p =~= p.drop_last().push(p.last()));
            }
            let s = prev.update(prev.len() - 1, x);
            assert forall|k: int| 0 <= k < s.len() implies star_free(#[trigger] s[k]) by {
                if k == s.len() - 1 {
                    assert(star_free(prev.last()));
                }
            }
        }
    }
}

/// Joining with a separator peels off the first segment.
proof fn lemma_join_first(s: Seq<Seq<char>>, sep: Seq<char>)
    requires
        s.len() >= 2,
    ensures
        join(s, sep) == s[0] + (sep + join(s.drop_first(), sep)),
    decreases s.len(),
{
    if s.len() == 2 {
        assert(s.drop_first().len() == 1);
        assert(s.drop_last().len() == 1);
        assert(join(s.drop_last(), sep) == s[0]);
        assert(join(s.drop_first(), sep) == s[1]);
        assert(join(s, sep) == join(s.drop_last(), sep) + sep + s.last());
        assert(s[0] + sep + s[1] =~= s[0] + (sep + s[1]));
    } else {
        lemma_join_first(s.drop_last(), sep);
        assert(s.drop_last().drop_first() =~= s.drop_first().drop_last());
        assert(s.drop_first().last() == s.last());
        assert(join(s, sep) == join(s.drop_last(), sep) + sep + s.last());
        assert(join(s.drop_first(), sep) == join(s.drop_first().drop_last(), sep) + sep
            + s.drop_first().last());
        let j = join(s.drop_first().drop_last(), sep);
        assert(s[0] + (sep + j) + sep + s.last() =~= s[0] + (sep + (j + sep + s.last())));
    }
}

/// The rest of a pattern after its first `i` segments, behind a `*`.
pub open spec fn rest_pattern(segs: Seq<Seq<char>>, i: int) -> Seq<char> {
    seq!['*'] + join(segs.skip(i), seq!['*'])
}

/// Whether `text` matches `pattern`, with `*` matching any run of characters.
///
/// The pattern is cut at each `*`; the first segment must be a prefix of the
/// text, the last a suffix, and the ones between must appear in order.
pub fn glob_matches(pattern: &str, text: &str) -> (r: bool)
    ensures
        r == wild_match(pattern@, text@),
{
    let pv = chars_of(pattern);
    let tv = chars_of(text);
    let parts = split_chars(&pv, '*');
    let ghost segs = split_on(pattern@, '*');
    proof {
        lemma_split_segments(pattern@);
        assert forall|k: int| 0 <= k < parts@.len() implies star_free(#[trigger] parts@[k]@) by {
            assert(parts@[k]@ == segs[k]);
        }
    }
    let n = parts.len();
    if n == 1 {
        proof {
            lemma_literal(pattern@, text@);
            assert(segs.len() == 1);
            assert(join(segs, seq!['*']) == segs[0]);
        }
        return chars_eq(&pv, &tv);
    }
    // The first segment must be a prefix of the text.

    let first = &parts[0];
    proof {
        lemma_join_first(segs, seq!['*']);
        assert(segs.skip(1) =~= segs.drop_first());
        lemma_literal_prefix(segs[0], rest_pattern(segs, 1), text@);
        assert(segs[0] + (seq!['*'] + join(segs.drop_first(), seq!['*'])) == pattern@);
    }
    if !starts_with_chars(&tv, first) {
        return false;
    }
    let mut rem = slice_chars(&tv, first.len(), tv.len());
    let mut i: usize = 1;
    while i < n
        invariant
            1 <= i <= n,
            n == parts@.len(),
            n == segs.len(),
            n >= 2,
            forall|k: int| 0 <= k < n ==> #[trigger] parts@[k]@ == segs[k],
            forall|k: int| 0 <= k < n ==> star_free(#[trigger] segs[k]),
            i < n ==> wild_match(pattern@, text@) == wild_match(rest_pattern(segs, i as int), rem@),
            i == n ==> wild_match(pattern@, text@),
        decreases n - i,
    {
        let part = &parts[i];
        let ghost c = segs[i as int];
        if i == n - 1 {
            proof {
                assert(segs.skip(i as int).len() == 1);
                assert(join(segs.skip(i as int), seq!['*']) == c);
                lemma_last_segment(c, rem@);
            }
            if part.len() == 0 {
                proof {
                    assert(rem@.skip(rem@.len() as int) =~= c);
                }
                i = i + 1;
                continue;
            }
            return ends_with_chars(&rem, part);
        }
        let ghost d = join(segs.skip(i + 1), seq!['*']);
        proof {
            lemma_join_first(segs.skip(i as int), seq!['*']);
            assert(segs.skip(i as int).drop_first() =~= segs.skip(i + 1));
            assert(segs.skip(i as int)[0] == c);
            lemma_middle_segment(c, d, rem@);
            lemma_find_from_props(rem@, c, 0);
        }
        if part.len() == 0 {
            proof {
                assert(occurs_at(rem@, c, 0)) by {
                    assert(rem@.subrange(0, 0) =~= c);
                }
                assert(rem@.skip(0) =~= rem@);
            }
            i = i + 1;
            continue;
        }
        match find_chars(&rem, part, 0) {
            None => {
                return false;
            },
            Some(k) => {
                assert(part@ == c);
                assert(occurs_at(rem@, c, k as int));
                assert(k + c.len() <= rem@.len());
                assert(part@.len() == c.len());
                let lp = part.len();
                assert(k + lp <= rem.len());
                let next = slice_chars(&rem, k + lp, rem.len());
                proof {
                    assert(next@ =~= rem@.skip(k + c.len()));
                }
                rem = next;
            },
        }
        i = i + 1;
    }
    true
}

} // verus!
