//! `import`: reading key/value pairs from dotenv or YAML text and storing
//! them for one environment.
use vstd::prelude::*;

use crate::assemble::key_view;
use crate::cli::{Format, ImportArgs};
use crate::commands::{
    law_reveal_after_store, spec_get, spec_get_lines, spec_set_level, store_fault, stored_form, stores,
    CommandError, Fault,
};
use crate::crypto::{spec_parse_sensitivity, EncryptionKey, SensitivityLevel};
use crate::smap::lookup;
use crate::store::{
    apply_default_environments, infer_sensitivity_level, sensitivity_level_from_flags,
    with_default_environments, Store, StoreView,
};
use crate::template::{lines_of, text_lines};
use crate::text::{
    chars_of, concat, decimal, decimal_string, owned, slice_chars, split_on, split_str, string_of,
    trim, trim_chars, views,
};

verus! {

// ---------------------------------------------------------------------------
// Character positions
// ---------------------------------------------------------------------------

/// The first position of `c` in `s`.
pub open spec fn first_index(s: Seq<char>, c: char) -> Option<int>
    decreases s.len(),
{
    if s.len() == 0 {
        None
    } else if s[0] == c {
        Some(0)
    } else {
        match first_index(s.drop_first(), c) {
            Some(i) => Some(i + 1),
            None => None,
        }
    }
}

/// The last position of `c` in `s`.
pub open spec fn last_index(s: Seq<char>, c: char) -> Option<int>
    decreases s.len(),
{
    if s.len() == 0 {
        None
    } else if s.last() == c {
        Some(s.len() - 1)
    } else {
        last_index(s.drop_last(), c)
    }
}

proof fn lemma_first_index(s: Seq<char>, c: char, i: int)
    requires
        0 <= i <= s.len(),
        forall|k: int| 0 <= k < i ==> s[k] != c,
    ensures
        i < s.len() && s[i] == c ==> first_index(s, c) == Some(i),
        i == s.len() ==> first_index(s, c) is None,
    decreases i,
{
    if i > 0 {
        lemma_first_index(s.drop_first(), c, i - 1);
    } else if s.len() > 0 {
    }
}

proof fn lemma_last_index(s: Seq<char>, c: char, i: int)
    requires
        0 <= i <= s.len(),
        forall|k: int| i <= k < s.len() ==> s[k] != c,
    ensures
        i > 0 && s[i - 1] == c ==> last_index(s, c) == Some(i - 1),
        i == 0 ==> last_index(s, c) is None,
    decreases s.len() - i,
{
    if i < s.len() {
        assert(s.drop_last().len() == s.len() - 1);
        assert forall|k: int| i <= k < s.drop_last().len() implies s.drop_last()[k] != c by {}
        lemma_last_index(s.drop_last(), c, i);
    } else if s.len() > 0 {
    }
}

fn find_first(v: &Vec<char>, c: char) -> (r: Option<usize>)
    ensures
        r matches Some(i) ==> first_index(v@, c) == Some(i as int) && i < v@.len() && v@[i as int] == c,
        r is None ==> first_index(v@, c) is None,
{
    let mut i: usize = 0;
    while i < v.len()
        invariant
            i <= v@.len(),
            forall|k: int| 0 <= k < i ==> v@[k] != c,
        decreases v.len() - i,
    {
        if v[i] == c {
            proof {
                lemma_first_index(v@, c, i as int);
            }
            return Some(i);
        }
        i = i + 1;
    }
    proof {
        lemma_first_index(v@, c, i as int);
    }
    None
}

fn find_last(v: &Vec<char>, c: char) -> (r: Option<usize>)
    ensures
        r matches Some(i) ==> last_index(v@, c) == Some(i as int) && i < v@.len() && v@[i as int] == c,
        r is None ==> last_index(v@, c) is None,
{
    let mut i: usize = v.len();
    while i > 0
        invariant
            i <= v@.len(),
            forall|k: int| i <= k < v@.len() ==> v@[k] != c,
        decreases i,
    {
        if v[i - 1] == c {
            proof {
                lemma_last_index(v@, c, i as int);
            }
            return Some(i - 1);
        }
        i = i - 1;
    }
    proof {
        lemma_last_index(v@, c, 0);
    }
    None
}

// ---------------------------------------------------------------------------
// Formats
// ---------------------------------------------------------------------------

/// The last normal component of a list of path segments (empty and `.`
/// segments do not count).
pub open spec fn last_normal(segs: Seq<Seq<char>>) -> Option<Seq<char>>
    decreases segs.len(),
{
    if segs.len() == 0 {
        None
    } else if segs.last().len() == 0 || segs.last() == "."@ {
        last_normal(segs.drop_last())
    } else {
        Some(segs.last())
    }
}

/// The file name of a path (std's `Path::file_name`).
pub open spec fn file_name(path: Seq<char>) -> Option<Seq<char>> {
    match last_normal(split_on(path, '/')) {
        Some(n) => if n == ".."@ {
            None
        } else {
            Some(n)
        },
        None => None,
    }
}

/// The extension of a path (std's `Path::extension`): what follows the last
/// `.` of the file name, unless that `.` starts the name.
pub open spec fn extension(path: Seq<char>) -> Option<Seq<char>> {
    match file_name(path) {
        Some(n) => match last_index(n, '.') {
            Some(i) => if i > 0 {
                Some(n.skip(i + 1))
            } else {
                None
            },
            None => None,
        },
        None => None,
    }
}

/// The format a file is read in: YAML for `.yaml` and `.yml`, else dotenv.
pub open spec fn spec_detect_format(path: Seq<char>) -> Format {
    match extension(path) {
        Some(e) => if e == "yaml"@ || e == "yml"@ {
            Format::Yaml
        } else {
            Format::Dotenv
        },
        None => Format::Dotenv,
    }
}

/// The file name of a path.
fn path_file_name(path: &str) -> (r: Option<Vec<char>>)
    ensures
        r matches Some(n) ==> file_name(path@) == Some(n@),
        r is None ==> file_name(path@) is None,
{
    let segs = split_str(path, '/');
    let ghost ss = split_on(path@, '/');
    assert(views(segs@) =~= ss);
    let mut i: usize = segs.len();
    let dot: Vec<char> = vec!['.'];
    assert(dot@ =~= "."@) by {
        reveal_strlit(".");
    }
    assert(ss.take(ss.len() as int) =~= ss);
    while i > 0
        invariant
            i <= segs@.len(),
            ss == views(segs@),
            ss == split_on(path@, '/'),
            dot@ == "."@,
            last_normal(ss) == last_normal(ss.take(i as int)),
        decreases i,
    {
        let s = chars_of(segs[i - 1].as_str());
        let ghost t = ss.take(i as int);
        assert(t.last() == s@);
        assert(t.drop_last() =~= ss.take(i - 1));
        if s.len() > 0 && !crate::text::chars_eq(&s, &dot) {
            let two: Vec<char> = vec!['.', '.'];
            assert(two@ =~= ".."@) by {
                reveal_strlit("..");
            }
            if crate::text::chars_eq(&s, &two) {
                return None;
            }
            return Some(s);
        }
        i = i - 1;
    }
    assert(ss.take(0) =~= Seq::<Seq<char>>::empty());
    None
}

/// The format a file is read in: YAML for `.yaml` and `.yml`, else dotenv.
pub fn detect_format(path: &str) -> (r: Format)
    ensures
        r == spec_detect_format(path@),
{
    let name = match path_file_name(path) {
        Some(n) => n,
        None => {
            return Format::Dotenv;
        },
    };
    let i = match find_last(&name, '.') {
        Some(i) => i,
        None => {
            return Format::Dotenv;
        },
    };
    if i == 0 {
        return Format::Dotenv;
    }
    let n = name.len();
    assert(i < n);
    let ext = slice_chars(&name, i + 1, n);
    assert(ext@ =~= name@.skip(i + 1));
    let yaml: Vec<char> = vec!['y', 'a', 'm', 'l'];
    let yml: Vec<char> = vec!['y', 'm', 'l'];
    proof {
        reveal_strlit("yaml");
        reveal_strlit("yml");
    }
    assert(yaml@ =~= "yaml"@);
    assert(yml@ =~= "yml"@);
    if crate::text::chars_eq(&ext, &yaml) || crate::text::chars_eq(&ext, &yml) {
        Format::Yaml
    } else {
        Format::Dotenv
    }
}

// ---------------------------------------------------------------------------
// dotenv
// ---------------------------------------------------------------------------

/// Whether a value is wrapped in matching quotes.
pub open spec fn quoted(s: Seq<char>) -> bool {
    s.len() > 0 && ((s[0] == '"' && s.last() == '"') || (s[0] == '\'' && s.last() == '\''))
}

/// A value without its surrounding quotes.
pub open spec fn spec_strip_quotes(s: Seq<char>) -> Seq<char> {
    if quoted(s) {
        s.subrange(1, s.len() - 1)
    } else {
        s
    }
}

/// `s` without surrounding matching quotes. A lone quote character has no
/// inside to keep: it is not accepted.
pub fn strip_quotes(s: &Vec<char>) -> (r: Vec<char>)
    requires
        !(quoted(s@) && s@.len() == 1),
    ensures
        r@ == spec_strip_quotes(s@),
{
    let q = s.len() > 0 && ((s[0] == '"' && s[s.len() - 1] == '"') || (s[0] == '\'' && s[s.len() - 1] == '\''));
    if q {
        slice_chars(s, 1, s.len() - 1)
    } else {
        slice_chars(s, 0, s.len())
    }
}

/// What a dotenv line holds: nothing (blank or comment), a key and value
/// (split at the first `=`, trimmed, the value unquoted), or, for a line
/// without `=`, the trimmed line to warn about.
pub open spec fn dotenv_entry(line: Seq<char>) -> Option<Result<(Seq<char>, Seq<char>), Seq<char>>> {
    let t = trim(line);
    if t.len() == 0 || t[0] == '#' {
        None
    } else {
        match first_index(t, '=') {
            None => Some(Err(t)),
            Some(i) => Some(Ok((trim(t.take(i)), spec_strip_quotes(trim(t.skip(i + 1)))))),
        }
    }
}

/// Whether a dotenv line can be read: its value is not a lone quote.
pub open spec fn dotenv_line_ok(line: Seq<char>) -> bool {
    let t = trim(line);
    match first_index(t, '=') {
        Some(i) => !(quoted(trim(t.skip(i + 1))) && trim(t.skip(i + 1)).len() == 1),
        None => true,
    }
}

/// Whether every line of a dotenv text can be read.
pub open spec fn dotenv_ok(input: Seq<char>) -> bool {
    forall|k: int| 0 <= k < lines_of(input).len() ==> dotenv_line_ok(#[trigger] lines_of(input)[k])
}

/// The pairs and the warnings of these dotenv lines, in order.
pub open spec fn spec_dotenv(lines: Seq<Seq<char>>) -> (Seq<(Seq<char>, Seq<char>)>, Seq<Seq<char>>)
    decreases lines.len(),
{
    if lines.len() == 0 {
        (Seq::empty(), Seq::empty())
    } else {
        let (ps, ws) = spec_dotenv(lines.drop_last());
        match dotenv_entry(lines.last()) {
            None => (ps, ws),
            Some(Ok(p)) => (ps.push(p), ws),
            Some(Err(w)) => (ps, ws.push(w)),
        }
    }
}

/// The views of key/value pairs.
pub open spec fn pair_views(ps: Seq<(String, String)>) -> Seq<(Seq<char>, Seq<char>)> {
    ps.map_values(|p: (String, String)| (p.0@, p.1@))
}

/// Whether every line of a dotenv text can be read.
pub fn dotenv_readable(input: &str) -> (r: bool)
    ensures
        r == dotenv_ok(input@),
{
    let lines = text_lines(input);
    let mut i: usize = 0;
    while i < lines.len()
        invariant
            i <= lines@.len(),
            views(lines@) == lines_of(input@),
            forall|k: int| 0 <= k < i ==> dotenv_line_ok(#[trigger] lines_of(input@)[k]),
        decreases lines.len() - i,
    {
        let l = chars_of(lines[i].as_str());
        assert(l@ == lines_of(input@)[i as int]);
        let t = trim_chars(&l);
        match find_first(&t, '=') {
            Some(e) => {
                let rest = slice_chars(&t, e + 1, t.len());
                assert(rest@ =~= t@.skip(e + 1));
                let v = trim_chars(&rest);
                let q = v.len() > 0 && ((v[0] == '"' && v[v.len() - 1] == '"') || (v[0] == '\''
                    && v[v.len() - 1] == '\''));
                if q && v.len() == 1 {
                    return false;
                }
            },
            None => {},
        }
        i = i + 1;
    }
    true
}

/// The key/value pairs of a dotenv text, in order, and the lines without `=`
/// (trimmed), which are skipped with a warning.
pub fn parse_dotenv(input: &str) -> (r: (Vec<(String, String)>, Vec<String>))
    requires
        dotenv_ok(input@),
    ensures
        (pair_views(r.0@), views(r.1@)) == spec_dotenv(lines_of(input@)),
{
    let lines = text_lines(input);
    let ghost ls = lines_of(input@);
    let mut pairs: Vec<(String, String)> = Vec::new();
    let mut warnings: Vec<String> = Vec::new();
    let mut i: usize = 0;
    assert(ls.take(0) =~= Seq::<Seq<char>>::empty());
    assert(pair_views(pairs@) =~= Seq::<(Seq<char>, Seq<char>)>::empty());
    assert(views(warnings@) =~= Seq::<Seq<char>>::empty());
    while i < lines.len()
        invariant
            i <= lines@.len(),
            views(lines@) == ls,
            ls == lines_of(input@),
            dotenv_ok(input@),
            (pair_views(pairs@), views(warnings@)) == spec_dotenv(ls.take(i as int)),
        decreases lines.len() - i,
    {
        let ghost tk = ls.take(i + 1);
        assert(tk.drop_last() =~= ls.take(i as int));
        assert(tk.last() == ls[i as int]);
        let l = chars_of(lines[i].as_str());
        assert(l@ == ls[i as int]);
        assert(dotenv_line_ok(ls[i as int]));
        let t = trim_chars(&l);
        if t.len() == 0 || t[0] == '#' {
        } else {
            match find_first(&t, '=') {
                None => {
                    let ghost w0 = views(warnings@);
                    let w = string_of(&t);
                    warnings.push(w);
                    assert(views(warnings@) =~= w0.push(t@));
                },
                Some(e) => {
                    let head = slice_chars(&t, 0, e);
                    assert(head@ =~= t@.take(e as int));
                    let rest = slice_chars(&t, e + 1, t.len());
                    assert(rest@ =~= t@.skip(e + 1));
                    let k = trim_chars(&head);
                    let v = trim_chars(&rest);
                    let value = strip_quotes(&v);
                    let ghost p0 = pair_views(pairs@);
                    let ks = string_of(&k);
                    let vs = string_of(&value);
                    pairs.push((ks, vs));
                    assert(pair_views(pairs@) =~= p0.push((k@, value@)));
                },
            }
        }
        i = i + 1;
    }
    assert(ls.take(ls.len() as int) =~= ls);
    (pairs, warnings)
}

// ---------------------------------------------------------------------------
// YAML
// ---------------------------------------------------------------------------

/// The flat string map a YAML text holds, in key order, as serde_yaml reads
/// it into a `BTreeMap<String, String>`; `None` when it is not such a map.
pub uninterp spec fn yaml_string_map(input: Seq<char>) -> Option<Seq<(Seq<char>, Seq<char>)>>;

/// serde_yaml's `from_str` into a `BTreeMap<String, String>`, as pairs in
/// the map's (key) order.
#[verifier::external_body]
fn yaml_pairs(input: &str) -> (r: Option<Vec<(String, String)>>)
    ensures
        r matches Some(ps) ==> yaml_string_map(input@) == Some(pair_views(ps@)),
        r is None ==> yaml_string_map(input@) is None,
{
    let map: Option<std::collections::BTreeMap<String, String>> = serde_yaml::from_str(input).ok();
    map.map(|m| m.into_iter().collect())
}

/// The key/value pairs of a YAML text holding a flat string map, in key
/// order; `None` when it holds no such map.
pub fn parse_yaml(input: &str) -> (r: Option<Vec<(String, String)>>)
    ensures
        r matches Some(ps) ==> yaml_string_map(input@) == Some(pair_views(ps@)),
        r is None ==> yaml_string_map(input@) is None,
{
    yaml_pairs(input)
}

// ---------------------------------------------------------------------------
// Importing pairs
// ---------------------------------------------------------------------------

/// Whether a pair for `k` is skipped: `--skip-existing` and the item already
/// has a value for the environment.
pub open spec fn skipped_at(s: StoreView, k: Seq<char>, env: Seq<char>, skip_existing: bool) -> bool {
    skip_existing && s.items.contains_key(k) && s.items[k].values.contains_key(env)
}

/// Whether importing `(k, v)` takes store `s0` to `s1`: unchanged when the
/// pair is skipped or the run is dry; else `v` is stored for the
/// environment (encrypted at the level the flags, else the item, call for),
/// with the store's default environments where the item declares none.
pub open spec fn import_step(s0: Store, s1: Store, k: Seq<char>, v: Seq<char>, args: ImportArgs, key: Option<Seq<u8>>) -> bool {
    if skipped_at(s0@, k, args.env@, args.skip_existing) || args.dry_run {
        s1@ == s0@
    } else {
        exists|stored: Seq<char>|
            stores(stored, v, spec_set_level(s0.items@, k, args.sensitive, args.secret), key) && s1@
                == s0@.with_items(
                s0@.items.insert(
                    k,
                    with_default_environments(s0@.default_environments, s0@.item_or_empty(k).set(args.env@, stored)),
                ),
            )
    }
}

/// Whether `states` runs the import of `pairs` step by step.
pub open spec fn import_chain(states: Seq<Store>, pairs: Seq<(Seq<char>, Seq<char>)>, args: ImportArgs, key: Option<Seq<u8>>) -> bool {
    &&& states.len() == pairs.len() + 1
    &&& forall|i: int| 0 <= i < states.len() ==> (#[trigger] states[i]).wf()
    &&& forall|i: int|
        0 <= i < pairs.len() ==> import_step(#[trigger] states[i], states[i + 1], pairs[i].0, pairs[i].1, args, key)
}

/// `--skip-existing` skips a pair only where the item already has a value for
/// the environment: an item that is missing, or has no value there, gets the
/// imported value (stored at the level the flags, else the item, call for).
pub proof fn law_import_fills_missing_env(s0: Store, s1: Store, k: Seq<char>, v: Seq<char>, args: ImportArgs, key: Option<Seq<u8>>)
    requires
        import_step(s0, s1, k, v, args, key),
        !args.dry_run,
        !(s0@.items.contains_key(k) && s0@.items[k].values.contains_key(args.env@)),
    ensures
        s1@.items.contains_key(k),
        s1@.items[k].values.contains_key(args.env@),
        stores(s1@.items[k].values[args.env@], v, spec_set_level(s0.items@, k, args.sensitive, args.secret), key),
        forall|other: Seq<char>| other != k ==> s1@.items.get(other) == s0@.items.get(other),
{
    let level = spec_set_level(s0.items@, k, args.sensitive, args.secret);
    let stored = choose|stored: Seq<char>|
        stores(stored, v, level, key) && s1@ == s0@.with_items(
            s0@.items.insert(
                k,
                with_default_environments(s0@.default_environments, s0@.item_or_empty(k).set(args.env@, stored)),
            ),
        );
    assert(s1@.items[k].values == s0@.item_or_empty(k).values.insert(args.env@, stored));
}

/// With `--skip-existing`, a pair whose item already has a value for the
/// environment leaves the store as it was.
pub proof fn law_import_keeps_existing(s0: Store, s1: Store, k: Seq<char>, v: Seq<char>, args: ImportArgs, key: Option<Seq<u8>>)
    requires
        import_step(s0, s1, k, v, args, key),
        args.skip_existing,
        s0@.items.contains_key(k),
        s0@.items[k].values.contains_key(args.env@),
    ensures
        s1@ == s0@,
{
}

/// What `import` writes, `get` reads back: after a pair is imported (not
/// skipped, not a dry run), `get --reveal` of its key for the environment
/// prints its value (a value stored as is must not itself look encrypted).
pub proof fn law_get_after_import(s0: Store, s1: Store, k: Seq<char>, v: Seq<char>, args: ImportArgs, key: Option<Seq<u8>>)
    requires
        import_step(s0, s1, k, v, args, key),
        !skipped_at(s0@, k, args.env@, args.skip_existing),
        !args.dry_run,
        spec_set_level(s0.items@, k, args.sensitive, args.secret) is None ==> spec_parse_sensitivity(v) is None,
    ensures
        spec_get(s1.items@, k, seq![args.env@], true, key) == Ok::<Seq<Seq<char>>, (Fault, Seq<char>)>(
            seq![v],
        ),
{
    let level = spec_set_level(s0.items@, k, args.sensitive, args.secret);
    let stored = choose|stored: Seq<char>|
        stores(stored, v, level, key) && s1@ == s0@.with_items(
            s0@.items.insert(
                k,
                with_default_environments(s0@.default_environments, s0@.item_or_empty(k).set(args.env@, stored)),
            ),
        );
    assert(s1@.items.contains_key(k));
    let item = lookup(s1.items@, k)->0;
    assert(item@ == s1@.items[k]);
    assert(item@.values == s0@.item_or_empty(k).values.insert(args.env@, stored));
    law_reveal_after_store(stored, v, level, key);
    let one = seq![args.env@];
    assert(one.drop_last() =~= Seq::<Seq<char>>::empty());
    assert(one.last() == args.env@);
    assert(spec_get_lines(item@.values, one, false, true, key) == Ok::<Seq<Seq<char>>, (Fault, Seq<char>)>(
        seq![v],
    )) by {
        assert(spec_get_lines(item@.values, one.drop_last(), false, true, key) == Ok::<
            Seq<Seq<char>>,
            (Fault, Seq<char>),
        >(Seq::empty()));
        assert(Seq::<Seq<char>>::empty().push(v) =~= seq![v]);
    }
}

/// How many of the first `n` pairs were skipped along `states`.
pub open spec fn skip_count(states: Seq<Store>, pairs: Seq<(Seq<char>, Seq<char>)>, args: ImportArgs, n: int) -> int
    decreases n,
{
    if n <= 0 {
        0
    } else {
        skip_count(states, pairs, args, n - 1) + if skipped_at(states[n - 1]@, pairs[n - 1].0, args.env@, args.skip_existing) {
            1int
        } else {
            0int
        }
    }
}

/// The lines a dry run prints for these pairs against store `s` (which a dry
/// run does not change): skipped pairs, and what would be stored.
pub open spec fn spec_dry_lines(s: Store, pairs: Seq<(Seq<char>, Seq<char>)>, args: ImportArgs) -> Seq<Seq<char>>
    decreases pairs.len(),
{
    if pairs.len() == 0 {
        Seq::empty()
    } else {
        let (k, v) = pairs.last();
        let line = if skipped_at(s@, k, args.env@, args.skip_existing) {
            "  skip  "@ + k + " (already exists)"@
        } else {
            "  "@ + (if spec_set_level(s.items@, k, args.sensitive, args.secret) is Some {
                "encrypt"@
            } else {
                "set    "@
            }) + " "@ + k + "="@ + v
        };
        spec_dry_lines(s, pairs.drop_last(), args).push(line)
    }
}

/// What an import did: the lines a dry run prints, and how many pairs were
/// imported and skipped.
pub struct ImportOutcome {
    pub lines: Vec<String>,
    pub imported: usize,
    pub skipped: usize,
}

/// Whether the value of every pair can be encrypted.
pub open spec fn all_short(pairs: Seq<(Seq<char>, Seq<char>)>) -> bool {
    forall|i: int| 0 <= i < pairs.len() ==> crate::crypto::encryptable(crate::crypto::utf8(#[trigger] pairs[i].1).len() as int)
}

/// The line a dry run prints for pair `(k, v)` against store `s`.
pub open spec fn dry_line(s: Store, k: Seq<char>, v: Seq<char>, args: ImportArgs) -> Seq<char> {
    if skipped_at(s@, k, args.env@, args.skip_existing) {
        "  skip  "@ + k + " (already exists)"@
    } else {
        "  "@ + (if spec_set_level(s.items@, k, args.sensitive, args.secret) is Some {
            "encrypt"@
        } else {
            "set    "@
        }) + " "@ + k + "="@ + v
    }
}

/// Imports one pair; returns whether it was skipped. A dry run appends its
/// line to `lines` instead of storing.
fn import_pair(
    store: &mut Store,
    args: &ImportArgs,
    k: &String,
    v: &String,
    key: Option<&EncryptionKey>,
    lines: &mut Vec<String>,
) -> (r: Result<bool, Fault>)
    requires
        old(store).wf(),
        key matches Some(kk) ==> kk.wf(),
    ensures
        final(store).wf(),
        r matches Ok(skip) ==> skip == skipped_at(old(store)@, k@, args.env@, args.skip_existing)
            && import_step(*old(store), *final(store), k@, v@, *args, key_view(key)),
        r matches Ok(_) ==> (args.dry_run ==> *final(store) == *old(store) && views(final(lines)@)
            == views(old(lines)@).push(dry_line(*old(store), k@, v@, *args))),
        r matches Ok(_) ==> (!args.dry_run ==> final(lines)@ == old(lines)@),
        r matches Err(f) ==> !args.dry_run && !skipped_at(old(store)@, k@, args.env@, args.skip_existing)
            && store_fault(v@, spec_set_level(old(store).items@, k@, args.sensitive, args.secret), key_view(key))
            == Some(f) && *final(store) == *old(store),
{
    let has = match store.get(k.as_str()) {
        Some(it) => it.has_value(args.env.as_str()),
        None => false,
    };
    if args.skip_existing && has {
        if args.dry_run {
            let a = concat("  skip  ", k.as_str());
            let b = concat(a.as_str(), " (already exists)");
            let ghost l0 = views(lines@);
            lines.push(b);
            assert(views(lines@) =~= l0.push(b@));
        }
        return Ok(true);
    }
    let level = match sensitivity_level_from_flags(args.sensitive, args.secret) {
        Some(l) => Some(l),
        None => infer_sensitivity_level(store, k.as_str()),
    };
    if args.dry_run {
        let action = if level.is_some() {
            "encrypt"
        } else {
            "set    "
        };
        let a = concat("  ", action);
        let b = concat(a.as_str(), " ");
        let c = concat(b.as_str(), k.as_str());
        let d = concat(c.as_str(), "=");
        let e = concat(d.as_str(), v.as_str());
        let ghost l0 = views(lines@);
        lines.push(e);
        assert(views(lines@) =~= l0.push(e@));
        return Ok(false);
    }
    let ghost s0 = *store;
    let stored = match stored_form(v.as_str(), level, key) {
        Ok(x) => x,
        Err(f) => {
            return Err(f);
        },
    };
    let mut item = store.item_or_empty(k.as_str());
    item.set_value(args.env.as_str(), stored);
    apply_default_environments(&store.meta, &mut item);
    store.put(k.as_str(), item);
    assert(stores(stored@, v@, spec_set_level(s0.items@, k@, args.sensitive, args.secret), key_view(key)));
    Ok(false)
}

/// `import`: stores each pair's value for the environment, in order; with
/// `--skip-existing` a pair whose item already has a value there is skipped;
/// a dry run changes nothing and reports what it would do.
#[verifier::rlimit(50)]
#[verifier::spinoff_prover]
pub fn import(store: &mut Store, args: &ImportArgs, pairs: &Vec<(String, String)>, key: Option<&EncryptionKey>) -> (r: Result<ImportOutcome, CommandError>)
    requires
        old(store).wf(),
        key matches Some(k) ==> k.wf(),
    ensures
        final(store).wf(),
        r matches Ok(o) ==> exists|states: Seq<Store>|
            import_chain(states, pair_views(pairs@), *args, key_view(key)) && states[0]@ == old(store)@
                && states.last()@ == final(store)@ && o.skipped == skip_count(
                states,
                pair_views(pairs@),
                *args,
                pairs@.len() as int,
            ) && o.imported + o.skipped == pairs@.len(),
        r matches Ok(o) ==> (args.dry_run ==> final(store)@ == old(store)@ && views(o.lines@)
            == spec_dry_lines(*old(store), pair_views(pairs@), *args)),
        r matches Ok(o) ==> (!args.dry_run ==> o.lines@.len() == 0),
        r matches Err(e) ==> !args.dry_run && (e.fault == Fault::NoKey || e.fault == Fault::Crypto(
            crate::crypto::CryptoError::EncryptionFailed,
        )),
        r matches Err(e) ==> exists|states: Seq<Store>, i: int|
            0 <= i < pairs@.len() && #[trigger] import_chain(states, pair_views(pairs@).take(i), *args, key_view(key))
                && states[0]@ == old(store)@ && states.last()@ == final(store)@ && !skipped_at(
                states.last()@,
                pairs@[i].0@,
                args.env@,
                args.skip_existing,
            ) && store_fault(
                pairs@[i].1@,
                spec_set_level(states.last().items@, pairs@[i].0@, args.sensitive, args.secret),
                key_view(key),
            ) == Some(e.fault) && e.subject@ == pairs@[i].0@,
        key is Some && all_short(pair_views(pairs@)) ==> r is Ok,
{
    let ghost pv = pair_views(pairs@);
    let ghost s_init = *store;
    let ghost mut states: Seq<Store> = seq![*store];
    let mut lines: Vec<String> = Vec::new();
    let mut imported: usize = 0;
    let mut skipped: usize = 0;
    let mut i: usize = 0;
    assert(pv.take(0) =~= Seq::<(Seq<char>, Seq<char>)>::empty());
    assert(views(lines@) =~= Seq::<Seq<char>>::empty());
    while i < pairs.len()
        invariant
            key matches Some(k) ==> k.wf(),
            pv == pair_views(pairs@),
            i <= pairs@.len(),
            store.wf(),
            s_init@ == old(store)@,
            import_chain(states, pv.take(i as int), *args, key_view(key)),
            states[0] == s_init,
            states.last() == *store,
            skipped == skip_count(states, pv, *args, i as int),
            imported + skipped == i,
            args.dry_run ==> *store == s_init && views(lines@) == spec_dry_lines(s_init, pv.take(i as int), *args),
            !args.dry_run ==> lines@.len() == 0,
        decreases pairs.len() - i,
    {
        let ghost t = pv.take(i + 1);
        let ghost s0 = *store;
        let ghost old_states = states;
        let (k, v) = &pairs[i];
        let skip = match import_pair(store, args, k, v, key, &mut lines) {
            Ok(b) => b,
            Err(f) => {
                proof {
                    assert(pairs@[i as int].0@ == k@);
                    assert(pv[i as int] == (k@, v@));
                    if key is Some && all_short(pv) {
                        assert(crate::crypto::encryptable(crate::crypto::utf8(pv[i as int].1).len() as int));
                    }
                    assert(import_chain(states, pair_views(pairs@).take(i as int), *args, key_view(key)));
                }
                return Err(CommandError { fault: f, subject: k.clone() });
            },
        };
        if skip {
            skipped = skipped + 1;
        } else {
            imported = imported + 1;
        }
        proof {
            lemma_chain_step(old_states, *store, pv, i as int, *args, key_view(key));
            states = old_states.push(*store);
            lemma_skip_count_prefix(old_states, states, pv, *args, i as int);
            assert(pv[i as int] == (k@, v@));
            assert(states[i as int] == s0);
            if args.dry_run {
                assert(t.drop_last() =~= pv.take(i as int));
                assert(t.last() == pv[i as int]);
            }
        }
        i = i + 1;
    }
    assert(pv.take(pairs@.len() as int) =~= pv);
    Ok(ImportOutcome { lines, imported, skipped })
}

proof fn lemma_chain_step(states: Seq<Store>, next: Store, pv: Seq<(Seq<char>, Seq<char>)>, i: int, args: ImportArgs, key: Option<Seq<u8>>)
    requires
        0 <= i < pv.len(),
        import_chain(states, pv.take(i), args, key),
        next.wf(),
        import_step(states.last(), next, pv[i].0, pv[i].1, args, key),
    ensures
        import_chain(states.push(next), pv.take(i + 1), args, key),
{
    let s2 = states.push(next);
    let t = pv.take(i + 1);
    assert forall|j: int| 0 <= j < t.len() implies import_step(#[trigger] s2[j], s2[j + 1], t[j].0, t[j].1, args, key) by {
        if j < i {
            assert(t[j] == pv.take(i)[j]);
            assert(s2[j] == states[j]);
            assert(s2[j + 1] == states[j + 1]);
        } else {
            assert(s2[j] == states.last());
        }
    }
    assert forall|j: int| 0 <= j < s2.len() implies (#[trigger] s2[j]).wf() by {
        if j < states.len() {
            assert(s2[j] == states[j]);
        }
    }
}

proof fn lemma_skip_count_prefix(a: Seq<Store>, b: Seq<Store>, pairs: Seq<(Seq<char>, Seq<char>)>, args: ImportArgs, n: int)
    requires
        0 <= n <= a.len(),
        a.len() <= b.len(),
        forall|j: int| 0 <= j < a.len() ==> a[j] == b[j],
    ensures
        skip_count(a, pairs, args, n) == skip_count(b, pairs, args, n),
    decreases n,
{
    if n > 0 {
        lemma_skip_count_prefix(a, b, pairs, args, n - 1);
    }
}

/// `Imported <n> items into <env>`, with the skipped count when some were
/// skipped, and ` (dry run)` for a dry run.
pub open spec fn import_summary_text(imported: nat, skipped: nat, env: Seq<char>, dry_run: bool) -> Seq<char> {
    "Imported "@ + decimal(imported) + " items into "@ + env + (if skipped > 0 {
        " ("@ + decimal(skipped) + " skipped)"@
    } else {
        Seq::empty()
    }) + (if dry_run {
        " (dry run)"@
    } else {
        Seq::empty()
    })
}

/// The summary line of an import.
pub fn import_summary(outcome: &ImportOutcome, args: &ImportArgs) -> (r: String)
    ensures
        r@ == import_summary_text(outcome.imported as nat, outcome.skipped as nat, args.env@, args.dry_run),
{
    let n = decimal_string(outcome.imported);
    let a = concat("Imported ", n.as_str());
    let b = concat(a.as_str(), " items into ");
    let c = concat(b.as_str(), args.env.as_str());
    let d = if outcome.skipped > 0 {
        let s = decimal_string(outcome.skipped);
        let x = concat(c.as_str(), " (");
        let y = concat(x.as_str(), s.as_str());
        concat(y.as_str(), " skipped)")
    } else {
        c
    };
    let e = if args.dry_run {
        concat(d.as_str(), " (dry run)")
    } else {
        d
    };
    proof {
        assert(e@ =~= import_summary_text(outcome.imported as nat, outcome.skipped as nat, args.env@, args.dry_run));
    }
    e
}

} // verus!
