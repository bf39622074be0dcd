//! `init`: choosing default environments and writing a skeleton topologies
//! file.
use vstd::prelude::*;

use crate::store::{clone_strings, Store, StoreView};
use crate::text::{concat, join, join_strings, owned, split_on, trim, views};

verus! {

/// The environment presets offered by `init`, as (label, environments).
pub open spec fn presets() -> Seq<Seq<Seq<char>>> {
    seq![
        seq!["dev"@, "prod"@],
        seq!["local"@, "dev"@, "prod"@],
        seq!["local"@, "staging"@, "prod"@],
        seq!["dev"@, "staging"@, "prod"@],
    ]
}

/// The labels `init` offers: each preset's environments joined with `, `,
/// then `Custom`.
pub open spec fn preset_labels() -> Seq<Seq<char>> {
    presets().map_values(|p: Seq<Seq<char>>| join(p, ", "@)).push("Custom"@)
}

fn strings(Ghost(items): Ghost<Seq<Seq<char>>>, a: &str, b: &str, c: &str, n: usize) -> (r: Vec<String>)
    requires
        n == 2 || n == 3,
        items.len() == n,
        items[0] == a@,
        items[1] == b@,
        n == 3 ==> items[2] == c@,
    ensures
        views(r@) == items,
{
    let mut v: Vec<String> = Vec::new();
    v.push(owned(a));
    v.push(owned(b));
    if n == 3 {
        v.push(owned(c));
    }
    assert(views(v@) =~= items);
    v
}

/// The environments of preset `i`; `None` for `Custom` (the last label).
pub fn preset_envs(i: usize) -> (r: Option<Vec<String>>)
    requires
        i < preset_labels().len(),
    ensures
        i < presets().len() ==> (r matches Some(v) && views(v@) == presets()[i as int]),
        i == presets().len() ==> r is None,
{
    proof {
        reveal_strlit("dev");
        reveal_strlit("prod");
        reveal_strlit("local");
        reveal_strlit("staging");
    }
    if i == 0 {
        Some(strings(Ghost(presets()[0]), "dev", "prod", "", 2))
    } else if i == 1 {
        Some(strings(Ghost(presets()[1]), "local", "dev", "prod", 3))
    } else if i == 2 {
        Some(strings(Ghost(presets()[2]), "local", "staging", "prod", 3))
    } else if i == 3 {
        Some(strings(Ghost(presets()[3]), "dev", "staging", "prod", 3))
    } else {
        None
    }
}

/// The labels `init` offers for default environments.
pub fn preset_label_list() -> (r: Vec<String>)
    ensures
        views(r@) == preset_labels(),
{
    let mut out: Vec<String> = Vec::new();
    let mut i: usize = 0;
    while i < 4
        invariant
            i <= 4,
            views(out@) == presets().map_values(|p: Seq<Seq<char>>| join(p, ", "@)).take(i as int),
        decreases 4 - i,
    {
        let envs = match preset_envs(i) {
            Some(v) => v,
            None => {
                proof {
                    assert(false);
                }
                Vec::new()
            },
        };
        let l = join_strings(&envs, ", ");
        let ghost o0 = views(out@);
        out.push(l);
        assert(views(out@) =~= o0.push(l@));
        i = i + 1;
        assert(views(out@) =~= presets().map_values(|p: Seq<Seq<char>>| join(p, ", "@)).take(i as int));
    }
    let ghost o1 = views(out@);
    out.push(owned("Custom"));
    assert(presets().map_values(|p: Seq<Seq<char>>| join(p, ", "@)).take(4) =~= presets().map_values(
        |p: Seq<Seq<char>>| join(p, ", "@),
    ));
    assert(views(out@) =~= o1.push("Custom"@));
    out
}

/// The non-empty trimmed pieces of a comma-separated list, in order.
pub open spec fn env_list(pieces: Seq<Seq<char>>) -> Seq<Seq<char>>
    decreases pieces.len(),
{
    if pieces.len() == 0 {
        Seq::empty()
    } else {
        let rest = env_list(pieces.drop_last());
        if trim(pieces.last()).len() == 0 {
            rest
        } else {
            rest.push(trim(pieces.last()))
        }
    }
}

/// The environments of a comma-separated answer: trimmed, empty ones left
/// out.
pub fn parse_env_list(input: &str) -> (r: Vec<String>)
    ensures
        views(r@) == env_list(split_on(input@, ',')),
{
    let parts = crate::text::split_str(input, ',');
    let ghost ps = split_on(input@, ',');
    let mut out: Vec<String> = Vec::new();
    let mut i: usize = 0;
    assert(ps.take(0) =~= Seq::<Seq<char>>::empty());
    assert(views(out@) =~= Seq::<Seq<char>>::empty());
    while i < parts.len()
        invariant
            i <= parts@.len(),
            ps == split_on(input@, ','),
            parts@.len() == ps.len(),
            forall|k: int| 0 <= k < parts@.len() ==> #[trigger] parts@[k]@ == ps[k],
            views(out@) == env_list(ps.take(i as int)),
        decreases parts.len() - i,
    {
        let ghost t = ps.take(i + 1);
        assert(t.drop_last() =~= ps.take(i as int));
        assert(t.last() == parts@[i as int]@);
        let p = crate::text::trim_str(parts[i].as_str());
        if !p.as_str().is_empty() {
            let ghost o0 = views(out@);
            out.push(p);
            assert(views(out@) =~= o0.push(p@));
        }
        i = i + 1;
    }
    assert(ps.take(ps.len() as int) =~= ps);
    out
}

/// `Environments: already configured (<envs>), skipping`
pub open spec fn envs_skipped_message(envs: Seq<Seq<char>>) -> Seq<char> {
    "Environments: already configured ("@ + join(envs, ", "@) + "), skipping"@
}

/// The message when the store already has default environments (which
/// `init` keeps), or `None` when it has none.
pub fn configured_envs_message(store: &Store) -> (r: Option<String>)
    ensures
        store@.default_environments.len() > 0 ==> (r matches Some(m) && m@ == envs_skipped_message(
            store@.default_environments,
        )),
        store@.default_environments.len() == 0 ==> r is None,
{
    if store.meta.default_environments.len() == 0 {
        None
    } else {
        let j = join_strings(&store.meta.default_environments, ", ");
        let a = concat("Environments: already configured (", j.as_str());
        Some(concat(a.as_str(), "), skipping"))
    }
}

/// Sets the chosen default environments; returns the message.
pub fn apply_init_envs(store: &mut Store, envs: &Vec<String>) -> (r: String)
    requires
        old(store).wf(),
    ensures
        final(store).wf(),
        final(store)@ == (StoreView { default_environments: views(envs@), items: old(store)@.items }),
        r@ == "Environments: "@ + join(views(envs@), ", "@),
{
    store.meta.default_environments = clone_strings(envs);
    let j = join_strings(envs, ", ");
    concat("Environments: ", j.as_str())
}

/// The commented header of a skeleton topologies file.
pub open spec fn skeleton_header() -> Seq<char> {
    "# Topology presets — each maps components to environments\n"@
        + "# Used with: urd assemble --topology <name>\n"@ + "#\n"@
        + "# Components can be a simple env string or a mapping:\n"@
        + "#   api: dev                  # looks for templates in ./api/\n"@
        + "#   api:                      # explicit path\n"@ + "#     env: dev\n"@
        + "#     path: services/backend\n\n"@
}

/// The commented-out `all-<env>` topology for one environment.
pub open spec fn skeleton_block(env: Seq<char>) -> Seq<char> {
    "# all-"@ + env + ":\n"@ + "#   app: "@ + env + "\n"@ + "#   # api:\n"@ + "#   # web:\n"@ + "\n"@
}

/// A skeleton topologies file: the header, then a commented-out `all-<env>`
/// topology for each environment.
pub open spec fn skeleton(envs: Seq<Seq<char>>) -> Seq<char>
    decreases envs.len(),
{
    if envs.len() == 0 {
        skeleton_header()
    } else {
        skeleton(envs.drop_last()) + skeleton_block(envs.last())
    }
}

/// The text of a skeleton topologies file for these environments.
pub fn build_topology_skeleton(envs: &Vec<String>) -> (r: String)
    ensures
        r@ == skeleton(views(envs@)),
{
    let a = concat("# Topology presets — each maps components to environments\n", "# Used with: urd assemble --topology <name>\n");
    let b = concat(a.as_str(), "#\n");
    let c = concat(b.as_str(), "# Components can be a simple env string or a mapping:\n");
    let d = concat(c.as_str(), "#   api: dev                  # looks for templates in ./api/\n");
    let e = concat(d.as_str(), "#   api:                      # explicit path\n");
    let f = concat(e.as_str(), "#     env: dev\n");
    let mut out = concat(f.as_str(), "#     path: services/backend\n\n");
    let ghost vs = views(envs@);
    let mut i: usize = 0;
    assert(vs.take(0) =~= Seq::<Seq<char>>::empty());
    while i < envs.len()
        invariant
            i <= envs@.len(),
            vs == views(envs@),
            out@ == skeleton(vs.take(i as int)),
        decreases envs.len() - i,
    {
        let ghost t = vs.take(i + 1);
        assert(t.drop_last() =~= vs.take(i as int));
        assert(t.last() == envs@[i as int]@);
        let env = envs[i].as_str();
        let g = concat(out.as_str(), "# all-");
        let h = concat(g.as_str(), env);
        let k = concat(h.as_str(), ":\n");
        let l = concat(k.as_str(), "#   app: ");
        let m = concat(l.as_str(), env);
        let n = concat(m.as_str(), "\n");
        let o = concat(n.as_str(), "#   # api:\n");
        let p = concat(o.as_str(), "#   # web:\n");
        let q = concat(p.as_str(), "\n");
        let ghost prev = out@;
        out = q;
        assert(out@ =~= prev + skeleton_block(env@));
        i = i + 1;
    }
    assert(vs.take(vs.len() as int) =~= vs);
    out
}

} // verus!
