//! Catalog metadata commands, store configuration, validation and the
//! store's status summary, computed on a loaded store.
use vstd::prelude::*;

use crate::cli::{CatalogAddArgs, CatalogListArgs, ConfigSetDefaultsArgs};
use crate::commands::{remove_message, CommandError, Fault};
use crate::crypto::{is_encrypted, looks_encrypted};
use crate::smap::{keys_of, lookup};
use crate::store::{
    apply_default_environments, clone_opt, clone_strings, opt_view, with_default_environments, Item,
    ItemView, Sensitivity, Store, StoreView,
};
use crate::text::{concat, contains_string, join, join_strings, owned, views};

verus! {

/// A catalog entry on its own, as a standalone catalog file lists it: the
/// metadata of an item, with its description and sensitivity required.
pub struct CatalogItem {
    pub description: String,
    pub sensitivity: Sensitivity,
    pub origin: Option<String>,
    pub environments: Vec<String>,
    pub tags: Vec<String>,
}

/// The name of a sensitivity as it is printed.
pub open spec fn sensitivity_name(s: Sensitivity) -> Seq<char> {
    match s {
        Sensitivity::Plaintext => "Plaintext"@,
        Sensitivity::Sensitive => "Sensitive"@,
        Sensitivity::Secret => "Secret"@,
    }
}

/// The name of a sensitivity as it is printed.
pub fn sensitivity_label(s: Sensitivity) -> (r: &'static str)
    ensures
        r@ == sensitivity_name(s),
{
    match s {
        Sensitivity::Plaintext => "Plaintext",
        Sensitivity::Sensitive => "Sensitive",
        Sensitivity::Secret => "Secret",
    }
}

// ---------------------------------------------------------------------------
// catalog add / remove
// ---------------------------------------------------------------------------

/// An item with the metadata `catalog add` was given; what was not given
/// stays.
pub open spec fn catalog_item(item: ItemView, args: CatalogAddArgs) -> ItemView {
    ItemView {
        description: if args.description is Some {
            opt_view(args.description)
        } else {
            item.description
        },
        sensitivity: if args.sensitivity is Some {
            args.sensitivity
        } else {
            item.sensitivity
        },
        origin: if args.origin is Some {
            opt_view(args.origin)
        } else {
            item.origin
        },
        environments: if args.env@.len() > 0 {
            views(args.env@)
        } else {
            item.environments
        },
        tags: if args.tag@.len() > 0 {
            views(args.tag@)
        } else {
            item.tags
        },
        values: item.values,
    }
}

/// `catalog add`: sets the given metadata on the item (creating it), with the
/// store's default environments where it declares none; returns the message.
pub fn catalog_add(store: &mut Store, args: &CatalogAddArgs) -> (r: String)
    requires
        old(store).wf(),
    ensures
        final(store).wf(),
        final(store)@ == old(store)@.with_items(
            old(store)@.items.insert(
                args.id@,
                with_default_environments(
                    old(store)@.default_environments,
                    catalog_item(old(store)@.item_or_empty(args.id@), *args),
                ),
            ),
        ),
        r@ == "Updated catalog entry for "@ + args.id@,
{
    let mut item = store.item_or_empty(args.id.as_str());
    if args.description.is_some() {
        item.description = clone_opt(&args.description);
    }
    if args.sensitivity.is_some() {
        item.sensitivity = args.sensitivity;
    }
    if args.origin.is_some() {
        item.origin = clone_opt(&args.origin);
    }
    if args.env.len() > 0 {
        item.environments = clone_strings(&args.env);
    }
    if args.tag.len() > 0 {
        item.tags = clone_strings(&args.tag);
    }
    apply_default_environments(&store.meta, &mut item);
    store.put(args.id.as_str(), item);
    concat("Updated catalog entry for ", args.id.as_str())
}

/// `catalog remove`: removes the item; returns whether there was one and the
/// message.
pub fn catalog_remove(store: &mut Store, id: &str) -> (r: (bool, String))
    requires
        old(store).wf(),
    ensures
        final(store).wf(),
        r.0 == old(store)@.items.contains_key(id@),
        final(store)@ == old(store)@.with_items(old(store)@.items.remove(id@)),
        r.1@ == remove_message(id@, r.0),
{
    let removed = store.remove(id);
    let msg = if removed {
        concat("Removed ", id)
    } else {
        let a = concat("Item '", id);
        concat(a.as_str(), "' not found")
    };
    (removed, msg)
}

// ---------------------------------------------------------------------------
// catalog list / show
// ---------------------------------------------------------------------------

/// `  <name>: <text>` if there is a text.
pub open spec fn field_line(name: Seq<char>, text: Option<Seq<char>>) -> Seq<Seq<char>> {
    match text {
        Some(t) => seq!["  "@ + name + ": "@ + t],
        None => Seq::empty(),
    }
}

/// `  <name>: a, b` if the list is not empty.
pub open spec fn list_line(name: Seq<char>, items: Seq<Seq<char>>) -> Seq<Seq<char>> {
    if items.len() > 0 {
        seq!["  "@ + name + ": "@ + join(items, ", "@)]
    } else {
        Seq::empty()
    }
}

/// The metadata lines shared by `catalog list` and `catalog show` after the
/// sensitivity: origin, environments, tags.
pub open spec fn tail_lines(item: ItemView) -> Seq<Seq<char>> {
    field_line("origin"@, item.origin) + list_line("environments"@, item.environments) + list_line(
        "tags"@,
        item.tags,
    )
}

/// Whether `catalog list` shows the item: it declares one of the requested
/// environments, has the requested tag, and has the requested sensitivity.
pub open spec fn catalog_shows(item: ItemView, envs: Seq<Seq<char>>, tag: Option<Seq<char>>, sensitivity: Option<Sensitivity>) -> bool {
    &&& (envs.len() == 0 || exists|i: int| 0 <= i < item.environments.len() && envs.contains(#[trigger] item.environments[i]))
    &&& (tag matches Some(t) ==> item.tags.contains(t))
    &&& (sensitivity matches Some(s) ==> item.sensitivity == Some(s))
}

/// The lines `catalog list` prints for an item it shows.
pub open spec fn catalog_entry_lines(id: Seq<char>, item: ItemView) -> Seq<Seq<char>> {
    let label = match item.sensitivity {
        Some(s) => " ["@ + sensitivity_name(s) + "]"@,
        None => Seq::empty(),
    };
    seq![id + label] + field_line("description"@, item.description) + tail_lines(item)
}

/// The lines `catalog list` prints for these items, in order.
pub open spec fn spec_catalog_list(items: Seq<(String, Item)>, envs: Seq<Seq<char>>, tag: Option<Seq<char>>, sensitivity: Option<Sensitivity>) -> Seq<Seq<char>>
    decreases items.len(),
{
    if items.len() == 0 {
        Seq::empty()
    } else {
        let rest = spec_catalog_list(items.drop_last(), envs, tag, sensitivity);
        let (id, item) = items.last();
        if catalog_shows(item@, envs, tag, sensitivity) {
            rest + catalog_entry_lines(id@, item@)
        } else {
            rest
        }
    }
}

/// Whether an item carries the tag `t`.
pub open spec fn tagged(t: Seq<char>) -> spec_fn((String, Item)) -> bool {
    |p: (String, Item)| p.1@.tags.contains(t)
}

/// `catalog list --tag t` lists exactly what an unfiltered-by-tag listing of
/// the items that carry the tag `t` lists: items without the tag never
/// appear, and the other filters apply as before.
pub proof fn law_catalog_list_tag(items: Seq<(String, Item)>, envs: Seq<Seq<char>>, t: Seq<char>, sensitivity: Option<Sensitivity>)
    ensures
        spec_catalog_list(items, envs, Some(t), sensitivity) == spec_catalog_list(
            items.filter(tagged(t)),
            envs,
            None,
            sensitivity,
        ),
    decreases items.len(),
{
    reveal(Seq::filter);
    let pred = tagged(t);
    if items.len() > 0 {
        law_catalog_list_tag(items.drop_last(), envs, t, sensitivity);
        let sub = items.drop_last().filter(pred);
        assert(items.filter(pred) == (if pred(items.last()) {
            sub.push(items.last())
        } else {
            sub
        }));
        if pred(items.last()) {
            assert(sub.push(items.last()).drop_last() =~= sub);
        }
    }
}

/// Whether an item has the sensitivity `s`.
pub open spec fn of_sensitivity(s: Sensitivity) -> spec_fn((String, Item)) -> bool {
    |p: (String, Item)| p.1@.sensitivity == Some(s)
}

/// `catalog list --sensitivity s` lists exactly what a listing without that
/// filter lists of the items whose sensitivity is `s`.
pub proof fn law_catalog_list_sensitivity(items: Seq<(String, Item)>, envs: Seq<Seq<char>>, tag: Option<Seq<char>>, s: Sensitivity)
    ensures
        spec_catalog_list(items, envs, tag, Some(s)) == spec_catalog_list(
            items.filter(of_sensitivity(s)),
            envs,
            tag,
            None,
        ),
    decreases items.len(),
{
    reveal(Seq::filter);
    let pred = of_sensitivity(s);
    if items.len() > 0 {
        law_catalog_list_sensitivity(items.drop_last(), envs, tag, s);
        let sub = items.drop_last().filter(pred);
        if pred(items.last()) {
            assert(sub.push(items.last()).drop_last() =~= sub);
        }
    }
}

/// Whether an item declares one of the environments `envs`.
pub open spec fn in_envs(envs: Seq<Seq<char>>) -> spec_fn((String, Item)) -> bool {
    |p: (String, Item)| exists|e: Seq<char>| p.1@.environments.contains(e) && envs.contains(e)
}

/// `catalog list --env ..` lists exactly what a listing without that filter
/// lists of the items that declare one of the environments.
pub proof fn law_catalog_list_env(items: Seq<(String, Item)>, envs: Seq<Seq<char>>, tag: Option<Seq<char>>, s: Option<Sensitivity>)
    requires
        envs.len() > 0,
    ensures
        spec_catalog_list(items, envs, tag, s) == spec_catalog_list(
            items.filter(in_envs(envs)),
            Seq::empty(),
            tag,
            s,
        ),
    decreases items.len(),
{
    reveal(Seq::filter);
    let pred = in_envs(envs);
    if items.len() > 0 {
        law_catalog_list_env(items.drop_last(), envs, tag, s);
        let sub = items.drop_last().filter(pred);
        let item = items.last().1@;
        if pred(items.last()) {
            let e = choose|e: Seq<char>| item.environments.contains(e) && envs.contains(e);
            let i = choose|i: int| 0 <= i < item.environments.len() && item.environments[i] == e;
            assert(envs.contains(item.environments[i]));
            assert(sub.push(items.last()).drop_last() =~= sub);
        } else {
            assert forall|i: int| 0 <= i < item.environments.len() implies !envs.contains(
                #[trigger] item.environments[i],
            ) by {
                assert(item.environments.contains(item.environments[i]));
            }
        }
    }
}

/// When no item carries the tag, `catalog list --tag` lists nothing.
pub proof fn law_catalog_list_tag_absent(items: Seq<(String, Item)>, envs: Seq<Seq<char>>, t: Seq<char>, sensitivity: Option<Sensitivity>)
    requires
        forall|i: int| 0 <= i < items.len() ==> !(#[trigger] items[i]).1@.tags.contains(t),
    ensures
        spec_catalog_list(items, envs, Some(t), sensitivity) == Seq::<Seq<char>>::empty(),
    decreases items.len(),
{
    if items.len() > 0 {
        assert forall|i: int| 0 <= i < items.len() - 1 implies !(#[trigger] items.drop_last()[i]).1@.tags.contains(t) by {
            assert(items.drop_last()[i] == items[i]);
        }
        assert(!items[items.len() - 1].1@.tags.contains(t));
        law_catalog_list_tag_absent(items.drop_last(), envs, t, sensitivity);
    }
}

/// Appends `  <name>: <text>` if there is a text.
fn push_field(lines: &mut Vec<String>, name: &str, text: &Option<String>)
    ensures
        views(final(lines)@) == views(old(lines)@) + field_line(name@, opt_view(*text)),
{
    let ghost l0 = views(lines@);
    match text {
        Some(t) => {
            let a = concat("  ", name);
            let b = concat(a.as_str(), ": ");
            let c = concat(b.as_str(), t.as_str());
            lines.push(c);
            assert(views(lines@) =~= l0 + field_line(name@, opt_view(*text)));
        },
        None => {
            assert(views(lines@) =~= l0 + field_line(name@, opt_view(*text)));
        },
    }
}

/// Appends `  <name>: a, b` if the list is not empty.
fn push_list(lines: &mut Vec<String>, name: &str, items: &Vec<String>)
    ensures
        views(final(lines)@) == views(old(lines)@) + list_line(name@, views(items@)),
{
    let ghost l0 = views(lines@);
    if items.len() > 0 {
        let a = concat("  ", name);
        let b = concat(a.as_str(), ": ");
        let j = join_strings(items, ", ");
        let c = concat(b.as_str(), j.as_str());
        lines.push(c);
        assert(views(lines@) =~= l0 + list_line(name@, views(items@)));
    } else {
        assert(views(lines@) =~= l0 + list_line(name@, views(items@)));
    }
}

/// Whether one of `have` is one of `wanted`.
fn any_in(have: &Vec<String>, wanted: &Vec<String>) -> (r: bool)
    ensures
        r == exists|i: int| 0 <= i < views(have@).len() && views(wanted@).contains(#[trigger] views(have@)[i]),
{
    let mut i: usize = 0;
    while i < have.len()
        invariant
            i <= have@.len(),
            forall|j: int| 0 <= j < i ==> !views(wanted@).contains(#[trigger] views(have@)[j]),
        decreases have.len() - i,
    {
        if contains_string(wanted, have[i].as_str()) {
            assert(views(have@)[i as int] == have@[i as int]@);
            return true;
        }
        assert(views(have@)[i as int] == have@[i as int]@);
        i = i + 1;
    }
    false
}

/// `catalog list`: the lines to print.
pub fn catalog_list(store: &Store, args: &CatalogListArgs) -> (r: Vec<String>)
    ensures
        store.items@.len() == 0 ==> views(r@) == seq![crate::commands::empty_store_line()],
        store.items@.len() > 0 ==> views(r@) == spec_catalog_list(
            store.items@,
            views(args.env@),
            opt_view(args.tag),
            args.sensitivity,
        ),
{
    let mut lines: Vec<String> = Vec::new();
    if store.items.len() == 0 {
        lines.push(owned("Store is empty."));
        proof {
            reveal_strlit("Store is empty.");
        }
        assert(views(lines@) =~= seq![crate::commands::empty_store_line()]);
        return lines;
    }
    let ghost items = store.items@;
    let mut i: usize = 0;
    assert(items.take(0) =~= Seq::<(String, Item)>::empty());
    assert(views(lines@) =~= Seq::<Seq<char>>::empty());
    while i < store.items.len()
        invariant
            items == store.items@,
            i <= items.len(),
            views(lines@) == spec_catalog_list(
                items.take(i as int),
                views(args.env@),
                opt_view(args.tag),
                args.sensitivity,
            ),
        decreases store.items.len() - i,
    {
        let ghost t = items.take(i + 1);
        assert(t.drop_last() =~= items.take(i as int));
        assert(t.last() == items[i as int]);
        let (id, item) = &store.items[i];
        let env_ok = args.env.len() == 0 || any_in(&item.environments, &args.env);
        let tag_ok = match &args.tag {
            Some(t) => contains_string(&item.tags, t.as_str()),
            None => true,
        };
        let sens_ok = match args.sensitivity {
            Some(s) => match item.sensitivity {
                Some(x) => x == s,
                None => false,
            },
            None => true,
        };
        if env_ok && tag_ok && sens_ok {
            let ghost l0 = views(lines@);
            let header = match item.sensitivity {
                Some(s) => {
                    let a = concat(" [", sensitivity_label(s));
                    let b = concat(a.as_str(), "]");
                    concat(id.as_str(), b.as_str())
                },
                None => {
                    let h = id.clone();
                    assert(h@ =~= id@ + Seq::<char>::empty());
                    h
                },
            };
            lines.push(header);
            push_field(&mut lines, "description", &item.description);
            push_field(&mut lines, "origin", &item.origin);
            push_list(&mut lines, "environments", &item.environments);
            push_list(&mut lines, "tags", &item.tags);
            assert(views(lines@) =~= l0 + catalog_entry_lines(id@, item@));
        }
        i = i + 1;
    }
    assert(items.take(items.len() as int) =~= items);
    lines
}

/// The lines `catalog show` prints for an item.
pub open spec fn show_lines(id: Seq<char>, item: ItemView, envs: Seq<Seq<char>>) -> Seq<Seq<char>> {
    let sens = match item.sensitivity {
        Some(s) => seq!["  sensitivity: "@ + sensitivity_name(s)],
        None => Seq::empty(),
    };
    let values = if envs.len() > 0 {
        seq!["  values:"@] + envs.map_values(|e: Seq<char>| "    "@ + e + ": (set)"@)
    } else {
        Seq::empty()
    };
    seq![id] + field_line("description"@, item.description) + sens + tail_lines(item) + values
}

/// `catalog show`: the lines to print, the values only as `(set)`.
pub fn catalog_show(store: &Store, id: &str) -> (r: Result<Vec<String>, CommandError>)
    requires
        store.wf(),
    ensures
        r is Err <==> !store@.items.contains_key(id@),
        r matches Err(e) ==> e.fault == Fault::ItemNotFound && e.subject@ == id@,
        r matches Ok(lines) ==> views(lines@) == show_lines(
            id@,
            store@.items[id@],
            keys_of(lookup(store.items@, id@)->0.values@),
        ),
{
    let idx = match crate::smap::find_index(&store.items, id) {
        Some(i) => i,
        None => {
            return Err(CommandError { fault: Fault::ItemNotFound, subject: owned(id) });
        },
    };
    proof {
        crate::smap::lemma_lookup_at(store.items@, idx as int);
    }
    let item = &store.items[idx].1;
    let mut lines: Vec<String> = Vec::new();
    lines.push(owned(id));
    push_field(&mut lines, "description", &item.description);
    let ghost l1 = views(lines@);
    match item.sensitivity {
        Some(s) => {
            lines.push(concat("  sensitivity: ", sensitivity_label(s)));
        },
        None => {},
    }
    let ghost l2 = views(lines@);
    push_field(&mut lines, "origin", &item.origin);
    push_list(&mut lines, "environments", &item.environments);
    push_list(&mut lines, "tags", &item.tags);
    let ghost l3 = views(lines@);
    let ghost envs = keys_of(item.values@);
    if item.values.len() > 0 {
        lines.push(owned("  values:"));
        proof {
            reveal_strlit("  values:");
        }
        let mut i: usize = 0;
        while i < item.values.len()
            invariant
                i <= item.values@.len(),
                envs == keys_of(item.values@),
                views(lines@) == l3 + seq!["  values:"@] + envs.map_values(
                    |e: Seq<char>| "    "@ + e + ": (set)"@,
                ).take(i as int),
            decreases item.values.len() - i,
        {
            let a = concat("    ", item.values[i].0.as_str());
            let b = concat(a.as_str(), ": (set)");
            let ghost p = views(lines@);
            lines.push(b);
            assert(views(lines@) =~= p.push(b@));
            i = i + 1;
            assert(envs.map_values(|e: Seq<char>| "    "@ + e + ": (set)"@).take(i as int) =~= envs.map_values(
                |e: Seq<char>| "    "@ + e + ": (set)"@,
            ).take(i - 1).push("    "@ + envs[i - 1] + ": (set)"@));
        }
        assert(envs.map_values(|e: Seq<char>| "    "@ + e + ": (set)"@).take(i as int) =~= envs.map_values(
            |e: Seq<char>| "    "@ + e + ": (set)"@,
        ));
    }
    proof {
        let sens = match item@.sensitivity {
            Some(s) => seq!["  sensitivity: "@ + sensitivity_name(s)],
            None => Seq::<Seq<char>>::empty(),
        };
        assert(l2 =~= l1 + sens);
        assert(views(lines@) =~= show_lines(id@, item@, envs));
    }
    Ok(lines)
}

// ---------------------------------------------------------------------------
// validate
// ---------------------------------------------------------------------------

/// `MISSING` issues: declared environments without a value.
pub open spec fn missing_issues(id: Seq<char>, envs: Seq<Seq<char>>, values: Map<Seq<char>, Seq<char>>) -> Seq<Seq<char>>
    decreases envs.len(),
{
    if envs.len() == 0 {
        Seq::empty()
    } else {
        let rest = missing_issues(id, envs.drop_last(), values);
        if values.contains_key(envs.last()) {
            rest
        } else {
            rest.push("MISSING: "@ + id + " ["@ + envs.last() + "] — declared but no value set"@)
        }
    }
}

/// `UNENCRYPTED` issues: values of a sensitive or secret item stored as
/// plaintext.
pub open spec fn unencrypted_issues(id: Seq<char>, name: Seq<char>, values: Seq<(String, String)>) -> Seq<Seq<char>>
    decreases values.len(),
{
    if values.len() == 0 {
        Seq::empty()
    } else {
        let rest = unencrypted_issues(id, name, values.drop_last());
        if is_encrypted(values.last().1@) {
            rest
        } else {
            rest.push(
                "UNENCRYPTED: "@ + id + " ["@ + values.last().0@ + "] — declared "@ + name
                    + " but stored as plaintext"@,
            )
        }
    }
}

/// The issues of one item: missing values, plaintext values of a sensitive
/// or secret item, and values without a description.
pub open spec fn item_issues(id: Seq<char>, item: Item) -> Seq<Seq<char>> {
    let missing = missing_issues(id, item@.environments, item@.values);
    let unencrypted = match item.sensitivity {
        Some(Sensitivity::Sensitive) => unencrypted_issues(id, "Sensitive"@, item.values@),
        Some(Sensitivity::Secret) => unencrypted_issues(id, "Secret"@, item.values@),
        _ => Seq::empty(),
    };
    let undocumented = if item.values@.len() > 0 && item.description is None {
        seq!["UNDOCUMENTED: "@ + id + " — has values but no description"@]
    } else {
        Seq::empty()
    };
    missing + unencrypted + undocumented
}

/// The issues of these items, in order.
pub open spec fn spec_validate(items: Seq<(String, Item)>) -> Seq<Seq<char>>
    decreases items.len(),
{
    if items.len() == 0 {
        Seq::empty()
    } else {
        spec_validate(items.drop_last()) + item_issues(items.last().0@, items.last().1)
    }
}

/// The name `validate` gives a declared level in its issues.
pub open spec fn declared_name(s: Sensitivity) -> Seq<char> {
    match s {
        Sensitivity::Sensitive => "Sensitive"@,
        Sensitivity::Secret => "Secret"@,
        Sensitivity::Plaintext => "Plaintext"@,
    }
}

proof fn lemma_unencrypted_listed(id: Seq<char>, name: Seq<char>, values: Seq<(String, String)>, i: int)
    requires
        0 <= i < values.len(),
        !is_encrypted(values[i].1@),
    ensures
        unencrypted_issues(id, name, values).contains(
            "UNENCRYPTED: "@ + id + " ["@ + values[i].0@ + "] — declared "@ + name + " but stored as plaintext"@,
        ),
    decreases values.len(),
{
    let line = "UNENCRYPTED: "@ + id + " ["@ + values[i].0@ + "] — declared "@ + name + " but stored as plaintext"@;
    let rest = unencrypted_issues(id, name, values.drop_last());
    if i == values.len() - 1 {
        assert(rest.push(line)[rest.len() as int] == line);
    } else {
        assert(values.drop_last()[i] == values[i]);
        lemma_unencrypted_listed(id, name, values.drop_last(), i);
        let k = choose|k: int| 0 <= k < rest.len() && rest[k] == line;
        if !is_encrypted(values.last().1@) {
            assert(rest.push(
                "UNENCRYPTED: "@ + id + " ["@ + values.last().0@ + "] — declared "@ + name
                    + " but stored as plaintext"@,
            )[k] == line);
        }
    }
}

/// Every value of an item declared Sensitive or Secret that is not in
/// encrypted form is reported as an `UNENCRYPTED` issue naming the item, the
/// environment and the declared level.
pub proof fn law_validate_reports_plaintext(id: Seq<char>, item: Item, i: int)
    requires
        item.sensitivity == Some(Sensitivity::Sensitive) || item.sensitivity == Some(Sensitivity::Secret),
        0 <= i < item.values@.len(),
        !is_encrypted(item.values@[i].1@),
    ensures
        item_issues(id, item).contains(
            "UNENCRYPTED: "@ + id + " ["@ + item.values@[i].0@ + "] — declared "@ + declared_name(
                item.sensitivity->0,
            ) + " but stored as plaintext"@,
        ),
{
    let name = declared_name(item.sensitivity->0);
    let line = "UNENCRYPTED: "@ + id + " ["@ + item.values@[i].0@ + "] — declared "@ + name + " but stored as plaintext"@;
    lemma_unencrypted_listed(id, name, item.values@, i);
    let missing = missing_issues(id, item@.environments, item@.values);
    let unencrypted = unencrypted_issues(id, name, item.values@);
    let undocumented = if item.values@.len() > 0 && item.description is None {
        seq!["UNDOCUMENTED: "@ + id + " — has values but no description"@]
    } else {
        Seq::empty()
    };
    let k = choose|k: int| 0 <= k < unencrypted.len() && unencrypted[k] == line;
    assert((missing + unencrypted + undocumented)[missing.len() + k] == line);
}

proof fn lemma_missing_listed(id: Seq<char>, envs: Seq<Seq<char>>, values: Map<Seq<char>, Seq<char>>, i: int)
    requires
        0 <= i < envs.len(),
        !values.contains_key(envs[i]),
    ensures
        missing_issues(id, envs, values).contains("MISSING: "@ + id + " ["@ + envs[i] + "] — declared but no value set"@),
    decreases envs.len(),
{
    let line = "MISSING: "@ + id + " ["@ + envs[i] + "] — declared but no value set"@;
    let rest = missing_issues(id, envs.drop_last(), values);
    if i == envs.len() - 1 {
        assert(rest.push(line)[rest.len() as int] == line);
    } else {
        assert(envs.drop_last()[i] == envs[i]);
        lemma_missing_listed(id, envs.drop_last(), values, i);
        let k = choose|k: int| 0 <= k < rest.len() && rest[k] == line;
        if !values.contains_key(envs.last()) {
            assert(rest.push("MISSING: "@ + id + " ["@ + envs.last() + "] — declared but no value set"@)[k] == line);
        }
    }
}

proof fn lemma_missing_none(id: Seq<char>, envs: Seq<Seq<char>>, values: Map<Seq<char>, Seq<char>>)
    requires
        forall|i: int| 0 <= i < envs.len() ==> values.contains_key(#[trigger] envs[i]),
    ensures
        missing_issues(id, envs, values) == Seq::<Seq<char>>::empty(),
    decreases envs.len(),
{
    if envs.len() > 0 {
        assert(values.contains_key(envs[envs.len() - 1]));
        assert forall|i: int| 0 <= i < envs.len() - 1 implies values.contains_key(#[trigger] envs.drop_last()[i]) by {
            assert(envs.drop_last()[i] == envs[i]);
        }
        lemma_missing_none(id, envs.drop_last(), values);
    }
}

proof fn lemma_unencrypted_none(id: Seq<char>, name: Seq<char>, values: Seq<(String, String)>)
    requires
        forall|i: int| 0 <= i < values.len() ==> is_encrypted((#[trigger] values[i]).1@),
    ensures
        unencrypted_issues(id, name, values) == Seq::<Seq<char>>::empty(),
    decreases values.len(),
{
    if values.len() > 0 {
        assert(is_encrypted(values[values.len() - 1].1@));
        assert forall|i: int| 0 <= i < values.len() - 1 implies is_encrypted((#[trigger] values.drop_last()[i]).1@) by {
            assert(values.drop_last()[i] == values[i]);
        }
        lemma_unencrypted_none(id, name, values.drop_last());
    }
}

/// Every declared environment of an item without a value is reported as a
/// `MISSING` issue naming the item and the environment.
pub proof fn law_validate_reports_missing(id: Seq<char>, item: Item, i: int)
    requires
        0 <= i < item@.environments.len(),
        !item@.values.contains_key(item@.environments[i]),
    ensures
        item_issues(id, item).contains(
            "MISSING: "@ + id + " ["@ + item@.environments[i] + "] — declared but no value set"@,
        ),
{
    let line = "MISSING: "@ + id + " ["@ + item@.environments[i] + "] — declared but no value set"@;
    lemma_missing_listed(id, item@.environments, item@.values, i);
    let missing = missing_issues(id, item@.environments, item@.values);
    let k = choose|k: int| 0 <= k < missing.len() && missing[k] == line;
    let all = item_issues(id, item);
    assert(all[k] == line);
}

/// An item with values and no description is reported as `UNDOCUMENTED`.
pub proof fn law_validate_reports_undocumented(id: Seq<char>, item: Item)
    requires
        item.values@.len() > 0,
        item.description is None,
    ensures
        item_issues(id, item).contains("UNDOCUMENTED: "@ + id + " — has values but no description"@),
{
    let all = item_issues(id, item);
    assert(all[all.len() - 1] == "UNDOCUMENTED: "@ + id + " — has values but no description"@);
}

/// An item that has a value for every declared environment, whose values are
/// all encrypted when it is declared Sensitive or Secret, and that is
/// described when it has values, has no issues.
pub proof fn law_validate_clean_item(id: Seq<char>, item: Item)
    requires
        forall|i: int| 0 <= i < item@.environments.len() ==> item@.values.contains_key(#[trigger] item@.environments[i]),
        (item.sensitivity == Some(Sensitivity::Sensitive) || item.sensitivity == Some(Sensitivity::Secret))
            ==> forall|i: int| 0 <= i < item.values@.len() ==> is_encrypted((#[trigger] item.values@[i]).1@),
        item.values@.len() > 0 ==> item.description is Some,
    ensures
        item_issues(id, item) == Seq::<Seq<char>>::empty(),
{
    lemma_missing_none(id, item@.environments, item@.values);
    match item.sensitivity {
        Some(Sensitivity::Sensitive) => lemma_unencrypted_none(id, "Sensitive"@, item.values@),
        Some(Sensitivity::Secret) => lemma_unencrypted_none(id, "Secret"@, item.values@),
        _ => {},
    }
    assert(item_issues(id, item) =~= Seq::<Seq<char>>::empty());
}

/// `validate` over a whole store reports each such value of each item.
pub proof fn law_validate_store_reports_plaintext(items: Seq<(String, Item)>, n: int, i: int)
    requires
        0 <= n < items.len(),
        items[n].1.sensitivity == Some(Sensitivity::Sensitive) || items[n].1.sensitivity == Some(Sensitivity::Secret),
        0 <= i < items[n].1.values@.len(),
        !is_encrypted(items[n].1.values@[i].1@),
    ensures
        spec_validate(items).contains(
            "UNENCRYPTED: "@ + items[n].0@ + " ["@ + items[n].1.values@[i].0@ + "] — declared "@ + declared_name(
                items[n].1.sensitivity->0,
            ) + " but stored as plaintext"@,
        ),
    decreases items.len(),
{
    let line = "UNENCRYPTED: "@ + items[n].0@ + " ["@ + items[n].1.values@[i].0@ + "] — declared "@ + declared_name(
        items[n].1.sensitivity->0,
    ) + " but stored as plaintext"@;
    let before = spec_validate(items.drop_last());
    let own = item_issues(items.last().0@, items.last().1);
    if n == items.len() - 1 {
        law_validate_reports_plaintext(items[n].0@, items[n].1, i);
        let k = choose|k: int| 0 <= k < own.len() && own[k] == line;
        assert((before + own)[before.len() + k] == line);
    } else {
        assert(items.drop_last()[n] == items[n]);
        law_validate_store_reports_plaintext(items.drop_last(), n, i);
        let k = choose|k: int| 0 <= k < before.len() && before[k] == line;
        assert((before + own)[k] == line);
    }
}

fn item_issue_lines(id: &String, item: &Item) -> (r: Vec<String>)
    requires
        item.wf(),
    ensures
        views(r@) == item_issues(id@, *item),
{
    let mut out: Vec<String> = Vec::new();
    let ghost envs = views(item.environments@);
    let mut i: usize = 0;
    assert(envs.take(0) =~= Seq::<Seq<char>>::empty());
    assert(views(out@) =~= Seq::<Seq<char>>::empty());
    while i < item.environments.len()
        invariant
            item.wf(),
            envs == views(item.environments@),
            i <= envs.len(),
            views(out@) == missing_issues(id@, envs.take(i as int), item@.values),
        decreases item.environments.len() - i,
    {
        let ghost t = envs.take(i + 1);
        assert(t.drop_last() =~= envs.take(i as int));
        assert(t.last() == item.environments@[i as int]@);
        let env = &item.environments[i];
        if !item.has_value(env.as_str()) {
            let a = concat("MISSING: ", id.as_str());
            let b = concat(a.as_str(), " [");
            let c = concat(b.as_str(), env.as_str());
            let d = concat(c.as_str(), "] — declared but no value set");
            let ghost o0 = views(out@);
            out.push(d);
            assert(views(out@) =~= o0.push(d@));
        }
        i = i + 1;
    }
    assert(envs.take(envs.len() as int) =~= envs);
    let ghost m = views(out@);
    let name: &str = match item.sensitivity {
        Some(Sensitivity::Sensitive) => "Sensitive",
        Some(Sensitivity::Secret) => "Secret",
        _ => "",
    };
    let declared = match item.sensitivity {
        Some(Sensitivity::Sensitive) => true,
        Some(Sensitivity::Secret) => true,
        _ => false,
    };
    if declared {
        let ghost vals = item.values@;
        let mut j: usize = 0;
        assert(vals.take(0) =~= Seq::<(String, String)>::empty());
        assert(views(out@) =~= m + unencrypted_issues(id@, name@, vals.take(0)));
        while j < item.values.len()
            invariant
                vals == item.values@,
                j <= vals.len(),
                views(out@) == m + unencrypted_issues(id@, name@, vals.take(j as int)),
            decreases item.values.len() - j,
        {
            let ghost t = vals.take(j + 1);
            assert(t.drop_last() =~= vals.take(j as int));
            assert(t.last() == vals[j as int]);
            let (env, value) = &item.values[j];
            if !looks_encrypted(value.as_str()) {
                let a = concat("UNENCRYPTED: ", id.as_str());
                let b = concat(a.as_str(), " [");
                let c = concat(b.as_str(), env.as_str());
                let d = concat(c.as_str(), "] — declared ");
                let e = concat(d.as_str(), name);
                let f = concat(e.as_str(), " but stored as plaintext");
                let ghost o0 = views(out@);
                out.push(f);
                assert(views(out@) =~= o0.push(f@));
                assert(m + unencrypted_issues(id@, name@, t) =~= (m + unencrypted_issues(id@, name@, vals.take(j as int))).push(f@));
            }
            j = j + 1;
        }
        assert(vals.take(vals.len() as int) =~= vals);
        proof {
            match item.sensitivity {
                Some(Sensitivity::Sensitive) => {
                    reveal_strlit("Sensitive");
                },
                Some(Sensitivity::Secret) => {
                    reveal_strlit("Secret");
                },
                _ => {},
            }
        }
    } else {
        assert(views(out@) =~= m + Seq::<Seq<char>>::empty());
    }
    let ghost u = views(out@);
    if item.values.len() > 0 && item.description.is_none() {
        let a = concat("UNDOCUMENTED: ", id.as_str());
        let b = concat(a.as_str(), " — has values but no description");
        out.push(b);
        assert(views(out@) =~= u + seq![b@]);
    } else {
        assert(views(out@) =~= u + Seq::<Seq<char>>::empty());
    }
    out
}

/// `validate`: the issues of the store's items, in order (none when every
/// item is complete).
pub fn validate(store: &Store) -> (r: Vec<String>)
    requires
        store.wf(),
    ensures
        views(r@) == spec_validate(store.items@),
{
    let ghost items = store.items@;
    let mut out: Vec<String> = Vec::new();
    let mut i: usize = 0;
    assert(items.take(0) =~= Seq::<(String, Item)>::empty());
    assert(views(out@) =~= Seq::<Seq<char>>::empty());
    while i < store.items.len()
        invariant
            store.wf(),
            items == store.items@,
            i <= items.len(),
            views(out@) == spec_validate(items.take(i as int)),
        decreases store.items.len() - i,
    {
        let ghost t = items.take(i + 1);
        assert(t.drop_last() =~= items.take(i as int));
        assert(t.last() == items[i as int]);
        let (id, item) = &store.items[i];
        assert(items[i as int].1.wf());
        let more = item_issue_lines(id, item);
        crate::commands::append_lines(&mut out, more);
        i = i + 1;
    }
    assert(items.take(items.len() as int) =~= items);
    out
}

// ---------------------------------------------------------------------------
// config
// ---------------------------------------------------------------------------

/// What `config show` prints for these defaults.
pub open spec fn defaults_message(envs: Seq<Seq<char>>) -> Seq<char> {
    if envs.len() == 0 {
        "No default environments configured"@
    } else {
        "Default environments: "@ + join(envs, ", "@)
    }
}

/// `config set-defaults`: replaces the store's default environments; returns
/// New items inherit the default environments: once defaults are configured,
/// an item that `set` creates declares them.
pub proof fn law_new_items_inherit_defaults(store: StoreView, id: Seq<char>, envs: Seq<Seq<char>>, stored: Seq<char>)
    requires
        store.default_environments.len() > 0,
        !store.items.contains_key(id),
    ensures
        crate::commands::item_after_set(store, id, envs, stored).environments == store.default_environments,
{
}

/// the message.
pub fn set_defaults(store: &mut Store, args: &ConfigSetDefaultsArgs) -> (r: String)
    requires
        old(store).wf(),
    ensures
        final(store).wf(),
        final(store)@ == (StoreView { default_environments: views(args.envs@), items: old(store)@.items }),
        r@ == (if args.envs@.len() == 0 {
            "Cleared default environments"@
        } else {
            "Default environments: "@ + join(views(args.envs@), ", "@)
        }),
{
    store.meta.default_environments = clone_strings(&args.envs);
    if args.envs.len() == 0 {
        owned("Cleared default environments")
    } else {
        let j = join_strings(&args.envs, ", ");
        concat("Default environments: ", j.as_str())
    }
}

/// `config show`: the message.
pub fn show_defaults(store: &Store) -> (r: String)
    ensures
        r@ == defaults_message(store@.default_environments),
{
    if store.meta.default_environments.len() == 0 {
        proof {
            reveal_strlit("No default environments configured");
        }
        owned("No default environments configured")
    } else {
        let j = join_strings(&store.meta.default_environments, ", ");
        concat("Default environments: ", j.as_str())
    }
}

// ---------------------------------------------------------------------------
// status
// ---------------------------------------------------------------------------

/// The number of values these items hold.
pub open spec fn value_count(items: Seq<(String, Item)>) -> int
    decreases items.len(),
{
    if items.len() == 0 {
        0
    } else {
        value_count(items.drop_last()) + items.last().1.values@.len()
    }
}

/// Whether some item holds a value for `env`.
pub open spec fn env_in_use(items: Seq<(String, Item)>, env: Seq<char>) -> bool {
    exists|j: int, k: int|
        0 <= j < items.len() && 0 <= k < items[j].1.values@.len() && (#[trigger] items[j].1.values@[k]).0@ == env
}

/// A summary of the store's health.
pub struct StatusSummary {
    /// Number of items.
    pub items: usize,
    /// Number of values (saturating).
    pub values: usize,
    /// The environments that hold values, in order, each once.
    pub envs: Vec<String>,
    /// Number of issues `validate` reports.
    pub issues: usize,
}

proof fn lemma_value_count_nonneg(items: Seq<(String, Item)>)
    ensures
        value_count(items) >= 0,
    decreases items.len(),
{
    if items.len() > 0 {
        lemma_value_count_nonneg(items.drop_last());
    }
}

/// The summary `status` reports.
pub fn status_summary(store: &Store) -> (r: StatusSummary)
    requires
        store.wf(),
    ensures
        r.items == store.items@.len(),
        r.values == crate::assemble::capped(value_count(store.items@)),
        forall|a: int, b: int|
            0 <= a < b < r.envs@.len() ==> crate::text::seq_lt(#[trigger] r.envs@[a]@, #[trigger] r.envs@[b]@),
        forall|e: Seq<char>| views(r.envs@).contains(e) <==> env_in_use(store.items@, e),
        r.issues == spec_validate(store.items@).len(),
{
    let ghost items = store.items@;
    let mut set: Vec<(String, ())> = Vec::new();
    let mut count: usize = 0;
    let mut i: usize = 0;
    assert(items.take(0) =~= Seq::<(String, Item)>::empty());
    while i < store.items.len()
        invariant
            items == store.items@,
            i <= items.len(),
            count == crate::assemble::capped(value_count(items.take(i as int))),
            crate::smap::sorted_keys(set@),
            forall|e: Seq<char>| #[trigger] crate::smap::has_key(set@, e) <==> env_in_use(items.take(i as int), e),
        decreases store.items.len() - i,
    {
        let ghost t = items.take(i + 1);
        assert(t.drop_last() =~= items.take(i as int));
        assert(t.last() == items[i as int]);
        let item = &store.items[i].1;
        let mut k: usize = 0;
        while k < item.values.len()
            invariant
                items == store.items@,
                i < items.len(),
                *item == items[i as int].1,
                k <= item.values@.len(),
                crate::smap::sorted_keys(set@),
                forall|e: Seq<char>|
                    #[trigger] crate::smap::has_key(set@, e) <==> (env_in_use(items.take(i as int), e) || exists|m: int|
                        0 <= m < k && (#[trigger] item.values@[m]).0@ == e),
            decreases item.values.len() - k,
        {
            let ghost s0 = set@;
            let name = item.values[k].0.clone();
            crate::smap::insert_entry(&mut set, name, ());
            proof {
                assert forall|e: Seq<char>| #[trigger] crate::smap::has_key(set@, e) <==> (env_in_use(items.take(i as int), e)
                    || exists|m: int| 0 <= m < k + 1 && (#[trigger] item.values@[m]).0@ == e) by {
                    if e == item.values@[k as int].0@ {
                        assert(crate::smap::lookup(set@, e) is Some);
                    } else {
                        assert(crate::smap::lookup(set@, e) == crate::smap::lookup(s0, e));
                        if exists|m: int| 0 <= m < k + 1 && (#[trigger] item.values@[m]).0@ == e {
                            let m = choose|m: int| 0 <= m < k + 1 && (#[trigger] item.values@[m]).0@ == e;
                            assert(m < k);
                        }
                    }
                }
            }
            k = k + 1;
        }
        proof {
            assert forall|e: Seq<char>| #[trigger] crate::smap::has_key(set@, e) <==> env_in_use(t, e) by {
                if env_in_use(t, e) {
                    let (j, m) = choose|j: int, m: int|
                        0 <= j < t.len() && 0 <= m < t[j].1.values@.len() && (#[trigger] t[j].1.values@[m]).0@ == e;
                    if j < i {
                        assert(items.take(i as int)[j] == t[j]);
                        assert(env_in_use(items.take(i as int), e));
                    } else {
                        assert(item.values@[m].0@ == e);
                    }
                }
                if env_in_use(items.take(i as int), e) {
                    let (j, m) = choose|j: int, m: int|
                        0 <= j < items.take(i as int).len() && 0 <= m < items.take(i as int)[j].1.values@.len()
                            && (#[trigger] items.take(i as int)[j].1.values@[m]).0@ == e;
                    assert(t[j] == items.take(i as int)[j]);
                    assert(t[j].1.values@[m].0@ == e);
                }
                if exists|m: int| 0 <= m < item.values@.len() && (#[trigger] item.values@[m]).0@ == e {
                    let m = choose|m: int| 0 <= m < item.values@.len() && (#[trigger] item.values@[m]).0@ == e;
                    assert(t[i as int].1.values@[m].0@ == e);
                }
            }
            lemma_value_count_nonneg(items.take(i as int));
        }
        let n = item.values.len();
        if n > usize::MAX - count {
            count = usize::MAX;
        } else {
            count = count + n;
        }
        i = i + 1;
    }
    assert(items.take(items.len() as int) =~= items);
    let mut envs: Vec<String> = Vec::new();
    let mut j: usize = 0;
    while j < set.len()
        invariant
            j <= set@.len(),
            envs@.len() == j,
            forall|m: int| 0 <= m < j ==> (#[trigger] envs@[m]) == set@[m].0,
        decreases set.len() - j,
    {
        envs.push(set[j].0.clone());
        j = j + 1;
    }
    proof {
        assert forall|a: int, b: int| 0 <= a < b < envs@.len() implies crate::text::seq_lt(
            #[trigger] envs@[a]@,
            #[trigger] envs@[b]@,
        ) by {
            assert(envs@[a] == set@[a].0);
            assert(envs@[b] == set@[b].0);
        }
        assert forall|e: Seq<char>| views(envs@).contains(e) <==> env_in_use(store.items@, e) by {
            if views(envs@).contains(e) {
                let m = choose|m: int| 0 <= m < views(envs@).len() && views(envs@)[m] == e;
                assert(set@[m].0@ == e);
                assert(crate::smap::has_key(set@, e));
            }
            if env_in_use(store.items@, e) {
                assert(crate::smap::has_key(set@, e));
                let m = choose|m: int| 0 <= m < set@.len() && #[trigger] set@[m].0@ == e;
                assert(views(envs@)[m] == e);
            }
        }
    }
    let issues = validate(store);
    StatusSummary { items: store.items.len(), values: count, envs, issues: issues.len() }
}

/// The lines `status` prints after the encryption line.
pub open spec fn status_lines(items: nat, values: nat, envs: Seq<Seq<char>>, issues: nat) -> Seq<Seq<char>> {
    seq![
        "Items:      "@ + crate::text::decimal(items),
        "Values:     "@ + crate::text::decimal(values),
        "Envs:       "@ + (if envs.len() == 0 {
            "none"@
        } else {
            join(envs, ", "@)
        }),
        "Issues:     "@ + (if issues == 0 {
            "none"@
        } else {
            crate::text::decimal(issues)
        }),
    ]
}

/// The lines `status` prints after the encryption line: item and value
/// counts, the environments in use and the number of issues.
pub fn status_report(summary: &StatusSummary) -> (r: Vec<String>)
    ensures
        views(r@) == status_lines(
            summary.items as nat,
            summary.values as nat,
            views(summary.envs@),
            summary.issues as nat,
        ),
{
    let mut out: Vec<String> = Vec::new();
    let n = crate::text::decimal_string(summary.items);
    out.push(concat("Items:      ", n.as_str()));
    let v = crate::text::decimal_string(summary.values);
    out.push(concat("Values:     ", v.as_str()));
    let e = if summary.envs.len() == 0 {
        proof {
            reveal_strlit("none");
        }
        owned("none")
    } else {
        join_strings(&summary.envs, ", ")
    };
    out.push(concat("Envs:       ", e.as_str()));
    let k = if summary.issues == 0 {
        proof {
            reveal_strlit("none");
        }
        owned("none")
    } else {
        crate::text::decimal_string(summary.issues)
    };
    out.push(concat("Issues:     ", k.as_str()));
    assert(views(out@) =~= status_lines(
        summary.items as nat,
        summary.values as nat,
        views(summary.envs@),
        summary.issues as nat,
    ));
    out
}

} // verus!
