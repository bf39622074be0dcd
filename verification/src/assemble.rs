//! Assembly: resolving manifests and templates against the store through a
//! topology, producing the lines of each component's env file.
use vstd::prelude::*;

use crate::cli::AssembleArgs;
use crate::commands::{item_after_set, lemma_set_all_has, stores};
use crate::crypto::{
    decrypt_value, is_encrypted, lemma_declared_is_encrypted, looks_encrypted, spec_decrypt, CryptoError,
    EncryptionKey, SensitivityLevel,
};
use crate::filters::{apply_filters_with, lan_address, parse_expression, spec_parse_expression, spec_pipeline, FilterFailure};
use crate::glob::{glob_matches, wild_match};
use crate::smap::{find_index, get_value, has_key, keys_of, lemma_lookup_at, lookup, sorted_keys, view_map};
use crate::store::{opt_view, Store, StoreView};
use crate::template::{exprs_from, expression_spans, lemma_exprs_in_bounds, parse_template, template_lines, template_target, Template};
use crate::text::{chars_of, concat, owned, slice_chars, string_of, views};
use crate::topology::{rule_views, ComponentConfig, OverrideRule, Topology};

verus! {

/// A component manifest declaring which store items map to which env vars
/// (vars kept sorted by name).
pub struct Manifest {
    pub target: String,
    pub vars: Vec<(String, String)>,
}

/// What assembly found for a component: either a manifest or a template.
pub enum ComponentSource {
    Manifest(Manifest),
    Template(Template),
}

/// Why an item could not be resolved.
#[derive(Debug, Clone, Copy, PartialEq, Eq, Structural)]
pub enum Failure {
    /// The store has no such item.
    ItemNotFound,
    /// The item has no value for the environment.
    NoValue,
    /// The value is encrypted and no key is available.
    NoKey,
    /// The value is encrypted and could not be decrypted.
    Decrypt(CryptoError),
    /// A template expression names an unknown filter.
    UnknownFilter,
    /// A filter failed on the value.
    Filter(FilterFailure),
}

/// Why assembly stopped.
#[derive(Debug)]
pub enum AssembleError {
    /// No topology of that name.
    TopologyNotFound { topology: String },
    /// The topology has no component of that name.
    ComponentNotFound { component: String, topology: String },
    /// A component directory has no manifest and no template.
    NoSource { component: String },
    /// An item referenced by a component could not be resolved.
    Unresolved { component: String, item_id: String, context: String, env: String, failure: Failure },
}

/// A missing item or value that was skipped (`--allow-missing`).
#[derive(Debug)]
pub struct AssembleWarning {
    pub item_id: String,
    pub context: String,
    pub env: String,
    /// Whether the whole item is missing (else only its value for `env`).
    pub item_missing: bool,
}

impl View for AssembleWarning {
    type V = (Seq<char>, Seq<char>, Seq<char>, bool);

    open spec fn view(&self) -> (Seq<char>, Seq<char>, Seq<char>, bool) {
        (self.item_id@, self.context@, self.env@, self.item_missing)
    }
}

// ---------------------------------------------------------------------------
// Environments and values
// ---------------------------------------------------------------------------

/// The environment an item resolves against: that of the first override rule
/// whose pattern matches the item ID, else the component's.
pub open spec fn spec_resolve_env(id: Seq<char>, default_env: Seq<char>, rules: Seq<(Seq<char>, Seq<char>)>) -> Seq<char>
    decreases rules.len(),
{
    if rules.len() == 0 {
        default_env
    } else if wild_match(rules[0].0, id) {
        rules[0].1
    } else {
        spec_resolve_env(id, default_env, rules.drop_first())
    }
}

/// The first override rule whose pattern matches the item ID decides its
/// environment, whatever later rules say.
pub proof fn law_resolve_env_first_match(id: Seq<char>, default_env: Seq<char>, rules: Seq<(Seq<char>, Seq<char>)>, i: int)
    requires
        0 <= i < rules.len(),
        wild_match(rules[i].0, id),
        forall|j: int| 0 <= j < i ==> !wild_match(#[trigger] rules[j].0, id),
    ensures
        spec_resolve_env(id, default_env, rules) == rules[i].1,
    decreases i,
{
    if i > 0 {
        assert(!wild_match(rules[0].0, id));
        assert forall|j: int| 0 <= j < i - 1 implies !wild_match(#[trigger] rules.drop_first()[j].0, id) by {
            assert(rules.drop_first()[j] == rules[j + 1]);
        }
        law_resolve_env_first_match(id, default_env, rules.drop_first(), i - 1);
    }
}

/// An item that no override rule matches resolves against the component's
/// environment.
pub proof fn law_resolve_env_no_match(id: Seq<char>, default_env: Seq<char>, rules: Seq<(Seq<char>, Seq<char>)>)
    requires
        forall|j: int| 0 <= j < rules.len() ==> !wild_match(#[trigger] rules[j].0, id),
    ensures
        spec_resolve_env(id, default_env, rules) == default_env,
    decreases rules.len(),
{
    if rules.len() > 0 {
        assert(!wild_match(rules[0].0, id));
        assert forall|j: int| 0 <= j < rules.len() - 1 implies !wild_match(#[trigger] rules.drop_first()[j].0, id) by {
            assert(rules.drop_first()[j] == rules[j + 1]);
        }
        law_resolve_env_no_match(id, default_env, rules.drop_first());
    }
}

/// The environment an item resolves against.
pub fn resolve_env(item_id: &str, default_env: &str, overrides: &[OverrideRule]) -> (r: String)
    ensures
        r@ == spec_resolve_env(item_id@, default_env@, rule_views(overrides@)),
{
    let mut i: usize = 0;
    assert(rule_views(overrides@).skip(0) =~= rule_views(overrides@));
    while i < overrides.len()
        invariant
            i <= overrides@.len(),
            spec_resolve_env(item_id@, default_env@, rule_views(overrides@)) == spec_resolve_env(
                item_id@,
                default_env@,
                rule_views(overrides@).skip(i as int),
            ),
        decreases overrides.len() - i,
    {
        let ghost rest = rule_views(overrides@).skip(i as int);
        assert(rest[0] == overrides@[i as int]@);
        if glob_matches(overrides[i].pattern.as_str(), item_id) {
            return overrides[i].env.clone();
        }
        assert(rest.drop_first() =~= rule_views(overrides@).skip(i + 1));
        i = i + 1;
    }
    owned(default_env)
}

/// The view of an optional key.
pub open spec fn key_view(key: Option<&EncryptionKey>) -> Option<Seq<u8>> {
    match key {
        Some(k) => Some(k.bytes@),
        None => None,
    }
}

/// What an item resolves to in `env`: its value (decrypted when encrypted),
/// nothing when it is missing and missing values are allowed, or a failure.
pub open spec fn spec_resolve(store: StoreView, id: Seq<char>, env: Seq<char>, key: Option<Seq<u8>>, allow_missing: bool) -> Result<Option<Seq<char>>, Failure> {
    if !store.items.contains_key(id) {
        if allow_missing {
            Ok(None)
        } else {
            Err(Failure::ItemNotFound)
        }
    } else if !store.items[id].values.contains_key(env) {
        if allow_missing {
            Ok(None)
        } else {
            Err(Failure::NoValue)
        }
    } else {
        let raw = store.items[id].values[env];
        if is_encrypted(raw) {
            match key {
                None => Err(Failure::NoKey),
                Some(k) => match spec_decrypt(raw, k) {
                    Ok(p) => Ok(Some(p)),
                    Err(e) => Err(Failure::Decrypt(e)),
                },
            }
        } else {
            Ok(Some(raw))
        }
    }
}

/// What `set` writes, assembly reads back: once `value` is set for some
/// environments, the item resolves to `value` in each of them (a value
/// stored as is must not itself look encrypted).
pub proof fn law_resolve_after_set(
    before: StoreView,
    id: Seq<char>,
    envs: Seq<Seq<char>>,
    env: Seq<char>,
    value: Seq<char>,
    level: Option<SensitivityLevel>,
    key: Option<Seq<u8>>,
    stored: Seq<char>,
    allow_missing: bool,
)
    requires
        stores(stored, value, level, key),
        envs.contains(env),
        level is None ==> !is_encrypted(value),
    ensures
        spec_resolve(
            before.with_items(before.items.insert(id, item_after_set(before, id, envs, stored))),
            id,
            env,
            key,
            allow_missing,
        ) == Ok::<Option<Seq<char>>, Failure>(Some(value)),
{
    let base = before.item_or_empty(id);
    lemma_set_all_has(base.values, envs, stored, env);
    if level is Some {
        lemma_declared_is_encrypted(stored);
    }
}

/// A sequence is a prefix of itself extended.
proof fn lemma_prefix_of_sum<T>(a: Seq<T>, b: Seq<T>)
    ensures
        a.is_prefix_of(a + b),
{
    assert((a + b).subrange(0, a.len() as int) =~= a);
}

/// Being a prefix is transitive.
proof fn lemma_prefix_trans<T>(a: Seq<T>, b: Seq<T>, c: Seq<T>)
    requires
        a.is_prefix_of(b),
        b.is_prefix_of(c),
    ensures
        a.is_prefix_of(c),
{
    assert forall|j: int| 0 <= j < a.len() implies a[j] == c.subrange(0, a.len() as int)[j] by {
        assert(a[j] == b.subrange(0, a.len() as int)[j]);
        assert(b[j] == c.subrange(0, b.len() as int)[j]);
    }
    assert(a =~= c.subrange(0, a.len() as int));
}

/// The warning a resolution reports, if it skipped a missing item or value.
pub open spec fn spec_warning(store: StoreView, id: Seq<char>, env: Seq<char>, allow_missing: bool) -> Option<bool> {
    if !allow_missing {
        None
    } else if !store.items.contains_key(id) {
        Some(true)
    } else if !store.items[id].values.contains_key(env) {
        Some(false)
    } else {
        None
    }
}

/// The warnings list after one resolution.
pub open spec fn warned(ws: Seq<(Seq<char>, Seq<char>, Seq<char>, bool)>, store: StoreView, id: Seq<char>, context: Seq<char>, env: Seq<char>, allow_missing: bool) -> Seq<(Seq<char>, Seq<char>, Seq<char>, bool)> {
    match spec_warning(store, id, env, allow_missing) {
        Some(m) => ws.push((id, context, env, m)),
        None => ws,
    }
}

/// The views of a list of warnings.
pub open spec fn warning_views(ws: Seq<AssembleWarning>) -> Seq<(Seq<char>, Seq<char>, Seq<char>, bool)> {
    ws.map_values(|w: AssembleWarning| w@)
}

/// Whether `e` reports a failure to resolve `id` in `env` for this component
/// and context.
pub open spec fn reports(e: AssembleError, comp: Seq<char>, id: Seq<char>, context: Seq<char>, env: Seq<char>, f: Failure) -> bool {
    e matches AssembleError::Unresolved { component, item_id, context: c, env: en, failure }
        && component@ == comp && item_id@ == id && c@ == context && en@ == env && failure == f
}

/// Resolve a single store item to its (decrypted) value; a skipped missing
/// item or value is recorded in `warnings`.
pub fn resolve_item(
    comp_name: &str,
    item_id: &str,
    context: &str,
    default_env: &str,
    overrides: &[OverrideRule],
    store: &Store,
    allow_missing: bool,
    key: Option<&EncryptionKey>,
    warnings: &mut Vec<AssembleWarning>,
) -> (r: Result<Option<String>, AssembleError>)
    requires
        store.wf(),
        key matches Some(k) ==> k.wf(),
    ensures
        ({
            let env = spec_resolve_env(item_id@, default_env@, rule_views(overrides@));
            let res = spec_resolve(store@, item_id@, env, key_view(key), allow_missing);
            &&& r matches Ok(v) ==> res == Ok::<Option<Seq<char>>, Failure>(opt_view(v))
            &&& r matches Err(e) ==> (res matches Err(f) && reports(e, comp_name@, item_id@, context@, env, f))
            &&& warning_views(final(warnings)@) == warned(
                warning_views(old(warnings)@),
                store@,
                item_id@,
                context@,
                env,
                allow_missing,
            )
        }),
{
    let env = resolve_env(item_id, default_env, overrides);
    let item = match store.get(item_id) {
        Some(it) => it,
        None => {
            if allow_missing {
                let ghost w0 = warnings@;
                warnings.push(
                    AssembleWarning {
                        item_id: owned(item_id),
                        context: owned(context),
                        env,
                        item_missing: true,
                    },
                );
                assert(warning_views(warnings@) =~= warning_views(w0).push(warnings@.last()@));
                return Ok(None);
            }
            return Err(
                AssembleError::Unresolved {
                    component: owned(comp_name),
                    item_id: owned(item_id),
                    context: owned(context),
                    env,
                    failure: Failure::ItemNotFound,
                },
            );
        },
    };
    let raw = match item.value(env.as_str()) {
        Some(v) => v,
        None => {
            if allow_missing {
                let ghost w0 = warnings@;
                warnings.push(
                    AssembleWarning {
                        item_id: owned(item_id),
                        context: owned(context),
                        env,
                        item_missing: false,
                    },
                );
                assert(warning_views(warnings@) =~= warning_views(w0).push(warnings@.last()@));
                return Ok(None);
            }
            return Err(
                AssembleError::Unresolved {
                    component: owned(comp_name),
                    item_id: owned(item_id),
                    context: owned(context),
                    env,
                    failure: Failure::NoValue,
                },
            );
        },
    };
    if looks_encrypted(raw.as_str()) {
        match key {
            None => Err(
                AssembleError::Unresolved {
                    component: owned(comp_name),
                    item_id: owned(item_id),
                    context: owned(context),
                    env,
                    failure: Failure::NoKey,
                },
            ),
            Some(k) => match decrypt_value(raw.as_str(), k) {
                Ok(p) => Ok(Some(p)),
                Err(e) => Err(
                    AssembleError::Unresolved {
                        component: owned(comp_name),
                        item_id: owned(item_id),
                        context: owned(context),
                        env,
                        failure: Failure::Decrypt(e),
                    },
                ),
            },
        }
    } else {
        Ok(Some(raw.clone()))
    }
}

/// The text a resolution puts in the env file (empty for a skipped value).
pub open spec fn text_of(v: Option<Seq<char>>) -> Seq<char> {
    match v {
        Some(s) => s,
        None => Seq::empty(),
    }
}

// ---------------------------------------------------------------------------
// Manifests
// ---------------------------------------------------------------------------

/// The lines a manifest's vars give (`VAR=value`, in var order), or the
/// failure of the first var that cannot be resolved.
pub open spec fn spec_manifest_lines(store: StoreView, vars: Seq<(String, String)>, env: Seq<char>, rules: Seq<(Seq<char>, Seq<char>)>, key: Option<Seq<u8>>, allow_missing: bool) -> Result<Seq<Seq<char>>, Failure>
    decreases vars.len(),
{
    if vars.len() == 0 {
        Ok(Seq::empty())
    } else {
        match spec_manifest_lines(store, vars.drop_last(), env, rules, key, allow_missing) {
            Err(f) => Err(f),
            Ok(acc) => {
                let (var, id) = vars.last();
                match spec_resolve(store, id@, spec_resolve_env(id@, env, rules), key, allow_missing) {
                    Err(f) => Err(f),
                    Ok(v) => Ok(acc.push(var@ + "="@ + text_of(v))),
                }
            },
        }
    }
}

/// The warnings a manifest's vars give, in var order.
pub open spec fn spec_manifest_warnings(store: StoreView, vars: Seq<(String, String)>, env: Seq<char>, rules: Seq<(Seq<char>, Seq<char>)>, allow_missing: bool) -> Seq<(Seq<char>, Seq<char>, Seq<char>, bool)>
    decreases vars.len(),
{
    if vars.len() == 0 {
        Seq::empty()
    } else {
        let (var, id) = vars.last();
        warned(
            spec_manifest_warnings(store, vars.drop_last(), env, rules, allow_missing),
            store,
            id@,
            var@,
            spec_resolve_env(id@, env, rules),
            allow_missing,
        )
    }
}

proof fn lemma_manifest_err(store: StoreView, vars: Seq<(String, String)>, env: Seq<char>, rules: Seq<(Seq<char>, Seq<char>)>, key: Option<Seq<u8>>, allow_missing: bool, i: int)
    requires
        0 <= i <= vars.len(),
        spec_manifest_lines(store, vars.take(i), env, rules, key, allow_missing) is Err,
    ensures
        spec_manifest_lines(store, vars, env, rules, key, allow_missing) == spec_manifest_lines(
            store,
            vars.take(i),
            env,
            rules,
            key,
            allow_missing,
        ),
    decreases vars.len() - i,
{
    if i < vars.len() {
        assert(vars.take(i + 1).drop_last() =~= vars.take(i));
        lemma_manifest_err(store, vars, env, rules, key, allow_missing, i + 1);
    } else {
        assert(vars.take(i) =~= vars);
    }
}

/// The lines of a component's env file from its manifest: `VAR=value` for
/// each var; skipped values are recorded in `warnings`.
pub fn render_manifest(
    name: &str,
    config: &ComponentConfig,
    overrides: &[OverrideRule],
    store: &Store,
    manifest: &Manifest,
    allow_missing: bool,
    key: Option<&EncryptionKey>,
    warnings: &mut Vec<AssembleWarning>,
) -> (r: Result<Vec<String>, AssembleError>)
    requires
        store.wf(),
        key matches Some(k) ==> k.wf(),
    ensures
        ({
            let res = spec_manifest_lines(
                store@,
                manifest.vars@,
                config.env@,
                rule_views(overrides@),
                key_view(key),
                allow_missing,
            );
            &&& r matches Ok(lines) ==> res == Ok::<Seq<Seq<char>>, Failure>(views(lines@))
            &&& r matches Err(e) ==> (res matches Err(f) && e matches AssembleError::Unresolved {
                failure,
                component,
                ..
            } && failure == f && component@ == name@)
            &&& r is Ok ==> warning_views(final(warnings)@) == warning_views(old(warnings)@)
                + spec_manifest_warnings(
                store@,
                manifest.vars@,
                config.env@,
                rule_views(overrides@),
                allow_missing,
            )
            &&& r is Err ==> warning_views(old(warnings)@).is_prefix_of(warning_views(final(warnings)@))
        }),
{
    let ghost vars = manifest.vars@;
    let ghost rules = rule_views(overrides@);
    let ghost w0 = warning_views(warnings@);
    let mut lines: Vec<String> = Vec::new();
    let mut i: usize = 0;
    assert(vars.take(0) =~= Seq::<(String, String)>::empty());
    assert(views(lines@) =~= Seq::<Seq<char>>::empty());
    assert(w0 + Seq::empty() =~= w0);
    while i < manifest.vars.len()
        invariant
            store.wf(),
            key matches Some(k) ==> k.wf(),
            vars == manifest.vars@,
            rules == rule_views(overrides@),
            i <= vars.len(),
            spec_manifest_lines(store@, vars.take(i as int), config.env@, rules, key_view(key), allow_missing)
                == Ok::<Seq<Seq<char>>, Failure>(views(lines@)),
            w0 == warning_views(old(warnings)@),
            warning_views(warnings@) == w0 + spec_manifest_warnings(
                store@,
                vars.take(i as int),
                config.env@,
                rules,
                allow_missing,
            ),
        decreases manifest.vars.len() - i,
    {
        let ghost t = vars.take(i + 1);
        assert(t.drop_last() =~= vars.take(i as int));
        assert(t.last() == vars[i as int]);
        let (var, id) = &manifest.vars[i];
        let value = match resolve_item(
            name,
            id.as_str(),
            var.as_str(),
            config.env.as_str(),
            overrides,
            store,
            allow_missing,
            key,
            warnings,
        ) {
            Ok(v) => v,
            Err(e) => {
                proof {
                    lemma_manifest_err(store@, vars, config.env@, rules, key_view(key), allow_missing, i + 1);
                    assert(spec_warning(store@, id@, spec_resolve_env(id@, config.env@, rules), allow_missing) is None);
                    lemma_prefix_of_sum(
                        w0,
                        spec_manifest_warnings(store@, vars.take(i as int), config.env@, rules, allow_missing),
                    );
                }
                return Err(e);
            },
        };
        let text = match value {
            Some(v) => v,
            None => String::new(),
        };
        let head = concat(var.as_str(), "=");
        let line = concat(head.as_str(), text.as_str());
        let ghost l0 = views(lines@);
        lines.push(line);
        proof {
            assert(views(lines@) =~= l0.push(line@));
            let s0 = spec_manifest_warnings(store@, vars.take(i as int), config.env@, rules, allow_missing);
            let e = spec_resolve_env(id@, config.env@, rules);
            match spec_warning(store@, id@, e, allow_missing) {
                Some(m) => {
                    assert(w0 + s0.push((id@, var@, e, m)) =~= (w0 + s0).push((id@, var@, e, m)));
                },
                None => {},
            }
        }
        i = i + 1;
    }
    assert(vars.take(vars.len() as int) =~= vars);
    Ok(lines)
}

// ---------------------------------------------------------------------------
// Templates
// ---------------------------------------------------------------------------

/// The context a template expression reports in messages.
pub open spec fn expr_context(id: Seq<char>, component: Seq<char>) -> Seq<char> {
    "template expression '{{"@ + id + "}}' in component '"@ + component + "'"@
}

/// The warnings from filling the expressions of a line from the last down
/// to the `k`-th, in that order.
pub open spec fn spec_fill_warnings(store: StoreView, exprs: Seq<(int, int, Seq<char>)>, k: int, component: Seq<char>, env: Seq<char>, rules: Seq<(Seq<char>, Seq<char>)>, allow_missing: bool) -> Seq<(Seq<char>, Seq<char>, Seq<char>, bool)>
    decreases exprs.len() - k,
{
    if k < 0 || k >= exprs.len() {
        Seq::empty()
    } else {
        expr_warned(
            spec_fill_warnings(store, exprs, k + 1, component, env, rules, allow_missing),
            store,
            exprs[k].2,
            component,
            env,
            rules,
            allow_missing,
        )
    }
}

/// The warnings list after resolving the expression with inner text `inner`:
/// a warning when its item or value is missing and that is allowed.
pub open spec fn expr_warned(ws: Seq<(Seq<char>, Seq<char>, Seq<char>, bool)>, store: StoreView, inner: Seq<char>, component: Seq<char>, env: Seq<char>, rules: Seq<(Seq<char>, Seq<char>)>, allow_missing: bool) -> Seq<(Seq<char>, Seq<char>, Seq<char>, bool)> {
    match spec_parse_expression(inner) {
        Err(_) => ws,
        Ok((id, _)) => warned(
            ws,
            store,
            id,
            expr_context(inner, component),
            spec_resolve_env(id, env, rules),
            allow_missing,
        ),
    }
}

proof fn lemma_expr_warned_prefix(ws: Seq<(Seq<char>, Seq<char>, Seq<char>, bool)>, store: StoreView, inner: Seq<char>, component: Seq<char>, env: Seq<char>, rules: Seq<(Seq<char>, Seq<char>)>, allow_missing: bool)
    ensures
        ws.is_prefix_of(expr_warned(ws, store, inner, component, env, rules, allow_missing)),
{
    assert(ws.is_prefix_of(ws + Seq::empty())) by {
        lemma_prefix_of_sum(ws, Seq::<(Seq<char>, Seq<char>, Seq<char>, bool)>::empty());
    }
    assert(ws + Seq::<(Seq<char>, Seq<char>, Seq<char>, bool)>::empty() =~= ws);
    match spec_parse_expression(inner) {
        Err(_) => {},
        Ok((id, _)) => {
            let en = spec_resolve_env(id, env, rules);
            match spec_warning(store, id, en, allow_missing) {
                Some(m) => {
                    lemma_prefix_of_sum(ws, seq![(id, expr_context(inner, component), en, m)]);
                    assert(ws + seq![(id, expr_context(inner, component), en, m)] =~= ws.push((id, expr_context(inner, component), en, m)));
                },
                None => {},
            }
        },
    }
}

proof fn lemma_expr_warned_append(a: Seq<(Seq<char>, Seq<char>, Seq<char>, bool)>, b: Seq<(Seq<char>, Seq<char>, Seq<char>, bool)>, store: StoreView, inner: Seq<char>, component: Seq<char>, env: Seq<char>, rules: Seq<(Seq<char>, Seq<char>)>, allow_missing: bool)
    ensures
        expr_warned(a + b, store, inner, component, env, rules, allow_missing) == a + expr_warned(b, store, inner, component, env, rules, allow_missing),
{
    match spec_parse_expression(inner) {
        Err(_) => {},
        Ok((id, _)) => {
            let en = spec_resolve_env(id, env, rules);
            match spec_warning(store, id, en, allow_missing) {
                Some(m) => {
                    let w = (id, expr_context(inner, component), en, m);
                    assert((a + b).push(w) =~= a + b.push(w));
                },
                None => {},
            }
        },
    }
}

/// The text an expression with inner text `inner` stands for: its item's
/// value piped through its filters (empty when a missing value is skipped),
/// or why it has none.
pub open spec fn spec_expr_text(store: StoreView, inner: Seq<char>, env: Seq<char>, rules: Seq<(Seq<char>, Seq<char>)>, key: Option<Seq<u8>>, allow_missing: bool, lan: Option<Seq<char>>) -> Result<Seq<char>, Failure> {
    match spec_parse_expression(inner) {
        Err(_) => Err(Failure::UnknownFilter),
        Ok((id, fs)) => match spec_resolve(store, id, spec_resolve_env(id, env, rules), key, allow_missing) {
            Err(f) => Err(f),
            Ok(None) => Ok(Seq::empty()),
            Ok(Some(v)) => match spec_pipeline(v, fs, lan) {
                Err(x) => Err(Failure::Filter(x)),
                Ok(t) => Ok(t),
            },
        },
    }
}

/// The warnings from rendering these template lines, in order.
pub open spec fn spec_template_warnings(store: StoreView, lines: Seq<Seq<char>>, component: Seq<char>, env: Seq<char>, rules: Seq<(Seq<char>, Seq<char>)>, allow_missing: bool) -> Seq<(Seq<char>, Seq<char>, Seq<char>, bool)>
    decreases lines.len(),
{
    if lines.len() == 0 {
        Seq::empty()
    } else {
        spec_template_warnings(store, lines.drop_last(), component, env, rules, allow_missing)
            + spec_fill_warnings(store, exprs_from(lines.last(), 0), 0, component, env, rules, allow_missing)
    }
}

/// A line with its expressions replaced by their values, rightmost first;
/// or the failure of the first expression (from the right) that cannot be
/// resolved.
pub open spec fn spec_fill(store: StoreView, line: Seq<char>, exprs: Seq<(int, int, Seq<char>)>, env: Seq<char>, rules: Seq<(Seq<char>, Seq<char>)>, key: Option<Seq<u8>>, allow_missing: bool, lan: Option<Seq<char>>) -> Result<Seq<char>, Failure>
    decreases exprs.len(),
{
    if exprs.len() == 0 {
        Ok(line)
    } else {
        let (s, e, inner) = exprs.last();
        match spec_expr_text(store, inner, env, rules, key, allow_missing, lan) {
            Err(f) => Err(f),
            Ok(t) => spec_fill(
                store,
                line.take(s) + t + line.skip(e),
                exprs.drop_last(),
                env,
                rules,
                key,
                allow_missing,
                lan,
            ),
        }
    }
}

/// The lines of a rendered template, or the first failure (lines in order).
pub open spec fn spec_template_lines(store: StoreView, lines: Seq<Seq<char>>, env: Seq<char>, rules: Seq<(Seq<char>, Seq<char>)>, key: Option<Seq<u8>>, allow_missing: bool, lan: Option<Seq<char>>) -> Result<Seq<Seq<char>>, Failure>
    decreases lines.len(),
{
    if lines.len() == 0 {
        Ok(Seq::empty())
    } else {
        match spec_template_lines(store, lines.drop_last(), env, rules, key, allow_missing, lan) {
            Err(f) => Err(f),
            Ok(acc) => match spec_fill(
                store,
                lines.last(),
                exprs_from(lines.last(), 0),
                env,
                rules,
                key,
                allow_missing,
                lan,
            ) {
                Err(f) => Err(f),
                Ok(l) => Ok(acc.push(l)),
            },
        }
    }
}

/// The number of expressions in these lines.
pub open spec fn expr_count(lines: Seq<Seq<char>>) -> int
    decreases lines.len(),
{
    if lines.len() == 0 {
        0
    } else {
        expr_count(lines.drop_last()) + exprs_from(lines.last(), 0).len()
    }
}

/// A count that saturates at `usize::MAX`.
pub open spec fn capped(n: int) -> int {
    if n <= usize::MAX {
        n
    } else {
        usize::MAX as int
    }
}

proof fn lemma_expr_count_nonneg(lines: Seq<Seq<char>>)
    ensures
        expr_count(lines) >= 0,
    decreases lines.len(),
{
    if lines.len() > 0 {
        lemma_expr_count_nonneg(lines.drop_last());
    }
}

proof fn lemma_template_err(store: StoreView, lines: Seq<Seq<char>>, env: Seq<char>, rules: Seq<(Seq<char>, Seq<char>)>, key: Option<Seq<u8>>, allow_missing: bool, lan: Option<Seq<char>>, i: int)
    requires
        0 <= i <= lines.len(),
        spec_template_lines(store, lines.take(i), env, rules, key, allow_missing, lan) is Err,
    ensures
        spec_template_lines(store, lines, env, rules, key, allow_missing, lan) == spec_template_lines(
            store,
            lines.take(i),
            env,
            rules,
            key,
            allow_missing,
            lan,
        ),
    decreases lines.len() - i,
{
    if i < lines.len() {
        assert(lines.take(i + 1).drop_last() =~= lines.take(i));
        lemma_template_err(store, lines, env, rules, key, allow_missing, lan, i + 1);
    } else {
        assert(lines.take(i) =~= lines);
    }
}

/// `v` with the characters from `s` to `e` replaced by `w`.
fn splice(v: &Vec<char>, s: usize, e: usize, w: &Vec<char>) -> (r: Vec<char>)
    requires
        s <= e <= v.len(),
    ensures
        r@ == v@.take(s as int) + w@ + v@.skip(e as int),
{
    let mut r = slice_chars(v, 0, s);
    let mut k: usize = 0;
    let ghost r0 = r@;
    while k < w.len()
        invariant
            k <= w.len(),
            r@ == r0 + w@.take(k as int),
        decreases w.len() - k,
    {
        r.push(w[k]);
        k = k + 1;
        assert(w@.take(k as int) =~= w@.take((k - 1) as int).push(w@[k - 1]));
    }
    let tail = slice_chars(v, e, v.len());
    let ghost r1 = r@;
    let mut j: usize = 0;
    while j < tail.len()
        invariant
            j <= tail.len(),
            r@ == r1 + tail@.take(j as int),
        decreases tail.len() - j,
    {
        r.push(tail[j]);
        j = j + 1;
        assert(tail@.take(j as int) =~= tail@.take((j - 1) as int).push(tail@[j - 1]));
    }
    assert(w@.take(w.len() as int) =~= w@);
    assert(tail@.take(tail.len() as int) =~= tail@);
    assert(v@.subrange(0, s as int) =~= v@.take(s as int));
    assert(v@.subrange(e as int, v.len() as int) =~= v@.skip(e as int));
    r
}

/// The context string for a template expression.
fn expression_context(id: &str, component: &str) -> (r: String)
    ensures
        r@ == expr_context(id@, component@),
{
    let a = concat("template expression '{{", id);
    let b = concat(a.as_str(), "}}' in component '");
    let c = concat(b.as_str(), component);
    concat(c.as_str(), "'")
}

/// The text of the expression with inner text `inner`: its item resolved
/// and piped through its filters; a skipped missing value is recorded in
/// `warnings` and gives the empty text.
fn expr_text(
    name: &str,
    inner: &String,
    env: &str,
    overrides: &[OverrideRule],
    store: &Store,
    allow_missing: bool,
    key: Option<&EncryptionKey>,
    lan: &Option<String>,
    warnings: &mut Vec<AssembleWarning>,
) -> (r: Result<String, AssembleError>)
    requires
        store.wf(),
        key matches Some(k) ==> k.wf(),
    ensures
        ({
            let res = spec_expr_text(store@, inner@, env@, rule_views(overrides@), key_view(key), allow_missing, opt_view(*lan));
            &&& r matches Ok(t) ==> res == Ok::<Seq<char>, Failure>(t@)
            &&& r matches Err(e) ==> (res matches Err(f) && e matches AssembleError::Unresolved {
                failure,
                component,
                ..
            } && failure == f && component@ == name@)
            &&& warning_views(final(warnings)@) == expr_warned(
                warning_views(old(warnings)@),
                store@,
                inner@,
                name@,
                env@,
                rule_views(overrides@),
                allow_missing,
            )
        }),
{
    let context = expression_context(inner.as_str(), name);
    let (id, filters) = match parse_expression(inner.as_str()) {
        Ok(x) => x,
        Err(_) => {
            return Err(
                AssembleError::Unresolved {
                    component: owned(name),
                    item_id: inner.clone(),
                    context,
                    env: owned(env),
                    failure: Failure::UnknownFilter,
                },
            );
        },
    };
    let value = match resolve_item(name, id.as_str(), context.as_str(), env, overrides, store, allow_missing, key, warnings) {
        Ok(v) => v,
        Err(e) => {
            return Err(e);
        },
    };
    match value {
        None => Ok(String::new()),
        Some(v) => match apply_filters_with(v.as_str(), &filters, lan) {
            Ok(t) => Ok(t),
            Err(f) => Err(
                AssembleError::Unresolved {
                    component: owned(name),
                    item_id: id,
                    context,
                    env: owned(env),
                    failure: Failure::Filter(f),
                },
            ),
        },
    }
}

/// Fill one line's expressions, rightmost first.
fn fill_line(
    name: &str,
    line: &String,
    env: &str,
    overrides: &[OverrideRule],
    store: &Store,
    allow_missing: bool,
    key: Option<&EncryptionKey>,
    lan: &Option<String>,
    warnings: &mut Vec<AssembleWarning>,
) -> (r: Result<(String, usize), AssembleError>)
    requires
        store.wf(),
        key matches Some(k) ==> k.wf(),
    ensures
        ({
            let res = spec_fill(
                store@,
                line@,
                exprs_from(line@, 0),
                env@,
                rule_views(overrides@),
                key_view(key),
                allow_missing,
                opt_view(*lan),
            );
            &&& r matches Ok((l, n)) ==> res == Ok::<Seq<char>, Failure>(l@) && n == exprs_from(
                line@,
                0,
            ).len()
            &&& r matches Err(e) ==> (res matches Err(f) && e matches AssembleError::Unresolved {
                failure,
                component,
                ..
            } && failure == f && component@ == name@)
            &&& r is Ok ==> warning_views(final(warnings)@) == warning_views(old(warnings)@)
                + spec_fill_warnings(
                store@,
                exprs_from(line@, 0),
                0,
                name@,
                env@,
                rule_views(overrides@),
                allow_missing,
            )
            &&& r is Err ==> warning_views(old(warnings)@).is_prefix_of(warning_views(final(warnings)@))
        }),
{
    let ghost w0 = warning_views(warnings@);
    let exprs = expression_spans(line.as_str());
    let ghost ex = exprs_from(line@, 0);
    let ghost rules = rule_views(overrides@);
    proof {
        lemma_exprs_in_bounds(line@, 0);
    }
    let mut cur = chars_of(line.as_str());
    let mut k: usize = exprs.len();
    assert(ex.take(ex.len() as int) =~= ex);
    assert(cur@ == line@);
    assert(w0 + Seq::empty() =~= w0);
    while k > 0
        invariant
            store.wf(),
            key matches Some(kk) ==> kk.wf(),
            rules == rule_views(overrides@),
            ex == exprs_from(line@, 0),
            k <= exprs@.len(),
            exprs@.len() == ex.len(),
            forall|j: int|
                0 <= j < exprs@.len() ==> {
                    let (s, e, id) = #[trigger] exprs@[j];
                    let (s2, e2, id2) = ex[j];
                    s == s2 && e == e2 && id@ == id2
                },
            forall|j: int|
                0 <= j < ex.len() ==> (#[trigger] ex[j]).0 + 2 <= ex[j].1 <= line@.len(),
            forall|a: int, b: int| 0 <= a < b < ex.len() ==> (#[trigger] ex[a]).1 <= (#[trigger] ex[b]).0,
            k < ex.len() ==> ex[k as int].0 <= cur@.len(),
            k == ex.len() ==> cur@.len() == line@.len(),
            forall|j: int| 0 <= j < k ==> (#[trigger] ex[j]).1 <= cur@.len(),
            spec_fill(store@, line@, ex, env@, rules, key_view(key), allow_missing, opt_view(*lan)) == spec_fill(
                store@,
                cur@,
                ex.take(k as int),
                env@,
                rules,
                key_view(key),
                allow_missing,
                opt_view(*lan),
            ),
            w0 == warning_views(old(warnings)@),
            warning_views(warnings@) == w0 + spec_fill_warnings(
                store@,
                ex,
                k as int,
                name@,
                env@,
                rules,
                allow_missing,
            ),
        decreases k,
    {
        let (s, e, id) = &exprs[k - 1];
        let ghost t = ex.take(k as int);
        assert(t.last() == ex[k - 1]);
        assert(t.drop_last() =~= ex.take(k - 1));
        let ghost wv = warning_views(warnings@);
        let value = match expr_text(name, id, env, overrides, store, allow_missing, key, lan, warnings) {
            Ok(v) => v,
            Err(e) => {
                proof {
                    let p = spec_fill_warnings(store@, ex, k as int, name@, env@, rules, allow_missing);
                    lemma_prefix_of_sum(w0, p);
                    lemma_expr_warned_prefix(wv, store@, id@, name@, env@, rules, allow_missing);
                    lemma_prefix_trans(w0, wv, warning_views(warnings@));
                }
                return Err(e);
            },
        };
        let text = chars_of(value.as_str());
        let next = splice(&cur, *s, *e, &text);
        proof {
            let p = spec_fill_warnings(store@, ex, k as int, name@, env@, rules, allow_missing);
            lemma_expr_warned_append(w0, p, store@, id@, name@, env@, rules, allow_missing);
        }
        cur = next;
        k = k - 1;
        proof {
            assert forall|j: int| 0 <= j < k implies (#[trigger] ex[j]).1 <= cur@.len() by {
                assert(ex[j].1 <= ex[k as int].0);
            }
        }
    }
    assert(ex.take(0) =~= Seq::<(int, int, Seq<char>)>::empty());
    Ok((string_of(&cur), exprs.len()))
}

/// The lines of a component's env file from its template, and the number of
/// expressions resolved; skipped values are recorded in `warnings`.
pub fn render_template(
    name: &str,
    config: &ComponentConfig,
    overrides: &[OverrideRule],
    store: &Store,
    template: &Template,
    allow_missing: bool,
    key: Option<&EncryptionKey>,
    lan: &Option<String>,
    warnings: &mut Vec<AssembleWarning>,
) -> (r: Result<(Vec<String>, usize), AssembleError>)
    requires
        store.wf(),
        key matches Some(k) ==> k.wf(),
    ensures
        ({
            let res = spec_template_lines(
                store@,
                views(template.lines@),
                config.env@,
                rule_views(overrides@),
                key_view(key),
                allow_missing,
                opt_view(*lan),
            );
            &&& r matches Ok((lines, n)) ==> res == Ok::<Seq<Seq<char>>, Failure>(views(lines@)) && n
                == capped(expr_count(views(template.lines@)))
            &&& r matches Err(e) ==> (res matches Err(f) && e matches AssembleError::Unresolved {
                failure,
                component,
                ..
            } && failure == f && component@ == name@)
            &&& r is Ok ==> warning_views(final(warnings)@) == warning_views(old(warnings)@)
                + spec_template_warnings(
                store@,
                views(template.lines@),
                name@,
                config.env@,
                rule_views(overrides@),
                allow_missing,
            )
            &&& r is Err ==> warning_views(old(warnings)@).is_prefix_of(warning_views(final(warnings)@))
        }),
{
    let ghost w0 = warning_views(warnings@);
    let ghost ls = views(template.lines@);
    let ghost rules = rule_views(overrides@);
    let mut out: Vec<String> = Vec::new();
    let mut count: usize = 0;
    let mut i: usize = 0;
    assert(ls.take(0) =~= Seq::<Seq<char>>::empty());
    assert(views(out@) =~= Seq::<Seq<char>>::empty());
    assert(w0 + Seq::empty() =~= w0);
    while i < template.lines.len()
        invariant
            store.wf(),
            key matches Some(k) ==> k.wf(),
            ls == views(template.lines@),
            rules == rule_views(overrides@),
            i <= ls.len(),
            spec_template_lines(store@, ls.take(i as int), config.env@, rules, key_view(key), allow_missing, opt_view(*lan))
                == Ok::<Seq<Seq<char>>, Failure>(views(out@)),
            count == capped(expr_count(ls.take(i as int))),
            w0 == warning_views(old(warnings)@),
            warning_views(warnings@) == w0 + spec_template_warnings(
                store@,
                ls.take(i as int),
                name@,
                config.env@,
                rules,
                allow_missing,
            ),
        decreases template.lines.len() - i,
    {
        let ghost t = ls.take(i + 1);
        assert(t.drop_last() =~= ls.take(i as int));
        assert(t.last() == template.lines@[i as int]@);
        let ghost wv = warning_views(warnings@);
        let (l, n) = match fill_line(
            name,
            &template.lines[i],
            config.env.as_str(),
            overrides,
            store,
            allow_missing,
            key,
            lan,
            warnings,
        ) {
            Ok(x) => x,
            Err(e) => {
                proof {
                    lemma_template_err(store@, ls, config.env@, rules, key_view(key), allow_missing, opt_view(*lan), i + 1);
                    lemma_prefix_of_sum(
                        w0,
                        spec_template_warnings(store@, ls.take(i as int), name@, config.env@, rules, allow_missing),
                    );
                    lemma_prefix_trans(w0, wv, warning_views(warnings@));
                }
                return Err(e);
            },
        };
        let ghost o0 = views(out@);
        out.push(l);
        assert(views(out@) =~= o0.push(out@.last()@));
        if n > usize::MAX - count {
            count = usize::MAX;
        } else {
            count = count + n;
        }
        proof {
            lemma_expr_count_nonneg(ls.take(i as int));
            assert(expr_count(ls.take(i + 1)) == expr_count(ls.take(i as int)) + n);
            let a = spec_template_warnings(store@, ls.take(i as int), name@, config.env@, rules, allow_missing);
            let b = spec_fill_warnings(store@, exprs_from(ls[i as int], 0), 0, name@, config.env@, rules, allow_missing);
            assert(w0 + a + b =~= w0 + (a + b));
        }
        i = i + 1;
    }
    assert(ls.take(ls.len() as int) =~= ls);
    Ok((out, count))
}

// ---------------------------------------------------------------------------
// Components and runs
// ---------------------------------------------------------------------------

/// The components a run assembles, in order; `Err(0)` when the topology is
/// unknown, `Err(1)` when the requested component is not in it.
pub open spec fn spec_select(ts: Seq<(String, Topology)>, topology: Seq<char>, component: Option<Seq<char>>) -> Result<Seq<Seq<char>>, int> {
    match lookup(ts, topology) {
        None => Err(0),
        Some(t) => match component {
            None => Ok(keys_of(t.components@)),
            Some(c) => if has_key(t.components@, c) {
                Ok(seq![c])
            } else {
                Err(1)
            },
        },
    }
}

/// Which selection error `e` is, with the names it reports.
pub open spec fn select_error(e: AssembleError, topology: Seq<char>, component: Option<Seq<char>>) -> int {
    match e {
        AssembleError::TopologyNotFound { topology: t } => if t@ == topology {
            0
        } else {
            -1
        },
        AssembleError::ComponentNotFound { component: c, topology: t } => if t@ == topology
            && component == Some(c@) {
            1
        } else {
            -1
        },
        _ => -1,
    }
}

/// The names of the components to assemble: every component of the topology
/// in name order, or the one requested.
pub fn select_components(topologies: &Vec<(String, Topology)>, args: &AssembleArgs) -> (r: Result<Vec<String>, AssembleError>)
    requires
        sorted_keys(topologies@),
        forall|i: int| 0 <= i < topologies@.len() ==> (#[trigger] topologies@[i]).1.wf(),
    ensures
        r matches Ok(names) ==> spec_select(topologies@, args.topology@, opt_view(args.component))
            == Ok::<Seq<Seq<char>>, int>(views(names@)),
        r matches Err(e) ==> spec_select(topologies@, args.topology@, opt_view(args.component))
            == Err::<Seq<Seq<char>>, int>(select_error(e, args.topology@, opt_view(args.component))),
{
    let topo = match get_value(topologies, args.topology.as_str()) {
        Some(t) => t,
        None => {
            return Err(AssembleError::TopologyNotFound { topology: args.topology.clone() });
        },
    };
    proof {
        let i = choose|i: int| 0 <= i < topologies@.len() && #[trigger] topologies@[i].0@ == args.topology@;
        lemma_lookup_at(topologies@, i);
        assert(topo.wf());
    }
    match &args.component {
        Some(c) => {
            if find_index(&topo.components, c.as_str()).is_some() {
                let mut v: Vec<String> = Vec::new();
                v.push(c.clone());
                assert(views(v@) =~= seq![c@]);
                Ok(v)
            } else {
                Err(AssembleError::ComponentNotFound { component: c.clone(), topology: args.topology.clone() })
            }
        },
        None => {
            let mut v: Vec<String> = Vec::new();
            let mut i: usize = 0;
            while i < topo.components.len()
                invariant
                    i <= topo.components@.len(),
                    views(v@) == keys_of(topo.components@).take(i as int),
                decreases topo.components.len() - i,
            {
                let ghost v0 = v@;
                let key = topo.components[i].0.clone();
                v.push(key);
                assert(views(v@) =~= views(v0).push(key@));
                i = i + 1;
                assert(views(v@) =~= keys_of(topo.components@).take(i as int));
            }
            assert(keys_of(topo.components@).take(i as int) =~= keys_of(topo.components@));
            Ok(v)
        },
    }
}

/// The target a component source writes to, relative to the component.
pub open spec fn source_target(source: ComponentSource) -> Seq<char> {
    match source {
        ComponentSource::Manifest(m) => m.target@,
        ComponentSource::Template(t) => t.target@,
    }
}

/// The lines a component source gives, or the first failure.
pub open spec fn spec_source_lines(store: StoreView, source: ComponentSource, env: Seq<char>, rules: Seq<(Seq<char>, Seq<char>)>, key: Option<Seq<u8>>, allow_missing: bool, lan: Option<Seq<char>>) -> Result<Seq<Seq<char>>, Failure> {
    match source {
        ComponentSource::Manifest(m) => spec_manifest_lines(store, m.vars@, env, rules, key, allow_missing),
        ComponentSource::Template(t) => spec_template_lines(store, views(t.lines@), env, rules, key, allow_missing, lan),
    }
}

/// The warnings from assembling a component from its source.
pub open spec fn spec_source_warnings(store: StoreView, source: ComponentSource, component: Seq<char>, env: Seq<char>, rules: Seq<(Seq<char>, Seq<char>)>, allow_missing: bool) -> Seq<(Seq<char>, Seq<char>, Seq<char>, bool)> {
    match source {
        ComponentSource::Manifest(m) => spec_manifest_warnings(store, m.vars@, env, rules, allow_missing),
        ComponentSource::Template(t) => spec_template_warnings(store, views(t.lines@), component, env, rules, allow_missing),
    }
}

/// Pick a component's source from what its directory holds: its parsed
/// manifest, and the contents of `env.template` and `.env.template`, where
/// present. The manifest wins, then `env.template`, then `.env.template`.
pub fn discover_component_source(
    component: &str,
    manifest: Option<Manifest>,
    env_template: Option<&str>,
    dot_env_template: Option<&str>,
) -> (r: Result<ComponentSource, AssembleError>)
    ensures
        manifest matches Some(m) ==> r == Ok::<ComponentSource, AssembleError>(ComponentSource::Manifest(m)),
        manifest is None ==> (env_template matches Some(c) ==> (r matches Ok(ComponentSource::Template(t))
            && t.target@ == template_target(c@, "env.template"@) && views(t.lines@) == template_lines(
            c@,
        ))),
        manifest is None && env_template is None ==> (dot_env_template matches Some(c) ==> (r matches Ok(
            ComponentSource::Template(t),
        ) && t.target@ == template_target(c@, ".env.template"@) && views(t.lines@) == template_lines(
            c@,
        ))),
        manifest is None && env_template is None && dot_env_template is None ==> (r matches Err(
            AssembleError::NoSource { component: c },
        ) && c@ == component@),
{
    match manifest {
        Some(m) => Ok(ComponentSource::Manifest(m)),
        None => match env_template {
            Some(c) => {
                let name = "env.template";
                proof {
                    reveal_strlit("env.template");
                }
                Ok(ComponentSource::Template(parse_template(c, name)))
            },
            None => match dot_env_template {
                Some(c) => {
                    let name = ".env.template";
                    proof {
                        reveal_strlit(".env.template");
                    }
                    Ok(ComponentSource::Template(parse_template(c, name)))
                },
                None => Err(AssembleError::NoSource { component: owned(component) }),
            },
        },
    }
}

/// One assembled env file: the component, its directory, the file it writes
/// (relative to the directory) and its lines.
pub struct AssembledFile {
    pub component: String,
    pub dir: String,
    pub target: String,
    pub lines: Vec<String>,
}

/// The lines of one component's env file from its source.
pub fn assemble_component(
    name: &str,
    config: &ComponentConfig,
    overrides: &[OverrideRule],
    store: &Store,
    source: &ComponentSource,
    allow_missing: bool,
    key: Option<&EncryptionKey>,
    lan: &Option<String>,
    warnings: &mut Vec<AssembleWarning>,
) -> (r: Result<AssembledFile, AssembleError>)
    requires
        store.wf(),
        key matches Some(k) ==> k.wf(),
    ensures
        ({
            let res = spec_source_lines(
                store@,
                *source,
                config.env@,
                rule_views(overrides@),
                key_view(key),
                allow_missing,
                opt_view(*lan),
            );
            &&& r matches Ok(f) ==> res == Ok::<Seq<Seq<char>>, Failure>(views(f.lines@))
                && f.component@ == name@ && f.dir@ == config.path@ && f.target@ == source_target(
                *source,
            )
            &&& r matches Err(e) ==> (res matches Err(fl) && e matches AssembleError::Unresolved {
                failure,
                component,
                ..
            } && failure == fl && component@ == name@)
            &&& r is Ok ==> warning_views(final(warnings)@) == warning_views(old(warnings)@)
                + spec_source_warnings(
                store@,
                *source,
                name@,
                config.env@,
                rule_views(overrides@),
                allow_missing,
            )
            &&& r is Err ==> warning_views(old(warnings)@).is_prefix_of(warning_views(final(warnings)@))
        }),
{
    match source {
        ComponentSource::Manifest(m) => {
            let lines = render_manifest(name, config, overrides, store, m, allow_missing, key, warnings)?;
            Ok(AssembledFile { component: owned(name), dir: config.path.clone(), target: m.target.clone(), lines })
        },
        ComponentSource::Template(t) => {
            let (lines, _n) = render_template(name, config, overrides, store, t, allow_missing, key, lan, warnings)?;
            Ok(AssembledFile { component: owned(name), dir: config.path.clone(), target: t.target.clone(), lines })
        },
    }
}

/// The override rules a topology gives a component (none when it lists none).
pub open spec fn rules_for(topo: Topology, name: Seq<char>) -> Seq<(Seq<char>, Seq<char>)> {
    match lookup(topo.overrides@, name) {
        Some(rl) => rl@,
        None => Seq::empty(),
    }
}

/// The lines the `i`th selected component gives.
pub open spec fn spec_nth_lines(topo: Topology, names: Seq<String>, sources: Seq<ComponentSource>, store: StoreView, key: Option<Seq<u8>>, allow_missing: bool, lan: Option<Seq<char>>, i: int) -> Result<Seq<Seq<char>>, Failure> {
    spec_source_lines(
        store,
        sources[i],
        lookup(topo.components@, names[i]@)->0.env@,
        rules_for(topo, names[i]@),
        key,
        allow_missing,
        lan,
    )
}

/// The warnings from assembling the first `n` components.
pub open spec fn spec_run_warnings(topo: Topology, names: Seq<String>, sources: Seq<ComponentSource>, store: StoreView, allow_missing: bool, n: int) -> Seq<(Seq<char>, Seq<char>, Seq<char>, bool)>
    decreases n,
{
    if n <= 0 {
        Seq::empty()
    } else {
        spec_run_warnings(topo, names, sources, store, allow_missing, n - 1) + spec_source_warnings(
            store,
            sources[n - 1],
            names[n - 1]@,
            lookup(topo.components@, names[n - 1]@)->0.env@,
            rules_for(topo, names[n - 1]@),
            allow_missing,
        )
    }
}

/// The result of assembling a list of components: the files assembled, in
/// order, up to the first component that failed, and that failure.
pub struct AssemblyOutcome {
    pub files: Vec<AssembledFile>,
    pub warnings: Vec<AssembleWarning>,
    pub error: Option<AssembleError>,
}

/// What assembling the named components of `topo` from their sources gives,
/// when the LAN address is `lan`: the files of the components in order, up
/// to the first component that fails, that failure, and the warnings.
pub open spec fn assembled(r: AssemblyOutcome, topo: Topology, names: Seq<String>, sources: Seq<ComponentSource>, store: StoreView, allow_missing: bool, key: Option<Seq<u8>>, lan: Option<Seq<char>>) -> bool {
    &&& r.files@.len() <= sources.len()
    &&& r.error is None ==> r.files@.len() == sources.len()
    &&& forall|i: int|
        0 <= i < r.files@.len() ==> {
            let f = #[trigger] r.files@[i];
            &&& spec_nth_lines(topo, names, sources, store, key, allow_missing, lan, i)
                == Ok::<Seq<Seq<char>>, Failure>(views(f.lines@))
            &&& f.component@ == names[i]@
            &&& f.dir@ == lookup(topo.components@, names[i]@)->0.path@
            &&& f.target@ == source_target(sources[i])
        }
    &&& r.error matches Some(e) ==> ({
        let k = r.files@.len() as int;
        &&& k < sources.len()
        &&& spec_nth_lines(topo, names, sources, store, key, allow_missing, lan, k) matches Err(fl)
        &&& e matches AssembleError::Unresolved { failure, component, .. }
        &&& failure == fl
        &&& component@ == names[k]@
    })
    &&& r.error is Some ==> spec_run_warnings(topo, names, sources, store, allow_missing, r.files@.len() as int).is_prefix_of(
        warning_views(r.warnings@),
    )
    &&& r.error is None ==> warning_views(r.warnings@) == spec_run_warnings(
        topo,
        names,
        sources,
        store,
        allow_missing,
        sources.len() as int,
    )
}

/// Assemble the named components of `topo` from their sources (`sources[i]`
/// belongs to `names[i]`), stopping at the first component that fails; the
/// `local_ip` filter uses this machine's LAN address, looked up once.
pub fn assemble(
    topo: &Topology,
    names: &Vec<String>,
    sources: &Vec<ComponentSource>,
    store: &Store,
    allow_missing: bool,
    key: Option<&EncryptionKey>,
) -> (r: AssemblyOutcome)
    requires
        topo.wf(),
        store.wf(),
        key matches Some(k) ==> k.wf(),
        sources@.len() <= names@.len(),
        forall|i: int| 0 <= i < names@.len() ==> has_key(topo.components@, #[trigger] names@[i]@),
    ensures
        exists|lan: Option<Seq<char>>|
            #[trigger] assembled(r, *topo, names@, sources@, store@, allow_missing, key_view(key), lan),
{
    let lan = lan_address();
    let r = assemble_with_lan(topo, names, sources, store, allow_missing, key, &lan);
    assert(assembled(r, *topo, names@, sources@, store@, allow_missing, key_view(key), opt_view(lan)));
    r
}

/// Assemble the named components of `topo` from their sources (`sources[i]`
/// belongs to `names[i]`), stopping at the first component that fails, with
/// `lan` as the LAN address that the `local_ip` filter puts in.
pub fn assemble_with_lan(
    topo: &Topology,
    names: &Vec<String>,
    sources: &Vec<ComponentSource>,
    store: &Store,
    allow_missing: bool,
    key: Option<&EncryptionKey>,
    lan: &Option<String>,
) -> (r: AssemblyOutcome)
    requires
        topo.wf(),
        store.wf(),
        key matches Some(k) ==> k.wf(),
        sources@.len() <= names@.len(),
        forall|i: int| 0 <= i < names@.len() ==> has_key(topo.components@, #[trigger] names@[i]@),
    ensures
        assembled(r, *topo, names@, sources@, store@, allow_missing, key_view(key), opt_view(*lan)),
{
    let mut files: Vec<AssembledFile> = Vec::new();
    let mut warnings: Vec<AssembleWarning> = Vec::new();
    assert(warning_views(warnings@) =~= Seq::empty());
    let empty: Vec<OverrideRule> = Vec::new();
    let mut i: usize = 0;
    while i < sources.len()
        invariant
            topo.wf(),
            store.wf(),
            key matches Some(k) ==> k.wf(),
            sources@.len() <= names@.len(),
            forall|j: int| 0 <= j < names@.len() ==> has_key(topo.components@, #[trigger] names@[j]@),
            empty@.len() == 0,
            i <= sources@.len(),
            files@.len() == i,
            warning_views(warnings@) == spec_run_warnings(*topo, names@, sources@, store@, allow_missing, i as int),
            forall|j: int|
                0 <= j < files@.len() ==> {
                    let f = #[trigger] files@[j];
                    &&& spec_nth_lines(*topo, names@, sources@, store@, key_view(key), allow_missing, opt_view(*lan), j)
                        == Ok::<Seq<Seq<char>>, Failure>(views(f.lines@))
                    &&& f.component@ == names@[j]@
                    &&& f.dir@ == lookup(topo.components@, names@[j]@)->0.path@
                    &&& f.target@ == source_target(sources@[j])
                },
        decreases sources.len() - i,
    {
        let name = &names[i];
        assert(has_key(topo.components@, names@[i as int]@));
        let config = match get_value(&topo.components, name.as_str()) {
            Some(c) => c,
            None => {
                proof {
                    assert(false);
                }
                return AssemblyOutcome { files, warnings, error: None };
            },
        };
        let rules: &[OverrideRule] = match get_value(&topo.overrides, name.as_str()) {
            Some(rl) => rl.rules.as_slice(),
            None => empty.as_slice(),
        };
        assert(rule_views(rules@) =~= rules_for(*topo, names@[i as int]@));
        match assemble_component(
            name.as_str(),
            config,
            rules,
            store,
            &sources[i],
            allow_missing,
            key,
            lan,
            &mut warnings,
        ) {
            Ok(f) => {
                files.push(f);
                proof {
                    assert(spec_run_warnings(*topo, names@, sources@, store@, allow_missing, i + 1)
                        == spec_run_warnings(*topo, names@, sources@, store@, allow_missing, i as int)
                        + spec_source_warnings(
                        store@,
                        sources@[i as int],
                        names@[i as int]@,
                        config.env@,
                        rule_views(rules@),
                        allow_missing,
                    ));
                }
            },
            Err(e) => {
                return AssemblyOutcome { files, warnings, error: Some(e) };
            },
        }
        i = i + 1;
    }
    AssemblyOutcome { files, warnings, error: None }
}

} // verus!
