//! The store commands `set`, `get`, `list` and `remove`, computed on a loaded
//! store: the caller loads and saves the store, prompts and prints.
use vstd::prelude::*;

use crate::assemble::key_view;
use crate::cli::{GetArgs, ListArgs, RemoveArgs, SetArgs};
use crate::crypto::{
    decrypt_value, encrypt_value, parse_sensitivity, spec_decrypt, spec_parse_sensitivity, tag_of,
    utf8, CryptoError, EncryptionKey, SensitivityLevel,
};
use crate::smap::{lookup, sorted_keys};
use crate::store::{
    opt_view, apply_default_environments, first_value_level, first_value_level_exec, infer_sensitivity_level,
    sensitivity_level_from_flags, spec_infer_level, spec_level_from_flags, with_default_environments,
    Item, ItemView, Sensitivity, Store,
};
use crate::text::{concat, join, join_strings, owned, views};

verus! {

/// What went wrong, without the name it concerns.
#[derive(Debug, Clone, Copy, PartialEq, Eq, Structural)]
pub enum Fault {
    /// No item has the ID.
    ItemNotFound,
    /// The item has no value for the environment.
    NoValue,
    /// A value must be encrypted or decrypted and no key is loaded.
    NoKey,
    /// Encryption or decryption failed.
    Crypto(CryptoError),
}

/// A command's failure: what went wrong, and the item ID or environment it
/// concerns.
#[derive(Debug)]
pub struct CommandError {
    pub fault: Fault,
    pub subject: String,
}

/// A failure as a fault and the name it concerns.
pub open spec fn err_view(e: CommandError) -> (Fault, Seq<char>) {
    (e.fault, e.subject@)
}

// ---------------------------------------------------------------------------
// Storing values
// ---------------------------------------------------------------------------

/// Whether `stored` is how `value` is kept at `level` under `key`: the value
/// itself without a level, else an encryption of it that declares the level
/// and decrypts back to it.
pub open spec fn stores(stored: Seq<char>, value: Seq<char>, level: Option<SensitivityLevel>, key: Option<Seq<u8>>) -> bool {
    match level {
        None => stored == value,
        Some(l) => match key {
            None => false,
            Some(k) => spec_parse_sensitivity(stored) == Some(l) && spec_decrypt(stored, k) == Ok::<
                Seq<char>,
                CryptoError,
            >(value),
        },
    }
}

/// Why `value` cannot be kept at `level`: no key to encrypt with, or too long
/// to encrypt.
pub open spec fn store_fault(value: Seq<char>, level: Option<SensitivityLevel>, key: Option<Seq<u8>>) -> Option<Fault> {
    match level {
        None => None,
        Some(_) => match key {
            None => Some(Fault::NoKey),
            Some(_) => if crate::crypto::encryptable(utf8(value).len() as int) {
                None
            } else {
                Some(Fault::Crypto(CryptoError::EncryptionFailed))
            },
        },
    }
}

/// The form in which `value` is stored: encrypted at `level` when there is
/// one, else as is.
pub fn stored_form(value: &str, level: Option<SensitivityLevel>, key: Option<&EncryptionKey>) -> (r: Result<String, Fault>)
    requires
        key matches Some(k) ==> k.wf(),
    ensures
        r matches Ok(s) ==> store_fault(value@, level, key_view(key)) is None && stores(
            s@,
            value@,
            level,
            key_view(key),
        ),
        r matches Err(f) ==> store_fault(value@, level, key_view(key)) == Some(f),
{
    match level {
        None => Ok(owned(value)),
        Some(l) => match key {
            None => Err(Fault::NoKey),
            Some(k) => match encrypt_value(value, l, k) {
                Ok(s) => Ok(s),
                Err(e) => Err(Fault::Crypto(e)),
            },
        },
    }
}

/// `values` with `v` stored for each of `envs`.
pub open spec fn set_all(values: Map<Seq<char>, Seq<char>>, envs: Seq<Seq<char>>, v: Seq<char>) -> Map<Seq<char>, Seq<char>>
    decreases envs.len(),
{
    if envs.len() == 0 {
        values
    } else {
        set_all(values, envs.drop_last(), v).insert(envs.last(), v)
    }
}

/// Stores `v` for each of `envs` on `item`.
fn set_values(item: &mut Item, envs: &Vec<String>, v: &String)
    requires
        old(item).wf(),
    ensures
        final(item).wf(),
        final(item)@ == old(item)@.with_values(set_all(old(item)@.values, views(envs@), v@)),
{
    let ghost base = item@;
    let mut i: usize = 0;
    assert(views(envs@).take(0) =~= Seq::<Seq<char>>::empty());
    while i < envs.len()
        invariant
            item.wf(),
            i <= envs@.len(),
            item@ == base.with_values(set_all(base.values, views(envs@).take(i as int), v@)),
        decreases envs.len() - i,
    {
        let ghost t = views(envs@).take(i + 1);
        assert(t.drop_last() =~= views(envs@).take(i as int));
        assert(t.last() == envs@[i as int]@);
        item.set_value(envs[i].as_str(), v.clone());
        i = i + 1;
    }
    assert(views(envs@).take(envs@.len() as int) =~= views(envs@));
}

/// The level a value is stored at: the one the flags ask for, else the one the
/// item calls for.
pub open spec fn spec_set_level(items: Seq<(String, Item)>, id: Seq<char>, sensitive: bool, secret: bool) -> Option<SensitivityLevel> {
    match spec_level_from_flags(sensitive, secret) {
        Some(l) => Some(l),
        None => spec_infer_level(items, id),
    }
}

/// `Set <id> for <env>, <env>...`
pub open spec fn set_message(id: Seq<char>, envs: Seq<Seq<char>>) -> Seq<char> {
    "Set "@ + id + " for "@ + join(envs, ", "@)
}

fn make_set_message(id: &str, envs: &Vec<String>) -> (r: String)
    ensures
        r@ == set_message(id@, views(envs@)),
{
    let a = concat("Set ", id);
    let b = concat(a.as_str(), " for ");
    let j = join_strings(envs, ", ");
    concat(b.as_str(), j.as_str())
}

/// The item under `id` once `stored` is set for `envs`, with the store's
/// default environments where it declares none.
pub open spec fn item_after_set(store: crate::store::StoreView, id: Seq<char>, envs: Seq<Seq<char>>, stored: Seq<char>) -> ItemView {
    let base = store.item_or_empty(id);
    with_default_environments(store.default_environments, base.with_values(set_all(base.values, envs, stored)))
}

/// Whether `set` has all it needs to run without prompting: an ID, a value
/// and at least one environment.
pub fn is_direct(args: &SetArgs) -> (r: bool)
    ensures
        r == (args.id is Some && args.value is Some && args.env@.len() > 0),
{
    args.id.is_some() && args.value.is_some() && args.env.len() > 0
}

/// `set <id> -e <env>... <value>`: stores `value` for each environment,
/// encrypted at the level the flags ask for, else at the level the item
/// calls for; returns the message to print.
pub fn set_direct(
    store: &mut Store,
    id: &str,
    value: &str,
    envs: &Vec<String>,
    sensitive: bool,
    secret: bool,
    key: Option<&EncryptionKey>,
) -> (r: Result<String, CommandError>)
    requires
        old(store).wf(),
        key matches Some(k) ==> k.wf(),
    ensures
        final(store).wf(),
        ({
            let level = spec_set_level(old(store).items@, id@, sensitive, secret);
            let fault = store_fault(value@, level, key_view(key));
            &&& r is Err <==> fault is Some
            &&& r matches Err(e) ==> Some(e.fault) == fault && e.subject@ == id@ && final(store)@ == old(store)@
            &&& r matches Ok(m) ==> m@ == set_message(id@, views(envs@)) && exists|stored: Seq<char>|
                stores(stored, value@, level, key_view(key)) && final(store)@ == old(store)@.with_items(
                    old(store)@.items.insert(id@, item_after_set(old(store)@, id@, views(envs@), stored)),
                )
        }),
{
    let level = match sensitivity_level_from_flags(sensitive, secret) {
        Some(l) => Some(l),
        None => infer_sensitivity_level(store, id),
    };
    let stored = match stored_form(value, level, key) {
        Ok(s) => s,
        Err(f) => {
            return Err(CommandError { fault: f, subject: owned(id) });
        },
    };
    let mut item = store.item_or_empty(id);
    set_values(&mut item, envs, &stored);
    apply_default_environments(&store.meta, &mut item);
    store.put(id, item);
    Ok(make_set_message(id, envs))
}

// ---------------------------------------------------------------------------
// Interactive `set`
// ---------------------------------------------------------------------------

/// The steps of an interactive `set`.
#[derive(Debug, Clone, Copy, PartialEq, Eq, Structural)]
pub enum SetStep {
    Id,
    Env,
    Sensitivity,
    Value,
    Description,
    Origin,
    Tags,
    /// The item was saved.
    Done,
    /// The user backed out; nothing was saved.
    Cancelled,
}

/// The state of an interactive `set`: the step it is at and what it has
/// gathered so far. The caller prompts for the step's answer and hands it to
/// the matching `answer_` method; Escape on a selection goes back one step.
pub struct SetWizard {
    pub step: SetStep,
    pub id: String,
    pub envs: Vec<String>,
    pub level: Option<SensitivityLevel>,
    /// A value given on the command line, used instead of prompting.
    pub preset_value: Option<String>,
    pub stored_value: String,
    pub description: Option<String>,
    pub origin: Option<String>,
    pub tags: Vec<String>,
    /// The environments offered for selection.
    pub env_options: Vec<String>,
    pub has_id: bool,
    pub has_env: bool,
    pub has_sensitivity: bool,
}

/// The environments offered: the store's defaults, else dev, prod, staging.
pub open spec fn spec_env_options(defaults: Seq<Seq<char>>) -> Seq<Seq<char>> {
    if defaults.len() == 0 {
        seq!["dev"@, "prod"@, "staging"@]
    } else {
        defaults
    }
}

/// The first step: sensitivity when ID and environments are given, the
/// environment when only the ID is, else the ID.
pub open spec fn first_step(has_id: bool, has_env: bool) -> SetStep {
    if has_id && has_env {
        SetStep::Sensitivity
    } else if has_id {
        SetStep::Env
    } else {
        SetStep::Id
    }
}

/// The level a sensitivity selection stands for (plaintext, sensitive, secret).
pub open spec fn selected_level(i: int) -> Option<SensitivityLevel> {
    if i == 1 {
        Some(SensitivityLevel::Sensitive)
    } else if i == 2 {
        Some(SensitivityLevel::Secret)
    } else {
        None
    }
}

/// The selection offered first for sensitivity: the item's declared one.
pub open spec fn spec_sensitivity_default(store: crate::store::StoreView, id: Seq<char>) -> int {
    if store.items.contains_key(id) {
        match store.items[id].sensitivity {
            Some(Sensitivity::Sensitive) => 1,
            Some(Sensitivity::Secret) => 2,
            _ => 0,
        }
    } else {
        0
    }
}

/// An optional answer: `None` when the input is empty.
pub open spec fn optional(input: Seq<char>) -> Option<Seq<char>> {
    if input.len() == 0 {
        None
    } else {
        Some(input)
    }
}

/// The tags a comma-separated answer gives (none for an empty answer).
pub open spec fn spec_tags(input: Seq<char>) -> Seq<Seq<char>> {
    if input.len() == 0 {
        Seq::empty()
    } else {
        crate::text::split_on(input, ',').map_values(|p: Seq<char>| crate::text::trim(p))
    }
}

/// The sensitivity a level is declared as.
pub open spec fn declared(level: Option<SensitivityLevel>, current: Option<Sensitivity>) -> Option<Sensitivity> {
    match level {
        Some(SensitivityLevel::Sensitive) => Some(Sensitivity::Sensitive),
        Some(SensitivityLevel::Secret) => Some(Sensitivity::Secret),
        None => current,
    }
}

/// The item an interactive `set` saves: values for its environments, the
/// metadata it was given (what was left empty stays), and its environments.
pub open spec fn wizard_item(
    item: ItemView,
    envs: Seq<Seq<char>>,
    stored: Seq<char>,
    description: Option<Seq<char>>,
    origin: Option<Seq<char>>,
    tags: Seq<Seq<char>>,
    level: Option<SensitivityLevel>,
) -> ItemView {
    ItemView {
        description: if description is Some {
            description
        } else {
            item.description
        },
        sensitivity: declared(level, item.sensitivity),
        origin: if origin is Some {
            origin
        } else {
            item.origin
        },
        environments: envs,
        tags: if tags.len() > 0 {
            tags
        } else {
            item.tags
        },
        values: set_all(item.values, envs, stored),
    }
}

/// The environments offered for selection.
pub fn env_options(meta: &crate::store::StoreMeta) -> (r: Vec<String>)
    ensures
        views(r@) == spec_env_options(views(meta.default_environments@)),
{
    if meta.default_environments.len() == 0 {
        let mut v: Vec<String> = Vec::new();
        v.push(owned("dev"));
        v.push(owned("prod"));
        v.push(owned("staging"));
        assert(views(v@) =~= seq!["dev"@, "prod"@, "staging"@]);
        v
    } else {
        crate::store::clone_strings(&meta.default_environments)
    }
}

/// The selection offered first for sensitivity (0 plaintext, 1 sensitive,
/// 2 secret): the item's declared sensitivity.
pub fn sensitivity_default(store: &Store, id: &str) -> (r: usize)
    requires
        store.wf(),
    ensures
        r == spec_sensitivity_default(store@, id@),
{
    match store.get(id) {
        Some(item) => match item.sensitivity {
            Some(Sensitivity::Sensitive) => 1,
            Some(Sensitivity::Secret) => 2,
            _ => 0,
        },
        None => 0,
    }
}

/// The pieces of a comma-separated list, trimmed.
pub fn split_trimmed(input: &str) -> (r: Vec<String>)
    ensures
        views(r@) == crate::text::split_on(input@, ',').map_values(|p: Seq<char>| crate::text::trim(p)),
{
    let parts = crate::text::split_str(input, ',');
    let mut out: Vec<String> = Vec::new();
    let mut i: usize = 0;
    while i < parts.len()
        invariant
            i <= parts@.len(),
            parts@.len() == crate::text::split_on(input@, ',').len(),
            forall|k: int| 0 <= k < parts@.len() ==> #[trigger] parts@[k]@ == crate::text::split_on(input@, ',')[k],
            views(out@) == crate::text::split_on(input@, ',').map_values(|p: Seq<char>| crate::text::trim(p)).take(i as int),
        decreases parts.len() - i,
    {
        let t = crate::text::trim_str(parts[i].as_str());
        let ghost o0 = out@;
        out.push(t);
        assert(views(out@) =~= views(o0).push(t@));
        i = i + 1;
        assert(views(out@) =~= crate::text::split_on(input@, ',').map_values(|p: Seq<char>| crate::text::trim(p)).take(i as int));
    }
    assert(crate::text::split_on(input@, ',').map_values(|p: Seq<char>| crate::text::trim(p)).take(i as int)
        =~= crate::text::split_on(input@, ',').map_values(|p: Seq<char>| crate::text::trim(p)));
    out
}

impl SetWizard {
    /// A wizard for `args`, offering the environments of `meta`.
    pub fn new(args: SetArgs, meta: &crate::store::StoreMeta) -> (w: SetWizard)
        ensures
            w.step == first_step(args.id is Some, args.env@.len() > 0),
            w.has_id == args.id is Some,
            w.has_env == (args.env@.len() > 0),
            w.has_sensitivity == (args.sensitive || args.secret),
            w.id@ == (match args.id {
                Some(i) => i@,
                None => Seq::<char>::empty(),
            }),
            w.envs@ == args.env@,
            w.level == spec_level_from_flags(args.sensitive, args.secret),
            w.preset_value == args.value,
            w.stored_value@.len() == 0,
            w.description is None,
            w.origin is None,
            w.tags@.len() == 0,
            views(w.env_options@) == spec_env_options(views(meta.default_environments@)),
    {
        let has_id = args.id.is_some();
        let has_env = args.env.len() > 0;
        let has_sensitivity = args.sensitive || args.secret;
        let step = if has_id && has_env {
            SetStep::Sensitivity
        } else if has_id {
            SetStep::Env
        } else {
            SetStep::Id
        };
        let level = sensitivity_level_from_flags(args.sensitive, args.secret);
        let id = match args.id {
            Some(i) => i,
            None => String::new(),
        };
        SetWizard {
            step,
            id,
            envs: args.env,
            level,
            preset_value: args.value,
            stored_value: String::new(),
            description: None,
            origin: None,
            tags: Vec::new(),
            env_options: env_options(meta),
            has_id,
            has_env,
            has_sensitivity,
        }
    }

    /// The item ID was entered.
    pub fn answer_id(&mut self, id: String)
        requires
            old(self).step == SetStep::Id,
        ensures
            *final(self) == (SetWizard {
                id,
                step: if old(self).has_env {
                    SetStep::Sensitivity
                } else {
                    SetStep::Env
                },
                ..*old(self)
            }),
    {
        self.id = id;
        self.step = if self.has_env {
            SetStep::Sensitivity
        } else {
            SetStep::Env
        };
    }

    /// An environment was selected (`Some(index)`), or the selection was
    /// escaped (`None`): back to the ID, or out when the ID was given.
    pub fn answer_env(&mut self, selection: Option<usize>)
        requires
            old(self).step == SetStep::Env,
            selection matches Some(i) ==> i < old(self).env_options@.len(),
        ensures
            selection matches Some(i) ==> final(self).envs@ == seq![old(self).env_options@[i as int]]
                && final(self).step == (if old(self).has_sensitivity {
                SetStep::Value
            } else {
                SetStep::Sensitivity
            }),
            selection is None ==> final(self).envs == old(self).envs && final(self).step == (
            if old(self).has_id {
                SetStep::Cancelled
            } else {
                SetStep::Id
            }),
            *final(self) == (SetWizard { envs: final(self).envs, step: final(self).step, ..*old(self) }),
    {
        match selection {
            Some(i) => {
                let mut envs: Vec<String> = Vec::new();
                envs.push(self.env_options[i].clone());
                assert(envs@ =~= seq![old(self).env_options@[i as int]]);
                self.envs = envs;
                self.step = if self.has_sensitivity {
                    SetStep::Value
                } else {
                    SetStep::Sensitivity
                };
            },
            None => {
                self.step = if self.has_id {
                    SetStep::Cancelled
                } else {
                    SetStep::Id
                };
            },
        }
    }

    /// A sensitivity was selected (`Some(index)`: 0 plaintext, 1 sensitive,
    /// 2 secret), or the selection was escaped: back to the environment, or
    /// out when the environments were given.
    pub fn answer_sensitivity(&mut self, selection: Option<usize>)
        requires
            old(self).step == SetStep::Sensitivity,
        ensures
            selection matches Some(i) ==> final(self).level == selected_level(i as int) && final(self).step
                == SetStep::Value,
            selection is None ==> final(self).level == old(self).level && final(self).step == (
            if old(self).has_env {
                SetStep::Cancelled
            } else {
                SetStep::Env
            }),
            *final(self) == (SetWizard { level: final(self).level, step: final(self).step, ..*old(self) }),
    {
        match selection {
            Some(i) => {
                self.level = if i == 1 {
                    Some(SensitivityLevel::Sensitive)
                } else if i == 2 {
                    Some(SensitivityLevel::Secret)
                } else {
                    None
                };
                self.step = SetStep::Value;
            },
            None => {
                self.step = if self.has_env {
                    SetStep::Cancelled
                } else {
                    SetStep::Env
                };
            },
        }
    }

    /// The value given on the command line, if any (handed out once).
    pub fn take_preset_value(&mut self) -> (r: Option<String>)
        ensures
            r == old(self).preset_value,
            *final(self) == (SetWizard { preset_value: None, ..*old(self) }),
    {
        self.preset_value.take()
    }

    /// The value was entered: it is kept in its stored form (encrypted at
    /// the chosen level).
    pub fn answer_value(&mut self, value: &str, key: Option<&EncryptionKey>) -> (r: Result<(), CommandError>)
        requires
            old(self).step == SetStep::Value,
            key matches Some(k) ==> k.wf(),
        ensures
            ({
                let fault = store_fault(value@, old(self).level, key_view(key));
                &&& r is Err <==> fault is Some
                &&& r matches Err(e) ==> Some(e.fault) == fault && e.subject@ == old(self).id@
                    && *final(self) == *old(self)
                &&& r is Ok ==> stores(final(self).stored_value@, value@, old(self).level, key_view(key))
                    && *final(self) == (SetWizard {
                    stored_value: final(self).stored_value,
                    step: SetStep::Description,
                    ..*old(self)
                })
            }),
    {
        match stored_form(value, self.level, key) {
            Ok(s) => {
                self.stored_value = s;
                self.step = SetStep::Description;
                Ok(())
            },
            Err(f) => Err(CommandError { fault: f, subject: self.id.clone() }),
        }
    }

    /// The description was entered (empty for none).
    pub fn answer_description(&mut self, input: String)
        requires
            old(self).step == SetStep::Description,
        ensures
            opt_view(final(self).description) == optional(input@),
            *final(self) == (SetWizard {
                description: final(self).description,
                step: SetStep::Origin,
                ..*old(self)
            }),
    {
        self.description = if input.as_str().is_empty() {
            None
        } else {
            Some(input)
        };
        self.step = SetStep::Origin;
    }

    /// The origin was entered (empty for none).
    pub fn answer_origin(&mut self, input: String)
        requires
            old(self).step == SetStep::Origin,
        ensures
            opt_view(final(self).origin) == optional(input@),
            *final(self) == (SetWizard { origin: final(self).origin, step: SetStep::Tags, ..*old(self) }),
    {
        self.origin = if input.as_str().is_empty() {
            None
        } else {
            Some(input)
        };
        self.step = SetStep::Tags;
    }

    /// The tags were entered (comma-separated, empty for none): the item is
    /// saved into `store`; returns the message to print.
    pub fn answer_tags(&mut self, input: &str, store: &mut Store) -> (r: String)
        requires
            old(self).step == SetStep::Tags,
            old(store).wf(),
        ensures
            views(final(self).tags@) == spec_tags(input@),
            *final(self) == (SetWizard { tags: final(self).tags, step: SetStep::Done, ..*old(self) }),
            final(store).wf(),
            final(store)@ == old(store)@.with_items(
                old(store)@.items.insert(
                    old(self).id@,
                    with_default_environments(
                        old(store)@.default_environments,
                        wizard_item(
                            old(store)@.item_or_empty(old(self).id@),
                            views(old(self).envs@),
                            old(self).stored_value@,
                            opt_view(old(self).description),
                            opt_view(old(self).origin),
                            spec_tags(input@),
                            old(self).level,
                        ),
                    ),
                ),
            ),
            r@ == set_message(old(self).id@, views(old(self).envs@)),
    {
        let tags = if input.is_empty() {
            let v: Vec<String> = Vec::new();
            assert(views(v@) =~= spec_tags(input@));
            v
        } else {
            split_trimmed(input)
        };
        let mut item = store.item_or_empty(self.id.as_str());
        set_values(&mut item, &self.envs, &self.stored_value);
        if self.description.is_some() {
            item.description = crate::store::clone_opt(&self.description);
        }
        if self.origin.is_some() {
            item.origin = crate::store::clone_opt(&self.origin);
        }
        if tags.len() > 0 {
            item.tags = crate::store::clone_strings(&tags);
        }
        match self.level {
            Some(SensitivityLevel::Sensitive) => {
                item.sensitivity = Some(Sensitivity::Sensitive);
            },
            Some(SensitivityLevel::Secret) => {
                item.sensitivity = Some(Sensitivity::Secret);
            },
            None => {},
        }
        item.environments = crate::store::clone_strings(&self.envs);
        apply_default_environments(&store.meta, &mut item);
        store.put(self.id.as_str(), item);
        self.tags = tags;
        self.step = SetStep::Done;
        make_set_message(self.id.as_str(), &self.envs)
    }
}

// ---------------------------------------------------------------------------
// Showing values: `get` and `list`
// ---------------------------------------------------------------------------

/// How a stored value is shown: as is when it is plaintext; when encrypted,
/// its level in parentheses, or with `reveal` its decryption.
pub open spec fn spec_display(value: Seq<char>, reveal: bool, key: Option<Seq<u8>>) -> Result<Seq<char>, Fault> {
    match spec_parse_sensitivity(value) {
        None => Ok(value),
        Some(l) => if !reveal {
            Ok("("@ + tag_of(l) + ")"@)
        } else {
            match key {
                None => Err(Fault::NoKey),
                Some(k) => match spec_decrypt(value, k) {
                    Ok(p) => Ok(p),
                    Err(e) => Err(Fault::Crypto(e)),
                },
            }
        },
    }
}

/// A value kept in its stored form reads back: shown with `--reveal` it is
/// the value itself (a value kept as is must not itself look encrypted).
pub proof fn law_reveal_after_store(stored: Seq<char>, value: Seq<char>, level: Option<SensitivityLevel>, key: Option<Seq<u8>>)
    requires
        stores(stored, value, level, key),
        level is None ==> spec_parse_sensitivity(value) is None,
    ensures
        spec_display(stored, true, key) == Ok::<Seq<char>, Fault>(value),
{
}

/// How a stored value is shown.
pub fn display_value(value: &str, reveal: bool, key: Option<&EncryptionKey>) -> (r: Result<String, Fault>)
    requires
        key matches Some(k) ==> k.wf(),
    ensures
        r matches Ok(d) ==> spec_display(value@, reveal, key_view(key)) == Ok::<Seq<char>, Fault>(d@),
        r matches Err(f) ==> spec_display(value@, reveal, key_view(key)) == Err::<Seq<char>, Fault>(f),
{
    match parse_sensitivity(value) {
        None => Ok(owned(value)),
        Some(l) => {
            if !reveal {
                let a = concat("(", l.tag());
                Ok(concat(a.as_str(), ")"))
            } else {
                match key {
                    None => Err(Fault::NoKey),
                    Some(k) => match decrypt_value(value, k) {
                        Ok(p) => Ok(p),
                        Err(e) => Err(Fault::Crypto(e)),
                    },
                }
            }
        },
    }
}

/// A line of `get`: the value, labelled with its environment when several
/// are shown.
pub open spec fn get_line(env: Seq<char>, display: Seq<char>, label: bool) -> Seq<char> {
    if label {
        env + ": "@ + display
    } else {
        display
    }
}

/// The lines `get` prints for these environments, or the first failure with
/// the environment it concerns.
pub open spec fn spec_get_lines(values: Map<Seq<char>, Seq<char>>, envs: Seq<Seq<char>>, label: bool, reveal: bool, key: Option<Seq<u8>>) -> Result<Seq<Seq<char>>, (Fault, Seq<char>)>
    decreases envs.len(),
{
    if envs.len() == 0 {
        Ok(Seq::empty())
    } else {
        match spec_get_lines(values, envs.drop_last(), label, reveal, key) {
            Err(e) => Err(e),
            Ok(acc) => {
                let env = envs.last();
                if !values.contains_key(env) {
                    Err((Fault::NoValue, env))
                } else {
                    match spec_display(values[env], reveal, key) {
                        Err(f) => Err((f, env)),
                        Ok(d) => Ok(acc.push(get_line(env, d, label))),
                    }
                }
            },
        }
    }
}

proof fn lemma_get_err(values: Map<Seq<char>, Seq<char>>, envs: Seq<Seq<char>>, label: bool, reveal: bool, key: Option<Seq<u8>>, i: int)
    requires
        0 <= i <= envs.len(),
        spec_get_lines(values, envs.take(i), label, reveal, key) is Err,
    ensures
        spec_get_lines(values, envs, label, reveal, key) == spec_get_lines(values, envs.take(i), label, reveal, key),
    decreases envs.len() - i,
{
    if i < envs.len() {
        assert(envs.take(i + 1).drop_last() =~= envs.take(i));
        lemma_get_err(values, envs, label, reveal, key, i + 1);
    } else {
        assert(envs.take(i) =~= envs);
    }
}

/// What `get` prints: the item's values for the requested environments (all
/// of its environments, in order, when none is requested), labelled when
/// there are several; or the first failure with the ID or environment it
/// concerns.
pub open spec fn spec_get(items: Seq<(String, Item)>, id: Seq<char>, envs: Seq<Seq<char>>, reveal: bool, key: Option<Seq<u8>>) -> Result<Seq<Seq<char>>, (Fault, Seq<char>)> {
    match lookup(items, id) {
        None => Err((Fault::ItemNotFound, id)),
        Some(item) => {
            let shown = get_shown(item, envs);
            spec_get_lines(item@.values, shown, shown.len() > 1, reveal, key)
        },
    }
}

/// The environments `get` shows: the requested ones, else all of the item's.
pub open spec fn get_shown(item: Item, envs: Seq<Seq<char>>) -> Seq<Seq<char>> {
    if envs.len() == 0 {
        crate::smap::keys_of(item.values@)
    } else {
        envs
    }
}

/// The lines printed before a failure among these environments: those of
/// the environments before the first one that fails.
pub open spec fn spec_lines_before(values: Map<Seq<char>, Seq<char>>, envs: Seq<Seq<char>>, label: bool, reveal: bool, key: Option<Seq<u8>>) -> Seq<Seq<char>>
    decreases envs.len(),
{
    if envs.len() == 0 {
        Seq::empty()
    } else {
        match spec_get_lines(values, envs.drop_last(), label, reveal, key) {
            Err(_) => spec_lines_before(values, envs.drop_last(), label, reveal, key),
            Ok(acc) => acc,
        }
    }
}

/// What `get` prints before it fails.
pub open spec fn spec_get_printed(items: Seq<(String, Item)>, id: Seq<char>, envs: Seq<Seq<char>>, reveal: bool, key: Option<Seq<u8>>) -> Seq<Seq<char>> {
    match lookup(items, id) {
        None => Seq::empty(),
        Some(item) => {
            let shown = get_shown(item, envs);
            spec_lines_before(item@.values, shown, shown.len() > 1, reveal, key)
        },
    }
}

/// When the first failure is at environment `i`, the lines printed before it
/// are those of the environments before `i`.
proof fn lemma_lines_before(values: Map<Seq<char>, Seq<char>>, envs: Seq<Seq<char>>, label: bool, reveal: bool, key: Option<Seq<u8>>, i: int, n: int)
    requires
        0 <= i < n <= envs.len(),
        spec_get_lines(values, envs.take(i), label, reveal, key) is Ok,
        spec_get_lines(values, envs.take(i + 1), label, reveal, key) is Err,
    ensures
        spec_lines_before(values, envs.take(n), label, reveal, key) == spec_get_lines(
            values,
            envs.take(i),
            label,
            reveal,
            key,
        )->Ok_0,
    decreases n - i,
{
    let t = envs.take(n);
    assert(t.drop_last() =~= envs.take(n - 1));
    if n == i + 1 {
    } else {
        assert(envs.take(n - 1).take(i + 1) =~= envs.take(i + 1));
        lemma_get_err(values, envs.take(n - 1), label, reveal, key, i + 1);
        lemma_lines_before(values, envs, label, reveal, key, i, n - 1);
    }
}

/// The values set for several environments are all there.
pub(crate) proof fn lemma_set_all_has(values: Map<Seq<char>, Seq<char>>, envs: Seq<Seq<char>>, v: Seq<char>, env: Seq<char>)
    requires
        envs.contains(env),
    ensures
        set_all(values, envs, v).contains_key(env),
        set_all(values, envs, v)[env] == v,
    decreases envs.len(),
{
    if envs.last() != env {
        assert(envs.drop_last().contains(env)) by {
            let i = choose|i: int| 0 <= i < envs.len() && envs[i] == env;
            assert(envs.drop_last()[i] == env);
        }
        lemma_set_all_has(values, envs.drop_last(), v, env);
    }
}

/// What `set` writes, `get` reads back: once `value` is set for some
/// environments, `get --reveal` for one of them prints `value` (a value
/// stored as is must not itself look encrypted).
pub proof fn law_get_after_set(
    before: Store,
    after: Store,
    id: Seq<char>,
    envs: Seq<Seq<char>>,
    env: Seq<char>,
    value: Seq<char>,
    level: Option<SensitivityLevel>,
    key: Option<Seq<u8>>,
    stored: Seq<char>,
)
    requires
        stores(stored, value, level, key),
        after@ == before@.with_items(before@.items.insert(id, item_after_set(before@, id, envs, stored))),
        envs.contains(env),
        level is None ==> spec_parse_sensitivity(value) is None,
    ensures
        spec_get(after.items@, id, seq![env], true, key) == Ok::<Seq<Seq<char>>, (Fault, Seq<char>)>(
            seq![value],
        ),
{
    let base = before@.item_or_empty(id);
    lemma_set_all_has(base.values, envs, stored, env);
    assert(after@.items.contains_key(id));
    let item = lookup(after.items@, id)->0;
    assert(item@ == after@.items[id]);
    assert(item@.values == set_all(base.values, envs, stored));
    law_reveal_after_store(stored, value, level, key);
    let one = seq![env];
    assert(one.drop_last() =~= Seq::<Seq<char>>::empty());
    assert(one.last() == env);
    assert(spec_get_lines(item@.values, one, false, true, key) == Ok::<Seq<Seq<char>>, (Fault, Seq<char>)>(
        seq![value],
    )) by {
        assert(spec_get_lines(item@.values, one.drop_last(), false, true, key) == Ok::<
            Seq<Seq<char>>,
            (Fault, Seq<char>),
        >(Seq::empty()));
        assert(Seq::<Seq<char>>::empty().push(value) =~= seq![value]);
    }
}

/// Once an item is removed, `get` of it reports that it is not found.
pub proof fn law_get_after_remove(before: Store, after: Store, id: Seq<char>, envs: Seq<Seq<char>>, reveal: bool, key: Option<Seq<u8>>)
    requires
        after@ == before@.with_items(before@.items.remove(id)),
    ensures
        spec_get(after.items@, id, envs, reveal, key) == Err::<Seq<Seq<char>>, (Fault, Seq<char>)>(
            (Fault::ItemNotFound, id),
        ),
{
    assert(!after@.items.contains_key(id));
}

/// `get`: the lines to print, and the failure that stops it, if any (the
/// lines are then those printed before it).
pub fn get(store: &Store, args: &GetArgs, key: Option<&EncryptionKey>) -> (r: (Vec<String>, Option<CommandError>))
    requires
        store.wf(),
        key matches Some(k) ==> k.wf(),
    ensures
        ({
            let res = spec_get(store.items@, args.id@, views(args.env@), args.reveal, key_view(key));
            &&& r.1 is None ==> res == Ok::<Seq<Seq<char>>, (Fault, Seq<char>)>(views(r.0@))
            &&& r.1 matches Some(e) ==> res == Err::<Seq<Seq<char>>, (Fault, Seq<char>)>(err_view(e))
                && views(r.0@) == spec_get_printed(
                store.items@,
                args.id@,
                views(args.env@),
                args.reveal,
                key_view(key),
            )
        }),
{
    let idx = match crate::smap::find_index(&store.items, args.id.as_str()) {
        Some(i) => i,
        None => {
            let none: Vec<String> = Vec::new();
            assert(views(none@) =~= Seq::<Seq<char>>::empty());
            return (none, Some(CommandError { fault: Fault::ItemNotFound, subject: args.id.clone() }));
        },
    };
    proof {
        crate::smap::lemma_lookup_at(store.items@, idx as int);
    }
    let item = &store.items[idx].1;
    assert(item.wf());
    let envs: Vec<String> = if args.env.len() == 0 {
        let mut v: Vec<String> = Vec::new();
        let mut i: usize = 0;
        while i < item.values.len()
            invariant
                i <= item.values@.len(),
                views(v@) == crate::smap::keys_of(item.values@).take(i as int),
            decreases item.values.len() - i,
        {
            let ghost v0 = v@;
            let k = item.values[i].0.clone();
            v.push(k);
            assert(views(v@) =~= views(v0).push(k@));
            i = i + 1;
            assert(views(v@) =~= crate::smap::keys_of(item.values@).take(i as int));
        }
        assert(crate::smap::keys_of(item.values@).take(i as int) =~= crate::smap::keys_of(item.values@));
        v
    } else {
        crate::store::clone_strings(&args.env)
    };
    let label = envs.len() > 1;
    let ghost shown = views(envs@);
    assert(spec_get(store.items@, args.id@, views(args.env@), args.reveal, key_view(key))
        == spec_get_lines(item@.values, shown, label, args.reveal, key_view(key)));
    assert(spec_get_printed(store.items@, args.id@, views(args.env@), args.reveal, key_view(key))
        == spec_lines_before(item@.values, shown, label, args.reveal, key_view(key)));
    let mut lines: Vec<String> = Vec::new();
    let mut i: usize = 0;
    assert(shown.take(0) =~= Seq::<Seq<char>>::empty());
    assert(views(lines@) =~= Seq::<Seq<char>>::empty());
    while i < envs.len()
        invariant
            item.wf(),
            key matches Some(k) ==> k.wf(),
            shown == views(envs@),
            label == (shown.len() > 1),
            spec_get(store.items@, args.id@, views(args.env@), args.reveal, key_view(key))
                == spec_get_lines(item@.values, shown, label, args.reveal, key_view(key)),
            spec_get_printed(store.items@, args.id@, views(args.env@), args.reveal, key_view(key))
                == spec_lines_before(item@.values, shown, label, args.reveal, key_view(key)),
            i <= envs@.len(),
            spec_get_lines(item@.values, shown.take(i as int), label, args.reveal, key_view(key))
                == Ok::<Seq<Seq<char>>, (Fault, Seq<char>)>(views(lines@)),
        decreases envs.len() - i,
    {
        let ghost t = shown.take(i + 1);
        assert(t.drop_last() =~= shown.take(i as int));
        assert(t.last() == envs@[i as int]@);
        let env = &envs[i];
        let raw = match item.value(env.as_str()) {
            Some(v) => v,
            None => {
                proof {
                    lemma_get_err(item@.values, shown, label, args.reveal, key_view(key), i + 1);
                    lemma_lines_before(item@.values, shown, label, args.reveal, key_view(key), i as int, shown.len() as int);
                    assert(shown.take(shown.len() as int) =~= shown);
                }
                return (lines, Some(CommandError { fault: Fault::NoValue, subject: env.clone() }));
            },
        };
        let d = match display_value(raw.as_str(), args.reveal, key) {
            Ok(d) => d,
            Err(f) => {
                proof {
                    lemma_get_err(item@.values, shown, label, args.reveal, key_view(key), i + 1);
                    lemma_lines_before(item@.values, shown, label, args.reveal, key_view(key), i as int, shown.len() as int);
                    assert(shown.take(shown.len() as int) =~= shown);
                }
                return (lines, Some(CommandError { fault: f, subject: env.clone() }));
            },
        };
        let line = if label {
            let a = concat(env.as_str(), ": ");
            concat(a.as_str(), d.as_str())
        } else {
            d
        };
        let ghost l0 = lines@;
        lines.push(line);
        assert(views(lines@) =~= views(l0).push(line@));
        i = i + 1;
    }
    assert(shown.take(envs@.len() as int) =~= shown);
    (lines, None)
}

/// The `  env: value` lines `list` prints for an item's values, keeping only
/// the requested environments (all when none is requested).
pub open spec fn spec_value_lines(values: Seq<(String, String)>, envs: Seq<Seq<char>>, reveal: bool, key: Option<Seq<u8>>) -> Result<Seq<Seq<char>>, (Fault, Seq<char>)>
    decreases values.len(),
{
    if values.len() == 0 {
        Ok(Seq::empty())
    } else {
        match spec_value_lines(values.drop_last(), envs, reveal, key) {
            Err(e) => Err(e),
            Ok(acc) => {
                let (env, v) = values.last();
                if envs.len() == 0 || envs.contains(env@) {
                    match spec_display(v@, reveal, key) {
                        Err(f) => Err((f, env@)),
                        Ok(d) => Ok(acc.push("  "@ + env@ + ": "@ + d)),
                    }
                } else {
                    Ok(acc)
                }
            },
        }
    }
}

proof fn lemma_value_lines_err(values: Seq<(String, String)>, envs: Seq<Seq<char>>, reveal: bool, key: Option<Seq<u8>>, i: int)
    requires
        0 <= i <= values.len(),
        spec_value_lines(values.take(i), envs, reveal, key) is Err,
    ensures
        spec_value_lines(values, envs, reveal, key) == spec_value_lines(values.take(i), envs, reveal, key),
    decreases values.len() - i,
{
    if i < values.len() {
        assert(values.take(i + 1).drop_last() =~= values.take(i));
        lemma_value_lines_err(values, envs, reveal, key, i + 1);
    } else {
        assert(values.take(i) =~= values);
    }
}

/// The marker after an item's ID in `list`: the level of its first encrypted
/// value, in brackets.
pub open spec fn level_marker(values: Seq<(String, String)>) -> Seq<char> {
    match first_value_level(values) {
        Some(l) => " ["@ + tag_of(l) + "]"@,
        None => Seq::empty(),
    }
}

/// Whether `list` leaves an item out: it lacks the requested tag, or it has
/// neither values nor a description.
pub open spec fn list_skips(item: Item, tag: Option<Seq<char>>) -> bool {
    (tag matches Some(t) && !views(item.tags@).contains(t)) || (item.values@.len() == 0
        && item.description is None)
}

/// The lines `list` prints for one item.
pub open spec fn spec_list_item(id: Seq<char>, item: Item, envs: Seq<Seq<char>>, tag: Option<Seq<char>>, reveal: bool, key: Option<Seq<u8>>) -> Result<Seq<Seq<char>>, (Fault, Seq<char>)> {
    if list_skips(item, tag) {
        Ok(Seq::empty())
    } else {
        match spec_value_lines(item.values@, envs, reveal, key) {
            Err(e) => Err(e),
            Ok(ls) => Ok(seq![id + level_marker(item.values@)] + ls),
        }
    }
}

/// The lines `list` prints for these items, in order.
pub open spec fn spec_list(items: Seq<(String, Item)>, envs: Seq<Seq<char>>, tag: Option<Seq<char>>, reveal: bool, key: Option<Seq<u8>>) -> Result<Seq<Seq<char>>, (Fault, Seq<char>)>
    decreases items.len(),
{
    if items.len() == 0 {
        Ok(Seq::empty())
    } else {
        match spec_list(items.drop_last(), envs, tag, reveal, key) {
            Err(e) => Err(e),
            Ok(acc) => match spec_list_item(items.last().0@, items.last().1, envs, tag, reveal, key) {
                Err(e) => Err(e),
                Ok(ls) => Ok(acc + ls),
            },
        }
    }
}

proof fn lemma_list_err(items: Seq<(String, Item)>, envs: Seq<Seq<char>>, tag: Option<Seq<char>>, reveal: bool, key: Option<Seq<u8>>, i: int)
    requires
        0 <= i <= items.len(),
        spec_list(items.take(i), envs, tag, reveal, key) is Err,
    ensures
        spec_list(items, envs, tag, reveal, key) == spec_list(items.take(i), envs, tag, reveal, key),
    decreases items.len() - i,
{
    if i < items.len() {
        assert(items.take(i + 1).drop_last() =~= items.take(i));
        lemma_list_err(items, envs, tag, reveal, key, i + 1);
    } else {
        assert(items.take(i) =~= items);
    }
}

/// The value lines printed before a failure: those of the values before the
/// first one that fails.
pub open spec fn spec_values_printed(values: Seq<(String, String)>, envs: Seq<Seq<char>>, reveal: bool, key: Option<Seq<u8>>) -> Seq<Seq<char>>
    decreases values.len(),
{
    if values.len() == 0 {
        Seq::empty()
    } else {
        match spec_value_lines(values.drop_last(), envs, reveal, key) {
            Err(_) => spec_values_printed(values.drop_last(), envs, reveal, key),
            Ok(acc) => acc,
        }
    }
}

/// What `list` prints for an item whose values fail: its header and the
/// lines before the failing value.
pub open spec fn spec_item_printed(id: Seq<char>, item: Item, envs: Seq<Seq<char>>, reveal: bool, key: Option<Seq<u8>>) -> Seq<Seq<char>> {
    seq![id + level_marker(item.values@)] + spec_values_printed(item.values@, envs, reveal, key)
}

/// What `list` prints before it fails: the lines of the items before the
/// failing one, then what that one prints.
pub open spec fn spec_list_printed(items: Seq<(String, Item)>, envs: Seq<Seq<char>>, tag: Option<Seq<char>>, reveal: bool, key: Option<Seq<u8>>) -> Seq<Seq<char>>
    decreases items.len(),
{
    if items.len() == 0 {
        Seq::empty()
    } else {
        match spec_list(items.drop_last(), envs, tag, reveal, key) {
            Err(_) => spec_list_printed(items.drop_last(), envs, tag, reveal, key),
            Ok(acc) => acc + spec_item_printed(items.last().0@, items.last().1, envs, reveal, key),
        }
    }
}

proof fn lemma_values_printed(values: Seq<(String, String)>, envs: Seq<Seq<char>>, reveal: bool, key: Option<Seq<u8>>, i: int, n: int)
    requires
        0 <= i < n <= values.len(),
        spec_value_lines(values.take(i), envs, reveal, key) is Ok,
        spec_value_lines(values.take(i + 1), envs, reveal, key) is Err,
    ensures
        spec_values_printed(values.take(n), envs, reveal, key) == spec_value_lines(values.take(i), envs, reveal, key)->Ok_0,
    decreases n - i,
{
    assert(values.take(n).drop_last() =~= values.take(n - 1));
    if n > i + 1 {
        assert(values.take(n - 1).take(i + 1) =~= values.take(i + 1));
        lemma_value_lines_err(values.take(n - 1), envs, reveal, key, i + 1);
        lemma_values_printed(values, envs, reveal, key, i, n - 1);
    }
}

proof fn lemma_list_printed(items: Seq<(String, Item)>, envs: Seq<Seq<char>>, tag: Option<Seq<char>>, reveal: bool, key: Option<Seq<u8>>, i: int, n: int)
    requires
        0 <= i < n <= items.len(),
        spec_list(items.take(i), envs, tag, reveal, key) is Ok,
        spec_list(items.take(i + 1), envs, tag, reveal, key) is Err,
    ensures
        spec_list_printed(items.take(n), envs, tag, reveal, key) == spec_list(items.take(i), envs, tag, reveal, key)->Ok_0
            + spec_item_printed(items[i].0@, items[i].1, envs, reveal, key),
    decreases n - i,
{
    assert(items.take(n).drop_last() =~= items.take(n - 1));
    if n > i + 1 {
        assert(items.take(n - 1).take(i + 1) =~= items.take(i + 1));
        lemma_list_err(items.take(n - 1), envs, tag, reveal, key, i + 1);
        lemma_list_printed(items, envs, tag, reveal, key, i, n - 1);
    } else {
        assert(items.take(n).last() == items[i]);
    }
}

/// Appends `more` to `acc`.
pub fn append_lines(acc: &mut Vec<String>, more: Vec<String>)
    ensures
        views(final(acc)@) == views(old(acc)@) + views(more@),
{
    let ghost a0 = views(acc@);
    let mut i: usize = 0;
    while i < more.len()
        invariant
            i <= more@.len(),
            views(acc@) == a0 + views(more@).take(i as int),
        decreases more.len() - i,
    {
        let ghost p = views(acc@);
        let l = more[i].clone();
        acc.push(l);
        assert(views(acc@) =~= p.push(l@));
        i = i + 1;
        assert(views(more@).take(i as int) =~= views(more@).take(i - 1).push(more@[i - 1]@));
    }
    assert(views(more@).take(more@.len() as int) =~= views(more@));
}

/// The lines `list` prints for one item.
fn list_item(id: &String, item: &Item, args: &ListArgs, key: Option<&EncryptionKey>) -> (r: (Vec<String>, Option<CommandError>))
    requires
        key matches Some(k) ==> k.wf(),
    ensures
        r.1 is None ==> spec_list_item(id@, *item, views(args.env@), opt_view(args.tag), args.reveal, key_view(key))
            == Ok::<Seq<Seq<char>>, (Fault, Seq<char>)>(views(r.0@)),
        r.1 matches Some(e) ==> spec_list_item(id@, *item, views(args.env@), opt_view(args.tag), args.reveal, key_view(key))
            == Err::<Seq<Seq<char>>, (Fault, Seq<char>)>(err_view(e)) && views(r.0@) == spec_item_printed(
            id@,
            *item,
            views(args.env@),
            args.reveal,
            key_view(key),
        ),
{
    let lacks_tag = match &args.tag {
        Some(t) => !crate::text::contains_string(&item.tags, t.as_str()),
        None => false,
    };
    if lacks_tag || (item.values.len() == 0 && item.description.is_none()) {
        let v: Vec<String> = Vec::new();
        assert(views(v@) =~= Seq::<Seq<char>>::empty());
        return (v, None);
    }
    let header = match first_value_level_exec(&item.values) {
        Some(l) => {
            let a = concat(" [", l.tag());
            let m = concat(a.as_str(), "]");
            concat(id.as_str(), m.as_str())
        },
        None => {
            let h = id.clone();
            assert(h@ =~= id@ + level_marker(item.values@));
            h
        },
    };
    let mut lines: Vec<String> = Vec::new();
    lines.push(header);
    let ghost vals = item.values@;
    let ghost envs = views(args.env@);
    let mut i: usize = 0;
    assert(vals.take(0) =~= Seq::<(String, String)>::empty());
    assert(views(lines@) =~= seq![id@ + level_marker(vals)] + Seq::<Seq<char>>::empty());
    while i < item.values.len()
        invariant
            key matches Some(k) ==> k.wf(),
            vals == item.values@,
            envs == views(args.env@),
            !list_skips(*item, opt_view(args.tag)),
            i <= vals.len(),
            spec_value_lines(vals.take(i as int), envs, args.reveal, key_view(key)) matches Ok(ls)
                && views(lines@) == seq![id@ + level_marker(vals)] + ls,
        decreases item.values.len() - i,
    {
        let ghost t = vals.take(i + 1);
        assert(t.drop_last() =~= vals.take(i as int));
        assert(t.last() == vals[i as int]);
        let (env, v) = &item.values[i];
        if args.env.len() == 0 || crate::text::contains_string(&args.env, env.as_str()) {
            let d = match display_value(v.as_str(), args.reveal, key) {
                Ok(d) => d,
                Err(f) => {
                    proof {
                        lemma_value_lines_err(vals, envs, args.reveal, key_view(key), i + 1);
                        lemma_values_printed(vals, envs, args.reveal, key_view(key), i as int, vals.len() as int);
                        assert(vals.take(vals.len() as int) =~= vals);
                    }
                    return (lines, Some(CommandError { fault: f, subject: env.clone() }));
                },
            };
            let a = concat("  ", env.as_str());
            let b = concat(a.as_str(), ": ");
            let line = concat(b.as_str(), d.as_str());
            let ghost l0 = views(lines@);
            lines.push(line);
            proof {
                let ls = spec_value_lines(vals.take(i as int), envs, args.reveal, key_view(key))->Ok_0;
                assert(views(lines@) =~= l0.push(line@));
                assert(seq![id@ + level_marker(vals)] + ls.push(line@) =~= (seq![id@ + level_marker(vals)] + ls).push(line@));
            }
        }
        i = i + 1;
    }
    assert(vals.take(vals.len() as int) =~= vals);
    (lines, None)
}

/// `Store is empty.`
pub open spec fn empty_store_line() -> Seq<char> {
    "Store is empty."@
}

/// `list`: the lines to print, and the failure that stops it, if any (the
/// lines are then those printed before it).
pub fn list(store: &Store, args: &ListArgs, key: Option<&EncryptionKey>) -> (r: (Vec<String>, Option<CommandError>))
    requires
        key matches Some(k) ==> k.wf(),
    ensures
        store.items@.len() == 0 ==> r.1 is None && views(r.0@) == seq![empty_store_line()],
        store.items@.len() > 0 ==> ({
            let res = spec_list(store.items@, views(args.env@), opt_view(args.tag), args.reveal, key_view(key));
            &&& r.1 is None ==> res == Ok::<Seq<Seq<char>>, (Fault, Seq<char>)>(views(r.0@))
            &&& r.1 matches Some(e) ==> res == Err::<Seq<Seq<char>>, (Fault, Seq<char>)>(err_view(e))
                && views(r.0@) == spec_list_printed(
                store.items@,
                views(args.env@),
                opt_view(args.tag),
                args.reveal,
                key_view(key),
            )
        }),
{
    let mut lines: Vec<String> = Vec::new();
    if store.items.len() == 0 {
        lines.push(owned("Store is empty."));
        proof {
            reveal_strlit("Store is empty.");
        }
        assert(views(lines@) =~= seq![empty_store_line()]);
        return (lines, None);
    }
    let ghost items = store.items@;
    let ghost envs = views(args.env@);
    let ghost tag = opt_view(args.tag);
    let mut i: usize = 0;
    assert(items.take(0) =~= Seq::<(String, Item)>::empty());
    assert(views(lines@) =~= Seq::<Seq<char>>::empty());
    while i < store.items.len()
        invariant
            key matches Some(k) ==> k.wf(),
            items == store.items@,
            envs == views(args.env@),
            tag == opt_view(args.tag),
            i <= items.len(),
            spec_list(items.take(i as int), envs, tag, args.reveal, key_view(key)) == Ok::<
                Seq<Seq<char>>,
                (Fault, Seq<char>),
            >(views(lines@)),
        decreases store.items.len() - i,
    {
        let ghost t = items.take(i + 1);
        assert(t.drop_last() =~= items.take(i as int));
        assert(t.last() == items[i as int]);
        let (id, item) = &store.items[i];
        let (more, failure) = list_item(id, item, args, key);
        append_lines(&mut lines, more);
        match failure {
            None => {},
            Some(e) => {
                proof {
                    lemma_list_err(items, envs, tag, args.reveal, key_view(key), i + 1);
                    lemma_list_printed(items, envs, tag, args.reveal, key_view(key), i as int, items.len() as int);
                    assert(items.take(items.len() as int) =~= items);
                }
                return (lines, Some(e));
            },
        }
        i = i + 1;
    }
    assert(items.take(items.len() as int) =~= items);
    (lines, None)
}

/// `Removed <id>`, or `Item '<id>' not found`.
pub open spec fn remove_message(id: Seq<char>, removed: bool) -> Seq<char> {
    if removed {
        "Removed "@ + id
    } else {
        "Item '"@ + id + "' not found"@
    }
}

/// `remove`: removes the item (values and metadata); returns whether there
/// was one, and the message to print.
pub fn remove(store: &mut Store, args: &RemoveArgs) -> (r: (bool, String))
    requires
        old(store).wf(),
    ensures
        final(store).wf(),
        r.0 == old(store)@.items.contains_key(args.id@),
        final(store)@ == old(store)@.with_items(old(store)@.items.remove(args.id@)),
        r.1@ == remove_message(args.id@, r.0),
{
    let removed = store.remove(args.id.as_str());
    let msg = if removed {
        concat("Removed ", args.id.as_str())
    } else {
        let a = concat("Item '", args.id.as_str());
        concat(a.as_str(), "' not found")
    };
    (removed, msg)
}

/// A short description of a fault.
pub open spec fn fault_message(f: Fault) -> Seq<char> {
    match f {
        Fault::ItemNotFound => "item not found"@,
        Fault::NoValue => "no value"@,
        Fault::NoKey => "no encryption key configured (run `urd keys init`)"@,
        Fault::Crypto(CryptoError::EncryptionFailed) => "encryption failed"@,
        Fault::Crypto(CryptoError::InvalidFormat) => "invalid encrypted value format"@,
        Fault::Crypto(CryptoError::InvalidBase64) => "invalid base64 in encrypted value"@,
        Fault::Crypto(CryptoError::TooShort) => "encrypted value too short"@,
        Fault::Crypto(CryptoError::DecryptionFailed) => "decryption failed (wrong key?)"@,
        Fault::Crypto(CryptoError::InvalidUtf8) => "decrypted value is not valid UTF-8"@,
    }
}

/// A short description of a fault.
pub fn fault_text(f: Fault) -> (r: &'static str)
    ensures
        r@ == fault_message(f),
{
    match f {
        Fault::ItemNotFound => "item not found",
        Fault::NoValue => "no value",
        Fault::NoKey => "no encryption key configured (run `urd keys init`)",
        Fault::Crypto(CryptoError::EncryptionFailed) => "encryption failed",
        Fault::Crypto(CryptoError::InvalidFormat) => "invalid encrypted value format",
        Fault::Crypto(CryptoError::InvalidBase64) => "invalid base64 in encrypted value",
        Fault::Crypto(CryptoError::TooShort) => "encrypted value too short",
        Fault::Crypto(CryptoError::DecryptionFailed) => "decryption failed (wrong key?)",
        Fault::Crypto(CryptoError::InvalidUtf8) => "decrypted value is not valid UTF-8",
    }
}

/// The message of a failure: what went wrong, and what it concerns.
pub fn error_text(e: &CommandError) -> (r: String)
    ensures
        r@ == fault_message(e.fault) + ": "@ + e.subject@,
{
    let a = concat(fault_text(e.fault), ": ");
    concat(a.as_str(), e.subject.as_str())
}

} // verus!
