//! Topologies: for each component, the environment its values come from, the
//! directory it lives in, and glob overrides that send some items to other
//! environments.
use vstd::prelude::*;

use crate::smap::{insert_entry, lemma_view_map_insert, lookup, sorted_keys, view_map};
use crate::text::{owned, str_eq};

verus! {

/// A YAML value as far as topologies read it: a string, a mapping (in file
/// order), or anything else.
pub enum YamlValue {
    Str(String),
    Mapping(Vec<(YamlValue, YamlValue)>),
    Other,
}

/// A resolved component within a topology.
pub struct ComponentConfig {
    pub env: String,
    pub path: String,
}

impl View for ComponentConfig {
    type V = (Seq<char>, Seq<char>);

    open spec fn view(&self) -> (Seq<char>, Seq<char>) {
        (self.env@, self.path@)
    }
}

/// A single override rule: a glob pattern mapping matched item IDs to a
/// different environment.
pub struct OverrideRule {
    pub pattern: String,
    pub env: String,
}

impl View for OverrideRule {
    type V = (Seq<char>, Seq<char>);

    open spec fn view(&self) -> (Seq<char>, Seq<char>) {
        (self.pattern@, self.env@)
    }
}

/// The views of a sequence of rules.
pub open spec fn rule_views(rules: Seq<OverrideRule>) -> Seq<(Seq<char>, Seq<char>)> {
    rules.map_values(|r: OverrideRule| r@)
}

/// A list of rules, viewed as (pattern, env) pairs.
pub struct RuleList {
    pub rules: Vec<OverrideRule>,
}

impl View for RuleList {
    type V = Seq<(Seq<char>, Seq<char>)>;

    open spec fn view(&self) -> Seq<(Seq<char>, Seq<char>)> {
        rule_views(self.rules@)
    }
}

/// A fully parsed topology.
pub struct Topology {
    pub components: Vec<(String, ComponentConfig)>,
    pub overrides: Vec<(String, RuleList)>,
}

/// The abstract content of a topology.
pub struct TopologyView {
    pub components: Map<Seq<char>, (Seq<char>, Seq<char>)>,
    pub overrides: Map<Seq<char>, Seq<(Seq<char>, Seq<char>)>>,
}

impl View for Topology {
    type V = TopologyView;

    open spec fn view(&self) -> TopologyView {
        TopologyView { components: view_map(self.components@), overrides: view_map(self.overrides@) }
    }
}

impl Topology {
    pub open spec fn wf(&self) -> bool {
        sorted_keys(self.components@) && sorted_keys(self.overrides@)
    }
}

/// Why a topology file's content is not a valid set of topologies.
#[derive(Debug)]
pub enum TopologyError {
    /// A mapping component has no string `env`.
    MissingEnv { topology: String, component: String },
    /// A component is neither a string nor a mapping.
    InvalidComponent { topology: String, component: String },
    /// `overrides` is not a mapping.
    OverridesNotMapping { topology: String },
    /// A key of `overrides` is not a string.
    OverrideKeyNotString { topology: String },
    /// A component's overrides are not a mapping.
    OverrideRulesNotMapping { topology: String, component: String },
    /// An override pattern is not a string.
    PatternNotString { topology: String },
    /// An override's environment is not a string.
    OverrideEnvNotString { topology: String, pattern: String },
}

/// The kind of a topology error, with the name it reports (component or
/// pattern; empty when it reports only the topology).
pub open spec fn error_kind(e: TopologyError) -> (int, Seq<char>, Seq<char>) {
    match e {
        TopologyError::MissingEnv { topology, component } => (0, topology@, component@),
        TopologyError::InvalidComponent { topology, component } => (1, topology@, component@),
        TopologyError::OverridesNotMapping { topology } => (2, topology@, Seq::empty()),
        TopologyError::OverrideKeyNotString { topology } => (3, topology@, Seq::empty()),
        TopologyError::OverrideRulesNotMapping { topology, component } => (
            4,
            topology@,
            component@,
        ),
        TopologyError::PatternNotString { topology } => (5, topology@, Seq::empty()),
        TopologyError::OverrideEnvNotString { topology, pattern } => (6, topology@, pattern@),
    }
}

// ---------------------------------------------------------------------------
// Reading YAML values
// ---------------------------------------------------------------------------

/// The string a value holds, if it is a string.
pub open spec fn as_str(v: YamlValue) -> Option<Seq<char>> {
    match v {
        YamlValue::Str(s) => Some(s@),
        _ => None,
    }
}

/// The value of the first entry whose key is the string `key`.
pub open spec fn map_get(m: Seq<(YamlValue, YamlValue)>, key: Seq<char>) -> Option<YamlValue>
    decreases m.len(),
{
    if m.len() == 0 {
        None
    } else if as_str(m[0].0) == Some(key) {
        Some(m[0].1)
    } else {
        map_get(m.drop_first(), key)
    }
}

/// The string under `key` in a mapping, if there is one and it is a string.
pub open spec fn map_get_str(m: Seq<(YamlValue, YamlValue)>, key: Seq<char>) -> Option<Seq<char>> {
    match map_get(m, key) {
        Some(v) => as_str(v),
        None => None,
    }
}

fn value_str(v: &YamlValue) -> (r: Option<&String>)
    ensures
        r matches Some(s) ==> as_str(*v) == Some(s@),
        r is None ==> as_str(*v) is None,
{
    match v {
        YamlValue::Str(s) => Some(s),
        _ => None,
    }
}

/// The string under `key` in a mapping.
pub fn mapping_get_str<'a>(m: &'a Vec<(YamlValue, YamlValue)>, key: &str) -> (r: Option<&'a String>)
    ensures
        r matches Some(s) ==> map_get_str(m@, key@) == Some(s@),
        r is None ==> map_get_str(m@, key@) is None,
{
    let mut i: usize = 0;
    assert(m@.skip(0) =~= m@);
    while i < m.len()
        invariant
            i <= m@.len(),
            map_get(m@, key@) == map_get(m@.skip(i as int), key@),
        decreases m.len() - i,
    {
        let ghost rest = m@.skip(i as int);
        assert(rest[0] == m@[i as int]);
        let hit = match value_str(&m[i].0) {
            Some(k) => str_eq(k.as_str(), key),
            None => false,
        };
        if hit {
            return value_str(&m[i].1);
        }
        assert(rest.drop_first() =~= m@.skip(i + 1));
        i = i + 1;
    }
    None
}

// ---------------------------------------------------------------------------
// Components
// ---------------------------------------------------------------------------

/// What a component entry means: `api: dev` (env; path is the component name)
/// or `api: { env: dev, path: services/api }` (path defaults to the name). The
/// error is 0 for a missing `env`, 1 for another kind of value.
pub open spec fn spec_component(comp: Seq<char>, v: YamlValue) -> Result<(Seq<char>, Seq<char>), int> {
    match v {
        YamlValue::Str(env) => Ok((env@, comp)),
        YamlValue::Mapping(m) => match map_get_str(m@, "env"@) {
            None => Err(0),
            Some(env) => Ok(
                (
                    env,
                    match map_get_str(m@, "path"@) {
                        Some(p) => p,
                        None => comp,
                    },
                ),
            ),
        },
        YamlValue::Other => Err(1),
    }
}

/// Parse one component entry of topology `topo_name`.
pub fn parse_component_entry(topo_name: &str, comp_name: &str, value: &YamlValue) -> (r: Result<ComponentConfig, TopologyError>)
    ensures
        r matches Ok(c) ==> spec_component(comp_name@, *value) == Ok::<(Seq<char>, Seq<char>), int>(c@),
        r matches Err(e) ==> spec_component(comp_name@, *value) == Err::<(Seq<char>, Seq<char>), int>(
            error_kind(e).0,
        ) && error_kind(e).1 == topo_name@ && error_kind(e).2 == comp_name@,
{
    match value {
        YamlValue::Str(env) => Ok(ComponentConfig { env: env.clone(), path: owned(comp_name) }),
        YamlValue::Mapping(m) => {
            let env = match mapping_get_str(m, "env") {
                Some(e) => e.clone(),
                None => {
                    return Err(
                        TopologyError::MissingEnv {
                            topology: owned(topo_name),
                            component: owned(comp_name),
                        },
                    );
                },
            };
            let path = match mapping_get_str(m, "path") {
                Some(p) => p.clone(),
                None => owned(comp_name),
            };
            Ok(ComponentConfig { env, path })
        },
        YamlValue::Other => Err(
            TopologyError::InvalidComponent {
                topology: owned(topo_name),
                component: owned(comp_name),
            },
        ),
    }
}

// ---------------------------------------------------------------------------
// Overrides
// ---------------------------------------------------------------------------

/// The rules of one component's overrides, in file order; the error is
/// (5, "") for a non-string pattern and (6, pattern) for a non-string env.
pub open spec fn spec_rules(m: Seq<(YamlValue, YamlValue)>) -> Result<Seq<(Seq<char>, Seq<char>)>, (int, Seq<char>)>
    decreases m.len(),
{
    if m.len() == 0 {
        Ok(Seq::empty())
    } else {
        match spec_rules(m.drop_last()) {
            Err(e) => Err(e),
            Ok(acc) => match as_str(m.last().0) {
                None => Err((5, Seq::empty())),
                Some(p) => match as_str(m.last().1) {
                    None => Err((6, p)),
                    Some(env) => Ok(acc.push((p, env))),
                },
            },
        }
    }
}

/// The overrides of a topology, by component; the error is (kind, name).
pub open spec fn spec_overrides_entries(m: Seq<(YamlValue, YamlValue)>) -> Result<Map<Seq<char>, Seq<(Seq<char>, Seq<char>)>>, (int, Seq<char>)>
    decreases m.len(),
{
    if m.len() == 0 {
        Ok(Map::empty())
    } else {
        match spec_overrides_entries(m.drop_last()) {
            Err(e) => Err(e),
            Ok(acc) => match as_str(m.last().0) {
                None => Err((3, Seq::empty())),
                Some(comp) => match m.last().1 {
                    YamlValue::Mapping(rules) => match spec_rules(rules@) {
                        Err(e) => Err(e),
                        Ok(rs) => Ok(acc.insert(comp, rs)),
                    },
                    _ => Err((4, comp)),
                },
            },
        }
    }
}

/// The overrides a topology's `overrides` value declares.
pub open spec fn spec_overrides(v: YamlValue) -> Result<Map<Seq<char>, Seq<(Seq<char>, Seq<char>)>>, (int, Seq<char>)> {
    match v {
        YamlValue::Mapping(m) => spec_overrides_entries(m@),
        _ => Err((2, Seq::empty())),
    }
}

fn parse_rules(topo_name: &str, m: &Vec<(YamlValue, YamlValue)>) -> (r: Result<Vec<OverrideRule>, TopologyError>)
    ensures
        r matches Ok(rs) ==> spec_rules(m@) == Ok::<Seq<(Seq<char>, Seq<char>)>, (int, Seq<char>)>(
            rule_views(rs@),
        ),
        r matches Err(e) ==> spec_rules(m@) == Err::<Seq<(Seq<char>, Seq<char>)>, (int, Seq<char>)>(
            (error_kind(e).0, error_kind(e).2),
        ) && error_kind(e).1 == topo_name@,
{
    let mut rules: Vec<OverrideRule> = Vec::new();
    let mut i: usize = 0;
    assert(m@.take(0) =~= Seq::<(YamlValue, YamlValue)>::empty());
    assert(rule_views(rules@) =~= Seq::<(Seq<char>, Seq<char>)>::empty());
    while i < m.len()
        invariant
            i <= m@.len(),
            spec_rules(m@.take(i as int)) == Ok::<Seq<(Seq<char>, Seq<char>)>, (int, Seq<char>)>(
                rule_views(rules@),
            ),
        decreases m.len() - i,
    {
        let ghost t = m@.take(i + 1);
        assert(t.drop_last() =~= m@.take(i as int));
        assert(t.last() == m@[i as int]);
        let pattern = match value_str(&m[i].0) {
            Some(p) => p,
            None => {
                proof {
                    lemma_rules_err(m@, i + 1);
                }
                return Err(TopologyError::PatternNotString { topology: owned(topo_name) });
            },
        };
        let env = match value_str(&m[i].1) {
            Some(e) => e,
            None => {
                proof {
                    lemma_rules_err(m@, i + 1);
                }
                return Err(
                    TopologyError::OverrideEnvNotString {
                        topology: owned(topo_name),
                        pattern: pattern.clone(),
                    },
                );
            },
        };
        let ghost before = rules@;
        rules.push(OverrideRule { pattern: pattern.clone(), env: env.clone() });
        assert(rule_views(rules@) =~= rule_views(before).push((pattern@, env@)));
        i = i + 1;
    }
    assert(m@.take(m.len() as int) =~= m@);
    Ok(rules)
}

/// Parse the `overrides` value of topology `topo_name`.
pub fn parse_overrides(topo_name: &str, value: &YamlValue) -> (r: Result<Vec<(String, RuleList)>, TopologyError>)
    ensures
        r matches Ok(o) ==> sorted_keys(o@) && spec_overrides(*value) == Ok::<
            Map<Seq<char>, Seq<(Seq<char>, Seq<char>)>>,
            (int, Seq<char>),
        >(view_map(o@)),
        r matches Err(e) ==> spec_overrides(*value) == Err::<
            Map<Seq<char>, Seq<(Seq<char>, Seq<char>)>>,
            (int, Seq<char>),
        >((error_kind(e).0, error_kind(e).2)) && error_kind(e).1 == topo_name@,
{
    let m = match value {
        YamlValue::Mapping(m) => m,
        _ => {
            return Err(TopologyError::OverridesNotMapping { topology: owned(topo_name) });
        },
    };
    let mut result: Vec<(String, RuleList)> = Vec::new();
    assert(m@.take(0) =~= Seq::<(YamlValue, YamlValue)>::empty());
    assert(view_map(result@) =~= Map::<Seq<char>, Seq<(Seq<char>, Seq<char>)>>::empty());
    let mut i: usize = 0;
    while i < m.len()
        invariant
            i <= m@.len(),
            spec_overrides(*value) == spec_overrides_entries(m@),
            sorted_keys(result@),
            spec_overrides_entries(m@.take(i as int)) == Ok::<
                Map<Seq<char>, Seq<(Seq<char>, Seq<char>)>>,
                (int, Seq<char>),
            >(view_map(result@)),
        decreases m.len() - i,
    {
        let ghost t = m@.take(i + 1);
        assert(t.drop_last() =~= m@.take(i as int));
        assert(t.last() == m@[i as int]);
        let comp = match value_str(&m[i].0) {
            Some(c) => c,
            None => {
                proof {
                    lemma_overrides_err(m@, i + 1);
                }
                return Err(TopologyError::OverrideKeyNotString { topology: owned(topo_name) });
            },
        };
        let rules_map = match &m[i].1 {
            YamlValue::Mapping(rm) => rm,
            _ => {
                proof {
                    lemma_overrides_err(m@, i + 1);
                }
                return Err(
                    TopologyError::OverrideRulesNotMapping {
                        topology: owned(topo_name),
                        component: comp.clone(),
                    },
                );
            },
        };
        let rules = match parse_rules(topo_name, rules_map) {
            Ok(rs) => rs,
            Err(e) => {
                proof {
                    lemma_overrides_err(m@, i + 1);
                }
                return Err(e);
            },
        };
        let ghost r0 = result@;
        let list = RuleList { rules };
        let ghost lv = list;
        insert_entry(&mut result, comp.clone(), list);
        proof {
            lemma_view_map_insert(r0, result@, comp@, lv);
        }
        i = i + 1;
    }
    assert(m@.take(m.len() as int) =~= m@);
    Ok(result)
}

// ---------------------------------------------------------------------------
// Topologies
// ---------------------------------------------------------------------------

/// The key under which a topology lists its overrides.
pub open spec fn overrides_key() -> Seq<char> {
    "overrides"@
}

/// What a topology's entries mean, in order: components, and the overrides
/// from its `overrides` entry. The error is (kind, name).
pub open spec fn spec_topology(entries: Seq<(String, YamlValue)>) -> Result<TopologyView, (int, Seq<char>)>
    decreases entries.len(),
{
    if entries.len() == 0 {
        Ok(TopologyView { components: Map::empty(), overrides: Map::empty() })
    } else {
        match spec_topology(entries.drop_last()) {
            Err(e) => Err(e),
            Ok(acc) => {
                let (key, value) = entries.last();
                if key@ == overrides_key() {
                    match spec_overrides(value) {
                        Err(e) => Err(e),
                        Ok(o) => Ok(TopologyView { overrides: o, ..acc }),
                    }
                } else {
                    match spec_component(key@, value) {
                        Err(k) => Err((k, key@)),
                        Ok(c) => Ok(TopologyView { components: acc.components.insert(key@, c), ..acc }),
                    }
                }
            },
        }
    }
}

/// Parse the entries of topology `name`.
pub fn parse_topology(name: &str, entries: &Vec<(String, YamlValue)>) -> (r: Result<Topology, TopologyError>)
    ensures
        r matches Ok(t) ==> t.wf() && spec_topology(entries@) == Ok::<TopologyView, (int, Seq<char>)>(
            t@,
        ),
        r matches Err(e) ==> spec_topology(entries@) == Err::<TopologyView, (int, Seq<char>)>(
            (error_kind(e).0, error_kind(e).2),
        ) && error_kind(e).1 == name@,
{
    let mut topo = Topology { components: Vec::new(), overrides: Vec::new() };
    assert(topo@.components =~= Map::<Seq<char>, (Seq<char>, Seq<char>)>::empty());
    assert(topo@.overrides =~= Map::<Seq<char>, Seq<(Seq<char>, Seq<char>)>>::empty());
    let mut i: usize = 0;
    while i < entries.len()
        invariant
            i <= entries@.len(),
            topo.wf(),
            spec_topology(entries@.take(i as int)) == Ok::<TopologyView, (int, Seq<char>)>(topo@),
        decreases entries.len() - i,
    {
        let ghost t = entries@.take(i + 1);
        assert(t.drop_last() =~= entries@.take(i as int));
        assert(t.last() == entries@[i as int]);
        let (key, value) = &entries[i];
        if str_eq(key.as_str(), "overrides") {
            let o = match parse_overrides(name, value) {
                Ok(o) => o,
                Err(e) => {
                    proof {
                        lemma_topology_err(entries@, i + 1);
                    }
                    return Err(e);
                },
            };
            topo.overrides = o;
        } else {
            let c = match parse_component_entry(name, key.as_str(), value) {
                Ok(c) => c,
                Err(e) => {
                    proof {
                        lemma_topology_err(entries@, i + 1);
                    }
                    return Err(e);
                },
            };
            let ghost c0 = topo.components@;
            let ghost cv = c;
            insert_entry(&mut topo.components, key.clone(), c);
            proof {
                lemma_view_map_insert(c0, topo.components@, key@, cv);
            }
        }
        i = i + 1;
    }
    assert(entries@.take(entries.len() as int) =~= entries@);
    Ok(topo)
}

/// Every topology of a file, in order; the error is (kind, topology, name).
pub open spec fn spec_topologies(raw: Seq<(String, Vec<(String, YamlValue)>)>) -> Result<Map<Seq<char>, TopologyView>, (int, Seq<char>, Seq<char>)>
    decreases raw.len(),
{
    if raw.len() == 0 {
        Ok(Map::empty())
    } else {
        match spec_topologies(raw.drop_last()) {
            Err(e) => Err(e),
            Ok(acc) => match spec_topology(raw.last().1@) {
                Err((k, n)) => Err((k, raw.last().0@, n)),
                Ok(t) => Ok(acc.insert(raw.last().0@, t)),
            },
        }
    }
}

/// All topologies of a topologies file, given as the file's top-level
/// mapping of topology names to their entries.
pub fn parse_topologies(raw: &Vec<(String, Vec<(String, YamlValue)>)>) -> (r: Result<Vec<(String, Topology)>, TopologyError>)
    ensures
        r matches Ok(ts) ==> sorted_keys(ts@) && (forall|i: int|
            0 <= i < ts@.len() ==> (#[trigger] ts@[i]).1.wf()) && spec_topologies(raw@) == Ok::<
            Map<Seq<char>, TopologyView>,
            (int, Seq<char>, Seq<char>),
        >(view_map(ts@)),
        r matches Err(e) ==> spec_topologies(raw@) == Err::<
            Map<Seq<char>, TopologyView>,
            (int, Seq<char>, Seq<char>),
        >(error_kind(e)),
{
    let mut out: Vec<(String, Topology)> = Vec::new();
    assert(view_map(out@) =~= Map::<Seq<char>, TopologyView>::empty());
    let mut i: usize = 0;
    while i < raw.len()
        invariant
            i <= raw@.len(),
            sorted_keys(out@),
            forall|k: int| 0 <= k < out@.len() ==> (#[trigger] out@[k]).1.wf(),
            spec_topologies(raw@.take(i as int)) == Ok::<
                Map<Seq<char>, TopologyView>,
                (int, Seq<char>, Seq<char>),
            >(view_map(out@)),
        decreases raw.len() - i,
    {
        let ghost t = raw@.take(i + 1);
        assert(t.drop_last() =~= raw@.take(i as int));
        assert(t.last() == raw@[i as int]);
        let (name, entries) = &raw[i];
        let topo = match parse_topology(name.as_str(), entries) {
            Ok(t) => t,
            Err(e) => {
                proof {
                    lemma_topologies_err(raw@, i + 1);
                }
                return Err(e);
            },
        };
        let ghost o0 = out@;
        let ghost tv = topo;
        insert_entry(&mut out, name.clone(), topo);
        proof {
            lemma_view_map_insert(o0, out@, name@, tv);
            assert forall|k: int| 0 <= k < out@.len() implies (#[trigger] out@[k]).1.wf() by {
                crate::smap::lemma_lookup_at(out@, k);
                let key = out@[k].0@;
                if key != name@ {
                    let j = choose|j: int| 0 <= j < o0.len() && #[trigger] o0[j].0@ == key;
                    crate::smap::lemma_lookup_at(o0, j);
                    assert(o0[j].1.wf());
                }
            }
        }
        i = i + 1;
    }
    assert(raw@.take(raw.len() as int) =~= raw@);
    Ok(out)
}

// ---------------------------------------------------------------------------
// An error in a prefix is the error of the whole
// ---------------------------------------------------------------------------

proof fn lemma_rules_err(m: Seq<(YamlValue, YamlValue)>, i: int)
    requires
        0 <= i <= m.len(),
        spec_rules(m.take(i)) is Err,
    ensures
        spec_rules(m) == spec_rules(m.take(i)),
    decreases m.len() - i,
{
    if i < m.len() {
        assert(m.take(i + 1).drop_last() =~= m.take(i));
        lemma_rules_err(m, i + 1);
    } else {
        assert(m.take(i) =~= m);
    }
}

proof fn lemma_overrides_err(m: Seq<(YamlValue, YamlValue)>, i: int)
    requires
        0 <= i <= m.len(),
        spec_overrides_entries(m.take(i)) is Err,
    ensures
        spec_overrides_entries(m) == spec_overrides_entries(m.take(i)),
    decreases m.len() - i,
{
    if i < m.len() {
        assert(m.take(i + 1).drop_last() =~= m.take(i));
        lemma_overrides_err(m, i + 1);
    } else {
        assert(m.take(i) =~= m);
    }
}

proof fn lemma_topology_err(m: Seq<(String, YamlValue)>, i: int)
    requires
        0 <= i <= m.len(),
        spec_topology(m.take(i)) is Err,
    ensures
        spec_topology(m) == spec_topology(m.take(i)),
    decreases m.len() - i,
{
    if i < m.len() {
        assert(m.take(i + 1).drop_last() =~= m.take(i));
        lemma_topology_err(m, i + 1);
    } else {
        assert(m.take(i) =~= m);
    }
}

proof fn lemma_topologies_err(m: Seq<(String, Vec<(String, YamlValue)>)>, i: int)
    requires
        0 <= i <= m.len(),
        spec_topologies(m.take(i)) is Err,
    ensures
        spec_topologies(m) == spec_topologies(m.take(i)),
    decreases m.len() - i,
{
    if i < m.len() {
        assert(m.take(i + 1).drop_last() =~= m.take(i));
        lemma_topologies_err(m, i + 1);
    } else {
        assert(m.take(i) =~= m);
    }
}

} // verus!
