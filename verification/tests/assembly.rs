use urd::assemble::{
    assemble, assemble_with_lan, discover_component_source, select_components, AssembleError, AssemblyOutcome, ComponentSource, Failure,
    Manifest,
};
use urd::cli::AssembleArgs;
use urd::commands::set_direct;
use urd::crypto::{generate_key, EncryptionKey};
use urd::store::Store;
use urd::template::env_file_contents;
use urd::topology::{parse_topologies, Topology, YamlValue};

fn s(x: &str) -> String {
    x.to_string()
}

fn ystr(x: &str) -> YamlValue {
    YamlValue::Str(s(x))
}

fn store_with_values(key: &EncryptionKey) -> Store {
    let mut store = Store::new();
    let mut put = |id: &str, env: &str, v: &str, secret: bool| {
        set_direct(&mut store, id, v, &vec![s(env)], false, secret, Some(key)).unwrap();
    };
    put("app.url", "dev", "http://localhost:3000", false);
    put("app.url", "prod", "https://app.example.com", false);
    put("db.host", "dev", "localhost", false);
    put("db.host", "prod", "db.example.com", false);
    put("db.password", "dev", "devpass", true);
    put("db.password", "prod", "prodpass", true);
    store
}

fn topologies() -> Vec<(String, Topology)> {
    let raw = vec![
        (s("all-local"), vec![(s("api"), ystr("dev")), (s("web"), ystr("dev"))]),
        (s("all-prod"), vec![(s("api"), ystr("prod")), (s("web"), ystr("prod"))]),
        (
            s("hybrid"),
            vec![
                (s("api"), ystr("dev")),
                (s("web"), ystr("dev")),
                (
                    s("overrides"),
                    YamlValue::Mapping(vec![(ystr("api"), YamlValue::Mapping(vec![(ystr("db.*"), ystr("prod"))]))]),
                ),
            ],
        ),
        (
            s("with-path"),
            vec![
                (
                    s("api"),
                    YamlValue::Mapping(vec![(ystr("env"), ystr("dev")), (ystr("path"), ystr("services/backend"))]),
                ),
                (s("web"), ystr("dev")),
            ],
        ),
    ];
    parse_topologies(&raw).map_err(|_| "bad topology").unwrap()
}

fn manifest(target: &str, vars: &[(&str, &str)]) -> ComponentSource {
    let mut vars: Vec<(String, String)> = vars.iter().map(|(a, b)| (s(a), s(b))).collect();
    vars.sort();
    ComponentSource::Manifest(Manifest { target: s(target), vars })
}

fn default_source(dir: &str) -> ComponentSource {
    if dir == "web" {
        manifest(".env.local", &[("NEXT_PUBLIC_APP_URL", "app.url")])
    } else {
        manifest(".env", &[("APP_URL", "app.url"), ("DB_HOST", "db.host"), ("DB_PASSWORD", "db.password")])
    }
}

fn run(
    topology: &str,
    component: Option<&str>,
    allow_missing: bool,
    source: &dyn Fn(&str) -> ComponentSource,
) -> Result<AssemblyOutcome, AssembleError> {
    let key = generate_key();
    let store = store_with_values(&key);
    let topos = topologies();
    let args = AssembleArgs { topology: s(topology), component: component.map(s), allow_missing, dry_run: false };
    let names = select_components(&topos, &args)?;
    let topo = &topos.iter().find(|(n, _)| n == topology).unwrap().1;
    let sources: Vec<ComponentSource> = names
        .iter()
        .map(|n| {
            let dir = &topo.components.iter().find(|(c, _)| c == n).unwrap().1.path;
            source(dir)
        })
        .collect();
    Ok(assemble(topo, &names, &sources, &store, allow_missing, Some(&key)))
}

fn file_text(out: &AssemblyOutcome, component: &str) -> (String, String) {
    let f = out.files.iter().find(|f| f.component == component).unwrap();
    (format!("{}/{}", f.dir, f.target), env_file_contents(&f.lines))
}

#[test]
fn assemble_all_local() {
    let out = run("all-local", None, false, &default_source).unwrap();
    assert!(out.error.is_none());
    let (path, api) = file_text(&out, "api");
    assert_eq!(path, "api/.env");
    assert_eq!(out.files[0].lines.len(), 3);
    assert!(api.contains("APP_URL=http://localhost:3000"));
    assert!(api.contains("DB_HOST=localhost"));
    assert!(api.contains("DB_PASSWORD=devpass"));
    let (path, web) = file_text(&out, "web");
    assert_eq!(path, "web/.env.local");
    assert!(web.contains("NEXT_PUBLIC_APP_URL=http://localhost:3000"));
}

#[test]
fn assemble_all_prod() {
    let out = run("all-prod", None, false, &default_source).unwrap();
    let (_, api) = file_text(&out, "api");
    assert!(api.contains("APP_URL=https://app.example.com"));
    assert!(api.contains("DB_HOST=db.example.com"));
    assert!(api.contains("DB_PASSWORD=prodpass"));
}

#[test]
fn assemble_with_overrides() {
    let out = run("hybrid", None, false, &default_source).unwrap();
    let (_, api) = file_text(&out, "api");
    assert!(api.contains("APP_URL=http://localhost:3000"));
    assert!(api.contains("DB_HOST=db.example.com"));
    assert!(api.contains("DB_PASSWORD=prodpass"));
    let (_, web) = file_text(&out, "web");
    assert!(web.contains("NEXT_PUBLIC_APP_URL=http://localhost:3000"));
}

#[test]
fn assemble_single_component() {
    let out = run("all-local", Some("web"), false, &default_source).unwrap();
    assert_eq!(out.files.len(), 1);
    assert_eq!(file_text(&out, "web").0, "web/.env.local");
}

#[test]
fn assemble_with_explicit_path() {
    let src = |dir: &str| {
        if dir == "services/backend" {
            manifest(".env", &[("APP_URL", "app.url"), ("DB_HOST", "db.host")])
        } else {
            default_source(dir)
        }
    };
    let out = run("with-path", None, false, &src).unwrap();
    let (path, env) = file_text(&out, "api");
    assert_eq!(path, "services/backend/.env");
    assert!(env.contains("APP_URL=http://localhost:3000"));
    assert!(env.contains("DB_HOST=localhost"));
}

#[test]
fn assemble_missing_topology_fails() {
    match run("nonexistent", None, false, &default_source) {
        Err(AssembleError::TopologyNotFound { topology }) => assert_eq!(topology, "nonexistent"),
        _ => panic!("expected a missing topology"),
    }
}

#[test]
fn assemble_missing_component_fails() {
    match run("all-local", Some("nope"), false, &default_source) {
        Err(AssembleError::ComponentNotFound { component, .. }) => assert_eq!(component, "nope"),
        _ => panic!("expected a missing component"),
    }
}

#[test]
fn assemble_missing_store_item_fails() {
    let src = |dir: &str| {
        if dir == "api" {
            manifest(".env", &[("MISSING", "does.not.exist")])
        } else {
            default_source(dir)
        }
    };
    let out = run("all-local", Some("api"), false, &src).unwrap();
    match out.error {
        Some(AssembleError::Unresolved { item_id, failure, .. }) => {
            assert_eq!(item_id, "does.not.exist");
            assert_eq!(failure, Failure::ItemNotFound);
        }
        _ => panic!("expected a missing item"),
    }
}

fn template(dir_name: &str, file: &str, text: &str) -> ComponentSource {
    let _ = dir_name;
    let (env_t, dot_t) = if file == "env.template" { (Some(text), None) } else { (None, Some(text)) };
    discover_component_source("c", None, env_t, dot_t).map_err(|_| "no source").unwrap()
}

#[test]
fn assemble_template_basic() {
    let text = "NODE_ENV=dev\nPORT=3000\nHOST=0.0.0.0\n\n# Database\nDB_HOST={{ db.host }}\nDB_PASSWORD={{ db.password }}\n\n# App\nAPP_URL={{ app.url }}\n";
    let src = move |dir: &str| if dir == "api" { template(dir, ".env.template", text) } else { default_source(dir) };
    let out = run("all-local", Some("api"), false, &src).unwrap();
    let (path, env) = file_text(&out, "api");
    assert_eq!(path, "api/.env");
    assert!(env.contains("NODE_ENV=dev"));
    assert!(env.contains("PORT=3000"));
    assert!(env.contains("HOST=0.0.0.0"));
    assert!(env.contains("# Database"));
    assert!(env.contains("# App"));
    assert!(env.contains("\n\n"));
    assert!(env.contains("DB_HOST=localhost"));
    assert!(env.contains("DB_PASSWORD=devpass"));
    assert!(env.contains("APP_URL=http://localhost:3000"));
}

#[test]
fn assemble_template_with_frontmatter_target() {
    let text = "# target: .env.local\nNEXT_PUBLIC_APP_URL={{ app.url }}\n";
    let src = move |dir: &str| if dir == "web" { template(dir, ".env.template", text) } else { default_source(dir) };
    let out = run("all-local", Some("web"), false, &src).unwrap();
    let (path, env) = file_text(&out, "web");
    assert_eq!(path, "web/.env.local");
    assert!(env.contains("NEXT_PUBLIC_APP_URL=http://localhost:3000"));
    assert!(!env.contains("# target:"));
}

#[test]
fn assemble_template_with_overrides() {
    let text = "APP_URL={{ app.url }}\nDB_HOST={{ db.host }}\nDB_PASSWORD={{ db.password }}\n";
    let src = move |dir: &str| if dir == "api" { template(dir, ".env.template", text) } else { default_source(dir) };
    let out = run("hybrid", Some("api"), false, &src).unwrap();
    let (_, env) = file_text(&out, "api");
    assert!(env.contains("APP_URL=http://localhost:3000"));
    assert!(env.contains("DB_HOST=db.example.com"));
    assert!(env.contains("DB_PASSWORD=prodpass"));
}

#[test]
fn assemble_template_missing_item_fails() {
    let text = "MISSING={{ does.not.exist }}\n";
    let src = move |dir: &str| if dir == "api" { template(dir, ".env.template", text) } else { default_source(dir) };
    let out = run("all-local", Some("api"), false, &src).unwrap();
    match out.error {
        Some(AssembleError::Unresolved { item_id, .. }) => assert_eq!(item_id, "does.not.exist"),
        _ => panic!("expected a missing item"),
    }
}

#[test]
fn assemble_allow_missing_continues() {
    let text = "APP_URL={{ app.url }}\nMISSING={{ does.not.exist }}\n";
    let src = move |dir: &str| if dir == "api" { template(dir, ".env.template", text) } else { default_source(dir) };
    let out = run("all-local", Some("api"), true, &src).unwrap();
    assert!(out.error.is_none());
    assert_eq!(out.warnings.len(), 1);
    assert!(out.warnings[0].item_missing);
    let (_, env) = file_text(&out, "api");
    assert!(env.contains("APP_URL=http://localhost:3000"));
    assert!(env.contains("MISSING="));
}

#[test]
fn assemble_allow_missing_with_manifest() {
    let src = |dir: &str| {
        if dir == "api" {
            manifest(".env", &[("APP_URL", "app.url"), ("MISSING", "does.not.exist")])
        } else {
            default_source(dir)
        }
    };
    let out = run("all-local", Some("api"), true, &src).unwrap();
    assert_eq!(out.warnings.len(), 1);
    let (_, env) = file_text(&out, "api");
    assert!(env.contains("APP_URL=http://localhost:3000"));
    assert!(env.contains("MISSING="));
}

#[test]
fn assemble_env_template_discovery() {
    let text = "# target: .env.local\nAPP_URL={{ app.url }}\n";
    let src = move |dir: &str| if dir == "web" { template(dir, "env.template", text) } else { default_source(dir) };
    let out = run("all-local", Some("web"), false, &src).unwrap();
    let (path, env) = file_text(&out, "web");
    assert_eq!(path, "web/.env.local");
    assert!(env.contains("APP_URL=http://localhost:3000"));
}

// Further cases.

#[test]
fn discovery_prefers_manifest_then_env_template() {
    let m = Manifest { target: s(".env"), vars: Vec::new() };
    assert!(matches!(
        discover_component_source("c", Some(m), Some("A=1"), Some("B=2")),
        Ok(ComponentSource::Manifest(_))
    ));
    match discover_component_source("c", None, Some("A=1"), Some("B=2")) {
        Ok(ComponentSource::Template(t)) => {
            assert_eq!(t.target, "env");
            assert_eq!(t.lines, vec![s("A=1")]);
        }
        _ => panic!("expected env.template"),
    }
    match discover_component_source("c", None, None, None) {
        Err(AssembleError::NoSource { component }) => assert_eq!(component, "c"),
        _ => panic!("expected no source"),
    }
}

#[test]
fn missing_value_without_allow_missing_names_the_environment() {
    let src = |dir: &str| {
        if dir == "api" {
            manifest(".env", &[("X", "app.url")])
        } else {
            default_source(dir)
        }
    };
    let key = generate_key();
    let mut store = Store::new();
    set_direct(&mut store, "app.url", "u", &vec![s("staging")], false, false, Some(&key)).unwrap();
    let topos = topologies();
    let topo = &topos.iter().find(|(n, _)| n == "all-local").unwrap().1;
    let names = vec![s("api")];
    let out = assemble(topo, &names, &vec![src("api")], &store, false, Some(&key));
    match out.error {
        Some(AssembleError::Unresolved { env, failure, .. }) => {
            assert_eq!(env, "dev");
            assert_eq!(failure, Failure::NoValue);
        }
        _ => panic!("expected a missing value"),
    }
}

#[test]
fn encrypted_values_need_a_key() {
    let key = generate_key();
    let store = store_with_values(&key);
    let topos = topologies();
    let topo = &topos.iter().find(|(n, _)| n == "all-local").unwrap().1;
    let names = vec![s("api")];
    let out = assemble(topo, &names, &vec![default_source("api")], &store, false, None);
    match out.error {
        Some(AssembleError::Unresolved { item_id, failure, .. }) => {
            assert_eq!(item_id, "db.password");
            assert_eq!(failure, Failure::NoKey);
        }
        _ => panic!("expected a missing key"),
    }
}

#[test]
fn env_file_contents_ends_with_newline() {
    assert_eq!(env_file_contents(&vec![s("A=1"), s("B=2")]), "A=1\nB=2\n");
    assert_eq!(env_file_contents(&Vec::new()), "");
}

#[test]
fn assemble_template_warnings_rightmost_first() {
    let text = "PAIR={{ x.one }}:{{ x.two }}\n";
    let src = move |dir: &str| if dir == "api" { template(dir, ".env.template", text) } else { default_source(dir) };
    let out = run("all-local", Some("api"), true, &src).unwrap();
    assert!(out.error.is_none());
    assert_eq!(out.warnings.len(), 2);
    assert_eq!(out.warnings[0].item_id, "x.two");
    assert_eq!(out.warnings[1].item_id, "x.one");
    assert_eq!(out.warnings[1].context, "template expression '{{x.one}}' in component 'api'");
    assert!(out.warnings[0].item_missing);
    let (_, env) = file_text(&out, "api");
    assert!(env.contains("PAIR=:"));
}

#[test]
fn assemble_resolves_commented_out_expressions() {
    let text = "# APP_URL={{ app.url }}\n";
    let src = move |dir: &str| if dir == "api" { template(dir, ".env.template", text) } else { default_source(dir) };
    let out = run("all-local", Some("api"), false, &src).unwrap();
    let (_, env) = file_text(&out, "api");
    assert_eq!(env, "# APP_URL=http://localhost:3000\n");
}

fn run_with_lan(text: &'static str, lan: Option<String>) -> AssemblyOutcome {
    let key = generate_key();
    let store = store_with_values(&key);
    let topos = topologies();
    let args = AssembleArgs { topology: s("all-local"), component: Some(s("api")), allow_missing: false, dry_run: false };
    let names = select_components(&topos, &args).map_err(|_| "no components").unwrap();
    let topo = &topos.iter().find(|(n, _)| n == "all-local").unwrap().1;
    let sources = vec![template("api", ".env.template", text)];
    assemble_with_lan(topo, &names, &sources, &store, false, Some(&key), &lan)
}

#[test]
fn assemble_template_applies_local_ip_filter() {
    let out = run_with_lan("URL={{ app.url | local_ip }}\nHOST={{ db.host }}\n", Some(s("192.168.1.20")));
    assert!(out.error.is_none());
    let (_, env) = file_text(&out, "api");
    assert_eq!(env, "URL=http://192.168.1.20:3000/\nHOST=localhost\n");
}

#[test]
fn assemble_template_filter_failures_stop_assembly() {
    let out = run_with_lan("URL={{ app.url | local_ip }}\n", None);
    match out.error {
        Some(AssembleError::Unresolved { failure, .. }) => {
            assert_eq!(failure, Failure::Filter(urd::filters::FilterFailure::NoLanAddress))
        },
        _ => panic!("expected a filter failure"),
    }
    let out = run_with_lan("URL={{ app.url | nope }}\n", Some(s("192.168.1.20")));
    match out.error {
        Some(AssembleError::Unresolved { failure, .. }) => assert_eq!(failure, Failure::UnknownFilter),
        _ => panic!("expected an unknown filter"),
    }
    let out = run_with_lan("HOST={{ db.host | local_ip }}\n", Some(s("192.168.1.20")));
    match out.error {
        Some(AssembleError::Unresolved { failure, .. }) => {
            assert_eq!(failure, Failure::Filter(urd::filters::FilterFailure::InvalidUrl))
        },
        _ => panic!("expected an invalid URL"),
    }
}
