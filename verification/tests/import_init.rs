use urd::cli::{Format, GetArgs, ImportArgs};
use urd::commands::{get, set_direct};
use urd::crypto::{generate_key, EncryptionKey};
use urd::import::{detect_format, dotenv_readable, import, import_summary, parse_dotenv, parse_yaml};
use urd::init::{build_topology_skeleton, parse_env_list, preset_envs, preset_label_list};
use urd::paths::{join_path, key_file_path, store_path};
use urd::store::Store;

fn s(x: &str) -> String {
    x.to_string()
}

fn args(env: &str, sensitive: bool, secret: bool, skip_existing: bool, dry_run: bool) -> ImportArgs {
    ImportArgs { path: s("x.env"), env: s(env), format: None, sensitive, secret, skip_existing, dry_run }
}

fn get_text(store: &Store, key: &EncryptionKey, id: &str, env: &str, reveal: bool) -> Option<String> {
    let a = GetArgs { id: s(id), env: vec![s(env)], reveal };
    match get(store, &a, Some(key)) {
        (l, None) => Some(l.join("\n")),
        (_, Some(_)) => None,
    }
}

fn import_text(store: &mut Store, key: &EncryptionKey, text: &str, a: &ImportArgs) -> String {
    assert!(dotenv_readable(text));
    let (pairs, _warnings) = parse_dotenv(text);
    let outcome = import(store, a, &pairs, Some(key)).map_err(|_| "import failed").unwrap();
    let mut lines = outcome.lines.clone();
    lines.push(import_summary(&outcome, a));
    lines.join("\n")
}

#[test]
fn import_dotenv_file() {
    let mut store = Store::new();
    let key = generate_key();
    let text = "# Database config\nDB_HOST=localhost\nDB_PORT=5432\nAPP_URL=\"http://localhost:3000\"\nEMPTY_VAL=\n";
    let out = import_text(&mut store, &key, text, &args("dev", false, false, false, false));
    assert!(out.contains("Imported 4 items into dev"));
    assert!(get_text(&store, &key, "DB_HOST", "dev", false).unwrap().contains("localhost"));
    assert!(get_text(&store, &key, "DB_PORT", "dev", false).unwrap().contains("5432"));
    assert!(get_text(&store, &key, "APP_URL", "dev", false).unwrap().contains("http://localhost:3000"));
    assert!(get_text(&store, &key, "EMPTY_VAL", "dev", false).is_some());
}

#[test]
fn import_yaml_file() {
    let mut store = Store::new();
    let key = generate_key();
    let text = "DATABASE_URL: postgres://localhost/mydb\nAPI_KEY: sk_test_123\n";
    assert_eq!(detect_format("config.yaml"), Format::Yaml);
    let pairs = parse_yaml(text).unwrap();
    let a = args("dev", false, false, false, false);
    let outcome = import(&mut store, &a, &pairs, Some(&key)).map_err(|_| "import failed").unwrap();
    assert!(import_summary(&outcome, &a).contains("Imported 2 items into dev"));
    assert!(get_text(&store, &key, "DATABASE_URL", "dev", false).unwrap().contains("postgres://localhost/mydb"));
    assert!(get_text(&store, &key, "API_KEY", "dev", false).unwrap().contains("sk_test_123"));
}

#[test]
fn import_from_stdin() {
    let mut store = Store::new();
    let key = generate_key();
    assert_eq!(detect_format("-"), Format::Dotenv);
    let out = import_text(&mut store, &key, "MY_KEY=my_value\nOTHER=123\n", &args("dev", false, false, false, false));
    assert!(out.contains("Imported 2 items into dev"));
    assert!(get_text(&store, &key, "MY_KEY", "dev", false).unwrap().contains("my_value"));
}

#[test]
fn import_skip_existing() {
    let mut store = Store::new();
    let key = generate_key();
    set_direct(&mut store, "DB_HOST", "original", &vec![s("dev")], false, false, Some(&key)).unwrap();
    let out = import_text(&mut store, &key, "DB_HOST=overwritten\nDB_PORT=5432\n", &args("dev", false, false, true, false));
    assert!(out.contains("1 skipped"));
    assert!(get_text(&store, &key, "DB_HOST", "dev", false).unwrap().contains("original"));
    assert!(get_text(&store, &key, "DB_PORT", "dev", false).unwrap().contains("5432"));
}

#[test]
fn import_secret_encrypts_all() {
    let mut store = Store::new();
    let key = generate_key();
    let out = import_text(&mut store, &key, "API_KEY=sk_live_abc\nDB_PASSWORD=hunter2\n", &args("prod", false, true, false, false));
    assert!(out.contains("Imported 2 items into prod"));
    assert!(get_text(&store, &key, "API_KEY", "prod", false).unwrap().contains("(secret)"));
    assert!(get_text(&store, &key, "DB_PASSWORD", "prod", true).unwrap().contains("hunter2"));
}

#[test]
fn import_respects_catalog_sensitivity() {
    let mut store = Store::new();
    let key = generate_key();
    let c = urd::cli::CatalogAddArgs {
        id: s("DB_PASSWORD"),
        description: None,
        sensitivity: Some(urd::store::Sensitivity::Secret),
        origin: None,
        env: Vec::new(),
        tag: Vec::new(),
    };
    urd::catalog::catalog_add(&mut store, &c);
    import_text(&mut store, &key, "DB_PASSWORD=hunter2\nAPP_PORT=3000\n", &args("dev", false, false, false, false));
    assert!(get_text(&store, &key, "DB_PASSWORD", "dev", false).unwrap().contains("(secret)"));
    assert!(get_text(&store, &key, "APP_PORT", "dev", false).unwrap().contains("3000"));
}

#[test]
fn import_dry_run_does_not_write() {
    let mut store = Store::new();
    let key = generate_key();
    let out = import_text(&mut store, &key, "DB_HOST=localhost\nDB_PORT=5432\n", &args("dev", false, false, false, true));
    assert!(out.contains("dry run"));
    assert!(out.contains("DB_HOST=localhost"));
    assert!(out.contains("DB_PORT=5432"));
    assert!(store.is_empty());
}

#[test]
fn import_dry_run_shows_skip_and_encrypt() {
    let mut store = Store::new();
    let key = generate_key();
    set_direct(&mut store, "DB_HOST", "original", &vec![s("dev")], false, false, Some(&key)).unwrap();
    let out = import_text(&mut store, &key, "DB_HOST=overwritten\nAPI_KEY=secret123\n", &args("dev", false, true, true, true));
    assert!(out.contains("skip"));
    assert!(out.contains("encrypt"));
    assert!(out.contains("dry run"));
    assert!(get_text(&store, &key, "DB_HOST", "dev", false).unwrap().contains("original"));
    assert!(get_text(&store, &key, "API_KEY", "dev", false).is_none());
}

#[test]
fn import_inherits_default_environments() {
    let mut store = Store::new();
    let key = generate_key();
    urd::catalog::set_defaults(&mut store, &urd::cli::ConfigSetDefaultsArgs { envs: vec![s("local"), s("prod")] });
    import_text(&mut store, &key, "DB_HOST=localhost\n", &args("local", false, false, false, false));
    let shown = urd::catalog::catalog_show(&store, "DB_HOST").map_err(|_| "missing").unwrap().join("\n");
    assert!(shown.contains("environments: local, prod"));
}

// Further cases.

#[test]
fn dotenv_parsing_trims_unquotes_and_warns() {
    let (pairs, warnings) = parse_dotenv("  A = 1 \n#c\n\nB='x y'\nnoequals\nC=a=b\r\n");
    assert_eq!(pairs, vec![(s("A"), s("1")), (s("B"), s("x y")), (s("C"), s("a=b"))]);
    assert_eq!(warnings, vec![s("noequals")]);
}

#[test]
fn dotenv_with_lone_quote_value_is_not_readable() {
    assert!(!dotenv_readable("A=\"\n"));
    assert!(dotenv_readable("A=\"\"\n"));
    assert_eq!(parse_dotenv("A=\"\"").0, vec![(s("A"), s(""))]);
}

#[test]
fn detect_format_by_extension() {
    assert_eq!(detect_format("a/b.yml"), Format::Yaml);
    assert_eq!(detect_format("b.YAML"), Format::Dotenv);
    assert_eq!(detect_format(".yaml"), Format::Dotenv);
    assert_eq!(detect_format("dir.yaml/"), Format::Yaml);
    assert_eq!(detect_format("x.env"), Format::Dotenv);
}

#[test]
fn yaml_that_is_not_a_string_map_is_refused() {
    assert!(parse_yaml("- a\n- b\n").is_none());
    assert_eq!(parse_yaml("b: 2x\na: 1x\n").unwrap(), vec![(s("a"), s("1x")), (s("b"), s("2x"))]);
}

#[test]
fn env_presets_and_custom_list() {
    assert_eq!(
        preset_label_list(),
        vec![s("dev, prod"), s("local, dev, prod"), s("local, staging, prod"), s("dev, staging, prod"), s("Custom")]
    );
    assert_eq!(preset_envs(2).unwrap(), vec![s("local"), s("staging"), s("prod")]);
    assert!(preset_envs(4).is_none());
    assert_eq!(parse_env_list(" a, ,b ,"), vec![s("a"), s("b")]);
}

#[test]
fn topology_skeleton_has_a_block_per_env() {
    let text = build_topology_skeleton(&vec![s("dev")]);
    assert!(text.starts_with("# Topology presets — each maps components to environments\n"));
    assert!(text.ends_with("# all-dev:\n#   app: dev\n#   # api:\n#   # web:\n\n"));
}

#[test]
fn paths_join_like_path_join() {
    assert_eq!(join_path("a", "b"), "a/b");
    assert_eq!(join_path("a/", "b"), "a/b");
    assert_eq!(join_path("a", "/b"), "/b");
    assert_eq!(store_path(None), ".urd/store.yaml");
    assert_eq!(store_path(Some("/h")), "/h/store.yaml");
    assert_eq!(key_file_path("/h", "ab12"), "/h/keys/ab12.key");
}

#[test]
fn import_without_key_fails_at_first_encrypting_pair() {
    let mut store = Store::new();
    let key = generate_key();
    let a = args("dev", false, false, false, false);
    set_direct(&mut store, "B", "old", &vec![s("dev")], false, true, Some(&key)).unwrap();
    let pairs = vec![(s("A"), s("1")), (s("B"), s("2")), (s("C"), s("3"))];
    let e = import(&mut store, &a, &pairs, None).map(|_| ()).unwrap_err();
    assert_eq!(e.fault, urd::commands::Fault::NoKey);
    assert_eq!(e.subject, "B");
}
