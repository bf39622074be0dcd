use urd::catalog::{catalog_add, catalog_list, catalog_show, set_defaults, show_defaults, validate, status_summary, status_report};
use urd::cli::{CatalogAddArgs, CatalogListArgs, ConfigSetDefaultsArgs, GetArgs, ListArgs, RemoveArgs, SetArgs};
use urd::commands::{get, list, remove, set_direct, Fault, SetStep, SetWizard};
use urd::crypto::{decode_key, encode_key, generate_key, generate_key_id, EncryptionKey};
use urd::store::{Sensitivity, Store};

fn strings(v: &[&str]) -> Vec<String> {
    v.iter().map(|s| s.to_string()).collect()
}

fn set(store: &mut Store, key: &EncryptionKey, id: &str, envs: &[&str], value: &str, sensitive: bool, secret: bool) -> String {
    set_direct(store, id, value, &strings(envs), sensitive, secret, Some(key)).unwrap()
}

fn get_text(store: &Store, key: &EncryptionKey, id: &str, envs: &[&str], reveal: bool) -> Result<String, Fault> {
    let args = GetArgs { id: id.to_string(), env: strings(envs), reveal };
    match get(store, &args, Some(key)) {
        (lines, None) => Ok(lines.join("\n")),
        (_, Some(e)) => Err(e.fault),
    }
}

fn list_text(store: &Store, key: &EncryptionKey, envs: &[&str], reveal: bool) -> String {
    let args = ListArgs { tag: None, env: strings(envs), reveal };
    let (lines, failure) = list(store, &args, Some(key));
    assert!(failure.is_none());
    lines.join("\n")
}

fn add_catalog(store: &mut Store, id: &str, sensitivity: Option<Sensitivity>, description: Option<&str>, envs: &[&str]) {
    let args = CatalogAddArgs {
        id: id.to_string(),
        description: description.map(|d| d.to_string()),
        sensitivity,
        origin: None,
        env: strings(envs),
        tag: Vec::new(),
    };
    catalog_add(store, &args);
}

#[test]
fn keys_init_creates_key() {
    let key = generate_key();
    assert_eq!(key.bytes.len(), 32);
    let text = encode_key(&key);
    let back = decode_key(&text).unwrap();
    assert_eq!(back.bytes, key.bytes);
    let id = generate_key_id();
    assert_eq!(id.len(), 8);
    assert!(id.chars().all(|c| c.is_ascii_hexdigit()));
}

#[test]
fn list_empty_store() {
    let store = Store::new();
    let key = generate_key();
    assert!(list_text(&store, &key, &[], false).contains("Store is empty"));
}

#[test]
fn set_and_get_plaintext_value() {
    let mut store = Store::new();
    let key = generate_key();
    let msg = set(&mut store, &key, "supabase.url", &["dev"], "http://localhost:54321", false, false);
    assert!(msg.contains("Set supabase.url for dev"));
    assert!(get_text(&store, &key, "supabase.url", &["dev"], false).unwrap().contains("http://localhost:54321"));
}

#[test]
fn set_multiple_environments_and_get_each() {
    let mut store = Store::new();
    let key = generate_key();
    set(&mut store, &key, "supabase.url", &["dev"], "http://localhost:54321", false, false);
    set(&mut store, &key, "supabase.url", &["prod"], "https://myproject.supabase.co", false, false);
    assert!(get_text(&store, &key, "supabase.url", &["dev"], false).unwrap().contains("http://localhost:54321"));
    assert!(get_text(&store, &key, "supabase.url", &["prod"], false).unwrap().contains("https://myproject.supabase.co"));
    let all = get_text(&store, &key, "supabase.url", &[], false).unwrap();
    assert!(all.contains("dev:"));
    assert!(all.contains("prod:"));
    let both = get_text(&store, &key, "supabase.url", &["dev", "prod"], false).unwrap();
    assert!(both.contains("dev:"));
    assert!(both.contains("prod:"));
}

#[test]
fn set_overwrites_existing_value() {
    let mut store = Store::new();
    let key = generate_key();
    set(&mut store, &key, "app.port", &["dev"], "3000", false, false);
    assert!(get_text(&store, &key, "app.port", &["dev"], false).unwrap().contains("3000"));
    set(&mut store, &key, "app.port", &["dev"], "8080", false, false);
    assert!(get_text(&store, &key, "app.port", &["dev"], false).unwrap().contains("8080"));
}

#[test]
fn mutation_does_not_affect_other_environments() {
    let mut store = Store::new();
    let key = generate_key();
    set(&mut store, &key, "app.port", &["dev"], "3000", false, false);
    set(&mut store, &key, "app.port", &["prod"], "80", false, false);
    set(&mut store, &key, "app.port", &["dev"], "8080", false, false);
    assert!(get_text(&store, &key, "app.port", &["dev"], false).unwrap().contains("8080"));
    assert!(get_text(&store, &key, "app.port", &["prod"], false).unwrap().contains("80"));
}

#[test]
fn list_shows_items_after_set() {
    let mut store = Store::new();
    let key = generate_key();
    set(&mut store, &key, "app.port", &["dev"], "3000", false, false);
    set(&mut store, &key, "supabase.url", &["dev"], "http://localhost", false, false);
    let out = list_text(&store, &key, &[], false);
    assert!(out.contains("app.port"));
    assert!(out.contains("dev: 3000"));
    assert!(out.contains("supabase.url"));
    assert!(out.contains("dev: http://localhost"));
}

#[test]
fn list_shows_values_with_env_filter() {
    let mut store = Store::new();
    let key = generate_key();
    set(&mut store, &key, "app.port", &["dev", "prod"], "3000", false, false);
    let out = list_text(&store, &key, &["prod"], false);
    assert!(out.contains("prod: 3000"));
    assert!(!out.contains("dev:"));
}

#[test]
fn list_reveals_sensitive_values() {
    let mut store = Store::new();
    let key = generate_key();
    set(&mut store, &key, "api.key", &["dev"], "secret123", true, false);
    assert!(list_text(&store, &key, &[], false).contains("(sensitive)"));
    assert!(list_text(&store, &key, &[], true).contains("secret123"));
}

#[test]
fn remove_item() {
    let mut store = Store::new();
    let key = generate_key();
    set(&mut store, &key, "app.port", &["dev"], "3000", false, false);
    let (removed, msg) = remove(&mut store, &RemoveArgs { id: "app.port".to_string() });
    assert!(removed);
    assert!(msg.contains("Removed app.port"));
    assert!(get_text(&store, &key, "app.port", &["dev"], false).is_err());
}

#[test]
fn get_nonexistent_item_fails() {
    let store = Store::new();
    let key = generate_key();
    assert_eq!(get_text(&store, &key, "does.not.exist", &["dev"], false), Err(Fault::ItemNotFound));
}

#[test]
fn set_multiple_envs_at_once() {
    let mut store = Store::new();
    let key = generate_key();
    let msg = set(&mut store, &key, "app.secret", &["dev", "prod"], "shared_val", false, false);
    assert!(msg.contains("Set app.secret for dev, prod"));
    assert!(get_text(&store, &key, "app.secret", &["dev"], false).unwrap().contains("shared_val"));
    assert!(get_text(&store, &key, "app.secret", &["prod"], false).unwrap().contains("shared_val"));
}

#[test]
fn sensitive_value_is_redacted_by_default() {
    let mut store = Store::new();
    let key = generate_key();
    set(&mut store, &key, "paddle.api_key", &["dev"], "sk_test_abc123", true, false);
    assert!(get_text(&store, &key, "paddle.api_key", &["dev"], false).unwrap().contains("(sensitive)"));
    assert!(get_text(&store, &key, "paddle.api_key", &["dev"], true).unwrap().contains("sk_test_abc123"));
    assert!(list_text(&store, &key, &[], false).contains("[sensitive]"));
}

#[test]
fn secret_value_is_redacted_by_default() {
    let mut store = Store::new();
    let key = generate_key();
    set(&mut store, &key, "db.password", &["prod"], "hunter2", false, true);
    assert!(get_text(&store, &key, "db.password", &["prod"], false).unwrap().contains("(secret)"));
    assert!(get_text(&store, &key, "db.password", &["prod"], true).unwrap().contains("hunter2"));
    assert!(list_text(&store, &key, &[], false).contains("[secret]"));
}

#[test]
fn sensitive_value_mutation_round_trips() {
    let mut store = Store::new();
    let key = generate_key();
    set(&mut store, &key, "paddle.api_key", &["dev"], "old_key", true, false);
    assert!(get_text(&store, &key, "paddle.api_key", &["dev"], true).unwrap().contains("old_key"));
    set(&mut store, &key, "paddle.api_key", &["dev"], "new_key", false, false);
    assert!(get_text(&store, &key, "paddle.api_key", &["dev"], true).unwrap().contains("new_key"));
    assert!(get_text(&store, &key, "paddle.api_key", &["dev"], false).unwrap().contains("(sensitive)"));
}

#[test]
fn set_infers_encryption_from_catalog_secret() {
    let mut store = Store::new();
    let key = generate_key();
    add_catalog(&mut store, "db.password", Some(Sensitivity::Secret), None, &[]);
    set(&mut store, &key, "db.password", &["dev"], "hunter2", false, false);
    assert!(get_text(&store, &key, "db.password", &["dev"], false).unwrap().contains("(secret)"));
    assert!(get_text(&store, &key, "db.password", &["dev"], true).unwrap().contains("hunter2"));
}

#[test]
fn set_with_catalog_plaintext_stores_plaintext() {
    let mut store = Store::new();
    let key = generate_key();
    add_catalog(&mut store, "app.url", Some(Sensitivity::Plaintext), None, &[]);
    set(&mut store, &key, "app.url", &["dev"], "http://localhost:3000", false, false);
    assert!(get_text(&store, &key, "app.url", &["dev"], false).unwrap().contains("http://localhost:3000"));
}

#[test]
fn set_explicit_flag_overrides_catalog_sensitivity() {
    let mut store = Store::new();
    let key = generate_key();
    add_catalog(&mut store, "api.key", Some(Sensitivity::Sensitive), None, &[]);
    set(&mut store, &key, "api.key", &["dev"], "sk_abc123", false, true);
    assert!(get_text(&store, &key, "api.key", &["dev"], false).unwrap().contains("(secret)"));
    assert!(get_text(&store, &key, "api.key", &["dev"], true).unwrap().contains("sk_abc123"));
}

#[test]
fn config_show_empty_by_default() {
    let store = Store::new();
    assert!(show_defaults(&store).contains("No default environments configured"));
}

#[test]
fn config_set_defaults_and_show() {
    let mut store = Store::new();
    let msg = set_defaults(&mut store, &ConfigSetDefaultsArgs { envs: strings(&["local", "prod"]) });
    assert!(msg.contains("Default environments: local, prod"));
    assert!(show_defaults(&store).contains("Default environments: local, prod"));
}

#[test]
fn config_set_defaults_clear() {
    let mut store = Store::new();
    set_defaults(&mut store, &ConfigSetDefaultsArgs { envs: strings(&["local", "prod"]) });
    let msg = set_defaults(&mut store, &ConfigSetDefaultsArgs { envs: Vec::new() });
    assert!(msg.contains("Cleared default environments"));
    assert!(show_defaults(&store).contains("No default environments configured"));
}

#[test]
fn new_items_inherit_default_environments() {
    let mut store = Store::new();
    let key = generate_key();
    set_defaults(&mut store, &ConfigSetDefaultsArgs { envs: strings(&["local", "prod"]) });
    set(&mut store, &key, "app.port", &["local"], "3000", false, false);
    let shown = catalog_show(&store, "app.port").unwrap().join("\n");
    assert!(shown.contains("environments: local, prod"));
}

#[test]
fn catalog_add_inherits_default_environments() {
    let mut store = Store::new();
    set_defaults(&mut store, &ConfigSetDefaultsArgs { envs: strings(&["local", "prod"]) });
    add_catalog(&mut store, "db.host", None, Some("Database host"), &[]);
    let shown = catalog_show(&store, "db.host").unwrap().join("\n");
    assert!(shown.contains("environments: local, prod"));
}

#[test]
fn explicit_environments_not_overwritten_by_defaults() {
    let mut store = Store::new();
    set_defaults(&mut store, &ConfigSetDefaultsArgs { envs: strings(&["local", "prod"]) });
    add_catalog(&mut store, "db.host", None, None, &["staging", "prod"]);
    let shown = catalog_show(&store, "db.host").unwrap().join("\n");
    assert!(shown.contains("environments: staging, prod"));
}

// Further cases of the same functions.

#[test]
fn set_without_key_fails_for_encrypted_values() {
    let mut store = Store::new();
    let r = set_direct(&mut store, "a", "v", &strings(&["dev"]), true, false, None);
    assert_eq!(r.unwrap_err().fault, Fault::NoKey);
    assert!(store.is_empty());
}

#[test]
fn get_missing_env_fails_with_no_value() {
    let mut store = Store::new();
    let key = generate_key();
    set(&mut store, &key, "a", &["dev"], "1", false, false);
    assert_eq!(get_text(&store, &key, "a", &["prod"], false), Err(Fault::NoValue));
}

#[test]
fn get_single_env_is_unlabelled() {
    let mut store = Store::new();
    let key = generate_key();
    set(&mut store, &key, "a", &["dev"], "1", false, false);
    assert_eq!(get_text(&store, &key, "a", &["dev"], false).unwrap(), "1");
    assert_eq!(get_text(&store, &key, "a", &[], false).unwrap(), "1");
}

#[test]
fn reveal_without_key_fails() {
    let mut store = Store::new();
    let key = generate_key();
    set(&mut store, &key, "a", &["dev"], "s", false, true);
    let args = GetArgs { id: "a".to_string(), env: strings(&["dev"]), reveal: true };
    assert_eq!(get(&store, &args, None).1.unwrap().fault, Fault::NoKey);
    let other = generate_key();
    assert!(matches!(get(&store, &args, Some(&other)).1.unwrap().fault, Fault::Crypto(_)));
}

#[test]
fn remove_missing_item_reports_not_found() {
    let mut store = Store::new();
    let (removed, msg) = remove(&mut store, &RemoveArgs { id: "x".to_string() });
    assert!(!removed);
    assert_eq!(msg, "Item 'x' not found");
}

#[test]
fn list_filters_by_tag() {
    let mut store = Store::new();
    let key = generate_key();
    set(&mut store, &key, "a", &["dev"], "1", false, false);
    set(&mut store, &key, "b", &["dev"], "2", false, false);
    let args = CatalogAddArgs { id: "a".to_string(), description: None, sensitivity: None, origin: None, env: Vec::new(), tag: strings(&["vendor:x"]) };
    catalog_add(&mut store, &args);
    let (out, failure) = list(&store, &ListArgs { tag: Some("vendor:x".to_string()), env: Vec::new(), reveal: false }, Some(&key));
    assert!(failure.is_none());
    assert_eq!(out, strings(&["a", "  dev: 1"]));
}

#[test]
fn catalog_list_filters_and_labels() {
    let mut store = Store::new();
    add_catalog(&mut store, "a", Some(Sensitivity::Secret), Some("first"), &["dev"]);
    add_catalog(&mut store, "b", None, None, &["prod"]);
    let args = CatalogListArgs { env: strings(&["dev"]), tag: None, sensitivity: None };
    assert_eq!(catalog_list(&store, &args), strings(&["a [Secret]", "  description: first", "  environments: dev"]));
    let args = CatalogListArgs { env: Vec::new(), tag: None, sensitivity: Some(Sensitivity::Plaintext) };
    assert!(catalog_list(&store, &args).is_empty());
}

#[test]
fn catalog_show_lists_values_as_set() {
    let mut store = Store::new();
    let key = generate_key();
    set(&mut store, &key, "a", &["prod", "dev"], "v", false, false);
    assert_eq!(catalog_show(&store, "a").unwrap(), strings(&["a", "  values:", "    dev: (set)", "    prod: (set)"]));
    assert_eq!(catalog_show(&store, "nope").unwrap_err().fault, Fault::ItemNotFound);
}

#[test]
fn validate_reports_each_kind_of_issue() {
    let mut store = Store::new();
    let key = generate_key();
    add_catalog(&mut store, "a", Some(Sensitivity::Secret), None, &["dev", "prod"]);
    set(&mut store, &key, "b", &["dev"], "plain", false, false);
    add_catalog(&mut store, "b", Some(Sensitivity::Sensitive), Some("b"), &[]);
    set(&mut store, &key, "c", &["dev"], "1", false, false);
    let issues = validate(&store);
    assert_eq!(
        issues,
        strings(&[
            "MISSING: a [dev] — declared but no value set",
            "MISSING: a [prod] — declared but no value set",
            "UNENCRYPTED: b [dev] — declared Sensitive but stored as plaintext",
            "UNDOCUMENTED: c — has values but no description",
        ])
    );
}

#[test]
fn status_counts_items_values_and_envs() {
    let mut store = Store::new();
    let key = generate_key();
    set(&mut store, &key, "a", &["prod", "dev"], "1", false, false);
    set(&mut store, &key, "b", &["local"], "2", false, false);
    let summary = status_summary(&store);
    assert_eq!(summary.items, 2);
    assert_eq!(summary.values, 3);
    assert_eq!(summary.envs, strings(&["dev", "local", "prod"]));
    assert_eq!(summary.issues, 2);
    assert_eq!(
        status_report(&summary),
        strings(&["Items:      2", "Values:     3", "Envs:       dev, local, prod", "Issues:     2"])
    );
}

#[test]
fn interactive_set_walks_the_steps() {
    let mut store = Store::new();
    let key = generate_key();
    let args = SetArgs { id: None, env: Vec::new(), value: None, sensitive: false, secret: false };
    let mut w = SetWizard::new(args, &store.meta);
    assert_eq!(w.step, SetStep::Id);
    assert_eq!(w.env_options, strings(&["dev", "prod", "staging"]));
    w.answer_id("api.key".to_string());
    assert_eq!(w.step, SetStep::Env);
    w.answer_env(Some(1));
    assert_eq!(w.envs, strings(&["prod"]));
    assert_eq!(w.step, SetStep::Sensitivity);
    w.answer_sensitivity(Some(2));
    assert_eq!(w.step, SetStep::Value);
    w.answer_value("sk_1", Some(&key)).unwrap();
    w.answer_description("The key".to_string());
    w.answer_origin(String::new());
    let msg = w.answer_tags("vendor:x, scope:y", &mut store);
    assert_eq!(msg, "Set api.key for prod");
    assert_eq!(w.step, SetStep::Done);
    assert!(get_text(&store, &key, "api.key", &["prod"], false).unwrap().contains("(secret)"));
    let shown = catalog_show(&store, "api.key").unwrap();
    assert!(shown.contains(&"  tags: vendor:x, scope:y".to_string()));
    assert!(shown.contains(&"  sensitivity: Secret".to_string()));
    assert!(shown.contains(&"  description: The key".to_string()));
}

#[test]
fn interactive_set_escape_goes_back_or_out() {
    let store = Store::new();
    let args = SetArgs { id: Some("x".to_string()), env: Vec::new(), value: None, sensitive: false, secret: false };
    let mut w = SetWizard::new(args, &store.meta);
    assert_eq!(w.step, SetStep::Env);
    w.answer_env(None);
    assert_eq!(w.step, SetStep::Cancelled);
    let args = SetArgs { id: None, env: Vec::new(), value: None, sensitive: false, secret: false };
    let mut w = SetWizard::new(args, &store.meta);
    w.answer_id("y".to_string());
    w.answer_env(None);
    assert_eq!(w.step, SetStep::Id);
}

#[test]
fn get_prints_values_before_a_failure() {
    let mut store = Store::new();
    let key = generate_key();
    set(&mut store, &key, "a", &["dev"], "1", false, false);
    let args = GetArgs { id: "a".to_string(), env: strings(&["dev", "prod"]), reveal: false };
    let (lines, failure) = get(&store, &args, Some(&key));
    assert_eq!(lines, strings(&["dev: 1"]));
    let e = failure.unwrap();
    assert_eq!(e.fault, Fault::NoValue);
    assert_eq!(e.subject, "prod");
}

#[test]
fn list_prints_items_before_a_failure() {
    let mut store = Store::new();
    let key = generate_key();
    set(&mut store, &key, "a", &["dev"], "1", false, false);
    set(&mut store, &key, "b", &["dev"], "2", false, false);
    set(&mut store, &key, "b", &["prod"], "s", false, true);
    let args = ListArgs { tag: None, env: Vec::new(), reveal: true };
    let (lines, failure) = list(&store, &args, None);
    assert_eq!(lines, strings(&["a", "  dev: 1", "b [secret]", "  dev: 2"]));
    assert_eq!(failure.unwrap().fault, Fault::NoKey);
}
