use urd::crypto::{
    decode_key, decrypt_value, encode_key, encrypt_value, encrypt_with_nonce, generate_key, parse_sensitivity,
    CryptoError, EncryptionKey, SensitivityLevel,
};
use urd::store::Store;
use urd::tui::app::{AddStep, App, InputState, MetadataField, Mode, Row};
use urd::tui::input::{apply_input_key, handle_key, KeyCode, KeyInput};
use urd::tui::ui::{item_warnings, list_lines, sensitivity_badge, status_bar, Tone};

fn s(x: &str) -> String {
    x.to_string()
}

fn key(code: KeyCode) -> KeyInput {
    KeyInput { code, ctrl: false, alt: false }
}

fn ch(c: char) -> KeyInput {
    key(KeyCode::Char(c))
}

fn zero_key() -> EncryptionKey {
    decode_key("AAAAAAAAAAAAAAAAAAAAAAAAAAAAAAAAAAAAAAAAAAA=").unwrap()
}

#[test]
fn encryption_known_answer() {
    let k = zero_key();
    let out = encrypt_with_nonce("", SensitivityLevel::Secret, &k, &vec![0u8; 12]).unwrap();
    assert_eq!(out, "ENC[aes:secret,AAAAAAAAAAAAAAAAUw+K+8dFNrmpY7TxxMtziw==]");
    assert_eq!(decrypt_value(&out, &k).unwrap(), "");
}

#[test]
fn encryption_round_trips_and_declares_level() {
    let k = generate_key();
    let e = encrypt_value("hunter2 ✓", SensitivityLevel::Sensitive, &k).unwrap();
    assert!(e.starts_with("ENC[aes:sensitive,"));
    assert_eq!(parse_sensitivity(&e), Some(SensitivityLevel::Sensitive));
    assert_eq!(decrypt_value(&e, &k).unwrap(), "hunter2 ✓");
    let other = generate_key();
    assert_eq!(decrypt_value(&e, &other).unwrap_err(), CryptoError::DecryptionFailed);
}

#[test]
fn decryption_errors() {
    let k = generate_key();
    assert_eq!(decrypt_value("plain", &k).unwrap_err(), CryptoError::InvalidFormat);
    assert_eq!(decrypt_value("ENC[aes:secret,***]", &k).unwrap_err(), CryptoError::InvalidBase64);
    assert_eq!(decrypt_value("ENC[aes:secret,AAAA]", &k).unwrap_err(), CryptoError::TooShort);
    assert_eq!(decrypt_value("ENC[aes:secret,AAAA", &k).unwrap_err(), CryptoError::InvalidFormat);
}

#[test]
fn key_text_round_trips() {
    let k = generate_key();
    assert_eq!(decode_key(&encode_key(&k)).unwrap().bytes, k.bytes);
    assert!(decode_key("AAAA").is_err());
    assert!(decode_key("not base64!").is_err());
}

fn sample_store() -> Store {
    let mut store = Store::new();
    let k = generate_key();
    urd::commands::set_direct(&mut store, "a.one", "1", &vec![s("dev"), s("prod")], false, false, Some(&k)).unwrap();
    urd::commands::set_direct(&mut store, "b.two", "2", &vec![s("dev")], false, false, Some(&k)).unwrap();
    store
}

fn row_ids(app: &App) -> Vec<String> {
    app.visible_rows
        .iter()
        .map(|r| match r {
            Row::ItemHeader(id) => format!("H {id}"),
            Row::EnvValue(id, env) => format!("V {id} {env}"),
            Row::MissingEnv(id, env) => format!("M {id} {env}"),
        })
        .collect()
}

#[test]
fn browser_expands_and_collapses() {
    let mut app = App::new(sample_store(), None);
    assert_eq!(row_ids(&app), vec![s("H a.one"), s("H b.two")]);
    handle_key(&mut app, ch('l'));
    assert_eq!(row_ids(&app), vec![s("H a.one"), s("V a.one dev"), s("V a.one prod"), s("H b.two")]);
    handle_key(&mut app, ch('j'));
    handle_key(&mut app, ch('j'));
    assert_eq!(app.selected, 2);
    handle_key(&mut app, ch('h'));
    assert_eq!(row_ids(&app), vec![s("H a.one"), s("H b.two")]);
    assert_eq!(app.selected, 0);
    handle_key(&mut app, ch('+'));
    assert_eq!(app.visible_rows.len(), 5);
    handle_key(&mut app, ch('-'));
    assert_eq!(app.visible_rows.len(), 2);
}

#[test]
fn browser_search_filters_rows() {
    let mut app = App::new(sample_store(), None);
    handle_key(&mut app, ch('/'));
    handle_key(&mut app, ch('T'));
    handle_key(&mut app, ch('w'));
    assert_eq!(row_ids(&app), vec![s("H b.two")]);
    handle_key(&mut app, key(KeyCode::Esc));
    assert!(app.filter.is_none());
    assert_eq!(app.visible_rows.len(), 2);
}

#[test]
fn browser_delete_undo_redo() {
    let mut app = App::new(sample_store(), None);
    handle_key(&mut app, ch('d'));
    assert!(matches!(app.mode, Mode::ConfirmDelete(_)));
    handle_key(&mut app, ch('y'));
    assert_eq!(row_ids(&app), vec![s("H b.two")]);
    assert_eq!(app.status_message.as_deref(), Some("Deleted a.one"));
    assert!(app.needs_save);
    handle_key(&mut app, ch('u'));
    assert_eq!(row_ids(&app), vec![s("H a.one"), s("H b.two")]);
    assert_eq!(app.status_message.as_deref(), Some("Undone"));
    handle_key(&mut app, KeyInput { code: KeyCode::Char('r'), ctrl: true, alt: false });
    assert_eq!(row_ids(&app), vec![s("H b.two")]);
    assert_eq!(app.status_message.as_deref(), Some("Redone"));
    handle_key(&mut app, KeyInput { code: KeyCode::Char('r'), ctrl: true, alt: false });
    assert_eq!(app.status_message.as_deref(), Some("Nothing to redo"));
}

#[test]
fn undo_history_is_bounded() {
    let mut app = App::new(sample_store(), None);
    for _ in 0..60 {
        app.mode = Mode::ConfirmDelete(urd::tui::app::DeleteTarget::Item(s("zzz")));
        app.confirm_delete();
    }
    assert_eq!(app.undo_stack.len(), 50);
}

#[test]
fn browser_edit_metadata() {
    let mut app = App::new(sample_store(), None);
    handle_key(&mut app, ch('e'));
    match &app.mode {
        Mode::EditMetadata { active_field, fields, .. } => {
            assert_eq!(*active_field, MetadataField::Description);
            assert_eq!(fields.environments.buffer, "");
        }
        _ => panic!("expected the metadata form"),
    }
    for c in "Hello".chars() {
        handle_key(&mut app, ch(c));
    }
    handle_key(&mut app, key(KeyCode::Tab));
    handle_key(&mut app, key(KeyCode::Right));
    handle_key(&mut app, key(KeyCode::Right));
    handle_key(&mut app, key(KeyCode::Enter));
    assert_eq!(app.status_message.as_deref(), Some("Updated metadata for a.one"));
    let item = app.store.get("a.one").unwrap();
    assert_eq!(item.description.as_deref(), Some("Hello"));
    assert_eq!(item.sensitivity, Some(urd::store::Sensitivity::Secret));
}

#[test]
fn browser_add_item_wizard() {
    let mut app = App::new(Store::new(), Some(generate_key()));
    handle_key(&mut app, ch('a'));
    for c in "new.item".chars() {
        handle_key(&mut app, ch(c));
    }
    handle_key(&mut app, key(KeyCode::Enter));
    for c in "dev".chars() {
        handle_key(&mut app, ch(c));
    }
    handle_key(&mut app, key(KeyCode::Enter));
    handle_key(&mut app, key(KeyCode::Right));
    handle_key(&mut app, key(KeyCode::Enter));
    for c in "v1".chars() {
        handle_key(&mut app, ch(c));
    }
    handle_key(&mut app, key(KeyCode::Enter));
    handle_key(&mut app, key(KeyCode::Enter));
    handle_key(&mut app, key(KeyCode::Enter));
    handle_key(&mut app, key(KeyCode::Enter));
    assert_eq!(app.status_message.as_deref(), Some("Added new.item (dev)"));
    let item = app.store.get("new.item").unwrap();
    assert_eq!(item.environments, vec![s("dev")]);
    assert!(item.value("dev").unwrap().starts_with("ENC[aes:sensitive,"));
    assert_eq!(row_ids(&app), vec![s("H new.item"), s("V new.item dev")]);
}

#[test]
fn browser_add_without_key_fails() {
    let mut app = App::new(Store::new(), None);
    app.mode = Mode::Add {
        step: AddStep::Tags(InputState::new("")),
        id: s("x"),
        env: s("dev"),
        sensitivity: 2,
        value: s("v"),
        description: String::new(),
        origin: String::new(),
    };
    handle_key(&mut app, key(KeyCode::Enter));
    assert!(matches!(app.mode, Mode::Browse));
    assert!(app.status_message.as_deref().unwrap().starts_with("Add failed: no encryption key configured"));
    let left = app.store.get("x").unwrap();
    assert!(left.values.is_empty());
    assert!(left.environments.is_empty());
    assert_eq!(app.undo_stack.len(), 1);
}

#[test]
fn browser_clone_value_and_item() {
    let mut app = App::new(sample_store(), None);
    handle_key(&mut app, ch('l'));
    handle_key(&mut app, ch('j'));
    handle_key(&mut app, ch('c'));
    for c in " staging ".chars() {
        handle_key(&mut app, ch(c));
    }
    handle_key(&mut app, key(KeyCode::Enter));
    let item = app.store.get("a.one").unwrap();
    assert_eq!(item.value("staging").map(|v| v.as_str()), Some("1"));
    assert_eq!(item.environments, vec![s("staging")]);
    assert_eq!(app.status_message.as_deref(), Some("Cloned dev → staging for a.one"));
    app.selected = 0;
    handle_key(&mut app, ch('c'));
    for c in "a.copy".chars() {
        handle_key(&mut app, ch(c));
    }
    handle_key(&mut app, key(KeyCode::Enter));
    assert!(app.store.get("a.copy").is_some());
    assert_eq!(app.status_message.as_deref(), Some("Cloned a.one → a.copy"));
}

#[test]
fn input_editing_keys() {
    let mut i = InputState::new("ac");
    apply_input_key(&mut i, key(KeyCode::Left));
    apply_input_key(&mut i, ch('b'));
    assert_eq!(i.buffer, "abc");
    assert_eq!(i.cursor, 2);
    apply_input_key(&mut i, key(KeyCode::Backspace));
    assert_eq!(i.buffer, "ac");
    apply_input_key(&mut i, key(KeyCode::Home));
    apply_input_key(&mut i, key(KeyCode::Delete));
    assert_eq!(i.buffer, "c");
    apply_input_key(&mut i, KeyInput { code: KeyCode::Char('x'), ctrl: true, alt: false });
    assert_eq!(i.buffer, "c");
    apply_input_key(&mut i, key(KeyCode::End));
    assert_eq!(i.cursor, 1);
}

#[test]
fn input_cursor_is_a_byte_offset() {
    let mut i = InputState::new("é→");
    assert_eq!(i.cursor, 5);
    apply_input_key(&mut i, key(KeyCode::Left));
    assert_eq!(i.cursor, 2);
    apply_input_key(&mut i, ch('ß'));
    assert_eq!(i.buffer, "éß→");
    assert_eq!(i.cursor, 4);
    apply_input_key(&mut i, key(KeyCode::Backspace));
    apply_input_key(&mut i, key(KeyCode::Backspace));
    assert_eq!(i.buffer, "→");
    assert_eq!(i.cursor, 0);
    apply_input_key(&mut i, key(KeyCode::Right));
    assert_eq!(i.cursor, 3);
}

#[test]
fn metadata_fields_cycle() {
    let f = MetadataField::Description;
    assert_eq!(f.next().prev(), f);
    assert_eq!(f.next().next().next().next().next(), f);
    assert_eq!(MetadataField::Environments.label(), "environments");
}

#[test]
fn scrolling_keeps_selection_visible() {
    let mut app = App::new(sample_store(), None);
    app.selected = 1;
    app.adjust_scroll(1);
    assert_eq!(app.scroll_offset, 1);
    app.selected = 0;
    app.adjust_scroll(1);
    assert_eq!(app.scroll_offset, 0);
}

#[test]
fn list_panel_shows_badges_and_masks() {
    let k = generate_key();
    let mut store = sample_store();
    urd::commands::set_direct(&mut store, "c.secret", "pw", &vec![s("dev")], false, true, Some(&k)).unwrap();
    let mut app = App::new(store, Some(k));
    app.expand_all();
    let lines = list_lines(&mut app, 20);
    let texts: Vec<String> = lines.iter().map(|l| l.iter().map(|sp| sp.text.clone()).collect::<String>()).collect();
    assert_eq!(texts[0], "  a.one [plaintext] (undocumented)");
    assert_eq!(lines[0][0].tone, Tone::Selected);
    assert_eq!(texts[1], "  ├ dev: 1");
    assert_eq!(texts[2], "  └ prod: 1");
    assert!(texts.contains(&s("  └ dev: ••••••")));
    app.toggle_reveal_all();
    let lines = list_lines(&mut app, 20);
    let texts: Vec<String> = lines.iter().map(|l| l.iter().map(|sp| sp.text.clone()).collect::<String>()).collect();
    assert!(texts.contains(&s("  └ dev: pw")));
}

#[test]
fn empty_list_shows_hint() {
    let mut app = App::new(Store::new(), None);
    let lines = list_lines(&mut app, 10);
    assert_eq!(lines.len(), 1);
    assert_eq!(lines[0][0].text, "  Store is empty. Use `urd set` to add items.");
}

#[test]
fn badges_and_warnings() {
    let store = sample_store();
    let item = store.get("a.one").unwrap();
    assert_eq!(sensitivity_badge(item).text, " [plaintext]");
    assert_eq!(item_warnings(item), vec![s("undocumented")]);
}

#[test]
fn status_bar_shows_message_or_hints() {
    let mut app = App::new(Store::new(), None);
    let bar: String = status_bar(&app).iter().map(|sp| sp.text.clone()).collect();
    assert!(bar.starts_with(" q quit  j/k navigate"));
    app.status_message = Some(s("Done"));
    let bar = status_bar(&app);
    assert_eq!(bar[0].text, " Done");
    assert_eq!(bar[0].tone, Tone::Success);
}

#[test]
fn browser_v_edits_the_selected_value() {
    let mut app = App::new(sample_store(), None);
    handle_key(&mut app, ch('l'));
    handle_key(&mut app, ch('j'));
    handle_key(&mut app, ch('v'));
    match &app.mode {
        Mode::EditValue { item_id, env, input } => {
            assert_eq!(item_id, "a.one");
            assert_eq!(env, "dev");
            assert_eq!(input.buffer, "1");
        }
        _ => panic!("expected the value editor"),
    }
    handle_key(&mut app, key(KeyCode::Backspace));
    handle_key(&mut app, ch('7'));
    handle_key(&mut app, key(KeyCode::Enter));
    assert_eq!(app.store.get("a.one").unwrap().value("dev").map(|v| v.as_str()), Some("7"));
}

#[test]
fn metadata_sensitivity_choice_stays_in_range() {
    let mut app = App::new(sample_store(), None);
    handle_key(&mut app, ch('e'));
    handle_key(&mut app, key(KeyCode::Tab));
    for _ in 0..5 {
        handle_key(&mut app, key(KeyCode::Right));
    }
    match &app.mode {
        Mode::EditMetadata { fields, .. } => assert_eq!(fields.sensitivity, 2),
        _ => panic!("expected the metadata form"),
    }
    handle_key(&mut app, key(KeyCode::BackTab));
    match &app.mode {
        Mode::EditMetadata { fields, active_field, .. } => {
            assert_eq!(fields.sensitivity, 2);
            assert_eq!(*active_field, MetadataField::Description);
        }
        _ => panic!("expected the metadata form"),
    }
}
