//! Key handling for the browser: what each key does in each mode.
use vstd::prelude::*;

use crate::commands::error_text;
use crate::store::opt_view;
use crate::text::concat;
use crate::commands::{fault_message, CommandError};
use crate::tui::app::{
    advance_add_env_post, advance_add_post, confirm_clone_item_post, confirm_clone_post,
    confirm_edit_metadata_post, confirm_edit_value_post, initiate_add_post, initiate_clone_post,
    initiate_edit_post, initiate_edit_value_any_post, delete_target_view, field_after, field_before, recorded, redid, row_views, undid, AddEnvStep,
    AddStep, App, InputState, MetadataField, MetadataFields, Mode, SENSITIVITY_COUNT,
};

verus! {

/// A key of the keyboard, as far as the browser tells keys apart.
#[derive(Debug, Clone, Copy, PartialEq, Eq, Structural)]
pub enum KeyCode {
    Char(char),
    Enter,
    Esc,
    Up,
    Down,
    Left,
    Right,
    Tab,
    BackTab,
    Backspace,
    Delete,
    Home,
    End,
    Other,
}

/// A key press: the key and the modifiers held.
#[derive(Debug, Clone, Copy, PartialEq, Eq, Structural)]
pub struct KeyInput {
    pub code: KeyCode,
    pub ctrl: bool,
    pub alt: bool,
}

/// The text and the cursor's character position after a key is applied to
/// an input.
pub open spec fn input_after(buffer: Seq<char>, cursor: int, key: KeyInput) -> (Seq<char>, int) {
    match key.code {
        KeyCode::Backspace => if cursor > 0 {
            (buffer.take(cursor - 1) + buffer.skip(cursor), cursor - 1)
        } else {
            (buffer, cursor)
        },
        KeyCode::Delete => if cursor < buffer.len() {
            (buffer.take(cursor) + buffer.skip(cursor + 1), cursor)
        } else {
            (buffer, cursor)
        },
        KeyCode::Left => (buffer, if cursor > 0 {
            cursor - 1
        } else {
            0
        }),
        KeyCode::Right => (buffer, if cursor < buffer.len() {
            cursor + 1
        } else {
            cursor
        }),
        KeyCode::Home => (buffer, 0),
        KeyCode::End => (buffer, buffer.len() as int),
        KeyCode::Char(c) => if !key.ctrl && !key.alt {
            (buffer.take(cursor).push(c) + buffer.skip(cursor), cursor + 1)
        } else {
            (buffer, cursor)
        },
        _ => (buffer, cursor),
    }
}

/// Applies an editing key to a text input: deleting, moving, or typing a
/// character (not with Ctrl or Alt held).
pub fn apply_input_key(input: &mut InputState, key: KeyInput)
    requires
        old(input).wf(),
    ensures
        final(input).wf(),
        (final(input).buffer@, final(input).pos()) == input_after(
            old(input).buffer@,
            old(input).pos(),
            key,
        ),
{
    match key.code {
        KeyCode::Backspace => input.delete_back(),
        KeyCode::Delete => input.delete_forward(),
        KeyCode::Left => input.move_left(),
        KeyCode::Right => input.move_right(),
        KeyCode::Home => input.move_home(),
        KeyCode::End => input.move_end(),
        KeyCode::Char(c) => {
            if !key.ctrl && !key.alt {
                input.insert_char(c);
            }
        },
        _ => {},
    }
}

/// Whether input `b` is input `a` after `key`.
pub open spec fn edited(a: InputState, b: InputState, key: KeyInput) -> bool {
    (b.buffer@, b.pos()) == input_after(a.buffer@, a.pos(), key)
}

/// A choice among the sensitivity options after `key`: Left moves back and
/// Right forward, staying among the options.
pub open spec fn choice_after(i: int, key: KeyInput) -> int {
    if key.code == KeyCode::Left && i > 0 {
        i - 1
    } else if key.code == KeyCode::Right && i < SENSITIVITY_COUNT - 1 {
        i + 1
    } else {
        i
    }
}

/// Whether metadata fields `b` are `a` after `key` with `active` focused: the
/// focused field follows the key, the others stay.
pub open spec fn fields_after(a: MetadataFields, b: MetadataFields, active: MetadataField, key: KeyInput) -> bool {
    &&& if active == MetadataField::Description {
        edited(a.description, b.description, key)
    } else {
        b.description == a.description
    }
    &&& if active == MetadataField::Sensitivity {
        b.sensitivity == choice_after(a.sensitivity as int, key)
    } else {
        b.sensitivity == a.sensitivity
    }
    &&& if active == MetadataField::Origin {
        edited(a.origin, b.origin, key)
    } else {
        b.origin == a.origin
    }
    &&& if active == MetadataField::Tags {
        edited(a.tags, b.tags, key)
    } else {
        b.tags == a.tags
    }
    &&& if active == MetadataField::Environments {
        edited(a.environments, b.environments, key)
    } else {
        b.environments == a.environments
    }
}

/// Whether add step `b` is step `a` after `key`.
pub open spec fn add_step_after(a: AddStep, b: AddStep, key: KeyInput) -> bool {
    match a {
        AddStep::Id(x) => b matches AddStep::Id(y) && edited(x, y, key),
        AddStep::Env(x) => b matches AddStep::Env(y) && edited(x, y, key),
        AddStep::Sensitivity(i) => b matches AddStep::Sensitivity(j) && j == choice_after(i as int, key),
        AddStep::Value(x) => b matches AddStep::Value(y) && edited(x, y, key),
        AddStep::Description(x) => b matches AddStep::Description(y) && edited(x, y, key),
        AddStep::Origin(x) => b matches AddStep::Origin(y) && edited(x, y, key),
        AddStep::Tags(x) => b matches AddStep::Tags(y) && edited(x, y, key),
    }
}

/// Whether `key` edits the text (or choice) of the current mode rather than
/// confirming, cancelling or moving between fields.
pub open spec fn is_edit_key(m: Mode, key: KeyInput) -> bool {
    match m {
        Mode::Browse => false,
        Mode::ConfirmDelete(_) => false,
        Mode::EditMetadata { .. } => key.code != KeyCode::Enter && key.code != KeyCode::Esc && key.code
            != KeyCode::Tab && key.code != KeyCode::BackTab,
        _ => key.code != KeyCode::Enter && key.code != KeyCode::Esc,
    }
}

/// Whether mode `b` is mode `a` after an editing key: the field being edited
/// follows the key, everything else stays.
pub open spec fn mode_after_key(a: Mode, b: Mode, key: KeyInput) -> bool {
    match a {
        Mode::EditValue { item_id, env, input } => b matches Mode::EditValue { item_id: i, env: e, input: x }
            && i == item_id && e == env && edited(input, x, key),
        Mode::EditMetadata { item_id, fields, active_field } => b matches Mode::EditMetadata {
            item_id: i,
            fields: f,
            active_field: af,
        } && i == item_id && af == active_field && fields_after(fields, f, active_field, key),
        Mode::Clone { item_id, source_env, input } => b matches Mode::Clone { item_id: i, source_env: e, input: x }
            && i == item_id && e == source_env && edited(input, x, key),
        Mode::CloneItem { source_id, input } => b matches Mode::CloneItem { source_id: i, input: x } && i
            == source_id && edited(input, x, key),
        Mode::Add { step, id, env, sensitivity, value, description, origin } => b matches Mode::Add {
            step: st,
            id: i,
            env: e,
            sensitivity: se,
            value: v,
            description: d,
            origin: o,
        } && i == id && e == env && se == sensitivity && v == value && d == description && o == origin
            && add_step_after(step, st, key),
        Mode::AddEnv { item_id, step, env } => b matches Mode::AddEnv { item_id: i, step: st, env: e } && i
            == item_id && e == env && match step {
            AddEnvStep::Env(x) => st matches AddEnvStep::Env(y) && edited(x, y, key),
            AddEnvStep::Value(x) => st matches AddEnvStep::Value(y) && edited(x, y, key),
        },
        _ => b == a,
    }
}

/// The state with the status message cleared, as handling a key begins.
pub open spec fn cleared(a: App) -> App {
    App { status_message: None, ..a }
}

/// Whether `b` is `a` after a failed action `what` was reported: back to
/// browsing, the data kept, and the failure in the status bar.
pub open spec fn reported(a: App, b: App, what: Seq<char>, e: CommandError) -> bool {
    &&& b.mode is Browse
    &&& b.store == a.store
    &&& b.undo_stack == a.undo_stack
    &&& b.redo_stack == a.redo_stack
    &&& opt_view(b.status_message) == Some(what + " failed: "@ + fault_message(e.fault) + ": "@ + e.subject@)
}

/// Whether `b` follows from `a` by confirming a value edit, a failure being
/// reported.
pub open spec fn value_edit_confirmed(a: App, b: App) -> bool {
    exists|mid: App, r: Result<(), CommandError>|
        #[trigger] confirm_edit_value_post(a, mid, r) && (r is Ok ==> b == mid) && (r matches Err(e) ==> reported(
            mid,
            b,
            "Edit"@,
            e,
        ))
}

/// Whether `b` follows from `a` by advancing the add wizard, a failure being
/// reported.
pub open spec fn add_advanced(a: App, b: App) -> bool {
    exists|mid: App, r: Result<(), CommandError>|
        #[trigger] advance_add_post(a, mid, r) && (r is Ok ==> b == mid) && (r matches Err(e) ==> reported(
            mid,
            b,
            "Add"@,
            e,
        ))
}

/// Whether `b` follows from `a` by advancing the add-environment steps, a
/// failure being reported.
pub open spec fn add_env_advanced(a: App, b: App) -> bool {
    exists|mid: App, r: Result<(), CommandError>|
        #[trigger] advance_add_env_post(a, mid, r) && (r is Ok ==> b == mid) && (r matches Err(e) ==> reported(
            mid,
            b,
            "Add"@,
            e,
        ))
}

/// What an editing key leaves alone: the data, the rows and the selection.
pub open spec fn only_mode_changed(a: App, b: App) -> bool {
    &&& b.same_data(a)
    &&& b.visible_rows == a.visible_rows
    &&& b.selected == a.selected
    &&& b.filter == a.filter
    &&& b.expanded == a.expanded
    &&& b.revealed == a.revealed
}

/// Handles a key: clears the status message, then does what the key means
/// in the current mode.
pub fn handle_key(app: &mut App, key: KeyInput)
    requires
        old(app).wf(),
    ensures
        final(app).wf(),
        (old(app).mode is Browse && old(app).filter is None && (key.code == KeyCode::Char('q') || key.code == KeyCode::Esc))
            ==> final(app).should_quit,
        (old(app).mode is Browse && old(app).filter is None && key.code == KeyCode::Char('u')) ==> undid(*old(app), *final(app)),
        (old(app).mode is Browse && old(app).filter is None && key.code == KeyCode::Char('r') && key.ctrl) ==> redid(
            *old(app),
            *final(app),
        ),
        (old(app).mode is Browse && old(app).filter is None && key.code == KeyCode::Char('/')) ==> (final(app).filter matches Some(
            f,
        ) && f.buffer@.len() == 0),
        (old(app).mode is Browse && old(app).filter is Some && key.code == KeyCode::Esc) ==> final(app).filter is None
            && row_views(final(app).visible_rows@) == final(app).rows_spec(),
        !(old(app).mode is Browse) && key.code == KeyCode::Esc ==> final(app).mode is Browse && final(app).store
            == old(app).store,
        (old(app).mode matches Mode::EditMetadata { .. } && key.code == KeyCode::Tab) ==> (final(app).mode matches Mode::EditMetadata {
            active_field,
            ..
        } && old(app).mode matches Mode::EditMetadata { active_field: a0, .. } && active_field == field_after(a0)),
        (old(app).mode matches Mode::EditMetadata { .. } && key.code == KeyCode::BackTab) ==> (final(app).mode matches Mode::EditMetadata {
            active_field,
            ..
        } && old(app).mode matches Mode::EditMetadata { active_field: a0, .. } && active_field == field_before(a0)),
        is_edit_key(old(app).mode, key) ==> mode_after_key(old(app).mode, final(app).mode, key)
            && only_mode_changed(*old(app), *final(app)),
        (old(app).mode is ConfirmDelete && key.code == KeyCode::Char('y')) ==> recorded(*old(app), *final(app))
            && final(app).mode is Browse,
        ((old(app).mode is EditValue || old(app).mode is EditMetadata) && key.code == KeyCode::Enter) ==> recorded(
            *old(app),
            *final(app),
        ) && final(app).mode is Browse,
        (old(app).mode is Browse && old(app).filter is None && key.code != KeyCode::Char('u') && !(key.code == KeyCode::Char('r') && key.ctrl) && key.code
            != KeyCode::Char('q') && key.code != KeyCode::Esc) ==> final(app).same_data(*old(app)),
        (old(app).mode is Browse && old(app).filter is None && (key.code == KeyCode::Char('j') || key.code == KeyCode::Down)) ==> final(app).selected == (if old(
            app,
        ).visible_rows@.len() > 0 && old(app).selected + 1 < old(app).visible_rows@.len() {
            old(app).selected + 1
        } else {
            old(app).selected as int
        }),
        (old(app).mode is Browse && old(app).filter is None && (key.code == KeyCode::Char('k') || key.code == KeyCode::Up)) ==> final(app).selected == (if old(
            app,
        ).selected > 0 {
            old(app).selected - 1
        } else {
            0
        }),
        (old(app).mode is Browse && old(app).filter is None && key.code == KeyCode::Char('+')) ==> final(app).expanded@ == old(app).expanded@.union(
            crate::smap::view_map(old(app).store.items@).dom(),
        ),
        (old(app).mode is Browse && old(app).filter is None && key.code == KeyCode::Char('-')) ==> final(app).expanded@ == Set::<Seq<char>>::empty(),
        (old(app).mode is Browse && old(app).filter is None && key.code == KeyCode::Char('R')) ==> final(app).reveal_all == !old(app).reveal_all,
        (old(app).mode is Browse && old(app).filter is None && (key.code == KeyCode::Char('l') || key.code == KeyCode::Right || key.code
            == KeyCode::Enter) && old(app).selected_id() is Some) ==> final(app).expanded@ == old(app).expanded@.insert(
            old(app).selected_id()->0,
        ),
        (old(app).mode is Browse && old(app).filter is None && (key.code == KeyCode::Char('h') || key.code == KeyCode::Left) && old(app).selected_id() is Some)
            ==> final(app).expanded@ == old(app).expanded@.remove(old(app).selected_id()->0),
        (old(app).mode is Browse && old(app).filter is None && key.code == KeyCode::Char('r') && !key.ctrl && old(app).selected_id() is Some) ==> final(app).revealed@
            == (if old(app).revealed@.contains(old(app).selected_id()->0) {
            old(app).revealed@.remove(old(app).selected_id()->0)
        } else {
            old(app).revealed@.insert(old(app).selected_id()->0)
        }),
        old(app).selected_row_view() matches Some(rv) ==> ((old(app).mode is Browse && old(app).filter is None && key.code == KeyCode::Char('d') && (rv.0
            == 0 || rv.0 == 1)) ==> delete_target_view(final(app).mode) == old(app).selected_row_view()),
        (old(app).mode is Browse && old(app).filter is None && key.code == KeyCode::Char('e')) ==> initiate_edit_post(
            cleared(*old(app)),
            *final(app),
        ),
        (old(app).mode is Browse && old(app).filter is None && key.code == KeyCode::Char('v'))
            ==> initiate_edit_value_any_post(cleared(*old(app)), *final(app)),
        (old(app).mode is Browse && old(app).filter is None && key.code == KeyCode::Char('a')) ==> initiate_add_post(
            cleared(*old(app)),
            *final(app),
        ),
        (old(app).mode is Browse && old(app).filter is None && key.code == KeyCode::Char('c')) ==> initiate_clone_post(
            cleared(*old(app)),
            *final(app),
        ),
        (old(app).mode is EditValue && key.code == KeyCode::Enter) ==> value_edit_confirmed(
            cleared(*old(app)),
            *final(app),
        ),
        (old(app).mode is EditMetadata && key.code == KeyCode::Enter) ==> confirm_edit_metadata_post(
            cleared(*old(app)),
            *final(app),
        ),
        (old(app).mode is Clone && key.code == KeyCode::Enter) ==> confirm_clone_post(cleared(*old(app)), *final(app)),
        (old(app).mode is CloneItem && key.code == KeyCode::Enter) ==> confirm_clone_item_post(
            cleared(*old(app)),
            *final(app),
        ),
        (old(app).mode is Add && key.code == KeyCode::Enter) ==> add_advanced(cleared(*old(app)), *final(app)),
        (old(app).mode is AddEnv && key.code == KeyCode::Enter) ==> add_env_advanced(cleared(*old(app)), *final(app)),
{
    app.status_message = None;
    assert(*app == cleared(*old(app)));
    let kind: u8 = match &app.mode {
        Mode::Browse => 0,
        Mode::ConfirmDelete(_) => 1,
        Mode::EditValue { .. } => 2,
        Mode::EditMetadata { .. } => 3,
        Mode::Clone { .. } => 4,
        Mode::Add { .. } => 5,
        Mode::AddEnv { .. } => 6,
        Mode::CloneItem { .. } => 7,
    };
    if kind == 0 {
        handle_browse(app, key);
    } else if kind == 1 {
        handle_confirm_delete(app, key);
    } else if kind == 2 {
        handle_edit_value(app, key);
    } else if kind == 3 {
        handle_edit_metadata(app, key);
    } else if kind == 4 {
        handle_clone(app, key);
    } else if kind == 5 {
        handle_add(app, key);
    } else if kind == 6 {
        handle_add_env(app, key);
    } else {
        handle_clone_item(app, key);
    }
}

/// Keys while browsing; typing goes to the search filter while it is open.
fn handle_browse(app: &mut App, key: KeyInput)
    requires
        old(app).wf(),
        old(app).mode is Browse,
    ensures
        final(app).wf(),
        (old(app).filter is None && (key.code == KeyCode::Char('q') || key.code == KeyCode::Esc)) ==> final(app).should_quit,
        (old(app).filter is None && key.code == KeyCode::Char('u')) ==> undid(*old(app), *final(app)),
        (old(app).filter is None && key.code == KeyCode::Char('r') && key.ctrl) ==> redid(*old(app), *final(app)),
        (old(app).filter is None && key.code == KeyCode::Char('/')) ==> (final(app).filter matches Some(f) && f.buffer@.len() == 0),
        (old(app).filter is Some && key.code == KeyCode::Esc) ==> final(app).filter is None && row_views(
            final(app).visible_rows@,
        ) == final(app).rows_spec(),
        (old(app).filter is None && key.code != KeyCode::Char('u') && !(key.code == KeyCode::Char('r') && key.ctrl) && key.code
            != KeyCode::Char('q') && key.code != KeyCode::Esc) ==> final(app).same_data(*old(app)),
        (old(app).filter is None && (key.code == KeyCode::Char('j') || key.code == KeyCode::Down)) ==> final(app).selected == (if old(
            app,
        ).visible_rows@.len() > 0 && old(app).selected + 1 < old(app).visible_rows@.len() {
            old(app).selected + 1
        } else {
            old(app).selected as int
        }),
        (old(app).filter is None && (key.code == KeyCode::Char('k') || key.code == KeyCode::Up)) ==> final(app).selected == (if old(
            app,
        ).selected > 0 {
            old(app).selected - 1
        } else {
            0
        }),
        (old(app).filter is None && key.code == KeyCode::Char('+')) ==> final(app).expanded@ == old(app).expanded@.union(
            crate::smap::view_map(old(app).store.items@).dom(),
        ),
        (old(app).filter is None && key.code == KeyCode::Char('-')) ==> final(app).expanded@ == Set::<Seq<char>>::empty(),
        (old(app).filter is None && key.code == KeyCode::Char('R')) ==> final(app).reveal_all == !old(app).reveal_all,
        (old(app).filter is None && (key.code == KeyCode::Char('l') || key.code == KeyCode::Right || key.code
            == KeyCode::Enter) && old(app).selected_id() is Some) ==> final(app).expanded@ == old(app).expanded@.insert(
            old(app).selected_id()->0,
        ),
        (old(app).filter is None && (key.code == KeyCode::Char('h') || key.code == KeyCode::Left) && old(app).selected_id() is Some)
            ==> final(app).expanded@ == old(app).expanded@.remove(old(app).selected_id()->0),
        (old(app).filter is None && key.code == KeyCode::Char('r') && !key.ctrl && old(app).selected_id() is Some) ==> final(app).revealed@
            == (if old(app).revealed@.contains(old(app).selected_id()->0) {
            old(app).revealed@.remove(old(app).selected_id()->0)
        } else {
            old(app).revealed@.insert(old(app).selected_id()->0)
        }),
        old(app).selected_row_view() matches Some(rv) ==> ((old(app).filter is None && key.code == KeyCode::Char('d') && (rv.0
            == 0 || rv.0 == 1)) ==> delete_target_view(final(app).mode) == old(app).selected_row_view()),
        (old(app).filter is None && key.code == KeyCode::Char('e')) ==> initiate_edit_post(*old(app), *final(app)),
        (old(app).filter is None && key.code == KeyCode::Char('v')) ==> initiate_edit_value_any_post(*old(app), *final(app)),
        (old(app).filter is None && key.code == KeyCode::Char('a')) ==> initiate_add_post(*old(app), *final(app)),
        (old(app).filter is None && key.code == KeyCode::Char('c')) ==> initiate_clone_post(*old(app), *final(app)),
{
    if app.filter.is_some() {
        handle_search(app, key);
        return;
    }
    match key.code {
        KeyCode::Char('q') | KeyCode::Esc => {
            app.should_quit = true;
        },
        KeyCode::Char('j') | KeyCode::Down => app.move_down(),
        KeyCode::Char('k') | KeyCode::Up => app.move_up(),
        KeyCode::Char('l') | KeyCode::Right | KeyCode::Enter => app.expand_selected(),
        KeyCode::Char('h') | KeyCode::Left => app.collapse_selected(),
        KeyCode::Char('+') => app.expand_all(),
        KeyCode::Char('-') => app.collapse_all(),
        KeyCode::Char('r') => {
            if key.ctrl {
                app.redo();
            } else {
                app.toggle_reveal_selected();
            }
        },
        KeyCode::Char('u') => app.undo(),
        KeyCode::Char('R') => app.toggle_reveal_all(),
        KeyCode::Char('d') => app.initiate_delete(),
        KeyCode::Char('e') => app.initiate_edit(),
        KeyCode::Char('v') => app.initiate_edit_value_any(),
        KeyCode::Char('a') => app.initiate_add(),
        KeyCode::Char('c') => app.initiate_clone(),
        KeyCode::Char('/') => app.start_search(),
        _ => {},
    }
}

/// Keys while the search filter is open: Esc or Enter closes it, the arrows
/// still move, other keys edit the filter (the rows follow it).
fn handle_search(app: &mut App, key: KeyInput)
    requires
        old(app).wf(),
        old(app).filter is Some,
    ensures
        final(app).wf(),
        final(app).store == old(app).store,
        final(app).undo_stack == old(app).undo_stack,
        (key.code == KeyCode::Esc || key.code == KeyCode::Enter) ==> final(app).filter is None && row_views(
            final(app).visible_rows@,
        ) == final(app).rows_spec(),
        !(key.code == KeyCode::Esc || key.code == KeyCode::Enter || key.code == KeyCode::Up || key.code
            == KeyCode::Down) ==> (final(app).filter matches Some(f) && old(app).filter matches Some(f0) && (
        f.buffer@, f.pos()) == input_after(f0.buffer@, f0.pos(), key) && row_views(
            final(app).visible_rows@,
        ) == final(app).rows_spec()),
{
    match key.code {
        KeyCode::Esc | KeyCode::Enter => app.clear_search(),
        KeyCode::Down => app.move_down(),
        KeyCode::Up => app.move_up(),
        _ => {
            let mut f = match app.filter.take() {
                Some(f) => f,
                None => {
                    return;
                },
            };
            apply_input_key(&mut f, key);
            app.filter = Some(f);
            app.rebuild_rows();
        },
    }
}

/// Keys while confirming a delete: `y` deletes, `n` or Esc cancels.
fn handle_confirm_delete(app: &mut App, key: KeyInput)
    requires
        old(app).wf(),
        old(app).mode is ConfirmDelete,
    ensures
        final(app).wf(),
        key.code == KeyCode::Char('y') ==> recorded(*old(app), *final(app)) && final(app).mode is Browse,
        (key.code == KeyCode::Char('n') || key.code == KeyCode::Esc) ==> final(app).mode is Browse && final(app).store
            == old(app).store,
{
    match key.code {
        KeyCode::Char('y') => app.confirm_delete(),
        KeyCode::Char('n') | KeyCode::Esc => app.cancel_mode(),
        _ => {},
    }
}

/// Reports a failed action in the status bar and goes back to browsing.
fn report_failure(app: &mut App, what: &str, e: &crate::commands::CommandError)
    requires
        old(app).wf(),
    ensures
        final(app).wf(),
        reported(*old(app), *final(app), what@, *e),
{
    let t = error_text(e);
    let a = concat(what, " failed: ");
    let m = concat(a.as_str(), t.as_str());
    assert(m@ =~= what@ + " failed: "@ + fault_message(e.fault) + ": "@ + e.subject@);
    app.status_message = Some(m);
    app.cancel_mode();
}

/// Keys while editing a value: Enter saves, Esc cancels, others edit.
fn handle_edit_value(app: &mut App, key: KeyInput)
    requires
        old(app).wf(),
        old(app).mode is EditValue,
    ensures
        final(app).wf(),
        key.code == KeyCode::Esc ==> final(app).mode is Browse && final(app).store == old(app).store,
        key.code == KeyCode::Enter ==> recorded(*old(app), *final(app)) && final(app).mode is Browse,
        key.code == KeyCode::Enter ==> value_edit_confirmed(*old(app), *final(app)),
        is_edit_key(old(app).mode, key) ==> mode_after_key(old(app).mode, final(app).mode, key)
            && only_mode_changed(*old(app), *final(app)),
{
    match key.code {
        KeyCode::Enter => {
            let ghost a0 = *app;
            let r = app.confirm_edit_value();
            let ghost mid = *app;
            let ghost rr = r;
            match r {
                Ok(()) => {},
                Err(e) => report_failure(app, "Edit", &e),
            }
            assert(confirm_edit_value_post(a0, mid, rr) && (rr is Ok ==> *app == mid) && (rr matches Err(e)
                ==> reported(mid, *app, "Edit"@, e)));
        },
        KeyCode::Esc => app.cancel_mode(),
        _ => {
            let mut mode = Mode::Browse;
            std::mem::swap(&mut mode, &mut app.mode);
            app.mode = match mode {
                Mode::EditValue { item_id, env, input } => {
                    let mut input = input;
                    apply_input_key(&mut input, key);
                    Mode::EditValue { item_id, env, input }
                },
                other => other,
            };
        },
    }
}

/// Keys in the metadata form: Enter saves, Esc cancels, Tab and Shift+Tab
/// move between fields, Left and Right choose the sensitivity, others edit
/// the focused field.
fn handle_edit_metadata(app: &mut App, key: KeyInput)
    requires
        old(app).wf(),
        old(app).mode is EditMetadata,
    ensures
        final(app).wf(),
        key.code == KeyCode::Esc ==> final(app).mode is Browse && final(app).store == old(app).store,
        key.code == KeyCode::Enter ==> recorded(*old(app), *final(app)) && final(app).mode is Browse,
        is_edit_key(old(app).mode, key) ==> mode_after_key(old(app).mode, final(app).mode, key)
            && only_mode_changed(*old(app), *final(app)),
        key.code == KeyCode::Enter ==> confirm_edit_metadata_post(*old(app), *final(app)),
        (key.code == KeyCode::Tab || key.code == KeyCode::BackTab) ==> only_mode_changed(*old(app), *final(app)),
        old(app).mode matches Mode::EditMetadata { item_id: i0, fields: f0, active_field: a0 } ==> ((key.code
            == KeyCode::Tab || key.code == KeyCode::BackTab) ==> (final(app).mode matches Mode::EditMetadata {
            item_id,
            fields,
            active_field,
        } && item_id == i0 && fields == f0 && active_field == (if key.code == KeyCode::Tab {
            field_after(a0)
        } else {
            field_before(a0)
        }))),
        final(app).mode matches Mode::EditMetadata { fields, .. } ==> fields.sensitivity < SENSITIVITY_COUNT,
{
    match key.code {
        KeyCode::Enter => app.confirm_edit_metadata(),
        KeyCode::Esc => app.cancel_mode(),
        _ => {
            let mut mode = Mode::Browse;
            std::mem::swap(&mut mode, &mut app.mode);
            app.mode = match mode {
                Mode::EditMetadata { item_id, fields, active_field } => {
                    let mut fields = fields;
                    let mut active = active_field;
                    if key.code == KeyCode::Tab {
                        active = active.next();
                    } else if key.code == KeyCode::BackTab {
                        active = active.prev();
                    } else if active == MetadataField::Sensitivity {
                        if key.code == KeyCode::Left && fields.sensitivity > 0 {
                            fields.sensitivity = fields.sensitivity - 1;
                        } else if key.code == KeyCode::Right && fields.sensitivity < SENSITIVITY_COUNT - 1 {
                            fields.sensitivity = fields.sensitivity + 1;
                        }
                    } else if active == MetadataField::Description {
                        apply_input_key(&mut fields.description, key);
                    } else if active == MetadataField::Origin {
                        apply_input_key(&mut fields.origin, key);
                    } else if active == MetadataField::Tags {
                        apply_input_key(&mut fields.tags, key);
                    } else {
                        apply_input_key(&mut fields.environments, key);
                    }
                    Mode::EditMetadata { item_id, fields, active_field: active }
                },
                other => other,
            };
        },
    }
}

/// Keys while cloning a value: Enter clones, Esc cancels, others edit the
/// target environment.
fn handle_clone(app: &mut App, key: KeyInput)
    requires
        old(app).wf(),
        old(app).mode is Clone,
    ensures
        final(app).wf(),
        key.code == KeyCode::Esc ==> final(app).mode is Browse && final(app).store == old(app).store,
        is_edit_key(old(app).mode, key) ==> mode_after_key(old(app).mode, final(app).mode, key)
            && only_mode_changed(*old(app), *final(app)),
        key.code == KeyCode::Enter ==> confirm_clone_post(*old(app), *final(app)),
{
    match key.code {
        KeyCode::Esc => app.cancel_mode(),
        KeyCode::Enter => app.confirm_clone(),
        _ => {
            let mut mode = Mode::Browse;
            std::mem::swap(&mut mode, &mut app.mode);
            app.mode = match mode {
                Mode::Clone { item_id, source_env, input } => {
                    let mut input = input;
                    apply_input_key(&mut input, key);
                    Mode::Clone { item_id, source_env, input }
                },
                other => other,
            };
        },
    }
}

/// Keys while cloning an item: Enter clones, Esc cancels, others edit the
/// new ID.
fn handle_clone_item(app: &mut App, key: KeyInput)
    requires
        old(app).wf(),
        old(app).mode is CloneItem,
    ensures
        final(app).wf(),
        key.code == KeyCode::Esc ==> final(app).mode is Browse && final(app).store == old(app).store,
        is_edit_key(old(app).mode, key) ==> mode_after_key(old(app).mode, final(app).mode, key)
            && only_mode_changed(*old(app), *final(app)),
        key.code == KeyCode::Enter ==> confirm_clone_item_post(*old(app), *final(app)),
{
    match key.code {
        KeyCode::Esc => app.cancel_mode(),
        KeyCode::Enter => app.confirm_clone_item(),
        _ => {
            let mut mode = Mode::Browse;
            std::mem::swap(&mut mode, &mut app.mode);
            app.mode = match mode {
                Mode::CloneItem { source_id, input } => {
                    let mut input = input;
                    apply_input_key(&mut input, key);
                    Mode::CloneItem { source_id, input }
                },
                other => other,
            };
        },
    }
}

/// Keys in the add wizard: Enter advances, Esc cancels, Left and Right
/// choose the sensitivity, others edit the step's answer.
fn handle_add(app: &mut App, key: KeyInput)
    requires
        old(app).wf(),
        old(app).mode is Add,
    ensures
        final(app).wf(),
        key.code == KeyCode::Esc ==> final(app).mode is Browse && final(app).store == old(app).store,
        is_edit_key(old(app).mode, key) ==> mode_after_key(old(app).mode, final(app).mode, key)
            && only_mode_changed(*old(app), *final(app)),
        key.code == KeyCode::Enter ==> add_advanced(*old(app), *final(app)),
{
    match key.code {
        KeyCode::Esc => app.cancel_mode(),
        KeyCode::Enter => {
            let ghost a0 = *app;
            let r = app.advance_add();
            let ghost mid = *app;
            let ghost rr = r;
            match r {
                Ok(()) => {},
                Err(e) => report_failure(app, "Add", &e),
            }
            assert(advance_add_post(a0, mid, rr) && (rr is Ok ==> *app == mid) && (rr matches Err(e) ==> reported(
                mid,
                *app,
                "Add"@,
                e,
            )));
        },
        _ => {
            let mut mode = Mode::Browse;
            std::mem::swap(&mut mode, &mut app.mode);
            app.mode = match mode {
                Mode::Add { step, id, env, sensitivity, value, description, origin } => {
                    let step = match step {
                        AddStep::Sensitivity(i) => {
                            if key.code == KeyCode::Left && i > 0 {
                                AddStep::Sensitivity(i - 1)
                            } else if key.code == KeyCode::Right && i < SENSITIVITY_COUNT - 1 {
                                AddStep::Sensitivity(i + 1)
                            } else {
                                AddStep::Sensitivity(i)
                            }
                        },
                        AddStep::Id(x) => {
                            let mut x = x;
                            apply_input_key(&mut x, key);
                            AddStep::Id(x)
                        },
                        AddStep::Env(x) => {
                            let mut x = x;
                            apply_input_key(&mut x, key);
                            AddStep::Env(x)
                        },
                        AddStep::Value(x) => {
                            let mut x = x;
                            apply_input_key(&mut x, key);
                            AddStep::Value(x)
                        },
                        AddStep::Description(x) => {
                            let mut x = x;
                            apply_input_key(&mut x, key);
                            AddStep::Description(x)
                        },
                        AddStep::Origin(x) => {
                            let mut x = x;
                            apply_input_key(&mut x, key);
                            AddStep::Origin(x)
                        },
                        AddStep::Tags(x) => {
                            let mut x = x;
                            apply_input_key(&mut x, key);
                            AddStep::Tags(x)
                        },
                    };
                    Mode::Add { step, id, env, sensitivity, value, description, origin }
                },
                other => other,
            };
        },
    }
}

/// Keys in the add-environment wizard: Enter advances, Esc cancels, others
/// edit the step's answer.
fn handle_add_env(app: &mut App, key: KeyInput)
    requires
        old(app).wf(),
        old(app).mode is AddEnv,
    ensures
        final(app).wf(),
        key.code == KeyCode::Esc ==> final(app).mode is Browse && final(app).store == old(app).store,
        is_edit_key(old(app).mode, key) ==> mode_after_key(old(app).mode, final(app).mode, key)
            && only_mode_changed(*old(app), *final(app)),
        key.code == KeyCode::Enter ==> add_env_advanced(*old(app), *final(app)),
{
    match key.code {
        KeyCode::Esc => app.cancel_mode(),
        KeyCode::Enter => {
            let ghost a0 = *app;
            let r = app.advance_add_env();
            let ghost mid = *app;
            let ghost rr = r;
            match r {
                Ok(()) => {},
                Err(e) => report_failure(app, "Add", &e),
            }
            assert(advance_add_env_post(a0, mid, rr) && (rr is Ok ==> *app == mid) && (rr matches Err(e)
                ==> reported(mid, *app, "Add"@, e)));
        },
        _ => {
            let mut mode = Mode::Browse;
            std::mem::swap(&mut mode, &mut app.mode);
            app.mode = match mode {
                Mode::AddEnv { item_id, step, env } => {
                    let step = match step {
                        AddEnvStep::Env(x) => {
                            let mut x = x;
                            apply_input_key(&mut x, key);
                            AddEnvStep::Env(x)
                        },
                        AddEnvStep::Value(x) => {
                            let mut x = x;
                            apply_input_key(&mut x, key);
                            AddEnvStep::Value(x)
                        },
                    };
                    Mode::AddEnv { item_id, step, env }
                },
                other => other,
            };
        },
    }
}

} // verus!
