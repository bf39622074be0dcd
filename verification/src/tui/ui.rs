//! What the panels of the browser show: each line as styled pieces of text.
//! Drawing them on the terminal is the caller's.
use vstd::prelude::*;

use crate::crypto::{decrypt_value, is_encrypted, looks_encrypted, parse_sensitivity, spec_decrypt, spec_parse_sensitivity, SensitivityLevel};
use crate::smap::lookup;
use crate::store::{first_value_level, first_value_level_exec, opt_view, Item, ItemView, Sensitivity};
use crate::text::{concat, join, join_strings, owned, views};
use crate::tui::app::{
    app_key, field_label, option_name, sensitivity_option, step_label, AddEnvStep, AddStep, App,
    DeleteTarget, InputState, MetadataField, MetadataFields, Mode, Row, SENSITIVITY_COUNT,
};

verus! {

/// How a piece of text is shown.
#[derive(Debug, Clone, Copy, PartialEq, Eq, Structural)]
pub enum Tone {
    /// Default text.
    Plain,
    /// The selected row.
    Selected,
    /// Field names in the detail panel.
    Label,
    /// A prompt or the focused field.
    Prompt,
    /// The cursor of a text input.
    Cursor,
    /// Hints and empty states.
    Muted,
    /// Warnings and missing values.
    Alert,
    /// Missing value rows.
    AlertDim,
    /// A plaintext badge.
    BadgePlaintext,
    /// A sensitive badge.
    BadgeSensitive,
    /// A secret badge.
    BadgeSecret,
    /// Key names in the status bar.
    Key,
    /// The status message.
    Success,
    /// The chosen option of a selection.
    Chosen,
}

/// A piece of text and how it is shown.
pub struct Span {
    pub text: String,
    pub tone: Tone,
}

impl View for Span {
    type V = (Seq<char>, Tone);

    open spec fn view(&self) -> (Seq<char>, Tone) {
        (self.text@, self.tone)
    }
}

/// The views of the pieces of a line.
pub open spec fn line_view(l: Seq<Span>) -> Seq<(Seq<char>, Tone)> {
    l.map_values(|s: Span| s@)
}

/// The views of a list of lines.
pub open spec fn lines_view(ls: Seq<Vec<Span>>) -> Seq<Seq<(Seq<char>, Tone)>> {
    ls.map_values(|l: Vec<Span>| line_view(l@))
}

fn span(text: String, tone: Tone) -> (r: Span)
    ensures
        r@ == (text@, tone),
{
    Span { text, tone }
}

fn span_str(text: &str, tone: Tone) -> (r: Span)
    ensures
        r@ == (text@, tone),
{
    Span { text: owned(text), tone }
}

// ---------------------------------------------------------------------------
// Badges and warnings
// ---------------------------------------------------------------------------

/// The badge after an item's ID: its declared sensitivity, else the level of
/// its first encrypted value, else plaintext.
pub open spec fn badge(item: Item) -> (Seq<char>, Tone) {
    match item.sensitivity {
        Some(Sensitivity::Plaintext) => (" [plaintext]"@, Tone::BadgePlaintext),
        Some(Sensitivity::Sensitive) => (" [sensitive]"@, Tone::BadgeSensitive),
        Some(Sensitivity::Secret) => (" [secret]"@, Tone::BadgeSecret),
        None => match first_value_level(item.values@) {
            Some(SensitivityLevel::Sensitive) => (" [sensitive]"@, Tone::BadgeSensitive),
            Some(SensitivityLevel::Secret) => (" [secret]"@, Tone::BadgeSecret),
            None => (" [plaintext]"@, Tone::BadgePlaintext),
        },
    }
}

/// The badge after an item's ID.
pub fn sensitivity_badge(item: &Item) -> (r: Span)
    ensures
        r@ == badge(*item),
{
    match item.sensitivity {
        Some(Sensitivity::Plaintext) => span_str(" [plaintext]", Tone::BadgePlaintext),
        Some(Sensitivity::Sensitive) => span_str(" [sensitive]", Tone::BadgeSensitive),
        Some(Sensitivity::Secret) => span_str(" [secret]", Tone::BadgeSecret),
        None => match first_value_level_exec(&item.values) {
            Some(SensitivityLevel::Sensitive) => span_str(" [sensitive]", Tone::BadgeSensitive),
            Some(SensitivityLevel::Secret) => span_str(" [secret]", Tone::BadgeSecret),
            None => span_str(" [plaintext]", Tone::BadgePlaintext),
        },
    }
}

/// Whether some value of the item is stored as plaintext.
pub open spec fn has_plaintext_value(values: Seq<(String, String)>) -> bool {
    exists|i: int| 0 <= i < values.len() && !is_encrypted(#[trigger] values[i].1@)
}

/// Whether some declared environment of the item has no value.
pub open spec fn has_missing_value(item: ItemView) -> bool {
    exists|i: int| 0 <= i < item.environments.len() && !item.values.contains_key(#[trigger] item.environments[i])
}

/// The warnings shown after an item: undocumented (values without a
/// description), unencrypted (a sensitive or secret item with a plaintext
/// value), missing values (a declared environment without a value).
pub open spec fn warnings(item: Item) -> Seq<Seq<char>> {
    let a = if item.values@.len() > 0 && item.description is None {
        seq!["undocumented"@]
    } else {
        Seq::empty()
    };
    let b = if (item.sensitivity == Some(Sensitivity::Sensitive) || item.sensitivity == Some(Sensitivity::Secret))
        && has_plaintext_value(item.values@) {
        seq!["unencrypted"@]
    } else {
        Seq::empty()
    };
    let c = if has_missing_value(item@) {
        seq!["missing values"@]
    } else {
        Seq::empty()
    };
    a + b + c
}

/// The inline warnings of an item.
pub fn item_warnings(item: &Item) -> (r: Vec<String>)
    requires
        item.wf(),
    ensures
        views(r@) == warnings(*item),
{
    let mut out: Vec<String> = Vec::new();
    proof {
        reveal_strlit("undocumented");
        reveal_strlit("unencrypted");
        reveal_strlit("missing values");
    }
    let ghost a = if item.values@.len() > 0 && item.description is None {
        seq!["undocumented"@]
    } else {
        Seq::<Seq<char>>::empty()
    };
    if item.values.len() > 0 && item.description.is_none() {
        out.push(owned("undocumented"));
    }
    assert(views(out@) =~= a);
    let declared = match item.sensitivity {
        Some(Sensitivity::Sensitive) => true,
        Some(Sensitivity::Secret) => true,
        _ => false,
    };
    if declared {
        let mut plain = false;
        let mut i: usize = 0;
        while i < item.values.len()
            invariant
                i <= item.values@.len(),
                plain == exists|j: int| 0 <= j < i && !is_encrypted(#[trigger] item.values@[j].1@),
            decreases item.values.len() - i,
        {
            if !looks_encrypted(item.values[i].1.as_str()) {
                plain = true;
            }
            i = i + 1;
        }
        if plain {
            let ghost o0 = views(out@);
            out.push(owned("unencrypted"));
            assert(views(out@) =~= o0.push("unencrypted"@));
        }
    }
    let ghost b = if (item.sensitivity == Some(Sensitivity::Sensitive) || item.sensitivity == Some(Sensitivity::Secret))
        && has_plaintext_value(item.values@) {
        seq!["unencrypted"@]
    } else {
        Seq::<Seq<char>>::empty()
    };
    assert(views(out@) =~= a + b);
    let ghost ab = views(out@);
    let mut missing = false;
    let mut k: usize = 0;
    while k < item.environments.len()
        invariant
            item.wf(),
            k <= item.environments@.len(),
            missing == exists|j: int| 0 <= j < k && !item@.values.contains_key(#[trigger] views(item.environments@)[j]),
        decreases item.environments.len() - k,
    {
        if !item.has_value(item.environments[k].as_str()) {
            missing = true;
        }
        proof {
            assert(views(item.environments@)[k as int] == item.environments@[k as int]@);
        }
        k = k + 1;
    }
    proof {
        let envs = views(item.environments@);
        assert(item@.environments == envs);
        if missing {
            let j = choose|j: int| 0 <= j < k && !item@.values.contains_key(#[trigger] envs[j]);
            assert(!item@.values.contains_key(item@.environments[j]));
        }
        if has_missing_value(item@) {
            let j = choose|j: int| 0 <= j < item@.environments.len() && !item@.values.contains_key(#[trigger] item@.environments[j]);
            assert(!item@.values.contains_key(envs[j]));
        }
    }
    assert(missing == has_missing_value(item@));
    if missing {
        let ghost o1 = views(out@);
        out.push(owned("missing values"));
        assert(views(out@) =~= o1.push("missing values"@));
    }
    assert(views(out@) =~= warnings(*item));
    out
}

// ---------------------------------------------------------------------------
// Text inputs
// ---------------------------------------------------------------------------

/// The character under the cursor (a space at the end).
pub open spec fn cursor_text(buffer: Seq<char>, cursor: int) -> Seq<char> {
    if cursor < buffer.len() {
        seq![buffer[cursor]]
    } else {
        " "@
    }
}

/// The text after the cursor's character.
pub open spec fn after_cursor(buffer: Seq<char>, cursor: int) -> Seq<char> {
    if cursor < buffer.len() {
        buffer.skip(cursor + 1)
    } else {
        Seq::empty()
    }
}

/// A labelled text input: the label, the text before the cursor, the
/// cursor's character, the rest.
pub open spec fn input_line(label: Seq<char>, tone: Tone, buffer: Seq<char>, cursor: int) -> Seq<(Seq<char>, Tone)> {
    seq![
        (label, tone),
        (buffer.take(cursor), Tone::Plain),
        (cursor_text(buffer, cursor), Tone::Cursor),
        (after_cursor(buffer, cursor), Tone::Plain),
    ]
}

/// A labelled text input.
pub fn input_spans(label: String, tone: Tone, input: &InputState) -> (r: Vec<Span>)
    requires
        input.wf(),
    ensures
        line_view(r@) == input_line(label@, tone, input.buffer@, input.pos()),
{
    let v = crate::text::chars_of(input.buffer.as_str());
    let at = input.char_cursor();
    let before = crate::text::slice_chars(&v, 0, at);
    let (c, after) = if at < v.len() {
        let mut cv: Vec<char> = Vec::new();
        cv.push(v[at]);
        let n = v.len();
        (crate::text::string_of(&cv), crate::text::string_of(&crate::text::slice_chars(&v, at + 1, n)))
    } else {
        proof {
            reveal_strlit(" ");
        }
        (owned(" "), String::new())
    };
    let mut r: Vec<Span> = Vec::new();
    r.push(span(label, tone));
    r.push(span(crate::text::string_of(&before), Tone::Plain));
    r.push(span(c, Tone::Cursor));
    r.push(span(after, Tone::Plain));
    proof {
        assert(before@ =~= input.buffer@.take(input.pos()));
        if at < v@.len() {
            assert(v@.subrange(at + 1, v@.len() as int) =~= input.buffer@.skip(at + 1));
        }
    }
    assert(line_view(r@) =~= input_line(label@, tone, input.buffer@, input.pos()));
    r
}

// ---------------------------------------------------------------------------
// Selections
// ---------------------------------------------------------------------------

/// The sensitivity options with `chosen` marked.
pub open spec fn option_spans(chosen: int) -> Seq<(Seq<char>, Tone)> {
    Seq::new(
        3,
        |i: int|
            if i == chosen {
                ("["@ + option_name(i) + "]"@, Tone::Chosen)
            } else {
                (" "@ + option_name(i) + " "@, Tone::Muted)
            },
    )
}

fn push_options(line: &mut Vec<Span>, chosen: usize)
    ensures
        line_view(final(line)@) == line_view(old(line)@) + option_spans(chosen as int),
{
    let ghost l0 = line_view(line@);
    let mut i: usize = 0;
    while i < SENSITIVITY_COUNT
        invariant
            i <= SENSITIVITY_COUNT,
            line_view(line@) == l0 + option_spans(chosen as int).take(i as int),
        decreases SENSITIVITY_COUNT - i,
    {
        let name = sensitivity_option(i);
        let t = if i == chosen {
            let a = concat("[", name);
            concat(a.as_str(), "]")
        } else {
            let a = concat(" ", name);
            concat(a.as_str(), " ")
        };
        let tone = if i == chosen {
            Tone::Chosen
        } else {
            Tone::Muted
        };
        let ghost p = line_view(line@);
        line.push(span(t, tone));
        assert(line_view(line@) =~= p.push((t@, tone)));
        i = i + 1;
        assert(option_spans(chosen as int).take(i as int) =~= option_spans(chosen as int).take(i - 1).push(
            option_spans(chosen as int)[i - 1],
        ));
    }
    assert(option_spans(chosen as int).take(3) =~= option_spans(chosen as int));
}

// ---------------------------------------------------------------------------
// The metadata form and the wizards
// ---------------------------------------------------------------------------

/// The input of a text field of the form.
pub open spec fn field_input(fields: MetadataFields, f: MetadataField) -> InputState {
    match f {
        MetadataField::Description => fields.description,
        MetadataField::Origin => fields.origin,
        MetadataField::Tags => fields.tags,
        _ => fields.environments,
    }
}

/// The line of one field of the metadata form.
pub open spec fn form_line(fields: MetadataFields, f: MetadataField, active: MetadataField) -> Seq<(Seq<char>, Tone)> {
    let tone = if f == active {
        Tone::Prompt
    } else {
        Tone::Label
    };
    let label = field_label(f) + ": "@;
    if f == MetadataField::Sensitivity {
        seq![(label, tone)] + option_spans(fields.sensitivity as int) + if f == active {
            seq![(" ←→"@, Tone::Muted)]
        } else {
            Seq::empty()
        }
    } else if f == active {
        input_line(label, tone, field_input(fields, f).buffer@, field_input(fields, f).pos())
    } else {
        seq![(label, tone), (field_input(fields, f).buffer@, Tone::Plain)]
    }
}

/// The metadata form: one line per field, in order.
pub open spec fn form_lines(fields: MetadataFields, active: MetadataField) -> Seq<Seq<(Seq<char>, Tone)>> {
    seq![
        form_line(fields, MetadataField::Description, active),
        form_line(fields, MetadataField::Sensitivity, active),
        form_line(fields, MetadataField::Origin, active),
        form_line(fields, MetadataField::Tags, active),
        form_line(fields, MetadataField::Environments, active),
    ]
}

fn form_field_line(fields: &MetadataFields, f: MetadataField, active: MetadataField) -> (r: Vec<Span>)
    requires
        fields.wf(),
    ensures
        line_view(r@) == form_line(*fields, f, active),
{
    let tone = if f == active {
        Tone::Prompt
    } else {
        Tone::Label
    };
    let label = concat(f.label(), ": ");
    if f == MetadataField::Sensitivity {
        let mut line: Vec<Span> = Vec::new();
        line.push(span(label, tone));
        push_options(&mut line, fields.sensitivity);
        if f == active {
            let ghost p = line_view(line@);
            line.push(span_str(" ←→", Tone::Muted));
            assert(line_view(line@) =~= p + seq![(" ←→"@, Tone::Muted)]);
        } else {
            assert(line_view(line@) =~= line_view(line@) + Seq::<(Seq<char>, Tone)>::empty());
        }
        return line;
    }
    let input = match f {
        MetadataField::Description => &fields.description,
        MetadataField::Origin => &fields.origin,
        MetadataField::Tags => &fields.tags,
        _ => &fields.environments,
    };
    if f == active {
        input_spans(label, tone, input)
    } else {
        let mut line: Vec<Span> = Vec::new();
        line.push(span(label, tone));
        line.push(span(input.buffer.clone(), Tone::Plain));
        assert(line_view(line@) =~= form_line(*fields, f, active));
        line
    }
}

/// The metadata form.
pub fn metadata_form_lines(fields: &MetadataFields, active: MetadataField) -> (r: Vec<Vec<Span>>)
    requires
        fields.wf(),
    ensures
        lines_view(r@) == form_lines(*fields, active),
{
    let all = crate::tui::app::all_fields();
    let mut out: Vec<Vec<Span>> = Vec::new();
    let mut i: usize = 0;
    while i < all.len()
        invariant
            fields.wf(),
            all@ == seq![
                MetadataField::Description,
                MetadataField::Sensitivity,
                MetadataField::Origin,
                MetadataField::Tags,
                MetadataField::Environments,
            ],
            i <= 5,
            lines_view(out@) == form_lines(*fields, active).take(i as int),
        decreases all.len() - i,
    {
        let l = form_field_line(fields, all[i], active);
        let ghost o0 = lines_view(out@);
        let ghost lv = line_view(l@);
        out.push(l);
        assert(lines_view(out@) =~= o0.push(lv));
        i = i + 1;
        assert(form_lines(*fields, active).take(i as int) =~= form_lines(*fields, active).take(i - 1).push(
            form_lines(*fields, active)[i - 1],
        ));
    }
    assert(form_lines(*fields, active).take(5) =~= form_lines(*fields, active));
    out
}

/// The line of an add step: its prompt and its answer (the options for the
/// sensitivity step).
pub open spec fn add_step_line(step: AddStep) -> Seq<(Seq<char>, Tone)> {
    let label = step_label(step) + ": "@;
    match step {
        AddStep::Sensitivity(i) => seq![(label, Tone::Prompt)] + option_spans(i as int) + seq![(" ←→"@, Tone::Muted)],
        AddStep::Id(x) => input_line(label, Tone::Prompt, x.buffer@, x.pos()),
        AddStep::Env(x) => input_line(label, Tone::Prompt, x.buffer@, x.pos()),
        AddStep::Value(x) => input_line(label, Tone::Prompt, x.buffer@, x.pos()),
        AddStep::Description(x) => input_line(label, Tone::Prompt, x.buffer@, x.pos()),
        AddStep::Origin(x) => input_line(label, Tone::Prompt, x.buffer@, x.pos()),
        AddStep::Tags(x) => input_line(label, Tone::Prompt, x.buffer@, x.pos()),
    }
}

/// The line of an add step.
pub fn add_step_lines(step: &AddStep) -> (r: Vec<Vec<Span>>)
    requires
        step.wf(),
    ensures
        lines_view(r@) == seq![add_step_line(*step)],
{
    let label = concat(step.label(), ": ");
    let line = match step {
        AddStep::Sensitivity(i) => {
            let mut line: Vec<Span> = Vec::new();
            line.push(span(label, Tone::Prompt));
            push_options(&mut line, *i);
            let ghost p = line_view(line@);
            line.push(span_str(" ←→", Tone::Muted));
            assert(line_view(line@) =~= p + seq![(" ←→"@, Tone::Muted)]);
            assert(line_view(line@) =~= add_step_line(*step));
            line
        },
        AddStep::Id(x) => input_spans(label, Tone::Prompt, x),
        AddStep::Env(x) => input_spans(label, Tone::Prompt, x),
        AddStep::Value(x) => input_spans(label, Tone::Prompt, x),
        AddStep::Description(x) => input_spans(label, Tone::Prompt, x),
        AddStep::Origin(x) => input_spans(label, Tone::Prompt, x),
        AddStep::Tags(x) => input_spans(label, Tone::Prompt, x),
    };
    assert(line_view(line@) == add_step_line(*step));
    let ghost lv = line_view(line@);
    let mut out: Vec<Vec<Span>> = Vec::new();
    out.push(line);
    assert(lines_view(out@) =~= seq![lv]);
    out
}

/// The lines of the add-environment wizard.
pub open spec fn add_env_lines(item_id: Seq<char>, step: AddEnvStep) -> Seq<Seq<(Seq<char>, Tone)>> {
    let head = seq![("Adding to: "@, Tone::Label), (item_id, Tone::Plain)];
    match step {
        AddEnvStep::Env(x) => seq![head, input_line("Environment: "@, Tone::Prompt, x.buffer@, x.pos())],
        AddEnvStep::Value(x) => seq![head, input_line("Value: "@, Tone::Prompt, x.buffer@, x.pos())],
    }
}

/// The lines of the add-environment wizard.
pub fn add_env_step_lines(item_id: &str, step: &AddEnvStep) -> (r: Vec<Vec<Span>>)
    requires
        match step {
            AddEnvStep::Env(x) => x.wf(),
            AddEnvStep::Value(x) => x.wf(),
        },
    ensures
        lines_view(r@) == add_env_lines(item_id@, *step),
{
    let mut head: Vec<Span> = Vec::new();
    head.push(span_str("Adding to: ", Tone::Label));
    head.push(span_str(item_id, Tone::Plain));
    let second = match step {
        AddEnvStep::Env(x) => input_spans(owned("Environment: "), Tone::Prompt, x),
        AddEnvStep::Value(x) => input_spans(owned("Value: "), Tone::Prompt, x),
    };
    let ghost h = line_view(head@);
    let ghost s2 = line_view(second@);
    assert(h =~= seq![("Adding to: "@, Tone::Label), (item_id@, Tone::Plain)]);
    let mut out: Vec<Vec<Span>> = Vec::new();
    out.push(head);
    out.push(second);
    assert(lines_view(out@) =~= seq![h, s2]);
    out
}

// ---------------------------------------------------------------------------
// The status bar
// ---------------------------------------------------------------------------

/// Key hints: (key, what it does) pairs.
pub open spec fn hints(pairs: Seq<(Seq<char>, Seq<char>)>) -> Seq<(Seq<char>, Tone)>
    decreases pairs.len(),
{
    if pairs.len() == 0 {
        Seq::empty()
    } else {
        hints(pairs.drop_last()) + seq![(pairs.last().0, Tone::Key), (pairs.last().1, Tone::Plain)]
    }
}

/// The hints while browsing.
pub open spec fn browse_hints() -> Seq<(Seq<char>, Seq<char>)> {
    seq![
        (" q"@, " quit  "@),
        ("j/k"@, " navigate  "@),
        ("l"@, " expand  "@),
        ("h"@, " collapse  "@),
        ("r"@, " reveal  "@),
        ("e"@, " edit  "@),
        ("a"@, " add  "@),
        ("c"@, " clone  "@),
        ("d"@, " delete  "@),
        ("u"@, " undo"@),
    ]
}

/// The status bar: the status message when there is one, else what the
/// keys of the current mode do (or the delete question).
pub open spec fn status_line(app: App) -> Seq<(Seq<char>, Tone)> {
    match app.status_message {
        Some(m) => seq![(" "@ + m@, Tone::Success)],
        None => match app.mode {
            Mode::ConfirmDelete(DeleteTarget::Item(id)) => seq![
                (" Delete "@ + id@ + " and all its values? (y/n)"@, Tone::Alert),
            ],
            Mode::ConfirmDelete(DeleteTarget::EnvValue(id, env)) => seq![
                (" Remove "@ + env@ + " from "@ + id@ + "? (y/n)"@, Tone::Alert),
            ],
            Mode::EditValue { .. } => hints(seq![(" Enter"@, " save  "@), ("Esc"@, " cancel"@)]),
            Mode::EditMetadata { .. } => hints(
                seq![
                    (" Tab"@, " next field  "@),
                    ("Shift+Tab"@, " prev  "@),
                    ("Enter"@, " save  "@),
                    ("Esc"@, " cancel"@),
                ],
            ),
            Mode::Browse => hints(browse_hints()),
            _ => hints(seq![(" Enter"@, " next  "@), ("Esc"@, " cancel"@)]),
        },
    }
}

fn hint_spans(keys: &Vec<&'static str>, texts: &Vec<&'static str>) -> (r: Vec<Span>)
    requires
        keys@.len() == texts@.len(),
    ensures
        line_view(r@) == hints(Seq::new(keys@.len(), |i: int| (keys@[i]@, texts@[i]@))),
{
    let ghost pairs = Seq::new(keys@.len(), |i: int| (keys@[i]@, texts@[i]@));
    let mut out: Vec<Span> = Vec::new();
    let mut i: usize = 0;
    assert(pairs.take(0) =~= Seq::<(Seq<char>, Seq<char>)>::empty());
    while i < keys.len()
        invariant
            keys@.len() == texts@.len(),
            pairs == Seq::new(keys@.len(), |i: int| (keys@[i]@, texts@[i]@)),
            i <= keys@.len(),
            line_view(out@) == hints(pairs.take(i as int)),
        decreases keys.len() - i,
    {
        let ghost t = pairs.take(i + 1);
        assert(t.drop_last() =~= pairs.take(i as int));
        let ghost o0 = line_view(out@);
        out.push(span_str(keys[i], Tone::Key));
        out.push(span_str(texts[i], Tone::Plain));
        assert(line_view(out@) =~= o0 + seq![(keys@[i as int]@, Tone::Key), (texts@[i as int]@, Tone::Plain)]);
        i = i + 1;
    }
    assert(pairs.take(keys@.len() as int) =~= pairs);
    out
}

/// The status bar.
pub fn status_bar(app: &App) -> (r: Vec<Span>)
    ensures
        line_view(r@) == status_line(*app),
{
    match &app.status_message {
        Some(m) => {
            let mut out: Vec<Span> = Vec::new();
            out.push(span(concat(" ", m.as_str()), Tone::Success));
            assert(line_view(out@) =~= status_line(*app));
            return out;
        },
        None => {},
    }
    match &app.mode {
        Mode::ConfirmDelete(DeleteTarget::Item(id)) => {
            let a = concat(" Delete ", id.as_str());
            let mut out: Vec<Span> = Vec::new();
            out.push(span(concat(a.as_str(), " and all its values? (y/n)"), Tone::Alert));
            assert(line_view(out@) =~= status_line(*app));
            out
        },
        Mode::ConfirmDelete(DeleteTarget::EnvValue(id, env)) => {
            let a = concat(" Remove ", env.as_str());
            let b = concat(a.as_str(), " from ");
            let c = concat(b.as_str(), id.as_str());
            let mut out: Vec<Span> = Vec::new();
            out.push(span(concat(c.as_str(), "? (y/n)"), Tone::Alert));
            assert(line_view(out@) =~= status_line(*app));
            out
        },
        Mode::EditValue { .. } => {
            let keys = vec![" Enter", "Esc"];
            let texts = vec![" save  ", " cancel"];
            let r = hint_spans(&keys, &texts);
            assert(Seq::new(keys@.len(), |i: int| (keys@[i]@, texts@[i]@)) =~= seq![(" Enter"@, " save  "@), ("Esc"@, " cancel"@)]);
            r
        },
        Mode::EditMetadata { .. } => {
            let keys = vec![" Tab", "Shift+Tab", "Enter", "Esc"];
            let texts = vec![" next field  ", " prev  ", " save  ", " cancel"];
            let r = hint_spans(&keys, &texts);
            assert(Seq::new(keys@.len(), |i: int| (keys@[i]@, texts@[i]@)) =~= seq![
                (" Tab"@, " next field  "@),
                ("Shift+Tab"@, " prev  "@),
                ("Enter"@, " save  "@),
                ("Esc"@, " cancel"@),
            ]);
            r
        },
        Mode::Browse => {
            let keys = vec![" q", "j/k", "l", "h", "r", "e", "a", "c", "d", "u"];
            let texts = vec![
                " quit  ",
                " navigate  ",
                " expand  ",
                " collapse  ",
                " reveal  ",
                " edit  ",
                " add  ",
                " clone  ",
                " delete  ",
                " undo",
            ];
            let r = hint_spans(&keys, &texts);
            assert(Seq::new(keys@.len(), |i: int| (keys@[i]@, texts@[i]@)) =~= browse_hints());
            r
        },
        _ => {
            let keys = vec![" Enter", "Esc"];
            let texts = vec![" next  ", " cancel"];
            let r = hint_spans(&keys, &texts);
            assert(Seq::new(keys@.len(), |i: int| (keys@[i]@, texts@[i]@)) =~= seq![(" Enter"@, " next  "@), ("Esc"@, " cancel"@)]);
            r
        },
    }
}

// ---------------------------------------------------------------------------
// The detail panel
// ---------------------------------------------------------------------------

/// A `label: text` line of the detail panel, if there is a text.
pub open spec fn detail_field(label: Seq<char>, text: Option<Seq<char>>) -> Seq<Seq<(Seq<char>, Tone)>> {
    match text {
        Some(t) => seq![seq![(label, Tone::Label), (t, Tone::Plain)]],
        None => Seq::empty(),
    }
}

/// A `label: a, b` line of the detail panel, if the list is not empty.
pub open spec fn detail_list(label: Seq<char>, items: Seq<Seq<char>>) -> Seq<Seq<(Seq<char>, Tone)>> {
    if items.len() > 0 {
        seq![seq![(label, Tone::Label), (join(items, ", "@), Tone::Plain)]]
    } else {
        Seq::empty()
    }
}

/// The detail panel for an item: its metadata, and a hint on a header.
pub open spec fn item_detail(item: ItemView, on_header: bool) -> Seq<Seq<(Seq<char>, Tone)>> {
    let fields = detail_field("description: "@, item.description) + detail_field("origin: "@, item.origin)
        + detail_list("tags: "@, item.tags) + detail_list("environments: "@, item.environments);
    if fields.len() == 0 {
        if on_header {
            seq![seq![("No metadata — press e to edit"@, Tone::Muted)]]
        } else {
            seq![seq![("No metadata"@, Tone::Muted)]]
        }
    } else if on_header {
        fields.push(seq![("press e to edit"@, Tone::Muted)])
    } else {
        fields
    }
}

/// The detail panel: the form or wizard of the current mode, else the
/// selected item's metadata.
pub open spec fn detail(app: App) -> Seq<Seq<(Seq<char>, Tone)>> {
    match app.mode {
        Mode::EditMetadata { fields, active_field, .. } => form_lines(fields, active_field),
        Mode::Clone { item_id, source_env, input } => seq![
            seq![("Clone "@, Tone::Label), (item_id@ + " ("@ + source_env@ + ")"@, Tone::Plain)],
            input_line("To environment: "@, Tone::Prompt, input.buffer@, input.pos()),
        ],
        Mode::Add { step, .. } => seq![add_step_line(step)],
        Mode::AddEnv { item_id, step, .. } => add_env_lines(item_id@, step),
        _ => match app.selected_id() {
            Some(id) => if app.store@.items.contains_key(id) {
                item_detail(app.store@.items[id], (app.selected_row_view()->0).0 == 0)
            } else {
                seq![seq![("No item selected"@, Tone::Muted)]]
            },
            None => seq![seq![("No item selected"@, Tone::Muted)]],
        },
    }
}

fn push_line(out: &mut Vec<Vec<Span>>, line: Vec<Span>)
    ensures
        lines_view(final(out)@) == lines_view(old(out)@).push(line_view(line@)),
{
    let ghost o0 = lines_view(out@);
    let ghost l = line_view(line@);
    out.push(line);
    assert(lines_view(out@) =~= o0.push(l));
}

fn muted_line(text: &str) -> (r: Vec<Span>)
    ensures
        line_view(r@) == seq![(text@, Tone::Muted)],
{
    let mut v: Vec<Span> = Vec::new();
    v.push(span_str(text, Tone::Muted));
    assert(line_view(v@) =~= seq![(text@, Tone::Muted)]);
    v
}

fn labeled_line(label: &str, text: String) -> (r: Vec<Span>)
    ensures
        line_view(r@) == seq![(label@, Tone::Label), (text@, Tone::Plain)],
{
    let mut v: Vec<Span> = Vec::new();
    v.push(span_str(label, Tone::Label));
    v.push(span(text, Tone::Plain));
    assert(line_view(v@) =~= seq![(label@, Tone::Label), (text@, Tone::Plain)]);
    v
}

fn item_detail_lines(item: &Item, on_header: bool) -> (r: Vec<Vec<Span>>)
    ensures
        lines_view(r@) == item_detail(item@, on_header),
{
    let mut out: Vec<Vec<Span>> = Vec::new();
    assert(lines_view(out@) =~= Seq::<Seq<(Seq<char>, Tone)>>::empty());
    match &item.description {
        Some(d) => push_line(&mut out, labeled_line("description: ", d.clone())),
        None => {},
    }
    assert(lines_view(out@) =~= detail_field("description: "@, item@.description));
    let ghost l1 = lines_view(out@);
    match &item.origin {
        Some(o) => push_line(&mut out, labeled_line("origin: ", o.clone())),
        None => {},
    }
    assert(lines_view(out@) =~= l1 + detail_field("origin: "@, item@.origin));
    let ghost l2 = lines_view(out@);
    if item.tags.len() > 0 {
        push_line(&mut out, labeled_line("tags: ", join_strings(&item.tags, ", ")));
    }
    assert(lines_view(out@) =~= l2 + detail_list("tags: "@, item@.tags));
    let ghost l3 = lines_view(out@);
    if item.environments.len() > 0 {
        push_line(&mut out, labeled_line("environments: ", join_strings(&item.environments, ", ")));
    }
    assert(lines_view(out@) =~= l3 + detail_list("environments: "@, item@.environments));
    if out.len() == 0 {
        if on_header {
            push_line(&mut out, muted_line("No metadata — press e to edit"));
        } else {
            push_line(&mut out, muted_line("No metadata"));
        }
    } else if on_header {
        push_line(&mut out, muted_line("press e to edit"));
    }
    out
}

/// The detail panel.
pub fn detail_lines(app: &App) -> (r: Vec<Vec<Span>>)
    requires
        app.wf(),
    ensures
        lines_view(r@) == detail(*app),
{
    match &app.mode {
        Mode::EditMetadata { fields, active_field, .. } => {
            return metadata_form_lines(fields, *active_field);
        },
        Mode::Clone { item_id, source_env, input } => {
            let a = concat(item_id.as_str(), " (");
            let b = concat(a.as_str(), source_env.as_str());
            let mut head: Vec<Span> = Vec::new();
            head.push(span_str("Clone ", Tone::Label));
            head.push(span(concat(b.as_str(), ")"), Tone::Plain));
            let second = input_spans(owned("To environment: "), Tone::Prompt, input);
            assert(line_view(head@) =~= seq![("Clone "@, Tone::Label), (item_id@ + " ("@ + source_env@ + ")"@, Tone::Plain)]);
            let mut out: Vec<Vec<Span>> = Vec::new();
            push_line(&mut out, head);
            push_line(&mut out, second);
            assert(lines_view(out@) =~= detail(*app));
            return out;
        },
        Mode::Add { step, .. } => {
            return add_step_lines(step);
        },
        Mode::AddEnv { item_id, step, .. } => {
            return add_env_step_lines(item_id.as_str(), step);
        },
        _ => {},
    }
    let on_header = match app.selected_row() {
        Some(Row::ItemHeader(_)) => true,
        _ => false,
    };
    match app.selected_item() {
        Some(item) => item_detail_lines(item, on_header),
        None => {
            let mut out: Vec<Vec<Span>> = Vec::new();
            push_line(&mut out, muted_line("No item selected"));
            assert(lines_view(out@) =~= detail(*app));
            out
        },
    }
}

// ---------------------------------------------------------------------------
// The item list
// ---------------------------------------------------------------------------

/// The tree connector before a value row: the last row of its item ends the
/// branch.
pub open spec fn connector(rows: Seq<(int, Seq<char>, Seq<char>)>, i: int) -> Seq<char> {
    let last = i + 1 >= rows.len() || !(rows[i + 1].0 != 0 && rows[i + 1].1 == rows[i].1);
    if last {
        "  └ "@
    } else {
        "  ├ "@
    }
}

/// How a value is shown in the list: as is when plaintext; when encrypted,
/// masked unless the item is revealed, then decrypted (or a decrypt error).
pub open spec fn value_display(app: App, id: Seq<char>, env: Seq<char>) -> Seq<char> {
    let s = app.store@;
    let value = if s.items.contains_key(id) && s.items[id].values.contains_key(env) {
        s.items[id].values[env]
    } else {
        Seq::empty()
    };
    if spec_parse_sensitivity(value) is Some {
        if app.reveal_all || app.revealed@.contains(id) {
            match app_key(app.key) {
                Some(k) => match spec_decrypt(value, k) {
                    Ok(p) => p,
                    Err(_) => "(decrypt error)"@,
                },
                None => "(decrypt error)"@,
            }
        } else {
            "••••••"@
        }
    } else {
        value
    }
}

/// The line of row `i` of the list.
pub open spec fn row_line(app: App, i: int) -> Seq<(Seq<char>, Tone)> {
    let rows = crate::tui::app::row_views(app.visible_rows@);
    let (k, id, env) = rows[i];
    let tone = if i == app.selected {
        Tone::Selected
    } else {
        Tone::Plain
    };
    if k == 0 {
        let prefix = if app.expanded@.contains(id) {
            "  "@
        } else {
            "+ "@
        };
        match lookup(app.store.items@, id) {
            Some(item) => seq![(prefix, tone), (id, tone), badge(item)] + if warnings(item).len() > 0 {
                seq![(" ("@ + join(warnings(item), ", "@) + ")"@, Tone::Alert)]
            } else {
                Seq::empty()
            },
            None => seq![(prefix, tone), (id, tone)],
        }
    } else if k == 1 {
        let c = connector(rows, i);
        match app.mode {
            Mode::EditValue { item_id, env: e, input } => if item_id@ == id && e@ == env {
                input_line(c + env + ": "@, tone, input.buffer@, input.pos())
            } else {
                seq![(c + env + ": "@ + value_display(app, id, env), tone)]
            },
            _ => seq![(c + env + ": "@ + value_display(app, id, env), tone)],
        }
    } else {
        seq![(connector(rows, i) + env + ": (missing)"@, Tone::AlertDim)]
    }
}

/// The list panel for a viewport of `viewport` rows: the search line when
/// searching, then the rows from the scroll offset; a hint when empty.
pub open spec fn list_body(app: App, viewport: int) -> Seq<Seq<(Seq<char>, Tone)>> {
    let search = match app.filter {
        Some(f) => seq![input_line("/ "@, Tone::Prompt, f.buffer@, f.pos())],
        None => Seq::empty(),
    };
    let n = app.visible_rows@.len() as int;
    let end = if n < app.scroll_offset + viewport {
        n
    } else {
        app.scroll_offset + viewport
    };
    let shown = if end > app.scroll_offset {
        Seq::new((end - app.scroll_offset) as nat, |j: int| row_line(app, app.scroll_offset + j))
    } else {
        Seq::empty()
    };
    let all = search + shown;
    if all.len() == 0 {
        seq![seq![("  Store is empty. Use `urd set` to add items."@, Tone::Muted)]]
    } else {
        all
    }
}

fn connector_text(rows: &Vec<Row>, i: usize) -> (r: &'static str)
    requires
        i < rows@.len(),
    ensures
        r@ == connector(crate::tui::app::row_views(rows@), i as int),
{
    let ghost rv = crate::tui::app::row_views(rows@);
    let id = rows[i].item_id();
    let n = rows.len();
    assert(i < n);
    let last = if i + 1 >= n {
        true
    } else {
        let same = match &rows[i + 1] {
            Row::ItemHeader(_) => false,
            Row::EnvValue(nid, _) => crate::text::str_eq(nid.as_str(), id.as_str()),
            Row::MissingEnv(nid, _) => crate::text::str_eq(nid.as_str(), id.as_str()),
        };
        !same
    };
    proof {
        assert(rv[i as int] == rows@[i as int]@);
        if i + 1 < rows@.len() {
            assert(rv[i + 1] == rows@[i + 1]@);
        }
    }
    if last {
        "  └ "
    } else {
        "  ├ "
    }
}

fn display_text(app: &App, id: &str, env: &str) -> (r: String)
    requires
        app.wf(),
    ensures
        r@ == value_display(*app, id@, env@),
{
    let value: String = match app.store.get(id) {
        Some(item) => match item.value(env) {
            Some(v) => v.clone(),
            None => String::new(),
        },
        None => String::new(),
    };
    if parse_sensitivity(value.as_str()).is_some() {
        if app.is_revealed(id) {
            let key = match &app.key {
                Some(k) => Some(k),
                None => None,
            };
            match key {
                Some(k) => match decrypt_value(value.as_str(), k) {
                    Ok(p) => p,
                    Err(_) => owned("(decrypt error)"),
                },
                None => owned("(decrypt error)"),
            }
        } else {
            owned("••••••")
        }
    } else {
        value
    }
}

fn row_spans(app: &App, i: usize) -> (r: Vec<Span>)
    requires
        app.wf(),
        i < app.visible_rows@.len(),
    ensures
        line_view(r@) == row_line(*app, i as int),
{
    let ghost rv = crate::tui::app::row_views(app.visible_rows@);
    assert(rv[i as int] == app.visible_rows@[i as int]@);
    let tone = if i == app.selected {
        Tone::Selected
    } else {
        Tone::Plain
    };
    match &app.visible_rows[i] {
        Row::ItemHeader(id) => {
            let prefix = if app.expanded.contains(id.as_str()) {
                "  "
            } else {
                "+ "
            };
            let mut line: Vec<Span> = Vec::new();
            line.push(span_str(prefix, tone));
            line.push(span(id.clone(), tone));
            match crate::smap::find_index(&app.store.items, id.as_str()) {
                Some(k) => {
                    proof {
                        crate::smap::lemma_lookup_at(app.store.items@, k as int);
                    }
                    let item = &app.store.items[k].1;
                    assert(item.wf());
                    line.push(sensitivity_badge(item));
                    let ws = item_warnings(item);
                    let ghost l0 = line_view(line@);
                    if ws.len() > 0 {
                        let j = join_strings(&ws, ", ");
                        let a = concat(" (", j.as_str());
                        line.push(span(concat(a.as_str(), ")"), Tone::Alert));
                        assert(line_view(line@) =~= l0 + seq![(" ("@ + join(warnings(*item), ", "@) + ")"@, Tone::Alert)]);
                    } else {
                        assert(line_view(line@) =~= l0 + Seq::<(Seq<char>, Tone)>::empty());
                    }
                    assert(line_view(line@) =~= row_line(*app, i as int));
                },
                None => {
                    assert(line_view(line@) =~= row_line(*app, i as int));
                },
            }
            line
        },
        Row::EnvValue(id, env) => {
            let c = connector_text(&app.visible_rows, i);
            let editing = match &app.mode {
                Mode::EditValue { item_id, env: e, .. } => crate::text::str_eq(item_id.as_str(), id.as_str())
                    && crate::text::str_eq(e.as_str(), env.as_str()),
                _ => false,
            };
            let a = concat(c, env.as_str());
            let label = concat(a.as_str(), ": ");
            if editing {
                match &app.mode {
                    Mode::EditValue { input, .. } => input_spans(label, tone, input),
                    _ => {
                        proof {
                            assert(false);
                        }
                        Vec::new()
                    },
                }
            } else {
                let d = display_text(app, id.as_str(), env.as_str());
                let mut line: Vec<Span> = Vec::new();
                line.push(span(concat(label.as_str(), d.as_str()), tone));
                assert(line_view(line@) =~= row_line(*app, i as int));
                line
            }
        },
        Row::MissingEnv(_, env) => {
            let c = connector_text(&app.visible_rows, i);
            let a = concat(c, env.as_str());
            let mut line: Vec<Span> = Vec::new();
            line.push(span(concat(a.as_str(), ": (missing)"), Tone::AlertDim));
            assert(line_view(line@) =~= row_line(*app, i as int));
            line
        },
    }
}

/// The list panel's lines for a viewport of `viewport` rows.
pub fn render_list(app: &App, viewport: usize) -> (r: Vec<Vec<Span>>)
    requires
        app.wf(),
    ensures
        lines_view(r@) == list_body(*app, viewport as int),
{
    let mut out: Vec<Vec<Span>> = Vec::new();
    match &app.filter {
        Some(f) => push_line(&mut out, input_spans(owned("/ "), Tone::Prompt, f)),
        None => {},
    }
    let ghost search = lines_view(out@);
    let n = app.visible_rows.len();
    let end = if app.scroll_offset >= n || n - app.scroll_offset < viewport {
        n
    } else {
        app.scroll_offset + viewport
    };
    let ghost spec_end = if (n as int) < app.scroll_offset + viewport {
        n as int
    } else {
        app.scroll_offset + viewport
    };
    let ghost shown = if spec_end > app.scroll_offset {
        Seq::new((spec_end - app.scroll_offset) as nat, |j: int| row_line(*app, app.scroll_offset + j))
    } else {
        Seq::<Seq<(Seq<char>, Tone)>>::empty()
    };
    let ghost f = |j: int| row_line(*app, app.scroll_offset + j);
    if app.scroll_offset < end {
        let mut i: usize = app.scroll_offset;
        assert(Seq::new(0, f) =~= Seq::<Seq<(Seq<char>, Tone)>>::empty());
        assert(search + Seq::new(0, f) =~= search);
        while i < end
            invariant
                app.wf(),
                end <= app.visible_rows@.len(),
                app.scroll_offset <= i <= end,
                f == (|j: int| row_line(*app, app.scroll_offset + j)),
                lines_view(out@) == search + Seq::new((i - app.scroll_offset) as nat, f),
            decreases end - i,
        {
            let l = row_spans(app, i);
            let ghost o0 = lines_view(out@);
            let ghost k = (i - app.scroll_offset) as nat;
            push_line(&mut out, l);
            assert(Seq::new(k + 1, f) =~= Seq::new(k, f).push(f(k as int)));
            assert(search + Seq::new(k, f).push(f(k as int)) =~= (search + Seq::new(k, f)).push(f(k as int)));
            i = i + 1;
        }
        assert(spec_end == end);
        assert(lines_view(out@) =~= search + shown);
    } else {
        assert(shown =~= Seq::<Seq<(Seq<char>, Tone)>>::empty());
        assert(lines_view(out@) =~= search + shown);
    }
    if out.len() == 0 {
        push_line(&mut out, muted_line("  Store is empty. Use `urd set` to add items."));
    }
    out
}

/// The list panel for a list area of `inner_height` rows: scrolls so the
/// selection is visible, then gives the lines.
pub fn list_lines(app: &mut App, inner_height: usize) -> (r: Vec<Vec<Span>>)
    requires
        old(app).wf(),
    ensures
        final(app).wf(),
        final(app).same_data(*old(app)),
        final(app).selected == old(app).selected,
        final(app).visible_rows == old(app).visible_rows,
        final(app).mode == old(app).mode,
        ({
            let viewport = if old(app).filter is Some {
                if inner_height >= 1 {
                    inner_height - 1
                } else {
                    0
                }
            } else {
                inner_height as int
            };
            &&& viewport > 0 ==> final(app).scroll_offset <= final(app).selected < final(app).scroll_offset + viewport
            &&& lines_view(r@) == list_body(*final(app), viewport)
        }),
{
    let search: usize = if app.filter.is_some() {
        1
    } else {
        0
    };
    let viewport = if inner_height >= search {
        inner_height - search
    } else {
        0
    };
    app.adjust_scroll(viewport);
    render_list(app, viewport)
}

} // verus!
