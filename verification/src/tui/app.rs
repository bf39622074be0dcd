//! The browser's state: the store, the visible rows, selection, expansion,
//! reveal, search, the current mode, and undo/redo history.
use vstd::prelude::*;

use crate::crypto::EncryptionKey;
use crate::smap::keys_of;
use crate::commands::{optional, spec_tags, CommandError};
use crate::crypto::{decrypt_value, parse_sensitivity, spec_decrypt, spec_parse_sensitivity, SensitivityLevel};
use crate::store::{apply_default_environments, opt_view, spec_level_of, with_default_environments, Item, ItemView, Sensitivity, Store, StoreView};
use crate::text::{byte_offset, char_index, char_pos, is_boundary, lemma_char_pos, lemma_utf8_prefix_lt, utf8_len, concat, chars_of, contains_seq, lowercase, owned, slice_chars, string_of, to_lowercase, views};

verus! {

// ---------------------------------------------------------------------------
// Sets of strings
// ---------------------------------------------------------------------------

/// A set of strings, kept as a vector without repeats.
pub struct StringSet {
    pub items: Vec<String>,
}

impl View for StringSet {
    type V = Set<Seq<char>>;

    open spec fn view(&self) -> Set<Seq<char>> {
        views(self.items@).to_set()
    }
}

impl StringSet {
    /// No string occurs twice.
    pub open spec fn wf(&self) -> bool {
        views(self.items@).no_duplicates()
    }

    /// The empty set.
    pub fn new() -> (r: StringSet)
        ensures
            r.wf(),
            r@ == Set::<Seq<char>>::empty(),
    {
        let r = StringSet { items: Vec::new() };
        assert(views(r.items@) =~= Seq::<Seq<char>>::empty());
        assert(r@ =~= Set::<Seq<char>>::empty());
        r
    }

    /// The position of `s`, if present.
    fn position(&self, s: &str) -> (r: Option<usize>)
        ensures
            r matches Some(i) ==> i < self.items@.len() && self.items@[i as int]@ == s@,
            r is None ==> !self@.contains(s@),
    {
        let mut i: usize = 0;
        while i < self.items.len()
            invariant
                i <= self.items@.len(),
                forall|j: int| 0 <= j < i ==> #[trigger] self.items@[j]@ != s@,
            decreases self.items.len() - i,
        {
            if crate::text::str_eq(self.items[i].as_str(), s) {
                return Some(i);
            }
            i = i + 1;
        }
        proof {
            if self@.contains(s@) {
                let j = choose|j: int| 0 <= j < views(self.items@).len() && views(self.items@)[j] == s@;
                assert(self.items@[j]@ == s@);
            }
        }
        None
    }

    /// Whether `s` is in the set.
    pub fn contains(&self, s: &str) -> (r: bool)
        ensures
            r == self@.contains(s@),
    {
        match self.position(s) {
            Some(i) => {
                assert(views(self.items@)[i as int] == s@);
                true
            },
            None => false,
        }
    }

    /// Adds `s`; returns whether it was new.
    pub fn insert(&mut self, s: String) -> (r: bool)
        requires
            old(self).wf(),
        ensures
            final(self).wf(),
            r == !old(self)@.contains(s@),
            final(self)@ == old(self)@.insert(s@),
    {
        if self.contains(s.as_str()) {
            assert(self@.insert(s@) =~= self@);
            return false;
        }
        let ghost v0 = views(self.items@);
        let ghost sv = s@;
        self.items.push(s);
        assert(views(self.items@) =~= v0.push(sv));
        proof {
            assert forall|i: int, j: int| 0 <= i < j < views(self.items@).len() implies views(self.items@)[i]
                != views(self.items@)[j] by {
                if j == v0.len() {
                    assert(v0.contains(v0[i]));
                }
            }
            assert(views(self.items@).to_set() =~= v0.to_set().insert(sv)) by {
                assert forall|x: Seq<char>| views(self.items@).contains(x) == v0.to_set().insert(sv).contains(x) by {
                    if views(self.items@).contains(x) {
                        let k = choose|k: int| 0 <= k < views(self.items@).len() && views(self.items@)[k] == x;
                        if k < v0.len() {
                            assert(v0[k] == x);
                        }
                    }
                    if v0.contains(x) {
                        let k = choose|k: int| 0 <= k < v0.len() && v0[k] == x;
                        assert(views(self.items@)[k] == x);
                    }
                    if x == sv {
                        assert(views(self.items@)[v0.len() as int] == x);
                    }
                }
            }
        }
        true
    }

    /// Removes `s`; returns whether it was present.
    pub fn remove(&mut self, s: &str) -> (r: bool)
        requires
            old(self).wf(),
        ensures
            final(self).wf(),
            r == old(self)@.contains(s@),
            final(self)@ == old(self)@.remove(s@),
    {
        match self.position(s) {
            None => {
                assert(self@.remove(s@) =~= self@);
                false
            },
            Some(i) => {
                let ghost v0 = views(self.items@);
                assert(v0[i as int] == s@);
                self.items.remove(i);
                proof {
                    let v1 = views(self.items@);
                    assert(v1 =~= v0.remove(i as int));
                    assert forall|a: int, b: int| 0 <= a < b < v1.len() implies v1[a] != v1[b] by {
                        let a0 = if a < i { a } else { a + 1 };
                        let b0 = if b < i { b } else { b + 1 };
                        assert(v1[a] == v0[a0]);
                        assert(v1[b] == v0[b0]);
                    }
                    assert forall|x: Seq<char>| v1.contains(x) == v0.to_set().remove(s@).contains(x) by {
                        if v1.contains(x) {
                            let k = choose|k: int| 0 <= k < v1.len() && v1[k] == x;
                            let k0 = if k < i { k } else { k + 1 };
                            assert(v0[k0] == x);
                            assert(k0 != i);
                        }
                        if v0.contains(x) && x != s@ {
                            let k = choose|k: int| 0 <= k < v0.len() && v0[k] == x;
                            assert(k != i);
                            let k1 = if k < i { k } else { k - 1 };
                            assert(v1[k1] == x);
                        }
                    }
                    assert(v1.to_set() =~= v0.to_set().remove(s@));
                }
                true
            },
        }
    }

    /// Removes everything.
    pub fn clear(&mut self)
        ensures
            final(self).wf(),
            final(self)@ == Set::<Seq<char>>::empty(),
    {
        self.items = Vec::new();
        assert(views(self.items@) =~= Seq::<Seq<char>>::empty());
        assert(self@ =~= Set::<Seq<char>>::empty());
    }
}

// ---------------------------------------------------------------------------
// Rows
// ---------------------------------------------------------------------------

/// A visible row in the item list.
pub enum Row {
    /// An item header: the item ID.
    ItemHeader(String),
    /// An environment value under an item: (item ID, environment).
    EnvValue(String, String),
    /// A declared environment with no value: (item ID, environment).
    MissingEnv(String, String),
}

impl View for Row {
    /// (kind, item ID, environment): kind 0 for a header (no environment),
    /// 1 for a value, 2 for a missing value.
    type V = (int, Seq<char>, Seq<char>);

    open spec fn view(&self) -> (int, Seq<char>, Seq<char>) {
        match self {
            Row::ItemHeader(id) => (0, id@, Seq::empty()),
            Row::EnvValue(id, env) => (1, id@, env@),
            Row::MissingEnv(id, env) => (2, id@, env@),
        }
    }
}

/// The views of a list of rows.
pub open spec fn row_views(rows: Seq<Row>) -> Seq<(int, Seq<char>, Seq<char>)> {
    rows.map_values(|r: Row| r@)
}

impl Row {
    /// The item ID of the row.
    pub fn item_id(&self) -> (r: &String)
        ensures
            r@ == self@.1,
    {
        match self {
            Row::ItemHeader(id) => id,
            Row::EnvValue(id, _) => id,
            Row::MissingEnv(id, _) => id,
        }
    }
}

// ---------------------------------------------------------------------------
// Text input
// ---------------------------------------------------------------------------

/// Inline text input: a buffer and a cursor, the byte offset of a
/// character boundary of the buffer.
pub struct InputState {
    pub buffer: String,
    pub cursor: usize,
}

impl InputState {
    /// The cursor is at a character boundary of the buffer.
    pub open spec fn wf(&self) -> bool {
        is_boundary(self.buffer@, self.cursor as int)
    }

    /// The character position of the cursor.
    pub open spec fn pos(&self) -> int {
        char_pos(self.buffer@, self.cursor as int)
    }

    /// The character position of the cursor, and the facts that place it.
    pub proof fn lemma_pos(&self)
        requires
            self.wf(),
        ensures
            0 <= self.pos() <= self.buffer@.len(),
            utf8_len(self.buffer@.take(self.pos())) == self.cursor,
            self.cursor == 0 <==> self.pos() == 0,
    {
        let p = self.pos();
        assert(self.buffer@.take(0) =~= Seq::<char>::empty());
        if p > 0 {
            lemma_utf8_prefix_lt(self.buffer@, 0, p);
        }
    }

    /// An input holding `initial`, with the cursor at its end.
    pub fn new(initial: &str) -> (r: InputState)
        ensures
            r.wf(),
            r.buffer@ == initial@,
            r.pos() == initial@.len(),
    {
        let n = initial.as_bytes().len();
        proof {
            assert(initial@.take(initial@.len() as int) =~= initial@);
            lemma_char_pos(initial@, initial@.len() as int);
        }
        InputState { buffer: owned(initial), cursor: n }
    }

    /// The character position of the cursor.
    pub fn char_cursor(&self) -> (r: usize)
        requires
            self.wf(),
        ensures
            r == self.pos(),
            r <= self.buffer@.len(),
    {
        let v = chars_of(self.buffer.as_str());
        char_index(&v, self.cursor)
    }

    /// Places the cursor at character position `i`.
    fn place(&mut self, i: usize)
        requires
            i <= old(self).buffer@.len(),
        ensures
            final(self).wf(),
            final(self).buffer == old(self).buffer,
            final(self).pos() == i,
    {
        let v = chars_of(self.buffer.as_str());
        let total = self.buffer.as_str().as_bytes().len();
        assert(v@.take(v@.len() as int) =~= v@);
        self.cursor = byte_offset(&v, i, total);
        proof {
            lemma_char_pos(self.buffer@, i as int);
        }
    }

    /// Inserts `c` at the cursor and moves past it.
    pub fn insert_char(&mut self, c: char)
        requires
            old(self).wf(),
        ensures
            final(self).wf(),
            final(self).buffer@ == old(self).buffer@.take(old(self).pos()).push(c) + old(self).buffer@.skip(old(self).pos()),
            final(self).pos() == old(self).pos() + 1,
    {
        let v = chars_of(self.buffer.as_str());
        let at = self.char_cursor();
        let mut w = slice_chars(&v, 0, at);
        w.push(c);
        let rest = slice_chars(&v, at, v.len());
        let mut k: usize = 0;
        let ghost w0 = w@;
        while k < rest.len()
            invariant
                k <= rest@.len(),
                w@ == w0 + rest@.take(k as int),
            decreases rest.len() - k,
        {
            w.push(rest[k]);
            k = k + 1;
            assert(rest@.take(k as int) =~= rest@.take(k - 1).push(rest@[k - 1]));
        }
        assert(rest@.take(rest@.len() as int) =~= rest@);
        assert(v@.subrange(0, at as int) =~= v@.take(at as int));
        assert(v@.subrange(at as int, v@.len() as int) =~= v@.skip(at as int));
        let n = w.len();
        assert(at < n);
        self.buffer = string_of(&w);
        self.place(at + 1);
    }

    /// Deletes the character before the cursor, if any.
    pub fn delete_back(&mut self)
        requires
            old(self).wf(),
        ensures
            final(self).wf(),
            old(self).pos() > 0 ==> final(self).buffer@ == old(self).buffer@.take(old(self).pos() - 1)
                + old(self).buffer@.skip(old(self).pos()) && final(self).pos() == old(self).pos() - 1,
            old(self).pos() == 0 ==> final(self).buffer@ == old(self).buffer@ && final(self).pos() == 0,
    {
        let at = self.char_cursor();
        if at > 0 {
            let v = chars_of(self.buffer.as_str());
            let w = remove_char(&v, at - 1);
            self.buffer = string_of(&w);
            self.place(at - 1);
        }
    }

    /// Deletes the character at the cursor, if any.
    pub fn delete_forward(&mut self)
        requires
            old(self).wf(),
        ensures
            final(self).wf(),
            old(self).pos() < old(self).buffer@.len() ==> final(self).buffer@ == old(self).buffer@.take(
                old(self).pos(),
            ) + old(self).buffer@.skip(old(self).pos() + 1),
            old(self).pos() == old(self).buffer@.len() ==> final(self).buffer@ == old(self).buffer@,
            final(self).pos() == old(self).pos(),
    {
        let at = self.char_cursor();
        let v = chars_of(self.buffer.as_str());
        if at < v.len() {
            let w = remove_char(&v, at);
            self.buffer = string_of(&w);
            self.place(at);
        }
    }

    /// Moves the cursor one character left, if it can.
    pub fn move_left(&mut self)
        requires
            old(self).wf(),
        ensures
            final(self).wf(),
            final(self).buffer == old(self).buffer,
            final(self).pos() == (if old(self).pos() > 0 {
                old(self).pos() - 1
            } else {
                0
            }),
    {
        let at = self.char_cursor();
        if at > 0 {
            self.place(at - 1);
        }
    }

    /// Moves the cursor one character right, if it can.
    pub fn move_right(&mut self)
        requires
            old(self).wf(),
        ensures
            final(self).wf(),
            final(self).buffer == old(self).buffer,
            final(self).pos() == (if old(self).pos() < old(self).buffer@.len() {
                old(self).pos() + 1
            } else {
                old(self).pos()
            }),
    {
        let at = self.char_cursor();
        let v = chars_of(self.buffer.as_str());
        if at < v.len() {
            self.place(at + 1);
        }
    }

    /// Moves the cursor to the start.
    pub fn move_home(&mut self)
        ensures
            final(self).wf(),
            final(self).buffer == old(self).buffer,
            final(self).pos() == 0,
    {
        self.place(0);
    }

    /// Moves the cursor to the end.
    pub fn move_end(&mut self)
        ensures
            final(self).wf(),
            final(self).buffer == old(self).buffer,
            final(self).pos() == old(self).buffer@.len(),
    {
        let v = chars_of(self.buffer.as_str());
        self.place(v.len());
    }
}

/// `v` without the character at `i`.
fn remove_char(v: &Vec<char>, i: usize) -> (r: Vec<char>)
    requires
        i < v@.len(),
    ensures
        r@ == v@.take(i as int) + v@.skip(i + 1),
{
    let mut w = slice_chars(v, 0, i);
    let n = v.len();
    let rest = slice_chars(v, i + 1, n);
    let ghost w0 = w@;
    let mut k: usize = 0;
    while k < rest.len()
        invariant
            k <= rest@.len(),
            w@ == w0 + rest@.take(k as int),
        decreases rest.len() - k,
    {
        w.push(rest[k]);
        k = k + 1;
        assert(rest@.take(k as int) =~= rest@.take(k - 1).push(rest@[k - 1]));
    }
    assert(rest@.take(rest@.len() as int) =~= rest@);
    assert(v@.subrange(0, i as int) =~= v@.take(i as int));
    assert(v@.subrange(i + 1, v@.len() as int) =~= v@.skip(i + 1));
    w
}

/// Inserting a character and deleting it again gives back the input.
pub proof fn law_insert_then_delete_back(before: Seq<char>, cursor: int, c: char, inserted: Seq<char>, after: Seq<char>)
    requires
        0 <= cursor <= before.len(),
        inserted == before.take(cursor).push(c) + before.skip(cursor),
        after == inserted.take(cursor + 1 - 1) + inserted.skip(cursor + 1),
    ensures
        after == before,
{
    assert(after =~= before);
}

// ---------------------------------------------------------------------------
// Modes
// ---------------------------------------------------------------------------

/// Which metadata field is focused.
#[derive(Debug, Clone, Copy, PartialEq, Eq, Structural)]
pub enum MetadataField {
    Description,
    Sensitivity,
    Origin,
    Tags,
    Environments,
}

/// The field after `f` (cycling).
pub open spec fn field_after(f: MetadataField) -> MetadataField {
    match f {
        MetadataField::Description => MetadataField::Sensitivity,
        MetadataField::Sensitivity => MetadataField::Origin,
        MetadataField::Origin => MetadataField::Tags,
        MetadataField::Tags => MetadataField::Environments,
        MetadataField::Environments => MetadataField::Description,
    }
}

/// The field before `f` (cycling).
pub open spec fn field_before(f: MetadataField) -> MetadataField {
    match f {
        MetadataField::Description => MetadataField::Environments,
        MetadataField::Sensitivity => MetadataField::Description,
        MetadataField::Origin => MetadataField::Sensitivity,
        MetadataField::Tags => MetadataField::Origin,
        MetadataField::Environments => MetadataField::Tags,
    }
}

impl MetadataField {
    /// The next field (Tab), cycling.
    pub fn next(self) -> (r: MetadataField)
        ensures
            r == field_after(self),
    {
        match self {
            MetadataField::Description => MetadataField::Sensitivity,
            MetadataField::Sensitivity => MetadataField::Origin,
            MetadataField::Origin => MetadataField::Tags,
            MetadataField::Tags => MetadataField::Environments,
            MetadataField::Environments => MetadataField::Description,
        }
    }

    /// The previous field (Shift+Tab), cycling.
    pub fn prev(self) -> (r: MetadataField)
        ensures
            r == field_before(self),
    {
        match self {
            MetadataField::Description => MetadataField::Environments,
            MetadataField::Sensitivity => MetadataField::Description,
            MetadataField::Origin => MetadataField::Sensitivity,
            MetadataField::Tags => MetadataField::Origin,
            MetadataField::Environments => MetadataField::Tags,
        }
    }

    /// The field's label.
    pub fn label(self) -> (r: &'static str)
        ensures
            r@ == field_label(self),
    {
        match self {
            MetadataField::Description => "description",
            MetadataField::Sensitivity => "sensitivity",
            MetadataField::Origin => "origin",
            MetadataField::Tags => "tags",
            MetadataField::Environments => "environments",
        }
    }
}

/// The label of a field.
pub open spec fn field_label(f: MetadataField) -> Seq<char> {
    match f {
        MetadataField::Description => "description"@,
        MetadataField::Sensitivity => "sensitivity"@,
        MetadataField::Origin => "origin"@,
        MetadataField::Tags => "tags"@,
        MetadataField::Environments => "environments"@,
    }
}

/// The fields in form order.
pub fn all_fields() -> (r: Vec<MetadataField>)
    ensures
        r@ == seq![
            MetadataField::Description,
            MetadataField::Sensitivity,
            MetadataField::Origin,
            MetadataField::Tags,
            MetadataField::Environments,
        ],
{
    let r = vec![
        MetadataField::Description,
        MetadataField::Sensitivity,
        MetadataField::Origin,
        MetadataField::Tags,
        MetadataField::Environments,
    ];
    assert(r@ =~= seq![
        MetadataField::Description,
        MetadataField::Sensitivity,
        MetadataField::Origin,
        MetadataField::Tags,
        MetadataField::Environments,
    ]);
    r
}

/// Moving to the next field and back (or back and forth) returns to the same
/// field, and five moves forward come back around.
pub proof fn law_field_cycle(f: MetadataField)
    ensures
        field_before(field_after(f)) == f,
        field_after(field_before(f)) == f,
        field_after(field_after(field_after(field_after(field_after(f))))) == f,
{
}

/// Editable metadata fields.
pub struct MetadataFields {
    pub description: InputState,
    /// Index into the sensitivity options.
    pub sensitivity: usize,
    pub origin: InputState,
    pub tags: InputState,
    pub environments: InputState,
}

impl MetadataFields {
    pub open spec fn wf(&self) -> bool {
        self.description.wf() && self.origin.wf() && self.tags.wf() && self.environments.wf()
            && self.sensitivity < 3
    }
}

/// The number of sensitivity options.
pub const SENSITIVITY_COUNT: usize = 3;

/// The name of sensitivity option `i`.
pub open spec fn option_name(i: int) -> Seq<char> {
    if i == 0 {
        "plaintext"@
    } else if i == 1 {
        "sensitive"@
    } else {
        "secret"@
    }
}

/// The name of sensitivity option `i` (plaintext, sensitive, secret).
pub fn sensitivity_option(i: usize) -> (r: &'static str)
    requires
        i < SENSITIVITY_COUNT,
    ensures
        r@ == option_name(i as int),
{
    if i == 0 {
        "plaintext"
    } else if i == 1 {
        "sensitive"
    } else {
        "secret"
    }
}

/// The steps of the add-item wizard.
pub enum AddStep {
    Id(InputState),
    Env(InputState),
    Sensitivity(usize),
    Value(InputState),
    Description(InputState),
    Origin(InputState),
    Tags(InputState),
}

/// The prompt of an add step.
pub open spec fn step_label(s: AddStep) -> Seq<char> {
    match s {
        AddStep::Id(_) => "Item ID"@,
        AddStep::Env(_) => "Environment"@,
        AddStep::Sensitivity(_) => "Sensitivity"@,
        AddStep::Value(_) => "Value"@,
        AddStep::Description(_) => "Description (optional, Enter to skip)"@,
        AddStep::Origin(_) => "Origin (optional, Enter to skip)"@,
        AddStep::Tags(_) => "Tags (optional, comma-separated, Enter to skip)"@,
    }
}

impl AddStep {
    /// The step's prompt.
    pub fn label(&self) -> (r: &'static str)
        ensures
            r@ == step_label(*self),
    {
        match self {
            AddStep::Id(_) => "Item ID",
            AddStep::Env(_) => "Environment",
            AddStep::Sensitivity(_) => "Sensitivity",
            AddStep::Value(_) => "Value",
            AddStep::Description(_) => "Description (optional, Enter to skip)",
            AddStep::Origin(_) => "Origin (optional, Enter to skip)",
            AddStep::Tags(_) => "Tags (optional, comma-separated, Enter to skip)",
        }
    }

    pub open spec fn wf(&self) -> bool {
        match self {
            AddStep::Sensitivity(i) => *i < 3,
            AddStep::Id(x) => x.wf(),
            AddStep::Env(x) => x.wf(),
            AddStep::Value(x) => x.wf(),
            AddStep::Description(x) => x.wf(),
            AddStep::Origin(x) => x.wf(),
            AddStep::Tags(x) => x.wf(),
        }
    }
}

/// The steps of adding an environment to an item.
pub enum AddEnvStep {
    Env(InputState),
    Value(InputState),
}

/// What a delete confirmation targets.
pub enum DeleteTarget {
    /// An item and all its values.
    Item(String),
    /// One environment's value: (item ID, environment).
    EnvValue(String, String),
}

/// The current interaction mode.
pub enum Mode {
    Browse,
    /// Confirming a deletion.
    ConfirmDelete(DeleteTarget),
    /// Editing an environment value inline.
    EditValue { item_id: String, env: String, input: InputState },
    /// Editing an item's catalog metadata.
    EditMetadata { item_id: String, fields: MetadataFields, active_field: MetadataField },
    /// Adding a new item (a wizard); the values of earlier steps.
    Add {
        step: AddStep,
        id: String,
        env: String,
        sensitivity: usize,
        value: String,
        description: String,
        origin: String,
    },
    /// Cloning a value to another environment.
    Clone { item_id: String, source_env: String, input: InputState },
    /// Adding an environment value to an existing item.
    AddEnv { item_id: String, step: AddEnvStep, env: String },
    /// Cloning a whole item to a new ID.
    CloneItem { source_id: String, input: InputState },
}

/// The inputs of a mode are well formed.
pub open spec fn mode_wf(m: Mode) -> bool {
    match m {
        Mode::EditValue { input, .. } => input.wf(),
        Mode::EditMetadata { fields, .. } => fields.wf(),
        Mode::Add { step, sensitivity, .. } => step.wf() && sensitivity < 3,
        Mode::Clone { input, .. } => input.wf(),
        Mode::AddEnv { step, .. } => match step {
            AddEnvStep::Env(x) => x.wf(),
            AddEnvStep::Value(x) => x.wf(),
        },
        Mode::CloneItem { input, .. } => input.wf(),
        _ => true,
    }
}

// ---------------------------------------------------------------------------
// The browser state
// ---------------------------------------------------------------------------

/// How many store snapshots undo and redo keep.
pub const UNDO_STACK_LIMIT: usize = 50;

/// The browser's state.
pub struct App {
    pub store: Store,
    pub mode: Mode,
    /// Active search filter (None = no filter).
    pub filter: Option<InputState>,
    /// Which item IDs are expanded (showing their env values).
    pub expanded: StringSet,
    /// Which item IDs have their values revealed.
    pub revealed: StringSet,
    /// Whether all items are revealed.
    pub reveal_all: bool,
    /// The selected index into `visible_rows`.
    pub selected: usize,
    /// Scroll offset of the list panel.
    pub scroll_offset: usize,
    /// The rows the list shows.
    pub visible_rows: Vec<Row>,
    /// Earlier store states, most recent last.
    pub undo_stack: Vec<Store>,
    /// Undone states that can be restored, most recent last.
    pub redo_stack: Vec<Store>,
    /// Message shown after an action.
    pub status_message: Option<String>,
    pub should_quit: bool,
    /// The encryption key, when one is configured.
    pub key: Option<EncryptionKey>,
    /// The store changed and has not been saved since.
    pub needs_save: bool,
}

/// Whether the list shows item `id` under `filter` (compared in lowercase).
pub open spec fn shown(id: Seq<char>, filter: Option<Seq<char>>) -> bool {
    match filter {
        None => true,
        Some(f) => lowercase(f).len() == 0 || contains_seq(lowercase(id), lowercase(f)),
    }
}

/// Rows for the declared environments that have no value.
pub open spec fn missing_rows(id: Seq<char>, envs: Seq<Seq<char>>, values: Map<Seq<char>, Seq<char>>) -> Seq<(int, Seq<char>, Seq<char>)>
    decreases envs.len(),
{
    if envs.len() == 0 {
        Seq::empty()
    } else {
        let rest = missing_rows(id, envs.drop_last(), values);
        if values.contains_key(envs.last()) {
            rest
        } else {
            rest.push((2int, id, envs.last()))
        }
    }
}

/// The rows of one item: its header, and when expanded its values (in
/// environment order) and its missing environments.
pub open spec fn item_rows(id: Seq<char>, item: Item, expanded: Set<Seq<char>>) -> Seq<(int, Seq<char>, Seq<char>)> {
    seq![(0int, id, Seq::<char>::empty())] + if expanded.contains(id) {
        keys_of(item.values@).map_values(|e: Seq<char>| (1int, id, e)) + missing_rows(
            id,
            views(item.environments@),
            item@.values,
        )
    } else {
        Seq::empty()
    }
}

/// The rows of the list for these items.
pub open spec fn spec_rows(items: Seq<(String, Item)>, expanded: Set<Seq<char>>, filter: Option<Seq<char>>) -> Seq<(int, Seq<char>, Seq<char>)>
    decreases items.len(),
{
    if items.len() == 0 {
        Seq::empty()
    } else {
        let rest = spec_rows(items.drop_last(), expanded, filter);
        let (id, item) = items.last();
        if shown(id@, filter) {
            rest + item_rows(id@, item, expanded)
        } else {
            rest
        }
    }
}

/// The text of the search filter, if searching.
pub open spec fn filter_view(f: Option<InputState>) -> Option<Seq<char>> {
    match f {
        Some(i) => Some(i.buffer@),
        None => None,
    }
}

/// The selection kept within `n` rows.
pub open spec fn clamped(selected: int, n: int) -> int {
    if n == 0 {
        0
    } else if selected >= n {
        n - 1
    } else {
        selected
    }
}

impl App {
    /// The state's invariant: a well-formed store and history, history of at
    /// most `UNDO_STACK_LIMIT` states each way, a selection inside the rows.
    pub open spec fn wf(&self) -> bool {
        &&& self.store.wf()
        &&& self.undo_stack@.len() <= UNDO_STACK_LIMIT
        &&& self.redo_stack@.len() <= UNDO_STACK_LIMIT
        &&& forall|i: int| 0 <= i < self.undo_stack@.len() ==> (#[trigger] self.undo_stack@[i]).wf()
        &&& forall|i: int| 0 <= i < self.redo_stack@.len() ==> (#[trigger] self.redo_stack@[i]).wf()
        &&& self.expanded.wf()
        &&& self.revealed.wf()
        &&& (self.visible_rows@.len() == 0 ==> self.selected == 0)
        &&& (self.visible_rows@.len() > 0 ==> self.selected < self.visible_rows@.len())
        &&& (self.filter matches Some(f) ==> f.wf())
        &&& mode_wf(self.mode)
        &&& (self.key matches Some(k) ==> k.wf())
    }

    /// The rows the list should show for the current store, expansion and
    /// filter.
    pub open spec fn rows_spec(&self) -> Seq<(int, Seq<char>, Seq<char>)> {
        spec_rows(self.store.items@, self.expanded@, filter_view(self.filter))
    }

    /// A browser on `store`, with everything collapsed and nothing revealed.
    pub fn new(store: Store, key: Option<EncryptionKey>) -> (r: App)
        requires
            store.wf(),
            key matches Some(k) ==> k.wf(),
        ensures
            r.wf(),
            r.store == store,
            r.key == key,
            r.mode is Browse,
            r.filter is None,
            r.expanded@ == Set::<Seq<char>>::empty(),
            r.revealed@ == Set::<Seq<char>>::empty(),
            !r.reveal_all,
            r.selected == 0,
            r.scroll_offset == 0,
            row_views(r.visible_rows@) == r.rows_spec(),
            r.undo_stack@.len() == 0,
            r.redo_stack@.len() == 0,
            r.status_message is None,
            !r.should_quit,
            !r.needs_save,
    {
        let mut app = App {
            store,
            mode: Mode::Browse,
            filter: None,
            expanded: StringSet::new(),
            revealed: StringSet::new(),
            reveal_all: false,
            selected: 0,
            scroll_offset: 0,
            visible_rows: Vec::new(),
            undo_stack: Vec::new(),
            redo_stack: Vec::new(),
            status_message: None,
            should_quit: false,
            key,
            needs_save: false,
        };
        app.rebuild_rows();
        app
    }

    /// Rebuilds the rows from the store, expansion and filter, keeping the
    /// selection inside them.
    pub fn rebuild_rows(&mut self)
        requires
            old(self).store.wf(),
            old(self).filter matches Some(f) ==> f.wf(),
        ensures
            row_views(final(self).visible_rows@) == old(self).rows_spec(),
            final(self).selected == clamped(old(self).selected as int, final(self).visible_rows@.len() as int),
            final(self).store == old(self).store,
            final(self).mode == old(self).mode,
            final(self).filter == old(self).filter,
            final(self).expanded == old(self).expanded,
            final(self).revealed == old(self).revealed,
            final(self).reveal_all == old(self).reveal_all,
            final(self).scroll_offset == old(self).scroll_offset,
            final(self).undo_stack == old(self).undo_stack,
            final(self).redo_stack == old(self).redo_stack,
            final(self).status_message == old(self).status_message,
            final(self).should_quit == old(self).should_quit,
            final(self).key == old(self).key,
            final(self).needs_save == old(self).needs_save,
    {
        let rows = build_rows(&self.store, &self.expanded, &self.filter);
        self.visible_rows = rows;
        if self.visible_rows.len() == 0 {
            self.selected = 0;
        } else if self.selected >= self.visible_rows.len() {
            self.selected = self.visible_rows.len() - 1;
        }
    }
}

/// Whether the list shows item `id` under the lowercased filter `lf`.
fn passes_filter(id: &str, lf: &Option<Vec<char>>) -> (r: bool)
    ensures
        lf matches Some(f) ==> r == (f@.len() == 0 || contains_seq(lowercase(id@), f@)),
        lf is None ==> r,
{
    match lf {
        None => true,
        Some(f) => {
            if f.len() == 0 {
                true
            } else {
                let l = to_lowercase(id);
                let lv = chars_of(l.as_str());
                crate::text::contains_chars(&lv, f)
            }
        },
    }
}

/// The rows of one item.
fn push_item_rows(rows: &mut Vec<Row>, id: &String, item: &Item, expanded: &StringSet)
    requires
        item.wf(),
    ensures
        row_views(final(rows)@) == row_views(old(rows)@) + item_rows(id@, *item, expanded@),
{
    let ghost r0 = row_views(rows@);
    rows.push(Row::ItemHeader(id.clone()));
    assert(row_views(rows@) =~= r0 + seq![(0, id@, Seq::<char>::empty())]);
    if expanded.contains(id.as_str()) {
        let ghost r1 = row_views(rows@);
        let ghost ks = keys_of(item.values@).map_values(|e: Seq<char>| (1int, id@, e));
        let mut i: usize = 0;
        while i < item.values.len()
            invariant
                i <= item.values@.len(),
                ks == keys_of(item.values@).map_values(|e: Seq<char>| (1int, id@, e)),
                row_views(rows@) == r1 + ks.take(i as int),
            decreases item.values.len() - i,
        {
            let ghost p = row_views(rows@);
            let row = Row::EnvValue(id.clone(), item.values[i].0.clone());
            rows.push(row);
            assert(row_views(rows@) =~= p.push((1, id@, item.values@[i as int].0@)));
            i = i + 1;
            assert(ks.take(i as int) =~= ks.take(i - 1).push(ks[i - 1]));
        }
        assert(ks.take(ks.len() as int) =~= ks);
        let ghost r2 = row_views(rows@);
        let ghost envs = views(item.environments@);
        let mut j: usize = 0;
        assert(envs.take(0) =~= Seq::<Seq<char>>::empty());
        assert(r2 =~= r2 + missing_rows(id@, envs.take(0), item@.values));
        while j < item.environments.len()
            invariant
                item.wf(),
                j <= item.environments@.len(),
                envs == views(item.environments@),
                row_views(rows@) == r2 + missing_rows(id@, envs.take(j as int), item@.values),
            decreases item.environments.len() - j,
        {
            let ghost t = envs.take(j + 1);
            assert(t.drop_last() =~= envs.take(j as int));
            assert(t.last() == item.environments@[j as int]@);
            let env = &item.environments[j];
            if !item.has_value(env.as_str()) {
                let ghost p = row_views(rows@);
                rows.push(Row::MissingEnv(id.clone(), env.clone()));
                assert(row_views(rows@) =~= p.push((2, id@, env@)));
            }
            j = j + 1;
        }
        assert(envs.take(envs.len() as int) =~= envs);
        assert(row_views(rows@) =~= r0 + item_rows(id@, *item, expanded@));
    } else {
        assert(row_views(rows@) =~= r0 + item_rows(id@, *item, expanded@));
    }
}

/// The rows of the list.
fn build_rows(store: &Store, expanded: &StringSet, filter: &Option<InputState>) -> (r: Vec<Row>)
    requires
        store.wf(),
    ensures
        row_views(r@) == spec_rows(store.items@, expanded@, filter_view(*filter)),
{
    let lf: Option<Vec<char>> = match filter {
        Some(f) => {
            let l = to_lowercase(f.buffer.as_str());
            Some(chars_of(l.as_str()))
        },
        None => None,
    };
    let ghost items = store.items@;
    let mut rows: Vec<Row> = Vec::new();
    let mut i: usize = 0;
    assert(items.take(0) =~= Seq::<(String, Item)>::empty());
    assert(row_views(rows@) =~= Seq::<(int, Seq<char>, Seq<char>)>::empty());
    while i < store.items.len()
        invariant
            store.wf(),
            items == store.items@,
            i <= items.len(),
            lf matches Some(f) ==> filter_view(*filter) matches Some(fv) && f@ == lowercase(fv),
            lf is None ==> filter_view(*filter) is None,
            row_views(rows@) == spec_rows(items.take(i as int), expanded@, filter_view(*filter)),
        decreases store.items.len() - i,
    {
        let ghost t = items.take(i + 1);
        assert(t.drop_last() =~= items.take(i as int));
        assert(t.last() == items[i as int]);
        let (id, item) = &store.items[i];
        assert(items[i as int].1.wf());
        if passes_filter(id.as_str(), &lf) {
            push_item_rows(&mut rows, id, item, expanded);
        }
        i = i + 1;
    }
    assert(items.take(items.len() as int) =~= items);
    rows
}

// ---------------------------------------------------------------------------
// Selection, expansion, reveal, search, scrolling
// ---------------------------------------------------------------------------

/// The position of the first header row of item `id`.
pub open spec fn header_pos(rows: Seq<(int, Seq<char>, Seq<char>)>, id: Seq<char>) -> Option<int>
    decreases rows.len(),
{
    if rows.len() == 0 {
        None
    } else {
        match header_pos(rows.drop_last(), id) {
            Some(i) => Some(i),
            None => if rows.last() == (0int, id, Seq::<char>::empty()) {
                Some(rows.len() - 1)
            } else {
                None
            },
        }
    }
}

/// A header row among the rows is found.
proof fn lemma_header_pos_some(rows: Seq<(int, Seq<char>, Seq<char>)>, id: Seq<char>, i: int)
    requires
        0 <= i < rows.len(),
        rows[i] == (0int, id, Seq::<char>::empty()),
    ensures
        header_pos(rows, id) is Some,
    decreases rows.len(),
{
    if i < rows.len() - 1 {
        lemma_header_pos_some(rows.drop_last(), id, i);
    }
}

/// Every item the filter shows has its header among the rows.
proof fn lemma_rows_have_header(items: Seq<(String, Item)>, expanded: Set<Seq<char>>, filter: Option<Seq<char>>, id: Seq<char>)
    requires
        crate::smap::has_key(items, id),
        shown(id, filter),
    ensures
        exists|i: int| 0 <= i < spec_rows(items, expanded, filter).len() && spec_rows(items, expanded, filter)[i] == (
            0int,
            id,
            Seq::<char>::empty(),
        ),
    decreases items.len(),
{
    let rest = spec_rows(items.drop_last(), expanded, filter);
    let (k, item) = items.last();
    if k@ == id {
        let all = spec_rows(items, expanded, filter);
        assert(all == rest + item_rows(id, item, expanded));
        assert(all[rest.len() as int] == (0int, id, Seq::<char>::empty()));
    } else {
        let j = choose|j: int| 0 <= j < items.len() && #[trigger] items[j].0@ == id;
        assert(items.drop_last()[j].0@ == id);
        lemma_rows_have_header(items.drop_last(), expanded, filter, id);
        let i = choose|i: int| 0 <= i < rest.len() && rest[i] == (0int, id, Seq::<char>::empty());
        let all = spec_rows(items, expanded, filter);
        if shown(k@, filter) {
            assert(all[i] == rest[i]);
        }
    }
}

impl App {
    /// The store, history, key and flags are as in `o`.
    pub open spec fn same_data(&self, o: App) -> bool {
        &&& self.store == o.store
        &&& self.undo_stack == o.undo_stack
        &&& self.redo_stack == o.redo_stack
        &&& self.key == o.key
        &&& self.needs_save == o.needs_save
        &&& self.should_quit == o.should_quit
    }

    /// The item ID of the selected row, if there is one.
    pub open spec fn selected_id(&self) -> Option<Seq<char>> {
        if self.selected < self.visible_rows@.len() {
            Some(self.visible_rows@[self.selected as int]@.1)
        } else {
            None
        }
    }

    /// The selected row.
    pub fn selected_row(&self) -> (r: Option<&Row>)
        ensures
            r matches Some(row) ==> self.selected < self.visible_rows@.len() && *row
                == self.visible_rows@[self.selected as int],
            r is None ==> self.selected >= self.visible_rows@.len(),
    {
        if self.selected < self.visible_rows.len() {
            Some(&self.visible_rows[self.selected])
        } else {
            None
        }
    }

    /// The item ID of the selected row.
    pub fn selected_item_id(&self) -> (r: Option<String>)
        ensures
            opt_view(r) == self.selected_id(),
    {
        match self.selected_row() {
            Some(row) => Some(row.item_id().clone()),
            None => None,
        }
    }

    /// The item of the selected row.
    pub fn selected_item(&self) -> (r: Option<&Item>)
        requires
            self.store.wf(),
        ensures
            r matches Some(it) ==> self.selected_id() matches Some(id) && self.store@.items.contains_key(id)
                && self.store@.items[id] == it@ && it.wf(),
            r is None ==> self.selected_id() is None || !self.store@.items.contains_key(self.selected_id()->0),
    {
        match self.selected_row() {
            Some(row) => self.store.get(row.item_id().as_str()),
            None => None,
        }
    }

    /// Selects the next row, if there is one.
    pub fn move_down(&mut self)
        requires
            old(self).wf(),
        ensures
            final(self).wf(),
            final(self).selected == (if old(self).visible_rows@.len() > 0 && old(self).selected + 1 < old(self).visible_rows@.len() {
                old(self).selected + 1
            } else {
                old(self).selected as int
            }),
            final(self).same_data(*old(self)),
            final(self).visible_rows == old(self).visible_rows,
            final(self).mode == old(self).mode,
    {
        if self.visible_rows.len() > 0 && self.selected < self.visible_rows.len() - 1 {
            self.selected = self.selected + 1;
        }
    }

    /// Selects the previous row, if there is one.
    pub fn move_up(&mut self)
        requires
            old(self).wf(),
        ensures
            final(self).wf(),
            final(self).selected == (if old(self).selected > 0 {
                old(self).selected - 1
            } else {
                0
            }),
            final(self).same_data(*old(self)),
            final(self).visible_rows == old(self).visible_rows,
            final(self).mode == old(self).mode,
    {
        if self.selected > 0 {
            self.selected = self.selected - 1;
        }
    }

    /// Expands the selected item.
    pub fn expand_selected(&mut self)
        requires
            old(self).wf(),
        ensures
            final(self).wf(),
            final(self).same_data(*old(self)),
            old(self).selected_id() matches Some(id) ==> final(self).expanded@ == old(self).expanded@.insert(
                id,
            ),
            old(self).selected_id() is None ==> final(self).expanded == old(self).expanded,
            (old(self).selected_id() is Some && !old(self).expanded@.contains(old(self).selected_id()->0)) ==> row_views(
                final(self).visible_rows@,
            ) == final(self).rows_spec() && final(self).selected == clamped(
                old(self).selected as int,
                final(self).visible_rows@.len() as int,
            ),
            !(old(self).selected_id() is Some && !old(self).expanded@.contains(old(self).selected_id()->0)) ==> final(self).visible_rows == old(self).visible_rows && final(self).selected == old(self).selected,
            final(self).mode == old(self).mode,
            final(self).filter == old(self).filter,
            final(self).revealed == old(self).revealed,
    {
        match self.selected_item_id() {
            Some(id) => {
                if self.expanded.insert(id) {
                    self.rebuild_rows();
                }
            },
            None => {},
        }
    }

    /// Collapses the selected item and selects its header.
    pub fn collapse_selected(&mut self)
        requires
            old(self).wf(),
        ensures
            final(self).wf(),
            final(self).same_data(*old(self)),
            old(self).selected_id() matches Some(id) ==> final(self).expanded@ == old(self).expanded@.remove(
                id,
            ),
            old(self).selected_id() is None ==> final(self).expanded == old(self).expanded,
            (old(self).selected_id() is Some && old(self).expanded@.contains(old(self).selected_id()->0)) ==> row_views(
                final(self).visible_rows@,
            ) == final(self).rows_spec() && final(self).selected == (match header_pos(
                row_views(final(self).visible_rows@),
                old(self).selected_id()->0,
            ) {
                Some(p) => p,
                None => clamped(old(self).selected as int, final(self).visible_rows@.len() as int),
            }),
            !(old(self).selected_id() is Some && old(self).expanded@.contains(old(self).selected_id()->0)) ==> final(self).visible_rows == old(self).visible_rows && final(self).selected == old(self).selected,
            old(self).selected_id() matches Some(id) ==> (old(self).expanded@.contains(id) && crate::smap::has_key(
                old(self).store.items@,
                id,
            ) && shown(id, filter_view(old(self).filter)) ==> header_pos(row_views(final(self).visible_rows@), id)
                is Some),
            final(self).mode == old(self).mode,
            final(self).filter == old(self).filter,
            final(self).revealed == old(self).revealed,
    {
        match self.selected_item_id() {
            Some(id) => {
                if self.expanded.remove(id.as_str()) {
                    self.rebuild_rows();
                    proof {
                        if crate::smap::has_key(self.store.items@, id@) && shown(id@, filter_view(self.filter)) {
                            lemma_rows_have_header(self.store.items@, self.expanded@, filter_view(self.filter), id@);
                            let i = choose|i: int|
                                0 <= i < self.rows_spec().len() && self.rows_spec()[i] == (
                                    0int,
                                    id@,
                                    Seq::<char>::empty(),
                                );
                            lemma_header_pos_some(row_views(self.visible_rows@), id@, i);
                        }
                    }
                    match find_header(&self.visible_rows, id.as_str()) {
                        Some(p) => {
                            self.selected = p;
                        },
                        None => {},
                    }
                }
            },
            None => {},
        }
    }

    /// Expands every item.
    pub fn expand_all(&mut self)
        requires
            old(self).wf(),
        ensures
            final(self).wf(),
            final(self).same_data(*old(self)),
            final(self).expanded@ == old(self).expanded@.union(crate::smap::view_map(old(self).store.items@).dom()),
            row_views(final(self).visible_rows@) == final(self).rows_spec(),
            final(self).selected == clamped(old(self).selected as int, final(self).visible_rows@.len() as int),
            final(self).mode == old(self).mode,
            final(self).filter == old(self).filter,
            final(self).revealed == old(self).revealed,
    {
        let ghost e0 = self.expanded@;
        let ghost dom = crate::smap::view_map(self.store.items@).dom();
        let mut i: usize = 0;
        while i < self.store.items.len()
            invariant
                self.wf(),
                i <= self.store.items@.len(),
                dom == crate::smap::view_map(self.store.items@).dom(),
                self.expanded@ == e0.union(Set::new(|k: Seq<char>| exists|j: int| 0 <= j < i && #[trigger] self.store.items@[j].0@ == k)),
                self.same_data(*old(self)),
                self.visible_rows == old(self).visible_rows,
                self.selected == old(self).selected,
                self.mode == old(self).mode,
                self.filter == old(self).filter,
                self.revealed == old(self).revealed,
            decreases self.store.items.len() - i,
        {
            let id = self.store.items[i].0.clone();
            let ghost before = self.expanded@;
            self.expanded.insert(id);
            proof {
                assert(self.expanded@ =~= e0.union(Set::new(|k: Seq<char>| exists|j: int| 0 <= j < i + 1 && #[trigger] self.store.items@[j].0@ == k))) by {
                    assert forall|k: Seq<char>| self.expanded@.contains(k) == e0.union(Set::new(|k: Seq<char>| exists|j: int| 0 <= j < i + 1 && #[trigger] self.store.items@[j].0@ == k)).contains(k) by {
                        if k == self.store.items@[i as int].0@ {
                        } else if exists|j: int| 0 <= j < i + 1 && #[trigger] self.store.items@[j].0@ == k {
                            let j = choose|j: int| 0 <= j < i + 1 && #[trigger] self.store.items@[j].0@ == k;
                            assert(j < i);
                        }
                    }
                }
            }
            i = i + 1;
        }
        proof {
            assert(self.expanded@ =~= e0.union(dom)) by {
                assert forall|k: Seq<char>| self.expanded@.contains(k) == e0.union(dom).contains(k) by {
                    if dom.contains(k) {
                        assert(crate::smap::has_key(self.store.items@, k));
                        let j = choose|j: int| 0 <= j < self.store.items@.len() && #[trigger] self.store.items@[j].0@ == k;
                        assert(Set::new(|k: Seq<char>| exists|j: int| 0 <= j < i && #[trigger] self.store.items@[j].0@ == k).contains(k));
                    }
                    if Set::new(|k: Seq<char>| exists|j: int| 0 <= j < i && #[trigger] self.store.items@[j].0@ == k).contains(k) {
                        let j = choose|j: int| 0 <= j < i && #[trigger] self.store.items@[j].0@ == k;
                        assert(crate::smap::has_key(self.store.items@, k));
                    }
                }
            }
        }
        self.rebuild_rows();
    }

    /// Collapses every item.
    pub fn collapse_all(&mut self)
        requires
            old(self).wf(),
        ensures
            final(self).wf(),
            final(self).same_data(*old(self)),
            final(self).expanded@ == Set::<Seq<char>>::empty(),
            row_views(final(self).visible_rows@) == final(self).rows_spec(),
            final(self).selected == clamped(old(self).selected as int, final(self).visible_rows@.len() as int),
            final(self).mode == old(self).mode,
            final(self).filter == old(self).filter,
            final(self).revealed == old(self).revealed,
    {
        self.expanded.clear();
        self.rebuild_rows();
    }

    /// Whether item `id`'s values are shown in plaintext.
    pub fn is_revealed(&self, id: &str) -> (r: bool)
        ensures
            r == (self.reveal_all || self.revealed@.contains(id@)),
    {
        self.reveal_all || self.revealed.contains(id)
    }

    /// Reveals the selected item's values, or hides them again.
    pub fn toggle_reveal_selected(&mut self)
        requires
            old(self).wf(),
        ensures
            final(self).wf(),
            final(self).same_data(*old(self)),
            old(self).selected_id() matches Some(id) ==> final(self).revealed@ == (if old(self).revealed@.contains(id) {
                old(self).revealed@.remove(id)
            } else {
                old(self).revealed@.insert(id)
            }),
            old(self).selected_id() is None ==> final(self).revealed == old(self).revealed,
            final(self).visible_rows == old(self).visible_rows,
            final(self).selected == old(self).selected,
            final(self).expanded == old(self).expanded,
            final(self).mode == old(self).mode,
            final(self).filter == old(self).filter,
            final(self).reveal_all == old(self).reveal_all,
    {
        match self.selected_item_id() {
            Some(id) => {
                if !self.revealed.remove(id.as_str()) {
                    self.revealed.insert(id);
                }
            },
            None => {},
        }
    }

    /// Starts searching, with an empty filter.
    pub fn start_search(&mut self)
        requires
            old(self).wf(),
        ensures
            final(self).wf(),
            final(self).same_data(*old(self)),
            final(self).filter matches Some(f) && f.buffer@.len() == 0 && f.pos() == 0,
            final(self).visible_rows == old(self).visible_rows,
            final(self).selected == old(self).selected,
            final(self).mode == old(self).mode,
    {
        self.filter = Some(InputState::new(""));
        proof {
            reveal_strlit("");
        }
    }

    /// Stops searching and shows every item again.
    pub fn clear_search(&mut self)
        requires
            old(self).wf(),
        ensures
            final(self).wf(),
            final(self).same_data(*old(self)),
            final(self).filter is None,
            row_views(final(self).visible_rows@) == final(self).rows_spec(),
            final(self).selected == clamped(old(self).selected as int, final(self).visible_rows@.len() as int),
            final(self).expanded == old(self).expanded,
            final(self).mode == old(self).mode,
    {
        self.filter = None;
        self.rebuild_rows();
    }

    /// Reveals all values, or stops doing so.
    pub fn toggle_reveal_all(&mut self)
        requires
            old(self).wf(),
        ensures
            final(self).wf(),
            final(self).same_data(*old(self)),
            final(self).reveal_all == !old(self).reveal_all,
            final(self).revealed == old(self).revealed,
            final(self).visible_rows == old(self).visible_rows,
            final(self).selected == old(self).selected,
            final(self).mode == old(self).mode,
    {
        self.reveal_all = !self.reveal_all;
    }

    /// Back to browsing.
    pub fn cancel_mode(&mut self)
        requires
            old(self).wf(),
        ensures
            final(self).wf(),
            final(self).same_data(*old(self)),
            final(self).mode is Browse,
            final(self).visible_rows == old(self).visible_rows,
            final(self).selected == old(self).selected,
            final(self).status_message == old(self).status_message,
    {
        self.mode = Mode::Browse;
    }

    /// Scrolls so that the selected row is among the `viewport_height` rows
    /// shown.
    pub fn adjust_scroll(&mut self, viewport_height: usize)
        requires
            old(self).wf(),
        ensures
            final(self).wf(),
            final(self).same_data(*old(self)),
            final(self).selected == old(self).selected,
            final(self).visible_rows == old(self).visible_rows,
            final(self).mode == old(self).mode,
            viewport_height == 0 ==> final(self).scroll_offset == old(self).scroll_offset,
            viewport_height > 0 ==> final(self).scroll_offset <= final(self).selected < final(self).scroll_offset
                + viewport_height,
            viewport_height > 0 && old(self).scroll_offset <= old(self).selected < old(self).scroll_offset
                + viewport_height ==> final(self).scroll_offset == old(self).scroll_offset,
            viewport_height > 0 ==> final(self).scroll_offset == (if old(self).selected < old(self).scroll_offset {
                old(self).selected as int
            } else if old(self).selected >= old(self).scroll_offset + viewport_height {
                old(self).selected - viewport_height + 1
            } else {
                old(self).scroll_offset as int
            }),
            final(self).filter == old(self).filter,
            final(self).expanded == old(self).expanded,
            final(self).revealed == old(self).revealed,
            final(self).status_message == old(self).status_message,
    {
        if viewport_height == 0 {
            return;
        }
        if self.selected < self.scroll_offset {
            self.scroll_offset = self.selected;
        } else if self.selected - self.scroll_offset >= viewport_height {
            self.scroll_offset = self.selected - viewport_height + 1;
        }
    }
}

/// The position of the first header row of item `id`.
fn find_header(rows: &Vec<Row>, id: &str) -> (r: Option<usize>)
    ensures
        r matches Some(p) ==> header_pos(row_views(rows@), id@) == Some(p as int) && p < rows@.len(),
        r is None ==> header_pos(row_views(rows@), id@) is None,
{
    let ghost rv = row_views(rows@);
    let mut i: usize = 0;
    assert(rv.take(0) =~= Seq::<(int, Seq<char>, Seq<char>)>::empty());
    while i < rows.len()
        invariant
            rv == row_views(rows@),
            i <= rows@.len(),
            header_pos(rv.take(i as int), id@) is None,
        decreases rows.len() - i,
    {
        let ghost t = rv.take(i + 1);
        assert(t.drop_last() =~= rv.take(i as int));
        let is_header = match &rows[i] {
            Row::ItemHeader(h) => crate::text::str_eq(h.as_str(), id),
            _ => false,
        };
        if is_header {
            proof {
                lemma_header_pos_prefix(rv, i as int + 1, id@);
            }
            return Some(i);
        }
        i = i + 1;
    }
    assert(rv.take(rv.len() as int) =~= rv);
    None
}

proof fn lemma_header_pos_prefix(rows: Seq<(int, Seq<char>, Seq<char>)>, n: int, id: Seq<char>)
    requires
        0 <= n <= rows.len(),
        header_pos(rows.take(n), id) is Some,
    ensures
        header_pos(rows, id) == header_pos(rows.take(n), id),
    decreases rows.len() - n,
{
    if n < rows.len() {
        assert(rows.take(n + 1).drop_last() =~= rows.take(n));
        lemma_header_pos_prefix(rows, n + 1, id);
    } else {
        assert(rows.take(n) =~= rows);
    }
}

// ---------------------------------------------------------------------------
// History
// ---------------------------------------------------------------------------

/// `new_stack` is `stack` with a snapshot of `s` on top, the oldest snapshot
/// dropped when the stack was full.
pub open spec fn recorded_stack(stack: Seq<Store>, s: StoreView, new_stack: Seq<Store>) -> bool {
    let kept = if stack.len() >= UNDO_STACK_LIMIT {
        stack.drop_first()
    } else {
        stack
    };
    &&& new_stack.len() == kept.len() + 1
    &&& new_stack.drop_last() == kept
    &&& new_stack.last()@ == s
    &&& new_stack.last().wf()
}

/// `b` is `a` after a change to the store that was recorded for undo: the
/// old store is on top of the undo stack and the redo stack is empty.
pub open spec fn recorded(a: App, b: App) -> bool {
    recorded_stack(a.undo_stack@, a.store@, b.undo_stack@) && b.redo_stack@.len() == 0
}

/// `b` is `a` after undo: the last recorded store is back and the store it
/// replaced can be redone; nothing changes when there is nothing to undo.
pub open spec fn undid(a: App, b: App) -> bool {
    if a.undo_stack@.len() > 0 {
        &&& b.store == a.undo_stack@.last()
        &&& b.undo_stack@ == a.undo_stack@.drop_last()
        &&& recorded_stack(a.redo_stack@, a.store@, b.redo_stack@)
    } else {
        &&& b.store == a.store
        &&& b.undo_stack@ == a.undo_stack@
        &&& b.redo_stack@ == a.redo_stack@
    }
}

/// `b` is `a` after redo: the last undone store is back and the store it
/// replaced can be undone; nothing changes when there is nothing to redo.
pub open spec fn redid(a: App, b: App) -> bool {
    if a.redo_stack@.len() > 0 {
        &&& b.store == a.redo_stack@.last()
        &&& b.redo_stack@ == a.redo_stack@.drop_last()
        &&& recorded_stack(a.undo_stack@, a.store@, b.undo_stack@)
    } else {
        &&& b.store == a.store
        &&& b.undo_stack@ == a.undo_stack@
        &&& b.redo_stack@ == a.redo_stack@
    }
}

/// Undoing a recorded change gives back the store from before the change.
pub proof fn law_undo_restores(before: App, changed: App, undone: App)
    requires
        recorded(before, changed),
        undid(changed, undone),
    ensures
        undone.store@ == before.store@,
        undone.redo_stack@.last()@ == changed.store@,
{
}

/// Redoing an undo gives back the store from before the undo, and puts the
/// undone store back on the undo stack.
pub proof fn law_redo_after_undo(a: App, b: App, c: App)
    requires
        a.undo_stack@.len() > 0,
        undid(a, b),
        redid(b, c),
    ensures
        c.store@ == a.store@,
        c.undo_stack@.last()@ == a.undo_stack@.last()@,
{
}

/// Recording never lets a stack grow past `UNDO_STACK_LIMIT`.
pub proof fn law_history_bounded(stack: Seq<Store>, s: StoreView, new_stack: Seq<Store>)
    requires
        stack.len() <= UNDO_STACK_LIMIT,
        recorded_stack(stack, s, new_stack),
    ensures
        new_stack.len() <= UNDO_STACK_LIMIT,
{
}

/// Pushes a snapshot of `s` onto `stack`, dropping the oldest when full.
fn record_on(stack: &mut Vec<Store>, s: &Store)
    requires
        s.wf(),
    ensures
        recorded_stack(old(stack)@, s@, final(stack)@),
{
    if stack.len() >= UNDO_STACK_LIMIT {
        stack.remove(0);
    }
    let ghost kept = stack@;
    stack.push(s.duplicate());
    assert(stack@.drop_last() =~= kept);
}

impl App {
    /// Snapshots the store for undo (before a change) and forgets redo.
    fn push_undo(&mut self)
        requires
            old(self).wf(),
        ensures
            final(self).wf(),
            recorded(*old(self), *final(self)),
            final(self).store == old(self).store,
            final(self).mode == old(self).mode,
            final(self).visible_rows == old(self).visible_rows,
            final(self).selected == old(self).selected,
            final(self).expanded == old(self).expanded,
            final(self).revealed == old(self).revealed,
            final(self).filter == old(self).filter,
            final(self).key == old(self).key,
            final(self).needs_save == old(self).needs_save,
            final(self).should_quit == old(self).should_quit,
            final(self).status_message == old(self).status_message,
    {
        record_on(&mut self.undo_stack, &self.store);
        self.redo_stack.clear();
        proof {
            assert forall|i: int| 0 <= i < self.undo_stack@.len() implies (#[trigger] self.undo_stack@[i]).wf() by {
                if i < self.undo_stack@.len() - 1 {
                    let kept = if old(self).undo_stack@.len() >= UNDO_STACK_LIMIT {
                        old(self).undo_stack@.drop_first()
                    } else {
                        old(self).undo_stack@
                    };
                    assert(self.undo_stack@[i] == kept[i]);
                }
            }
        }
    }

    /// Undoes the last recorded change.
    pub fn undo(&mut self)
        requires
            old(self).wf(),
        ensures
            final(self).wf(),
            undid(*old(self), *final(self)),
            old(self).undo_stack@.len() > 0 ==> final(self).needs_save && row_views(final(self).visible_rows@)
                == final(self).rows_spec() && opt_view(final(self).status_message) == Some("Undone"@),
            old(self).undo_stack@.len() == 0 ==> final(self).needs_save == old(self).needs_save
                && final(self).visible_rows == old(self).visible_rows && opt_view(final(self).status_message)
                == Some("Nothing to undo"@),
            final(self).mode == old(self).mode,
            final(self).expanded == old(self).expanded,
            final(self).revealed == old(self).revealed,
            final(self).filter == old(self).filter,
            final(self).key == old(self).key,
    {
        match self.undo_stack.pop() {
            Some(prev) => {
                assert(self.undo_stack@ =~= old(self).undo_stack@.drop_last());
                record_on(&mut self.redo_stack, &self.store);
                self.store = prev;
                self.needs_save = true;
                self.rebuild_rows();
                self.status_message = Some(owned("Undone"));
                proof {
                    self.lemma_stacks_wf_after(old(self).redo_stack@, old(self).store@);
                }
            },
            None => {
                self.status_message = Some(owned("Nothing to undo"));
            },
        }
    }

    /// Redoes the last undone change.
    pub fn redo(&mut self)
        requires
            old(self).wf(),
        ensures
            final(self).wf(),
            redid(*old(self), *final(self)),
            old(self).redo_stack@.len() > 0 ==> final(self).needs_save && row_views(final(self).visible_rows@)
                == final(self).rows_spec() && opt_view(final(self).status_message) == Some("Redone"@),
            old(self).redo_stack@.len() == 0 ==> final(self).needs_save == old(self).needs_save
                && final(self).visible_rows == old(self).visible_rows && opt_view(final(self).status_message)
                == Some("Nothing to redo"@),
            final(self).mode == old(self).mode,
            final(self).expanded == old(self).expanded,
            final(self).revealed == old(self).revealed,
            final(self).filter == old(self).filter,
            final(self).key == old(self).key,
    {
        match self.redo_stack.pop() {
            Some(next) => {
                assert(self.redo_stack@ =~= old(self).redo_stack@.drop_last());
                record_on(&mut self.undo_stack, &self.store);
                self.store = next;
                self.needs_save = true;
                self.rebuild_rows();
                self.status_message = Some(owned("Redone"));
                proof {
                    self.lemma_undo_wf_after(old(self).undo_stack@, old(self).store@);
                }
            },
            None => {
                self.status_message = Some(owned("Nothing to redo"));
            },
        }
    }

    proof fn lemma_stacks_wf_after(&self, old_redo: Seq<Store>, s: StoreView)
        requires
            forall|i: int| 0 <= i < old_redo.len() ==> (#[trigger] old_redo[i]).wf(),
            recorded_stack(old_redo, s, self.redo_stack@),
        ensures
            forall|i: int| 0 <= i < self.redo_stack@.len() ==> (#[trigger] self.redo_stack@[i]).wf(),
    {
        assert forall|i: int| 0 <= i < self.redo_stack@.len() implies (#[trigger] self.redo_stack@[i]).wf() by {
            if i < self.redo_stack@.len() - 1 {
                let kept = if old_redo.len() >= UNDO_STACK_LIMIT {
                    old_redo.drop_first()
                } else {
                    old_redo
                };
                assert(self.redo_stack@[i] == kept[i]);
            }
        }
    }

    proof fn lemma_undo_wf_after(&self, old_undo: Seq<Store>, s: StoreView)
        requires
            forall|i: int| 0 <= i < old_undo.len() ==> (#[trigger] old_undo[i]).wf(),
            recorded_stack(old_undo, s, self.undo_stack@),
        ensures
            forall|i: int| 0 <= i < self.undo_stack@.len() ==> (#[trigger] self.undo_stack@[i]).wf(),
    {
        assert forall|i: int| 0 <= i < self.undo_stack@.len() implies (#[trigger] self.undo_stack@[i]).wf() by {
            if i < self.undo_stack@.len() - 1 {
                let kept = if old_undo.len() >= UNDO_STACK_LIMIT {
                    old_undo.drop_first()
                } else {
                    old_undo
                };
                assert(self.undo_stack@[i] == kept[i]);
            }
        }
    }
}

// ---------------------------------------------------------------------------
// Deleting
// ---------------------------------------------------------------------------

/// What a delete confirmation targets, as a row view.
pub open spec fn delete_target_view(m: Mode) -> Option<(int, Seq<char>, Seq<char>)> {
    match m {
        Mode::ConfirmDelete(DeleteTarget::Item(id)) => Some((0int, id@, Seq::<char>::empty())),
        Mode::ConfirmDelete(DeleteTarget::EnvValue(id, env)) => Some((1int, id@, env@)),
        _ => None,
    }
}

/// The store without item `id`'s value for `env`.
pub open spec fn value_removed(s: StoreView, id: Seq<char>, env: Seq<char>) -> StoreView {
    if s.items.contains_key(id) {
        s.with_items(s.items.insert(id, s.items[id].with_values(s.items[id].values.remove(env))))
    } else {
        s
    }
}

impl App {
    /// The view of the selected row, if there is one.
    pub open spec fn selected_row_view(&self) -> Option<(int, Seq<char>, Seq<char>)> {
        if self.selected < self.visible_rows@.len() {
            Some(self.visible_rows@[self.selected as int]@)
        } else {
            None
        }
    }

    /// Asks to confirm deleting the selected item (on a header) or value (on
    /// a value row).
    pub fn initiate_delete(&mut self)
        requires
            old(self).wf(),
        ensures
            final(self).wf(),
            final(self).same_data(*old(self)),
            final(self).visible_rows == old(self).visible_rows,
            final(self).selected == old(self).selected,
            final(self).expanded == old(self).expanded,
            final(self).revealed == old(self).revealed,
            (old(self).selected_row_view() matches Some(rv) && (rv.0 == 0 || rv.0 == 1)) ==> delete_target_view(
                final(self).mode,
            ) == old(self).selected_row_view(),
            !(old(self).selected_row_view() matches Some(rv) && (rv.0 == 0 || rv.0 == 1)) ==> final(self).mode
                == old(self).mode,
    {
        let target = match self.selected_row() {
            Some(Row::ItemHeader(id)) => DeleteTarget::Item(id.clone()),
            Some(Row::EnvValue(id, env)) => DeleteTarget::EnvValue(id.clone(), env.clone()),
            _ => {
                return;
            },
        };
        self.mode = Mode::ConfirmDelete(target);
    }

    /// Carries out a confirmed delete: the item (and its expansion and
    /// reveal), or the value; recorded for undo.
    pub fn confirm_delete(&mut self)
        requires
            old(self).wf(),
        ensures
            final(self).wf(),
            !(old(self).mode is ConfirmDelete) ==> *final(self) == *old(self),
            old(self).mode is ConfirmDelete ==> recorded(*old(self), *final(self)) && final(self).needs_save
                && final(self).mode is Browse && row_views(final(self).visible_rows@) == final(self).rows_spec() && final(self).filter == old(self).filter && final(self).key == old(self).key,
            old(self).mode matches Mode::ConfirmDelete(DeleteTarget::Item(id)) ==> final(self).store@
                == old(self).store@.with_items(old(self).store@.items.remove(id@)) && final(self).expanded@
                == old(self).expanded@.remove(id@) && final(self).revealed@ == old(self).revealed@.remove(id@)
                && opt_view(final(self).status_message) == Some("Deleted "@ + id@),
            old(self).mode matches Mode::ConfirmDelete(DeleteTarget::EnvValue(id, env)) ==> final(self).store@
                == value_removed(old(self).store@, id@, env@) && final(self).expanded == old(self).expanded
                && final(self).revealed == old(self).revealed && opt_view(final(self).status_message) == Some(
                "Removed "@ + env@ + " from "@ + id@,
            ),
    {
        let target = match &self.mode {
            Mode::ConfirmDelete(DeleteTarget::Item(id)) => DeleteTarget::Item(id.clone()),
            Mode::ConfirmDelete(DeleteTarget::EnvValue(id, env)) => DeleteTarget::EnvValue(id.clone(), env.clone()),
            _ => {
                return;
            },
        };
        self.push_undo();
        match &target {
            DeleteTarget::Item(id) => {
                self.store.remove(id.as_str());
                self.expanded.remove(id.as_str());
                self.revealed.remove(id.as_str());
                self.status_message = Some(concat("Deleted ", id.as_str()));
            },
            DeleteTarget::EnvValue(id, env) => {
                if self.store.contains(id.as_str()) {
                    let mut item = self.store.item_or_empty(id.as_str());
                    item.remove_value(env.as_str());
                    self.store.put(id.as_str(), item);
                }
                let a = concat("Removed ", env.as_str());
                let b = concat(a.as_str(), " from ");
                self.status_message = Some(concat(b.as_str(), id.as_str()));
            },
        }
        self.needs_save = true;
        self.rebuild_rows();
        self.mode = Mode::Browse;
    }
}

// ---------------------------------------------------------------------------
// Editing metadata
// ---------------------------------------------------------------------------

/// The sensitivity option an item's sensitivity stands at.
pub open spec fn sensitivity_index(s: Option<Sensitivity>) -> usize {
    match s {
        Some(Sensitivity::Sensitive) => 1,
        Some(Sensitivity::Secret) => 2,
        _ => 0,
    }
}

/// The sensitivity an option stands for.
pub open spec fn option_sensitivity(i: usize) -> Sensitivity {
    if i == 1 {
        Sensitivity::Sensitive
    } else if i == 2 {
        Sensitivity::Secret
    } else {
        Sensitivity::Plaintext
    }
}

/// The text of an optional string (empty for none).
pub open spec fn text_or_empty(o: Option<Seq<char>>) -> Seq<char> {
    match o {
        Some(t) => t,
        None => Seq::empty(),
    }
}

/// The item once the metadata form is saved: each text field replaces its
/// field (empty for none), the lists are split at commas.
pub open spec fn edited_item(item: ItemView, fields: MetadataFields) -> ItemView {
    ItemView {
        description: optional(fields.description.buffer@),
        sensitivity: Some(option_sensitivity(fields.sensitivity)),
        origin: optional(fields.origin.buffer@),
        environments: spec_tags(fields.environments.buffer@),
        tags: spec_tags(fields.tags.buffer@),
        values: item.values,
    }
}

/// A copy of an optional string.
fn text_of_opt(o: &Option<String>) -> (r: String)
    ensures
        r@ == text_or_empty(opt_view(*o)),
{
    match o {
        Some(t) => t.clone(),
        None => String::new(),
    }
}

/// A comma-separated list as entered (empty for none).
fn list_text(items: &Vec<String>) -> (r: String)
    ensures
        r@ == crate::text::join(views(items@), ", "@),
{
    crate::text::join_strings(items, ", ")
}

impl App {
    /// Opens the metadata form of the selected item (on a header).
    fn initiate_edit_metadata(&mut self)
        requires
            old(self).wf(),
        ensures
            final(self).wf(),
            final(self).same_data(*old(self)),
            final(self).visible_rows == old(self).visible_rows,
            final(self).selected == old(self).selected,
            final(self).expanded == old(self).expanded,
            final(self).revealed == old(self).revealed,
            old(self).selected_row_view() matches Some(rv) ==> (rv.0 == 0 && old(self).store@.items.contains_key(
                rv.1,
            ) ==> (final(self).mode matches Mode::EditMetadata { item_id, fields, active_field } && item_id@
                == rv.1 && active_field == MetadataField::Description && fields.description.buffer@
                == text_or_empty(old(self).store@.items[rv.1].description) && fields.sensitivity
                == sensitivity_index(old(self).store@.items[rv.1].sensitivity) && fields.origin.buffer@
                == text_or_empty(old(self).store@.items[rv.1].origin) && fields.tags.buffer@ == crate::text::join(
                old(self).store@.items[rv.1].tags,
                ", "@,
            ) && fields.environments.buffer@ == crate::text::join(
                old(self).store@.items[rv.1].environments,
                ", "@,
            ))),
            !(old(self).selected_row_view() matches Some(rv) && rv.0 == 0 && old(self).store@.items.contains_key(
                rv.1,
            )) ==> final(self).mode == old(self).mode,
    {
        let id = match self.selected_row() {
            Some(Row::ItemHeader(id)) => id.clone(),
            _ => {
                return;
            },
        };
        let item = match self.store.get(id.as_str()) {
            Some(it) => it,
            None => {
                return;
            },
        };
        let sensitivity: usize = match item.sensitivity {
            Some(Sensitivity::Sensitive) => 1,
            Some(Sensitivity::Secret) => 2,
            _ => 0,
        };
        let d = text_of_opt(&item.description);
        let o = text_of_opt(&item.origin);
        let t = list_text(&item.tags);
        let e = list_text(&item.environments);
        let fields = MetadataFields {
            description: InputState::new(d.as_str()),
            sensitivity,
            origin: InputState::new(o.as_str()),
            tags: InputState::new(t.as_str()),
            environments: InputState::new(e.as_str()),
        };
        self.mode = Mode::EditMetadata { item_id: id, fields, active_field: MetadataField::Description };
    }

    /// Saves the metadata form onto the item (when it still exists); recorded
    /// for undo.
    pub fn confirm_edit_metadata(&mut self)
        requires
            old(self).wf(),
        ensures
            final(self).wf(),
            confirm_edit_metadata_post(*old(self), *final(self)),

    {
        let (item_id, desc, sens, origin, tags_str, envs_str) = match &self.mode {
            Mode::EditMetadata { item_id, fields, .. } => (
                item_id.clone(),
                fields.description.buffer.clone(),
                fields.sensitivity,
                fields.origin.buffer.clone(),
                fields.tags.buffer.clone(),
                fields.environments.buffer.clone(),
            ),
            _ => {
                return;
            },
        };
        self.push_undo();
        if self.store.contains(item_id.as_str()) {
            let mut item = self.store.item_or_empty(item_id.as_str());
            item.description = if desc.as_str().is_empty() {
                None
            } else {
                Some(desc)
            };
            item.sensitivity = Some(
                if sens == 1 {
                    Sensitivity::Sensitive
                } else if sens == 2 {
                    Sensitivity::Secret
                } else {
                    Sensitivity::Plaintext
                },
            );
            item.origin = if origin.as_str().is_empty() {
                None
            } else {
                Some(origin)
            };
            item.tags = comma_list(tags_str.as_str());
            item.environments = comma_list(envs_str.as_str());
            self.store.put(item_id.as_str(), item);
        }
        self.needs_save = true;
        self.status_message = Some(concat("Updated metadata for ", item_id.as_str()));
        self.mode = Mode::Browse;
    }
}

/// The pieces of a comma-separated answer, trimmed (none for an empty one).
fn comma_list(input: &str) -> (r: Vec<String>)
    ensures
        views(r@) == spec_tags(input@),
{
    if input.is_empty() {
        let v: Vec<String> = Vec::new();
        assert(views(v@) =~= spec_tags(input@));
        v
    } else {
        crate::commands::split_trimmed(input)
    }
}

// ---------------------------------------------------------------------------
// Editing values
// ---------------------------------------------------------------------------

/// What the value editor starts with: the value, decrypted when encrypted
/// (empty when it cannot be decrypted), or nothing when there is no value.
pub open spec fn edit_prefill(s: StoreView, id: Seq<char>, env: Seq<char>, key: Option<Seq<u8>>) -> Seq<char> {
    if s.items.contains_key(id) && s.items[id].values.contains_key(env) {
        let v = s.items[id].values[env];
        if spec_parse_sensitivity(v) is Some {
            match key {
                Some(k) => match spec_decrypt(v, k) {
                    Ok(p) => p,
                    Err(_) => Seq::empty(),
                },
                None => Seq::empty(),
            }
        } else {
            v
        }
    } else {
        Seq::empty()
    }
}

/// The level an edited value is stored at: the item's declared sensitivity,
/// else the level of the value it replaces.
pub open spec fn edit_level(s: StoreView, id: Seq<char>, env: Seq<char>) -> Option<SensitivityLevel> {
    if s.items.contains_key(id) {
        let item = s.items[id];
        let declared = match item.sensitivity {
            Some(x) => spec_level_of(x),
            None => None,
        };
        match declared {
            Some(l) => Some(l),
            None => if item.values.contains_key(env) {
                spec_parse_sensitivity(item.values[env])
            } else {
                None
            },
        }
    } else {
        None
    }
}

/// The view of an optional key.
pub open spec fn app_key(k: Option<EncryptionKey>) -> Option<Seq<u8>> {
    match k {
        Some(x) => Some(x.bytes@),
        None => None,
    }
}

/// The mode that edits the value of `env` on item `id`, starting with `text`.
pub open spec fn edits_value(m: Mode, id: Seq<char>, env: Seq<char>, text: Seq<char>) -> bool {
    m matches Mode::EditValue { item_id, env: e, input } && item_id@ == id && e@ == env && input.buffer@ == text
        && input.pos() == text.len()
}

impl App {
    fn key_ref(&self) -> (r: Option<&EncryptionKey>)
        ensures
            crate::assemble::key_view(r) == app_key(self.key),
            r matches Some(k) ==> self.key matches Some(kk) && *k == kk,
            r is None ==> self.key is None,
    {
        match &self.key {
            Some(k) => Some(k),
            None => None,
        }
    }

    /// Opens the value editor on the selected value row, with its current
    /// value (decrypted).
    fn initiate_edit_value(&mut self)
        requires
            old(self).wf(),
        ensures
            final(self).wf(),
            final(self).same_data(*old(self)),
            final(self).visible_rows == old(self).visible_rows,
            final(self).selected == old(self).selected,
            final(self).expanded == old(self).expanded,
            final(self).revealed == old(self).revealed,
            old(self).selected_row_view() matches Some(rv) ==> (rv.0 == 1 ==> edits_value(
                final(self).mode,
                rv.1,
                rv.2,
                edit_prefill(old(self).store@, rv.1, rv.2, app_key(old(self).key)),
            )),
            !(old(self).selected_row_view() matches Some(rv) && rv.0 == 1) ==> final(self).mode == old(self).mode,
    {
        let (id, env) = match self.selected_row() {
            Some(Row::EnvValue(id, env)) => (id.clone(), env.clone()),
            _ => {
                return;
            },
        };
        let current: String = match self.store.get(id.as_str()) {
            Some(item) => match item.value(env.as_str()) {
                Some(v) => {
                    if parse_sensitivity(v.as_str()).is_some() {
                        match self.key_ref() {
                            Some(k) => match decrypt_value(v.as_str(), k) {
                                Ok(p) => p,
                                Err(_) => String::new(),
                            },
                            None => String::new(),
                        }
                    } else {
                        v.clone()
                    }
                },
                None => String::new(),
            },
            None => String::new(),
        };
        self.mode = Mode::EditValue { item_id: id, env, input: InputState::new(current.as_str()) };
    }

    /// Opens the value editor on a value row (with its value) or a missing
    /// value row (empty).
    pub fn initiate_edit_value_any(&mut self)
        requires
            old(self).wf(),
        ensures
            final(self).wf(),
            initiate_edit_value_any_post(*old(self), *final(self)),

    {
        let kind: u8 = match self.selected_row() {
            Some(Row::EnvValue(_, _)) => 1,
            Some(Row::MissingEnv(_, _)) => 2,
            _ => 0,
        };
        if kind == 1 {
            self.initiate_edit_value();
        } else if kind == 2 {
            let (id, env) = match self.selected_row() {
                Some(Row::MissingEnv(id, env)) => (id.clone(), env.clone()),
                _ => {
                    return;
                },
            };
            let input = InputState::new("");
            proof {
                reveal_strlit("");
                assert(input.buffer@ =~= Seq::<char>::empty());
            }
            self.mode = Mode::EditValue { item_id: id, env, input };
        }
    }

    /// Opens the editor for the selected row: the metadata form on a header,
    /// the value editor on a value or missing value.
    pub fn initiate_edit(&mut self)
        requires
            old(self).wf(),
        ensures
            final(self).wf(),
            initiate_edit_post(*old(self), *final(self)),

    {
        let kind: u8 = match self.selected_row() {
            Some(Row::ItemHeader(_)) => 0,
            Some(Row::EnvValue(_, _)) => 1,
            Some(Row::MissingEnv(_, _)) => 2,
            None => 3,
        };
        if kind == 0 {
            self.initiate_edit_metadata();
        } else if kind == 1 || kind == 2 {
            self.initiate_edit_value_any();
        }
    }

    /// Saves the value editor's text for its environment, encrypted at the
    /// level the item calls for (when the item still exists); recorded for
    /// undo. Fails when the value must be encrypted and cannot be.
    pub fn confirm_edit_value(&mut self) -> (r: Result<(), CommandError>)
        requires
            old(self).wf(),
        ensures
            final(self).wf(),
            confirm_edit_value_post(*old(self), *final(self), r),

    {
        let (item_id, env, new_value) = match &self.mode {
            Mode::EditValue { item_id, env, input } => (item_id.clone(), env.clone(), input.buffer.clone()),
            _ => {
                return Ok(());
            },
        };
        self.push_undo();
        let level = match self.store.get(item_id.as_str()) {
            Some(item) => {
                let declared = match &item.sensitivity {
                    Some(x) => x.to_sensitivity_level(),
                    None => None,
                };
                match declared {
                    Some(l) => Some(l),
                    None => match item.value(env.as_str()) {
                        Some(v) => parse_sensitivity(v.as_str()),
                        None => None,
                    },
                }
            },
            None => None,
        };
        let stored = match crate::commands::stored_form(new_value.as_str(), level, self.key_ref()) {
            Ok(s) => s,
            Err(f) => {
                return Err(CommandError { fault: f, subject: item_id });
            },
        };
        let ghost sv = stored@;
        if self.store.contains(item_id.as_str()) {
            let mut item = self.store.item_or_empty(item_id.as_str());
            item.set_value(env.as_str(), stored);
            self.store.put(item_id.as_str(), item);
        }
        self.needs_save = true;
        self.rebuild_rows();
        let a = concat("Updated ", env.as_str());
        let b = concat(a.as_str(), " for ");
        self.status_message = Some(concat(b.as_str(), item_id.as_str()));
        self.mode = Mode::Browse;
        assert(crate::commands::stores(sv, new_value@, level, app_key(old(self).key)));
        Ok(())
    }
}

// ---------------------------------------------------------------------------
// Cloning
// ---------------------------------------------------------------------------

/// The environments with `e` added (kept sorted when it is added).
pub open spec fn with_env(envs: Seq<Seq<char>>, e: Seq<char>) -> Seq<Seq<char>> {
    if envs.contains(e) {
        envs
    } else {
        envs.push(e).sort_by(crate::text::str_le())
    }
}

/// The item with `value` stored for `env` and `env` among its environments
/// (the store's defaults where it declares none).
pub open spec fn item_with_value(item: ItemView, env: Seq<char>, value: Seq<char>, defaults: Seq<Seq<char>>) -> ItemView {
    with_default_environments(
        defaults,
        ItemView { environments: with_env(item.environments, env), ..item.set(env, value) },
    )
}

/// Stores `value` for `env` on `item` and adds `env` to its environments.
fn add_env_value(item: &mut Item, env: &str, value: String, meta: &crate::store::StoreMeta)
    requires
        old(item).wf(),
    ensures
        final(item).wf(),
        final(item)@ == item_with_value(old(item)@, env@, value@, views(meta.default_environments@)),
{
    item.set_value(env, value);
    if !crate::text::contains_string(&item.environments, env) {
        let mut envs = crate::store::clone_strings(&item.environments);
        envs.push(owned(env));
        let ghost e0 = views(item.environments@);
        assert(views(envs@) =~= e0.push(env@));
        item.environments = crate::text::sort_strings(envs);
    }
    apply_default_environments(meta, item);
}

impl App {
    /// Starts cloning: the selected value to another environment (on a value
    /// row), or the selected item to a new ID (on a header).
    pub fn initiate_clone(&mut self)
        requires
            old(self).wf(),
        ensures
            final(self).wf(),
            initiate_clone_post(*old(self), *final(self)),

    {
        proof {
            reveal_strlit("");
        }
        let m = match self.selected_row() {
            Some(Row::EnvValue(id, env)) => Mode::Clone {
                item_id: id.clone(),
                source_env: env.clone(),
                input: InputState::new(""),
            },
            Some(Row::ItemHeader(id)) => Mode::CloneItem { source_id: id.clone(), input: InputState::new("") },
            _ => {
                return;
            },
        };
        self.mode = m;
    }

    /// Copies the value being cloned to the entered environment (trimmed;
    /// nothing happens while it is empty); recorded for undo.
    pub fn confirm_clone(&mut self)
        requires
            old(self).wf(),
        ensures
            final(self).wf(),
            confirm_clone_post(*old(self), *final(self)),

    {
        let (item_id, source_env, target) = match &self.mode {
            Mode::Clone { item_id, source_env, input } => (
                item_id.clone(),
                source_env.clone(),
                crate::text::trim_str(input.buffer.as_str()),
            ),
            _ => {
                return;
            },
        };
        if target.as_str().is_empty() {
            return;
        }
        let value = match self.store.get(item_id.as_str()) {
            Some(item) => match item.value(source_env.as_str()) {
                Some(v) => v.clone(),
                None => {
                    self.cancel_mode();
                    return;
                },
            },
            None => {
                self.cancel_mode();
                return;
            },
        };
        self.push_undo();
        let mut item = self.store.item_or_empty(item_id.as_str());
        add_env_value(&mut item, target.as_str(), value, &self.store.meta);
        self.store.put(item_id.as_str(), item);
        self.needs_save = true;
        self.rebuild_rows();
        let a = concat("Cloned ", source_env.as_str());
        let b = concat(a.as_str(), " → ");
        let c = concat(b.as_str(), target.as_str());
        let d = concat(c.as_str(), " for ");
        self.status_message = Some(concat(d.as_str(), item_id.as_str()));
        self.mode = Mode::Browse;
    }

    /// Copies the item being cloned to the entered ID (trimmed; nothing
    /// happens while it is empty), expanded; recorded for undo.
    pub fn confirm_clone_item(&mut self)
        requires
            old(self).wf(),
        ensures
            final(self).wf(),
            confirm_clone_item_post(*old(self), *final(self)),

    {
        let (source_id, new_id) = match &self.mode {
            Mode::CloneItem { source_id, input } => (source_id.clone(), crate::text::trim_str(input.buffer.as_str())),
            _ => {
                return;
            },
        };
        if new_id.as_str().is_empty() {
            return;
        }
        let copy = match self.store.get(source_id.as_str()) {
            Some(item) => item.duplicate(),
            None => {
                self.cancel_mode();
                return;
            },
        };
        self.push_undo();
        self.store.put(new_id.as_str(), copy);
        self.needs_save = true;
        self.expanded.insert(new_id.clone());
        self.rebuild_rows();
        let a = concat("Cloned ", source_id.as_str());
        let b = concat(a.as_str(), " → ");
        self.status_message = Some(concat(b.as_str(), new_id.as_str()));
        self.mode = Mode::Browse;
    }
}

// ---------------------------------------------------------------------------
// Adding
// ---------------------------------------------------------------------------

/// The first default environment without a value.
pub open spec fn first_missing(defaults: Seq<Seq<char>>, values: Map<Seq<char>, Seq<char>>) -> Option<Seq<char>>
    decreases defaults.len(),
{
    if defaults.len() == 0 {
        None
    } else if !values.contains_key(defaults[0]) {
        Some(defaults[0])
    } else {
        first_missing(defaults.drop_first(), values)
    }
}

/// The environment the add-environment wizard offers first for item `id`.
pub open spec fn add_env_prefill(s: StoreView, id: Seq<char>) -> Seq<char> {
    if s.items.contains_key(id) {
        match first_missing(s.default_environments, s.items[id].values) {
            Some(e) => e,
            None => Seq::empty(),
        }
    } else {
        Seq::empty()
    }
}

/// The add wizard as plain values: (step, the step's text, the sensitivity
/// selection of the sensitivity step, id, env, sensitivity, value,
/// description, origin). Steps count from 0 (ID) through environment,
/// sensitivity, value, description and origin to 6 (tags).
pub open spec fn add_view(m: Mode) -> Option<(int, Seq<char>, int, Seq<char>, Seq<char>, int, Seq<char>, Seq<char>, Seq<char>)> {
    match m {
        Mode::Add { step, id, env, sensitivity, value, description, origin } => {
            let (k, t, ix) = match step {
                AddStep::Id(x) => (0int, x.buffer@, 0int),
                AddStep::Env(x) => (1int, x.buffer@, 0int),
                AddStep::Sensitivity(i) => (2int, Seq::<char>::empty(), i as int),
                AddStep::Value(x) => (3int, x.buffer@, 0int),
                AddStep::Description(x) => (4int, x.buffer@, 0int),
                AddStep::Origin(x) => (5int, x.buffer@, 0int),
                AddStep::Tags(x) => (6int, x.buffer@, 0int),
            };
            Some((k, t, ix, id@, env@, sensitivity as int, value@, description@, origin@))
        },
        _ => None,
    }
}

/// The cursor of the add step's input is at the end of its text.
pub open spec fn add_cursor_at_end(m: Mode) -> bool {
    match m {
        Mode::Add { step, .. } => match step {
            AddStep::Id(x) => x.pos() == x.buffer@.len(),
            AddStep::Env(x) => x.pos() == x.buffer@.len(),
            AddStep::Sensitivity(_) => true,
            AddStep::Value(x) => x.pos() == x.buffer@.len(),
            AddStep::Description(x) => x.pos() == x.buffer@.len(),
            AddStep::Origin(x) => x.pos() == x.buffer@.len(),
            AddStep::Tags(x) => x.pos() == x.buffer@.len(),
        },
        _ => false,
    }
}

/// The add-environment wizard as plain values: (item ID, step (0 for the
/// environment, 1 for the value), the step's text, the chosen environment).
pub open spec fn add_env_view(m: Mode) -> Option<(Seq<char>, int, Seq<char>, Seq<char>)> {
    match m {
        Mode::AddEnv { item_id, step, env } => match step {
            AddEnvStep::Env(x) => Some((item_id@, 0int, x.buffer@, env@)),
            AddEnvStep::Value(x) => Some((item_id@, 1int, x.buffer@, env@)),
        },
        _ => None,
    }
}

/// The first default environment, or nothing.
pub open spec fn first_default(defaults: Seq<Seq<char>>) -> Seq<char> {
    if defaults.len() > 0 {
        defaults[0]
    } else {
        Seq::empty()
    }
}

/// The item the add wizard saves.
pub open spec fn added_item(
    item: ItemView,
    env: Seq<char>,
    stored: Seq<char>,
    description: Seq<char>,
    origin: Seq<char>,
    tags: Seq<char>,
    sensitivity: int,
    defaults: Seq<Seq<char>>,
) -> ItemView {
    let base = item_with_value(item, env, stored, defaults);
    ItemView {
        description: if description.len() > 0 {
            Some(description)
        } else {
            item.description
        },
        origin: if origin.len() > 0 {
            Some(origin)
        } else {
            item.origin
        },
        tags: if tags.len() > 0 {
            spec_tags(tags)
        } else {
            item.tags
        },
        sensitivity: Some(option_sensitivity(sensitivity as usize)),
        ..base
    }
}

impl App {
    /// The first default environment that item `id` has no value for.
    fn next_missing_default_env(&self, item_id: &str) -> (r: Option<String>)
        requires
            self.store.wf(),
        ensures
            opt_view(r) == (if self.store@.items.contains_key(item_id@) {
                first_missing(self.store@.default_environments, self.store@.items[item_id@].values)
            } else {
                None
            }),
    {
        let item = match self.store.get(item_id) {
            Some(it) => it,
            None => {
                return None;
            },
        };
        let ghost ds = views(self.store.meta.default_environments@);
        let mut i: usize = 0;
        assert(ds.skip(0) =~= ds);
        while i < self.store.meta.default_environments.len()
            invariant
                item.wf(),
                self.store@.items.contains_key(item_id@),
                self.store@.items[item_id@] == item@,
                ds == views(self.store.meta.default_environments@),
                i <= ds.len(),
                first_missing(ds, item@.values) == first_missing(ds.skip(i as int), item@.values),
            decreases self.store.meta.default_environments.len() - i,
        {
            let ghost rest = ds.skip(i as int);
            assert(rest[0] == self.store.meta.default_environments@[i as int]@);
            let e = &self.store.meta.default_environments[i];
            if !item.has_value(e.as_str()) {
                return Some(e.clone());
            }
            assert(rest.drop_first() =~= ds.skip(i + 1));
            i = i + 1;
        }
        None
    }

    /// Starts adding: an environment to the selected item (on a value or
    /// missing value row, offering its first missing default environment),
    /// else a new item.
    pub fn initiate_add(&mut self)
        requires
            old(self).wf(),
        ensures
            final(self).wf(),
            initiate_add_post(*old(self), *final(self)),

    {
        proof {
            reveal_strlit("");
        }
        let target = match self.selected_row() {
            Some(Row::EnvValue(id, _)) => Some(id.clone()),
            Some(Row::MissingEnv(id, _)) => Some(id.clone()),
            _ => None,
        };
        match target {
            Some(id) => {
                let prefill = match self.next_missing_default_env(id.as_str()) {
                    Some(e) => e,
                    None => String::new(),
                };
                self.mode = Mode::AddEnv { item_id: id, step: AddEnvStep::Env(InputState::new(prefill.as_str())), env: String::new() };
            },
            None => {
                self.mode = Mode::Add {
                    step: AddStep::Id(InputState::new("")),
                    id: String::new(),
                    env: String::new(),
                    sensitivity: 0,
                    value: String::new(),
                    description: String::new(),
                    origin: String::new(),
                };
                assert(""@ =~= Seq::<char>::empty());
            },
        }
    }
}

impl App {
    /// Advances the add wizard: the ID, environment and value steps need a
    /// non-blank answer (nothing happens otherwise); the last step saves the
    /// item (recorded for undo), encrypting the value at the chosen
    /// sensitivity, and expands it. When the value cannot be stored, the
    /// undo point stays and the item exists, empty if it is new.
    pub fn advance_add(&mut self) -> (r: Result<(), CommandError>)
        requires
            old(self).wf(),
        ensures
            final(self).wf(),
            advance_add_post(*old(self), *final(self), r),

    {
        proof {
            reveal_strlit("");
            assert(""@ =~= Seq::<char>::empty());
        }
        let (kind, text, index) = match &self.mode {
            Mode::Add { step, .. } => match step {
                AddStep::Id(x) => (0u8, x.buffer.clone(), 0usize),
                AddStep::Env(x) => (1u8, x.buffer.clone(), 0usize),
                AddStep::Sensitivity(i) => (2u8, String::new(), *i),
                AddStep::Value(x) => (3u8, x.buffer.clone(), 0usize),
                AddStep::Description(x) => (4u8, x.buffer.clone(), 0usize),
                AddStep::Origin(x) => (5u8, x.buffer.clone(), 0usize),
                AddStep::Tags(x) => (6u8, x.buffer.clone(), 0usize),
            },
            _ => {
                return Ok(());
            },
        };
        let (id, env, sensitivity, value, description, origin) = match &self.mode {
            Mode::Add { id, env, sensitivity, value, description, origin, .. } => (
                id.clone(),
                env.clone(),
                *sensitivity,
                value.clone(),
                description.clone(),
                origin.clone(),
            ),
            _ => {
                return Ok(());
            },
        };
        let trimmed = crate::text::trim_str(text.as_str());
        let blank = trimmed.as_str().is_empty();
        proof {
            reveal_strlit("");
        }
        if kind == 0 {
            if blank {
                return Ok(());
            }
            let prefill = if self.store.meta.default_environments.len() > 0 {
                self.store.meta.default_environments[0].clone()
            } else {
                String::new()
            };
            self.mode = Mode::Add {
                step: AddStep::Env(InputState::new(prefill.as_str())),
                id: trimmed,
                env,
                sensitivity,
                value,
                description,
                origin,
            };
            Ok(())
        } else if kind == 1 {
            if blank {
                return Ok(());
            }
            self.mode = Mode::Add {
                step: AddStep::Sensitivity(0),
                id,
                env: trimmed,
                sensitivity,
                value,
                description,
                origin,
            };
            Ok(())
        } else if kind == 2 {
            self.mode = Mode::Add {
                step: AddStep::Value(InputState::new("")),
                id,
                env,
                sensitivity: index,
                value,
                description,
                origin,
            };
            Ok(())
        } else if kind == 3 {
            if blank {
                return Ok(());
            }
            self.mode = Mode::Add {
                step: AddStep::Description(InputState::new("")),
                id,
                env,
                sensitivity,
                value: text,
                description,
                origin,
            };
            Ok(())
        } else if kind == 4 {
            self.mode = Mode::Add {
                step: AddStep::Origin(InputState::new("")),
                id,
                env,
                sensitivity,
                value,
                description: text,
                origin,
            };
            Ok(())
        } else if kind == 5 {
            self.mode = Mode::Add {
                step: AddStep::Tags(InputState::new("")),
                id,
                env,
                sensitivity,
                value,
                description,
                origin: text,
            };
            Ok(())
        } else {
            self.save_added(id, env, sensitivity, value, description, origin, text)
        }
    }

    /// The last step of the add wizard: saves the new item.
    fn save_added(
        &mut self,
        id: String,
        env: String,
        sensitivity: usize,
        value: String,
        description: String,
        origin: String,
        tags: String,
    ) -> (r: Result<(), CommandError>)
        requires
            old(self).wf(),
            old(self).mode is Add,
        ensures
            final(self).wf(),
            ({
                let level = crate::commands::selected_level(sensitivity as int);
                let fault = crate::commands::store_fault(value@, level, app_key(old(self).key));
                let s = old(self).store@;
                &&& recorded(*old(self), *final(self))
                &&& r is Err <==> fault is Some
                &&& r matches Err(e) ==> Some(e.fault) == fault && final(self).store@ == s.with_items(
                    s.items.insert(id@, s.item_or_empty(id@)),
                ) && final(self).store.meta == old(self).store.meta && final(self).mode == old(self).mode
                &&& r is Ok ==> final(self).filter == old(self).filter && final(self).selected == clamped(
                    old(self).selected as int,
                    final(self).visible_rows@.len() as int,
                ) && final(self).revealed == old(self).revealed
                &&& r is Ok ==> final(self).needs_save && final(self).mode is Browse && row_views(
                    final(self).visible_rows@,
                ) == final(self).rows_spec() && final(self).expanded@ == old(self).expanded@.insert(id@)
                    && opt_view(final(self).status_message) == Some("Added "@ + id@ + " ("@ + env@ + ")"@)
                    && exists|stored: Seq<char>|
                    crate::commands::stores(stored, value@, level, app_key(old(self).key)) && final(self).store@
                        == s.with_items(
                        s.items.insert(
                            id@,
                            added_item(
                                s.item_or_empty(id@),
                                env@,
                                stored,
                                description@,
                                origin@,
                                tags@,
                                sensitivity as int,
                                s.default_environments,
                            ),
                        ),
                    )
            }),
    {
        self.push_undo();
        let level = if sensitivity == 1 {
            Some(SensitivityLevel::Sensitive)
        } else if sensitivity == 2 {
            Some(SensitivityLevel::Secret)
        } else {
            None
        };
        let stored = match crate::commands::stored_form(value.as_str(), level, self.key_ref()) {
            Ok(s) => s,
            Err(f) => {
                if !self.store.contains(id.as_str()) {
                    self.store.put(id.as_str(), Item::empty());
                } else {
                    proof {
                        let s = self.store@;
                        assert(s.items.insert(id@, s.item_or_empty(id@)) =~= s.items);
                    }
                }
                return Err(CommandError { fault: f, subject: id });
            },
        };
        let ghost sv = stored@;
        let mut item = self.store.item_or_empty(id.as_str());
        add_env_value(&mut item, env.as_str(), stored, &self.store.meta);
        if !description.as_str().is_empty() {
            item.description = Some(description);
        }
        if !origin.as_str().is_empty() {
            item.origin = Some(origin);
        }
        if !tags.as_str().is_empty() {
            item.tags = crate::commands::split_trimmed(tags.as_str());
        }
        item.sensitivity = Some(
            if sensitivity == 1 {
                Sensitivity::Sensitive
            } else if sensitivity == 2 {
                Sensitivity::Secret
            } else {
                Sensitivity::Plaintext
            },
        );
        self.store.put(id.as_str(), item);
        self.needs_save = true;
        self.expanded.insert(id.clone());
        self.rebuild_rows();
        let a = concat("Added ", id.as_str());
        let b = concat(a.as_str(), " (");
        let c = concat(b.as_str(), env.as_str());
        self.status_message = Some(concat(c.as_str(), ")"));
        self.mode = Mode::Browse;
        assert(crate::commands::stores(sv, value@, level, app_key(old(self).key)));
        Ok(())
    }

    /// Advances the add-environment wizard: the environment and the value
    /// need a non-blank answer (nothing happens otherwise); the value is
    /// saved on the item (recorded for undo), encrypted at the level the
    /// item calls for.
    pub fn advance_add_env(&mut self) -> (r: Result<(), CommandError>)
        requires
            old(self).wf(),
        ensures
            final(self).wf(),
            advance_add_env_post(*old(self), *final(self), r),

    {
        proof {
            reveal_strlit("");
            assert(""@ =~= Seq::<char>::empty());
        }
        let (item_id, kind, text, env) = match &self.mode {
            Mode::AddEnv { item_id, step, env } => match step {
                AddEnvStep::Env(x) => (item_id.clone(), 0u8, x.buffer.clone(), env.clone()),
                AddEnvStep::Value(x) => (item_id.clone(), 1u8, x.buffer.clone(), env.clone()),
            },
            _ => {
                return Ok(());
            },
        };
        let trimmed = crate::text::trim_str(text.as_str());
        if trimmed.as_str().is_empty() {
            return Ok(());
        }
        if kind == 0 {
            proof {
                reveal_strlit("");
            }
            self.mode = Mode::AddEnv { item_id, step: AddEnvStep::Value(InputState::new("")), env: trimmed };
            return Ok(());
        }
        self.push_undo();
        let level = crate::store::infer_sensitivity_level(&self.store, item_id.as_str());
        let stored = match crate::commands::stored_form(text.as_str(), level, self.key_ref()) {
            Ok(s) => s,
            Err(f) => {
                return Err(CommandError { fault: f, subject: item_id });
            },
        };
        let ghost sv = stored@;
        if self.store.contains(item_id.as_str()) {
            let mut item = self.store.item_or_empty(item_id.as_str());
            add_env_value(&mut item, env.as_str(), stored, &self.store.meta);
            self.store.put(item_id.as_str(), item);
        }
        self.needs_save = true;
        self.rebuild_rows();
        let a = concat("Added ", env.as_str());
        let b = concat(a.as_str(), " to ");
        self.status_message = Some(concat(b.as_str(), item_id.as_str()));
        self.mode = Mode::Browse;
        assert(crate::commands::stores(sv, text@, level, app_key(old(self).key)));
        Ok(())
    }
}

/// The set with `x` removed if present, else added.
pub open spec fn toggled(s: Set<Seq<char>>, x: Seq<char>) -> Set<Seq<char>> {
    if s.contains(x) {
        s.remove(x)
    } else {
        s.insert(x)
    }
}

/// Toggling reveal twice on the same item gives back the revealed set.
pub proof fn law_toggle_twice(s: Set<Seq<char>>, x: Seq<char>)
    ensures
        toggled(toggled(s, x), x) == s,
{
    if s.contains(x) {
        assert(toggled(toggled(s, x), x) =~= s);
    } else {
        assert(toggled(toggled(s, x), x) =~= s);
    }
}

/// Expanding an item that was collapsed and collapsing it again gives back
/// the expanded set.
pub proof fn law_expand_collapse(s: Set<Seq<char>>, x: Seq<char>)
    requires
        !s.contains(x),
    ensures
        s.insert(x).remove(x) == s,
{
    assert(s.insert(x).remove(x) =~= s);
}

/// What `App::confirm_edit_value` does, from state `a` to state `b` with result `r`.
pub open spec fn confirm_edit_value_post(a: App, b: App, r: Result<(), CommandError>) -> bool {
    &&& !(a.mode is EditValue) ==> b == a && r is Ok
    &&& a.mode matches Mode::EditValue { item_id, env, input } ==> ({
                    let level = edit_level(a.store@, item_id@, env@);
                    let fault = crate::commands::store_fault(input.buffer@, level, app_key(a.key));
                    &&& recorded(a, b)
                    &&& r is Err <==> fault is Some
                    &&& r matches Err(e) ==> Some(e.fault) == fault && b.store == a.store
                        && b.mode == a.mode
                    &&& r is Ok ==> b.needs_save && b.mode is Browse && row_views(
                        b.visible_rows@,
                    ) == b.rows_spec() && opt_view(b.status_message) == Some(
                        "Updated "@ + env@ + " for "@ + item_id@,
                    ) && exists|stored: Seq<char>|
                        crate::commands::stores(stored, input.buffer@, level, app_key(a.key))
                            && b.store@ == (if a.store@.items.contains_key(item_id@) {
                            a.store@.with_items(
                                a.store@.items.insert(item_id@, a.store@.items[item_id@].set(env@, stored)),
                            )
                        } else {
                            a.store@
                        })
                })
}

/// Editing a value of an item with no declared sensitivity keeps the level of
/// the encrypted value it replaces: the new value is stored encrypted at that
/// level, and a plaintext value is replaced by the text as typed. An item
/// declared Sensitive or Secret stores it at the declared level.
pub proof fn law_edit_keeps_level(a: App, b: App, r: Result<(), CommandError>)
    requires
        confirm_edit_value_post(a, b, r),
        r is Ok,
        a.mode is EditValue,
    ensures
        ({
            let id = a.mode->EditValue_item_id@;
            let env = a.mode->EditValue_env@;
            let s = a.store@;
            s.items.contains_key(id) ==> {
                let item = s.items[id];
                &&& b.store@.items.contains_key(id)
                &&& b.store@.items[id].values.contains_key(env)
                &&& (item.sensitivity is None && item.values.contains_key(env) && spec_parse_sensitivity(
                    item.values[env],
                ) is Some) ==> spec_parse_sensitivity(b.store@.items[id].values[env]) == spec_parse_sensitivity(
                    item.values[env],
                )
                &&& (item.sensitivity is None && !(item.values.contains_key(env) && spec_parse_sensitivity(
                    item.values[env],
                ) is Some)) ==> b.store@.items[id].values[env] == a.mode->EditValue_input.buffer@
                &&& (item.sensitivity == Some(Sensitivity::Secret)) ==> spec_parse_sensitivity(
                    b.store@.items[id].values[env],
                ) == Some(SensitivityLevel::Secret)
                &&& (item.sensitivity == Some(Sensitivity::Sensitive)) ==> spec_parse_sensitivity(
                    b.store@.items[id].values[env],
                ) == Some(SensitivityLevel::Sensitive)
            }
        }),
{
    match a.mode {
        Mode::EditValue { item_id, env, input } => {
            let level = edit_level(a.store@, item_id@, env@);
            let stored = choose|stored: Seq<char>|
                crate::commands::stores(stored, input.buffer@, level, app_key(a.key)) && b.store@ == (
                if a.store@.items.contains_key(item_id@) {
                    a.store@.with_items(
                        a.store@.items.insert(item_id@, a.store@.items[item_id@].set(env@, stored)),
                    )
                } else {
                    a.store@
                });
            if a.store@.items.contains_key(item_id@) {
                assert(b.store@.items[item_id@].values == a.store@.items[item_id@].values.insert(env@, stored));
            }
        },
        _ => {},
    }
}

/// What `App::confirm_edit_metadata` does, from state `a` to state `b`.
pub open spec fn confirm_edit_metadata_post(a: App, b: App) -> bool {
    &&& !(a.mode is EditMetadata) ==> b == a
    &&& a.mode matches Mode::EditMetadata { item_id, fields, .. } ==> recorded(a, b)
                    && b.needs_save && b.mode is Browse && b.store@ == (
                if a.store@.items.contains_key(item_id@) {
                    a.store@.with_items(
                        a.store@.items.insert(item_id@, edited_item(a.store@.items[item_id@], fields)),
                    )
                } else {
                    a.store@
                }) && opt_view(b.status_message) == Some("Updated metadata for "@ + item_id@)
                    && b.visible_rows == a.visible_rows && b.selected == a.selected
                    && b.expanded == a.expanded && b.revealed == a.revealed
}

/// What `App::confirm_clone` does, from state `a` to state `b`.
pub open spec fn confirm_clone_post(a: App, b: App) -> bool {
    &&& !(a.mode is Clone) ==> b == a
    &&& a.mode matches Mode::Clone { item_id, source_env, input } ==> ({
                    let target = crate::text::trim(input.buffer@);
                    let s = a.store@;
                    &&& target.len() == 0 ==> b == a
                    &&& (target.len() > 0 && !(s.items.contains_key(item_id@) && s.items[item_id@].values.contains_key(
                        source_env@,
                    ))) ==> b.mode is Browse && b.store == a.store
                        && b.undo_stack == a.undo_stack && b.redo_stack == a.redo_stack && b.needs_save == a.needs_save
                    &&& (target.len() > 0 && s.items.contains_key(item_id@) && s.items[item_id@].values.contains_key(
                        source_env@,
                    )) ==> recorded(a, b) && b.needs_save && b.mode is Browse
                        && b.store@ == s.with_items(
                        s.items.insert(
                            item_id@,
                            item_with_value(
                                s.items[item_id@],
                                target,
                                s.items[item_id@].values[source_env@],
                                s.default_environments,
                            ),
                        ),
                    ) && row_views(b.visible_rows@) == b.rows_spec() && opt_view(
                        b.status_message,
                    ) == Some("Cloned "@ + source_env@ + " → "@ + target + " for "@ + item_id@)
                })
}

/// What `App::confirm_clone_item` does, from state `a` to state `b`.
pub open spec fn confirm_clone_item_post(a: App, b: App) -> bool {
    &&& !(a.mode is CloneItem) ==> b == a
    &&& a.mode matches Mode::CloneItem { source_id, input } ==> ({
                    let new_id = crate::text::trim(input.buffer@);
                    let s = a.store@;
                    &&& new_id.len() == 0 ==> b == a
                    &&& (new_id.len() > 0 && !s.items.contains_key(source_id@)) ==> b.mode is Browse
                        && b.store == a.store && b.undo_stack == a.undo_stack && b.redo_stack == a.redo_stack
                    &&& (new_id.len() > 0 && s.items.contains_key(source_id@)) ==> recorded(a, b)
                        && b.needs_save && b.mode is Browse && b.store@ == s.with_items(
                        s.items.insert(new_id, s.items[source_id@]),
                    ) && b.expanded@ == a.expanded@.insert(new_id) && row_views(
                        b.visible_rows@,
                    ) == b.rows_spec() && opt_view(b.status_message) == Some(
                        "Cloned "@ + source_id@ + " → "@ + new_id,
                    )
                })
}

/// What `App::advance_add` does, from state `a` to state `b` with result `r`.
pub open spec fn advance_add_post(a: App, b: App, r: Result<(), CommandError>) -> bool {
    &&& add_view(a.mode) is None ==> b == a && r is Ok
    &&& add_view(a.mode) matches Some(v) ==> ({
                    let (k, t, ix, id, env, sens, val, d, o) = v;
                    let blank = crate::text::trim(t).len() == 0;
                    let unchanged = b == a;
                    let moved = r is Ok && add_cursor_at_end(b.mode) && b.same_data(a)
                        && b.visible_rows == a.visible_rows && b.selected == a.selected
                        && b.expanded == a.expanded;
                    &&& k == 0 ==> (if blank {
                        unchanged && r is Ok
                    } else {
                        moved && add_view(b.mode) == Some(
                            (
                                1int,
                                first_default(a.store@.default_environments),
                                0int,
                                crate::text::trim(t),
                                env,
                                sens,
                                val,
                                d,
                                o,
                            ),
                        )
                    })
                    &&& k == 1 ==> (if blank {
                        unchanged && r is Ok
                    } else {
                        moved && add_view(b.mode) == Some(
                            (2int, Seq::<char>::empty(), 0int, id, crate::text::trim(t), sens, val, d, o),
                        )
                    })
                    &&& k == 2 ==> moved && add_view(b.mode) == Some(
                        (3int, Seq::<char>::empty(), 0int, id, env, ix, val, d, o),
                    )
                    &&& k == 3 ==> (if blank {
                        unchanged && r is Ok
                    } else {
                        moved && add_view(b.mode) == Some(
                            (4int, Seq::<char>::empty(), 0int, id, env, sens, t, d, o),
                        )
                    })
                    &&& k == 4 ==> moved && add_view(b.mode) == Some(
                        (5int, Seq::<char>::empty(), 0int, id, env, sens, val, t, o),
                    )
                    &&& k == 5 ==> moved && add_view(b.mode) == Some(
                        (6int, Seq::<char>::empty(), 0int, id, env, sens, val, d, t),
                    )
                })
    &&& add_view(a.mode) matches Some(v) ==> (v.0 == 6 ==> ({
                    let (k, t, ix, id, env, sens, val, d, o) = v;
                    let level = crate::commands::selected_level(sens);
                    let fault = crate::commands::store_fault(val, level, app_key(a.key));
                    let s = a.store@;
                    &&& recorded(a, b)
                    &&& r is Err <==> fault is Some
                    &&& r matches Err(e) ==> Some(e.fault) == fault && b.store@ == s.with_items(
                        s.items.insert(id, s.item_or_empty(id)),
                    ) && b.store.meta == a.store.meta && b.mode == a.mode
                    &&& r is Ok ==> b.filter == a.filter && b.selected == clamped(
                        a.selected as int,
                        b.visible_rows@.len() as int,
                    ) && b.revealed == a.revealed
                    &&& r is Ok ==> b.needs_save && b.mode is Browse && row_views(
                        b.visible_rows@,
                    ) == b.rows_spec() && b.expanded@ == a.expanded@.insert(id)
                        && opt_view(b.status_message) == Some("Added "@ + id + " ("@ + env + ")"@)
                        && exists|stored: Seq<char>|
                        crate::commands::stores(stored, val, level, app_key(a.key)) && b.store@
                            == s.with_items(
                            s.items.insert(
                                id,
                                added_item(s.item_or_empty(id), env, stored, d, o, t, sens, s.default_environments),
                            ),
                        )
                }))
}

/// What `App::advance_add_env` does, from state `a` to state `b` with result `r`.
pub open spec fn advance_add_env_post(a: App, b: App, r: Result<(), CommandError>) -> bool {
    &&& add_env_view(a.mode) is None ==> b == a && r is Ok
    &&& add_env_view(a.mode) matches Some(v) ==> ({
                    let (id, k, t, env) = v;
                    let blank = crate::text::trim(t).len() == 0;
                    let level = crate::store::spec_infer_level(a.store.items@, id);
                    let fault = crate::commands::store_fault(t, level, app_key(a.key));
                    let s = a.store@;
                    &&& blank ==> b == a && r is Ok
                    &&& (k == 0 && !blank) ==> r is Ok && b.same_data(a) && add_env_view(b.mode)
                        == Some((id, 1int, Seq::<char>::empty(), crate::text::trim(t)))
                        && b.visible_rows == a.visible_rows && b.selected == a.selected
                    &&& (k == 1 && !blank) ==> recorded(a, b) && (r is Err <==> fault is Some)
                    &&& (k == 1 && !blank) ==> (r matches Err(e) ==> Some(e.fault) == fault && b.store
                        == a.store && b.mode == a.mode)
                    &&& (k == 1 && !blank) ==> (r is Ok ==> b.needs_save && b.mode is Browse
                        && row_views(b.visible_rows@) == b.rows_spec() && opt_view(
                        b.status_message,
                    ) == Some("Added "@ + env + " to "@ + id) && exists|stored: Seq<char>|
                        crate::commands::stores(stored, t, level, app_key(a.key)) && b.store@ == (
                        if s.items.contains_key(id) {
                            s.with_items(
                                s.items.insert(id, item_with_value(s.items[id], env, stored, s.default_environments)),
                            )
                        } else {
                            s
                        }))
                })
}

/// What `App::initiate_edit` does, from state `a` to state `b`.
pub open spec fn initiate_edit_post(a: App, b: App) -> bool {
    &&& b.same_data(a)
    &&& b.visible_rows == a.visible_rows
    &&& b.selected == a.selected
    &&& a.selected_row_view() matches Some(rv) ==> (rv.0 == 0 && a.store@.items.contains_key(rv.1)
                    ==> b.mode is EditMetadata)
    &&& a.selected_row_view() matches Some(rv) ==> (rv.0 == 1 ==> edits_value(
                    b.mode,
                    rv.1,
                    rv.2,
                    edit_prefill(a.store@, rv.1, rv.2, app_key(a.key)),
                ))
    &&& a.selected_row_view() matches Some(rv) ==> (rv.0 == 2 ==> edits_value(
                    b.mode,
                    rv.1,
                    rv.2,
                    Seq::empty(),
                ))
    &&& a.selected_row_view() is None ==> b.mode == a.mode
}

/// What `App::initiate_add` does, from state `a` to state `b`.
pub open spec fn initiate_add_post(a: App, b: App) -> bool {
    &&& a.selected_row_view() matches Some(rv) ==> (rv.0 == 1 || rv.0 == 2 ==> (b.mode matches Mode::AddEnv {
        step: AddEnvStep::Env(x),
        ..
    } && x.pos() == x.buffer@.len()))
    &&& !(a.selected_row_view() matches Some(rv) && (rv.0 == 1 || rv.0 == 2)) ==> add_cursor_at_end(b.mode)
    &&& b.same_data(a)
    &&& b.visible_rows == a.visible_rows
    &&& b.selected == a.selected
    &&& a.selected_row_view() matches Some(rv) ==> (rv.0 == 1 || rv.0 == 2 ==> add_env_view(b.mode)
                    == Some((rv.1, 0int, add_env_prefill(a.store@, rv.1), Seq::<char>::empty())))
    &&& !(a.selected_row_view() matches Some(rv) && (rv.0 == 1 || rv.0 == 2)) ==> add_view(b.mode)
                    == Some(
                    (
                        0int,
                        Seq::<char>::empty(),
                        0int,
                        Seq::<char>::empty(),
                        Seq::<char>::empty(),
                        0int,
                        Seq::<char>::empty(),
                        Seq::<char>::empty(),
                        Seq::<char>::empty(),
                    ),
                )
}

/// What `App::initiate_clone` does, from state `a` to state `b`.
pub open spec fn initiate_clone_post(a: App, b: App) -> bool {
    &&& b.same_data(a)
    &&& b.visible_rows == a.visible_rows
    &&& b.selected == a.selected
    &&& a.selected_row_view() matches Some(rv) ==> (rv.0 == 1 ==> (b.mode matches Mode::Clone {
                    item_id,
                    source_env,
                    input,
                } && item_id@ == rv.1 && source_env@ == rv.2 && input.buffer@.len() == 0 && input.pos() == 0))
    &&& a.selected_row_view() matches Some(rv) ==> (rv.0 == 0 ==> (b.mode matches Mode::CloneItem {
                    source_id,
                    input,
                } && source_id@ == rv.1 && input.buffer@.len() == 0 && input.pos() == 0))
    &&& !(a.selected_row_view() matches Some(rv) && (rv.0 == 0 || rv.0 == 1)) ==> b.mode
                    == a.mode
}

/// What `App::initiate_edit_value_any` does, from state `a` to state `b`.
pub open spec fn initiate_edit_value_any_post(a: App, b: App) -> bool {
    &&& b.same_data(a)
    &&& b.visible_rows == a.visible_rows
    &&& b.selected == a.selected
    &&& b.expanded == a.expanded
    &&& b.revealed == a.revealed
    &&& a.selected_row_view() matches Some(rv) ==> (rv.0 == 1 ==> edits_value(
                    b.mode,
                    rv.1,
                    rv.2,
                    edit_prefill(a.store@, rv.1, rv.2, app_key(a.key)),
                ))
    &&& a.selected_row_view() matches Some(rv) ==> (rv.0 == 2 ==> edits_value(
                    b.mode,
                    rv.1,
                    rv.2,
                    Seq::empty(),
                ))
    &&& !(a.selected_row_view() matches Some(rv) && (rv.0 == 1 || rv.0 == 2)) ==> b.mode
                    == a.mode
}

} // verus!
