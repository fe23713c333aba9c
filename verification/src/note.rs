//! The two note shapes, their shared lifecycle state, and the operations the
//! screens perform on them: rendering a label, updating fields in place, and
//! normalizing the optional sub-note collection.

use vstd::prelude::*;

use crate::date::{append_date_text, date_text, Date};

verus! {

/// Lifecycle state of a note. Purely descriptive: any state may follow any
/// other.
#[derive(Clone, Copy, PartialEq, Eq, Structural, Debug)]
pub enum NoteState {
    Pending,
    Started,
    Finished,
    Deprioritised,
}

/// The two note shapes a user can choose between when creating a note.
#[derive(Clone, Copy, PartialEq, Eq, Structural, Debug)]
pub enum NoteType {
    Short,
    Long,
}

/// A leaf note: title, creation date, optional due date, lifecycle state.
#[derive(Debug)]
pub struct ShortNote {
    pub title: String,
    pub created_at: Date,
    pub due_at: Option<Date>,
    pub state: NoteState,
}

/// A note with an optional long description and an optional collection of
/// nested sub-notes.
#[derive(Debug)]
pub struct LongNote {
    pub title: String,
    pub description: Option<String>,
    pub created_at: Date,
    pub due_at: Option<Date>,
    pub sub_notes: Option<Vec<Note>>,
    pub state: NoteState,
}

/// The tagged union over the two note shapes; the element type of every note
/// collection.
#[derive(Debug)]
pub enum Note {
    Short(ShortNote),
    Long(LongNote),
}

/// Mathematical image of a `ShortNote`.
#[verifier::ext_equal]
pub struct ShortModel {
    pub title: Seq<char>,
    pub created_at: Date,
    pub due_at: Option<Date>,
    pub state: NoteState,
}

/// Mathematical image of a `LongNote`.
#[verifier::ext_equal]
pub struct LongModel {
    pub title: Seq<char>,
    pub description: Option<Seq<char>>,
    pub created_at: Date,
    pub due_at: Option<Date>,
    pub sub_notes: Option<Seq<NoteModel>>,
    pub state: NoteState,
}

/// Mathematical image of a `Note`.
#[verifier::ext_equal]
pub enum NoteModel {
    Short(ShortModel),
    Long(LongModel),
}

impl ShortModel {
    pub open spec fn wf(self) -> bool {
        self.created_at.wf() && (self.due_at matches Some(d) ==> d.wf())
    }
}

impl LongModel {
    /// Well-formed dates throughout, and the sub-note collection is `None`
    /// exactly when empty: an empty-but-present sequence is never stored.
    pub open spec fn wf(self) -> bool
        decreases self,
    {
        self.created_at.wf() && (self.due_at matches Some(d) ==> d.wf()) && (
        self.sub_notes matches Some(s) ==> s.len() > 0 && models_wf(s))
    }
}

impl NoteModel {
    pub open spec fn wf(self) -> bool
        decreases self,
    {
        match self {
            NoteModel::Short(s) => s.wf(),
            NoteModel::Long(l) => l.wf(),
        }
    }

    /// The nested collection a note presents to the tree walk: its sub-notes
    /// if it is a long note with some, the empty sequence otherwise.
    pub open spec fn children(self) -> Seq<NoteModel> {
        match self {
            NoteModel::Short(_) => Seq::empty(),
            NoteModel::Long(l) => match l.sub_notes {
                Some(s) => s,
                None => Seq::empty(),
            },
        }
    }
}

pub open spec fn models_wf(s: Seq<NoteModel>) -> bool
    decreases s,
{
    if s.len() == 0 {
        true
    } else {
        s[0].wf() && models_wf(s.drop_first())
    }
}

/// A collection of images is well-formed exactly when each member is.
pub proof fn lemma_models_wf(s: Seq<NoteModel>)
    ensures
        models_wf(s) <==> (forall|i: int| 0 <= i < s.len() ==> (#[trigger] s[i]).wf()),
    decreases s,
{
    if s.len() > 0 {
        lemma_models_wf(s.drop_first());
        if models_wf(s) {
            assert forall|i: int| 0 <= i < s.len() implies (#[trigger] s[i]).wf() by {
                if i > 0 {
                    assert(s.drop_first()[i - 1].wf());
                    assert(s.drop_first()[i - 1] == s[i]);
                }
            }
        }
        if forall|i: int| 0 <= i < s.len() ==> (#[trigger] s[i]).wf() {
            assert forall|i: int| 0 <= i < s.drop_first().len() implies (
            #[trigger] s.drop_first()[i]).wf() by {
                assert(s.drop_first()[i] == s[i + 1]);
                assert(s[i + 1].wf());
            }
            assert(models_wf(s.drop_first()));
            assert(s[0].wf());
        }
    }
}

impl ShortNote {
    pub open spec fn model(self) -> ShortModel {
        ShortModel {
            title: self.title@,
            created_at: self.created_at,
            due_at: self.due_at,
            state: self.state,
        }
    }

    pub open spec fn wf(self) -> bool {
        self.model().wf()
    }
}

impl LongNote {
    pub open spec fn model(self) -> LongModel
        decreases self,
    {
        LongModel {
            title: self.title@,
            description: match self.description {
                Some(d) => Some(d@),
                None => None,
            },
            created_at: self.created_at,
            due_at: self.due_at,
            sub_notes: match self.sub_notes {
                Some(v) => Some(notes_model(v@)),
                None => None,
            },
            state: self.state,
        }
    }

    pub open spec fn wf(self) -> bool {
        self.model().wf()
    }
}

impl Note {
    pub open spec fn model(self) -> NoteModel
        decreases self,
    {
        match self {
            Note::Short(s) => NoteModel::Short(s.model()),
            Note::Long(l) => NoteModel::Long(l.model()),
        }
    }

    pub open spec fn wf(self) -> bool {
        self.model().wf()
    }
}

/// The images of a whole collection of notes, in order.
pub open spec fn notes_model(v: Seq<Note>) -> Seq<NoteModel>
    decreases v,
{
    if v.len() == 0 {
        Seq::empty()
    } else {
        seq![v[0].model()] + notes_model(v.drop_first())
    }
}

pub open spec fn notes_wf(v: Seq<Note>) -> bool {
    models_wf(notes_model(v))
}

/// The image of a collection is the pointwise image of its notes, and a
/// collection is well-formed exactly when each of its notes is.
pub proof fn lemma_notes_model(v: Seq<Note>)
    ensures
        notes_model(v).len() == v.len(),
        forall|i: int| 0 <= i < v.len() ==> notes_model(v)[i] == (#[trigger] v[i]).model(),
        notes_wf(v) <==> (forall|i: int| 0 <= i < v.len() ==> (#[trigger] v[i]).wf()),
    decreases v,
{
    if v.len() > 0 {
        lemma_notes_model(v.drop_first());
        assert forall|i: int| 0 <= i < v.len() implies notes_model(v)[i] == (
        #[trigger] v[i]).model() by {
            if i > 0 {
                assert(v.drop_first()[i - 1] == v[i]);
            }
        }
    }
    let m = notes_model(v);
    lemma_models_wf(m);
    if models_wf(m) {
        assert forall|i: int| 0 <= i < v.len() implies (#[trigger] v[i]).wf() by {
            assert(m[i].wf());
            assert(m[i] == v[i].model());
        }
    }
    if forall|i: int| 0 <= i < v.len() ==> (#[trigger] v[i]).wf() {
        assert forall|i: int| 0 <= i < m.len() implies (#[trigger] m[i]).wf() by {
            assert(v[i].wf());
            assert(m[i] == v[i].model());
        }
    }
}

/// Appending a note appends its image.
pub proof fn lemma_notes_model_push(v: Seq<Note>, n: Note)
    ensures
        notes_model(v.push(n)) == notes_model(v).push(n.model()),
{
    lemma_notes_model(v);
    lemma_notes_model(v.push(n));
    assert forall|k: int|
        0 <= k < v.len() + 1 implies notes_model(v.push(n))[k] == notes_model(v).push(
        n.model(),
    )[k] by {
        assert(notes_model(v.push(n))[k] == v.push(n)[k].model());
    }
    assert(notes_model(v.push(n)) =~= notes_model(v).push(n.model()));
}

/// Removing a note removes its image.
pub proof fn lemma_notes_model_remove(v: Seq<Note>, i: int)
    requires
        0 <= i < v.len(),
    ensures
        notes_model(v.remove(i)) == notes_model(v).remove(i),
{
    lemma_notes_model(v);
    lemma_notes_model(v.remove(i));
    assert forall|k: int|
        0 <= k < v.len() - 1 implies notes_model(v.remove(i))[k] == notes_model(v).remove(
        i,
    )[k] by {
        assert(notes_model(v.remove(i))[k] == v.remove(i)[k].model());
        if k < i {
            assert(v.remove(i)[k] == v[k]);
        } else {
            assert(v.remove(i)[k] == v[k + 1]);
        }
    }
    assert(notes_model(v.remove(i)) =~= notes_model(v).remove(i));
}

/// Replacing a note replaces its image.
pub proof fn lemma_notes_model_update(v: Seq<Note>, i: int, n: Note)
    requires
        0 <= i < v.len(),
    ensures
        notes_model(v.update(i, n)) == notes_model(v).update(i, n.model()),
{
    lemma_notes_model(v);
    lemma_notes_model(v.update(i, n));
    assert forall|k: int|
        0 <= k < v.len() implies notes_model(v.update(i, n))[k] == notes_model(v).update(
        i,
        n.model(),
    )[k] by {
        assert(notes_model(v.update(i, n))[k] == v.update(i, n)[k].model());
        if k != i {
            assert(v.update(i, n)[k] == v[k]);
        }
    }
    assert(notes_model(v.update(i, n)) =~= notes_model(v).update(i, n.model()));
}

/// The descriptive text of a lifecycle state.
pub open spec fn state_text(s: NoteState) -> Seq<char> {
    match s {
        NoteState::Pending => "Pending"@,
        NoteState::Started => "Started"@,
        NoteState::Finished => "Finished"@,
        NoteState::Deprioritised => "Deprioritised"@,
    }
}

/// The one-line label of a note: `<state>: <title>: <created>`, with
/// ` due: <due>` appended when a due date exists.
pub open spec fn label_text(
    state: NoteState,
    title: Seq<char>,
    created_at: Date,
    due_at: Option<Date>,
) -> Seq<char> {
    let base = state_text(state) + ": "@ + title + ": "@ + date_text(created_at);
    match due_at {
        Some(d) => base + " due: "@ + date_text(d),
        None => base,
    }
}

/// The label of a note's image.
pub open spec fn model_label(m: NoteModel) -> Seq<char> {
    match m {
        NoteModel::Short(s) => label_text(s.state, s.title, s.created_at, s.due_at),
        NoteModel::Long(l) => label_text(l.state, l.title, l.created_at, l.due_at),
    }
}

impl NoteState {
    /// The plain text shown for this state. The distinct per-state styling is
    /// presentation and is applied by the caller that owns the terminal.
    pub fn render(&self) -> (r: String)
        ensures
            r@ == state_text(*self),
    {
        match self {
            NoteState::Pending => String::from_str("Pending"),
            NoteState::Started => String::from_str("Started"),
            NoteState::Finished => String::from_str("Finished"),
            NoteState::Deprioritised => String::from_str("Deprioritised"),
        }
    }

    /// The states offered by the "update state" menu, in display order.
    pub fn options() -> (r: Vec<NoteState>)
        ensures
            r@ == seq![
                NoteState::Pending,
                NoteState::Started,
                NoteState::Finished,
                NoteState::Deprioritised,
            ],
    {
        let mut r: Vec<NoteState> = Vec::new();
        r.push(NoteState::Pending);
        r.push(NoteState::Started);
        r.push(NoteState::Finished);
        r.push(NoteState::Deprioritised);
        proof {
            assert(r@ =~= seq![
                NoteState::Pending,
                NoteState::Started,
                NoteState::Finished,
                NoteState::Deprioritised,
            ]);
        }
        r
    }
}

impl NoteType {
    /// The menu text of a note shape.
    pub fn render(&self) -> (r: String)
        ensures
            *self is Short ==> r@ == "Shorthand note"@,
            *self is Long ==> r@ == "Detailed note"@,
    {
        match self {
            NoteType::Short => String::from_str("Shorthand note"),
            NoteType::Long => String::from_str("Detailed note"),
        }
    }

    /// The note shapes offered when creating a note, in display order.
    pub fn options() -> (r: Vec<NoteType>)
        ensures
            r@ == seq![NoteType::Short, NoteType::Long],
    {
        let mut r: Vec<NoteType> = Vec::new();
        r.push(NoteType::Short);
        r.push(NoteType::Long);
        proof {
            assert(r@ =~= seq![NoteType::Short, NoteType::Long]);
        }
        r
    }
}

/// Builds the label `<state>: <title>: <created>[ due: <due>]`.
fn render_label(state: NoteState, title: &String, created_at: Date, due_at: Option<Date>) -> (r:
    String)
    ensures
        r@ == label_text(state, title@, created_at, due_at),
{
    let mut out = state.render();
    out.append(": ");
    out.append(title.as_str());
    out.append(": ");
    append_date_text(&mut out, created_at);
    match due_at {
        Some(d) => {
            out.append(" due: ");
            append_date_text(&mut out, d);
        },
        None => {},
    }
    proof {
        assert(out@ =~= label_text(state, title@, created_at, due_at));
    }
    out
}

impl ShortNote {
    /// A fresh note without a due date, `Pending`, created on `created_at`.
    pub fn new_no_deadline(title: String, created_at: Date) -> (r: ShortNote)
        ensures
            r.model() == (ShortModel {
                title: title@,
                created_at,
                due_at: None,
                state: NoteState::Pending,
            }),
    {
        ShortNote { title, created_at, due_at: None, state: NoteState::Pending }
    }

    /// A fresh note with a due date, `Pending`, created on `created_at`.
    pub fn new_with_deadline(title: String, created_at: Date, due_at: Date) -> (r: ShortNote)
        ensures
            r.model() == (ShortModel {
                title: title@,
                created_at,
                due_at: Some(due_at),
                state: NoteState::Pending,
            }),
    {
        ShortNote { title, created_at, due_at: Some(due_at), state: NoteState::Pending }
    }

    /// The note's one-line label. The overdue styling of the due portion is
    /// the caller's, driven by `is_overdue` against the current day.
    pub fn render(&self) -> (r: String)
        ensures
            r@ == label_text(self.state, self.title@, self.created_at, self.due_at),
    {
        render_label(self.state, &self.title, self.created_at, self.due_at)
    }

    /// Whether the due date portion must be flagged: a due date exists and
    /// lies strictly before `today`. Evaluated fresh at every render.
    pub fn is_overdue(&self, today: Date) -> (r: bool)
        ensures
            r == (self.due_at matches Some(d) && d.spec_before(today)),
    {
        match &self.due_at {
            Some(d) => d.before(&today),
            None => false,
        }
    }

    /// Replaces the title; every other field is kept.
    pub fn update_title(&mut self, title: String)
        ensures
            final (self).model() == (ShortModel { title: title@, ..old(self).model() }),
    {
        self.title = title;
    }

    /// Replaces (or clears) the due date; every other field is kept.
    pub fn update_due(&mut self, due_at: Option<Date>)
        ensures
            final (self).model() == (ShortModel { due_at, ..old(self).model() }),
    {
        self.due_at = due_at;
    }

    /// Replaces the lifecycle state; every other field is kept.
    pub fn update_state(&mut self, state: NoteState)
        ensures
            final (self).model() == (ShortModel { state, ..old(self).model() }),
    {
        self.state = state;
    }

    /// A short note never has children in the tree walk.
    pub fn children(&self) -> (r: Vec<Note>)
        ensures
            r@.len() == 0,
    {
        Vec::new()
    }
}

impl LongNote {
    /// A fresh long note: no sub-notes yet, `Pending`, created on
    /// `created_at`.
    pub fn new(
        title: String,
        description: Option<String>,
        created_at: Date,
        due_at: Option<Date>,
    ) -> (r: LongNote)
        ensures
            r.model() == (LongModel {
                title: title@,
                description: match description {
                    Some(d) => Some(d@),
                    None => None,
                },
                created_at,
                due_at,
                sub_notes: None,
                state: NoteState::Pending,
            }),
    {
        LongNote { title, description, created_at, due_at, sub_notes: None, state: NoteState::Pending }
    }

    /// The note's one-line label. The overdue styling of the due portion is
    /// the caller's, driven by `is_overdue` against the current day.
    pub fn render(&self) -> (r: String)
        ensures
            r@ == label_text(self.state, self.title@, self.created_at, self.due_at),
    {
        render_label(self.state, &self.title, self.created_at, self.due_at)
    }

    /// Whether the due date portion must be flagged: a due date exists and
    /// lies strictly before `today`. Evaluated fresh at every render.
    pub fn is_overdue(&self, today: Date) -> (r: bool)
        ensures
            r == (self.due_at matches Some(d) && d.spec_before(today)),
    {
        match &self.due_at {
            Some(d) => d.before(&today),
            None => false,
        }
    }

    /// Replaces the title; every other field is kept.
    pub fn update_title(&mut self, title: String)
        ensures
            final (self).model() == (LongModel { title: title@, ..old(self).model() }),
    {
        self.title = title;
    }

    /// Replaces (or clears) the due date; every other field is kept.
    pub fn update_due(&mut self, due_at: Option<Date>)
        ensures
            final (self).model() == (LongModel { due_at, ..old(self).model() }),
    {
        self.due_at = due_at;
    }

    /// Replaces the lifecycle state; every other field is kept.
    pub fn update_state(&mut self, state: NoteState)
        ensures
            final (self).model() == (LongModel { state, ..old(self).model() }),
    {
        self.state = state;
    }

    /// Replaces the description with the edited text, normalizing an empty
    /// text to no description at all.
    pub fn update_description(&mut self, text: String)
        ensures
            final (self).model() == (LongModel {
                description: if text@.len() == 0 {
                    None
                } else {
                    Some(text@)
                },
                ..old(self).model()
            }),
    {
        if text.as_str().unicode_len() == 0 {
            self.description = None;
        } else {
            self.description = Some(text);
        }
    }

    /// The text an editor session starts from: the current description, or
    /// empty text when there is none.
    pub fn description_prefill(&self) -> (r: String)
        ensures
            r@ == match self.model().description {
                Some(d) => d,
                None => Seq::<char>::empty(),
            },
    {
        match &self.description {
            Some(d) => d.clone(),
            None => {
                let r = String::new();
                proof {
                    assert(r@ =~= Seq::<char>::empty());
                }
                r
            },
        }
    }

    /// The screen shown by "view description": the note's label, and the
    /// description on its own lines when one exists.
    pub fn view_description(&self) -> (r: String)
        ensures
            r@ == match self.model().description {
                Some(d) => label_text(self.state, self.title@, self.created_at, self.due_at)
                    + "\n"@ + d,
                None => label_text(self.state, self.title@, self.created_at, self.due_at),
            },
    {
        let mut out = self.render();
        match &self.description {
            Some(d) => {
                out.append("\n");
                out.append(d.as_str());
            },
            None => {},
        }
        out
    }

    /// Writes the sub-note collection back after a sub-view session,
    /// normalizing an empty collection to `None`.
    pub fn update_sub_notes(&mut self, notes: Vec<Note>)
        ensures
            final (self).model() == (LongModel {
                sub_notes: if notes@.len() == 0 {
                    None
                } else {
                    Some(notes_model(notes@))
                },
                ..old(self).model()
            }),
    {
        if notes.len() == 0 {
            self.sub_notes = None;
        } else {
            self.sub_notes = Some(notes);
        }
    }

    /// A copy of the sub-note collection, empty when there is none: the
    /// collection a transient sub-view starts from.
    pub fn sub_notes_clone(&self) -> (r: Vec<Note>)
        ensures
            notes_model(r@) == match self.model().sub_notes {
                Some(s) => s,
                None => Seq::<NoteModel>::empty(),
            },
    {
        match &self.sub_notes {
            Some(v) => clone_notes(v),
            None => Vec::new(),
        }
    }

    /// The children this note presents to the tree walk.
    pub fn children(&self) -> (r: Vec<Note>)
        ensures
            notes_model(r@) == NoteModel::Long(self.model()).children(),
    {
        self.sub_notes_clone()
    }
}

impl Note {
    /// The note's one-line label. The overdue styling of the due portion is
    /// the caller's, driven by `is_overdue` against the current day.
    pub fn render(&self) -> (r: String)
        ensures
            r@ == model_label(self.model()),
    {
        match self {
            Note::Short(s) => s.render(),
            Note::Long(l) => l.render(),
        }
    }

    /// Whether the due date portion must be flagged against `today`.
    pub fn is_overdue(&self, today: Date) -> (r: bool)
        ensures
            r == match self.model() {
                NoteModel::Short(s) => s.due_at matches Some(d) && d.spec_before(today),
                NoteModel::Long(l) => l.due_at matches Some(d) && d.spec_before(today),
            },
    {
        match self {
            Note::Short(s) => s.is_overdue(today),
            Note::Long(l) => l.is_overdue(today),
        }
    }

    /// The children this note presents to the tree walk.
    pub fn children(&self) -> (r: Vec<Note>)
        ensures
            notes_model(r@) == self.model().children(),
    {
        match self {
            Note::Short(s) => s.children(),
            Note::Long(l) => l.children(),
        }
    }
}

/// The operations the update menu offers on a short note.
#[derive(Clone, Copy, PartialEq, Eq, Structural, Debug)]
pub enum ShortUpdateChoice {
    Title,
    Due,
    State,
}

impl ShortUpdateChoice {
    /// The menu text of this operation.
    pub fn render(&self) -> (r: String)
        ensures
            *self is Title ==> r@ == "Change Title"@,
            *self is Due ==> r@ == "Update or Set Due"@,
            *self is State ==> r@ == "Update State"@,
    {
        match self {
            ShortUpdateChoice::Title => String::from_str("Change Title"),
            ShortUpdateChoice::Due => String::from_str("Update or Set Due"),
            ShortUpdateChoice::State => String::from_str("Update State"),
        }
    }

    /// The operations offered on a short note, in display order.
    pub fn options() -> (r: Vec<ShortUpdateChoice>)
        ensures
            r@ == seq![ShortUpdateChoice::Title, ShortUpdateChoice::Due, ShortUpdateChoice::State],
    {
        let mut r: Vec<ShortUpdateChoice> = Vec::new();
        r.push(ShortUpdateChoice::Title);
        r.push(ShortUpdateChoice::Due);
        r.push(ShortUpdateChoice::State);
        proof {
            assert(r@ =~= seq![
                ShortUpdateChoice::Title,
                ShortUpdateChoice::Due,
                ShortUpdateChoice::State,
            ]);
        }
        r
    }
}

/// The operations the update menu offers on a long note.
#[derive(Clone, Copy, PartialEq, Eq, Structural, Debug)]
pub enum LongUpdateChoice {
    Title,
    ViewDescription,
    SubNotes,
    Description,
    Due,
    State,
}

impl LongUpdateChoice {
    /// The menu text of this operation.
    pub fn render(&self) -> (r: String)
        ensures
            *self is Title ==> r@ == "Change Title"@,
            *self is Due ==> r@ == "Update or Set Due"@,
            *self is State ==> r@ == "Update State"@,
            *self is Description ==> r@ == "Update or Set Description"@,
            *self is ViewDescription ==> r@ == "View Description"@,
            *self is SubNotes ==> r@ == "View and Update sub Notes"@,
    {
        match self {
            LongUpdateChoice::Title => String::from_str("Change Title"),
            LongUpdateChoice::Due => String::from_str("Update or Set Due"),
            LongUpdateChoice::State => String::from_str("Update State"),
            LongUpdateChoice::Description => String::from_str("Update or Set Description"),
            LongUpdateChoice::ViewDescription => String::from_str("View Description"),
            LongUpdateChoice::SubNotes => String::from_str("View and Update sub Notes"),
        }
    }

    /// The operations offered on a long note, in display order.
    pub fn options() -> (r: Vec<LongUpdateChoice>)
        ensures
            r@ == seq![
                LongUpdateChoice::Title,
                LongUpdateChoice::ViewDescription,
                LongUpdateChoice::Description,
                LongUpdateChoice::Due,
                LongUpdateChoice::State,
                LongUpdateChoice::SubNotes,
            ],
    {
        let mut r: Vec<LongUpdateChoice> = Vec::new();
        r.push(LongUpdateChoice::Title);
        r.push(LongUpdateChoice::ViewDescription);
        r.push(LongUpdateChoice::Description);
        r.push(LongUpdateChoice::Due);
        r.push(LongUpdateChoice::State);
        r.push(LongUpdateChoice::SubNotes);
        proof {
            assert(r@ =~= seq![
                LongUpdateChoice::Title,
                LongUpdateChoice::ViewDescription,
                LongUpdateChoice::Description,
                LongUpdateChoice::Due,
                LongUpdateChoice::State,
                LongUpdateChoice::SubNotes,
            ]);
        }
        r
    }
}

/// A structural copy of a note: same image, down to every sub-note.
pub fn clone_note(n: &Note) -> (r: Note)
    ensures
        r.model() == n.model(),
    decreases n,
{
    match n {
        Note::Short(s) => Note::Short(
            ShortNote {
                title: s.title.clone(),
                created_at: s.created_at,
                due_at: s.due_at,
                state: s.state,
            },
        ),
        Note::Long(l) => {
            let sub_notes = match &l.sub_notes {
                Some(v) => Some(clone_notes(v)),
                None => None,
            };
            let r = Note::Long(
                LongNote {
                    title: l.title.clone(),
                    description: match &l.description {
                        Some(d) => Some(d.clone()),
                        None => None,
                    },
                    created_at: l.created_at,
                    due_at: l.due_at,
                    sub_notes,
                    state: l.state,
                },
            );
            proof {
                assert(r.model() =~= n.model());
            }
            r
        },
    }
}

/// A structural copy of a whole collection of notes.
pub fn clone_notes(v: &Vec<Note>) -> (r: Vec<Note>)
    ensures
        notes_model(r@) == notes_model(v@),
    decreases v,
{
    let mut r: Vec<Note> = Vec::new();
    let mut i: usize = 0;
    while i < v.len()
        invariant
            i <= v.len(),
            r@.len() == i,
            forall|k: int| 0 <= k < i ==> (#[trigger] r@[k]).model() == v@[k].model(),
        decreases v.len() - i,
    {
        r.push(clone_note(&v[i]));
        i += 1;
    }
    proof {
        lemma_notes_model(r@);
        lemma_notes_model(v@);
        assert forall|k: int| 0 <= k < r@.len() implies notes_model(r@)[k] == notes_model(v@)[k]
            by {
            assert(r@[k].model() == v@[k].model());
        }
        assert(notes_model(r@) =~= notes_model(v@));
    }
    r
}

} // verus!
