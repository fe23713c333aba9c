//! A navigable collection of notes: which screen is active, what each screen
//! offers, and how each user choice (or cancellation) moves the machine on
//! and mutates the collection.

use vstd::prelude::*;

use crate::note::{
    clone_note, clone_notes, lemma_notes_model, model_label, models_wf, notes_model, LongNote,
    Note, NoteModel,
};

verus! {

/// Which screen of a view is active. `Update(i)` carries the position of the
/// note being edited.
#[derive(Clone, Copy, PartialEq, Eq, Structural, Debug)]
pub enum ViewState {
    Add,
    View,
    Tree,
    Main,
    Remove,
    Exit,
    Update(usize),
}

impl ViewState {
    /// The menu text under which this screen is offered from the main menu;
    /// `Update` is never offered and has none.
    pub fn render(&self) -> (r: Option<String>)
        ensures
            match *self {
                ViewState::Add => r matches Some(s) && s@ == "Add note"@,
                ViewState::Remove => r matches Some(s) && s@ == "Delete note"@,
                ViewState::View => r matches Some(s) && s@ == "View notes"@,
                ViewState::Main => r matches Some(s) && s@ == "Goto main menu"@,
                ViewState::Exit => r matches Some(s) && s@ == "Exit"@,
                ViewState::Tree => r matches Some(s) && s@ == "View note tree"@,
                ViewState::Update(_) => r is None,
            },
    {
        match self {
            ViewState::Add => Some(String::from_str("Add note")),
            ViewState::Remove => Some(String::from_str("Delete note")),
            ViewState::View => Some(String::from_str("View notes")),
            ViewState::Main => Some(String::from_str("Goto main menu")),
            ViewState::Exit => Some(String::from_str("Exit")),
            ViewState::Tree => Some(String::from_str("View note tree")),
            ViewState::Update(_) => None,
        }
    }
}

/// A named, ordered collection of notes together with the active screen:
/// the root collection, or a transient sub-view over a long note's
/// sub-notes.
#[derive(Debug)]
pub struct NoteView {
    pub name: String,
    pub notes: Vec<Note>,
    pub state: ViewState,
}

/// Mathematical image of a `NoteView`.
#[verifier::ext_equal]
pub struct ViewModel {
    pub name: Seq<char>,
    pub notes: Seq<NoteModel>,
    pub state: ViewState,
}

impl NoteView {
    pub open spec fn model(self) -> ViewModel {
        ViewModel { name: self.name@, notes: notes_model(self.notes@), state: self.state }
    }

    /// Every note is well-formed, and an `Update` screen always points at a
    /// live position of the collection.
    pub open spec fn wf(self) -> bool {
        models_wf(self.model().notes) && (self.state matches ViewState::Update(i)
            ==> i < self.model().notes.len())
    }

    /// A fresh, empty view showing the main menu.
    pub fn new(name: String) -> (r: NoteView)
        ensures
            r.model() == (ViewModel { name: name@, notes: Seq::empty(), state: ViewState::Main }),
            r.wf(),
    {
        let r = NoteView { name, notes: Vec::new(), state: ViewState::Main };
        proof {
            assert(r.model().notes =~= Seq::<NoteModel>::empty());
        }
        r
    }

    /// A view over an existing collection, showing the main menu.
    pub fn new_from_vec(name: &str, notes: Vec<Note>) -> (r: NoteView)
        ensures
            r.model() == (ViewModel {
                name: name@,
                notes: notes_model(notes@),
                state: ViewState::Main,
            }),
            models_wf(notes_model(notes@)) ==> r.wf(),
    {
        NoteView { name: String::from_str(name), notes, state: ViewState::Main }
    }

    /// A copy of the collection, handed back when a sub-view session ends.
    pub fn get_notes(&self) -> (r: Vec<Note>)
        ensures
            notes_model(r@) == self.model().notes,
    {
        clone_notes(&self.notes)
    }

    /// The labels of the notes, in order: the list the View and Remove
    /// screens offer.
    pub fn note_labels(&self) -> (r: Vec<String>)
        ensures
            r@.len() == self.model().notes.len(),
            forall|i: int|
                0 <= i < r@.len() ==> (#[trigger] r@[i])@ == model_label(self.model().notes[i]),
    {
        proof {
            lemma_notes_model(self.notes@);
        }
        let mut r: Vec<String> = Vec::new();
        let mut i: usize = 0;
        while i < self.notes.len()
            invariant
                i <= self.notes@.len(),
                r@.len() == i,
                forall|k: int|
                    0 <= k < i ==> (#[trigger] r@[k])@ == model_label(notes_model(self.notes@)[k]),
                forall|k: int|
                    0 <= k < self.notes@.len() ==> #[trigger] notes_model(self.notes@)[k]
                        == self.notes@[k].model(),
                notes_model(self.notes@).len() == self.notes@.len(),
            decreases self.notes@.len() - i,
        {
            r.push(self.notes[i].render());
            i += 1;
        }
        r
    }

    /// The position the user's chosen label names: the first note whose
    /// label equals it, as the original list screens resolve a choice.
    pub fn position_of_label(labels: &Vec<String>, chosen: &String) -> (r: Option<usize>)
        ensures
            match r {
                Some(i) => i < labels@.len() && labels@[i as int]@ == chosen@ && (forall|k: int|
                    0 <= k < i ==> (#[trigger] labels@[k])@ != chosen@),
                None => forall|k: int| 0 <= k < labels@.len() ==> (#[trigger] labels@[k])@ != chosen@,
            },
    {
        let mut i: usize = 0;
        while i < labels.len()
            invariant
                i <= labels@.len(),
                forall|k: int| 0 <= k < i ==> (#[trigger] labels@[k])@ != chosen@,
            decreases labels@.len() - i,
        {
            if labels[i].eq(chosen) {
                return Some(i);
            }
            i += 1;
        }
        None
    }

    /// The actions the main menu offers: View and Tree only over a non-empty
    /// collection, then Add, Remove and Exit, in display order.
    pub fn main_options(&self) -> (r: Vec<ViewState>)
        ensures
            self.model().notes.len() > 0 ==> r@ == seq![
                ViewState::View,
                ViewState::Tree,
                ViewState::Add,
                ViewState::Remove,
                ViewState::Exit,
            ],
            self.model().notes.len() == 0 ==> r@ == seq![
                ViewState::Add,
                ViewState::Remove,
                ViewState::Exit,
            ],
    {
        proof {
            lemma_notes_model(self.notes@);
        }
        let mut r: Vec<ViewState> = Vec::new();
        if self.notes.len() > 0 {
            r.push(ViewState::View);
            r.push(ViewState::Tree);
        }
        r.push(ViewState::Add);
        r.push(ViewState::Remove);
        r.push(ViewState::Exit);
        proof {
            if self.model().notes.len() > 0 {
                assert(r@ =~= seq![
                    ViewState::View,
                    ViewState::Tree,
                    ViewState::Add,
                    ViewState::Remove,
                    ViewState::Exit,
                ]);
            } else {
                assert(r@ =~= seq![ViewState::Add, ViewState::Remove, ViewState::Exit]);
            }
        }
        r
    }

    /// Takes the main menu's outcome: a chosen action becomes the active
    /// screen; cancellation leaves the view at the main menu, unchanged.
    pub fn apply_main_choice(&mut self, choice: Option<ViewState>)
        requires
            old(self).wf(),
            old(self).state is Main,
            choice matches Some(c) ==> !(c is Update),
        ensures
            final (self).wf(),
            final (self).model() == (ViewModel {
                state: match choice {
                    Some(c) => c,
                    None => ViewState::Main,
                },
                ..old(self).model()
            }),
    {
        match choice {
            Some(c) => self.state = c,
            None => self.state = ViewState::Main,
        }
    }

    /// Takes the Add screen's outcome: a completed note is appended, a
    /// cancelled creation changes nothing; either way back to the main menu.
    pub fn apply_add(&mut self, outcome: Option<Note>)
        requires
            old(self).wf(),
            old(self).state is Add,
            outcome matches Some(n) ==> n.wf(),
        ensures
            final (self).wf(),
            final (self).model() == (ViewModel {
                notes: match outcome {
                    Some(n) => old(self).model().notes.push(n.model()),
                    None => old(self).model().notes,
                },
                state: ViewState::Main,
                ..old(self).model()
            }),
    {
        match outcome {
            Some(n) => {
                self.notes.push(n);
                proof {
                    crate::note::lemma_notes_model_push(old(self).notes@, n);
                    crate::note::lemma_models_wf(notes_model(self.notes@));
                    crate::note::lemma_models_wf(notes_model(old(self).notes@));
                    lemma_notes_model(self.notes@);
                }
            },
            None => {},
        }
        self.state = ViewState::Main;
    }

    /// Takes the View screen's outcome: a chosen position opens the Update
    /// screen for that note; cancellation returns to the main menu.
    pub fn apply_view_choice(&mut self, choice: Option<usize>)
        requires
            old(self).wf(),
            old(self).state is View,
            choice matches Some(i) ==> i < old(self).model().notes.len(),
        ensures
            final (self).wf(),
            final (self).model() == (ViewModel {
                state: match choice {
                    Some(i) => ViewState::Update(i),
                    None => ViewState::Main,
                },
                ..old(self).model()
            }),
    {
        match choice {
            Some(i) => self.state = ViewState::Update(i),
            None => self.state = ViewState::Main,
        }
    }

    /// Takes the Remove screen's outcome: a chosen position is removed from
    /// the collection; cancellation changes nothing; either way back to the
    /// main menu.
    pub fn apply_remove(&mut self, choice: Option<usize>)
        requires
            old(self).wf(),
            old(self).state is Remove,
            choice matches Some(i) ==> i < old(self).model().notes.len(),
        ensures
            final (self).wf(),
            final (self).model() == (ViewModel {
                notes: match choice {
                    Some(i) => old(self).model().notes.remove(i as int),
                    None => old(self).model().notes,
                },
                state: ViewState::Main,
                ..old(self).model()
            }),
    {
        match choice {
            Some(i) => {
                proof {
                    lemma_notes_model(self.notes@);
                }
                self.notes.remove(i);
                proof {
                    crate::note::lemma_notes_model_remove(old(self).notes@, i as int);
                    crate::note::lemma_models_wf(notes_model(self.notes@));
                    crate::note::lemma_models_wf(notes_model(old(self).notes@));
                    lemma_notes_model(self.notes@);
                }
            },
            None => {},
        }
        self.state = ViewState::Main;
    }

    /// A copy of the note at position `i`, for the Update screen to edit.
    pub fn note_at(&self, i: usize) -> (r: Note)
        requires
            i < self.model().notes.len(),
        ensures
            r.model() == self.model().notes[i as int],
    {
        proof {
            lemma_notes_model(self.notes@);
        }
        clone_note(&self.notes[i])
    }

    /// Ends the Update screen: stores the edited note back at its position
    /// and returns to the main menu. Update-level cancellation is the
    /// caller's to swallow: it simply stores the unchanged note.
    pub fn apply_update(&mut self, i: usize, note: Note)
        requires
            old(self).wf(),
            old(self).state == ViewState::Update(i),
            note.wf(),
        ensures
            final (self).wf(),
            final (self).model() == (ViewModel {
                notes: old(self).model().notes.update(i as int, note.model()),
                state: ViewState::Main,
                ..old(self).model()
            }),
    {
        proof {
            lemma_notes_model(self.notes@);
        }
        self.notes.set(i, note);
        proof {
            crate::note::lemma_notes_model_update(old(self).notes@, i as int, note);
            crate::note::lemma_models_wf(notes_model(self.notes@));
            crate::note::lemma_models_wf(notes_model(old(self).notes@));
            lemma_notes_model(self.notes@);
        }
        self.state = ViewState::Main;
    }

    /// The transient view a long note's sub-note session runs in: named
    /// after the note, holding a copy of its sub-notes (empty when none),
    /// starting at the main menu.
    pub fn sub_view(parent: &LongNote) -> (r: NoteView)
        ensures
            r.model() == (ViewModel {
                name: parent.title@,
                notes: match parent.model().sub_notes {
                    Some(s) => s,
                    None => Seq::empty(),
                },
                state: ViewState::Main,
            }),
            parent.wf() ==> r.wf(),
    {
        let r = NoteView {
            name: parent.title.clone(),
            notes: parent.sub_notes_clone(),
            state: ViewState::Main,
        };
        proof {
            if parent.wf() {
                match parent.model().sub_notes {
                    Some(_) => {},
                    None => {
                        assert(r.model().notes =~= Seq::<NoteModel>::empty());
                    },
                }
            }
        }
        r
    }

    /// Returns to the main menu without touching the collection.
    pub fn to_menu(&mut self)
        requires
            old(self).wf(),
        ensures
            final (self).wf(),
            final (self).model() == (ViewModel { state: ViewState::Main, ..old(self).model() }),
    {
        self.state = ViewState::Main;
    }
}

} // verus!
