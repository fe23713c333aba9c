use notes::date::Date;
use notes::note::{LongNote, Note, NoteState, ShortNote};
use notes::view::{NoteView, ViewState};

fn d(year: u16, month: u8, day: u8) -> Date {
    Date { year, month, day }
}

fn short(title: &str) -> Note {
    Note::Short(ShortNote::new_no_deadline(String::from(title), d(2026, 10, 12)))
}

#[test]
fn new_view_is_empty_at_main() {
    let v = NoteView::new(String::from("T1"));
    assert_eq!(v.name, "T1");
    assert!(v.notes.is_empty());
    assert_eq!(v.state, ViewState::Main);
}

#[test]
fn new_from_vec_keeps_notes() {
    let v = NoteView::new_from_vec("sub", vec![short("a"), short("b")]);
    assert_eq!(v.name, "sub");
    assert_eq!(v.notes.len(), 2);
    assert_eq!(v.state, ViewState::Main);
}

#[test]
fn main_menu_hides_view_and_tree_when_empty() {
    let empty = NoteView::new(String::from("T"));
    assert_eq!(
        empty.main_options(),
        vec![ViewState::Add, ViewState::Remove, ViewState::Exit]
    );
    let full = NoteView::new_from_vec("T", vec![short("a")]);
    assert_eq!(
        full.main_options(),
        vec![
            ViewState::View,
            ViewState::Tree,
            ViewState::Add,
            ViewState::Remove,
            ViewState::Exit
        ]
    );
}

#[test]
fn view_state_menu_labels() {
    assert_eq!(ViewState::Add.render().as_deref(), Some("Add note"));
    assert_eq!(ViewState::Remove.render().as_deref(), Some("Delete note"));
    assert_eq!(ViewState::View.render().as_deref(), Some("View notes"));
    assert_eq!(ViewState::Main.render().as_deref(), Some("Goto main menu"));
    assert_eq!(ViewState::Exit.render().as_deref(), Some("Exit"));
    assert_eq!(ViewState::Tree.render().as_deref(), Some("View note tree"));
    assert!(ViewState::Update(3).render().is_none());
}

#[test]
fn add_and_remove_change_count_cancellations_do_not() {
    let mut v = NoteView::new(String::from("T"));
    // completed add
    v.apply_main_choice(Some(ViewState::Add));
    v.apply_add(Some(short("a")));
    // cancelled add
    v.apply_main_choice(Some(ViewState::Add));
    v.apply_add(None);
    // completed add
    v.apply_main_choice(Some(ViewState::Add));
    v.apply_add(Some(short("b")));
    assert_eq!(v.notes.len(), 2);
    // cancelled remove
    v.apply_main_choice(Some(ViewState::Remove));
    v.apply_remove(None);
    assert_eq!(v.notes.len(), 2);
    // completed remove: 2 adds - 1 remove = 1
    v.apply_main_choice(Some(ViewState::Remove));
    v.apply_remove(Some(0));
    assert_eq!(v.notes.len(), 1);
    assert_eq!(v.state, ViewState::Main);
    match &v.notes[0] {
        Note::Short(s) => assert_eq!(s.title, "b"),
        _ => panic!("wrong note left"),
    }
}

#[test]
fn cancelled_add_leaves_collection_and_state_unchanged() {
    let mut v = NoteView::new(String::from("T"));
    v.apply_main_choice(Some(ViewState::Add));
    assert_eq!(v.state, ViewState::Add);
    v.apply_add(None);
    assert!(v.notes.is_empty());
    assert_eq!(v.state, ViewState::Main);
}

#[test]
fn cancelled_main_menu_stays_at_main() {
    let mut v = NoteView::new(String::from("T"));
    v.apply_main_choice(None);
    assert_eq!(v.state, ViewState::Main);
    assert!(v.notes.is_empty());
}

#[test]
fn view_choice_opens_update_at_position() {
    let mut v = NoteView::new_from_vec("T", vec![short("a"), short("b")]);
    v.apply_main_choice(Some(ViewState::View));
    v.apply_view_choice(Some(1));
    assert_eq!(v.state, ViewState::Update(1));
    v.to_menu();
    v.apply_main_choice(Some(ViewState::View));
    v.apply_view_choice(None);
    assert_eq!(v.state, ViewState::Main);
}

#[test]
fn labels_and_position_resolution() {
    let v = NoteView::new_from_vec("T", vec![short("a"), short("b"), short("a")]);
    let labels = v.note_labels();
    assert_eq!(labels.len(), 3);
    assert_eq!(labels[0], "Pending: a: 2026-10-12");
    assert_eq!(labels[1], "Pending: b: 2026-10-12");
    // duplicates resolve to the first occurrence, as the screens do
    assert_eq!(
        NoteView::position_of_label(&labels, &labels[2]),
        Some(0)
    );
    assert_eq!(
        NoteView::position_of_label(&labels, &String::from("Pending: b: 2026-10-12")),
        Some(1)
    );
    assert_eq!(
        NoteView::position_of_label(&labels, &String::from("missing")),
        None
    );
}

#[test]
fn update_stores_edited_note_and_returns_to_main() {
    let mut v = NoteView::new_from_vec("T", vec![short("a")]);
    v.apply_main_choice(Some(ViewState::View));
    v.apply_view_choice(Some(0));
    let mut note = v.note_at(0);
    match &mut note {
        Note::Short(s) => s.update_state(NoteState::Started),
        _ => panic!("expected a short note"),
    }
    v.apply_update(0, note);
    assert_eq!(v.state, ViewState::Main);
    match &v.notes[0] {
        Note::Short(s) => assert!(matches!(s.state, NoteState::Started)),
        _ => panic!("expected a short note"),
    }
}

#[test]
fn end_to_end_add_update_tree() {
    let today = d(2026, 10, 12);
    let mut v = NoteView::new(String::from("T1"));
    // Add a short note titled "buy milk" with no due date
    v.apply_main_choice(Some(ViewState::Add));
    v.apply_add(Some(Note::Short(ShortNote::new_no_deadline(
        String::from("buy milk"),
        today,
    ))));
    assert_eq!(v.state, ViewState::Main);
    assert_eq!(v.notes.len(), 1);
    match &v.notes[0] {
        Note::Short(s) => {
            assert_eq!(s.title, "buy milk");
            assert!(s.due_at.is_none());
            assert!(matches!(s.state, NoteState::Pending));
        }
        _ => panic!("expected a short note"),
    }
    // View -> select "buy milk" -> Update
    v.apply_main_choice(Some(ViewState::View));
    let labels = v.note_labels();
    let chosen = labels[0].clone();
    let idx = NoteView::position_of_label(&labels, &chosen);
    assert_eq!(idx, Some(0));
    v.apply_view_choice(idx);
    assert_eq!(v.state, ViewState::Update(0));
    // change state to Started, back to Main
    let mut note = v.note_at(0);
    match &mut note {
        Note::Short(s) => s.update_state(NoteState::Started),
        _ => panic!("expected a short note"),
    }
    v.apply_update(0, note);
    assert_eq!(v.state, ViewState::Main);
    // Tree shows the new label under the root
    let lines = v.tree_lines();
    assert_eq!(lines, vec![
        String::from("T1"),
        String::from("  Started: buy milk: 2026-10-12"),
    ]);
}

#[test]
fn sub_view_session_ending_empty_stores_none() {
    let today = d(2026, 10, 12);
    let mut parent = LongNote::new(String::from("parent"), None, today, None);
    // enter the sub-note editor with zero sub-notes
    let mut sub = NoteView::sub_view(&parent);
    assert_eq!(sub.name, "parent");
    assert!(sub.notes.is_empty());
    assert_eq!(sub.state, ViewState::Main);
    // add one sub-note
    sub.apply_main_choice(Some(ViewState::Add));
    sub.apply_add(Some(short("child")));
    assert_eq!(sub.notes.len(), 1);
    // remove it again
    sub.apply_main_choice(Some(ViewState::Remove));
    sub.apply_remove(Some(0));
    // write back: empty collection must come back as None
    parent.update_sub_notes(sub.get_notes());
    assert!(parent.sub_notes.is_none());
}

#[test]
fn sub_view_carries_existing_sub_notes() {
    let today = d(2026, 10, 12);
    let mut parent = LongNote::new(String::from("parent"), None, today, None);
    parent.update_sub_notes(vec![short("one"), short("two")]);
    let sub = NoteView::sub_view(&parent);
    assert_eq!(sub.notes.len(), 2);
    match &sub.notes[1] {
        Note::Short(s) => assert_eq!(s.title, "two"),
        _ => panic!("expected a short note"),
    }
}

#[test]
fn tree_lines_walk_nested_collections() {
    let today = d(2026, 10, 12);
    let mut inner = LongNote::new(String::from("inner"), None, today, None);
    inner.update_sub_notes(vec![short("leaf")]);
    let mut outer = LongNote::new(String::from("outer"), None, today, None);
    outer.update_sub_notes(vec![Note::Long(inner), short("sibling")]);
    let v = NoteView::new_from_vec("root", vec![Note::Long(outer)]);
    let lines = v.tree_lines();
    assert_eq!(lines, vec![
        String::from("root"),
        String::from("  Pending: outer: 2026-10-12"),
        String::from("    Pending: inner: 2026-10-12"),
        String::from("      Pending: leaf: 2026-10-12"),
        String::from("    Pending: sibling: 2026-10-12"),
    ]);
}

#[test]
fn get_notes_is_a_copy() {
    let v = NoteView::new_from_vec("T", vec![short("a")]);
    let mut copy = v.get_notes();
    match &mut copy[0] {
        Note::Short(s) => s.update_title(String::from("changed")),
        _ => panic!("expected a short note"),
    }
    match &v.notes[0] {
        Note::Short(s) => assert_eq!(s.title, "a"),
        _ => panic!("expected a short note"),
    }
}
