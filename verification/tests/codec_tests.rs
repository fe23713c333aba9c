use notes::date::Date;
use notes::note::{LongNote, Note, NoteState, ShortNote};
use notes::view::{NoteView, ViewState};

fn d(year: u16, month: u8, day: u8) -> Date {
    Date { year, month, day }
}

fn short(title: &str) -> Note {
    Note::Short(ShortNote::new_no_deadline(String::from(title), d(2026, 10, 12)))
}

/// A collection holding both variants, nested two levels deep.
fn nested_view() -> NoteView {
    let today = d(2026, 10, 12);
    let mut inner = LongNote::new(
        String::from("inner"),
        Some(String::from("inner body")),
        today,
        Some(d(2026, 12, 24)),
    );
    inner.update_sub_notes(vec![Note::Short(ShortNote::new_with_deadline(
        String::from("deep leaf"),
        today,
        d(2027, 1, 1),
    ))]);
    let mut outer = LongNote::new(String::from("outer"), None, today, None);
    outer.update_sub_notes(vec![Note::Long(inner), short("middle sibling")]);
    let mut top = NoteView::new_from_vec(
        "my notes",
        vec![Note::Long(outer), short("top level")],
    );
    top.apply_main_choice(Some(ViewState::Tree));
    // leave the view mid-screen on purpose: the screen must not survive a save
    top
}

#[test]
fn encode_of_empty_view_is_exact() {
    let v = NoteView::new(String::from("T"));
    assert_eq!(v.encode(), "1;T0;");
}

#[test]
fn encode_of_one_short_note_is_exact() {
    let v = NoteView::new_from_vec("T", vec![short("a")]);
    assert_eq!(v.encode(), "1;T1;S1;a2026;10;12;0p");
}

#[test]
fn round_trip_preserves_structure_and_resets_screen() {
    let v = nested_view();
    let text = v.encode();
    let w = NoteView::decode(&text).expect("the encoding must parse back");
    assert_eq!(w.state, ViewState::Main);
    assert_eq!(w.name, "my notes");
    assert_eq!(w.notes.len(), 2);
    match &w.notes[0] {
        Note::Long(outer) => {
            assert_eq!(outer.title, "outer");
            assert!(outer.description.is_none());
            assert_eq!(outer.created_at, d(2026, 10, 12));
            let subs = outer.sub_notes.as_ref().expect("outer keeps its sub-notes");
            assert_eq!(subs.len(), 2);
            match &subs[0] {
                Note::Long(inner) => {
                    assert_eq!(inner.title, "inner");
                    assert_eq!(inner.description.as_deref(), Some("inner body"));
                    assert_eq!(inner.due_at, Some(d(2026, 12, 24)));
                    let leaves = inner.sub_notes.as_ref().expect("inner keeps its leaf");
                    assert_eq!(leaves.len(), 1);
                    match &leaves[0] {
                        Note::Short(leaf) => {
                            assert_eq!(leaf.title, "deep leaf");
                            assert_eq!(leaf.due_at, Some(d(2027, 1, 1)));
                            assert!(matches!(leaf.state, NoteState::Pending));
                        }
                        _ => panic!("leaf variant changed"),
                    }
                }
                _ => panic!("inner variant changed"),
            }
        }
        _ => panic!("outer variant changed"),
    }
    match &w.notes[1] {
        Note::Short(s) => assert_eq!(s.title, "top level"),
        _ => panic!("top-level variant changed"),
    }
}

#[test]
fn save_after_load_is_byte_identical() {
    let v = nested_view();
    let text = v.encode();
    let w = NoteView::decode(&text).expect("the encoding must parse back");
    assert_eq!(w.encode(), text);
}

#[test]
fn round_trip_keeps_unicode_titles() {
    let mut n = LongNote::new(
        String::from("emoji \u{1F5D2} and semicolons ;;;"),
        Some(String::from("line one\nline two")),
        d(2026, 10, 12),
        None,
    );
    n.update_sub_notes(vec![short("12;34")]);
    let v = NoteView::new_from_vec("weird \u{00E9};", vec![Note::Long(n)]);
    let w = NoteView::decode(&v.encode()).expect("the encoding must parse back");
    assert_eq!(w.name, "weird \u{00E9};");
    match &w.notes[0] {
        Note::Long(l) => {
            assert_eq!(l.title, "emoji \u{1F5D2} and semicolons ;;;");
            assert_eq!(l.description.as_deref(), Some("line one\nline two"));
            match &l.sub_notes.as_ref().unwrap()[0] {
                Note::Short(s) => assert_eq!(s.title, "12;34"),
                _ => panic!("sub-note variant changed"),
            }
        }
        _ => panic!("variant changed"),
    }
}

#[test]
fn round_trip_keeps_every_state() {
    let today = d(2026, 10, 12);
    let mut a = ShortNote::new_no_deadline(String::from("a"), today);
    a.update_state(NoteState::Started);
    let mut b = ShortNote::new_no_deadline(String::from("b"), today);
    b.update_state(NoteState::Finished);
    let mut c = ShortNote::new_no_deadline(String::from("c"), today);
    c.update_state(NoteState::Deprioritised);
    let v = NoteView::new_from_vec(
        "states",
        vec![Note::Short(a), Note::Short(b), Note::Short(c)],
    );
    let w = NoteView::decode(&v.encode()).unwrap();
    let states: Vec<NoteState> = w
        .notes
        .iter()
        .map(|n| match n {
            Note::Short(s) => s.state,
            Note::Long(l) => l.state,
        })
        .collect();
    assert_eq!(
        states,
        vec![NoteState::Started, NoteState::Finished, NoteState::Deprioritised]
    );
}

#[test]
fn decode_rejects_empty_text() {
    assert!(NoteView::decode("").is_none());
}

#[test]
fn decode_rejects_garbage() {
    assert!(NoteView::decode("hello world").is_none());
    assert!(NoteView::decode("1;").is_none());
    assert!(NoteView::decode(";;;").is_none());
}

#[test]
fn decode_rejects_truncation_and_trailing_text() {
    let v = NoteView::new_from_vec("T", vec![short("a")]);
    let text = v.encode();
    let mut truncated = text.clone();
    truncated.pop();
    assert!(NoteView::decode(&truncated).is_none());
    let mut extended = text.clone();
    extended.push('x');
    assert!(NoteView::decode(&extended).is_none());
}

#[test]
fn decode_rejects_impossible_dates() {
    // month 13 in an otherwise well-shaped note
    assert!(NoteView::decode("1;T1;S1;a2026;13;12;0p").is_none());
    // day 0
    assert!(NoteView::decode("1;T1;S1;a2026;10;0;0p").is_none());
    // five-digit year
    assert!(NoteView::decode("1;T1;S1;a10000;10;12;0p").is_none());
}

#[test]
fn decode_rejects_empty_but_present_sub_collection() {
    // a long note claiming sub-notes with a count of zero
    assert!(NoteView::decode("1;T1;L1;a02026;10;12;010;p").is_none());
}

#[test]
fn encode_of_long_note_is_exact() {
    let mut n = LongNote::new(
        String::from("a"),
        Some(String::from("de")),
        d(2026, 10, 12),
        Some(Date { year: 2027, month: 1, day: 2 }),
    );
    n.update_state(NoteState::Started);
    let v = NoteView::new_from_vec("T", vec![Note::Long(n)]);
    assert_eq!(v.encode(), "1;T1;L1;a12;de2026;10;12;12027;1;2;0s");
}

#[test]
fn decode_rejects_unknown_state_letter() {
    assert!(NoteView::decode("1;T1;S1;a2026;10;12;0x").is_none());
}

#[test]
fn decode_accepts_what_it_must() {
    // the hand-written twin of the exact encoding above
    let w = NoteView::decode("1;T1;S1;a2026;10;12;0p").expect("well-formed text must parse");
    assert_eq!(w.name, "T");
    match &w.notes[0] {
        Note::Short(s) => {
            assert_eq!(s.title, "a");
            assert_eq!(s.created_at, d(2026, 10, 12));
            assert!(s.due_at.is_none());
        }
        _ => panic!("variant changed"),
    }
}
