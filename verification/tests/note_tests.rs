use notes::date::{date_string, today, Date};
use notes::note::{
    LongNote, LongUpdateChoice, Note, NoteState, NoteType, ShortNote, ShortUpdateChoice,
};

fn d(year: u16, month: u8, day: u8) -> Date {
    Date { year, month, day }
}

#[test]
fn date_text_is_padded_iso() {
    assert_eq!(date_string(&d(2026, 10, 12)), "2026-10-12");
    assert_eq!(date_string(&d(50, 1, 2)), "0050-01-02");
    assert_eq!(date_string(&d(999, 11, 30)), "0999-11-30");
}

#[test]
fn date_order_is_lexicographic() {
    assert!(d(2025, 12, 31).before(&d(2026, 1, 1)));
    assert!(d(2026, 9, 30).before(&d(2026, 10, 1)));
    assert!(d(2026, 10, 11).before(&d(2026, 10, 12)));
    assert!(!d(2026, 10, 12).before(&d(2026, 10, 12)));
    assert!(!d(2026, 10, 13).before(&d(2026, 10, 12)));
}

#[test]
fn today_is_well_formed() {
    let t = today();
    assert!(t.month >= 1 && t.month <= 12);
    assert!(t.day >= 1 && t.day <= 31);
    assert!(t.year <= 9999);
}

#[test]
fn state_render_texts() {
    assert_eq!(NoteState::Pending.render(), "Pending");
    assert_eq!(NoteState::Started.render(), "Started");
    assert_eq!(NoteState::Finished.render(), "Finished");
    assert_eq!(NoteState::Deprioritised.render(), "Deprioritised");
}

#[test]
fn state_options_in_order() {
    let opts = NoteState::options();
    assert_eq!(
        opts,
        vec![
            NoteState::Pending,
            NoteState::Started,
            NoteState::Finished,
            NoteState::Deprioritised
        ]
    );
}

#[test]
fn note_type_labels_and_options() {
    assert_eq!(NoteType::Short.render(), "Shorthand note");
    assert_eq!(NoteType::Long.render(), "Detailed note");
    assert_eq!(NoteType::options(), vec![NoteType::Short, NoteType::Long]);
}

#[test]
fn short_update_menu() {
    assert_eq!(ShortUpdateChoice::Title.render(), "Change Title");
    assert_eq!(ShortUpdateChoice::Due.render(), "Update or Set Due");
    assert_eq!(ShortUpdateChoice::State.render(), "Update State");
    assert_eq!(
        ShortUpdateChoice::options(),
        vec![
            ShortUpdateChoice::Title,
            ShortUpdateChoice::Due,
            ShortUpdateChoice::State
        ]
    );
}

#[test]
fn long_update_menu() {
    assert_eq!(LongUpdateChoice::Description.render(), "Update or Set Description");
    assert_eq!(LongUpdateChoice::ViewDescription.render(), "View Description");
    assert_eq!(LongUpdateChoice::SubNotes.render(), "View and Update sub Notes");
    assert_eq!(
        LongUpdateChoice::options(),
        vec![
            LongUpdateChoice::Title,
            LongUpdateChoice::ViewDescription,
            LongUpdateChoice::Description,
            LongUpdateChoice::Due,
            LongUpdateChoice::State,
            LongUpdateChoice::SubNotes
        ]
    );
}

#[test]
fn short_label_without_due() {
    let n = ShortNote::new_no_deadline(String::from("buy milk"), d(2026, 10, 12));
    assert_eq!(n.render(), "Pending: buy milk: 2026-10-12");
}

#[test]
fn short_label_with_due() {
    let n = ShortNote::new_with_deadline(String::from("buy milk"), d(2026, 10, 12), d(2026, 10, 13));
    assert_eq!(
        n.render(),
        "Pending: buy milk: 2026-10-12 due: 2026-10-13"
    );
}

#[test]
fn overdue_flag_yesterday_not_tomorrow() {
    let today = d(2026, 10, 12);
    let yesterday = d(2026, 10, 11);
    let tomorrow = d(2026, 10, 13);
    let late = ShortNote::new_with_deadline(String::from("a"), today, yesterday);
    let fine = ShortNote::new_with_deadline(String::from("a"), today, tomorrow);
    let none = ShortNote::new_no_deadline(String::from("a"), today);
    assert!(late.is_overdue(today));
    assert!(!fine.is_overdue(today));
    assert!(!none.is_overdue(today));
    let long_late = LongNote::new(String::from("b"), None, today, Some(yesterday));
    let long_fine = LongNote::new(String::from("b"), None, today, Some(tomorrow));
    assert!(long_late.is_overdue(today));
    assert!(!long_fine.is_overdue(today));
    assert!(Note::Long(LongNote::new(String::from("c"), None, today, Some(yesterday)))
        .is_overdue(today));
}

#[test]
fn short_updates_mutate_in_place() {
    let mut n = ShortNote::new_no_deadline(String::from("a"), d(2026, 10, 12));
    n.update_title(String::from("b"));
    assert_eq!(n.title, "b");
    n.update_due(Some(d(2026, 11, 1)));
    assert_eq!(n.due_at, Some(d(2026, 11, 1)));
    n.update_due(None);
    assert_eq!(n.due_at, None);
    n.update_state(NoteState::Finished);
    assert!(matches!(n.state, NoteState::Finished));
    assert_eq!(n.created_at, d(2026, 10, 12));
}

#[test]
fn long_description_normalizes_empty_to_none() {
    let mut n = LongNote::new(String::from("a"), Some(String::from("old")), d(2026, 1, 1), None);
    n.update_description(String::from("new text"));
    assert_eq!(n.description.as_deref(), Some("new text"));
    n.update_description(String::new());
    assert!(n.description.is_none());
}

#[test]
fn long_description_prefill() {
    let with = LongNote::new(String::from("a"), Some(String::from("body")), d(2026, 1, 1), None);
    let without = LongNote::new(String::from("a"), None, d(2026, 1, 1), None);
    assert_eq!(with.description_prefill(), "body");
    assert_eq!(without.description_prefill(), "");
}

#[test]
fn long_view_description_text() {
    let today = d(2026, 10, 12);
    let with = LongNote::new(String::from("a"), Some(String::from("body")), today, None);
    let without = LongNote::new(String::from("a"), None, today, None);
    assert_eq!(with.view_description(), "Pending: a: 2026-10-12\nbody");
    assert_eq!(without.view_description(), "Pending: a: 2026-10-12");
}

#[test]
fn sub_notes_normalize_empty_to_none() {
    let mut n = LongNote::new(String::from("a"), None, d(2026, 1, 1), None);
    n.update_sub_notes(Vec::new());
    assert!(n.sub_notes.is_none());
    let child = Note::Short(ShortNote::new_no_deadline(String::from("c"), d(2026, 1, 2)));
    n.update_sub_notes(vec![child]);
    assert_eq!(n.sub_notes.as_ref().map(|v| v.len()), Some(1));
}

#[test]
fn children_of_each_shape() {
    let today = d(2026, 1, 1);
    let short = Note::Short(ShortNote::new_no_deadline(String::from("s"), today));
    assert!(short.children().is_empty());
    let bare = Note::Long(LongNote::new(String::from("l"), None, today, None));
    assert!(bare.children().is_empty());
    let mut long = LongNote::new(String::from("l"), None, today, None);
    long.update_sub_notes(vec![Note::Short(ShortNote::new_no_deadline(
        String::from("c"),
        today,
    ))]);
    let kids = Note::Long(long).children();
    assert_eq!(kids.len(), 1);
    assert_eq!(kids[0].render(), "Pending: c: 2026-01-01");
}

#[test]
fn clone_note_copies_deeply() {
    let today = d(2026, 1, 1);
    let mut long = LongNote::new(String::from("l"), Some(String::from("d")), today, None);
    long.update_sub_notes(vec![Note::Short(ShortNote::new_no_deadline(
        String::from("c"),
        today,
    ))]);
    let original = Note::Long(long);
    let copy = notes::note::clone_note(&original);
    match (&original, &copy) {
        (Note::Long(a), Note::Long(b)) => {
            assert_eq!(a.title, b.title);
            assert_eq!(a.description, b.description);
            assert_eq!(
                a.sub_notes.as_ref().map(|v| v.len()),
                b.sub_notes.as_ref().map(|v| v.len())
            );
        }
        _ => panic!("clone changed the variant"),
    }
}
