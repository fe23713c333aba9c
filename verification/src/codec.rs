//! The persistence encoding: a whole view serialized to text and parsed
//! back, losslessly for every note and field, with the active screen always
//! coming back as the main menu.
//!
//! The shape of the text: numbers are decimal digits closed by `;`, a string
//! is its length followed by its characters, an optional field is `0` or `1`
//! plus the value, a note is `S` or `L` plus its fields in order, a
//! collection is its count followed by its notes.

use vstd::prelude::*;

use crate::date::Date;
use crate::digits::{
    append_nat, digit_of, enc_nat, is_digit, lemma_parse_enc_nat, lemma_take_digits_ge,
    parse_nat, take_digits,
};
use crate::note::{
    lemma_notes_model, models_wf, LongModel, LongNote, Note, NoteModel, NoteState, ShortModel,
    ShortNote, notes_model,
};
use crate::view::{NoteView, ViewModel, ViewState};

verus! {

/// Parsed numbers are capped at what the machine's integers hold; encoding
/// never produces a larger one from real data.
pub open spec fn nat_cap() -> nat {
    0x1_0000_0000_0000_0000
}

pub open spec fn state_char(st: NoteState) -> char {
    match st {
        NoteState::Pending => 'p',
        NoteState::Started => 's',
        NoteState::Finished => 'f',
        NoteState::Deprioritised => 'd',
    }
}

/// A number token: decimal digits closed by `;`.
pub open spec fn num_tok(n: nat) -> Seq<char> {
    enc_nat(n) + seq![';']
}

/// A string token: character count, then the characters themselves.
pub open spec fn str_tok(t: Seq<char>) -> Seq<char> {
    num_tok(t.len()) + t
}

/// A date token: year, month, day.
pub open spec fn date_tok(d: Date) -> Seq<char> {
    num_tok(d.year as nat) + num_tok(d.month as nat) + num_tok(d.day as nat)
}

pub open spec fn opt_date_tok(d: Option<Date>) -> Seq<char> {
    match d {
        None => seq!['0'],
        Some(dd) => seq!['1'] + date_tok(dd),
    }
}

pub open spec fn opt_str_tok(t: Option<Seq<char>>) -> Seq<char> {
    match t {
        None => seq!['0'],
        Some(tt) => seq!['1'] + str_tok(tt),
    }
}

/// The encoding of one note.
pub open spec fn enc_note(m: NoteModel) -> Seq<char>
    decreases m, 0nat,
{
    match m {
        NoteModel::Short(s) => seq!['S'] + str_tok(s.title) + date_tok(s.created_at)
            + opt_date_tok(s.due_at) + seq![state_char(s.state)],
        NoteModel::Long(l) => seq!['L'] + str_tok(l.title) + opt_str_tok(l.description)
            + date_tok(l.created_at) + opt_date_tok(l.due_at) + (match l.sub_notes {
            None => seq!['0'],
            Some(s) => seq!['1'] + num_tok(s.len()) + enc_list(s),
        }) + seq![state_char(l.state)],
    }
}

/// The encodings of a collection's notes, in order.
pub open spec fn enc_list(s: Seq<NoteModel>) -> Seq<char>
    decreases s, s.len(),
{
    if s.len() == 0 {
        Seq::empty()
    } else {
        enc_note(s[0]) + enc_list(s.drop_first())
    }
}

/// The encoding of a whole view: name, then the collection. The active
/// screen is deliberately not encoded: a view never resumes mid-operation.
pub open spec fn enc_view(vm: ViewModel) -> Seq<char> {
    str_tok(vm.name) + num_tok(vm.notes.len()) + enc_list(vm.notes)
}

/// Nesting depth of a note: how many levels of sub-collections sit under it.
pub open spec fn note_depth(m: NoteModel) -> nat
    decreases m, 0nat,
{
    match m {
        NoteModel::Short(_) => 1,
        NoteModel::Long(l) => match l.sub_notes {
            None => 1,
            Some(s) => 1 + list_depth(s),
        },
    }
}

pub open spec fn list_depth(s: Seq<NoteModel>) -> nat
    decreases s, s.len(),
{
    if s.len() == 0 {
        0
    } else if note_depth(s[0]) > list_depth(s.drop_first()) {
        note_depth(s[0])
    } else {
        list_depth(s.drop_first())
    }
}

/// String and collection lengths small enough for the machine's integers:
/// true of every value built from real data.
pub open spec fn note_bounded(m: NoteModel) -> bool
    decreases m, 0nat,
{
    match m {
        NoteModel::Short(s) => s.title.len() < nat_cap(),
        NoteModel::Long(l) => l.title.len() < nat_cap() && (l.description matches Some(d)
            ==> d.len() < nat_cap()) && (l.sub_notes matches Some(s) ==> s.len() < nat_cap()
            && list_bounded(s)),
    }
}

pub open spec fn list_bounded(s: Seq<NoteModel>) -> bool
    decreases s, s.len(),
{
    if s.len() == 0 {
        true
    } else {
        note_bounded(s[0]) && list_bounded(s.drop_first())
    }
}

pub open spec fn view_bounded(vm: ViewModel) -> bool {
    vm.name.len() < nat_cap() && vm.notes.len() < nat_cap() && list_bounded(vm.notes)
}

/// A number token at `i`: the value and the position after the `;`.
pub open spec fn p_num(s: Seq<char>, i: int) -> Option<(nat, int)> {
    match parse_nat(s, i) {
        Some((v, j)) => if j < s.len() && s[j] == ';' && v < nat_cap() {
            Some((v, j + 1))
        } else {
            None
        },
        None => None,
    }
}

/// A string token at `i`.
pub open spec fn p_str(s: Seq<char>, i: int) -> Option<(Seq<char>, int)> {
    match p_num(s, i) {
        Some((n, j)) => if j + n <= s.len() {
            Some((s.subrange(j, j + n), j + n))
        } else {
            None
        },
        None => None,
    }
}

/// A date token at `i`; fields outside calendar bounds are rejected.
pub open spec fn p_date(s: Seq<char>, i: int) -> Option<(Date, int)> {
    match p_num(s, i) {
        Some((y, j1)) => match p_num(s, j1) {
            Some((mo, j2)) => match p_num(s, j2) {
                Some((d, j3)) => if y <= 9999 && 1 <= mo <= 12 && 1 <= d <= 31 {
                    Some((Date { year: y as u16, month: mo as u8, day: d as u8 }, j3))
                } else {
                    None
                },
                None => None,
            },
            None => None,
        },
        None => None,
    }
}

pub open spec fn p_state(s: Seq<char>, i: int) -> Option<(NoteState, int)> {
    if 0 <= i < s.len() {
        if s[i] == 'p' {
            Some((NoteState::Pending, i + 1))
        } else if s[i] == 's' {
            Some((NoteState::Started, i + 1))
        } else if s[i] == 'f' {
            Some((NoteState::Finished, i + 1))
        } else if s[i] == 'd' {
            Some((NoteState::Deprioritised, i + 1))
        } else {
            None
        }
    } else {
        None
    }
}

pub open spec fn p_opt_date(s: Seq<char>, i: int) -> Option<(Option<Date>, int)> {
    if 0 <= i < s.len() {
        if s[i] == '0' {
            Some((None, i + 1))
        } else if s[i] == '1' {
            match p_date(s, i + 1) {
                Some((d, j)) => Some((Some(d), j)),
                None => None,
            }
        } else {
            None
        }
    } else {
        None
    }
}

pub open spec fn p_opt_str(s: Seq<char>, i: int) -> Option<(Option<Seq<char>>, int)> {
    if 0 <= i < s.len() {
        if s[i] == '0' {
            Some((None, i + 1))
        } else if s[i] == '1' {
            match p_str(s, i + 1) {
                Some((t, j)) => Some((Some(t), j)),
                None => None,
            }
        } else {
            None
        }
    } else {
        None
    }
}

/// A note at `i`. `fuel` bounds the nesting depth the parse may descend;
/// parsing fails when it runs out.
pub open spec fn p_note(s: Seq<char>, i: int, fuel: nat) -> Option<(NoteModel, int)>
    decreases fuel, 0nat,
{
    if !(0 <= i < s.len()) {
        None
    } else if s[i] == 'S' {
        match p_str(s, i + 1) {
            Some((title, j1)) => match p_date(s, j1) {
                Some((created_at, j2)) => match p_opt_date(s, j2) {
                    Some((due_at, j3)) => match p_state(s, j3) {
                        Some((state, j4)) => Some(
                            (NoteModel::Short(ShortModel { title, created_at, due_at, state }), j4),
                        ),
                        None => None,
                    },
                    None => None,
                },
                None => None,
            },
            None => None,
        }
    } else if s[i] == 'L' {
        match p_str(s, i + 1) {
            Some((title, j1)) => match p_opt_str(s, j1) {
                Some((description, j2)) => match p_date(s, j2) {
                    Some((created_at, j3)) => match p_opt_date(s, j3) {
                        Some((due_at, j4)) => if !(j4 < s.len()) {
                            None
                        } else if s[j4] == '0' {
                            match p_state(s, j4 + 1) {
                                Some((state, j5)) => Some(
                                    (
                                        NoteModel::Long(
                                            LongModel {
                                                title,
                                                description,
                                                created_at,
                                                due_at,
                                                sub_notes: None,
                                                state,
                                            },
                                        ),
                                        j5,
                                    ),
                                ),
                                None => None,
                            }
                        } else if s[j4] == '1' && fuel > 0 {
                            match p_num(s, j4 + 1) {
                                Some((cnt, j5)) => if cnt == 0 {
                                    None
                                } else {
                                    match p_list(s, j5, cnt, (fuel - 1) as nat) {
                                        Some((subs, j6)) => match p_state(s, j6) {
                                            Some((state, j7)) => Some(
                                                (
                                                    NoteModel::Long(
                                                        LongModel {
                                                            title,
                                                            description,
                                                            created_at,
                                                            due_at,
                                                            sub_notes: Some(subs),
                                                            state,
                                                        },
                                                    ),
                                                    j7,
                                                ),
                                            ),
                                            None => None,
                                        },
                                        None => None,
                                    }
                                },
                                None => None,
                            }
                        } else {
                            None
                        },
                        None => None,
                    },
                    None => None,
                },
                None => None,
            },
            None => None,
        }
    } else {
        None
    }
}

/// `cnt` notes one after another, starting at `i`.
pub open spec fn p_list(s: Seq<char>, i: int, cnt: nat, fuel: nat) -> Option<
    (Seq<NoteModel>, int),
>
    decreases fuel, cnt,
{
    if cnt == 0 {
        Some((Seq::empty(), i))
    } else {
        match p_note(s, i, fuel) {
            Some((m, j)) => match p_list(s, j, (cnt - 1) as nat, fuel) {
                Some((rest, k)) => Some((seq![m] + rest, k)),
                None => None,
            },
            None => None,
        }
    }
}

/// A whole view: name, count, that many notes, and nothing after them. The
/// screen always comes back as the main menu.
pub open spec fn p_view(s: Seq<char>) -> Option<ViewModel> {
    match p_str(s, 0) {
        Some((name, j1)) => match p_num(s, j1) {
            Some((cnt, j2)) => match p_list(s, j2, cnt, s.len()) {
                Some((notes, j3)) => if j3 == s.len() {
                    Some(ViewModel { name, notes, state: ViewState::Main })
                } else {
                    None
                },
                None => None,
            },
            None => None,
        },
        None => None,
    }
}

/// Splitting a known subrange at a piece boundary.
proof fn lemma_subrange_split(s: Seq<char>, i: int, x: Seq<char>, y: Seq<char>)
    requires
        0 <= i,
        i + x.len() + y.len() <= s.len(),
        s.subrange(i, i + x.len() + y.len()) == x + y,
    ensures
        s.subrange(i, i + x.len()) == x,
        s.subrange(i + x.len(), i + x.len() + y.len()) == y,
{
    let w = s.subrange(i, i + x.len() + y.len());
    assert forall|k: int| 0 <= k < x.len() implies s.subrange(i, i + x.len())[k] == x[k] by {
        assert(w[k] == (x + y)[k]);
    }
    assert(s.subrange(i, i + x.len()) =~= x);
    assert forall|k: int|
        0 <= k < y.len() implies s.subrange(i + x.len(), i + x.len() + y.len())[k] == y[k] by {
        assert(w[k + x.len()] == (x + y)[k + x.len()]);
    }
    assert(s.subrange(i + x.len(), i + x.len() + y.len()) =~= y);
}

/// A number token parses back to the number it encodes.
proof fn lemma_p_num_tok(s: Seq<char>, i: int, n: nat)
    requires
        0 <= i,
        n < nat_cap(),
        i + num_tok(n).len() <= s.len(),
        s.subrange(i, i + num_tok(n).len()) == num_tok(n),
    ensures
        p_num(s, i) == Some((n, i + num_tok(n).len())),
{
    let e = enc_nat(n);
    lemma_subrange_split(s, i, e, seq![';']);
    assert(s.subrange(i + e.len(), i + e.len() + 1)[0] == ';');
    assert(s[i + e.len()] == ';');
    assert(!is_digit(';'));
    lemma_parse_enc_nat(s, i, n);
}

/// A string token parses back to the text it encodes.
proof fn lemma_p_str_tok(s: Seq<char>, i: int, t: Seq<char>)
    requires
        0 <= i,
        t.len() < nat_cap(),
        i + str_tok(t).len() <= s.len(),
        s.subrange(i, i + str_tok(t).len()) == str_tok(t),
    ensures
        p_str(s, i) == Some((t, i + str_tok(t).len())),
{
    lemma_subrange_split(s, i, num_tok(t.len()), t);
    lemma_p_num_tok(s, i, t.len());
}

/// A date token parses back to the date it encodes.
proof fn lemma_p_date_tok(s: Seq<char>, i: int, d: Date)
    requires
        0 <= i,
        d.wf(),
        i + date_tok(d).len() <= s.len(),
        s.subrange(i, i + date_tok(d).len()) == date_tok(d),
    ensures
        p_date(s, i) == Some((d, i + date_tok(d).len())),
{
    let y = num_tok(d.year as nat);
    let mo = num_tok(d.month as nat);
    let dd = num_tok(d.day as nat);
    assert(date_tok(d) =~= y + (mo + dd));
    lemma_subrange_split(s, i, y, mo + dd);
    lemma_subrange_split(s, i + y.len(), mo, dd);
    lemma_p_num_tok(s, i, d.year as nat);
    lemma_p_num_tok(s, i + y.len(), d.month as nat);
    lemma_p_num_tok(s, i + y.len() + mo.len(), d.day as nat);
    assert(Date {
        year: (d.year as nat) as u16,
        month: (d.month as nat) as u8,
        day: (d.day as nat) as u8,
    } == d);
}

/// An optional date token parses back.
proof fn lemma_p_opt_date_tok(s: Seq<char>, i: int, d: Option<Date>)
    requires
        0 <= i,
        d matches Some(x) ==> x.wf(),
        i + opt_date_tok(d).len() <= s.len(),
        s.subrange(i, i + opt_date_tok(d).len()) == opt_date_tok(d),
    ensures
        p_opt_date(s, i) == Some((d, i + opt_date_tok(d).len())),
{
    match d {
        None => {
            assert(s.subrange(i, i + 1)[0] == '0');
            assert(s[i] == '0');
        },
        Some(x) => {
            lemma_subrange_split(s, i, seq!['1'], date_tok(x));
            assert(s.subrange(i, i + 1)[0] == '1');
            assert(s[i] == '1');
            lemma_p_date_tok(s, i + 1, x);
        },
    }
}

/// An optional string token parses back.
proof fn lemma_p_opt_str_tok(s: Seq<char>, i: int, t: Option<Seq<char>>)
    requires
        0 <= i,
        t matches Some(x) ==> x.len() < nat_cap(),
        i + opt_str_tok(t).len() <= s.len(),
        s.subrange(i, i + opt_str_tok(t).len()) == opt_str_tok(t),
    ensures
        p_opt_str(s, i) == Some((t, i + opt_str_tok(t).len())),
{
    match t {
        None => {
            assert(s.subrange(i, i + 1)[0] == '0');
            assert(s[i] == '0');
        },
        Some(x) => {
            lemma_subrange_split(s, i, seq!['1'], str_tok(x));
            assert(s.subrange(i, i + 1)[0] == '1');
            assert(s[i] == '1');
            lemma_p_str_tok(s, i + 1, x);
        },
    }
}

/// A state character parses back.
proof fn lemma_p_state_tok(s: Seq<char>, i: int, st: NoteState)
    requires
        0 <= i,
        i + 1 <= s.len(),
        s.subrange(i, i + 1) == seq![state_char(st)],
    ensures
        p_state(s, i) == Some((st, i + 1)),
{
    assert(s.subrange(i, i + 1)[0] == state_char(st));
    assert(s[i] == state_char(st));
}

/// What a successful number parse guarantees about value and position.
proof fn lemma_p_num_props(s: Seq<char>, i: int)
    ensures
        p_num(s, i) matches Some((v, j)) ==> i < j <= s.len() && v < nat_cap(),
{
}

/// What a successful string parse guarantees.
proof fn lemma_p_str_props(s: Seq<char>, i: int)
    ensures
        p_str(s, i) matches Some((t, j)) ==> i < j <= s.len() && t.len() < nat_cap(),
{
    lemma_p_num_props(s, i);
}

/// What a successful date parse guarantees: a well-formed date.
proof fn lemma_p_date_props(s: Seq<char>, i: int)
    ensures
        p_date(s, i) matches Some((d, j)) ==> i < j <= s.len() && d.wf(),
{
    lemma_p_num_props(s, i);
    if let Some((y, j1)) = p_num(s, i) {
        lemma_p_num_props(s, j1);
        if let Some((mo, j2)) = p_num(s, j1) {
            lemma_p_num_props(s, j2);
        }
    }
}

proof fn lemma_p_opt_date_props(s: Seq<char>, i: int)
    ensures
        p_opt_date(s, i) matches Some((d, j)) ==> i < j <= s.len() && (d matches Some(x)
            ==> x.wf()),
{
    lemma_p_date_props(s, i + 1);
}

proof fn lemma_p_opt_str_props(s: Seq<char>, i: int)
    ensures
        p_opt_str(s, i) matches Some((t, j)) ==> i < j <= s.len() && (t matches Some(x)
            ==> x.len() < nat_cap()),
{
    lemma_p_str_props(s, i + 1);
}

/// Whatever text a note parses from, the result is a well-formed, bounded
/// note and the parse makes progress.
proof fn lemma_p_note_props(s: Seq<char>, i: int, fuel: nat)
    ensures
        p_note(s, i, fuel) matches Some((m, j)) ==> i < j <= s.len() && m.wf() && note_bounded(
            m,
        ),
    decreases fuel, 0nat,
{
    if 0 <= i < s.len() {
        lemma_p_str_props(s, i + 1);
        if s[i] == 'S' {
            if let Some((title, j1)) = p_str(s, i + 1) {
                lemma_p_date_props(s, j1);
                if let Some((created_at, j2)) = p_date(s, j1) {
                    lemma_p_opt_date_props(s, j2);
                    if let Some((due_at, j3)) = p_opt_date(s, j2) {
                    }
                }
            }
        } else if s[i] == 'L' {
            if let Some((title, j1)) = p_str(s, i + 1) {
                lemma_p_opt_str_props(s, j1);
                if let Some((description, j2)) = p_opt_str(s, j1) {
                    lemma_p_date_props(s, j2);
                    if let Some((created_at, j3)) = p_date(s, j2) {
                        lemma_p_opt_date_props(s, j3);
                        if let Some((due_at, j4)) = p_opt_date(s, j3) {
                            if j4 < s.len() && s[j4] == '1' && fuel > 0 {
                                lemma_p_num_props(s, j4 + 1);
                                if let Some((cnt, j5)) = p_num(s, j4 + 1) {
                                    if cnt > 0 {
                                        lemma_p_list_props(s, j5, cnt, (fuel - 1) as nat);
                                    }
                                }
                            }
                        }
                    }
                }
            }
        }
    }
}

/// The list version of the parse guarantees: the right count of well-formed,
/// bounded notes.
proof fn lemma_p_list_props(s: Seq<char>, i: int, cnt: nat, fuel: nat)
    ensures
        p_list(s, i, cnt, fuel) matches Some((l, j)) ==> i <= j && l.len() == cnt && models_wf(l)
            && list_bounded(l) && (0 <= i <= s.len() ==> j <= s.len()),
    decreases fuel, cnt,
{
    if cnt > 0 {
        lemma_p_note_props(s, i, fuel);
        if let Some((m, j)) = p_note(s, i, fuel) {
            lemma_p_list_props(s, j, (cnt - 1) as nat, fuel);
            if let Some((rest, k)) = p_list(s, j, (cnt - 1) as nat, fuel) {
                let l = seq![m] + rest;
                assert(l[0] == m);
                assert(l.drop_first() =~= rest);
            }
        }
    }
}

/// A note's encoding parses back to the note, given fuel for its depth.
proof fn lemma_p_note_enc(s: Seq<char>, i: int, m: NoteModel, fuel: nat)
    requires
        0 <= i,
        m.wf(),
        note_bounded(m),
        fuel >= note_depth(m),
        i + enc_note(m).len() <= s.len(),
        s.subrange(i, i + enc_note(m).len()) == enc_note(m),
    ensures
        p_note(s, i, fuel) == Some((m, i + enc_note(m).len())),
    decreases m, 1nat,
{
    match m {
        NoteModel::Short(_) => lemma_p_note_enc_short(s, i, m, fuel),
        NoteModel::Long(_) => lemma_p_note_enc_long(s, i, m, fuel),
    }
}

#[verifier::spinoff_prover]
#[verifier::rlimit(100)]
proof fn lemma_p_note_enc_short(s: Seq<char>, i: int, m: NoteModel, fuel: nat)
    requires
        0 <= i,
        m is Short,
        m.wf(),
        note_bounded(m),
        fuel >= note_depth(m),
        i + enc_note(m).len() <= s.len(),
        s.subrange(i, i + enc_note(m).len()) == enc_note(m),
    ensures
        p_note(s, i, fuel) == Some((m, i + enc_note(m).len())),
    decreases m, 0nat,
{
    match m {
        NoteModel::Short(sm) => {
            let a = seq!['S'];
            let b = str_tok(sm.title);
            let c = date_tok(sm.created_at);
            let e = opt_date_tok(sm.due_at);
            let f = seq![state_char(sm.state)];
            assert(enc_note(m) =~= a + (b + (c + (e + f))));
            lemma_subrange_split(s, i, a, b + (c + (e + f)));
            assert(s.subrange(i, i + 1)[0] == 'S');
            lemma_subrange_split(s, i + 1, b, c + (e + f));
            lemma_subrange_split(s, i + 1 + b.len(), c, e + f);
            lemma_subrange_split(s, i + 1 + b.len() + c.len(), e, f);
            lemma_p_str_tok(s, i + 1, sm.title);
            lemma_p_date_tok(s, i + 1 + b.len(), sm.created_at);
            lemma_p_opt_date_tok(s, i + 1 + b.len() + c.len(), sm.due_at);
            lemma_p_state_tok(s, i + 1 + b.len() + c.len() + e.len(), sm.state);
        },
        NoteModel::Long(_) => {},
    }
}

#[verifier::spinoff_prover]
#[verifier::rlimit(100)]
proof fn lemma_p_note_enc_long(s: Seq<char>, i: int, m: NoteModel, fuel: nat)
    requires
        0 <= i,
        m is Long,
        m.wf(),
        note_bounded(m),
        fuel >= note_depth(m),
        i + enc_note(m).len() <= s.len(),
        s.subrange(i, i + enc_note(m).len()) == enc_note(m),
    ensures
        p_note(s, i, fuel) == Some((m, i + enc_note(m).len())),
    decreases m, 0nat,
{
    match m {
        NoteModel::Short(_) => {},
        NoteModel::Long(lm) => {
            let a = seq!['L'];
            let b = str_tok(lm.title);
            let c = opt_str_tok(lm.description);
            let d_ = date_tok(lm.created_at);
            let e = opt_date_tok(lm.due_at);
            let g: Seq<char> = match lm.sub_notes {
                None => seq!['0'],
                Some(sub) => seq!['1'] + num_tok(sub.len()) + enc_list(sub),
            };
            let f = seq![state_char(lm.state)];
            assert(enc_note(m) =~= a + (b + (c + (d_ + (e + (g + f))))));
            lemma_subrange_split(s, i, a, b + (c + (d_ + (e + (g + f)))));
            assert(s.subrange(i, i + 1)[0] == 'L');
            let i1 = i + 1;
            lemma_subrange_split(s, i1, b, c + (d_ + (e + (g + f))));
            let i2 = i1 + b.len();
            lemma_subrange_split(s, i2, c, d_ + (e + (g + f)));
            let i3 = i2 + c.len();
            lemma_subrange_split(s, i3, d_, e + (g + f));
            let i4 = i3 + d_.len();
            lemma_subrange_split(s, i4, e, g + f);
            let i5 = i4 + e.len();
            lemma_subrange_split(s, i5, g, f);
            let i6 = i5 + g.len();
            lemma_p_str_tok(s, i1, lm.title);
            lemma_p_opt_str_tok(s, i2, lm.description);
            lemma_p_date_tok(s, i3, lm.created_at);
            lemma_p_opt_date_tok(s, i4, lm.due_at);
            lemma_p_state_tok(s, i6, lm.state);
            match lm.sub_notes {
                None => {
                    assert(s.subrange(i5, i5 + 1)[0] == '0');
                    assert(s[i5] == '0');
                },
                Some(sub) => {
                    assert(g =~= seq!['1'] + (num_tok(sub.len()) + enc_list(sub)));
                    lemma_subrange_split(s, i5, seq!['1'], num_tok(sub.len()) + enc_list(sub));
                    assert(s.subrange(i5, i5 + 1)[0] == '1');
                    assert(s[i5] == '1');
                    lemma_subrange_split(s, i5 + 1, num_tok(sub.len()), enc_list(sub));
                    lemma_p_num_tok(s, i5 + 1, sub.len());
                    let i7 = i5 + 1 + num_tok(sub.len()).len();
                    lemma_p_list_enc(s, i7, sub, (fuel - 1) as nat);
                },
            }
        },
    }
}

/// A collection's encoding parses back, note for note.
proof fn lemma_p_list_enc(s: Seq<char>, i: int, l: Seq<NoteModel>, fuel: nat)
    requires
        0 <= i,
        models_wf(l),
        list_bounded(l),
        fuel >= list_depth(l),
        i + enc_list(l).len() <= s.len(),
        s.subrange(i, i + enc_list(l).len()) == enc_list(l),
    ensures
        p_list(s, i, l.len(), fuel) == Some((l, i + enc_list(l).len())),
    decreases l, l.len(),
{
    if l.len() == 0 {
        assert(Seq::<NoteModel>::empty() =~= l);
    } else {
        let h = l[0];
        let rest = l.drop_first();
        assert(enc_list(l) =~= enc_note(h) + enc_list(rest));
        lemma_subrange_split(s, i, enc_note(h), enc_list(rest));
        lemma_p_note_enc(s, i, h, fuel);
        let j = i + enc_note(h).len();
        lemma_p_list_enc(s, j, rest, fuel);
        assert(seq![h] + rest =~= l);
        assert(rest.len() == (l.len() - 1) as nat);
    }
}

/// Every nesting level of a note costs at least one character of encoding.
proof fn lemma_note_depth_le(m: NoteModel)
    ensures
        note_depth(m) <= enc_note(m).len(),
    decreases m, 0nat,
{
    match m {
        NoteModel::Short(_) => {},
        NoteModel::Long(lm) => match lm.sub_notes {
            None => {},
            Some(sub) => {
                lemma_list_depth_le(sub);
            },
        },
    }
}

proof fn lemma_list_depth_le(l: Seq<NoteModel>)
    ensures
        list_depth(l) <= enc_list(l).len(),
    decreases l, l.len(),
{
    if l.len() > 0 {
        lemma_note_depth_le(l[0]);
        lemma_list_depth_le(l.drop_first());
    }
}

/// Serialize, then parse: every well-formed collection comes back exactly,
/// every note and field intact, except that the active screen resets to the
/// main menu.
pub proof fn lemma_view_round_trip(vm: ViewModel)
    requires
        models_wf(vm.notes),
        view_bounded(vm),
    ensures
        p_view(enc_view(vm)) == Some(ViewModel { state: ViewState::Main, ..vm }),
{
    let s = enc_view(vm);
    let b = str_tok(vm.name);
    let c = num_tok(vm.notes.len());
    let d_ = enc_list(vm.notes);
    assert(s =~= b + (c + d_));
    assert(s.subrange(0, s.len() as int) =~= s);
    lemma_subrange_split(s, 0, b, c + d_);
    lemma_subrange_split(s, b.len() as int, c, d_);
    lemma_p_str_tok(s, 0, vm.name);
    lemma_p_num_tok(s, b.len() as int, vm.notes.len());
    lemma_list_depth_le(vm.notes);
    lemma_p_list_enc(s, b.len() + c.len() as int, vm.notes, s.len());
}

/// Parse, then serialize: saving a freshly loaded collection writes exactly
/// the text it was loaded from, the reset of the active screen aside, since
/// the screen is never encoded.
pub proof fn lemma_save_after_load(vm: ViewModel)
    requires
        models_wf(vm.notes),
        view_bounded(vm),
    ensures
        p_view(enc_view(vm)) matches Some(w) && enc_view(w) == enc_view(vm),
{
    lemma_view_round_trip(vm);
}

/// Relies on `String::push`: appends exactly the one character.
#[verifier::external_body]
fn string_push(out: &mut String, c: char)
    ensures
        final (out)@ == old(out)@.push(c),
{
    out.push(c);
}

fn append_num(out: &mut String, n: u64)
    ensures
        final (out)@ == old(out)@ + num_tok(n as nat),
{
    append_nat(out, n);
    out.append(";");
    proof {
        reveal_strlit(";");
        assert(out@ =~= old(out)@ + num_tok(n as nat));
    }
}

fn append_str_tok(out: &mut String, t: &String)
    ensures
        final (out)@ == old(out)@ + str_tok(t@),
{
    let n = t.as_str().unicode_len();
    append_num(out, n as u64);
    out.append(t.as_str());
    proof {
        assert(out@ =~= old(out)@ + str_tok(t@));
    }
}

fn append_date_tok(out: &mut String, d: Date)
    ensures
        final (out)@ == old(out)@ + date_tok(d),
{
    append_num(out, d.year as u64);
    append_num(out, d.month as u64);
    append_num(out, d.day as u64);
    proof {
        assert(out@ =~= old(out)@ + date_tok(d));
    }
}

fn append_opt_date_tok(out: &mut String, d: Option<Date>)
    ensures
        final (out)@ == old(out)@ + opt_date_tok(d),
{
    proof {
        reveal_strlit("0");
        reveal_strlit("1");
    }
    match d {
        None => {
            out.append("0");
            proof {
                assert(out@ =~= old(out)@ + opt_date_tok(d));
            }
        },
        Some(x) => {
            out.append("1");
            append_date_tok(out, x);
            proof {
                assert(out@ =~= old(out)@ + opt_date_tok(d));
            }
        },
    }
}

fn append_state_tok(out: &mut String, st: NoteState)
    ensures
        final (out)@ == old(out)@ + seq![state_char(st)],
{
    proof {
        reveal_strlit("p");
        reveal_strlit("s");
        reveal_strlit("f");
        reveal_strlit("d");
    }
    match st {
        NoteState::Pending => out.append("p"),
        NoteState::Started => out.append("s"),
        NoteState::Finished => out.append("f"),
        NoteState::Deprioritised => out.append("d"),
    }
    proof {
        assert(out@ =~= old(out)@ + seq![state_char(st)]);
    }
}

fn append_note(out: &mut String, n: &Note)
    ensures
        final (out)@ == old(out)@ + enc_note(n.model()),
    decreases *n, 1nat,
{
    proof {
        reveal_strlit("S");
    }
    match n {
        Note::Short(sn) => {
            out.append("S");
            append_str_tok(out, &sn.title);
            append_date_tok(out, sn.created_at);
            append_opt_date_tok(out, sn.due_at);
            append_state_tok(out, sn.state);
            proof {
                assert(out@ =~= old(out)@ + enc_note(n.model()));
            }
        },
        Note::Long(ln) => {
            append_long_note(out, ln);
        },
    }
}

#[verifier::spinoff_prover]
#[verifier::rlimit(100)]
fn append_long_note(out: &mut String, ln: &LongNote)
    ensures
        final (out)@ == old(out)@ + enc_note(NoteModel::Long(ln.model())),
    decreases *ln, 0nat,
{
    proof {
        reveal_strlit("L");
        reveal_strlit("0");
        reveal_strlit("1");
    }
    out.append("L");
    append_str_tok(out, &ln.title);
    match &ln.description {
        None => out.append("0"),
        Some(dsc) => {
            out.append("1");
            append_str_tok(out, dsc);
        },
    }
    proof {
        assert(out@ =~= old(out)@ + seq!['L'] + str_tok(ln.title@) + opt_str_tok(
            ln.model().description,
        ));
    }
    append_date_tok(out, ln.created_at);
    append_opt_date_tok(out, ln.due_at);
    match &ln.sub_notes {
        None => {
            out.append("0");
        },
        Some(v) => {
            proof {
                lemma_notes_model(v@);
            }
            out.append("1");
            append_num(out, v.len() as u64);
            append_list(out, v, 0);
            proof {
                assert(notes_model(v@).subrange(0, notes_model(v@).len() as int) =~= notes_model(
                    v@,
                ));
            }
        },
    }
    append_state_tok(out, ln.state);
    proof {
        assert(out@ =~= old(out)@ + enc_note(NoteModel::Long(ln.model())));
    }
}

fn append_list(out: &mut String, v: &Vec<Note>, i: usize)
    requires
        i <= v@.len(),
    ensures
        final (out)@ == old(out)@ + enc_list(
            notes_model(v@).subrange(i as int, notes_model(v@).len() as int),
        ),
    decreases v@, v@.len() - i,
{
    proof {
        lemma_notes_model(v@);
    }
    let ghost s = notes_model(v@);
    if i < v.len() {
        append_note(out, &v[i]);
        append_list(out, v, i + 1);
        proof {
            let sub = s.subrange(i as int, s.len() as int);
            assert(sub[0] == s[i as int]);
            assert(s[i as int] == v@[i as int].model());
            assert(sub.drop_first() =~= s.subrange(i + 1, s.len() as int));
            assert(out@ =~= old(out)@ + enc_list(sub));
        }
    } else {
        proof {
            assert(s.subrange(i as int, s.len() as int) =~= Seq::<NoteModel>::empty());
            assert(out@ =~= old(out)@ + enc_list(s.subrange(i as int, s.len() as int)));
        }
    }
}

impl NoteView {
    /// The persistence text of this view: everything but the active screen,
    /// in the encoding `p_view` reads back.
    pub fn encode(&self) -> (r: String)
        ensures
            r@ == enc_view(self.model()),
    {
        proof {
            lemma_notes_model(self.notes@);
        }
        let mut out = String::new();
        append_str_tok(&mut out, &self.name);
        append_num(&mut out, self.notes.len() as u64);
        append_list(&mut out, &self.notes, 0);
        proof {
            assert(notes_model(self.notes@).subrange(0, notes_model(self.notes@).len() as int)
                =~= notes_model(self.notes@));
            assert(out@ =~= enc_view(self.model()));
        }
        out
    }
}

fn d_digits(s: &Vec<char>, j: usize, acc: u64) -> (r: Option<(u64, usize)>)
    requires
        j <= s@.len(),
    ensures
        match r {
            Some((v, k)) => take_digits(s@, j as int, acc as nat) == ((v as nat, k as int)) && j
                <= k <= s@.len(),
            None => take_digits(s@, j as int, acc as nat).0 >= nat_cap(),
        },
    decreases s@.len() - j,
{
    if j < s.len() {
        match digit_of(s[j]) {
            Some(d) => {
                if acc > (u64::MAX - d) / 10 {
                    proof {
                        lemma_take_digits_ge(s@, j + 1, (acc * 10 + d) as nat);
                    }
                    None
                } else {
                    d_digits(s, j + 1, acc * 10 + d)
                }
            },
            None => Some((acc, j)),
        }
    } else {
        Some((acc, j))
    }
}

fn d_num(s: &Vec<char>, i: usize) -> (r: Option<(u64, usize)>)
    requires
        i <= s@.len(),
    ensures
        match p_num(s@, i as int) {
            Some((v, j)) => r matches Some(x) && x.0 as nat == v && x.1 as int == j && x.1
                <= s@.len(),
            None => r is None,
        },
{
    match d_digits(s, i, 0) {
        Some((v, j)) => {
            if j > i && j < s.len() {
                if s[j] == ';' {
                    Some((v, j + 1))
                } else {
                    None
                }
            } else {
                None
            }
        },
        None => None,
    }
}

fn d_str(s: &Vec<char>, i: usize) -> (r: Option<(String, usize)>)
    requires
        i <= s@.len(),
    ensures
        match p_str(s@, i as int) {
            Some((t, j)) => r matches Some(x) && x.0@ == t && x.1 as int == j && x.1 <= s@.len(),
            None => r is None,
        },
{
    match d_num(s, i) {
        Some((n, j)) => {
            let slen = s.len();
            if n <= (slen - j) as u64 {
                let n_us = n as usize;
                let end: usize = j + n_us;
                let mut out = String::new();
                let mut k: usize = j;
                proof {
                    assert(out@ =~= s@.subrange(j as int, j as int));
                }
                while k < end
                    invariant
                        j <= k <= end,
                        end == j + n_us,
                        end <= s@.len(),
                        out@ == s@.subrange(j as int, k as int),
                    decreases end - k,
                {
                    string_push(&mut out, s[k]);
                    k += 1;
                    proof {
                        assert(out@ =~= s@.subrange(j as int, k as int));
                    }
                }
                Some((out, end))
            } else {
                None
            }
        },
        None => None,
    }
}

fn d_date(s: &Vec<char>, i: usize) -> (r: Option<(Date, usize)>)
    requires
        i <= s@.len(),
    ensures
        match p_date(s@, i as int) {
            Some((d, j)) => r matches Some(x) && x.0 == d && x.1 as int == j && x.1 <= s@.len(),
            None => r is None,
        },
{
    match d_num(s, i) {
        Some((y, j1)) => match d_num(s, j1) {
            Some((mo, j2)) => match d_num(s, j2) {
                Some((d, j3)) => {
                    if y <= 9999 && 1 <= mo && mo <= 12 && 1 <= d && d <= 31 {
                        Some((Date { year: y as u16, month: mo as u8, day: d as u8 }, j3))
                    } else {
                        None
                    }
                },
                None => None,
            },
            None => None,
        },
        None => None,
    }
}

fn d_state(s: &Vec<char>, i: usize) -> (r: Option<(NoteState, usize)>)
    requires
        i <= s@.len(),
    ensures
        match p_state(s@, i as int) {
            Some((st, j)) => r matches Some(x) && x.0 == st && x.1 as int == j && x.1 <= s@.len(),
            None => r is None,
        },
{
    if i < s.len() {
        match s[i] {
            'p' => Some((NoteState::Pending, i + 1)),
            's' => Some((NoteState::Started, i + 1)),
            'f' => Some((NoteState::Finished, i + 1)),
            'd' => Some((NoteState::Deprioritised, i + 1)),
            _ => None,
        }
    } else {
        None
    }
}

fn d_opt_date(s: &Vec<char>, i: usize) -> (r: Option<(Option<Date>, usize)>)
    requires
        i <= s@.len(),
    ensures
        match p_opt_date(s@, i as int) {
            Some((d, j)) => r matches Some(x) && x.0 == d && x.1 as int == j && x.1 <= s@.len(),
            None => r is None,
        },
{
    if i < s.len() {
        if s[i] == '0' {
            Some((None, i + 1))
        } else if s[i] == '1' {
            match d_date(s, i + 1) {
                Some((d, j)) => Some((Some(d), j)),
                None => None,
            }
        } else {
            None
        }
    } else {
        None
    }
}

fn d_opt_str(s: &Vec<char>, i: usize) -> (r: Option<(Option<String>, usize)>)
    requires
        i <= s@.len(),
    ensures
        match p_opt_str(s@, i as int) {
            Some((t, j)) => r matches Some(x) && (match (x.0, t) {
                (Some(xs), Some(ts)) => xs@ == ts,
                (None, None) => true,
                _ => false,
            }) && x.1 as int == j && x.1 <= s@.len(),
            None => r is None,
        },
{
    if i < s.len() {
        if s[i] == '0' {
            Some((None, i + 1))
        } else if s[i] == '1' {
            match d_str(s, i + 1) {
                Some((t, j)) => Some((Some(t), j)),
                None => None,
            }
        } else {
            None
        }
    } else {
        None
    }
}

fn d_note(s: &Vec<char>, i: usize, fuel: usize) -> (r: Option<(Note, usize)>)
    requires
        i <= s@.len(),
    ensures
        match p_note(s@, i as int, fuel as nat) {
            Some((m, j)) => r matches Some(x) && x.0.model() == m && x.0.wf() && x.1 as int == j
                && x.1 <= s@.len(),
            None => r is None,
        },
    decreases fuel, 0nat,
{
    proof {
        lemma_p_note_props(s@, i as int, fuel as nat);
    }
    if i >= s.len() {
        return None;
    }
    if s[i] == 'S' {
        match d_str(s, i + 1) {
            Some((title, j1)) => match d_date(s, j1) {
                Some((created_at, j2)) => match d_opt_date(s, j2) {
                    Some((due_at, j3)) => match d_state(s, j3) {
                        Some((state, j4)) => {
                            let note = Note::Short(
                                ShortNote { title, created_at, due_at, state },
                            );
                            proof {
                                assert(note.model() =~= p_note(
                                    s@,
                                    i as int,
                                    fuel as nat,
                                ).unwrap().0);
                            }
                            Some((note, j4))
                        },
                        None => None,
                    },
                    None => None,
                },
                None => None,
            },
            None => None,
        }
    } else if s[i] == 'L' {
        match d_str(s, i + 1) {
            Some((title, j1)) => match d_opt_str(s, j1) {
                Some((description, j2)) => match d_date(s, j2) {
                    Some((created_at, j3)) => match d_opt_date(s, j3) {
                        Some((due_at, j4)) => {
                            if j4 >= s.len() {
                                return None;
                            }
                            if s[j4] == '0' {
                                match d_state(s, j4 + 1) {
                                    Some((state, j5)) => {
                                        let note = Note::Long(
                                            LongNote {
                                                title,
                                                description,
                                                created_at,
                                                due_at,
                                                sub_notes: None,
                                                state,
                                            },
                                        );
                                        proof {
                                            assert(note.model() =~= p_note(
                                                s@,
                                                i as int,
                                                fuel as nat,
                                            ).unwrap().0);
                                        }
                                        Some((note, j5))
                                    },
                                    None => None,
                                }
                            } else if s[j4] == '1' && fuel > 0 {
                                match d_num(s, j4 + 1) {
                                    Some((cnt, j5)) => {
                                        if cnt == 0 {
                                            return None;
                                        }
                                        match d_list(s, j5, cnt, fuel - 1) {
                                            Some((subs, j6)) => match d_state(s, j6) {
                                                Some((state, j7)) => {
                                                    let note = Note::Long(
                                                        LongNote {
                                                            title,
                                                            description,
                                                            created_at,
                                                            due_at,
                                                            sub_notes: Some(subs),
                                                            state,
                                                        },
                                                    );
                                                    proof {
                                                        assert(note.model() =~= p_note(
                                                            s@,
                                                            i as int,
                                                            fuel as nat,
                                                        ).unwrap().0);
                                                    }
                                                    Some((note, j7))
                                                },
                                                None => None,
                                            },
                                            None => None,
                                        }
                                    },
                                    None => None,
                                }
                            } else {
                                None
                            }
                        },
                        None => None,
                    },
                    None => None,
                },
                None => None,
            },
            None => None,
        }
    } else {
        None
    }
}

fn d_list(s: &Vec<char>, i: usize, cnt: u64, fuel: usize) -> (r: Option<(Vec<Note>, usize)>)
    requires
        i <= s@.len(),
    ensures
        match p_list(s@, i as int, cnt as nat, fuel as nat) {
            Some((l, j)) => r matches Some(x) && notes_model(x.0@) == l && x.1 as int == j && x.1
                <= s@.len(),
            None => r is None,
        },
    decreases fuel, cnt,
{
    if cnt == 0 {
        let out: Vec<Note> = Vec::new();
        proof {
            assert(notes_model(out@) =~= Seq::<NoteModel>::empty());
        }
        Some((out, i))
    } else {
        match d_note(s, i, fuel) {
            Some((n, j)) => match d_list(s, j, cnt - 1, fuel) {
                Some((rest, k)) => {
                    let mut rest = rest;
                    let ghost r0 = rest@;
                    rest.insert(0, n);
                    proof {
                        let l = p_list(s@, i as int, cnt as nat, fuel as nat).unwrap().0;
                        lemma_notes_model(r0);
                        lemma_notes_model(rest@);
                        assert(rest@ =~= seq![n] + r0);
                        assert forall|q: int|
                            0 <= q < rest@.len() implies notes_model(rest@)[q] == l[q] by {
                            assert(notes_model(rest@)[q] == rest@[q].model());
                            if q == 0 {
                                assert(rest@[0] == n);
                            } else {
                                assert(rest@[q] == r0[q - 1]);
                                assert(notes_model(r0)[q - 1] == r0[q - 1].model());
                            }
                        }
                        assert(notes_model(rest@) =~= l);
                    }
                    Some((rest, k))
                },
                None => None,
            },
            None => None,
        }
    }
}

impl NoteView {
    /// Reads a view back from its persistence text: `None` for text the
    /// encoding never produces, otherwise the collection with the active
    /// screen reset to the main menu.
    pub fn decode(text: &str) -> (r: Option<NoteView>)
        ensures
            match p_view(text@) {
                Some(vm) => r matches Some(v) && v.model() == vm && v.wf(),
                None => r is None,
            },
    {
        let n = text.unicode_len();
        let mut chars: Vec<char> = Vec::new();
        let mut k: usize = 0;
        while k < n
            invariant
                k <= n,
                n == text@.len(),
                chars@ == text@.subrange(0, k as int),
            decreases n - k,
        {
            chars.push(text.get_char(k));
            k += 1;
            proof {
                assert(chars@ =~= text@.subrange(0, k as int));
            }
        }
        proof {
            assert(chars@ =~= text@);
        }
        let s = chars;
        match d_str(&s, 0) {
            Some((name, j1)) => match d_num(&s, j1) {
                Some((cnt, j2)) => match d_list(&s, j2, cnt, s.len()) {
                    Some((notes, j3)) => {
                        if j3 == s.len() {
                            proof {
                                lemma_p_list_props(s@, j2 as int, cnt as nat, s@.len());
                            }
                            let v = NoteView { name, notes, state: ViewState::Main };
                            proof {
                                assert(v.model() =~= p_view(text@).unwrap());
                            }
                            Some(v)
                        } else {
                            None
                        }
                    },
                    None => None,
                },
                None => None,
            },
            None => None,
        }
    }
}

} // verus!
