//! The recursive tree display: every note contributes its label and then its
//! children, indented one step further, to arbitrary depth.

use vstd::prelude::*;

use crate::note::{lemma_notes_model, model_label, notes_model, Note, NoteModel};
use crate::view::{NoteView, ViewModel};

verus! {

/// The views of a sequence of strings.
pub open spec fn strings_model(v: Seq<String>) -> Seq<Seq<char>> {
    Seq::new(v.len(), |i: int| v[i]@)
}

/// The lines a single note contributes to the tree: its own label under
/// `prefix`, then the lines of its children under a deeper prefix.
pub open spec fn tree_lines_model(m: NoteModel, prefix: Seq<char>) -> Seq<Seq<char>>
    decreases m, 0nat,
{
    match m {
        NoteModel::Short(_) => seq![prefix + model_label(m)],
        NoteModel::Long(l) => seq![prefix + model_label(m)] + (match l.sub_notes {
            Some(s) => tree_lines_list(s, prefix + "  "@),
            None => Seq::empty(),
        }),
    }
}

/// The lines a sequence of sibling notes contributes, in order.
pub open spec fn tree_lines_list(s: Seq<NoteModel>, prefix: Seq<char>) -> Seq<Seq<char>>
    decreases s, s.len(),
{
    if s.len() == 0 {
        Seq::empty()
    } else {
        tree_lines_model(s[0], prefix) + tree_lines_list(s.drop_first(), prefix)
    }
}

/// The whole tree of a view: its name, then all its notes one step in.
pub open spec fn tree_lines_view(vm: ViewModel) -> Seq<Seq<char>> {
    seq![vm.name] + tree_lines_list(vm.notes, "  "@)
}

fn push_tree_note(out: &mut Vec<String>, n: &Note, prefix: &String)
    ensures
        strings_model(final (out)@) == strings_model(old(out)@) + tree_lines_model(
            n.model(),
            prefix@,
        ),
    decreases *n, 0nat,
{
    let mut line = prefix.clone();
    let label = n.render();
    line.append(label.as_str());
    out.push(line);
    proof {
        assert(strings_model(out@) =~= strings_model(old(out)@) + seq![prefix@ + model_label(
            n.model(),
        )]);
    }
    match n {
        Note::Short(_) => {
            proof {
                assert(strings_model(out@) =~= strings_model(old(out)@) + tree_lines_model(
                    n.model(),
                    prefix@,
                ));
            }
        },
        Note::Long(l) => {
            match &l.sub_notes {
                Some(v) => {
                    let mut child_prefix = prefix.clone();
                    child_prefix.append("  ");
                    push_tree_list(out, v, 0, &child_prefix);
                    proof {
                        assert(notes_model(v@).subrange(0, notes_model(v@).len() as int)
                            =~= notes_model(v@));
                        assert(strings_model(out@) =~= strings_model(old(out)@) + tree_lines_model(
                            n.model(),
                            prefix@,
                        ));
                    }
                },
                None => {
                    proof {
                        assert(strings_model(out@) =~= strings_model(old(out)@) + tree_lines_model(
                            n.model(),
                            prefix@,
                        ));
                    }
                },
            }
        },
    }
}

fn push_tree_list(out: &mut Vec<String>, v: &Vec<Note>, i: usize, prefix: &String)
    requires
        i <= v@.len(),
    ensures
        strings_model(final (out)@) == strings_model(old(out)@) + tree_lines_list(
            notes_model(v@).subrange(i as int, notes_model(v@).len() as int),
            prefix@,
        ),
    decreases v@, v@.len() - i,
{
    proof {
        lemma_notes_model(v@);
    }
    let ghost s = notes_model(v@);
    if i < v.len() {
        push_tree_note(out, &v[i], prefix);
        push_tree_list(out, v, i + 1, prefix);
        proof {
            let sub = s.subrange(i as int, s.len() as int);
            assert(sub[0] == s[i as int]);
            assert(s[i as int] == v@[i as int].model());
            assert(sub.drop_first() =~= s.subrange(i + 1, s.len() as int));
            assert(tree_lines_list(sub, prefix@) == tree_lines_model(v@[i as int].model(), prefix@)
                + tree_lines_list(s.subrange(i + 1, s.len() as int), prefix@));
            assert(strings_model(out@) =~= strings_model(old(out)@) + tree_lines_list(
                sub,
                prefix@,
            ));
        }
    } else {
        proof {
            assert(s.subrange(i as int, s.len() as int) =~= Seq::<NoteModel>::empty());
            assert(strings_model(out@) =~= strings_model(old(out)@) + tree_lines_list(
                s.subrange(i as int, s.len() as int),
                prefix@,
            ));
        }
    }
}

impl NoteView {
    /// The full recursive tree of this view as indented label lines: the
    /// view's name first, each note under it two spaces deeper than its
    /// parent.
    pub fn tree_lines(&self) -> (r: Vec<String>)
        ensures
            strings_model(r@) == tree_lines_view(self.model()),
    {
        let mut out: Vec<String> = Vec::new();
        out.push(self.name.clone());
        let prefix = String::from_str("  ");
        push_tree_list(&mut out, &self.notes, 0, &prefix);
        proof {
            assert(notes_model(self.notes@).subrange(0, notes_model(self.notes@).len() as int)
                =~= notes_model(self.notes@));
            assert(strings_model(out@) =~= tree_lines_view(self.model()));
        }
        out
    }
}

} // verus!
