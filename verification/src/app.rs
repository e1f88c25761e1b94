//! The session state the presentation layer owns, and every decision it
//! makes in response to user actions: which notes are listed under a
//! filter, what selecting, editing, committing and deleting do to the
//! collection, and when a commit is refused. The presentation layer only
//! draws this state and reports clicks; after each call that returns
//! `true` it rewrites the persisted file.
use vstd::prelude::*;
use vstd::pervasive::VecAdditionalExecFns;
use crate::note::Note;
use crate::search::{note_matches, spec_note_matches};
use crate::text::chars_of;

verus! {

/// A character the blank-title rule ignores: the Unicode white space set.
pub open spec fn is_space_char(c: char) -> bool {
    ||| c == ' '
    ||| c == '\t'
    ||| c == '\n'
    ||| c == '\r'
    ||| c as int == 0x0B
    ||| c as int == 0x0C
    ||| c as int == 0x85
    ||| c as int == 0xA0
    ||| c as int == 0x1680
    ||| (0x2000 <= c as int && c as int <= 0x200A)
    ||| c as int == 0x2028
    ||| c as int == 0x2029
    ||| c as int == 0x202F
    ||| c as int == 0x205F
    ||| c as int == 0x3000
}

/// A string with nothing but white space in it; such a title cannot be
/// committed.
pub open spec fn blank(s: Seq<char>) -> bool {
    forall|i: int| 0 <= i < s.len() ==> is_space_char(#[trigger] s[i])
}

fn exec_is_space_char(c: char) -> (r: bool)
    ensures
        r == is_space_char(c),
{
    let u: u32 = c as u32;
    u == 0x20 || u == 0x09 || u == 0x0A || u == 0x0D || u == 0x0B || u == 0x0C || u == 0x85 || u
        == 0xA0 || u == 0x1680 || (0x2000 <= u && u <= 0x200A) || u == 0x2028 || u == 0x2029 || u
        == 0x202F || u == 0x205F || u == 0x3000
}

/// Runtime test matching `blank`.
pub fn is_blank(s: &str) -> (r: bool)
    ensures
        r == blank(s@),
{
    let v = chars_of(s);
    let n: usize = v.len();
    let mut i: usize = 0;
    while i < n
        invariant
            n == v@.len(),
            v@ == s@,
            i <= n,
            forall|k: int| 0 <= k < i ==> is_space_char(#[trigger] s@[k]),
        decreases n - i,
    {
        if !exec_is_space_char(v[i]) {
            return false;
        }
        i = i + 1;
    }
    true
}

/// The in-memory session: the collection, the sidebar filter, the current
/// selection, the editor's two fields, and the two display toggles.
pub struct NoteApp {
    pub notes: Vec<Note>,
    pub filter: String,
    pub selected: Option<usize>,
    pub editor_title: String,
    pub editor_content: String,
    pub is_editing: bool,
    pub dark_mode: bool,
    pub changelogs: Option<String>,
}

impl NoteApp {
    /// Every selection points into the collection.
    pub open spec fn wf(self) -> bool {
        match self.selected {
            Some(i) => i < self.notes@.len(),
            None => true,
        }
    }

    /// The session as it starts: the collection read from storage, no
    /// filter, nothing selected, the editor closed, and the dark theme on.
    pub fn new(notes: Vec<Note>, changelogs: Option<String>) -> (app: NoteApp)
        ensures
            app.notes == notes,
            app.filter@ == Seq::<char>::empty(),
            app.selected is None,
            app.editor_title@ == Seq::<char>::empty(),
            app.editor_content@ == Seq::<char>::empty(),
            !app.is_editing,
            app.dark_mode,
            app.changelogs == changelogs,
            app.wf(),
    {
        NoteApp {
            notes,
            filter: String::new(),
            selected: None,
            editor_title: String::new(),
            editor_content: String::new(),
            is_editing: false,
            dark_mode: true,
            changelogs,
        }
    }

    /// Returning home drops the selection and closes and empties the
    /// editor; the collection and everything else stay.
    pub fn go_home(&mut self)
        ensures
            final(self).notes == old(self).notes,
            final(self).filter == old(self).filter,
            final(self).selected is None,
            !final(self).is_editing,
            final(self).editor_title@ == Seq::<char>::empty(),
            final(self).editor_content@ == Seq::<char>::empty(),
            final(self).dark_mode == old(self).dark_mode,
            final(self).changelogs == old(self).changelogs,
            final(self).wf(),
    {
        self.selected = None;
        self.is_editing = false;
        self.editor_title = String::new();
        self.editor_content = String::new();
    }

    /// Switches between the dark and the light theme; nothing else moves.
    pub fn toggle_theme(&mut self)
        ensures
            final(self).dark_mode == !old(self).dark_mode,
            final(self).notes == old(self).notes,
            final(self).filter == old(self).filter,
            final(self).selected == old(self).selected,
            final(self).editor_title == old(self).editor_title,
            final(self).editor_content == old(self).editor_content,
            final(self).is_editing == old(self).is_editing,
            final(self).changelogs == old(self).changelogs,
            old(self).wf() ==> final(self).wf(),
    {
        self.dark_mode = !self.dark_mode;
    }

    /// Opens the editor on a fresh, empty note; nothing is selected.
    pub fn start_new_note(&mut self)
        ensures
            final(self).notes == old(self).notes,
            final(self).filter == old(self).filter,
            final(self).selected is None,
            final(self).is_editing,
            final(self).editor_title@ == Seq::<char>::empty(),
            final(self).editor_content@ == Seq::<char>::empty(),
            final(self).dark_mode == old(self).dark_mode,
            final(self).changelogs == old(self).changelogs,
            final(self).wf(),
    {
        self.editor_title = String::new();
        self.editor_content = String::new();
        self.is_editing = true;
        self.selected = None;
    }

    /// A changed search text drops the selection.
    pub fn set_filter(&mut self, filter: String)
        ensures
            final(self).filter == filter,
            final(self).selected is None,
            final(self).notes == old(self).notes,
            final(self).editor_title == old(self).editor_title,
            final(self).editor_content == old(self).editor_content,
            final(self).is_editing == old(self).is_editing,
            final(self).dark_mode == old(self).dark_mode,
            final(self).changelogs == old(self).changelogs,
            final(self).wf(),
    {
        self.filter = filter;
        self.selected = None;
    }

    /// The positions of the notes the sidebar lists under the current
    /// filter: in order, without repetition, exactly those that match.
    pub fn filtered_indices(&self) -> (r: Vec<usize>)
        ensures
            forall|k: int| 0 <= k < r@.len() ==> (#[trigger] r@[k]) < self.notes@.len(),
            forall|k1: int, k2: int| 0 <= k1 < k2 < r@.len() ==> r@[k1] < r@[k2],
            forall|j: int|
                0 <= j < self.notes@.len() ==> (spec_note_matches(
                    #[trigger] self.notes@[j]@,
                    self.filter@,
                ) <==> r@.contains(j as usize)),
    {
        let mut r: Vec<usize> = Vec::new();
        let n: usize = self.notes.len();
        let mut i: usize = 0;
        while i < n
            invariant
                n == self.notes@.len(),
                i <= n,
                forall|k: int| 0 <= k < r@.len() ==> (#[trigger] r@[k]) < i,
                forall|k: int|
                    0 <= k < r@.len() ==> spec_note_matches(
                        self.notes@[#[trigger] r@[k] as int]@,
                        self.filter@,
                    ),
                forall|k1: int, k2: int| 0 <= k1 < k2 < r@.len() ==> r@[k1] < r@[k2],
                forall|j: int|
                    0 <= j < i ==> (spec_note_matches(#[trigger] self.notes@[j]@, self.filter@)
                        <==> r@.contains(j as usize)),
            decreases n - i,
        {
            if note_matches(&self.notes[i], self.filter.as_str()) {
                let ghost r0 = r@;
                r.push(i);
                proof {
                    assert(r@[r0.len() as int] == i);
                    assert forall|j: int| 0 <= j < i + 1 implies (spec_note_matches(
                        #[trigger] self.notes@[j]@,
                        self.filter@,
                    ) <==> r@.contains(j as usize)) by {
                        if j < i {
                            if r0.contains(j as usize) {
                                let k = choose|k: int|
                                    0 <= k < r0.len() && r0[k] == j as usize;
                                assert(r@[k] == j as usize);
                            }
                            if r@.contains(j as usize) {
                                let k = choose|k: int|
                                    0 <= k < r@.len() && r@[k] == j as usize;
                                assert(k < r0.len());
                                assert(r0[k] == j as usize);
                            }
                        } else {
                            assert(r@[r0.len() as int] == j as usize);
                        }
                    }
                }
            } else {
                proof {
                    assert forall|j: int| 0 <= j < i + 1 implies (spec_note_matches(
                        #[trigger] self.notes@[j]@,
                        self.filter@,
                    ) <==> r@.contains(j as usize)) by {
                        if j == i {
                            if r@.contains(j as usize) {
                                let k = choose|k: int|
                                    0 <= k < r@.len() && r@[k] == j as usize;
                                assert(r@[k] < i);
                                assert(false);
                            }
                        }
                    }
                }
            }
            i = i + 1;
        }
        r
    }

    /// Clicking a listed note selects it and shows it read-only; the
    /// editor fields take the note's text so an edit can start from it.
    pub fn select_note(&mut self, i: usize)
        requires
            i < old(self).notes@.len(),
        ensures
            final(self).selected == Some(i),
            !final(self).is_editing,
            final(self).editor_title@ == old(self).notes@[i as int].title@,
            final(self).editor_content@ == old(self).notes@[i as int].content@,
            final(self).notes == old(self).notes,
            final(self).filter == old(self).filter,
            final(self).dark_mode == old(self).dark_mode,
            final(self).changelogs == old(self).changelogs,
            final(self).wf(),
    {
        self.editor_title = self.notes[i].title.clone();
        self.editor_content = self.notes[i].content.clone();
        self.selected = Some(i);
        self.is_editing = false;
    }

    /// Opens the editor on the selected note's current text.
    pub fn start_edit(&mut self)
        requires
            old(self).wf(),
            old(self).selected is Some,
        ensures
            final(self).is_editing,
            final(self).selected == old(self).selected,
            final(self).editor_title@ == old(self).notes@[
                old(self).selected->Some_0 as int
            ].title@,
            final(self).editor_content@ == old(self).notes@[
                old(self).selected->Some_0 as int
            ].content@,
            final(self).notes == old(self).notes,
            final(self).filter == old(self).filter,
            final(self).dark_mode == old(self).dark_mode,
            final(self).changelogs == old(self).changelogs,
            final(self).wf(),
    {
        match self.selected {
            Some(i) => {
                self.editor_title = self.notes[i].title.clone();
                self.editor_content = self.notes[i].content.clone();
            },
            None => {},
        }
        self.is_editing = true;
    }

    /// Closes the editor without touching the collection.
    pub fn cancel_edit(&mut self)
        ensures
            !final(self).is_editing,
            final(self).notes == old(self).notes,
            final(self).filter == old(self).filter,
            final(self).selected == old(self).selected,
            final(self).editor_title == old(self).editor_title,
            final(self).editor_content == old(self).editor_content,
            final(self).dark_mode == old(self).dark_mode,
            final(self).changelogs == old(self).changelogs,
            old(self).wf() ==> final(self).wf(),
    {
        self.is_editing = false;
    }

    /// The save click. A title of nothing but white space is refused and
    /// nothing moves. Otherwise, with a note selected, that note takes the
    /// editor's text and `now` as its edit time while its creation time
    /// stays; with no selection a new note is appended with both times set
    /// to `now` and becomes the selection. The editor closes, and the
    /// caller must rewrite the persisted file.
    pub fn commit_editor(&mut self, now: u64) -> (saved: bool)
        requires
            old(self).wf(),
        ensures
            final(self).wf(),
            saved == !blank(old(self).editor_title@),
            !saved ==> *final(self) == *old(self),
            saved ==> !final(self).is_editing,
            saved ==> final(self).editor_title == old(self).editor_title,
            saved ==> final(self).editor_content == old(self).editor_content,
            saved ==> final(self).filter == old(self).filter,
            saved ==> final(self).dark_mode == old(self).dark_mode,
            saved ==> final(self).changelogs == old(self).changelogs,
            saved ==> match old(self).selected {
                Some(i) => final(self).selected == Some(i) && final(self).notes@ == old(
                    self,
                ).notes@.update(
                    i as int,
                    (Note {
                        title: old(self).editor_title,
                        content: old(self).editor_content,
                        created: old(self).notes@[i as int].created,
                        edited: now,
                    }),
                ),
                None => final(self).selected == Some((old(self).notes@.len() as usize))
                    && final(self).notes@ == old(self).notes@.push(
                    (Note {
                        title: old(self).editor_title,
                        content: old(self).editor_content,
                        created: now,
                        edited: now,
                    }),
                ),
            },
    {
        if is_blank(self.editor_title.as_str()) {
            return false;
        }
        match self.selected {
            Some(i) => {
                let created0: u64 = self.notes[i].created;
                let updated = Note {
                    title: self.editor_title.clone(),
                    content: self.editor_content.clone(),
                    created: created0,
                    edited: now,
                };
                self.notes.set(i, updated);
            },
            None => {
                let fresh = Note {
                    title: self.editor_title.clone(),
                    content: self.editor_content.clone(),
                    created: now,
                    edited: now,
                };
                self.notes.push(fresh);
                self.selected = Some(self.notes.len() - 1);
            },
        }
        self.is_editing = false;
        true
    }

    /// The delete click. With a note selected it is removed, the notes
    /// after it move up one position, the selection is dropped and the
    /// editor closes; the caller must rewrite the persisted file. With no
    /// selection nothing moves.
    pub fn delete_selected(&mut self) -> (deleted: bool)
        requires
            old(self).wf(),
        ensures
            final(self).wf(),
            deleted == (old(self).selected is Some),
            !deleted ==> *final(self) == *old(self),
            deleted ==> final(self).notes@ == old(self).notes@.remove(
                old(self).selected->Some_0 as int,
            ),
            deleted ==> final(self).selected is None && !final(self).is_editing,
            deleted ==> final(self).filter == old(self).filter,
            deleted ==> final(self).editor_title == old(self).editor_title,
            deleted ==> final(self).editor_content == old(self).editor_content,
            deleted ==> final(self).dark_mode == old(self).dark_mode,
            deleted ==> final(self).changelogs == old(self).changelogs,
    {
        match self.selected {
            Some(i) => {
                self.notes.remove(i);
                self.selected = None;
                self.is_editing = false;
                true
            },
            None => false,
        }
    }
}

/// Law: committing an edit to a selected note changes that note's text and
/// edit time only. Its creation time stays, every other note stays, the
/// collection keeps its length, and, whenever the clock has not gone
/// backwards since the previous edit, the edit time moves forward only.
/// The collection named here is the one `commit_editor` promises when a
/// note is selected.
pub proof fn lemma_edit_updates_edited_only(before: NoteApp, after: NoteApp, i: usize, now: u64)
    requires
        before.wf(),
        before.selected == Some(i),
        after.notes@ == before.notes@.update(
            i as int,
            (Note {
                title: before.editor_title,
                content: before.editor_content,
                created: before.notes@[i as int].created,
                edited: now,
            }),
        ),
    ensures
        after.notes@[i as int].created == before.notes@[i as int].created,
        now >= before.notes@[i as int].edited ==> after.notes@[i as int].edited >= before.notes@[
            i as int
        ].edited,
        after.notes@.len() == before.notes@.len(),
        forall|j: int|
            0 <= j < before.notes@.len() && j != i ==> after.notes@[j] == before.notes@[j],
{
}

/// Law: no note ever records an edit older than its creation. A fresh note
/// starts with the two timestamps equal, and a commit keeps the invariant
/// for the whole collection whenever the clock reads at or after the
/// edited note's creation time. The collections named here are the ones
/// `commit_editor` promises for its two cases.
pub proof fn lemma_commit_keeps_notes_wf(before: NoteApp, after: NoteApp, now: u64)
    requires
        before.wf(),
        forall|j: int| 0 <= j < before.notes@.len() ==> (#[trigger] before.notes@[j]).wf(),
        match before.selected {
            Some(i) => now >= before.notes@[i as int].created && after.notes@ == before.notes@
                .update(
                i as int,
                (Note {
                    title: before.editor_title,
                    content: before.editor_content,
                    created: before.notes@[i as int].created,
                    edited: now,
                }),
            ),
            None => after.notes@ == before.notes@.push(
                (Note {
                    title: before.editor_title,
                    content: before.editor_content,
                    created: now,
                    edited: now,
                }),
            ),
        },
    ensures
        forall|j: int| 0 <= j < after.notes@.len() ==> (#[trigger] after.notes@[j]).wf(),
{
}

} // verus!
