//! The note record: the unit of stored data.
use vstd::prelude::*;

verus! {

/// A single user-authored record: a display title, a free-text body, and
/// two timestamps counted in whole seconds since the Unix epoch.
/// `created` is set once at construction; `edited` starts equal to it and
/// is reset to the current time on every committed edit.
#[derive(Clone)]
pub struct Note {
    pub title: String,
    pub content: String,
    pub created: u64,
    pub edited: u64,
}

/// The mathematical value of a `Note`: the two strings as character
/// sequences together with the two timestamps.
#[verifier::ext_equal]
pub struct NoteView {
    pub title: Seq<char>,
    pub content: Seq<char>,
    pub created: u64,
    pub edited: u64,
}

impl View for Note {
    type V = NoteView;

    open spec fn view(&self) -> NoteView {
        NoteView {
            title: self.title@,
            content: self.content@,
            created: self.created,
            edited: self.edited,
        }
    }
}

impl Note {
    /// A note never records an edit older than its creation.
    pub open spec fn wf(self) -> bool {
        self.edited >= self.created
    }

    /// Wall-clock time as whole seconds since the Unix epoch.
    ///
    /// Relies on `std::time::SystemTime::now` and `duration_since(UNIX_EPOCH)`:
    /// the elapsed time since the epoch, in seconds. Aborts if the system
    /// clock reads earlier than the epoch; the design treats an unreadable
    /// clock as fatal.
    #[verifier::external_body]
    pub fn now_ts() -> u64 {
        std::time::SystemTime::now()
            .duration_since(std::time::UNIX_EPOCH)
            .unwrap()
            .as_secs()
    }

    /// A fresh note: the given title, an empty body, and both timestamps
    /// set to the same reading of the clock.
    pub fn new(title: &str) -> (note: Note)
        ensures
            note.title@ == title@,
            note.content@ == Seq::<char>::empty(),
            note.created == note.edited,
            note.wf(),
    {
        let now = Note::now_ts();
        Note { title: title.to_owned(), content: String::new(), created: now, edited: now }
    }
}

} // verus!
