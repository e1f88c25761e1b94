//! Whole-collection load and save: the stateless translation between the
//! in-memory collection and its persisted document. Reading and writing
//! the file itself is the caller's business; these functions decide what
//! the file holds and what a given file means.
use vstd::prelude::*;
use crate::note::Note;
use crate::parse::{p_doc, parse_doc};
use crate::ser::{ser_doc, serialize_notes, views_of};
use crate::text::chars_of;

verus! {

/// The stateless translator between note collections and persisted
/// documents.
pub struct Storage;

impl Storage {
    /// The document a save writes: the whole collection, serialized as one
    /// pretty-printed structured text document. Saving the same collection
    /// twice writes the same document, character for character.
    pub fn save_notes(notes: &Vec<Note>) -> (r: String)
        ensures
            r@ == ser_doc(views_of(notes@)),
    {
        serialize_notes(notes)
    }

    /// Decodes a persisted document: the collection it holds, or `None`
    /// exactly when the text is not a well-formed collection document.
    pub fn parse_notes(text: &str) -> (r: Option<Vec<Note>>)
        ensures
            match r {
                Some(v) => parse_doc(text@) == Some(views_of(v@)),
                None => parse_doc(text@) is None,
            },
    {
        let v = chars_of(text);
        p_doc(&v)
    }

    /// The collection read at startup. `file` is the persisted document if
    /// one exists: a missing file reads as the empty collection, and so
    /// does a document that cannot be decoded; neither is an error to the
    /// caller.
    pub fn load_notes(file: Option<&str>) -> (r: Vec<Note>)
        ensures
            match file {
                None => r@.len() == 0,
                Some(text) => match parse_doc(text@) {
                    Some(ns) => views_of(r@) == ns,
                    None => r@.len() == 0,
                },
            },
    {
        match file {
            None => Vec::new(),
            Some(text) => match Self::parse_notes(text) {
                Some(v) => v,
                None => Vec::new(),
            },
        }
    }
}

} // verus!
