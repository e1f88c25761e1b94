//! Core of a single-user note-taking application: note records with
//! creation and edit timestamps, a verified textual codec for persisting
//! the whole collection, and the session state machine that the
//! presentation layer drives.
pub mod app;
pub mod fmt;
pub mod note;
pub mod parse;
pub mod roundtrip;
pub mod search;
pub mod ser;
pub mod storage;
pub mod text;
