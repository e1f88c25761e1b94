use purpose_notes::app::NoteApp;
use purpose_notes::fmt::fmt_ts;
use purpose_notes::note::Note;
use purpose_notes::search::note_matches;
use purpose_notes::storage::Storage;

fn mk(title: &str, content: &str, created: u64, edited: u64) -> Note {
    Note { title: title.to_string(), content: content.to_string(), created, edited }
}

#[test]
fn empty_collection_document() {
    let notes: Vec<Note> = Vec::new();
    assert_eq!(Storage::save_notes(&notes), "[]");
}

#[test]
fn one_note_document_exact() {
    let notes = vec![mk("A", "b", 1, 2)];
    let expected = "[\n  {\n    \"title\": \"A\",\n    \"content\": \"b\",\n    \"created\": 1,\n    \"edited\": 2\n  }\n]";
    assert_eq!(Storage::save_notes(&notes), expected);
}

#[test]
fn round_trip_empty() {
    let notes: Vec<Note> = Vec::new();
    let doc = Storage::save_notes(&notes);
    let back = Storage::parse_notes(doc.as_str()).expect("own document must decode");
    assert!(back.is_empty());
}

#[test]
fn round_trip_collection() {
    let notes = vec![
        mk("Shopping", "milk, eggs", 100, 200),
        mk("quote \" back \\ slash", "line\nbreak\ttab\rcr", 0, u64::MAX),
        mk("h\u{e9}llo \u{2603}", "", 42, 42),
    ];
    let doc = Storage::save_notes(&notes);
    let back = Storage::parse_notes(doc.as_str()).expect("own document must decode");
    assert_eq!(back.len(), notes.len());
    for (a, b) in notes.iter().zip(back.iter()) {
        assert_eq!(a.title, b.title);
        assert_eq!(a.content, b.content);
        assert_eq!(a.created, b.created);
        assert_eq!(a.edited, b.edited);
    }
}

#[test]
fn missing_file_reads_empty() {
    assert!(Storage::load_notes(None).is_empty());
}

#[test]
fn malformed_reads_empty() {
    assert!(Storage::parse_notes("this is not a collection").is_none());
    assert!(Storage::load_notes(Some("this is not a collection")).is_empty());
}

#[test]
fn missing_fields_reads_empty() {
    let doc = "{\"title\":\"A\"}";
    assert!(Storage::parse_notes(doc).is_none());
    assert!(Storage::load_notes(Some(doc)).is_empty());
}

#[test]
fn trailing_text_reads_empty() {
    assert!(Storage::parse_notes("[]extra").is_none());
}

#[test]
fn idempotent_save() {
    let notes = vec![mk("A", "b", 1, 2), mk("C", "d", 3, 4)];
    let first = Storage::save_notes(&notes);
    let second = Storage::save_notes(&notes);
    assert_eq!(first, second);
    let a = Storage::parse_notes(first.as_str()).unwrap();
    let b = Storage::parse_notes(second.as_str()).unwrap();
    assert_eq!(a.len(), b.len());
    for (x, y) in a.iter().zip(b.iter()) {
        assert_eq!(x.title, y.title);
        assert_eq!(x.content, y.content);
        assert_eq!(x.created, y.created);
        assert_eq!(x.edited, y.edited);
    }
}

#[test]
fn largest_timestamp_round_trips() {
    let notes = vec![mk("m", "", u64::MAX, u64::MAX)];
    let doc = Storage::save_notes(&notes);
    assert!(doc.contains("18446744073709551615"));
    let back = Storage::parse_notes(doc.as_str()).unwrap();
    assert_eq!(back[0].created, u64::MAX);
}

#[test]
fn oversized_timestamp_reads_empty() {
    let doc = "[\n  {\n    \"title\": \"A\",\n    \"content\": \"b\",\n    \"created\": 18446744073709551616,\n    \"edited\": 2\n  }\n]";
    assert!(Storage::parse_notes(doc).is_none());
    assert!(Storage::load_notes(Some(doc)).is_empty());
}

#[test]
fn creation_timestamps() {
    let a = Note::new("X");
    assert_eq!(a.created, a.edited);
    assert_eq!(a.title, "X");
    assert_eq!(a.content, "");
    let b = Note::new("X");
    assert_eq!(b.created, b.edited);
    assert!(b.created >= a.created);
}

#[test]
fn edit_updates_edited_only() {
    let notes = vec![mk("Old title", "old body", 5, 5)];
    let mut app = NoteApp::new(notes, None);
    app.select_note(0);
    app.start_edit();
    app.editor_title = "New title".to_string();
    app.editor_content = "new body".to_string();
    let saved = app.commit_editor(9);
    assert!(saved);
    assert_eq!(app.notes.len(), 1);
    assert_eq!(app.notes[0].title, "New title");
    assert_eq!(app.notes[0].content, "new body");
    assert_eq!(app.notes[0].created, 5);
    assert_eq!(app.notes[0].edited, 9);
    assert!(app.notes[0].edited >= 5);
    assert!(!app.is_editing);
}

#[test]
fn blank_title_commit_refused() {
    let mut app = NoteApp::new(Vec::new(), None);
    app.start_new_note();
    app.editor_title = " \t \u{a0} ".to_string();
    app.editor_content = "body".to_string();
    let saved = app.commit_editor(7);
    assert!(!saved);
    assert!(app.notes.is_empty());
    assert!(app.is_editing);
}

#[test]
fn scenario_first_run_create_save_reload() {
    let loaded = Storage::load_notes(None);
    assert!(loaded.is_empty());
    let mut app = NoteApp::new(loaded, None);
    app.start_new_note();
    app.editor_title = "Shopping".to_string();
    app.editor_content = "milk, eggs".to_string();
    let now = Note::now_ts();
    assert!(app.commit_editor(now));
    let doc = Storage::save_notes(&app.notes);
    // A later run starts from the document alone.
    let reloaded = Storage::load_notes(Some(doc.as_str()));
    assert_eq!(reloaded.len(), 1);
    assert_eq!(reloaded[0].title, "Shopping");
    assert_eq!(reloaded[0].content, "milk, eggs");
    assert_eq!(reloaded[0].created, reloaded[0].edited);
}

#[test]
fn deletion_scenario() {
    let notes = vec![mk("A", "", 1, 1), mk("B", "", 2, 2), mk("C", "", 3, 3)];
    let mut app = NoteApp::new(notes, None);
    app.select_note(1);
    let deleted = app.delete_selected();
    assert!(deleted);
    assert_eq!(app.notes.len(), 2);
    assert_eq!(app.notes[0].title, "A");
    assert_eq!(app.notes[1].title, "C");
    assert!(app.selected.is_none());
    let doc = Storage::save_notes(&app.notes);
    let back = Storage::parse_notes(doc.as_str()).unwrap();
    assert_eq!(back.len(), 2);
    assert_eq!(back[0].title, "A");
    assert_eq!(back[1].title, "C");
}

#[test]
fn delete_without_selection_is_refused() {
    let mut app = NoteApp::new(vec![mk("A", "", 1, 1)], None);
    assert!(!app.delete_selected());
    assert_eq!(app.notes.len(), 1);
}

#[test]
fn filter_is_case_insensitive() {
    let n = mk("Hello World", "some CONTENT here", 1, 1);
    assert!(note_matches(&n, ""));
    assert!(note_matches(&n, "WORLD"));
    assert!(note_matches(&n, "hello w"));
    assert!(note_matches(&n, "content HERE"));
    assert!(!note_matches(&n, "absent"));
}

#[test]
fn filtered_indices_lists_matches_in_order() {
    let notes = vec![
        mk("Groceries", "milk", 1, 1),
        mk("Work", "meeting notes", 2, 2),
        mk("More groceries", "eggs and MILK", 3, 3),
    ];
    let mut app = NoteApp::new(notes, None);
    app.set_filter("milk".to_string());
    let shown = app.filtered_indices();
    assert_eq!(shown, vec![0, 2]);
    app.set_filter(String::new());
    let all = app.filtered_indices();
    assert_eq!(all, vec![0, 1, 2]);
    app.set_filter("nothing like this".to_string());
    assert!(app.filtered_indices().is_empty());
}

#[test]
fn search_change_drops_selection() {
    let mut app = NoteApp::new(vec![mk("A", "", 1, 1)], None);
    app.select_note(0);
    assert_eq!(app.selected, Some(0));
    app.set_filter("a".to_string());
    assert!(app.selected.is_none());
}

#[test]
fn timestamp_display() {
    assert_eq!(fmt_ts(1431648000), "2015-05-15 00:00");
    assert_eq!(fmt_ts(0), "1970-01-01 00:00");
}

#[test]
fn home_clears_editor_and_selection() {
    let mut app = NoteApp::new(vec![mk("A", "body", 1, 1)], None);
    app.select_note(0);
    app.start_edit();
    app.go_home();
    assert!(app.selected.is_none());
    assert!(!app.is_editing);
    assert!(app.editor_title.is_empty());
    assert!(app.editor_content.is_empty());
    assert_eq!(app.notes.len(), 1);
}
