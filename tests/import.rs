use speed_reader::catalog::upsert_project;
use speed_reader::document::Document;
use speed_reader::import::{finish_import, imported_metadata, plan_import, plan_import_with_id, private_file_name};
use speed_reader::session::{load_project_settings, load_session_progress, save_session_progress, ProjectSettings};
use speed_reader::stream::{read_window, WordCounter};

#[test]
fn private_name_prefixes_the_identity() {
    assert_eq!(private_file_name(&"abc".to_string(), &"notes.txt".to_string()), "abc_notes.txt");
}

#[test]
fn source_without_file_name_is_refused() {
    assert_eq!(plan_import(None).err().unwrap(), "Invalid file name");
    assert_eq!(plan_import_with_id("id".to_string(), None).err().unwrap(), "Invalid file name");
}

#[test]
fn plan_uses_a_fresh_uuid() {
    let a = plan_import(Some("book.txt".to_string())).unwrap();
    let b = plan_import(Some("book.txt".to_string())).unwrap();
    assert_eq!(a.project_id.len(), 36);
    assert!(uuid::Uuid::parse_str(&a.project_id).is_ok());
    assert_ne!(a.project_id, b.project_id);
    assert_eq!(a.filename, "book.txt");
    assert_eq!(a.private_name, format!("{}_book.txt", a.project_id));
}

#[test]
fn imported_metadata_starts_at_word_zero() {
    let plan = plan_import_with_id("id1".to_string(), Some("f.txt".to_string())).unwrap();
    let m = imported_metadata(plan, "/d/files/id1_f.txt".to_string(), 12, "2024-05-01T10:00:00+00:00".to_string());
    assert_eq!(m.id, "id1");
    assert_eq!(m.filename, "f.txt");
    assert_eq!(m.saved_path, "/d/files/id1_f.txt");
    assert_eq!(m.total_words, 12);
    assert_eq!(m.current_word_index, 0);
    assert_eq!(m.created_at, "2024-05-01T10:00:00+00:00");
}

#[test]
fn import_read_and_resume_scenario() {
    let text = vec!["alpha beta gamma".to_string()];
    let plan = plan_import(Some("three.txt".to_string())).unwrap();
    let mut counter = WordCounter::new();
    for line in &text {
        assert!(counter.feed_line(line));
    }
    let m = finish_import(plan, "/d/files/three.txt".to_string(), counter.total());
    assert_eq!(m.total_words, 3);
    assert_eq!(m.current_word_index, 0);
    assert!(chrono::DateTime::parse_from_rfc3339(&m.created_at).is_ok());
    let mut catalog = Vec::new();
    upsert_project(&mut catalog, m.clone());
    assert_eq!(catalog.len(), 1);

    assert_eq!(read_window(&text, 1, 5), vec!["beta", "gamma"]);

    let sessions = save_session_progress(Document::Missing, m.id.clone(), 2).unwrap();
    assert_eq!(load_session_progress(Document::Parsed(sessions.clone()), &m.id).unwrap(), Some(2));
    assert_eq!(load_project_settings(Document::Parsed(sessions), &m.id).unwrap(), Some(ProjectSettings::default()));
}
