use speed_reader::catalog::{load_projects, save_project_metadata, upsert_project, FileMetadata};
use speed_reader::document::{collection_from_document, Document};
use speed_reader::session::{
    load_project_settings, load_session_progress, load_sessions, progress_for, record_progress,
    record_settings, save_project_settings, save_session_progress, settings_for, ProjectSession,
    ProjectSettings,
};

fn meta(id: &str, name: &str, words: usize) -> FileMetadata {
    FileMetadata {
        id: id.to_string(),
        filename: name.to_string(),
        saved_path: format!("/data/files/{}_{}", id, name),
        total_words: words,
        current_word_index: 0,
        created_at: "2024-01-01T00:00:00+00:00".to_string(),
    }
}

fn ids(ps: &[FileMetadata]) -> Vec<String> {
    ps.iter().map(|p| p.id.clone()).collect()
}

fn custom_settings() -> ProjectSettings {
    ProjectSettings {
        time_per_word_bits: 120.0f64.to_bits(),
        time_per_character_bits: 10.5f64.to_bits(),
        highlight_orp: false,
        letter_spacing_bits: 0.0f64.to_bits(),
        punctuation_delay_bits: 80.0f64.to_bits(),
        trail_words_count: 2,
        chunk_size: 3,
        skill_level: 4,
    }
}

#[test]
fn upsert_appends_a_new_project() {
    let mut ps = vec![meta("a", "a.txt", 1)];
    upsert_project(&mut ps, meta("b", "b.txt", 2));
    assert_eq!(ids(&ps), vec!["a", "b"]);
    assert_eq!(ps[1].total_words, 2);
}

#[test]
fn upsert_replaces_the_project_with_the_same_id() {
    let mut ps = vec![meta("a", "a.txt", 1), meta("b", "b.txt", 2), meta("c", "c.txt", 3)];
    let mut changed = meta("b", "renamed.txt", 20);
    changed.current_word_index = 7;
    upsert_project(&mut ps, changed);
    assert_eq!(ids(&ps), vec!["a", "b", "c"]);
    assert_eq!(ps[1].filename, "renamed.txt");
    assert_eq!(ps[1].total_words, 20);
    assert_eq!(ps[1].current_word_index, 7);
    assert_eq!(ps[0].filename, "a.txt");
    assert_eq!(ps[2].filename, "c.txt");
}

#[test]
fn upsert_twice_is_upsert_once() {
    let m = meta("x", "x.txt", 9);
    let mut once = vec![meta("a", "a.txt", 1)];
    upsert_project(&mut once, m.clone());
    let mut twice = once.clone();
    upsert_project(&mut twice, m.clone());
    assert_eq!(ids(&once), ids(&twice));
    assert_eq!(twice.len(), 2);
    assert_eq!(twice[1].total_words, 9);
}

#[test]
fn missing_document_is_an_empty_catalog() {
    assert!(load_projects(Document::Missing).unwrap().is_empty());
    assert!(load_sessions(Document::Missing).unwrap().is_empty());
}

#[test]
fn malformed_document_is_an_empty_catalog() {
    assert!(load_projects(Document::Malformed).unwrap().is_empty());
    assert!(collection_from_document::<u8>(Document::Malformed).unwrap().is_empty());
}

#[test]
fn unreadable_document_is_an_error() {
    let r = load_projects(Document::Unreadable("permission denied".to_string()));
    assert_eq!(r.err().unwrap(), "permission denied");
    let r = save_project_metadata(Document::Unreadable("busy".to_string()), meta("a", "a.txt", 1));
    assert_eq!(r.err().unwrap(), "busy");
}

#[test]
fn save_project_metadata_upserts_into_the_document() {
    let doc = Document::Parsed(vec![meta("a", "a.txt", 1), meta("b", "b.txt", 2)]);
    let ps = save_project_metadata(doc, meta("a", "again.txt", 5)).unwrap();
    assert_eq!(ids(&ps), vec!["a", "b"]);
    assert_eq!(ps[0].filename, "again.txt");
    let ps = save_project_metadata(Document::Missing, meta("n", "n.txt", 4)).unwrap();
    assert_eq!(ids(&ps), vec!["n"]);
}

#[test]
fn default_settings_have_documented_values() {
    let d = ProjectSettings::default();
    assert_eq!(f64::from_bits(d.time_per_word_bits), 35.0);
    assert_eq!(f64::from_bits(d.time_per_character_bits), 25.0);
    assert!(d.highlight_orp);
    assert_eq!(f64::from_bits(d.letter_spacing_bits), 3.5);
    assert_eq!(f64::from_bits(d.punctuation_delay_bits), 50.0);
    assert_eq!(d.trail_words_count, 5);
    assert_eq!(d.chunk_size, 1);
    assert_eq!(d.skill_level, 1);
}

#[test]
fn progress_save_creates_a_session_with_default_settings() {
    let mut ss: Vec<ProjectSession> = Vec::new();
    record_progress(&mut ss, "p1".to_string(), 42, "t1".to_string());
    assert_eq!(ss.len(), 1);
    assert_eq!(ss[0].session_id, "p1_session");
    assert_eq!(ss[0].project_id, "p1");
    assert_eq!(ss[0].last_read_date, "t1");
    let id = "p1".to_string();
    assert_eq!(progress_for(&ss, &id), Some(42));
    assert_eq!(settings_for(&ss, &id), Some(ProjectSettings::default()));
}

#[test]
fn settings_save_creates_a_session_at_word_zero() {
    let mut ss: Vec<ProjectSession> = Vec::new();
    record_settings(&mut ss, "p1".to_string(), custom_settings(), "t1".to_string());
    let id = "p1".to_string();
    assert_eq!(progress_for(&ss, &id), Some(0));
    assert_eq!(settings_for(&ss, &id), Some(custom_settings()));
    assert_eq!(ss[0].session_id, "p1_session");
}

#[test]
fn progress_save_keeps_saved_settings() {
    let mut ss: Vec<ProjectSession> = Vec::new();
    record_settings(&mut ss, "p1".to_string(), custom_settings(), "t1".to_string());
    record_progress(&mut ss, "p2".to_string(), 3, "t2".to_string());
    record_progress(&mut ss, "p1".to_string(), 17, "t3".to_string());
    assert_eq!(ss.len(), 2);
    let id = "p1".to_string();
    assert_eq!(settings_for(&ss, &id), Some(custom_settings()));
    assert_eq!(progress_for(&ss, &id), Some(17));
    assert_eq!(ss[0].last_read_date, "t3");
    assert_eq!(progress_for(&ss, &"p2".to_string()), Some(3));
}

#[test]
fn settings_save_keeps_saved_progress() {
    let mut ss: Vec<ProjectSession> = Vec::new();
    record_progress(&mut ss, "p1".to_string(), 99, "t1".to_string());
    record_settings(&mut ss, "p1".to_string(), custom_settings(), "t2".to_string());
    assert_eq!(ss.len(), 1);
    let id = "p1".to_string();
    assert_eq!(progress_for(&ss, &id), Some(99));
    assert_eq!(settings_for(&ss, &id), Some(custom_settings()));
    assert_eq!(ss[0].last_read_date, "t2");
}

#[test]
fn lookups_of_unknown_projects_are_absent() {
    let id = "nobody".to_string();
    assert_eq!(load_project_settings(Document::Missing, &id).unwrap(), None);
    assert_eq!(load_session_progress(Document::Missing, &id).unwrap(), None);
    assert_eq!(load_session_progress(Document::Malformed, &id).unwrap(), None);
    let mut ss: Vec<ProjectSession> = Vec::new();
    record_progress(&mut ss, "p1".to_string(), 1, "t".to_string());
    assert_eq!(load_session_progress(Document::Parsed(ss), &id).unwrap(), None);
}

#[test]
fn session_saves_on_documents() {
    let ss = save_session_progress(Document::Missing, "p".to_string(), 2).unwrap();
    assert_eq!(ss.len(), 1);
    assert!(chrono::DateTime::parse_from_rfc3339(&ss[0].last_read_date).is_ok());
    let ss = save_project_settings(Document::Parsed(ss), "p".to_string(), custom_settings()).unwrap();
    assert_eq!(ss.len(), 1);
    let id = "p".to_string();
    assert_eq!(load_session_progress(Document::Parsed(ss.clone()), &id).unwrap(), Some(2));
    assert_eq!(load_project_settings(Document::Parsed(ss), &id).unwrap(), Some(custom_settings()));
    let r = save_session_progress(Document::Unreadable("gone".to_string()), "p".to_string(), 2);
    assert_eq!(r.err().unwrap(), "gone");
}
