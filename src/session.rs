//! The session store: per project, the reading position and the pacing
//! settings, each saved without touching the other.
use vstd::prelude::*;
use crate::keyed::{has_key, position_of, lemma_position_of, lemma_first_exists, lemma_update_keeps_first, lemma_push_is_first};
use crate::document::{Document, document_contents, collection_from_document};
use crate::stamps::now_rfc3339;

verus! {

/// Default word delay, 35.0 ms, as the bits of an `f64`.
pub const DEFAULT_TIME_PER_WORD_BITS: u64 = 0x4041800000000000;

/// Default character delay, 25.0 ms, as the bits of an `f64`.
pub const DEFAULT_TIME_PER_CHARACTER_BITS: u64 = 0x4039000000000000;

/// Default letter spacing, 3.5, as the bits of an `f64`.
pub const DEFAULT_LETTER_SPACING_BITS: u64 = 0x400c000000000000;

/// Default punctuation delay, 50.0 ms, as the bits of an `f64`.
pub const DEFAULT_PUNCTUATION_DELAY_BITS: u64 = 0x4049000000000000;

/// Pacing and typography of one project. The store keeps these verbatim and
/// never interprets them; fractional values are held as the bits of an `f64`.
#[derive(Clone, Copy, Debug, PartialEq, Eq, Structural)]
pub struct ProjectSettings {
    pub time_per_word_bits: u64,
    pub time_per_character_bits: u64,
    pub highlight_orp: bool,
    pub letter_spacing_bits: u64,
    pub punctuation_delay_bits: u64,
    pub trail_words_count: i32,
    pub chunk_size: i32,
    pub skill_level: i32,
}

/// The settings a session gets when none were saved for it.
pub open spec fn default_settings() -> ProjectSettings {
    ProjectSettings {
        time_per_word_bits: DEFAULT_TIME_PER_WORD_BITS,
        time_per_character_bits: DEFAULT_TIME_PER_CHARACTER_BITS,
        highlight_orp: true,
        letter_spacing_bits: DEFAULT_LETTER_SPACING_BITS,
        punctuation_delay_bits: DEFAULT_PUNCTUATION_DELAY_BITS,
        trail_words_count: 5,
        chunk_size: 1,
        skill_level: 1,
    }
}

impl Default for ProjectSettings {
    fn default() -> (r: Self)
        ensures
            r == default_settings(),
    {
        ProjectSettings {
            time_per_word_bits: DEFAULT_TIME_PER_WORD_BITS,
            time_per_character_bits: DEFAULT_TIME_PER_CHARACTER_BITS,
            highlight_orp: true,
            letter_spacing_bits: DEFAULT_LETTER_SPACING_BITS,
            punctuation_delay_bits: DEFAULT_PUNCTUATION_DELAY_BITS,
            trail_words_count: 5,
            chunk_size: 1,
            skill_level: 1,
        }
    }
}

/// Reading progress and settings of one project.
#[derive(Clone, Debug)]
pub struct ProjectSession {
    /// `<project_id>_session`.
    pub session_id: String,
    /// The project this session belongs to; it need not be in the catalog.
    pub project_id: String,
    pub current_word_index: usize,
    /// Time of the last progress or settings save, RFC 3339.
    pub last_read_date: String,
    pub settings: ProjectSettings,
}

/// A session as values.
pub struct SessionRecord {
    pub session_id: Seq<char>,
    pub project_id: Seq<char>,
    pub current_word_index: usize,
    pub last_read_date: Seq<char>,
    pub settings: ProjectSettings,
}

impl View for ProjectSession {
    type V = SessionRecord;

    open spec fn view(&self) -> SessionRecord {
        SessionRecord {
            session_id: self.session_id@,
            project_id: self.project_id@,
            current_word_index: self.current_word_index,
            last_read_date: self.last_read_date@,
            settings: self.settings,
        }
    }
}

/// The views of a vector of sessions.
pub open spec fn records(v: Seq<ProjectSession>) -> Seq<SessionRecord> {
    v.map_values(|s: ProjectSession| s@)
}

/// The key of the store: the project a session belongs to.
pub open spec fn session_key() -> spec_fn(SessionRecord) -> Seq<char> {
    |r: SessionRecord| r.project_id
}

/// The session identity derived from a project identity.
pub open spec fn session_id_for(project_id: Seq<char>) -> Seq<char> {
    project_id + "_session"@
}

/// The store after saving position `index` for `project_id` at time `now`:
/// the first session of the project keeps its settings; a new one gets the
/// default settings.
pub open spec fn with_progress(
    rs: Seq<SessionRecord>,
    project_id: Seq<char>,
    index: usize,
    now: Seq<char>,
) -> Seq<SessionRecord> {
    if has_key(rs, session_key(), project_id) {
        let p = position_of(rs, session_key(), project_id);
        rs.update(
            p,
            SessionRecord {
                session_id: rs[p].session_id,
                project_id: rs[p].project_id,
                current_word_index: index,
                last_read_date: now,
                settings: rs[p].settings,
            },
        )
    } else {
        rs.push(
            SessionRecord {
                session_id: session_id_for(project_id),
                project_id,
                current_word_index: index,
                last_read_date: now,
                settings: default_settings(),
            },
        )
    }
}

/// The store after saving `settings` for `project_id` at time `now`: the
/// first session of the project keeps its position; a new one starts at 0.
pub open spec fn with_settings(
    rs: Seq<SessionRecord>,
    project_id: Seq<char>,
    settings: ProjectSettings,
    now: Seq<char>,
) -> Seq<SessionRecord> {
    if has_key(rs, session_key(), project_id) {
        let p = position_of(rs, session_key(), project_id);
        rs.update(
            p,
            SessionRecord {
                session_id: rs[p].session_id,
                project_id: rs[p].project_id,
                current_word_index: rs[p].current_word_index,
                last_read_date: now,
                settings,
            },
        )
    } else {
        rs.push(
            SessionRecord {
                session_id: session_id_for(project_id),
                project_id,
                current_word_index: 0,
                last_read_date: now,
                settings,
            },
        )
    }
}

/// The settings of the first session of `project_id`, if any.
pub open spec fn settings_of(rs: Seq<SessionRecord>, project_id: Seq<char>) -> Option<
    ProjectSettings,
> {
    if has_key(rs, session_key(), project_id) {
        Some(rs[position_of(rs, session_key(), project_id)].settings)
    } else {
        None
    }
}

/// The position of the first session of `project_id`, if any.
pub open spec fn progress_of(rs: Seq<SessionRecord>, project_id: Seq<char>) -> Option<usize> {
    if has_key(rs, session_key(), project_id) {
        Some(rs[position_of(rs, session_key(), project_id)].current_word_index)
    } else {
        None
    }
}

/// The index of the first session of `project_id` in `sessions`, if any.
fn find_session(sessions: &Vec<ProjectSession>, project_id: &String) -> (r: Option<usize>)
    ensures
        r is Some <==> has_key(records(sessions@), session_key(), project_id@),
        r is Some ==> r->Some_0 == position_of(records(sessions@), session_key(), project_id@),
        r is Some ==> r->Some_0 < sessions@.len(),
{
    let ghost rs = records(sessions@);
    let mut i: usize = 0;
    while i < sessions.len()
        invariant
            i <= sessions.len(),
            rs == records(sessions@),
            forall|j: int| 0 <= j < i ==> session_key()(#[trigger] rs[j]) != project_id@,
        decreases sessions.len() - i,
    {
        if sessions[i].project_id == *project_id {
            proof {
                lemma_position_of(rs, session_key(), project_id@, i as int);
            }
            return Some(i);
        }
        i = i + 1;
    }
    proof {
        if has_key(rs, session_key(), project_id@) {
            let w = choose|w: int| 0 <= w < rs.len() && session_key()(#[trigger] rs[w]) == project_id@;
            assert(session_key()(rs[w]) != project_id@);
        }
    }
    None
}

/// `<project_id>_session`.
fn make_session_id(project_id: &String) -> (r: String)
    ensures
        r@ == session_id_for(project_id@),
{
    let mut s = project_id.clone();
    s.append("_session");
    s
}

/// Saves reading position `word_index` for `project_id`, stamped `now`.
pub fn record_progress(
    sessions: &mut Vec<ProjectSession>,
    project_id: String,
    word_index: usize,
    now: String,
)
    ensures
        records(final(sessions)@) == with_progress(
            records(old(sessions)@),
            project_id@,
            word_index,
            now@,
        ),
{
    let ghost rs = records(sessions@);
    match find_session(sessions, &project_id) {
        Some(i) => {
            let prev = &sessions[i];
            let updated = ProjectSession {
                session_id: prev.session_id.clone(),
                project_id: prev.project_id.clone(),
                current_word_index: word_index,
                last_read_date: now,
                settings: prev.settings,
            };
            sessions.set(i, updated);
            assert(records(sessions@) =~= with_progress(rs, project_id@, word_index, now@));
        },
        None => {
            let created = ProjectSession {
                session_id: make_session_id(&project_id),
                project_id,
                current_word_index: word_index,
                last_read_date: now,
                settings: ProjectSettings::default(),
            };
            sessions.push(created);
            assert(records(sessions@) =~= with_progress(rs, created.project_id@, word_index, created.last_read_date@));
        },
    }
}

/// Saves `settings` for `project_id`, stamped `now`.
pub fn record_settings(
    sessions: &mut Vec<ProjectSession>,
    project_id: String,
    settings: ProjectSettings,
    now: String,
)
    ensures
        records(final(sessions)@) == with_settings(
            records(old(sessions)@),
            project_id@,
            settings,
            now@,
        ),
{
    let ghost rs = records(sessions@);
    match find_session(sessions, &project_id) {
        Some(i) => {
            let prev = &sessions[i];
            let updated = ProjectSession {
                session_id: prev.session_id.clone(),
                project_id: prev.project_id.clone(),
                current_word_index: prev.current_word_index,
                last_read_date: now,
                settings,
            };
            sessions.set(i, updated);
            assert(records(sessions@) =~= with_settings(rs, project_id@, settings, now@));
        },
        None => {
            let created = ProjectSession {
                session_id: make_session_id(&project_id),
                project_id,
                current_word_index: 0,
                last_read_date: now,
                settings,
            };
            sessions.push(created);
            assert(records(sessions@) =~= with_settings(rs, created.project_id@, settings, created.last_read_date@));
        },
    }
}

/// The settings saved for `project_id`, if it has a session.
pub fn settings_for(sessions: &Vec<ProjectSession>, project_id: &String) -> (r: Option<
    ProjectSettings,
>)
    ensures
        r == settings_of(records(sessions@), project_id@),
{
    match find_session(sessions, project_id) {
        Some(i) => Some(sessions[i].settings),
        None => None,
    }
}

/// The reading position saved for `project_id`, if it has a session.
pub fn progress_for(sessions: &Vec<ProjectSession>, project_id: &String) -> (r: Option<usize>)
    ensures
        r == progress_of(records(sessions@), project_id@),
{
    match find_session(sessions, project_id) {
        Some(i) => Some(sessions[i].current_word_index),
        None => None,
    }
}

/// The sessions that a read document holds; none where it is missing or
/// malformed.
pub fn load_sessions(doc: Document<ProjectSession>) -> (r: Result<Vec<ProjectSession>, String>)
    ensures
        r is Ok <==> document_contents(doc) is Ok,
        r is Ok ==> r->Ok_0@ == document_contents(doc)->Ok_0,
        r is Err ==> r->Err_0@ == document_contents(doc)->Err_0,
        doc is Missing ==> r is Ok && r->Ok_0@.len() == 0,
{
    collection_from_document(doc)
}

/// The sessions to write back after saving position `word_index` for
/// `project_id`, at the current time, into those a read document holds.
pub fn save_session_progress(doc: Document<ProjectSession>, project_id: String, word_index: usize) -> (r:
    Result<Vec<ProjectSession>, String>)
    ensures
        r is Ok <==> document_contents(doc) is Ok,
        r is Ok ==> exists|now: Seq<char>|
            records(r->Ok_0@) == with_progress(
                records(document_contents(doc)->Ok_0),
                project_id@,
                word_index,
                now,
            ),
        r is Err ==> r->Err_0@ == document_contents(doc)->Err_0,
{
    let mut sessions = collection_from_document(doc)?;
    let now = now_rfc3339();
    let ghost stamp = now@;
    record_progress(&mut sessions, project_id, word_index, now);
    assert(records(sessions@) == with_progress(records(document_contents(doc)->Ok_0), project_id@, word_index, stamp));
    Ok(sessions)
}

/// The sessions to write back after saving `settings` for `project_id`, at
/// the current time, into those a read document holds.
pub fn save_project_settings(
    doc: Document<ProjectSession>,
    project_id: String,
    settings: ProjectSettings,
) -> (r: Result<Vec<ProjectSession>, String>)
    ensures
        r is Ok <==> document_contents(doc) is Ok,
        r is Ok ==> exists|now: Seq<char>|
            records(r->Ok_0@) == with_settings(
                records(document_contents(doc)->Ok_0),
                project_id@,
                settings,
                now,
            ),
        r is Err ==> r->Err_0@ == document_contents(doc)->Err_0,
{
    let mut sessions = collection_from_document(doc)?;
    let now = now_rfc3339();
    let ghost stamp = now@;
    record_settings(&mut sessions, project_id, settings, now);
    assert(records(sessions@) == with_settings(records(document_contents(doc)->Ok_0), project_id@, settings, stamp));
    Ok(sessions)
}

/// The settings saved for `project_id` in a read document; none where the
/// document is missing or malformed.
pub fn load_project_settings(doc: Document<ProjectSession>, project_id: &String) -> (r: Result<
    Option<ProjectSettings>,
    String,
>)
    ensures
        r is Ok <==> document_contents(doc) is Ok,
        r is Ok ==> r->Ok_0 == settings_of(records(document_contents(doc)->Ok_0), project_id@),
        r is Err ==> r->Err_0@ == document_contents(doc)->Err_0,
        doc is Missing ==> r == Ok::<Option<ProjectSettings>, String>(None),
{
    let sessions = collection_from_document(doc)?;
    proof {
        if sessions@.len() == 0 {
            assert(!has_key(records(sessions@), session_key(), project_id@));
        }
    }
    Ok(settings_for(&sessions, project_id))
}

/// The reading position saved for `project_id` in a read document; none
/// where the document is missing or malformed.
pub fn load_session_progress(doc: Document<ProjectSession>, project_id: &String) -> (r: Result<
    Option<usize>,
    String,
>)
    ensures
        r is Ok <==> document_contents(doc) is Ok,
        r is Ok ==> r->Ok_0 == progress_of(records(document_contents(doc)->Ok_0), project_id@),
        r is Err ==> r->Err_0@ == document_contents(doc)->Err_0,
        doc is Missing ==> r == Ok::<Option<usize>, String>(None),
{
    let sessions = collection_from_document(doc)?;
    proof {
        if sessions@.len() == 0 {
            assert(!has_key(records(sessions@), session_key(), project_id@));
        }
    }
    Ok(progress_for(&sessions, project_id))
}

/// Saving a position leaves the project with settings: those it had, or the
/// defaults where it had no session; and the position saved.
pub proof fn lemma_progress_then_settings(
    rs: Seq<SessionRecord>,
    project_id: Seq<char>,
    index: usize,
    now: Seq<char>,
)
    ensures
        settings_of(with_progress(rs, project_id, index, now), project_id) == Some(
            match settings_of(rs, project_id) {
                Some(s) => s,
                None => default_settings(),
            },
        ),
        progress_of(with_progress(rs, project_id, index, now), project_id) == Some(index),
{
    if has_key(rs, session_key(), project_id) {
        let p = position_of(rs, session_key(), project_id);
        lemma_first_exists(rs, session_key(), project_id);
        lemma_update_keeps_first(rs, session_key(), project_id, with_progress(rs, project_id, index, now)[p]);
    } else {
        lemma_push_is_first(rs, session_key(), project_id, with_progress(rs, project_id, index, now).last());
    }
}

/// Saving settings leaves the project with a position: the one it had, or 0
/// where it had no session; and the settings saved.
pub proof fn lemma_settings_then_progress(
    rs: Seq<SessionRecord>,
    project_id: Seq<char>,
    settings: ProjectSettings,
    now: Seq<char>,
)
    ensures
        progress_of(with_settings(rs, project_id, settings, now), project_id) == Some(
            match progress_of(rs, project_id) {
                Some(i) => i,
                None => 0usize,
            },
        ),
        settings_of(with_settings(rs, project_id, settings, now), project_id) == Some(settings),
{
    if has_key(rs, session_key(), project_id) {
        let p = position_of(rs, session_key(), project_id);
        lemma_first_exists(rs, session_key(), project_id);
        lemma_update_keeps_first(rs, session_key(), project_id, with_settings(rs, project_id, settings, now)[p]);
    } else {
        lemma_push_is_first(rs, session_key(), project_id, with_settings(rs, project_id, settings, now).last());
    }
}

} // verus!
