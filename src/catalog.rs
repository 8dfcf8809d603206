//! The project catalog: one metadata record per imported file, upserted by
//! its identity.
use vstd::prelude::*;
use crate::keyed::{has_key, position_of, first_with_key, lemma_position_of, lemma_first_exists, lemma_update_keeps_first, lemma_push_is_first};
use crate::document::{Document, document_contents, collection_from_document};

verus! {

/// Metadata of one imported text.
#[derive(Clone, Debug)]
pub struct FileMetadata {
    /// Identity, unique across the catalog.
    pub id: String,
    /// Base name of the file that was imported; for display only.
    pub filename: String,
    /// Path of the private copy that is read back.
    pub saved_path: String,
    /// Word count of the private copy at import time.
    pub total_words: usize,
    /// Last known reading position.
    pub current_word_index: usize,
    /// Import time, RFC 3339.
    pub created_at: String,
}

/// The key of the catalog: a record's identity.
pub open spec fn project_key() -> spec_fn(FileMetadata) -> Seq<char> {
    |m: FileMetadata| m.id@
}

/// `ps` with `m` in place of the first record of the same identity, or with
/// `m` appended where there is none.
pub open spec fn upserted(ps: Seq<FileMetadata>, m: FileMetadata) -> Seq<FileMetadata> {
    if has_key(ps, project_key(), m.id@) {
        ps.update(position_of(ps, project_key(), m.id@), m)
    } else {
        ps.push(m)
    }
}

/// No two records of `ps` share an identity.
pub open spec fn ids_unique(ps: Seq<FileMetadata>) -> bool {
    forall|i: int, j: int| 0 <= i < j < ps.len() ==> ps[i].id@ != ps[j].id@
}

/// Puts `metadata` into the catalog: in place of the record with the same
/// identity, or at the end where there is none.
pub fn upsert_project(projects: &mut Vec<FileMetadata>, metadata: FileMetadata)
    ensures
        final(projects)@ == upserted(old(projects)@, metadata),
{
    let mut i: usize = 0;
    while i < projects.len()
        invariant
            i <= projects.len(),
            projects@ == old(projects)@,
            forall|j: int| 0 <= j < i ==> project_key()(#[trigger] projects@[j]) != metadata.id@,
        decreases projects.len() - i,
    {
        if projects[i].id == metadata.id {
            proof {
                lemma_position_of(projects@, project_key(), metadata.id@, i as int);
            }
            projects.set(i, metadata);
            return;
        }
        i = i + 1;
    }
    projects.push(metadata);
}

/// Upserting the same record twice leaves what the first upsert left.
pub proof fn lemma_upsert_idempotent(ps: Seq<FileMetadata>, m: FileMetadata)
    ensures
        upserted(upserted(ps, m), m) == upserted(ps, m),
{
    let once = upserted(ps, m);
    if has_key(ps, project_key(), m.id@) {
        lemma_update_keeps_first(ps, project_key(), m.id@, m);
        assert(once.update(position_of(ps, project_key(), m.id@), m) =~= once);
    } else {
        lemma_push_is_first(ps, project_key(), m.id@, m);
        assert(once.update(ps.len() as int, m) =~= once);
    }
}

/// Upserting a record whose identity is already present keeps the length
/// and replaces that one record, leaving every other record as it was.
pub proof fn lemma_upsert_existing(ps: Seq<FileMetadata>, m: FileMetadata)
    requires
        exists|i: int| 0 <= i < ps.len() && #[trigger] ps[i].id@ == m.id@,
    ensures
        upserted(ps, m).len() == ps.len(),
        first_with_key(ps, project_key(), m.id@, position_of(ps, project_key(), m.id@)),
        upserted(ps, m)[position_of(ps, project_key(), m.id@)] == m,
        forall|j: int|
            0 <= j < ps.len() && j != position_of(ps, project_key(), m.id@) ==> #[trigger] upserted(
                ps,
                m,
            )[j] == ps[j],
{
    let i = choose|i: int| 0 <= i < ps.len() && #[trigger] ps[i].id@ == m.id@;
    assert(project_key()(ps[i]) == m.id@);
    lemma_first_exists(ps, project_key(), m.id@);
}

/// Upserting keeps identities unique.
pub proof fn lemma_upsert_keeps_ids_unique(ps: Seq<FileMetadata>, m: FileMetadata)
    requires
        ids_unique(ps),
    ensures
        ids_unique(upserted(ps, m)),
{
    if has_key(ps, project_key(), m.id@) {
        lemma_first_exists(ps, project_key(), m.id@);
        let p = position_of(ps, project_key(), m.id@);
        let r = upserted(ps, m);
        assert forall|i: int, j: int| 0 <= i < j < r.len() implies r[i].id@ != r[j].id@ by {
            if i == p {
                assert(ps[j].id@ != ps[p].id@);
            } else if j == p {
                assert(ps[i].id@ != ps[p].id@);
            }
        }
    }
}

/// The catalog that a read document holds; empty where it is missing or
/// malformed.
pub fn load_projects(doc: Document<FileMetadata>) -> (r: Result<Vec<FileMetadata>, String>)
    ensures
        r is Ok <==> document_contents(doc) is Ok,
        r is Ok ==> r->Ok_0@ == document_contents(doc)->Ok_0,
        r is Err ==> r->Err_0@ == document_contents(doc)->Err_0,
        doc is Missing ==> r is Ok && r->Ok_0@.len() == 0,
{
    collection_from_document(doc)
}

/// The catalog to write back after saving `metadata` into the one a read
/// document holds.
pub fn save_project_metadata(doc: Document<FileMetadata>, metadata: FileMetadata) -> (r: Result<
    Vec<FileMetadata>,
    String,
>)
    ensures
        r is Ok <==> document_contents(doc) is Ok,
        r is Ok ==> r->Ok_0@ == upserted(document_contents(doc)->Ok_0, metadata),
        r is Err ==> r->Err_0@ == document_contents(doc)->Err_0,
{
    let mut projects = collection_from_document(doc)?;
    upsert_project(&mut projects, metadata);
    Ok(projects)
}

} // verus!
