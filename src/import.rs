//! Importing a file: a fresh identity, the name of its private copy, and the
//! metadata recorded once the copy is made and its words are counted.
use vstd::prelude::*;
use crate::catalog::FileMetadata;
use crate::stamps::{new_project_id, now_rfc3339};

verus! {

/// The message of the error for a source path without a file name.
pub open spec fn invalid_file_name_message() -> Seq<char> {
    "Invalid file name"@
}

/// The identity and names that an import uses.
#[derive(Clone, Debug)]
pub struct ImportPlan {
    pub project_id: String,
    /// Base name of the source file.
    pub filename: String,
    /// Name of the private copy: `<project_id>_<filename>`.
    pub private_name: String,
}

/// The name of the private copy of `filename` imported as `project_id`.
pub fn private_file_name(project_id: &String, filename: &String) -> (r: String)
    ensures
        r@ == project_id@ + "_"@ + filename@,
{
    let mut s = project_id.clone();
    s.append("_");
    s.append(filename.as_str());
    s
}

/// Plans the import, under identity `project_id`, of a source whose file
/// name is `file_name`; a source without one is refused.
pub fn plan_import_with_id(project_id: String, file_name: Option<String>) -> (r: Result<
    ImportPlan,
    String,
>)
    ensures
        r is Err <==> file_name is None,
        r is Err ==> r->Err_0@ == invalid_file_name_message(),
        r is Ok ==> r->Ok_0.project_id@ == project_id@ && r->Ok_0.filename@ == file_name->Some_0@
            && r->Ok_0.private_name@ == project_id@ + "_"@ + file_name->Some_0@,
{
    match file_name {
        None => Err(String::from_str("Invalid file name")),
        Some(filename) => {
            let private_name = private_file_name(&project_id, &filename);
            Ok(ImportPlan { project_id, filename, private_name })
        },
    }
}

/// Plans the import of a source whose file name is `file_name`, under a
/// fresh random identity.
pub fn plan_import(file_name: Option<String>) -> (r: Result<ImportPlan, String>)
    ensures
        r is Err <==> file_name is None,
        r is Err ==> r->Err_0@ == invalid_file_name_message(),
        r is Ok ==> r->Ok_0.project_id@.len() == 36 && r->Ok_0.filename@ == file_name->Some_0@
            && r->Ok_0.private_name@ == r->Ok_0.project_id@ + "_"@ + file_name->Some_0@,
{
    if file_name.is_none() {
        return Err(String::from_str("Invalid file name"));
    }
    plan_import_with_id(new_project_id(), file_name)
}

/// The metadata of a finished import: the copy at `saved_path` holds
/// `total_words` words, reading starts at word 0, imported at `created_at`.
pub fn imported_metadata(
    plan: ImportPlan,
    saved_path: String,
    total_words: usize,
    created_at: String,
) -> (r: FileMetadata)
    ensures
        r.id@ == plan.project_id@,
        r.filename@ == plan.filename@,
        r.saved_path@ == saved_path@,
        r.total_words == total_words,
        r.current_word_index == 0,
        r.created_at@ == created_at@,
{
    FileMetadata {
        id: plan.project_id,
        filename: plan.filename,
        saved_path,
        total_words,
        current_word_index: 0,
        created_at,
    }
}

/// The metadata of a finished import, stamped with the current time.
pub fn finish_import(plan: ImportPlan, saved_path: String, total_words: usize) -> (r: FileMetadata)
    ensures
        r.id@ == plan.project_id@,
        r.filename@ == plan.filename@,
        r.saved_path@ == saved_path@,
        r.total_words == total_words,
        r.current_word_index == 0,
{
    imported_metadata(plan, saved_path, total_words, now_rfc3339())
}

} // verus!
