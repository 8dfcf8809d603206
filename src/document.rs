//! What reading a backing document gave, and the read policy over it: a
//! missing or unparsable document is an empty collection, a failed read is
//! an error.
use vstd::prelude::*;

verus! {

/// The outcome of reading and parsing one backing document.
pub enum Document<T> {
    /// No document exists at the backing path.
    Missing,
    /// The document exists but could not be read; the reason.
    Unreadable(String),
    /// The document was read but does not parse as a collection.
    Malformed,
    /// The collection the document holds.
    Parsed(Vec<T>),
}

/// The collection that a read document stands for, or the reason it could
/// not be read.
pub open spec fn document_contents<T>(doc: Document<T>) -> Result<Seq<T>, Seq<char>> {
    match doc {
        Document::Missing => Ok(Seq::empty()),
        Document::Unreadable(e) => Err(e@),
        Document::Malformed => Ok(Seq::empty()),
        Document::Parsed(v) => Ok(v@),
    }
}

/// The collection held by `doc`: empty where the document is missing or
/// malformed, an error only where it could not be read.
pub fn collection_from_document<T>(doc: Document<T>) -> (r: Result<Vec<T>, String>)
    ensures
        r is Ok <==> document_contents(doc) is Ok,
        r is Ok ==> r->Ok_0@ == document_contents(doc)->Ok_0,
        r is Err ==> r->Err_0@ == document_contents(doc)->Err_0,
{
    match doc {
        Document::Missing => Ok(Vec::new()),
        Document::Unreadable(e) => Err(e),
        Document::Malformed => Ok(Vec::new()),
        Document::Parsed(v) => Ok(v),
    }
}

} // verus!
