//! Files attached to document versions.

use vstd::prelude::*;

use crate::ident::Id;

verus! {

/// A file as the store knows it. The content itself lies in the blob store,
/// under the file's identifier; `file_hash` is the hash of that content.
#[derive(Debug)]
pub struct File {
    pub file_id: Id,
    pub file_name: String,
    pub file_mime_type: String,
    pub file_hash: String,
}

/// What a `File` holds, as plain mathematical values.
pub struct FileView {
    pub file_id: Id,
    pub file_name: Seq<char>,
    pub file_mime_type: Seq<char>,
    pub file_hash: Seq<char>,
}

impl View for File {
    type V = FileView;

    open spec fn view(&self) -> FileView {
        FileView {
            file_id: self.file_id,
            file_name: self.file_name@,
            file_mime_type: self.file_mime_type@,
            file_hash: self.file_hash@,
        }
    }
}

impl File {
    /// A copy of the file's record.
    pub fn duplicate(&self) -> (copy: File)
        ensures
            copy@ == self@,
    {
        File {
            file_id: self.file_id,
            file_name: self.file_name.clone(),
            file_mime_type: self.file_mime_type.clone(),
            file_hash: self.file_hash.clone(),
        }
    }
}

} // verus!
