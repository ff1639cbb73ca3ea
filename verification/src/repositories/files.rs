//! The file store: the records of uploaded files, and which file is attached
//! to which document version. The content of a file lies in a blob store
//! outside this library; the store decides what is put there and what is
//! taken away.
//!
//! Content is filed once: an upload whose name and content equal those of a
//! file already known is answered with that file.
//!
//! Files are attached to versions, detached from them and listed for them
//! through the version graph store, which knows the versions.

use vstd::prelude::*;

use crate::digest::{file_hash, hex_lower, sha256};
use crate::ident::{fresh_id, Id};
use crate::models::attachment::{File, FileView};
use crate::repositories::documents::{DocumentsRepository, DocumentsState};
use crate::repositories::permission::{PermissionRepository, PermissionState};
use crate::repositories::RepoError;

verus! {

/// One file attached to one version of one document.
#[derive(Debug, Clone, Copy, PartialEq, Eq, Structural)]
pub struct Attachment {
    pub document_id: Id,
    pub version_id: Id,
    pub file_id: Id,
}

/// The identifiers of the files among `files` with the name `file_name` and
/// the hash `hash`, in order.
pub open spec fn candidates_among(files: Seq<FileView>, file_name: Seq<char>, hash: Seq<char>) -> Seq<
    Id,
>
    decreases files.len(),
{
    if files.len() == 0 {
        Seq::empty()
    } else {
        let earlier = candidates_among(files.drop_last(), file_name, hash);
        if files.last().file_name == file_name && files.last().file_hash == hash {
            earlier.push(files.last().file_id)
        } else {
            earlier
        }
    }
}

/// The first of `candidates` whose content, as found in the blob store, is
/// `content`. `blobs` holds the content of each candidate, in their order.
pub open spec fn first_match(candidates: Seq<Id>, blobs: Seq<Vec<u8>>, content: Seq<u8>) -> Option<
    Id,
>
    decreases candidates.len(),
{
    if candidates.len() == 0 || blobs.len() != candidates.len() {
        None
    } else {
        match first_match(candidates.drop_last(), blobs.drop_last(), content) {
            Some(file_id) => Some(file_id),
            None => if blobs.last()@ == content {
                Some(candidates.last())
            } else {
                None
            },
        }
    }
}

/// The rows of the file store, oldest first.
pub struct FilesState {
    pub files: Seq<FileView>,
    pub attachments: Seq<Attachment>,
}

impl FilesState {
    /// Row `i` is the file `file_id`.
    pub open spec fn is_file(self, i: int, file_id: Id) -> bool {
        0 <= i < self.files.len() && self.files[i].file_id == file_id
    }

    /// The file `file_id` is known.
    pub open spec fn has_file(self, file_id: Id) -> bool {
        exists|i: int| self.is_file(i, file_id)
    }

    /// The row of the file `file_id`, where it is known.
    pub open spec fn file_row(self, file_id: Id) -> int {
        choose|i: int| self.is_file(i, file_id)
    }

    /// The file `file_id` is attached to some version.
    pub open spec fn is_attached(self, file_id: Id) -> bool {
        exists|k: int|
            0 <= k < self.attachments.len() && (#[trigger] self.attachments[k]).file_id == file_id
    }

    /// No two files share an identifier, every attached file is known, and
    /// no attachment is recorded twice.
    pub open spec fn wf(self) -> bool {
        &&& forall|i: int, j: int|
            #![trigger self.files[i], self.files[j]]
            0 <= i < self.files.len() && 0 <= j < self.files.len() && self.files[i].file_id
                == self.files[j].file_id ==> i == j
        &&& forall|k: int|
            0 <= k < self.attachments.len() ==> self.has_file(
                (#[trigger] self.attachments[k]).file_id,
            )
        &&& self.attachments.no_duplicates()
    }

    /// The store with one more file.
    pub open spec fn with_file(self, file: FileView) -> FilesState {
        FilesState { files: self.files.push(file), ..self }
    }

    /// The store without the file in row `i`.
    pub open spec fn without_file(self, i: int) -> FilesState {
        FilesState { files: self.files.remove(i), ..self }
    }

    /// The store with one more attachment.
    pub open spec fn with_attachment(self, attachment: Attachment) -> FilesState {
        FilesState { attachments: self.attachments.push(attachment), ..self }
    }

    /// The store with `attachment` taken out.
    pub open spec fn without_attachment(self, attachment: Attachment) -> FilesState {
        FilesState {
            attachments: self.attachments.remove(self.attachments.index_of(attachment)),
            ..self
        }
    }

    /// The files that could hold an upload already: those with its name and
    /// the hash of its content.
    pub open spec fn candidates(self, file_name: Seq<char>, content: Seq<u8>) -> Seq<Id> {
        candidates_among(self.files, file_name, hex_lower(sha256(content)))
    }

    /// What filing an upload does, once the blob store has shown under which
    /// known file, if any, the content already lies.
    ///
    /// Content that lies there is answered with that file and changes
    /// nothing; `to_store` is then empty. Otherwise the file is recorded under
    /// `file_id`, which `to_store` names so that the content is put into the
    /// blob store under it; an identifier in use is a failure of the store.
    pub open spec fn files_upload(
        self,
        after: FilesState,
        result: Result<File, RepoError>,
        to_store: Option<Id>,
        known: Option<Id>,
        file_id: Id,
        file_name: Seq<char>,
        file_mime_type: Seq<char>,
        content: Seq<u8>,
    ) -> bool {
        match known {
            Some(known_id) => {
                &&& after == self
                &&& to_store is None
                &&& if self.has_file(known_id) {
                    result matches Ok(file) && file@ == self.files[self.file_row(known_id)]
                } else {
                    result == Err::<File, RepoError>(RepoError::NotFound)
                }
            },
            None => if self.has_file(file_id) {
                result == Err::<File, RepoError>(RepoError::StoreFailure) && after == self
                    && to_store is None
            } else {
                let file = FileView {
                    file_id,
                    file_name,
                    file_mime_type,
                    file_hash: hex_lower(sha256(content)),
                };
                &&& after == self.with_file(file)
                &&& to_store == Some(file_id)
                &&& result matches Ok(filed)
                &&& filed@ == file
            },
        }
    }

    /// What a request to delete a file does: a file that is known and
    /// attached nowhere is forgotten, which the result reports as `true`, and
    /// its content is then to be taken out of the blob store; otherwise
    /// nothing changes.
    pub open spec fn deletes_file(self, after: FilesState, deleted: bool, file_id: Id) -> bool {
        if self.has_file(file_id) && !self.is_attached(file_id) {
            deleted && after == self.without_file(self.file_row(file_id))
        } else {
            !deleted && after == self
        }
    }

    /// What attaching a file to a version does: `NotFound` where the version
    /// or the file does not exist; nothing, reported as `false`, where it is
    /// attached already; else the attachment is recorded.
    pub open spec fn attaches(
        self,
        after: FilesState,
        documents: DocumentsState,
        result: Result<bool, RepoError>,
        attachment: Attachment,
    ) -> bool {
        if !documents.has_version(attachment.document_id, attachment.version_id) || !self.has_file(
            attachment.file_id,
        ) {
            result == Err::<bool, RepoError>(RepoError::NotFound) && after == self
        } else if self.attachments.contains(attachment) {
            result == Ok::<bool, RepoError>(false) && after == self
        } else {
            result == Ok::<bool, RepoError>(true) && after == self.with_attachment(attachment)
        }
    }

    /// What detaching a file does: nothing, reported as `false`, where it is
    /// not attached; else the attachment is taken out.
    pub open spec fn detaches(self, after: FilesState, detached: bool, attachment: Attachment) -> bool {
        if self.attachments.contains(attachment) {
            detached && after == self.without_attachment(attachment)
        } else {
            !detached && after == self
        }
    }

    /// The files attached to version `version_id` of `document_id` among the
    /// first `upto` attachments, in order.
    pub open spec fn attached_among(self, upto: int, document_id: Id, version_id: Id) -> Seq<
        FileView,
    >
        decreases upto,
    {
        if upto <= 0 {
            Seq::empty()
        } else {
            let earlier = self.attached_among(upto - 1, document_id, version_id);
            let attachment = self.attachments[upto - 1];
            if attachment.document_id == document_id && attachment.version_id == version_id {
                earlier.push(self.files[self.file_row(attachment.file_id)])
            } else {
                earlier
            }
        }
    }

    /// What a user sees of the files attached to a version: all of them where
    /// the user holds a role on the version, else none.
    pub open spec fn attached_for(
        self,
        roles: PermissionState,
        user_id: Id,
        document_id: Id,
        version_id: Id,
    ) -> Seq<FileView> {
        if roles.has_any_role(user_id, document_id, version_id) {
            self.attached_among(self.attachments.len() as int, document_id, version_id)
        } else {
            Seq::empty()
        }
    }

    /// What reading one attached file gives: the file where the user holds a
    /// role on the version and the file is attached to it, else `Forbidden`.
    pub open spec fn reads_attachment(
        self,
        roles: PermissionState,
        result: Result<File, RepoError>,
        user_id: Id,
        attachment: Attachment,
    ) -> bool {
        if roles.has_any_role(user_id, attachment.document_id, attachment.version_id)
            && self.attachments.contains(attachment) {
            result matches Ok(file) && file@ == self.files[self.file_row(attachment.file_id)]
        } else {
            result == Err::<File, RepoError>(RepoError::Forbidden)
        }
    }
}

/// In a well-formed store a file has one row only.
pub proof fn lemma_file_row(state: FilesState, i: int, file_id: Id)
    requires
        state.wf(),
        state.is_file(i, file_id),
    ensures
        state.has_file(file_id),
        state.file_row(file_id) == i,
{
    let row = state.file_row(file_id);
    assert(state.is_file(row, file_id));
    assert(state.files[row].file_id == state.files[i].file_id);
}

/// Whether `blob` holds exactly `content`.
pub fn same_content(blob: &[u8], content: &[u8]) -> (same: bool)
    ensures
        same == (blob@ == content@),
{
    if blob.len() != content.len() {
        return false;
    }
    let mut i: usize = 0;
    while i < blob.len()
        invariant
            0 <= i <= blob.len(),
            blob.len() == content.len(),
            forall|k: int| 0 <= k < i ==> blob@[k] == content@[k],
        decreases blob.len() - i,
    {
        if blob[i] != content[i] {
            return false;
        }
        i += 1;
    }
    assert(blob@ =~= content@);
    true
}

/// The first of `candidates` whose content is `content`, given in `blobs`
/// the content that the blob store holds for each candidate.
pub fn find_match(candidates: &Vec<Id>, blobs: &Vec<Vec<u8>>, content: &[u8]) -> (found: Option<Id>)
    ensures
        found == first_match(candidates@, blobs@, content@),
{
    if blobs.len() != candidates.len() {
        return None;
    }
    let mut i: usize = 0;
    while i < candidates.len()
        invariant
            0 <= i <= candidates.len(),
            blobs.len() == candidates.len(),
            first_match(candidates@.take(i as int), blobs@.take(i as int), content@) is None,
        decreases candidates.len() - i,
    {
        assert(candidates@.take(i + 1).drop_last() == candidates@.take(i as int));
        assert(blobs@.take(i + 1).drop_last() == blobs@.take(i as int));
        if same_content(blobs[i].as_slice(), content) {
            proof {
                lemma_first_match_stays(candidates@, blobs@, content@, i + 1);
            }
            return Some(candidates[i]);
        }
        i += 1;
    }
    assert(candidates@.take(i as int) == candidates@);
    assert(blobs@.take(i as int) == blobs@);
    None
}

/// A match found among the first `upto` candidates is the match among all.
pub proof fn lemma_first_match_stays(
    candidates: Seq<Id>,
    blobs: Seq<Vec<u8>>,
    content: Seq<u8>,
    upto: int,
)
    requires
        blobs.len() == candidates.len(),
        0 <= upto <= candidates.len(),
        first_match(candidates.take(upto), blobs.take(upto), content) is Some,
    ensures
        first_match(candidates, blobs, content) == first_match(
            candidates.take(upto),
            blobs.take(upto),
            content,
        ),
    decreases candidates.len() - upto,
{
    if upto < candidates.len() {
        assert(candidates.take(upto + 1).drop_last() == candidates.take(upto));
        assert(blobs.take(upto + 1).drop_last() == blobs.take(upto));
        lemma_first_match_stays(candidates, blobs, content, upto + 1);
    } else {
        assert(candidates.take(upto) == candidates);
        assert(blobs.take(upto) == blobs);
    }
}

/// The file store.
pub struct FilesRepository {
    files: Vec<File>,
    attachments: Vec<Attachment>,
}

impl View for FilesRepository {
    type V = FilesState;

    closed spec fn view(&self) -> FilesState {
        FilesState {
            files: self.files@.map_values(|file: File| file@),
            attachments: self.attachments@,
        }
    }
}

impl FilesRepository {
    /// A store without files.
    pub fn new() -> (repository: FilesRepository)
        ensures
            repository@.files.len() == 0,
            repository@.attachments.len() == 0,
            repository@.wf(),
    {
        FilesRepository { files: Vec::new(), attachments: Vec::new() }
    }

    /// The hash under which `content` is filed.
    pub fn file_hash(content: &[u8]) -> (hash: String)
        ensures
            hash@ == hex_lower(sha256(content@)),
            hash@.len() == 64,
    {
        file_hash(content)
    }

    /// The row of the file `file_id`.
    fn find_file(&self, file_id: Id) -> (row: Option<usize>)
        ensures
            match row {
                Some(i) => self@.is_file(i as int, file_id),
                None => !self@.has_file(file_id),
            },
    {
        let mut i: usize = 0;
        while i < self.files.len()
            invariant
                0 <= i <= self.files.len(),
                forall|k: int| 0 <= k < i ==> !self@.is_file(k, file_id),
            decreases self.files.len() - i,
        {
            if self.files[i].file_id == file_id {
                return Some(i);
            }
            i += 1;
        }
        None
    }

    /// The row that records `attachment`.
    fn find_attachment(&self, attachment: &Attachment) -> (row: Option<usize>)
        ensures
            match row {
                Some(i) => i < self@.attachments.len() && self@.attachments[i as int]
                    == *attachment,
                None => !self@.attachments.contains(*attachment),
            },
    {
        let mut i: usize = 0;
        while i < self.attachments.len()
            invariant
                0 <= i <= self.attachments.len(),
                forall|k: int| 0 <= k < i ==> self.attachments@[k] != *attachment,
            decreases self.attachments.len() - i,
        {
            if self.attachments[i] == *attachment {
                return Some(i);
            }
            i += 1;
        }
        None
    }

    /// Whether the file `file_id` is attached to some version.
    fn is_attached(&self, file_id: Id) -> (attached: bool)
        ensures
            attached == self@.is_attached(file_id),
    {
        let mut k: usize = 0;
        while k < self.attachments.len()
            invariant
                0 <= k <= self.attachments.len(),
                forall|j: int| 0 <= j < k ==> (#[trigger] self.attachments@[j]).file_id != file_id,
            decreases self.attachments.len() - k,
        {
            if self.attachments[k].file_id == file_id {
                assert(self@.attachments[k as int].file_id == file_id);
                return true;
            }
            k += 1;
        }
        false
    }

    /// The known files that could hold an upload named `file_name` with the
    /// content `content` already. Whether one does is for the blob store to
    /// show: see `find_match`.
    pub fn upload_candidates(&self, file_name: &String, content: &[u8]) -> (candidates: Vec<Id>)
        ensures
            candidates@ == self@.candidates(file_name@, content@),
    {
        let hash = file_hash(content);
        let mut candidates: Vec<Id> = Vec::new();
        let mut i: usize = 0;
        while i < self.files.len()
            invariant
                0 <= i <= self.files.len(),
                hash@ == hex_lower(sha256(content@)),
                candidates@ == candidates_among(self@.files.take(i as int), file_name@, hash@),
            decreases self.files.len() - i,
        {
            assert(self@.files.take(i + 1).drop_last() == self@.files.take(i as int));
            if self.files[i].file_name == *file_name && self.files[i].file_hash == hash {
                candidates.push(self.files[i].file_id);
            }
            i += 1;
        }
        assert(self@.files.take(i as int) == self@.files);
        candidates
    }

    /// Files an upload under the identifier `file_id`, unless `known` names
    /// the file under which the content lies in the blob store already.
    /// Returns the file's record and, where the content is yet to be put into
    /// the blob store, the identifier to put it under.
    pub fn try_upload_file_with(
        &mut self,
        known: Option<Id>,
        file_id: Id,
        file_name: String,
        file_mime_type: String,
        content: &[u8],
    ) -> (filed: (Result<File, RepoError>, Option<Id>))
        requires
            old(self)@.wf(),
        ensures
            final(self)@.wf(),
            old(self)@.files_upload(
                final(self)@,
                filed.0,
                filed.1,
                known,
                file_id,
                file_name@,
                file_mime_type@,
                content@,
            ),
    {
        match known {
            Some(known_id) => match self.find_file(known_id) {
                Some(row) => {
                    proof {
                        lemma_file_row(self@, row as int, known_id);
                    }
                    (Ok(self.files[row].duplicate()), None)
                },
                None => (Err(RepoError::NotFound), None),
            },
            None => {
                if self.find_file(file_id).is_some() {
                    return (Err(RepoError::StoreFailure), None);
                }
                let file = File { file_id, file_name, file_mime_type, file_hash: file_hash(content) };
                let filed = file.duplicate();
                self.files.push(file);
                assert(self@.files == old(self)@.files.push(file@));
                assert forall|i: int, j: int|
                    #![trigger self@.files[i], self@.files[j]]
                    0 <= i < self@.files.len() && 0 <= j < self@.files.len()
                        && self@.files[i].file_id == self@.files[j].file_id implies i == j by {
                    if i < old(self)@.files.len() {
                        assert(!old(self)@.is_file(i, file_id));
                    }
                    if j < old(self)@.files.len() {
                        assert(!old(self)@.is_file(j, file_id));
                    }
                }
                assert forall|k: int| 0 <= k < self@.attachments.len() implies self@.has_file(
                    (#[trigger] self@.attachments[k]).file_id,
                ) by {
                    let attached = old(self)@.attachments[k].file_id;
                    assert(old(self)@.has_file(attached));
                    assert(self@.is_file(old(self)@.file_row(attached), attached));
                }
                (Ok(filed), Some(file_id))
            },
        }
    }

    /// Files an upload under a fresh identifier, unless `known` names the
    /// file under which the content lies in the blob store already.
    pub fn try_upload_file(
        &mut self,
        known: Option<Id>,
        file_name: String,
        file_mime_type: String,
        content: &[u8],
    ) -> (filed: (Result<File, RepoError>, Option<Id>))
        requires
            old(self)@.wf(),
        ensures
            final(self)@.wf(),
            exists|file_id: Id| #[trigger]
                old(self)@.files_upload(
                    final(self)@,
                    filed.0,
                    filed.1,
                    known,
                    file_id,
                    file_name@,
                    file_mime_type@,
                    content@,
                ),
    {
        let file_id = fresh_id();
        self.try_upload_file_with(known, file_id, file_name, file_mime_type, content)
    }

    /// Forgets the file `file_id` if it is attached to no version. Returns
    /// whether it did; the file's content is then to be taken out of the
    /// blob store.
    pub fn try_delete_file(&mut self, file_id: Id) -> (deleted: bool)
        requires
            old(self)@.wf(),
        ensures
            final(self)@.wf(),
            old(self)@.deletes_file(final(self)@, deleted, file_id),
    {
        if self.is_attached(file_id) {
            return false;
        }
        match self.find_file(file_id) {
            Some(row) => {
                proof {
                    lemma_file_row(self@, row as int, file_id);
                }
                self.files.remove(row);
                assert(self@.files == old(self)@.files.remove(row as int));
                assert forall|i: int, j: int|
                    #![trigger self@.files[i], self@.files[j]]
                    0 <= i < self@.files.len() && 0 <= j < self@.files.len()
                        && self@.files[i].file_id == self@.files[j].file_id implies i == j by {
                    let from_i = if i < row { i } else { i + 1 };
                    let from_j = if j < row { j } else { j + 1 };
                    assert(self@.files[i] == old(self)@.files[from_i]);
                    assert(self@.files[j] == old(self)@.files[from_j]);
                }
                assert forall|k: int| 0 <= k < self@.attachments.len() implies self@.has_file(
                    (#[trigger] self@.attachments[k]).file_id,
                ) by {
                    let attached = old(self)@.attachments[k].file_id;
                    assert(old(self)@.has_file(attached));
                    let at = old(self)@.file_row(attached);
                    assert(old(self)@.is_file(at, attached));
                    assert(at != row);
                    if at < row {
                        assert(self@.is_file(at, attached));
                    } else {
                        assert(self@.is_file(at - 1, attached));
                    }
                }
                true
            },
            None => false,
        }
    }

    /// Attaches the file `file_id` to version `version_id` of `document_id`.
    pub(crate) fn attach_file(
        &mut self,
        documents: &DocumentsRepository,
        document_id: Id,
        version_id: Id,
        file_id: Id,
    ) -> (result: Result<bool, RepoError>)
        requires
            old(self)@.wf(),
        ensures
            final(self)@.wf(),
            old(self)@.attaches(
                final(self)@,
                documents@,
                result,
                Attachment { document_id, version_id, file_id },
            ),
    {
        let attachment = Attachment { document_id, version_id, file_id };
        if !documents.contains_version(document_id, version_id) || self.find_file(file_id).is_none() {
            return Err(RepoError::NotFound);
        }
        if self.find_attachment(&attachment).is_some() {
            return Ok(false);
        }
        self.attachments.push(attachment);
        assert forall|k: int| 0 <= k < self@.attachments.len() implies self@.has_file(
            (#[trigger] self@.attachments[k]).file_id,
        ) by {
            let attached = self@.attachments[k].file_id;
            if k < old(self)@.attachments.len() {
                assert(old(self)@.attachments[k].file_id == attached);
            }
            assert(old(self)@.has_file(attached));
            assert(self@.is_file(old(self)@.file_row(attached), attached));
        }
        Ok(true)
    }

    /// Detaches the file `file_id` from version `version_id` of
    /// `document_id`. Returns `false`, and changes nothing, where it is not
    /// attached.
    pub(crate) fn detach_file(&mut self, document_id: Id, version_id: Id, file_id: Id) -> (detached: bool)
        requires
            old(self)@.wf(),
        ensures
            final(self)@.wf(),
            old(self)@.detaches(
                final(self)@,
                detached,
                Attachment { document_id, version_id, file_id },
            ),
    {
        let attachment = Attachment { document_id, version_id, file_id };
        match self.find_attachment(&attachment) {
            Some(i) => {
                assert(self@.attachments.index_of(attachment) == i);
                self.attachments.remove(i);
                assert forall|k: int| 0 <= k < self@.attachments.len() implies self@.has_file(
                    (#[trigger] self@.attachments[k]).file_id,
                ) by {
                    let from = if k < i { k } else { k + 1 };
                    assert(self@.attachments[k] == old(self)@.attachments[from]);
                    let attached = self@.attachments[k].file_id;
                    assert(old(self)@.has_file(attached));
                    assert(self@.is_file(old(self)@.file_row(attached), attached));
                }
                assert forall|a: int, b: int|
                    0 <= a < self@.attachments.len() && 0 <= b < self@.attachments.len() && a
                        != b implies self@.attachments[a] != self@.attachments[b] by {
                    let from_a = if a < i { a } else { a + 1 };
                    let from_b = if b < i { b } else { b + 1 };
                    assert(self@.attachments[a] == old(self)@.attachments[from_a]);
                    assert(self@.attachments[b] == old(self)@.attachments[from_b]);
                }
                true
            },
            None => false,
        }
    }

    /// The files attached to version `version_id` of `document_id`, for a
    /// user that holds a role on it; for any other user, none.
    pub(crate) fn get_file_attachments(
        &self,
        roles: &PermissionRepository,
        user_id: Id,
        document_id: Id,
        version_id: Id,
    ) -> (attached: Vec<File>)
        requires
            self@.wf(),
        ensures
            attached@.map_values(|file: File| file@) == self@.attached_for(
                roles@,
                user_id,
                document_id,
                version_id,
            ),
    {
        let mut attached: Vec<File> = Vec::new();
        if !roles.has_any_role(user_id, document_id, version_id) {
            assert(attached@.map_values(|file: File| file@) == Seq::<FileView>::empty());
            return attached;
        }
        let mut k: usize = 0;
        while k < self.attachments.len()
            invariant
                0 <= k <= self.attachments.len(),
                self@.wf(),
                attached@.map_values(|file: File| file@) == self@.attached_among(
                    k as int,
                    document_id,
                    version_id,
                ),
            decreases self.attachments.len() - k,
        {
            let attachment = &self.attachments[k];
            let ghost before = attached@.map_values(|file: File| file@);
            if attachment.document_id == document_id && attachment.version_id == version_id {
                assert(self@.has_file(self@.attachments[k as int].file_id));
                match self.find_file(attachment.file_id) {
                    Some(row) => {
                        proof {
                            lemma_file_row(self@, row as int, attachment.file_id);
                        }
                        let file = self.files[row].duplicate();
                        attached.push(file);
                        assert(attached@.map_values(|file: File| file@) == before.push(file@));
                    },
                    None => {},
                }
            }
            k += 1;
        }
        attached
    }

    /// The file `file_id` as attached to version `version_id` of
    /// `document_id`, for a user that holds a role on that version.
    pub(crate) fn get_file_attachment(
        &self,
        roles: &PermissionRepository,
        user_id: Id,
        document_id: Id,
        version_id: Id,
        file_id: Id,
    ) -> (result: Result<File, RepoError>)
        requires
            self@.wf(),
        ensures
            self@.reads_attachment(
                roles@,
                result,
                user_id,
                Attachment { document_id, version_id, file_id },
            ),
    {
        let attachment = Attachment { document_id, version_id, file_id };
        if !roles.has_any_role(user_id, document_id, version_id) {
            return Err(RepoError::Forbidden);
        }
        match self.find_attachment(&attachment) {
            Some(k) => {
                assert(self@.has_file(self@.attachments[k as int].file_id));
                match self.find_file(file_id) {
                    Some(row) => {
                        proof {
                            lemma_file_row(self@, row as int, file_id);
                        }
                        Ok(self.files[row].duplicate())
                    },
                    None => Err(RepoError::Forbidden),
                }
            },
            None => Err(RepoError::Forbidden),
        }
    }
}

} // verus!
