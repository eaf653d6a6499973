//! Document-level operations: deletion, copy, asset uploads and listings, access checks.
//!
//! Each operation is split at its store calls: these functions decide, and the caller
//! performs the store request that the returned action names and reports its outcome.
use vstd::prelude::*;
use crate::api_types::{
    is_error, ApiError, Authorization, DocCopyResponse, DocDeleteResponse, ErrorKind, StoreError,
};
use crate::keys::{
    asset_key, asset_key_of, assets_prefix, assets_prefix_of, concat, data_key, data_key_of,
};
use crate::names::{
    allowed_content_type, asset_id_of, extension_for, extract_asset_id_from_filename,
    is_allowed_content_type, is_asset_id_char, last_index_of, lemma_last_index_of_bounds,
    new_asset_name, valid_doc_name, validate_doc_name,
};

verus! {

/// Whether a document exists: it is loaded, or the store holds its snapshot. `stored` is the
/// store's answer where it was asked (`None`: not asked, as for a loaded document or where no
/// store is configured). A store failure is an error, not an absence.
pub fn doc_exists(in_memory: bool, stored: Option<Result<bool, StoreError>>) -> (r: Result<
    bool,
    StoreError,
>)
    ensures
        in_memory ==> r == Ok::<bool, StoreError>(true),
        !in_memory ==> r == match stored {
            None => Ok::<bool, StoreError>(false),
            Some(answer) => answer,
        },
{
    if in_memory {
        return Ok(true);
    }
    match stored {
        None => Ok(false),
        Some(answer) => answer,
    }
}

/// Writes need a full authorization.
pub fn check_write_access(authorization: Authorization) -> (r: Result<(), ApiError>)
    ensures
        r is Ok <==> authorization == Authorization::Full,
        r matches Err(e) ==> e.kind == ErrorKind::Forbidden,
{
    match authorization {
        Authorization::Full => Ok(()),
        Authorization::ReadOnly => Err(ApiError::new(ErrorKind::Forbidden, "Unauthorized.")),
    }
}

/// A connection may load a document on demand only with full authorization; a read-only
/// one needs the document loaded already.
pub fn check_connect(authorization: Authorization, in_memory: bool) -> (r: Result<(), ApiError>)
    ensures
        r is Ok <==> (authorization == Authorization::Full || in_memory),
        r matches Err(e) ==> e.kind == ErrorKind::NotFound,
{
    if authorization != Authorization::Full && !in_memory {
        return Err(ApiError::new(ErrorKind::NotFound, "Doc not found"));
    }
    Ok(())
}

/// Checks a deletion request: the id must be a valid name and the document must exist.
pub fn check_delete_request(doc_id: &str, exists: bool) -> (r: Result<(), ApiError>)
    ensures
        !valid_doc_name(doc_id@) ==> is_error(r, ErrorKind::InvalidInput),
        valid_doc_name(doc_id@) && !exists ==> is_error(r, ErrorKind::NotFound),
        r is Ok <==> valid_doc_name(doc_id@) && exists,
{
    if !validate_doc_name(doc_id) {
        return Err(ApiError::new(ErrorKind::InvalidInput, "Invalid document ID"));
    }
    if !exists {
        return Err(ApiError::new(ErrorKind::NotFound, "Document not found"));
    }
    Ok(())
}

/// Where a deletion stands.
#[derive(Debug, Clone, Copy, PartialEq, Eq, Structural)]
pub enum DeletionStage {
    /// Removing the snapshot.
    RemovingData,
    /// Listing the assets.
    ListingAssets,
    /// Removing the asset at `next_asset`.
    RemovingAssets,
    /// Done.
    Finished,
}

/// What the caller of a deletion does next.
pub enum DeletionAction {
    /// Remove the object at `key`; report the outcome with `on_removed`.
    Remove { key: String },
    /// List the objects under `prefix`; report the outcome with `on_listed`.
    List { prefix: String },
    /// The deletion is complete.
    Respond(DocDeleteResponse),
    /// The deletion stopped on a store failure.
    Fail(ApiError),
}

/// The deletion of one document from the store, after its in-memory copy was dropped.
pub struct DocumentDeletion {
    pub doc_id: String,
    /// The document was loaded when the deletion began.
    pub existed_in_memory: bool,
    /// The snapshot was removed.
    pub data_deleted: bool,
    /// Assets removed so far.
    pub deleted_assets: usize,
    /// The listed asset file names.
    pub assets: Vec<String>,
    /// The asset whose removal is in flight.
    pub next_asset: usize,
    pub stage: DeletionStage,
}

/// `a` is the request to remove `key`.
pub open spec fn removes(a: DeletionAction, key: Seq<char>) -> bool {
    a matches DeletionAction::Remove { key: k } && k@ == key
}

/// `a` is the final response for the deletion `d`: what was removed, and success when
/// anything at all was found to delete.
pub open spec fn responds(a: DeletionAction, d: DocumentDeletion) -> bool {
    a matches DeletionAction::Respond(r) && r.doc_id@ == d.doc_id@ && r.data_deleted
        == d.data_deleted && r.deleted_assets == d.deleted_assets && r.success == (
    d.existed_in_memory || d.data_deleted || d.deleted_assets > 0)
}

/// `a` reports a store failure.
pub open spec fn fails_internally(a: DeletionAction) -> bool {
    a matches DeletionAction::Fail(e) && e.kind == ErrorKind::Internal
}

/// A failure other than absence.
pub open spec fn is_hard_failure<T>(r: Result<T, StoreError>) -> bool {
    r matches Err(e) && !(e is DoesNotExist)
}

impl DocumentDeletion {
    /// Counters stay within the listed assets.
    pub open spec fn wf(&self) -> bool {
        &&& self.next_asset <= self.assets@.len()
        &&& self.deleted_assets <= self.next_asset
        &&& self.stage == DeletionStage::RemovingAssets ==> self.next_asset < self.assets@.len()
        &&& self.stage == DeletionStage::RemovingData ==> !self.data_deleted
            && self.deleted_assets == 0
        &&& self.stage == DeletionStage::ListingAssets ==> self.deleted_assets == 0
    }

    /// The unchanging part of two states of one deletion.
    pub open spec fn same_deletion(&self, other: &DocumentDeletion) -> bool {
        self.doc_id@ == other.doc_id@ && self.existed_in_memory == other.existed_in_memory
    }

    fn response(&self) -> (a: DeletionAction)
        ensures
            responds(a, *self),
    {
        DeletionAction::Respond(
            DocDeleteResponse {
                doc_id: self.doc_id.clone(),
                data_deleted: self.data_deleted,
                deleted_assets: self.deleted_assets,
                success: self.existed_in_memory || self.data_deleted || self.deleted_assets > 0,
            },
        )
    }

    fn fail(&mut self, what: &str) -> (a: DeletionAction)
        ensures
            fails_internally(a),
            final(self).stage == DeletionStage::Finished,
            final(self).same_deletion(old(self)),
            final(self).data_deleted == old(self).data_deleted,
            final(self).deleted_assets == old(self).deleted_assets,
            final(self).next_asset == old(self).next_asset,
            final(self).assets@ == old(self).assets@,
    {
        self.stage = DeletionStage::Finished;
        DeletionAction::Fail(ApiError::new(ErrorKind::Internal, what))
    }

    /// Begins a deletion: with a store, by removing the snapshot; without one, there is
    /// nothing more to remove.
    pub fn start(doc_id: String, existed_in_memory: bool, has_store: bool) -> (r: (
        DocumentDeletion,
        DeletionAction,
    ))
        ensures
            r.0.wf(),
            r.0.doc_id@ == doc_id@,
            r.0.existed_in_memory == existed_in_memory,
            !r.0.data_deleted,
            r.0.deleted_assets == 0,
            has_store ==> r.0.stage == DeletionStage::RemovingData && removes(
                r.1,
                data_key_of(doc_id@),
            ),
            !has_store ==> r.0.stage == DeletionStage::Finished && responds(r.1, r.0),
    {
        let key = data_key(doc_id.as_str());
        let mut d = DocumentDeletion {
            doc_id,
            existed_in_memory,
            data_deleted: false,
            deleted_assets: 0,
            assets: Vec::new(),
            next_asset: 0,
            stage: DeletionStage::RemovingData,
        };
        if has_store {
            (d, DeletionAction::Remove { key })
        } else {
            d.stage = DeletionStage::Finished;
            let a = d.response();
            (d, a)
        }
    }

    /// Takes in the outcome of the removal in flight. A missing object is no failure, and
    /// is not counted as removed.
    pub fn on_removed(&mut self, outcome: Result<(), StoreError>) -> (a: DeletionAction)
        requires
            old(self).wf(),
            old(self).stage == DeletionStage::RemovingData || old(self).stage
                == DeletionStage::RemovingAssets,
        ensures
            final(self).wf(),
            final(self).same_deletion(old(self)),
            is_hard_failure(outcome) ==> fails_internally(a) && final(self).stage
                == DeletionStage::Finished,
            !is_hard_failure(outcome) && old(self).stage == DeletionStage::RemovingData ==> {
                &&& final(self).data_deleted == outcome is Ok
                &&& final(self).deleted_assets == 0
                &&& final(self).stage == DeletionStage::ListingAssets
                &&& a matches DeletionAction::List { prefix } && prefix@ == assets_prefix_of(
                    old(self).doc_id@,
                )
            },
            !is_hard_failure(outcome) && old(self).stage == DeletionStage::RemovingAssets ==> {
                &&& final(self).data_deleted == old(self).data_deleted
                &&& final(self).assets@ == old(self).assets@
                &&& final(self).next_asset == old(self).next_asset + 1
                &&& final(self).deleted_assets == old(self).deleted_assets + if outcome is Ok {
                    1int
                } else {
                    0int
                }
                &&& final(self).next_asset < final(self).assets@.len() ==> final(self).stage
                    == DeletionStage::RemovingAssets && removes(
                    a,
                    asset_key_of(
                        old(self).doc_id@,
                        final(self).assets@[final(self).next_asset as int]@,
                    ),
                )
                &&& final(self).next_asset == final(self).assets@.len() ==> final(self).stage
                    == DeletionStage::Finished && responds(a, *final(self))
            },
    {
        assert(self.assets.len() == self.assets@.len());
        match outcome {
            Err(StoreError::DoesNotExist(_)) => {},
            Err(_) => {
                return self.fail("Failed to delete document data");
            },
            Ok(()) => {
                if self.stage == DeletionStage::RemovingData {
                    self.data_deleted = true;
                } else {
                    self.deleted_assets = self.deleted_assets + 1;
                }
            },
        }
        if self.stage == DeletionStage::RemovingData {
            self.stage = DeletionStage::ListingAssets;
            return DeletionAction::List { prefix: assets_prefix(self.doc_id.as_str()) };
        }
        self.next_asset = self.next_asset + 1;
        if self.next_asset < self.assets.len() {
            DeletionAction::Remove {
                key: asset_key(self.doc_id.as_str(), self.assets[self.next_asset].as_str()),
            }
        } else {
            self.stage = DeletionStage::Finished;
            self.response()
        }
    }

    /// Takes in the listing of the document's assets. A missing directory means there are
    /// none.
    pub fn on_listed(&mut self, outcome: Result<Vec<String>, StoreError>) -> (a: DeletionAction)
        requires
            old(self).wf(),
            old(self).stage == DeletionStage::ListingAssets,
        ensures
            final(self).wf(),
            final(self).same_deletion(old(self)),
            final(self).data_deleted == old(self).data_deleted,
            final(self).deleted_assets == old(self).deleted_assets,
            is_hard_failure(outcome) ==> fails_internally(a) && final(self).stage
                == DeletionStage::Finished,
            outcome is Err && !is_hard_failure(outcome) ==> final(self).stage
                == DeletionStage::Finished && responds(a, *final(self)),
            outcome matches Ok(names) ==> {
                &&& final(self).assets@ == names@
                &&& final(self).next_asset == 0
                &&& names@.len() == 0 ==> final(self).stage == DeletionStage::Finished
                    && responds(a, *final(self))
                &&& names@.len() > 0 ==> final(self).stage == DeletionStage::RemovingAssets
                    && removes(a, asset_key_of(old(self).doc_id@, names@[0]@))
            },
    {
        match outcome {
            Ok(names) => {
                self.assets = names;
                self.next_asset = 0;
                if self.assets.len() == 0 {
                    self.stage = DeletionStage::Finished;
                    self.response()
                } else {
                    self.stage = DeletionStage::RemovingAssets;
                    DeletionAction::Remove {
                        key: asset_key(self.doc_id.as_str(), self.assets[0].as_str()),
                    }
                }
            },
            Err(StoreError::DoesNotExist(_)) => {
                self.stage = DeletionStage::Finished;
                self.response()
            },
            Err(_) => self.fail("Failed to list assets for deletion"),
        }
    }
}

/// Checks a copy request: both ids must be valid names and the source must exist.
pub fn check_copy_request(source_doc_id: &str, destination_doc_id: &str, source_exists: bool) -> (r:
    Result<(), ApiError>)
    ensures
        !valid_doc_name(source_doc_id@) ==> is_error(r, ErrorKind::InvalidInput),
        !valid_doc_name(destination_doc_id@) ==> is_error(r, ErrorKind::InvalidInput),
        valid_doc_name(source_doc_id@) && valid_doc_name(destination_doc_id@) && !source_exists
            ==> is_error(r, ErrorKind::NotFound),
        r is Ok <==> valid_doc_name(source_doc_id@) && valid_doc_name(destination_doc_id@)
            && source_exists,
{
    if !validate_doc_name(source_doc_id) {
        return Err(ApiError::new(ErrorKind::InvalidInput, "Invalid source document ID"));
    }
    if !validate_doc_name(destination_doc_id) {
        return Err(ApiError::new(ErrorKind::InvalidInput, "Invalid destination document ID"));
    }
    if !source_exists {
        return Err(ApiError::new(ErrorKind::NotFound, "Source document not found"));
    }
    Ok(())
}

/// The response to a copy, given the store's outcome (`None` where no store is configured).
pub fn finish_copy(
    source_doc_id: String,
    destination_doc_id: String,
    copied: Option<Result<(), StoreError>>,
) -> (r: Result<DocCopyResponse, ApiError>)
    ensures
        r is Ok <==> copied matches Some(Ok(_)),
        r matches Ok(c) ==> c.success && c.source_doc_id@ == source_doc_id@
            && c.destination_doc_id@ == destination_doc_id@,
        r matches Err(e) ==> e.kind == ErrorKind::Internal,
{
    match copied {
        None => Err(ApiError::new(ErrorKind::Internal, "No store configured")),
        Some(Err(_)) => Err(ApiError::new(ErrorKind::Internal, "Failed to copy document")),
        Some(Ok(())) => Ok(DocCopyResponse { source_doc_id, destination_doc_id, success: true }),
    }
}

/// A planned asset upload: the asset's file name and the key it is stored under.
pub struct UploadPlan {
    /// The fresh asset id.
    pub asset_id: String,
    /// The asset's file name: its id followed by the content type's extension.
    pub asset_name: String,
    /// The store key of the asset.
    pub key: String,
}

/// Plans an asset upload: the document must exist and the content type must be an image or
/// a video type.
pub fn plan_upload(doc_id: &str, content_type: &str, doc_exists: bool) -> (r: Result<
    UploadPlan,
    ApiError,
>)
    ensures
        !doc_exists ==> is_error(r, ErrorKind::NotFound),
        doc_exists && !allowed_content_type(content_type@) ==> is_error(r, ErrorKind::InvalidInput),
        r is Ok <==> doc_exists && allowed_content_type(content_type@),
        r matches Ok(p) ==> {
            &&& p.asset_id@.len() >= 1
            &&& forall|i: int| 0 <= i < p.asset_id@.len() ==> is_asset_id_char(#[trigger] p.asset_id@[i])
            &&& p.asset_name@ == p.asset_id@ + extension_for(content_type@)
            &&& p.key@ == asset_key_of(doc_id@, p.asset_name@)
        },
{
    if !doc_exists {
        return Err(ApiError::new(ErrorKind::NotFound, "Doc not found"));
    }
    if !is_allowed_content_type(content_type) {
        return Err(
            ApiError::new(
                ErrorKind::InvalidInput,
                "Content type is not allowed. Only image and video files are supported.",
            ),
        );
    }
    let (asset_id, asset_name) = new_asset_name(content_type);
    let key = asset_key(doc_id, asset_name.as_str());
    Ok(UploadPlan { asset_id, asset_name, key })
}

/// The upload URL handed out where no store is configured: a local file URL of the key.
pub fn local_upload_url(key: &str) -> (r: String)
    ensures
        r@ == "file://localhost/"@ + key@,
{
    concat("file://localhost/", key)
}

/// For each listed asset file name of a document, its asset id and its store key.
pub fn plan_asset_listing(doc_id: &str, filenames: &Vec<String>) -> (r: Vec<(String, String)>)
    ensures
        r@.len() == filenames@.len(),
        forall|i: int|
            0 <= i < r@.len() ==> (#[trigger] r@[i]).0@ == asset_id_of(filenames@[i]@) && r@[i].1@
                == asset_key_of(doc_id@, filenames@[i]@),
{
    let mut out: Vec<(String, String)> = Vec::new();
    let mut i: usize = 0;
    while i < filenames.len()
        invariant
            i <= filenames@.len(),
            out@.len() == i,
            forall|j: int|
                0 <= j < i ==> (#[trigger] out@[j]).0@ == asset_id_of(filenames@[j]@) && out@[j].1@
                    == asset_key_of(doc_id@, filenames@[j]@),
        decreases filenames@.len() - i,
    {
        let name = filenames[i].as_str();
        match extract_asset_id_from_filename(name) {
            Some(id) => {
                let key = asset_key(doc_id, name);
                out.push((id, key));
            },
            None => {},
        }
        i = i + 1;
    }
    out
}

/// An asset file name handed out at upload is listed back under the id it was minted with,
/// for any extension with a single leading dot.
pub proof fn lemma_asset_name_round_trip(id: Seq<char>, ext: Seq<char>)
    requires
        id.len() >= 1,
        forall|i: int| 0 <= i < id.len() ==> is_asset_id_char(#[trigger] id[i]),
        ext.len() >= 1,
        ext[0] == '.',
        forall|i: int| 1 <= i < ext.len() ==> #[trigger] ext[i] != '.',
    ensures
        asset_id_of(id + ext) == id,
{
    let name = id + ext;
    let dot = id.len() as int;
    lemma_last_index_of_bounds(name, '.');
    let li = last_index_of(name, '.');
    assert(name[dot] == '.');
    if li < dot {
        assert(name[dot] != '.');
    }
    if li > dot {
        assert(name[li] == ext[li - dot]);
    }
    assert(li == dot);
    assert(name.subrange(0, dot) == id);
}

} // verus!
