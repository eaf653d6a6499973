//! Request and response bodies, configuration, and error kinds.
use vstd::prelude::*;

verus! {

/// Request for a presigned asset upload URL.
pub struct ContentUploadRequest {
    /// The content type of the file to upload.
    pub content_type: String,
}

/// A presigned upload URL and the asset file name it uploads to.
pub struct ContentUploadResponse {
    /// The signed URL for uploading the content.
    pub upload_url: String,
    /// The asset's file name: its id followed by its extension.
    pub asset_id: String,
}

/// An asset with a presigned download URL.
pub struct AssetUrl {
    /// The asset id, without extension.
    pub asset_id: String,
    /// The signed URL for downloading the asset.
    pub download_url: String,
}

/// The assets of a document.
pub struct AssetsResponse {
    pub assets: Vec<AssetUrl>,
}

/// Request for copying a document to another document id.
pub struct DocCopyRequest {
    /// The id of the document that receives the copy.
    pub destination_doc_id: String,
}

/// Result of a document copy.
pub struct DocCopyResponse {
    pub source_doc_id: String,
    pub destination_doc_id: String,
    /// Whether the copy completed.
    pub success: bool,
}

/// Result of a document deletion.
pub struct DocDeleteResponse {
    /// The document that was deleted.
    pub doc_id: String,
    /// Whether the stored snapshot was removed.
    pub data_deleted: bool,
    /// Number of asset objects removed from storage.
    pub deleted_assets: usize,
    /// Whether anything was found to delete: in memory, the snapshot, or an asset.
    pub success: bool,
}

/// Connection settings of an S3-compatible object store.
#[derive(Clone, Debug)]
pub struct S3Config {
    pub key: String,
    pub secret: String,
    pub token: Option<String>,
    pub bucket: String,
    pub region: String,
    /// Endpoint URL; empty for the provider's default.
    pub endpoint: String,
    /// Prefix put in front of every key.
    pub bucket_prefix: Option<String>,
    /// Path-style addressing, as S3-compatible stores such as MinIO want it.
    pub path_style: bool,
}

/// What a client token allows on a document.
#[derive(Debug, Clone, Copy, PartialEq, Eq, Structural)]
pub enum Authorization {
    /// Read only: write-bearing frames are dropped.
    ReadOnly,
    /// Read and write.
    Full,
}

/// The kinds of failure that an operation reports to the HTTP surface.
#[derive(Debug, Clone, Copy, PartialEq, Eq, Structural)]
pub enum ErrorKind {
    /// The document or asset does not exist.
    NotFound,
    /// The token is missing or invalid.
    Unauthorized,
    /// The token does not allow the write.
    Forbidden,
    /// A malformed document id, a disallowed content type, or a malformed update.
    InvalidInput,
    /// The store failed, or no store is configured where one is needed.
    Internal,
}

/// A failed operation: its kind and a message for the client.
pub struct ApiError {
    pub kind: ErrorKind,
    pub message: String,
}

/// A failure of the object store.
#[derive(Debug, Clone, PartialEq, Eq)]
pub enum StoreError {
    /// The object does not exist.
    DoesNotExist(String),
    /// The bucket does not exist.
    BucketDoesNotExist(String),
    /// The credentials do not give access.
    NotAuthorized(String),
    /// The store could not be reached or answered with an error.
    ConnectionError(String),
}

/// `r` failed with an error of kind `k`.
pub open spec fn is_error<T>(r: Result<T, ApiError>, k: ErrorKind) -> bool {
    r matches Err(e) && e.kind == k
}

impl ApiError {
    /// An error of the given kind with a message.
    pub fn new(kind: ErrorKind, message: &str) -> (r: ApiError)
        ensures
            r.kind == kind,
            r.message@ == message@,
    {
        ApiError { kind, message: message.to_owned() }
    }
}

} // verus!
