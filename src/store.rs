//! Decisions of the object-store provider: paginated listing and error classification.
use vstd::prelude::*;
use crate::keys::{collect_relative_keys, full_list_prefix, list_prefix, prefix_view, relative_keys};
use crate::telemetry::{contains_seq, str_contains};

verus! {

/// Presigned upload URLs expire after this many seconds.
pub const UPLOAD_URL_TTL_SECS: u64 = 15 * 60;

/// Presigned download URLs expire after this many seconds.
pub const DOWNLOAD_URL_TTL_SECS: u64 = 60 * 60;

/// The views of a vector of strings.
pub open spec fn strings_view(v: Seq<String>) -> Seq<Seq<char>> {
    v.map_values(|k: String| k@)
}

/// A listing of every object under a directory, page by page: the caller requests a page
/// (with `continuation` where it is set) and hands it to `absorb_page` until `done`.
pub struct ObjectListing {
    /// The store prefix listed: the directory's store key with one trailing `/`.
    pub full_prefix: String,
    /// The keys found so far, relative to the directory.
    pub results: Vec<String>,
    /// The token that the next page request carries.
    pub continuation: Option<String>,
    /// No page is left.
    pub done: bool,
}

impl ObjectListing {
    /// A listing of the logical directory `dir` under the optional bucket prefix.
    pub fn new(prefix: &Option<String>, dir: &str) -> (r: ObjectListing)
        ensures
            r.full_prefix@ == list_prefix(prefix_view(prefix), dir@),
            r.results@.len() == 0,
            r.continuation is None,
            !r.done,
    {
        ObjectListing {
            full_prefix: full_list_prefix(prefix, dir),
            results: Vec::new(),
            continuation: None,
            done: false,
        }
    }

    /// Takes in one page: its keys, whether the store says more follow, and the token for
    /// the next page.
    pub fn absorb_page(
        &mut self,
        keys: &Vec<String>,
        is_truncated: Option<bool>,
        next_token: Option<String>,
    )
        ensures
            final(self).full_prefix@ == old(self).full_prefix@,
            strings_view(final(self).results@) == strings_view(old(self).results@)
                + relative_keys(old(self).full_prefix@, strings_view(keys@)),
            final(self).done == (is_truncated != Some(true)),
            !final(self).done ==> final(self).continuation == next_token,
    {
        collect_relative_keys(self.full_prefix.as_str(), keys, &mut self.results);
        match is_truncated {
            Some(true) => {
                self.done = false;
                self.continuation = next_token;
            },
            _ => {
                self.done = true;
            },
        }
    }
}

/// What a failed store request's description says went wrong.
#[derive(Debug, Clone, Copy, PartialEq, Eq, Structural)]
pub enum StoreFailure {
    /// The object does not exist; callers treat this as absence, not as an error.
    ObjectMissing,
    /// The bucket does not exist: a permanent error.
    BucketMissing,
    /// Anything else: transport, permission, or an unknown failure.
    Other,
}

/// The failure that a description names. A missing bucket is named by the `NoSuchBucket`
/// code and takes precedence, since a request against a missing bucket also answers with
/// status 404; a missing object by `NotFound`, `NoSuchKey`, or the status code 404 itself.
pub open spec fn store_failure_of(description: Seq<char>) -> StoreFailure {
    if contains_seq(description, "NoSuchBucket"@) {
        StoreFailure::BucketMissing
    } else if contains_seq(description, "NotFound"@) || contains_seq(description, "NoSuchKey"@)
        || contains_seq(description, "StatusCode(404)"@) {
        StoreFailure::ObjectMissing
    } else {
        StoreFailure::Other
    }
}

/// Classifies a failed store request by its description.
pub fn classify_store_error(description: &str) -> (r: StoreFailure)
    ensures
        r == store_failure_of(description@),
{
    if str_contains(description, "NoSuchBucket") {
        StoreFailure::BucketMissing
    } else if str_contains(description, "NotFound") || str_contains(description, "NoSuchKey")
        || str_contains(description, "StatusCode(404)") {
        StoreFailure::ObjectMissing
    } else {
        StoreFailure::Other
    }
}

/// Whether a failed store request's description marks a missing object (and not a missing
/// bucket).
pub fn is_not_found(description: &str) -> (r: bool)
    ensures
        r == (store_failure_of(description@) == StoreFailure::ObjectMissing),
{
    classify_store_error(description) == StoreFailure::ObjectMissing
}

/// Why the bucket check failed.
#[derive(Debug, Clone, Copy, PartialEq, Eq, Structural)]
pub enum BucketProblem {
    /// The bucket does not exist.
    Missing,
    /// The credentials are refused.
    Forbidden,
    /// Anything else.
    Unreachable,
}

/// The problem that a failed bucket check's description names.
pub open spec fn bucket_problem_of(description: Seq<char>) -> BucketProblem {
    if contains_seq(description, "NoSuchBucket"@) {
        BucketProblem::Missing
    } else if contains_seq(description, "AccessDenied"@) || contains_seq(
        description,
        "Forbidden"@,
    ) {
        BucketProblem::Forbidden
    } else {
        BucketProblem::Unreachable
    }
}

/// Classifies a failed bucket check by its description.
pub fn classify_bucket_error(description: &str) -> (r: BucketProblem)
    ensures
        r == bucket_problem_of(description@),
{
    if str_contains(description, "NoSuchBucket") {
        BucketProblem::Missing
    } else if str_contains(description, "AccessDenied") || str_contains(description, "Forbidden") {
        BucketProblem::Forbidden
    } else {
        BucketProblem::Unreachable
    }
}

} // verus!
