//! Document names, asset file names and content types.
use vstd::prelude::*;
use crate::keys::opt_seq;

verus! {

/// Largest number of characters in a document name.
pub const MAX_DOC_NAME_LEN: usize = 256;

/// The characters a document name may hold: ASCII letters, digits, `-` and `_`.
pub open spec fn is_doc_name_char(c: char) -> bool {
    ('a' <= c && c <= 'z') || ('A' <= c && c <= 'Z') || ('0' <= c && c <= '9') || c == '-' || c
        == '_'
}

/// A document name is non-empty, bounded in length, and made of name characters only.
pub open spec fn valid_doc_name(s: Seq<char>) -> bool {
    &&& 0 < s.len() <= MAX_DOC_NAME_LEN
    &&& forall|i: int| 0 <= i < s.len() ==> is_doc_name_char(#[trigger] s[i])
}

/// Checks a document name against the name grammar.
pub fn validate_doc_name(doc_name: &str) -> (r: bool)
    ensures
        r == valid_doc_name(doc_name@),
{
    let n = doc_name.unicode_len();
    if n == 0 || n > MAX_DOC_NAME_LEN {
        return false;
    }
    let mut i: usize = 0;
    while i < n
        invariant
            n == doc_name@.len(),
            i <= n,
            forall|j: int| 0 <= j < i ==> is_doc_name_char(#[trigger] doc_name@[j]),
        decreases n - i,
    {
        let c = doc_name.get_char(i);
        if !(('a' <= c && c <= 'z') || ('A' <= c && c <= 'Z') || ('0' <= c && c <= '9') || c
            == '-' || c == '_') {
            return false;
        }
        i = i + 1;
    }
    true
}

/// Index of the last occurrence of `c` in `s`, or -1 where there is none.
pub open spec fn last_index_of(s: Seq<char>, c: char) -> int
    decreases s.len(),
{
    if s.len() == 0 {
        -1
    } else if s.last() == c {
        s.len() - 1
    } else {
        last_index_of(s.drop_last(), c)
    }
}

pub proof fn lemma_last_index_of_bounds(s: Seq<char>, c: char)
    ensures
        -1 <= last_index_of(s, c) < s.len(),
        last_index_of(s, c) >= 0 ==> s[last_index_of(s, c)] == c,
        forall|j: int| last_index_of(s, c) < j < s.len() ==> s[j] != c,
    decreases s.len(),
{
    if s.len() > 0 && s.last() != c {
        lemma_last_index_of_bounds(s.drop_last(), c);
        assert forall|j: int| last_index_of(s, c) < j < s.len() implies s[j] != c by {
            if j < s.len() - 1 {
                assert(s.drop_last()[j] == s[j]);
            }
        }
    }
}

/// The asset id that a stored file name stands for: what precedes its last `.`,
/// or the whole name where the only `.` leads it or there is none.
pub open spec fn asset_id_of(filename: Seq<char>) -> Seq<char> {
    let i = last_index_of(filename, '.');
    if i > 0 {
        filename.subrange(0, i)
    } else {
        filename
    }
}

/// The asset id of a stored asset file name.
pub fn extract_asset_id_from_filename(filename: &str) -> (r: Option<String>)
    ensures
        r is Some,
        r->0@ == asset_id_of(filename@),
{
    let n = filename.unicode_len();
    let mut last: Option<usize> = None;
    let mut j: usize = 0;
    while j < n
        invariant
            n == filename@.len(),
            j <= n,
            match last {
                Some(p) => last_index_of(filename@.subrange(0, j as int), '.') == p,
                None => last_index_of(filename@.subrange(0, j as int), '.') == -1,
            },
        decreases n - j,
    {
        let c = filename.get_char(j);
        assert(filename@.subrange(0, j + 1).drop_last() == filename@.subrange(0, j as int));
        if c == '.' {
            last = Some(j);
        }
        j = j + 1;
    }
    assert(filename@.subrange(0, n as int) == filename@);
    match last {
        Some(p) => {
            if p > 0 {
                proof {
                    lemma_last_index_of_bounds(filename@, '.');
                }
                return Some(filename.substring_char(0, p).to_owned());
            }
        },
        None => {},
    }
    Some(filename.to_owned())
}

/// The top-level type (`image` in `image/png`) of a content type that parses as a MIME type.
pub uninterp spec fn mime_type_of(content_type: Seq<char>) -> Option<Seq<char>>;

/// The first file extension registered for a content type that parses as a MIME type.
pub uninterp spec fn mime_first_extension(content_type: Seq<char>) -> Option<Seq<char>>;

/// Relies on `mime::Mime`'s `FromStr` and `Mime::type_`: parses a content type and gives
/// its top-level type, or `None` where it does not parse.
#[verifier::external_body]
fn parse_mime_type(content_type: &str) -> (r: Option<String>)
    ensures
        opt_seq(r) == mime_type_of(content_type@),
{
    content_type.parse::<mime::Mime>().ok().map(|m| m.type_().as_str().to_string())
}

/// Relies on `mime::Mime`'s `FromStr` and `mime_guess::get_mime_extensions`: the first
/// extension (without a dot) that the registry knows for a content type.
#[verifier::external_body]
fn guess_mime_extension(content_type: &str) -> (r: Option<String>)
    ensures
        opt_seq(r) == mime_first_extension(content_type@),
{
    content_type
        .parse::<mime::Mime>()
        .ok()
        .and_then(|m| mime_guess::get_mime_extensions(&m))
        .and_then(|exts| exts.first())
        .map(|e| e.to_string())
}

/// Content types accepted for uploads: those whose top-level type is `image` or `video`.
pub open spec fn allowed_content_type(content_type: Seq<char>) -> bool {
    match mime_type_of(content_type) {
        Some(t) => t == "image"@ || t == "video"@,
        None => false,
    }
}

/// Whether uploads of this content type are accepted (images and videos only).
pub fn is_allowed_content_type(content_type: &str) -> (r: bool)
    ensures
        r == allowed_content_type(content_type@),
{
    match parse_mime_type(content_type) {
        Some(t) => {
            let image = String::from_str("image");
            let video = String::from_str("video");
            t == image || t == video
        },
        None => false,
    }
}

/// The file extension, dot included, stored with an asset of this content type: the first
/// registered extension of the type, of `application/octet-stream` where the type does not
/// parse, and `bin` where none is registered.
pub open spec fn extension_for(content_type: Seq<char>) -> Seq<char> {
    let source = if mime_type_of(content_type) is Some {
        content_type
    } else {
        "application/octet-stream"@
    };
    seq!['.'] + match mime_first_extension(source) {
        Some(e) => e,
        None => "bin"@,
    }
}

/// The file extension, dot included, for a content type.
pub fn get_extension_from_content_type(content_type: &str) -> (r: String)
    ensures
        r@ == extension_for(content_type@),
{
    let source: &str = if parse_mime_type(content_type).is_some() {
        content_type
    } else {
        "application/octet-stream"
    };
    let ext = guess_mime_extension(source);
    let mut r = String::from_str(".");
    proof {
        reveal_strlit(".");
    }
    match ext {
        Some(e) => r.append(e.as_str()),
        None => r.append("bin"),
    }
    r
}

/// Characters of a freshly minted asset id: ASCII lowercase letters and digits.
pub open spec fn is_asset_id_char(c: char) -> bool {
    ('a' <= c && c <= 'z') || ('0' <= c && c <= '9')
}

/// Relies on `cuid::cuid2`: a fresh collision-resistant id that starts with a lowercase
/// letter and continues with base-36 digits in lowercase.
#[verifier::external_body]
fn fresh_cuid() -> (r: String)
    ensures
        r@.len() >= 1,
        forall|i: int| 0 <= i < r@.len() ==> is_asset_id_char(#[trigger] r@[i]),
{
    cuid::cuid2()
}

/// A fresh asset file name: a new collision-resistant id followed by the extension for the
/// content type. Returns the id and the file name.
pub fn new_asset_name(content_type: &str) -> (r: (String, String))
    ensures
        r.0@.len() >= 1,
        forall|i: int| 0 <= i < r.0@.len() ==> is_asset_id_char(#[trigger] r.0@[i]),
        r.1@ == r.0@ + extension_for(content_type@),
{
    let id = fresh_cuid();
    let ext = get_extension_from_content_type(content_type);
    let mut name = id.clone();
    name.append(ext.as_str());
    (id, name)
}

/// Relies on `nanoid::format` called as nanoid's default `nanoid!()` does: 21 characters
/// drawn at random from its URL-safe alphabet of ASCII letters, digits, `-` and `_`.
#[verifier::external_body]
fn fresh_nanoid() -> (r: String)
    ensures
        r@.len() == 21,
        forall|i: int| 0 <= i < r@.len() ==> is_doc_name_char(#[trigger] r@[i]),
{
    nanoid::format(nanoid::rngs::default, &nanoid::alphabet::SAFE, 21)
}

/// A fresh random document name; collisions are negligible.
pub fn new_doc_id() -> (r: String)
    ensures
        valid_doc_name(r@),
        r@.len() == 21,
{
    fresh_nanoid()
}

} // verus!
