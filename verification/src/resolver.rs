//! The static resolver: maps a request path to an asset-store key
//! ("empty or trailing slash means the index file, otherwise the path
//! itself"), looks the key up, and builds the response — 200 with the
//! stored bytes and a content type guessed from the extension, or 404
//! with a fixed plain-text body.

use vstd::prelude::*;
use vstd::string::StrSliceExecFns;
use vstd::string::StringSliceAdditionalSpecFns;
use crate::store::AssetStore;
use crate::store::valid_asset_path;

verus! {

/// What a response looks like in specifications: a status code, a
/// content type, and the body bytes.
pub ghost struct ResponseModel {
    pub status: int,
    pub content_type: Seq<char>,
    pub body: Seq<u8>,
}

/// A response as handed back to the HTTP layer.
pub struct Response {
    pub status: u16,
    pub content_type: String,
    pub body: Vec<u8>,
}

impl View for Response {
    type V = ResponseModel;

    open spec fn view(&self) -> ResponseModel {
        ResponseModel {
            status: self.status as int,
            content_type: self.content_type@,
            body: self.body@,
        }
    }
}

/// The request path with every leading slash removed.
pub open spec fn strip_leading_slashes(p: Seq<char>) -> Seq<char>
    decreases p.len(),
{
    if p.len() > 0 && p[0] == '/' {
        strip_leading_slashes(p.skip(1))
    } else {
        p
    }
}

/// The asset-store key a request path resolves to: the index file for
/// an empty or directory-style path, the stripped path otherwise.
pub open spec fn effective_path(p: Seq<char>) -> Seq<char> {
    let s = strip_leading_slashes(p);
    if s.len() == 0 || s[s.len() - 1] == '/' {
        "index.html"@
    } else {
        s
    }
}

/// The content type guessed from a path's file extension, with a
/// generic binary fallback for unrecognized extensions. The guess is a
/// fixed table keyed by the extension, so it depends on the path alone.
pub uninterp spec fn mime_of(path: Seq<char>) -> Seq<char>;

/// Relies on mime_guess::from_path together with
/// MimeGuess::first_or_octet_stream: the strongest guess for the path's
/// extension, or application/octet-stream when the extension is not
/// recognized. The guess comes from a fixed compile-time table, so the
/// result is a function of the path alone.
#[verifier::external_body]
fn guess_mime(path: &str) -> (r: String)
    ensures
        r@ == mime_of(path@),
{
    mime_guess::from_path(path).first_or_octet_stream().as_ref().to_owned()
}

/// What resolving a path against a store yields, in full: which arm is
/// taken, and every field of the response in either arm.
pub open spec fn resolve_spec(store: Map<Seq<char>, Seq<u8>>, path: Seq<char>) -> ResponseModel {
    let key = effective_path(path);
    if store.contains_key(key) {
        ResponseModel { status: 200, content_type: mime_of(key), body: store[key] }
    } else {
        ResponseModel {
            status: 404,
            content_type: "text/plain"@,
            body: "404 Not Found".spec_bytes(),
        }
    }
}

/// Once the first `i` characters are slashes and the character at `i`
/// (if any) is not, stripping removes exactly those `i` characters.
proof fn lemma_strip_prefix(p: Seq<char>, i: int)
    requires
        0 <= i <= p.len(),
        forall|j: int| 0 <= j < i ==> p[j] == '/',
        i == p.len() || p[i] != '/',
    ensures
        strip_leading_slashes(p) == p.skip(i),
    decreases i,
{
    if i == 0 {
        assert(p.skip(0) =~= p);
    } else {
        assert(p[0] == '/');
        lemma_strip_prefix(p.skip(1), i - 1);
        assert(p.skip(1).skip(i - 1) =~= p.skip(i));
    }
}

/// Remove every leading slash from a request path.
fn strip_leading(path: &str) -> (r: &str)
    ensures
        r@ == strip_leading_slashes(path@),
{
    let n = path.unicode_len();
    let mut i: usize = 0;
    while i < n && path.get_char(i) == '/'
        invariant
            n == path@.len(),
            i <= n,
            forall|j: int| 0 <= j < i ==> path@[j] == '/',
        decreases n - i,
    {
        i += 1;
    }
    proof {
        lemma_strip_prefix(path@, i as int);
    }
    path.substring_char(i, n)
}

/// Copy a stored asset's bytes into a fresh body.
fn copy_bytes(src: &Vec<u8>) -> (r: Vec<u8>)
    ensures
        r@ == src@,
{
    let mut out: Vec<u8> = Vec::new();
    let mut i: usize = 0;
    while i < src.len()
        invariant
            i <= src@.len(),
            out@ == src@.subrange(0, i as int),
        decreases src@.len() - i,
    {
        out.push(src[i]);
        i += 1;
    }
    proof {
        assert(out@ =~= src@);
    }
    out
}

/// Resolve a request path against the asset store.
pub fn resolve(store: &AssetStore, path: &str) -> (r: Response)
    requires
        store.wf(),
    ensures
        r@ == resolve_spec(store@, path@),
{
    let stripped = strip_leading(path);
    let n = stripped.unicode_len();
    let key: String = if n == 0 || stripped.get_char(n - 1) == '/' {
        "index.html".to_owned()
    } else {
        stripped.to_owned()
    };
    proof {
        assert(key@ == effective_path(path@));
    }
    match store.get(&key) {
        Some(contents) => Response {
            status: 200,
            content_type: guess_mime(key.as_str()),
            body: copy_bytes(contents),
        },
        None => Response {
            status: 404,
            content_type: "text/plain".to_owned(),
            body: "404 Not Found".as_bytes_vec(),
        },
    }
}

/// Every registered asset is served as-is: resolving a registered path
/// answers 200 and the body is exactly the stored bytes.
pub proof fn lemma_resolve_registered(store: Map<Seq<char>, Seq<u8>>, p: Seq<char>)
    requires
        valid_asset_path(p),
        store.contains_key(p),
    ensures
        resolve_spec(store, p).status == 200,
        resolve_spec(store, p).body == store[p],
{
    assert(strip_leading_slashes(p) == p);
}

/// Every asset registered in a well-formed store is served as-is:
/// resolving any of the store's own paths answers 200 with exactly the
/// stored bytes.
pub proof fn lemma_store_assets_served(store: &AssetStore, p: Seq<char>)
    requires
        store.wf(),
        store@.contains_key(p),
    ensures
        resolve_spec(store@, p).status == 200,
        resolve_spec(store@, p).body == store@[p],
{
    store.lemma_wf_keys_valid(p);
    lemma_resolve_registered(store@, p);
}

/// A file-style path whose stripped form is not registered answers 404
/// with the fixed not-found body.
pub proof fn lemma_resolve_missing(store: Map<Seq<char>, Seq<u8>>, p: Seq<char>)
    requires
        strip_leading_slashes(p).len() > 0,
        strip_leading_slashes(p)[strip_leading_slashes(p).len() - 1] != '/',
        !store.contains_key(strip_leading_slashes(p)),
    ensures
        resolve_spec(store, p).status == 404,
        resolve_spec(store, p).body == "404 Not Found".spec_bytes(),
{
}

/// An empty or directory-style path resolves exactly as the index file
/// does: what comes back depends only on whether the index file is
/// registered.
pub proof fn lemma_directory_serves_index(store: Map<Seq<char>, Seq<u8>>, p: Seq<char>)
    requires
        strip_leading_slashes(p).len() == 0
            || strip_leading_slashes(p)[strip_leading_slashes(p).len() - 1] == '/',
    ensures
        resolve_spec(store, p) == resolve_spec(store, "index.html"@),
{
    reveal_strlit("index.html");
    assert(effective_path(p) == "index.html"@);
    assert(strip_leading_slashes("index.html"@) == "index.html"@);
    assert(effective_path("index.html"@) == "index.html"@);
}

} // verus!
