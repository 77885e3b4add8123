//! The dispatch rule: the one fixed API path goes to the API handler,
//! every other path to the static resolver. The listener hands every
//! request path here and sends back whatever response comes out.

use vstd::prelude::*;
use vstd::string::StrSliceExecFns;
use vstd::utf8::encode_utf8;
use crate::api::greeting;
use crate::api::hello;
use crate::resolver::Response;
use crate::resolver::ResponseModel;
use crate::resolver::resolve;
use crate::resolver::resolve_spec;
use crate::store::AssetStore;

verus! {

/// The one path the API handler owns.
pub open spec fn api_path() -> Seq<char> {
    "/api/hello"@
}

/// What answering a request path against a store yields: the greeting
/// for the API path, the resolver's outcome for everything else.
pub open spec fn handle_spec(store: Map<Seq<char>, Seq<u8>>, path: Seq<char>) -> ResponseModel {
    if path == api_path() {
        ResponseModel {
            status: 200,
            content_type: "text/plain"@,
            body: encode_utf8(greeting()),
        }
    } else {
        resolve_spec(store, path)
    }
}

/// Answer one request path. The query string and any request body are
/// not part of the path and never reach this function, so they cannot
/// influence the response.
pub fn handle(store: &AssetStore, path: &str) -> (r: Response)
    requires
        store.wf(),
    ensures
        r@ == handle_spec(store@, path@),
{
    let owned: String = path.to_owned();
    let api: String = "/api/hello".to_owned();
    if owned == api {
        Response {
            status: 200,
            content_type: "text/plain".to_owned(),
            body: hello().as_bytes_vec(),
        }
    } else {
        resolve(store, path)
    }
}

/// The API path always answers 200 with the fixed greeting, whatever
/// the store holds.
pub proof fn lemma_api_hello(store: Map<Seq<char>, Seq<u8>>)
    ensures
        handle_spec(store, api_path()).status == 200,
        handle_spec(store, api_path()).body == encode_utf8(greeting()),
{
}

/// Handling is a pure function of the store and the path: two requests
/// for the same path against the same store get equal responses, so a
/// repeated request is answered byte-identically. The store itself is
/// only ever read after startup, so it is the same for both.
pub proof fn lemma_handle_deterministic(
    store: Map<Seq<char>, Seq<u8>>,
    path: Seq<char>,
    r1: ResponseModel,
    r2: ResponseModel,
)
    requires
        r1 == handle_spec(store, path),
        r2 == handle_spec(store, path),
    ensures
        r1 == r2,
{
}

} // verus!
