//! The addresses of a service that speaks the chat-completion protocol.
//!
//! The requests themselves are the caller's business; this module says where
//! they go and how they are authorised.
use vstd::prelude::*;
use crate::text::{append, from_chars, to_chars, trim_end_matches, trim_end_matches_of};

verus! {

/// The address of `endpoint` below `base_url`: the base without trailing
/// slashes, one slash, and the endpoint.
pub open spec fn endpoint_url_of(base_url: Seq<char>, endpoint: Seq<char>) -> Seq<char> {
    trim_end_matches_of(base_url, "/"@) + "/"@ + endpoint
}

/// The address of `endpoint` below `base_url`, whether or not the base ends
/// with a slash.
pub fn endpoint_url(base_url: &str, endpoint: &str) -> (r: String)
    ensures
        r@ == endpoint_url_of(base_url@, endpoint@),
{
    let mut url = trim_end_matches(&to_chars(base_url), "/");
    append(&mut url, &to_chars("/"));
    append(&mut url, &to_chars(endpoint));
    from_chars(&url)
}

/// The address that lists the models.
pub fn models_url(base_url: &str) -> (r: String)
    ensures
        r@ == endpoint_url_of(base_url@, "models"@),
{
    endpoint_url(base_url, "models")
}

/// The address that completes a chat.
pub fn chat_completions_url(base_url: &str) -> (r: String)
    ensures
        r@ == endpoint_url_of(base_url@, "chat/completions"@),
{
    endpoint_url(base_url, "chat/completions")
}

/// The address that embeds a text.
pub fn embeddings_url(base_url: &str) -> (r: String)
    ensures
        r@ == endpoint_url_of(base_url@, "embeddings"@),
{
    endpoint_url(base_url, "embeddings")
}

/// The value of the `Authorization` header for the key `api_key`; a request
/// without a key carries no such header.
pub fn authorization(api_key: &str) -> (r: Option<String>)
    ensures
        match r {
            Some(v) => api_key@.len() > 0 && v@ == "Bearer "@ + api_key@,
            None => api_key@.len() == 0,
        },
{
    if api_key.is_empty() {
        None
    } else {
        let mut v = to_chars("Bearer ");
        append(&mut v, &to_chars(api_key));
        Some(from_chars(&v))
    }
}

} // verus!
