//! Validation of inbound work submissions. A request is accepted iff
//! its id is non-blank and at most 128 characters, its prompt is
//! non-blank and at most 16000 characters, and the requested token
//! count lies between 1 and 512.

use crate::messages::WorkRequest;
use crate::strutil::{has_visible_char, str_has_visible_char};
use vstd::prelude::*;
use vstd::string::*;

verus! {

pub const MAX_REQUEST_ID_CHARS: usize = 128;

pub const MAX_PROMPT_CHARS: usize = 16000;

pub const MIN_TOKENS_FLOOR: i32 = 1;

pub const MIN_TOKENS_CEIL: i32 = 512;

/// The request id has a visible character and is not over-long.
pub open spec fn valid_request_id(id: Seq<char>) -> bool {
    has_visible_char(id) && id.len() <= MAX_REQUEST_ID_CHARS
}

/// The prompt has a visible character and is not over-long.
pub open spec fn valid_prompt(p: Seq<char>) -> bool {
    has_visible_char(p) && p.len() <= MAX_PROMPT_CHARS
}

/// The requested minimum token count lies in the accepted band.
pub open spec fn valid_min_tokens(t: i32) -> bool {
    MIN_TOKENS_FLOOR <= t <= MIN_TOKENS_CEIL
}

/// A work request is acceptable for publication.
pub open spec fn valid_work_request(req: WorkRequest) -> bool {
    valid_request_id(req.request_id@) && valid_prompt(req.prompt_context@) && valid_min_tokens(
        req.min_tokens,
    )
}

/// The diagnostic returned for an invalid request: the check walks the
/// fields in order and reports the first failure.
pub open spec fn validation_detail(req: WorkRequest) -> Seq<char> {
    if !valid_request_id(req.request_id@) {
        "request_id must be non-empty and <= 128 chars"@
    } else if !has_visible_char(req.prompt_context@) {
        "prompt_context must be non-empty"@
    } else if req.prompt_context@.len() > MAX_PROMPT_CHARS {
        "prompt_context exceeds 16000 chars"@
    } else {
        "min_tokens must be between 1 and 512"@
    }
}

/// Accepts a request iff all three fields are in bounds, and otherwise
/// names the first field that is not.
pub fn validate_work_request(req: &WorkRequest) -> (r: Result<(), String>)
    ensures
        r is Ok <==> valid_work_request(*req),
        r matches Err(detail) ==> detail@ == validation_detail(*req),
{
    let id_visible = str_has_visible_char(req.request_id.as_str());
    if !id_visible || req.request_id.as_str().unicode_len() > MAX_REQUEST_ID_CHARS {
        return Err(String::from_str("request_id must be non-empty and <= 128 chars"));
    }
    if !str_has_visible_char(req.prompt_context.as_str()) {
        return Err(String::from_str("prompt_context must be non-empty"));
    }
    if req.prompt_context.as_str().unicode_len() > MAX_PROMPT_CHARS {
        return Err(String::from_str("prompt_context exceeds 16000 chars"));
    }
    if req.min_tokens < MIN_TOKENS_FLOOR || req.min_tokens > MIN_TOKENS_CEIL {
        return Err(String::from_str("min_tokens must be between 1 and 512"));
    }
    Ok(())
}

} // verus!
