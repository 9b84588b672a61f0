//! The request and response schemas that share one API key.

use vstd::prelude::*;

use crate::naming::{snake, snake_case};
use crate::schema::{api_stem_of, Message, MessageKind};

verus! {

/// One loaded schema with the file it came from and that file's digest.
#[derive(Debug)]
pub struct MessageSource {
    pub message: Message,
    pub filename: String,
    pub sha256: String,
}

/// The two directions of one API key, rendered together into one file.
#[derive(Debug)]
pub struct ApiGroup {
    pub api_key: i16,
    pub request: MessageSource,
    pub response: MessageSource,
}

/// Whether two schemas are the request and response of one API key.
pub open spec fn pairs(request: &Message, response: &Message) -> bool {
    &&& request.kind == MessageKind::Request
    &&& response.kind == MessageKind::Response
    &&& request.api_key is Some
    &&& request.api_key == response.api_key
}

/// The module one API group's file becomes: its stem in snake case.
pub open spec fn module_name_text(group: &ApiGroup) -> Seq<char> {
    snake(api_stem_of(group.request.message.name.text@))
}

impl ApiGroup {
    /// The module this group's file becomes.
    pub fn module_name(&self) -> (r: String)
        ensures
            r@ == module_name_text(self),
    {
        let stem = self.request.message.name.api_stem();
        snake_case(stem.as_str())
    }

    /// Pairs a request with its response, or `None` when they are not the two
    /// directions of one API key.
    pub fn pair(request: MessageSource, response: MessageSource) -> (r: Option<ApiGroup>)
        ensures
            pairs(&request.message, &response.message) ==> (r matches Some(g) && g.api_key
                == request.message.api_key->0 && g.request == request && g.response == response),
            !pairs(&request.message, &response.message) ==> r is None,
    {
        let paired = match (request.message.kind, response.message.kind, request.message.api_key, response.message.api_key) {
            (MessageKind::Request, MessageKind::Response, Some(a), Some(b)) => a == b,
            _ => false,
        };
        if !paired {
            return None;
        }
        match request.message.api_key {
            Some(api_key) => Some(ApiGroup { api_key, request, response }),
            None => None,
        }
    }
}

} // verus!
