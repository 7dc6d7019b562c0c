//! Names of the built-in hooks that take typed payloads.

use vstd::prelude::*;

verus! {

pub const TOOL_PRE_INVOKE: &'static str = "tool_pre_invoke";
pub const TOOL_POST_INVOKE: &'static str = "tool_post_invoke";
pub const PROMPT_PRE_FETCH: &'static str = "prompt_pre_fetch";
pub const PROMPT_POST_FETCH: &'static str = "prompt_post_fetch";
pub const RESOURCE_PRE_FETCH: &'static str = "resource_pre_fetch";
pub const RESOURCE_POST_FETCH: &'static str = "resource_post_fetch";
pub const IDENTITY_RESOLVE: &'static str = "identity_resolve";
pub const TOKEN_DELEGATE: &'static str = "token_delegate";

} // verus!
