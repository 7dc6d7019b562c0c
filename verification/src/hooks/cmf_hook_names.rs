//! Names of the built-in hooks that carry a CMF message. The `cmf.`
//! prefix lets typed-payload and message plugins share an interception
//! point.

use vstd::prelude::*;

verus! {

pub const TOOL_PRE_INVOKE: &'static str = "cmf.tool_pre_invoke";
pub const TOOL_POST_INVOKE: &'static str = "cmf.tool_post_invoke";
pub const LLM_INPUT: &'static str = "cmf.llm_input";
pub const LLM_OUTPUT: &'static str = "cmf.llm_output";
pub const PROMPT_PRE_FETCH: &'static str = "cmf.prompt_pre_fetch";
pub const PROMPT_POST_FETCH: &'static str = "cmf.prompt_post_fetch";
pub const RESOURCE_PRE_FETCH: &'static str = "cmf.resource_pre_fetch";
pub const RESOURCE_POST_FETCH: &'static str = "cmf.resource_post_fetch";

} // verus!
