//! Tools: what they are, what they are given and what they return.

use vstd::prelude::*;
use serde_json::Value;
use crate::json::{clone_json, clone_opt_json};
use vstd::utf8::{encode_utf8, is_ascii_chars, is_ascii_chars_encode_utf8, is_char_boundary};

verus! {

/// The largest tool output, in UTF-8 bytes, that is kept whole.
pub const MAX_TOOL_OUTPUT_BYTES: usize = 1024 * 1024;
/// What replaces the end of an output that is too long.
pub const TOOL_OUTPUT_TRUNCATION_SUFFIX: &'static str = "\n[tool output truncated]";

/// The length in bytes of the UTF-8 encoding of `s`, as `str::len` reports it.
pub open spec fn byte_len(s: Seq<char>) -> usize {
    encode_utf8(s).len() as usize
}

/// The number of bytes of a too-long output that are kept before the suffix.
pub open spec fn truncation_keep() -> int {
    if byte_len(TOOL_OUTPUT_TRUNCATION_SUFFIX@) <= MAX_TOOL_OUTPUT_BYTES {
        MAX_TOOL_OUTPUT_BYTES - byte_len(TOOL_OUTPUT_TRUNCATION_SUFFIX@)
    } else {
        0
    }
}

/// Whether `kept` is what remains of `content` cut to its first `truncation_keep()` bytes.
pub open spec fn cut_to_keep(content: Seq<char>, kept: Seq<char>) -> bool {
    encode_utf8(kept) == encode_utf8(content).take(truncation_keep())
}

/// Calls `String::truncate`, which keeps the first `new_len` bytes; it panics unless
/// `new_len` lies on a character boundary, which the precondition demands.
#[verifier::external_body]
fn string_truncate(s: &mut String, new_len: usize)
    requires
        is_char_boundary(encode_utf8(old(s)@), new_len as int),
    ensures
        encode_utf8(final(s)@) == encode_utf8(old(s)@).take(new_len as int),
{
    s.truncate(new_len)
}

/// A tool as the model sees it.
#[derive(Debug, PartialEq)]
pub struct ToolDescriptor {
    pub name: String,
    pub description: String,
    pub parameters_schema: Value,
    pub mutating: bool,
}

impl Clone for ToolDescriptor {
    fn clone(&self) -> (r: Self)
        ensures
            r == *self,
    {
        ToolDescriptor {
            name: self.name.clone(),
            description: self.description.clone(),
            parameters_schema: clone_json(&self.parameters_schema),
            mutating: self.mutating,
        }
    }
}

/// One invocation handed to a tool.
#[derive(Debug, PartialEq)]
pub struct ToolInput {
    pub call_id: String,
    pub tool_name: String,
    pub arguments: Value,
}

/// What a tool returned.
#[derive(Debug, PartialEq)]
pub struct ToolOutput {
    pub content: String,
    pub is_error: bool,
    pub metadata: Option<Value>,
}

impl Clone for ToolOutput {
    fn clone(&self) -> (r: Self)
        ensures
            r == *self,
    {
        ToolOutput {
            content: self.content.clone(),
            is_error: self.is_error,
            metadata: clone_opt_json(&self.metadata),
        }
    }
}

/// Whether `r` is `o` truncated: content of at most the limit is kept whole, longer
/// content is cut to its first bytes and followed by the truncation suffix.
pub open spec fn truncated(o: ToolOutput, r: ToolOutput) -> bool {
    &&& byte_len(o.content@) <= MAX_TOOL_OUTPUT_BYTES ==> r == o
    &&& byte_len(o.content@) > MAX_TOOL_OUTPUT_BYTES ==> {
        &&& r.is_error == o.is_error
        &&& r.metadata == o.metadata
        &&& exists|kept: Seq<char>| #[trigger] cut_to_keep(o.content@, kept) && r.content@ == kept
            + TOOL_OUTPUT_TRUNCATION_SUFFIX@
    }
}

/// The UTF-8 encoding of two character sequences one after the other is the encoding of
/// the first followed by that of the second.
proof fn lemma_encode_concat(a: Seq<char>, b: Seq<char>)
    ensures
        encode_utf8(a + b) == encode_utf8(a) + encode_utf8(b),
    decreases a.len(),
{
    if a.len() == 0 {
        assert(a + b =~= b);
        assert(encode_utf8(a) + encode_utf8(b) =~= encode_utf8(b));
    } else {
        lemma_encode_concat(a.drop_first(), b);
        assert((a + b).drop_first() =~= a.drop_first() + b);
        assert((a + b)[0] == a[0]);
        assert(encode_utf8(a + b) =~= encode_utf8(a) + encode_utf8(b));
    }
}

/// A truncated output fits the limit: its content takes at most `MAX_TOOL_OUTPUT_BYTES`
/// bytes.
pub proof fn lemma_truncated_fits(o: ToolOutput, r: ToolOutput)
    requires
        truncated(o, r),
        encode_utf8(o.content@).len() <= usize::MAX,
    ensures
        byte_len(r.content@) <= MAX_TOOL_OUTPUT_BYTES,
{
    if byte_len(o.content@) > MAX_TOOL_OUTPUT_BYTES {
        let kept = choose|kept: Seq<char>| #[trigger] cut_to_keep(o.content@, kept) && r.content@ == kept
            + TOOL_OUTPUT_TRUNCATION_SUFFIX@;
        lemma_encode_concat(kept, TOOL_OUTPUT_TRUNCATION_SUFFIX@);
        reveal_strlit("\n[tool output truncated]");
        assert(is_ascii_chars(TOOL_OUTPUT_TRUNCATION_SUFFIX@));
        is_ascii_chars_encode_utf8(TOOL_OUTPUT_TRUNCATION_SUFFIX@);
        assert(TOOL_OUTPUT_TRUNCATION_SUFFIX@.len() == 24);
    }
}

impl ToolOutput {
    /// Whether `truncate` can cut this output: either it is short enough to be kept
    /// whole, or the cut falls on a character boundary.
    pub open spec fn can_truncate_spec(self) -> bool {
        byte_len(self.content@) <= MAX_TOOL_OUTPUT_BYTES
            || is_char_boundary(encode_utf8(self.content@), truncation_keep())
    }

    /// Whether `truncate` can cut this output without panicking.
    pub fn can_truncate(&self) -> (r: bool)
        ensures
            r == self.can_truncate_spec(),
    {
        let len = self.content.as_str().len();
        let keep = MAX_TOOL_OUTPUT_BYTES.saturating_sub(TOOL_OUTPUT_TRUNCATION_SUFFIX.len());
        len <= MAX_TOOL_OUTPUT_BYTES || self.content.as_str().is_char_boundary(keep)
    }

    /// The output with content of at most the limit kept whole; longer content is cut to
    /// its first bytes and followed by the truncation suffix.
    pub fn truncate(self) -> (r: Self)
        requires
            self.can_truncate_spec(),
        ensures
            truncated(self, r),
    {
        if self.content.as_str().len() <= MAX_TOOL_OUTPUT_BYTES {
            return self;
        }
        let keep = MAX_TOOL_OUTPUT_BYTES.saturating_sub(TOOL_OUTPUT_TRUNCATION_SUFFIX.len());
        let mut content = self.content;
        string_truncate(&mut content, keep);
        let ghost kept = content@;
        assert(cut_to_keep(self.content@, kept));
        content.append(TOOL_OUTPUT_TRUNCATION_SUFFIX);
        ToolOutput { content, is_error: self.is_error, metadata: self.metadata }
    }

    /// An error output carrying `message`.
    pub fn error(message: String) -> (r: Self)
        ensures
            r == (ToolOutput { content: message, is_error: true, metadata: None }),
    {
        ToolOutput { content: message, is_error: true, metadata: None }
    }
}

/// A call that the model asked for.
#[derive(Debug, PartialEq)]
pub struct RequestedToolCall {
    pub call_id: String,
    pub tool_name: String,
    pub requested_arguments: Value,
}

impl Clone for RequestedToolCall {
    fn clone(&self) -> (r: Self)
        ensures
            r == *self,
    {
        RequestedToolCall {
            call_id: self.call_id.clone(),
            tool_name: self.tool_name.clone(),
            requested_arguments: clone_json(&self.requested_arguments),
        }
    }
}

/// The calls of one model response, in the model's order.
#[derive(Debug, PartialEq)]
pub struct RequestedToolBatch {
    pub calls: Vec<RequestedToolCall>,
}

/// A call after the plugins had their say: `effective_arguments` go to the tool.
#[derive(Debug, PartialEq)]
pub struct ResolvedToolCall {
    pub call_id: String,
    pub tool_name: String,
    pub requested_arguments: Value,
    pub effective_arguments: Value,
    pub mutating: bool,
}

impl Clone for ResolvedToolCall {
    fn clone(&self) -> (r: Self)
        ensures
            r == *self,
    {
        ResolvedToolCall {
            call_id: self.call_id.clone(),
            tool_name: self.tool_name.clone(),
            requested_arguments: clone_json(&self.requested_arguments),
            effective_arguments: clone_json(&self.effective_arguments),
            mutating: self.mutating,
        }
    }
}

} // verus!
