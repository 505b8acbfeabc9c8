//! Assembly of the request sent to a model provider.

use vstd::prelude::*;
use crate::application::context_manager::messages_view;
use crate::application::prompt_builder::RenderedPrompt;
use crate::domain::content::{BlockView, Message, MessageRole, MessageView};
use crate::domain::error::{AgentError, AgentErrorCode};
use crate::domain::model::{has_capability, model_has_capability, ChatRequest, ModelInfo, ModelMessage, ModelMessageRole, ProviderCapability};
use crate::domain::tool::ToolDescriptor;
use crate::domain::turn::{RequestContext, RequestContextView};
use crate::text::concat3;

verus! {

/// Whether the request may offer tools to the model.
#[derive(Debug, Clone, Copy, PartialEq, Eq, Structural)]
pub struct RequestBuildOptions {
    pub allow_tools: bool,
}

/// Builds chat requests.
pub struct ChatRequestBuilder;

/// The messages of a request context in the order they are sent.
pub open spec fn ordered_messages(ctx: RequestContextView) -> Seq<MessageView> {
    ctx.pre_anchor_messages + seq![ctx.anchor_message] + ctx.post_anchor_augmentations + ctx.post_anchor_messages
}

/// Whether a message holds an image.
pub open spec fn uses_vision(m: MessageView) -> bool {
    exists|i: int| 0 <= i < m.content.len() && m.content[i] is Image
}

/// Whether some message of the sequence holds an image.
pub open spec fn any_uses_vision(ms: Seq<MessageView>) -> bool {
    exists|i: int| 0 <= i < ms.len() && uses_vision(ms[i])
}

/// The wire role of a message role.
pub open spec fn wire_role(r: MessageRole) -> ModelMessageRole {
    match r {
        MessageRole::System => ModelMessageRole::System,
        MessageRole::User => ModelMessageRole::User,
        MessageRole::Assistant => ModelMessageRole::Assistant,
        MessageRole::Tool => ModelMessageRole::Tool,
    }
}

/// The mathematical model of a wire message.
pub struct ModelMessageView {
    pub role: ModelMessageRole,
    pub content: Seq<BlockView>,
    pub tool_call_id: Option<Seq<char>>,
}

impl View for ModelMessage {
    type V = ModelMessageView;

    open spec fn view(&self) -> ModelMessageView {
        ModelMessageView {
            role: self.role,
            content: crate::domain::content::blocks_view(self.content@),
            tool_call_id: crate::domain::content::opt_text(self.tool_call_id),
        }
    }
}

/// The wire form of a message.
pub open spec fn wire_message(m: MessageView) -> ModelMessageView {
    ModelMessageView { role: wire_role(m.role), content: m.content, tool_call_id: m.tool_call_id }
}

/// The error reported when a model cannot take what the request holds.
pub open spec fn unsupported_message(model_id: Seq<char>, what: Seq<char>) -> Seq<char> {
    "model `"@ + model_id + what
}

/// The mathematical model of a chat request.
pub struct ChatRequestView {
    pub model_id: Seq<char>,
    pub system_prompt: Seq<char>,
    pub messages: Seq<ModelMessageView>,
    pub tools: Seq<ToolDescriptor>,
    pub max_tokens: Option<u32>,
    pub reasoning_effort: Option<Seq<char>>,
}

impl View for ChatRequest {
    type V = ChatRequestView;

    open spec fn view(&self) -> ChatRequestView {
        ChatRequestView {
            model_id: self.model_id@,
            system_prompt: self.system_prompt@,
            messages: self.messages@.map_values(|m: ModelMessage| m@),
            tools: self.tools@,
            max_tokens: self.max_tokens,
            reasoning_effort: crate::domain::content::opt_text(self.reasoning_effort),
        }
    }
}

fn append_messages(out: &mut Vec<Message>, src: &Vec<Message>)
    ensures
        messages_view(final(out)@) == messages_view(old(out)@) + messages_view(src@),
{
    let ghost start = messages_view(out@);
    let mut i: usize = 0;
    while i < src.len()
        invariant
            i <= src.len(),
            messages_view(out@) == start + messages_view(src@).take(i as int),
        decreases src.len() - i,
    {
        let ghost before = messages_view(out@);
        out.push(src[i].clone());
        assert(messages_view(out@) =~= before.push(src@[i as int]@));
        assert(messages_view(src@).take(i + 1) =~= messages_view(src@).take(i as int).push(src@[i as int]@));
        i += 1;
    }
    assert(messages_view(src@).take(i as int) =~= messages_view(src@));
}

fn clone_tools(v: &Vec<ToolDescriptor>) -> (r: Vec<ToolDescriptor>)
    ensures
        r@ == v@,
{
    let mut r: Vec<ToolDescriptor> = Vec::new();
    let mut i: usize = 0;
    while i < v.len()
        invariant
            i <= v.len(),
            r@ == v@.take(i as int),
        decreases v.len() - i,
    {
        r.push(v[i].clone());
        assert(v@.take(i + 1) =~= v@.take(i as int).push(v@[i as int]));
        i += 1;
    }
    assert(v@.take(i as int) =~= v@);
    r
}

impl ChatRequestBuilder {
    /// Builds the request for `model_info` from the rendered prompt and the request
    /// context. Before any provider is called it refuses image input to a model without
    /// vision, and tools (when they are allowed and there are some) to a model without
    /// tool use. When tools are not allowed the request carries none.
    pub fn build(
        rendered_prompt: &RenderedPrompt,
        request_context: &RequestContext,
        tool_descriptors: &Vec<ToolDescriptor>,
        options: RequestBuildOptions,
        model_info: &ModelInfo,
    ) -> (r: Result<ChatRequest, AgentError>)
        ensures
            ({
                let msgs = ordered_messages(request_context@);
                let caps = model_info.capabilities@;
                let no_vision = any_uses_vision(msgs) && !has_capability(caps, ProviderCapability::Vision);
                let no_tools = options.allow_tools && tool_descriptors@.len() > 0
                    && !has_capability(caps, ProviderCapability::ToolUse);
                match r {
                    Ok(req) => {
                        &&& !no_vision && !no_tools
                        &&& req@.model_id == model_info.model_id@
                        &&& req@.system_prompt == rendered_prompt.system_prompt@
                        &&& req@.messages == msgs.map_values(|m: MessageView| wire_message(m))
                        &&& req@.tools == if options.allow_tools {
                            tool_descriptors@
                        } else {
                            Seq::empty()
                        }
                        &&& req.max_tokens is None
                        &&& req.reasoning_effort is None
                    },
                    Err(e) => {
                        &&& e.code == AgentErrorCode::ModelNotSupported
                        &&& !e.retryable
                        &&& if no_vision {
                            e.message@ == unsupported_message(model_info.model_id@, "` does not support vision input"@)
                        } else {
                            no_tools && e.message@ == unsupported_message(
                                model_info.model_id@,
                                "` does not support tool use"@,
                            )
                        }
                    },
                }
            }),
    {
        let mut ordered: Vec<Message> = Vec::new();
        append_messages(&mut ordered, &request_context.pre_anchor_messages);
        let ghost before = messages_view(ordered@);
        ordered.push(request_context.anchor_message.clone());
        assert(messages_view(ordered@) =~= before.push(request_context.anchor_message@));
        append_messages(&mut ordered, &request_context.post_anchor_augmentations);
        append_messages(&mut ordered, &request_context.post_anchor_messages);
        let ghost msgs = ordered_messages(request_context@);
        assert(messages_view(ordered@) =~= msgs);

        let mut any_vision = false;
        let mut i: usize = 0;
        while i < ordered.len()
            invariant
                i <= ordered.len(),
                messages_view(ordered@) == msgs,
                any_vision == exists|j: int| 0 <= j < i && uses_vision(msgs[j]),
            decreases ordered.len() - i,
        {
            let u = Self::message_uses_vision(&ordered[i]);
            assert(msgs[i as int] == ordered@[i as int]@);
            any_vision = any_vision || u;
            i += 1;
        }
        if any_vision && !model_has_capability(model_info, ProviderCapability::Vision) {
            return Err(AgentError::new(
                AgentErrorCode::ModelNotSupported,
                concat3("model `", model_info.model_id.as_str(), "` does not support vision input"),
            ));
        }
        let tools = if options.allow_tools {
            if tool_descriptors.len() > 0 && !model_has_capability(model_info, ProviderCapability::ToolUse) {
                return Err(AgentError::new(
                    AgentErrorCode::ModelNotSupported,
                    concat3("model `", model_info.model_id.as_str(), "` does not support tool use"),
                ));
            }
            clone_tools(tool_descriptors)
        } else {
            Vec::new()
        };

        let mut messages: Vec<ModelMessage> = Vec::new();
        let mut j: usize = 0;
        while j < ordered.len()
            invariant
                j <= ordered.len(),
                messages_view(ordered@) == msgs,
                messages@.map_values(|m: ModelMessage| m@) == msgs.take(j as int).map_values(
                    |m: MessageView| wire_message(m),
                ),
            decreases ordered.len() - j,
        {
            let ghost before = messages@.map_values(|m: ModelMessage| m@);
            let mm = Self::serialize_message(ordered[j].clone());
            messages.push(mm);
            assert(msgs[j as int] == ordered@[j as int]@);
            assert(messages@.map_values(|m: ModelMessage| m@) =~= before.push(wire_message(msgs[j as int])));
            assert(msgs.take(j + 1).map_values(|m: MessageView| wire_message(m)) =~= msgs.take(j as int).map_values(
                |m: MessageView| wire_message(m),
            ).push(wire_message(msgs[j as int])));
            j += 1;
        }
        assert(msgs.take(j as int) =~= msgs);
        let r = ChatRequest {
            model_id: model_info.model_id.clone(),
            system_prompt: rendered_prompt.system_prompt.clone(),
            messages,
            tools,
            max_tokens: None,
            reasoning_effort: None,
        };
        Ok(r)
    }

    /// The wire form of a message.
    fn serialize_message(message: Message) -> (r: ModelMessage)
        ensures
            r@ == wire_message(message@),
    {
        let role = match message.role {
            MessageRole::System => ModelMessageRole::System,
            MessageRole::User => ModelMessageRole::User,
            MessageRole::Assistant => ModelMessageRole::Assistant,
            MessageRole::Tool => ModelMessageRole::Tool,
        };
        ModelMessage { role, content: message.content, tool_call_id: message.tool_call_id }
    }

    /// Whether the message holds an image.
    fn message_uses_vision(message: &Message) -> (r: bool)
        ensures
            r == uses_vision(message@),
    {
        let mut i: usize = 0;
        while i < message.content.len()
            invariant
                i <= message.content.len(),
                forall|j: int| 0 <= j < i ==> !(message@.content[j] is Image),
            decreases message.content.len() - i,
        {
            if message.content[i].is_image() {
                assert(message@.content[i as int] is Image);
                return true;
            }
            i += 1;
        }
        false
    }
}

/// Every message goes on the wire in the role it was written in: two messages have the
/// same wire role exactly when they have the same role, each role is sent as the wire
/// role of the same name (so a skill injection, a compaction summary or an interrupted
/// notice, all system messages, is sent as a system message and never as the user's),
/// and the content and the call id are sent unchanged.
pub proof fn lemma_wire_keeps_roles(a: MessageView, b: MessageView)
    ensures
        wire_message(a).role == wire_message(b).role <==> a.role == b.role,
        wire_message(a).role == ModelMessageRole::System <==> a.role == MessageRole::System,
        wire_message(a).role == ModelMessageRole::User <==> a.role == MessageRole::User,
        wire_message(a).role == ModelMessageRole::Assistant <==> a.role == MessageRole::Assistant,
        wire_message(a).role == ModelMessageRole::Tool <==> a.role == MessageRole::Tool,
        wire_message(a).content == a.content,
        wire_message(a).tool_call_id == a.tool_call_id,
{
}

} // verus!
