//! Projection of a session's ledger into the messages a model sees.

use vstd::prelude::*;
use crate::domain::content::{clone_blocks, BlockView, ContentBlock, Message, MessageRole, MessageView, system_text_view, blocks_view};
use crate::domain::error::{AgentError, AgentErrorCode};
use crate::domain::ledger::{LedgerEvent, LedgerEventView, MessageStatus, PayloadView, SessionEventPayload, SessionLedger};
use crate::domain::session::{clone_opt_compaction, CompactionMode, CompactionRecord, ContextState, ContextStateView, VisibleMessage, VisibleMessageView};
use crate::domain::turn::{RequestContext, TurnAugmentation};
use crate::text::concat3;
use vstd::utf8::encode_utf8;

verus! {

/// The line that opens the system message standing in for compacted history.
pub const COMPACTION_SUMMARY_PREFIX: &'static str = "[compacted history summary]";
/// The system notice that follows an assistant message cut short by cancellation.
pub const INTERRUPTED_MESSAGE_NOTICE: &'static str = "[此消息因用户取消而中断]";

/// Builds request contexts from ledger projections.
pub struct ContextManager;

/// The text of the system message that stands in for compacted history.
pub open spec fn compaction_summary_text(body: Seq<char>) -> Seq<char> {
    COMPACTION_SUMMARY_PREFIX@ + "\n\n"@ + body
}

/// The messages that one ledger event contributes to the projected context.
pub open spec fn visible_for_event(e: LedgerEventView) -> Seq<VisibleMessageView> {
    match e.payload {
        PayloadView::UserMessage { content } => seq![VisibleMessageView {
            source_seq: Some(e.seq),
            message: MessageView { role: MessageRole::User, content, tool_call_id: None },
        }],
        PayloadView::AssistantMessage { content, status } => seq![VisibleMessageView {
            source_seq: Some(e.seq),
            message: MessageView { role: MessageRole::Assistant, content, tool_call_id: None },
        }] + if status == MessageStatus::Incomplete {
            seq![VisibleMessageView { source_seq: None, message: system_text_view(INTERRUPTED_MESSAGE_NOTICE@) }]
        } else {
            Seq::empty()
        },
        PayloadView::ToolResult { result } => seq![VisibleMessageView {
            source_seq: Some(e.seq),
            message: MessageView {
                role: MessageRole::Tool,
                content: seq![BlockView::Text { text: result.output.content@ }],
                tool_call_id: Some(result.call_id@),
            },
        }],
        PayloadView::SystemMessage { content } => seq![VisibleMessageView {
            source_seq: Some(e.seq),
            message: system_text_view(content),
        }],
        _ => Seq::empty(),
    }
}

/// Whether a compaction replaces the event with sequence number `seq`.
pub open spec fn replaced_by(c: Option<CompactionRecord>, seq: u64) -> bool {
    c matches Some(r) && seq <= r.replaces_through_seq
}

/// The messages that `events` contribute, leaving out those the compaction replaces.
pub open spec fn visible_events(events: Seq<LedgerEventView>, c: Option<CompactionRecord>) -> Seq<VisibleMessageView>
    decreases events.len(),
{
    if events.len() == 0 {
        Seq::empty()
    } else {
        visible_events(events.drop_last(), c) + if replaced_by(c, events.last().seq) {
            Seq::empty()
        } else {
            visible_for_event(events.last())
        }
    }
}

/// The summary message that opens the context after a summary compaction.
pub open spec fn summary_messages(c: Option<CompactionRecord>) -> Seq<VisibleMessageView> {
    match c {
        Some(r) => if r.mode == CompactionMode::Summary && r.summary_body is Some {
            seq![VisibleMessageView {
                source_seq: None,
                message: system_text_view(compaction_summary_text(r.summary_body.unwrap()@)),
            }]
        } else {
            Seq::empty()
        },
        None => Seq::empty(),
    }
}

/// The length in bytes of the UTF-8 encoding of `text`, as `str::len` reports it.
pub open spec fn utf8_len(text: Seq<char>) -> nat {
    (encode_utf8(text).len() as usize) as nat
}

/// The estimated tokens of a text: a quarter of its UTF-8 bytes, at least one.
pub open spec fn text_tokens(text: Seq<char>) -> nat {
    if utf8_len(text) / 4 >= 1 {
        utf8_len(text) / 4
    } else {
        1
    }
}

/// The estimated tokens of one block: those of its text, or a flat 256 for an image.
pub open spec fn block_tokens(b: BlockView) -> nat {
    match b {
        BlockView::Text { text } => text_tokens(text),
        BlockView::FileContent { text, .. } => text_tokens(text),
        BlockView::Image { .. } => 256,
    }
}

/// The estimated tokens of a sequence of blocks.
pub open spec fn blocks_tokens(bs: Seq<BlockView>) -> nat
    decreases bs.len(),
{
    if bs.len() == 0 {
        0
    } else {
        blocks_tokens(bs.drop_last()) + block_tokens(bs.last())
    }
}

/// The estimated tokens of a sequence of visible messages.
pub open spec fn history_tokens(vs: Seq<VisibleMessageView>) -> nat
    decreases vs.len(),
{
    if vs.len() == 0 {
        0
    } else {
        history_tokens(vs.drop_last()) + blocks_tokens(vs.last().message.content)
    }
}

/// A token count, or the largest `usize` where it exceeds that.
pub open spec fn saturated_tokens(n: nat) -> usize {
    if n <= usize::MAX {
        n as usize
    } else {
        usize::MAX
    }
}

/// The context projected from ledger events, where `decoded[i]` is what the metadata value
/// of event `i` decodes to as a compaction record: the latest compaction's summary, the
/// messages of the events it does not replace, and their estimated tokens.
pub open spec fn projected_context(events: Seq<LedgerEventView>, decoded: Seq<Option<CompactionRecord>>) -> ContextStateView {
    let c = crate::domain::ledger::latest_decoded(
        events,
        decoded,
        crate::domain::ledger::CONTEXT_COMPACTION_KEY@,
        events.len() as int,
    );
    let visible = summary_messages(c) + visible_events(events, c);
    ContextStateView {
        latest_compaction: c,
        visible_messages: visible,
        history_estimated_tokens: saturated_tokens(history_tokens(visible)),
    }
}

/// The views of a sequence of visible messages.
pub open spec fn visible_view(v: Seq<VisibleMessage>) -> Seq<VisibleMessageView> {
    v.map_values(|m: VisibleMessage| m@)
}

/// The views of a sequence of messages.
pub open spec fn messages_view(v: Seq<Message>) -> Seq<MessageView> {
    v.map_values(|m: Message| m@)
}

/// Whether `k` is the first index of `vs` whose source is `seq`.
pub open spec fn is_first_with_source(vs: Seq<VisibleMessageView>, seq: u64, k: int) -> bool {
    &&& 0 <= k < vs.len()
    &&& vs[k].source_seq == Some(seq)
    &&& forall|j: int| 0 <= j < k ==> vs[j].source_seq != Some(seq)
}

fn push_visible(out: &mut Vec<VisibleMessage>, m: VisibleMessage)
    ensures
        visible_view(final(out)@) == visible_view(old(out)@).push(m@),
{
    let ghost before = visible_view(out@);
    out.push(m);
    assert(visible_view(out@) =~= before.push(m@));
}

impl ContextManager {
    /// Projects the ledger into the context a model sees. `decoded_compactions[i]` is what
    /// the metadata value of event `i` decodes to as a compaction record; the latest
    /// compaction decides which events are replaced by its summary.
    pub fn rebuild_visible_messages(ledger: &SessionLedger, decoded_compactions: &Vec<Option<CompactionRecord>>) -> (r: ContextState)
        requires
            decoded_compactions.len() == ledger@.len(),
        ensures
            r@ == projected_context(ledger@, decoded_compactions@),
    {
        let latest_compaction = ledger.latest_compaction(decoded_compactions);
        let mut visible_messages: Vec<VisibleMessage> = Vec::new();
        if let Some(record) = &latest_compaction {
            match record.mode {
                CompactionMode::Summary => {
                    if let Some(summary_body) = &record.summary_body {
                        push_visible(&mut visible_messages, VisibleMessage {
                            source_seq: None,
                            message: Message::system_text(
                                Self::render_compaction_summary(summary_body.as_str()).as_str(),
                            ),
                        });
                    }
                },
                CompactionMode::TruncationFallback => {},
            }
        }
        assert(visible_view(visible_messages@) =~= summary_messages(latest_compaction));
        let events = ledger.events();
        let ghost prefix = summary_messages(latest_compaction);
        let mut i: usize = 0;
        while i < events.len()
            invariant
                i <= events.len(),
                events@.map_values(|e: LedgerEvent| e@) == ledger@,
                visible_view(visible_messages@) == prefix + visible_events(ledger@.take(i as int), latest_compaction),
            decreases events.len() - i,
        {
            proof {
                assert(ledger@.take(i + 1).drop_last() =~= ledger@.take(i as int));
                assert(ledger@[i as int] == events@[i as int]@);
            }
            let event = &events[i];
            let skip = match &latest_compaction {
                Some(record) => event.seq <= record.replaces_through_seq,
                None => false,
            };
            let ghost before = visible_view(visible_messages@);
            if !skip {
                Self::push_messages_for_event(&mut visible_messages, event);
            }
            assert(prefix + visible_events(ledger@.take(i + 1), latest_compaction)
                =~= before + if replaced_by(latest_compaction, event.seq) {
                    Seq::<VisibleMessageView>::empty()
                } else {
                    visible_for_event(event@)
                });
            i += 1;
        }
        assert(ledger@.take(i as int) =~= ledger@);
        let tokens = Self::estimate_history_tokens(&visible_messages);
        let r = ContextState { latest_compaction: clone_opt_compaction(&latest_compaction), visible_messages, history_estimated_tokens: tokens };
        assert(r@.visible_messages =~= visible_view(r.visible_messages@));
        assert(r@ == projected_context(ledger@, decoded_compactions@));
        r
    }

    fn push_messages_for_event(out: &mut Vec<VisibleMessage>, event: &LedgerEvent)
        ensures
            visible_view(final(out)@) == visible_view(old(out)@) + visible_for_event(event@),
    {
        let ghost before = visible_view(out@);
        match &event.payload {
            SessionEventPayload::UserMessage { content } => {
                push_visible(out, VisibleMessage { source_seq: Some(event.seq), message: Message::user(clone_blocks(content)) });
                assert(visible_view(out@) =~= before + visible_for_event(event@));
            },
            SessionEventPayload::AssistantMessage { content, status } => {
                push_visible(out, VisibleMessage {
                    source_seq: Some(event.seq),
                    message: Message::assistant(clone_blocks(content)),
                });
                if *status == MessageStatus::Incomplete {
                    push_visible(out, VisibleMessage { source_seq: None, message: Message::system_text(INTERRUPTED_MESSAGE_NOTICE) });
                }
                assert(visible_view(out@) =~= before + visible_for_event(event@));
            },
            SessionEventPayload::ToolResult { result } => {
                let mut content: Vec<ContentBlock> = Vec::new();
                content.push(ContentBlock::text(result.output.content.as_str()));
                assert(blocks_view(content@) =~= seq![BlockView::Text { text: result.output.content@ }]);
                push_visible(out, VisibleMessage {
                    source_seq: Some(event.seq),
                    message: Message::tool(result.call_id.as_str(), content),
                });
                assert(visible_view(out@) =~= before + visible_for_event(event@));
            },
            SessionEventPayload::SystemMessage { content } => {
                push_visible(out, VisibleMessage { source_seq: Some(event.seq), message: Message::system_text(content.as_str()) });
                assert(visible_view(out@) =~= before + visible_for_event(event@));
            },
            _ => {
                assert(visible_view(out@) =~= before + visible_for_event(event@));
            },
        }
    }

    /// Splits the projected context around the turn's user message and places the skill
    /// injections right after it.
    pub fn build_request_context(context_state: &ContextState, augmentation: &TurnAugmentation) -> (r: Result<RequestContext, AgentError>)
        ensures
            match r {
                Ok(ctx) => exists|k: int| {
                    &&& is_first_with_source(context_state@.visible_messages, augmentation.origin_user_seq, k)
                    &&& ctx@.pre_anchor_messages == context_state@.visible_messages.take(k).map_values(
                        |v: VisibleMessageView| v.message,
                    )
                    &&& ctx@.anchor_message == context_state@.visible_messages[k].message
                    &&& ctx@.post_anchor_messages == context_state@.visible_messages.skip(k + 1).map_values(
                        |v: VisibleMessageView| v.message,
                    )
                    &&& ctx@.post_anchor_augmentations == augmentation.skill_injections@.map_values(
                        |s: crate::domain::turn::ResolvedSkillInjection| system_text_view(s.rendered_xml@),
                    )
                },
                Err(e) => {
                    &&& forall|k: int| 0 <= k < context_state@.visible_messages.len()
                        ==> context_state@.visible_messages[k].source_seq != Some(augmentation.origin_user_seq)
                    &&& e.code == AgentErrorCode::InvalidInput
                    &&& e.message@ == "turn anchor message is no longer visible in the projected context"@
                    &&& !e.retryable
                },
            },
    {
        let vs = &context_state.visible_messages;
        let ghost vv = context_state@.visible_messages;
        assert(vv == visible_view(vs@));
        let target = Some(augmentation.origin_user_seq);
        let mut k: usize = 0;
        while k < vs.len() && vs[k].source_seq != target
            invariant
                k <= vs.len(),
                vv == visible_view(vs@),
                forall|j: int| 0 <= j < k ==> vv[j].source_seq != target,
            decreases vs.len() - k,
        {
            k += 1;
        }
        if k == vs.len() {
            return Err(AgentError::new(
                AgentErrorCode::InvalidInput,
                "turn anchor message is no longer visible in the projected context".to_owned(),
            ));
        }
        let mut pre: Vec<Message> = Vec::new();
        let mut i: usize = 0;
        while i < k
            invariant
                i <= k < vs.len(),
                vv == visible_view(vs@),
                messages_view(pre@) == vv.take(i as int).map_values(|v: VisibleMessageView| v.message),
            decreases k - i,
        {
            let ghost before = messages_view(pre@);
            pre.push(vs[i].message.clone());
            assert(messages_view(pre@) =~= before.push(vv[i as int].message));
            assert(vv.take(i + 1).map_values(|v: VisibleMessageView| v.message)
                =~= vv.take(i as int).map_values(|v: VisibleMessageView| v.message).push(vv[i as int].message));
            i += 1;
        }
        let anchor_message = vs[k].message.clone();
        let mut post: Vec<Message> = Vec::new();
        let mut i: usize = k + 1;
        while i < vs.len()
            invariant
                k < i <= vs.len(),
                vv == visible_view(vs@),
                messages_view(post@) == vv.subrange(k + 1, i as int).map_values(|v: VisibleMessageView| v.message),
            decreases vs.len() - i,
        {
            let ghost before = messages_view(post@);
            post.push(vs[i].message.clone());
            assert(messages_view(post@) =~= before.push(vv[i as int].message));
            assert(vv.subrange(k + 1, i + 1).map_values(|v: VisibleMessageView| v.message)
                =~= vv.subrange(k + 1, i as int).map_values(|v: VisibleMessageView| v.message).push(vv[i as int].message));
            i += 1;
        }
        assert(vv.subrange(k + 1, vs.len() as int) =~= vv.skip(k + 1));
        let injections = &augmentation.skill_injections;
        let mut augmentations: Vec<Message> = Vec::new();
        let mut i: usize = 0;
        while i < injections.len()
            invariant
                i <= injections.len(),
                messages_view(augmentations@) == injections@.take(i as int).map_values(
                    |s: crate::domain::turn::ResolvedSkillInjection| system_text_view(s.rendered_xml@),
                ),
            decreases injections.len() - i,
        {
            let ghost before = messages_view(augmentations@);
            augmentations.push(Message::system_text(injections[i].rendered_xml.as_str()));
            assert(messages_view(augmentations@) =~= before.push(system_text_view(injections@[i as int].rendered_xml@)));
            assert(injections@.take(i + 1).map_values(|s: crate::domain::turn::ResolvedSkillInjection| system_text_view(s.rendered_xml@))
                =~= injections@.take(i as int).map_values(|s: crate::domain::turn::ResolvedSkillInjection| system_text_view(s.rendered_xml@)).push(
                    system_text_view(injections@[i as int].rendered_xml@),
                ));
            i += 1;
        }
        assert(injections@.take(i as int) =~= injections@);
        let r = RequestContext {
            pre_anchor_messages: pre,
            anchor_message,
            post_anchor_augmentations: augmentations,
            post_anchor_messages: post,
        };
        assert(r@.pre_anchor_messages =~= messages_view(r.pre_anchor_messages@));
        assert(r@.post_anchor_messages =~= messages_view(r.post_anchor_messages@));
        assert(r@.post_anchor_augmentations =~= messages_view(r.post_anchor_augmentations@));
        assert(is_first_with_source(vv, augmentation.origin_user_seq, k as int));
        Ok(r)
    }

    /// The text of the system message standing in for compacted history.
    pub fn render_compaction_summary(summary_body: &str) -> (r: String)
        ensures
            r@ == compaction_summary_text(summary_body@),
    {
        concat3(COMPACTION_SUMMARY_PREFIX, "\n\n", summary_body)
    }

    fn estimate_block_tokens(block: &ContentBlock) -> (r: usize)
        ensures
            r == block_tokens(block@),
    {
        match block {
            ContentBlock::Text { text } => {
                let n = text.as_str().len() / 4;
                if n >= 1 { n } else { 1 }
            },
            ContentBlock::FileContent { text, .. } => {
                let n = text.as_str().len() / 4;
                if n >= 1 { n } else { 1 }
            },
            ContentBlock::Image { .. } => 256,
        }
    }

    /// The estimated tokens of a message, or the largest `usize` where the estimate
    /// exceeds it.
    fn estimate_message_tokens(message: &Message) -> (r: usize)
        ensures
            r == saturated_tokens(blocks_tokens(message@.content)),
    {
        let mut total: usize = 0;
        let mut i: usize = 0;
        while i < message.content.len()
            invariant
                i <= message.content.len(),
                total == saturated_tokens(blocks_tokens(message@.content.take(i as int))),
            decreases message.content.len() - i,
        {
            proof {
                let bs = message@.content;
                assert(bs.take(i + 1).drop_last() =~= bs.take(i as int));
            }
            let t = Self::estimate_block_tokens(&message.content[i]);
            total = total.saturating_add(t);
            i += 1;
        }
        assert(message@.content.take(i as int) =~= message@.content);
        total
    }

    /// The estimated tokens of the visible messages, or the largest `usize` where the
    /// estimate exceeds it.
    fn estimate_history_tokens(visible: &Vec<VisibleMessage>) -> (r: usize)
        ensures
            r == saturated_tokens(history_tokens(visible_view(visible@))),
    {
        let ghost vs = visible_view(visible@);
        let mut tokens: usize = 0;
        let mut j: usize = 0;
        while j < visible.len()
            invariant
                j <= visible.len(),
                vs == visible_view(visible@),
                tokens == saturated_tokens(history_tokens(vs.take(j as int))),
            decreases visible.len() - j,
        {
            assert(vs.take(j + 1).drop_last() =~= vs.take(j as int));
            assert(vs[j as int] == visible@[j as int]@);
            let t = Self::estimate_message_tokens(&visible[j].message);
            tokens = tokens.saturating_add(t);
            j += 1;
        }
        assert(vs.take(j as int) =~= vs);
        tokens
    }
}

/// The messages of a ledger read in two parts are those of each part, in order.
pub proof fn lemma_visible_events_concat(a: Seq<LedgerEventView>, b: Seq<LedgerEventView>, c: Option<CompactionRecord>)
    ensures
        visible_events(a + b, c) == visible_events(a, c) + visible_events(b, c),
    decreases b.len(),
{
    if b.len() == 0 {
        assert(a + b =~= a);
        assert(visible_events(a, c) + visible_events(b, c) =~= visible_events(a, c));
    } else {
        lemma_visible_events_concat(a, b.drop_last(), c);
        assert((a + b).drop_last() =~= a + b.drop_last());
        assert((a + b).last() == b.last());
        let tail = if replaced_by(c, b.last().seq) {
            Seq::<VisibleMessageView>::empty()
        } else {
            visible_for_event(b.last())
        };
        assert(visible_events(a, c) + visible_events(b.drop_last(), c) + tail =~= visible_events(a, c) + (visible_events(
            b.drop_last(),
            c,
        ) + tail));
    }
}

/// The model sees every tool result that the latest compaction does not replace. Event
/// `i` of the ledger, a tool result, contributes exactly one visible message, between
/// those of the events before it and those of the events after it: a tool message
/// numbered by the event's seq, answering the result's call id with the tool's output
/// as its one text block.
pub proof fn lemma_tool_results_are_visible(events: Seq<LedgerEventView>, decoded: Seq<Option<CompactionRecord>>, i: int)
    requires
        0 <= i < events.len(),
        events[i].payload is ToolResult,
        !replaced_by(projected_context(events, decoded).latest_compaction, events[i].seq),
    ensures
        ({
            let ctx = projected_context(events, decoded);
            let c = ctx.latest_compaction;
            let result = events[i].payload->ToolResult_result;
            let message = VisibleMessageView {
                source_seq: Some(events[i].seq),
                message: MessageView {
                    role: MessageRole::Tool,
                    content: seq![BlockView::Text { text: result.output.content@ }],
                    tool_call_id: Some(result.call_id@),
                },
            };
            &&& ctx.visible_messages == summary_messages(c) + visible_events(events.take(i), c) + seq![message]
                + visible_events(events.skip(i + 1), c)
            &&& exists|k: int| 0 <= k < ctx.visible_messages.len() && ctx.visible_messages[k] == message
        }),
{
    let ctx = projected_context(events, decoded);
    let c = ctx.latest_compaction;
    let one = seq![events[i]];
    assert(events =~= events.take(i) + one + events.skip(i + 1));
    lemma_visible_events_concat(events.take(i) + one, events.skip(i + 1), c);
    lemma_visible_events_concat(events.take(i), one, c);
    assert(one.drop_last() =~= Seq::<LedgerEventView>::empty());
    assert(visible_events(one.drop_last(), c) == Seq::<VisibleMessageView>::empty());
    assert(one.last() == events[i]);
    let result = events[i].payload->ToolResult_result;
    let message = VisibleMessageView {
        source_seq: Some(events[i].seq),
        message: MessageView {
            role: MessageRole::Tool,
            content: seq![BlockView::Text { text: result.output.content@ }],
            tool_call_id: Some(result.call_id@),
        },
    };
    assert(visible_events(one, c) =~= seq![message]);
    let before = summary_messages(c) + visible_events(events.take(i), c);
    assert(ctx.visible_messages =~= before + seq![message] + visible_events(events.skip(i + 1), c));
    assert(ctx.visible_messages[before.len() as int] == message);
}

} // verus!
