//! The request adapter: a pure, synchronous translation of a canonical
//! [`ChatRequest`] into the vendor's wire request shape.
//!
//! The translation is specified by [`spec_adapt`] and proved against it:
//! consecutive same-role messages are coalesced, each role is translated to
//! its vendor message shape, image content is gated on the model's vision
//! capability, and a synthetic `noop` tool is injected when the history
//! mentions a tool call but the request offers no tools.

use crate::json::{json_parsed, json_serialized, parse_json, serialize_json};
use crate::model::{
    blocks_view, msgs_view, spec_contents_empty, tools_view, ChatRequest, ChatRequestView,
    ContentBlock, ContentBlockView, Message, MessageView, ModelDescriptor, ModelDescriptorView,
    Role, ToolDefinition, ToolDefinitionView, ToolResultContent, ToolResultContentView,
};
use crate::vendor::{
    calls_view, parts_view, vmsgs_view, vtools_view, VendorMessage, VendorMessageView, VendorPart,
    VendorPartView, VendorRequest, VendorRequestView, VendorTool, VendorToolCall,
    VendorToolCallView, VendorToolContent, VendorToolContentView, VendorToolView,
};
use vstd::prelude::*;

verus! {

/// Why a vendor request could not be built from a canonical request.
#[derive(Clone, Debug, PartialEq)]
pub enum RequestError {
    /// The final message carries no content.
    EmptyPrompt,
    /// The vendor requires the final message to be user-authored.
    LastMessageNotUser,
    /// A tool-call input value could not be serialized to JSON text.
    ToolInputSerialization { detail: String },
}

// ---------------------------------------------------------------------------
// Coalescing
// ---------------------------------------------------------------------------

/// Fold one message into an already-coalesced sequence: merge it into the
/// last message when the roles agree, append it otherwise.
pub open spec fn merge_step(acc: Seq<MessageView>, m: MessageView) -> Seq<MessageView> {
    if acc.len() > 0 && acc.last().role == m.role {
        acc.update(
            acc.len() - 1,
            MessageView { role: m.role, content: acc.last().content + m.content },
        )
    } else {
        acc.push(m)
    }
}

/// Coalesce consecutive same-role messages into one, concatenating their
/// content blocks in order.
pub open spec fn coalesce(msgs: Seq<MessageView>) -> Seq<MessageView>
    decreases msgs.len(),
{
    if msgs.len() == 0 {
        Seq::empty()
    } else {
        merge_step(coalesce(msgs.drop_last()), msgs.last())
    }
}

// ---------------------------------------------------------------------------
// Per-role translation
// ---------------------------------------------------------------------------

/// The text a block contributes to a flattened text field: text and thinking
/// spans count, every other block kind contributes nothing.
pub open spec fn block_text(b: ContentBlockView) -> Option<Seq<char>> {
    match b {
        ContentBlockView::Text(t) => Some(t),
        ContentBlockView::Thinking { text } => Some(text),
        _ => None,
    }
}

/// Concatenation, in order, of all text and thinking spans of a message.
pub open spec fn concat_text_blocks(content: Seq<ContentBlockView>) -> Seq<char>
    decreases content.len(),
{
    if content.len() == 0 {
        Seq::empty()
    } else {
        concat_text_blocks(content.drop_last()) + (match block_text(content.last()) {
            Some(t) => t,
            None => Seq::empty(),
        })
    }
}

/// Fold one block into a user message's part list: non-empty text merges
/// into a trailing text part or opens a new one, images are kept only for
/// vision-capable models, everything else is dropped.
pub open spec fn push_user_part(
    parts: Seq<VendorPartView>,
    b: ContentBlockView,
    vision: bool,
) -> Seq<VendorPartView> {
    match block_text(b) {
        Some(t) => {
            if t.len() == 0 {
                parts
            } else if parts.len() > 0 && (parts.last() matches VendorPartView::Text { .. }) {
                let merged = match parts.last() {
                    VendorPartView::Text { text } => VendorPartView::Text { text: text + t },
                    _ => parts.last(),
                };
                parts.update(parts.len() - 1, merged)
            } else {
                parts.push(VendorPartView::Text { text: t })
            }
        },
        None => match b {
            ContentBlockView::Image { url } => {
                if vision {
                    parts.push(VendorPartView::Image { url })
                } else {
                    parts
                }
            },
            _ => parts,
        },
    }
}

/// The content parts of the vendor user message built from a canonical user
/// message's blocks.
pub open spec fn user_parts(content: Seq<ContentBlockView>, vision: bool) -> Seq<VendorPartView>
    decreases content.len(),
{
    if content.len() == 0 {
        Seq::empty()
    } else {
        push_user_part(user_parts(content.drop_last(), vision), content.last(), vision)
    }
}

/// The diagnostic text substituted for an image tool result when the model
/// lacks vision support; this path signals an upstream contract violation.
pub open spec fn image_tool_result_note() -> Seq<char> {
    "[Tool responded with an image, but this model does not support vision]"@
}

/// The vendor tool message for one tool-result block.
pub open spec fn tool_result_message(
    tool_use_id: Seq<char>,
    content: ToolResultContentView,
    vision: bool,
) -> VendorMessageView {
    VendorMessageView::Tool {
        tool_call_id: tool_use_id,
        content: match content {
            ToolResultContentView::Text(t) => VendorToolContentView::Text(t),
            ToolResultContentView::Image { url } => {
                if vision {
                    VendorToolContentView::Image { url }
                } else {
                    VendorToolContentView::Text(image_tool_result_note())
                }
            },
        },
    }
}

/// One vendor tool message per tool-result block of a user message, in
/// block order.
pub open spec fn tool_result_messages(
    content: Seq<ContentBlockView>,
    vision: bool,
) -> Seq<VendorMessageView>
    decreases content.len(),
{
    if content.len() == 0 {
        Seq::empty()
    } else {
        tool_result_messages(content.drop_last(), vision) + (match content.last() {
            ContentBlockView::ToolResult { tool_use_id, tool_name, content: c } => seq![
                tool_result_message(tool_use_id, c, vision),
            ],
            _ => Seq::empty(),
        })
    }
}

/// All vendor messages a canonical user message gives rise to: its tool
/// messages first, then one user message if any content parts remain.
pub open spec fn user_messages(
    content: Seq<ContentBlockView>,
    vision: bool,
) -> Seq<VendorMessageView> {
    tool_result_messages(content, vision) + (if user_parts(content, vision).len() > 0 {
        seq![VendorMessageView::User { content: user_parts(content, vision) }]
    } else {
        Seq::empty()
    })
}

/// The vendor tool calls of an assistant message: one per tool-use block in
/// block order, each input serialized to JSON text; the first serialization
/// failure aborts with its error message.
pub open spec fn assistant_tool_calls(content: Seq<ContentBlockView>) -> Result<
    Seq<VendorToolCallView>,
    Seq<char>,
>
    decreases content.len(),
{
    if content.len() == 0 {
        Ok(Seq::empty())
    } else {
        match assistant_tool_calls(content.drop_last()) {
            Err(e) => Err(e),
            Ok(calls) => match content.last() {
                ContentBlockView::ToolUse { id, name, input } => match json_serialized(input) {
                    Ok(args) => Ok(calls.push(VendorToolCallView { id, name, arguments: args })),
                    Err(e) => Err(e),
                },
                _ => Ok(calls),
            },
        }
    }
}

/// Whether a message's content holds a tool-use block.
pub open spec fn has_tool_use(content: Seq<ContentBlockView>) -> bool {
    exists|i: int|
        0 <= i < content.len() && (#[trigger] content[i]) matches ContentBlockView::ToolUse { .. }
}

/// The vendor assistant message for a canonical assistant message: all text
/// flattened to one field (the empty text standing for no text, never
/// omission) and one tool call per tool-use block.
pub open spec fn assistant_message(content: Seq<ContentBlockView>) -> Result<
    VendorMessageView,
    Seq<char>,
> {
    match assistant_tool_calls(content) {
        Ok(calls) => Ok(
            VendorMessageView::Assistant {
                content: concat_text_blocks(content),
                tool_calls: calls,
            },
        ),
        Err(e) => Err(e),
    }
}

/// The vendor messages one coalesced canonical message gives rise to.
pub open spec fn translate_message(m: MessageView, vision: bool) -> Result<
    Seq<VendorMessageView>,
    Seq<char>,
> {
    match m.role {
        Role::User => Ok(user_messages(m.content, vision)),
        Role::Assistant => match assistant_message(m.content) {
            Ok(vm) => Ok(seq![vm]),
            Err(e) => Err(e),
        },
        Role::System => Ok(
            seq![VendorMessageView::System { content: concat_text_blocks(m.content) }],
        ),
    }
}

/// The vendor messages of a whole coalesced message sequence, in order; the
/// first serialization failure aborts with its error message.
pub open spec fn translate_messages(msgs: Seq<MessageView>, vision: bool) -> Result<
    Seq<VendorMessageView>,
    Seq<char>,
>
    decreases msgs.len(),
{
    if msgs.len() == 0 {
        Ok(Seq::empty())
    } else {
        match translate_messages(msgs.drop_last(), vision) {
            Err(e) => Err(e),
            Ok(vms) => match translate_message(msgs.last(), vision) {
                Ok(tail) => Ok(vms + tail),
                Err(e) => Err(e),
            },
        }
    }
}

/// Whether the conversation history mentions a tool invocation: some
/// assistant message holds a tool-use block.
pub open spec fn history_has_tool_call(msgs: Seq<MessageView>) -> bool {
    exists|i: int|
        0 <= i < msgs.len() && (#[trigger] msgs[i]).role == Role::Assistant && has_tool_use(
            msgs[i].content,
        )
}

// ---------------------------------------------------------------------------
// Tools
// ---------------------------------------------------------------------------

/// The vendor tool for one canonical tool definition: a one-to-one
/// translation.
pub open spec fn vendor_tool_of(t: ToolDefinitionView) -> VendorToolView {
    VendorToolView { name: t.name, description: t.description, parameters: t.input_schema }
}

/// The JSON text of the synthetic tool's minimal empty-object schema.
pub open spec fn noop_schema_text() -> Seq<char> {
    "{\"type\":\"object\"}"@
}

/// The synthetic tool injected when the history mentions a tool call but the
/// request offers no tools; the vendor rejects tool-call history with no
/// tool definitions present.
pub open spec fn noop_tool() -> VendorToolView {
    VendorToolView {
        name: "noop"@,
        description: "No operation"@,
        parameters: json_parsed(noop_schema_text())->Ok_0,
    }
}

/// The canonical tools translated one-to-one, in order.
pub open spec fn translated_tools(tools: Seq<ToolDefinitionView>) -> Seq<VendorToolView> {
    Seq::new(tools.len(), |j: int| vendor_tool_of(tools[j]))
}

/// The vendor tool list: the canonical tools translated one-to-one, with
/// exactly the synthetic tool substituted when the list is empty though the
/// history mentions a tool call.
pub open spec fn vendor_tools(
    tools: Seq<ToolDefinitionView>,
    tool_called: bool,
) -> Seq<VendorToolView> {
    if tool_called && tools.len() == 0 {
        seq![noop_tool()]
    } else {
        translated_tools(tools)
    }
}

// ---------------------------------------------------------------------------
// The whole adaptation
// ---------------------------------------------------------------------------

/// What the adapter returns: the vendor request for a canonical request and
/// model descriptor, or the first tool-input serialization error.
pub open spec fn spec_adapt(model: ModelDescriptorView, req: ChatRequestView) -> Result<
    VendorRequestView,
    Seq<char>,
> {
    let msgs = coalesce(req.messages);
    match translate_messages(msgs, model.supports_vision) {
        Err(e) => Err(e),
        Ok(vmsgs) => Ok(
            VendorRequestView {
                intent: true,
                n: 1,
                stream: model.uses_streaming,
                temperature_tenths: 1,
                model: model.id,
                messages: vmsgs,
                tools: vendor_tools(req.tools, history_has_tool_call(msgs)),
                tool_choice: req.tool_choice,
            },
        ),
    }
}

// ---------------------------------------------------------------------------
// Step lemmas
// ---------------------------------------------------------------------------

/// Extending the scanned prefix by one block toggles `has_tool_use` exactly
/// when the new block is a tool use.
proof fn lemma_has_tool_use_step(cv: Seq<ContentBlockView>, i: int)
    requires
        0 <= i < cv.len(),
    ensures
        has_tool_use(cv.take(i + 1)) == (has_tool_use(cv.take(i)) || (
        cv[i] matches ContentBlockView::ToolUse { .. })),
{
    if cv[i] matches ContentBlockView::ToolUse { .. } {
        assert(cv.take(i + 1)[i] matches ContentBlockView::ToolUse { .. });
        assert(has_tool_use(cv.take(i + 1)));
    } else if has_tool_use(cv.take(i)) {
        let j = choose|j: int|
            0 <= j < cv.take(i).len() && (#[trigger] cv.take(i)[j]) matches ContentBlockView::ToolUse { .. };
        assert(cv.take(i + 1)[j] matches ContentBlockView::ToolUse { .. });
        assert(has_tool_use(cv.take(i + 1)));
    } else {
        if has_tool_use(cv.take(i + 1)) {
            let j = choose|j: int|
                0 <= j < cv.take(i + 1).len() && (#[trigger] cv.take(i + 1)[j]) matches ContentBlockView::ToolUse { .. };
            if j < i {
                assert(cv.take(i)[j] matches ContentBlockView::ToolUse { .. });
            }
            assert(false);
        }
    }
}

/// Extending the scanned prefix by one message toggles `history_has_tool_call`
/// exactly when the new message is an assistant message with a tool use.
proof fn lemma_history_tool_step(ms: Seq<MessageView>, i: int)
    requires
        0 <= i < ms.len(),
    ensures
        history_has_tool_call(ms.take(i + 1)) == (history_has_tool_call(ms.take(i)) || (ms[i].role
            == Role::Assistant && has_tool_use(ms[i].content))),
{
    if ms[i].role == Role::Assistant && has_tool_use(ms[i].content) {
        assert(ms.take(i + 1)[i].role == Role::Assistant && has_tool_use(ms.take(i + 1)[i].content));
        assert(history_has_tool_call(ms.take(i + 1)));
    } else if history_has_tool_call(ms.take(i)) {
        let j = choose|j: int|
            0 <= j < ms.take(i).len() && (#[trigger] ms.take(i)[j]).role == Role::Assistant
                && has_tool_use(ms.take(i)[j].content);
        assert(ms.take(i + 1)[j].role == Role::Assistant && has_tool_use(ms.take(i + 1)[j].content));
        assert(history_has_tool_call(ms.take(i + 1)));
    } else {
        if history_has_tool_call(ms.take(i + 1)) {
            let j = choose|j: int|
                0 <= j < ms.take(i + 1).len() && (#[trigger] ms.take(i + 1)[j]).role
                    == Role::Assistant && has_tool_use(ms.take(i + 1)[j].content);
            if j < i {
                assert(ms.take(i)[j].role == Role::Assistant && has_tool_use(ms.take(i)[j].content));
            }
            assert(false);
        }
    }
}

/// A serialization failure at block `k` decides the whole assistant
/// translation, whatever blocks follow.
proof fn lemma_assistant_calls_error_persists(cv: Seq<ContentBlockView>, k: int)
    requires
        0 <= k < cv.len(),
        assistant_tool_calls(cv.take(k)) is Ok,
        cv[k] matches ContentBlockView::ToolUse { .. },
        assistant_tool_calls(cv.take(k + 1)) is Err,
    ensures
        assistant_tool_calls(cv) == assistant_tool_calls(cv.take(k + 1)),
    decreases cv.len(),
{
    if cv.len() == k + 1 {
        assert(cv.take(k + 1) =~= cv);
    } else {
        assert(cv.drop_last().take(k) =~= cv.take(k));
        assert(cv.drop_last().take(k + 1) =~= cv.take(k + 1));
        lemma_assistant_calls_error_persists(cv.drop_last(), k);
    }
}

/// A message translation failure at message `k` decides the whole
/// translation, whatever messages follow.
proof fn lemma_translate_error_persists(ms: Seq<MessageView>, vision: bool, k: int)
    requires
        0 <= k < ms.len(),
        translate_messages(ms.take(k), vision) is Ok,
        translate_message(ms[k], vision) is Err,
    ensures
        translate_messages(ms, vision) is Err,
        translate_messages(ms, vision)->Err_0 == translate_message(ms[k], vision)->Err_0,
    decreases ms.len(),
{
    if ms.len() == k + 1 {
        assert(ms.take(k) =~= ms.drop_last());
    } else {
        assert(ms.drop_last().take(k) =~= ms.take(k));
        lemma_translate_error_persists(ms.drop_last(), vision, k);
    }
}

// ---------------------------------------------------------------------------
// Executable translation, per role
// ---------------------------------------------------------------------------

/// Concatenation, in order, of all text and thinking spans of a message.
fn flatten_text(content: &Vec<ContentBlock>) -> (r: String)
    ensures
        r@ == concat_text_blocks(blocks_view(content@)),
{
    let ghost cv = blocks_view(content@);
    let mut buffer = String::new();
    let mut i: usize = 0;
    while i < content.len()
        invariant
            i <= content.len(),
            cv == blocks_view(content@),
            buffer@ == concat_text_blocks(cv.take(i as int)),
        decreases content.len() - i,
    {
        proof {
            assert(cv.take(i as int + 1).drop_last() =~= cv.take(i as int));
            assert(cv.take(i as int + 1).last() == cv[i as int]);
        }
        match &content[i] {
            ContentBlock::Text(t) => buffer.append(t.as_str()),
            ContentBlock::Thinking { text } => buffer.append(text.as_str()),
            _ => (),
        }
        assert(buffer@ =~= concat_text_blocks(cv.take(i as int + 1)));
        i = i + 1;
    }
    proof {
        assert(cv.take(content@.len() as int) =~= cv);
    }
    buffer
}

/// The vendor tool messages and user-message content parts arising from a
/// canonical user message's blocks.
fn translate_user_content(content: &Vec<ContentBlock>, vision: bool) -> (r: (
    Vec<VendorMessage>,
    Vec<VendorPart>,
))
    ensures
        vmsgs_view(r.0@) == tool_result_messages(blocks_view(content@), vision),
        parts_view(r.1@) == user_parts(blocks_view(content@), vision),
{
    let ghost cv = blocks_view(content@);
    let mut tool_msgs: Vec<VendorMessage> = Vec::new();
    let mut parts: Vec<VendorPart> = Vec::new();
    let mut i: usize = 0;
    while i < content.len()
        invariant
            i <= content.len(),
            cv == blocks_view(content@),
            vmsgs_view(tool_msgs@) == tool_result_messages(cv.take(i as int), vision),
            parts_view(parts@) == user_parts(cv.take(i as int), vision),
        decreases content.len() - i,
    {
        proof {
            assert(cv.take(i as int + 1).drop_last() =~= cv.take(i as int));
            assert(cv.take(i as int + 1).last() == cv[i as int]);
        }
        match &content[i] {
            ContentBlock::Text(t) => {
                if !t.as_str().is_empty() {
                    push_text_part(&mut parts, t);
                }
            },
            ContentBlock::Thinking { text } => {
                if !text.as_str().is_empty() {
                    push_text_part(&mut parts, text);
                }
            },
            ContentBlock::Image { url } => {
                if vision {
                    parts.push(VendorPart::Image { url: url.clone() });
                }
            },
            ContentBlock::ToolResult { tool_use_id, tool_name: _, content: c } => {
                let tc = match c {
                    ToolResultContent::Text(t) => VendorToolContent::Text(t.clone()),
                    ToolResultContent::Image { url } => {
                        if vision {
                            VendorToolContent::Image { url: url.clone() }
                        } else {
                            VendorToolContent::Text(
                                String::from_str(
                                    "[Tool responded with an image, but this model does not support vision]",
                                ),
                            )
                        }
                    },
                };
                tool_msgs.push(VendorMessage::Tool { tool_call_id: tool_use_id.clone(), content: tc });
            },
            _ => (),
        }
        assert(vmsgs_view(tool_msgs@) =~= tool_result_messages(cv.take(i as int + 1), vision));
        assert(parts_view(parts@) =~= user_parts(cv.take(i as int + 1), vision));
        i = i + 1;
    }
    proof {
        assert(cv.take(content@.len() as int) =~= cv);
    }
    (tool_msgs, parts)
}

/// Append a non-empty text span to a part list: merge it into a trailing
/// text part, or open a new one.
fn push_text_part(parts: &mut Vec<VendorPart>, t: &String)
    ensures
        parts_view(final(parts)@) == push_user_part(
            parts_view(old(parts)@),
            ContentBlockView::Text(t@),
            true,
        ),
{
    if t.as_str().is_empty() {
        return ;
    }
    match parts.pop() {
        Some(VendorPart::Text { text }) => {
            let mut text = text;
            text.append(t.as_str());
            parts.push(VendorPart::Text { text });
            assert(parts_view(parts@) =~= push_user_part(
                parts_view(old(parts)@),
                ContentBlockView::Text(t@),
                true,
            ));
        },
        Some(other) => {
            parts.push(other);
            parts.push(VendorPart::Text { text: t.clone() });
            assert(parts_view(parts@) =~= push_user_part(
                parts_view(old(parts)@),
                ContentBlockView::Text(t@),
                true,
            ));
        },
        None => {
            parts.push(VendorPart::Text { text: t.clone() });
            assert(parts_view(parts@) =~= push_user_part(
                parts_view(old(parts)@),
                ContentBlockView::Text(t@),
                true,
            ));
        },
    }
}

/// The flattened text, tool calls and tool-use flag of a canonical
/// assistant message, or the first tool-input serialization error.
fn translate_assistant_content(content: &Vec<ContentBlock>) -> (r: Result<
    (String, Vec<VendorToolCall>, bool),
    String,
>)
    ensures
        match r {
            Ok(p) => {
                &&& assistant_tool_calls(blocks_view(content@)) is Ok
                &&& calls_view(p.1@) == assistant_tool_calls(blocks_view(content@))->Ok_0
                &&& p.0@ == concat_text_blocks(blocks_view(content@))
                &&& p.2 == has_tool_use(blocks_view(content@))
            },
            Err(e) => {
                &&& assistant_tool_calls(blocks_view(content@)) is Err
                &&& e@ == assistant_tool_calls(blocks_view(content@))->Err_0
            },
        },
{
    let ghost cv = blocks_view(content@);
    let mut buffer = String::new();
    let mut calls: Vec<VendorToolCall> = Vec::new();
    let mut used = false;
    let mut i: usize = 0;
    while i < content.len()
        invariant
            i <= content.len(),
            cv == blocks_view(content@),
            assistant_tool_calls(cv.take(i as int)) is Ok,
            calls_view(calls@) == assistant_tool_calls(cv.take(i as int))->Ok_0,
            buffer@ == concat_text_blocks(cv.take(i as int)),
            used == has_tool_use(cv.take(i as int)),
        decreases content.len() - i,
    {
        proof {
            assert(cv.take(i as int + 1).drop_last() =~= cv.take(i as int));
            assert(cv.take(i as int + 1).last() == cv[i as int]);
            lemma_has_tool_use_step(cv, i as int);
        }
        match &content[i] {
            ContentBlock::Text(t) => buffer.append(t.as_str()),
            ContentBlock::Thinking { text } => buffer.append(text.as_str()),
            ContentBlock::ToolUse { id, name, input } => {
                used = true;
                match serialize_json(input) {
                    Ok(args) => {
                        calls.push(
                            VendorToolCall { id: id.clone(), name: name.clone(), arguments: args },
                        );
                    },
                    Err(detail) => {
                        proof {
                            assert(assistant_tool_calls(cv.take(i as int + 1)) is Err);
                            lemma_assistant_calls_error_persists(cv, i as int);
                        }
                        return Err(detail);
                    },
                }
            },
            _ => (),
        }
        assert(calls_view(calls@) =~~= assistant_tool_calls(cv.take(i as int + 1))->Ok_0);
        assert(buffer@ =~= concat_text_blocks(cv.take(i as int + 1)));
        i = i + 1;
    }
    proof {
        assert(cv.take(content@.len() as int) =~= cv);
    }
    Ok((buffer, calls, used))
}

/// Coalesce consecutive same-role messages into one, concatenating their
/// content blocks in order; the relative order of messages is kept.
fn coalesce_messages(messages: Vec<Message>) -> (r: Vec<Message>)
    ensures
        msgs_view(r@) == coalesce(msgs_view(messages@)),
{
    let ghost mv = msgs_view(messages@);
    let mut msgs = messages;
    let mut acc: Vec<Message> = Vec::new();
    proof {
        assert(msgs_view(msgs@) =~= mv.skip(0));
        assert(mv.take(0) =~= Seq::<MessageView>::empty());
        assert(msgs_view(acc@) =~= coalesce(mv.take(0)));
    }
    while msgs.len() > 0
        invariant
            msgs@.len() <= mv.len(),
            msgs_view(msgs@) == mv.skip(mv.len() - msgs@.len()),
            msgs_view(acc@) == coalesce(mv.take(mv.len() - msgs@.len())),
        decreases msgs@.len(),
    {
        let ghost k = mv.len() - msgs@.len();
        let ghost before = msgs@;
        let m = msgs.remove(0);
        proof {
            before.remove_ensures(0);
            assert(msgs_view(before) == mv.skip(k));
            assert(m@ == mv.skip(k)[0]);
            assert forall|j: int| 0 <= j < msgs@.len() implies msgs_view(msgs@)[j] == mv.skip(
                k + 1,
            )[j] by {
                assert(msgs@[j] == before[j + 1]);
                assert(msgs_view(before)[j + 1] == before[j + 1]@);
                assert(mv.skip(k)[j + 1] == mv[k + j + 1]);
                assert(mv.skip(k + 1)[j] == mv[k + 1 + j]);
            }
            assert(msgs_view(msgs@) =~= mv.skip(k + 1));
            assert(mv.take(k + 1).drop_last() =~= mv.take(k));
            assert(mv.take(k + 1).last() == mv[k]);
        }
        match acc.pop() {
            Some(last) => {
                if last.role == m.role {
                    let mut merged = last;
                    let mut mc = m.content;
                    merged.content.append(&mut mc);
                    acc.push(merged);
                } else {
                    acc.push(last);
                    acc.push(m);
                }
            },
            None => {
                acc.push(m);
            },
        }
        assert(msgs_view(acc@) =~~= coalesce(mv.take(k + 1)));
    }
    proof {
        assert(mv.take(mv.len() as int) =~= mv);
    }
    acc
}

/// Build the vendor wire request for a canonical request: coalesce the
/// messages, translate them per role, translate the tools (injecting the
/// synthetic tool where the protocol workaround demands it), and fix the
/// protocol fields. Fails exactly when some tool-call input value cannot be
/// serialized to JSON text.
pub fn into_vendor_request(model: &ModelDescriptor, request: ChatRequest) -> (r: Result<
    VendorRequest,
    RequestError,
>)
    ensures
        r is Ok <==> spec_adapt(model@, request@) is Ok,
        r matches Ok(v) ==> v@ == spec_adapt(model@, request@)->Ok_0,
        r matches Err(e) ==> e matches RequestError::ToolInputSerialization { detail }
            && detail@ == spec_adapt(model@, request@)->Err_0,
{
    let ghost rv = request@;
    let vision = model.supports_vision;
    let coalesced = coalesce_messages(request.messages);
    let ghost cms = coalesce(rv.messages);
    let mut tool_called = false;
    let mut vmsgs: Vec<VendorMessage> = Vec::new();
    proof {
        assert(cms.take(0) =~= Seq::<MessageView>::empty());
        assert(vmsgs_view(vmsgs@) =~= translate_messages(cms.take(0), vision)->Ok_0);
    }
    let mut i: usize = 0;
    while i < coalesced.len()
        invariant
            i <= coalesced.len(),
            msgs_view(coalesced@) == cms,
            cms == coalesce(rv.messages),
            vision == model@.supports_vision,
            rv == request@,
            translate_messages(cms.take(i as int), vision) is Ok,
            vmsgs_view(vmsgs@) == translate_messages(cms.take(i as int), vision)->Ok_0,
            tool_called == history_has_tool_call(cms.take(i as int)),
        decreases coalesced.len() - i,
    {
        proof {
            assert(cms.take(i as int + 1).drop_last() =~= cms.take(i as int));
            assert(cms.take(i as int + 1).last() == cms[i as int]);
            lemma_history_tool_step(cms, i as int);
        }
        let m = &coalesced[i];
        proof {
            assert(m@ == cms[i as int]);
        }
        match m.role {
            Role::User => {
                let (mut tms, parts) = translate_user_content(&m.content, vision);
                vmsgs.append(&mut tms);
                if parts.len() > 0 {
                    vmsgs.push(VendorMessage::User { content: parts });
                }
            },
            Role::Assistant => {
                match translate_assistant_content(&m.content) {
                    Ok(p) => {
                        let (text, calls, used) = p;
                        if used {
                            tool_called = true;
                        }
                        vmsgs.push(VendorMessage::Assistant { content: text, tool_calls: calls });
                    },
                    Err(detail) => {
                        proof {
                            assert(assistant_tool_calls(cms[i as int].content) is Err);
                            assert(translate_message(cms[i as int], vision) is Err);
                            lemma_translate_error_persists(cms, vision, i as int);
                            assert(spec_adapt(model@, rv) is Err);
                            assert(detail@ == spec_adapt(model@, rv)->Err_0);
                        }
                        return Err(RequestError::ToolInputSerialization { detail });
                    },
                }
            },
            Role::System => {
                let text = flatten_text(&m.content);
                vmsgs.push(VendorMessage::System { content: text });
            },
        }
        assert(vmsgs_view(vmsgs@) =~~= translate_messages(cms.take(i as int + 1), vision)->Ok_0);
        i = i + 1;
    }
    proof {
        assert(cms.take(cms.len() as int) =~= cms);
    }
    let mut vtools: Vec<VendorTool> = Vec::new();
    proof {
        assert(vtools_view(vtools@) =~= translated_tools(rv.tools.take(0)));
    }
    let mut t: usize = 0;
    while t < request.tools.len()
        invariant
            t <= request.tools@.len(),
            rv == request@,
            vtools_view(vtools@) == translated_tools(rv.tools.take(t as int)),
        decreases request.tools@.len() - t,
    {
        proof {
            assert(rv.tools.take(t as int + 1).drop_last() =~= rv.tools.take(t as int));
            assert(rv.tools.take(t as int + 1).last() == rv.tools[t as int]);
        }
        let tool = &request.tools[t];
        proof {
            assert(rv.tools == tools_view(request.tools@));
            assert(rv.tools.len() == request.tools@.len());
            assert(vtools_view(vtools@).len() == vtools@.len());
            assert(translated_tools(rv.tools.take(t as int)).len() == t as int);
            assert(vtools@.len() == t as int);
            assert(tool@ == rv.tools[t as int]);
        }
        vtools.push(
            VendorTool {
                name: tool.name.clone(),
                description: tool.description.clone(),
                parameters: tool.input_schema.clone(),
            },
        );
        proof {
            let ghost target = translated_tools(rv.tools.take(t as int + 1));
            assert(vtools@.len() == t as int + 1);
            assert(target.len() == t as int + 1);
            assert(vtools@[t as int]@ == vendor_tool_of(tool@));
            assert(target[t as int] == vendor_tool_of(rv.tools[t as int]));
            assert forall|j: int| 0 <= j < t as int implies vtools_view(vtools@)[j] == target[j] by {
                assert(vtools_view(vtools@)[j] == translated_tools(rv.tools.take(t as int))[j]);
                assert(translated_tools(rv.tools.take(t as int))[j] == vendor_tool_of(
                    rv.tools.take(t as int)[j],
                ));
                assert(rv.tools.take(t as int)[j] == rv.tools[j]);
                assert(target[j] == vendor_tool_of(rv.tools.take(t as int + 1)[j]));
                assert(rv.tools.take(t as int + 1)[j] == rv.tools[j]);
            }
            assert(vtools_view(vtools@) =~~= target);
        }
        t = t + 1;
    }
    proof {
        assert(rv.tools.take(rv.tools.len() as int) =~= rv.tools);
    }
    if tool_called && vtools.len() == 0 {
        let schema = match parse_json("{\"type\":\"object\"}") {
            Ok(v) => v,
            Err(_) => vstd::pervasive::unreached(),
        };
        vtools.push(
            VendorTool {
                name: String::from_str("noop"),
                description: String::from_str("No operation"),
                parameters: schema,
            },
        );
        assert(vtools_view(vtools@) =~~= vendor_tools(rv.tools, history_has_tool_call(cms)));
    } else {
        assert(vtools_view(vtools@) =~~= vendor_tools(rv.tools, history_has_tool_call(cms)));
    }
    let result = VendorRequest {
        intent: true,
        n: 1,
        stream: model.uses_streaming,
        temperature_tenths: 1,
        model: model.id.clone(),
        messages: vmsgs,
        tools: vtools,
        tool_choice: request.tool_choice,
    };
    assert(result@ =~~= spec_adapt(model@, rv)->Ok_0);
    Ok(result)
}

/// Validate a request as the vendor demands, then build its wire request:
/// when messages are present at all, the final one must carry content and
/// must be user-authored; violations are caught here, before any adaptation
/// or network exchange is attempted.
pub fn prepare_request(model: &ModelDescriptor, request: ChatRequest) -> (r: Result<
    VendorRequest,
    RequestError,
>)
    ensures
        ({
            let msgs = request@.messages;
            if msgs.len() > 0 && spec_contents_empty(msgs.last()) {
                r matches Err(RequestError::EmptyPrompt)
            } else if msgs.len() > 0 && msgs.last().role != Role::User {
                r matches Err(RequestError::LastMessageNotUser)
            } else {
                &&& (r is Ok <==> spec_adapt(model@, request@) is Ok)
                &&& (r matches Ok(v) ==> v@ == spec_adapt(model@, request@)->Ok_0)
                &&& (r matches Err(e) ==> e matches RequestError::ToolInputSerialization { detail }
                    && detail@ == spec_adapt(model@, request@)->Err_0)
            }
        }),
{
    if request.messages.len() > 0 {
        let last = &request.messages[request.messages.len() - 1];
        proof {
            assert(last@ == request@.messages.last());
        }
        if last.contents_empty() {
            return Err(RequestError::EmptyPrompt);
        }
        if last.role != Role::User {
            return Err(RequestError::LastMessageNotUser);
        }
    }
    into_vendor_request(model, request)
}

// ---------------------------------------------------------------------------
// Laws
// ---------------------------------------------------------------------------

/// Adaptation is pure: equal model descriptors and equal requests always
/// yield structurally identical outcomes, so adapting the same request twice
/// gives the same vendor request (or the same error) both times.
pub proof fn lemma_adapt_pure(
    m1: ModelDescriptorView,
    m2: ModelDescriptorView,
    r1: ChatRequestView,
    r2: ChatRequestView,
)
    requires
        m1 == m2,
        r1 == r2,
    ensures
        spec_adapt(m1, r1) == spec_adapt(m2, r2),
{
}

/// Coalescing never leaves two consecutive messages with the same role.
pub proof fn lemma_coalesce_no_adjacent_same_role(msgs: Seq<MessageView>, i: int)
    requires
        0 <= i,
        i + 1 < coalesce(msgs).len(),
    ensures
        coalesce(msgs)[i].role != coalesce(msgs)[i + 1].role,
    decreases msgs.len(),
{
    let c = coalesce(msgs.drop_last());
    let m = msgs.last();
    if c.len() > 0 && c.last().role == m.role {
        assert(coalesce(msgs)[i].role == c[i].role);
        assert(coalesce(msgs)[i + 1].role == c[i + 1].role);
        lemma_coalesce_no_adjacent_same_role(msgs.drop_last(), i);
    } else {
        if i + 1 < c.len() {
            lemma_coalesce_no_adjacent_same_role(msgs.drop_last(), i);
        }
    }
}

/// A tool use in a concatenation of block sequences is a tool use in one of
/// the two parts.
proof fn lemma_has_tool_use_concat(a: Seq<ContentBlockView>, b: Seq<ContentBlockView>)
    ensures
        has_tool_use(a + b) == (has_tool_use(a) || has_tool_use(b)),
{
    if has_tool_use(a) {
        let i = choose|i: int|
            0 <= i < a.len() && (#[trigger] a[i]) matches ContentBlockView::ToolUse { .. };
        assert((a + b)[i] matches ContentBlockView::ToolUse { .. });
    } else if has_tool_use(b) {
        let i = choose|i: int|
            0 <= i < b.len() && (#[trigger] b[i]) matches ContentBlockView::ToolUse { .. };
        assert((a + b)[a.len() + i] matches ContentBlockView::ToolUse { .. });
    } else {
        if has_tool_use(a + b) {
            let i = choose|i: int|
                0 <= i < (a + b).len() && (#[trigger] (a + b)[i]) matches ContentBlockView::ToolUse { .. };
            if i < a.len() {
                assert(a[i] matches ContentBlockView::ToolUse { .. });
            } else {
                assert(b[i - a.len()] matches ContentBlockView::ToolUse { .. });
            }
            assert(false);
        }
    }
}

/// Coalescing neither invents nor loses tool invocations: the coalesced
/// history mentions a tool call exactly when the original one does.
pub proof fn lemma_coalesce_preserves_tool_history(msgs: Seq<MessageView>)
    ensures
        history_has_tool_call(coalesce(msgs)) == history_has_tool_call(msgs),
    decreases msgs.len(),
{
    if msgs.len() == 0 {
    } else {
        let prefix = msgs.drop_last();
        let c = coalesce(prefix);
        let m = msgs.last();
        lemma_coalesce_preserves_tool_history(prefix);
        assert(msgs.take(msgs.len() - 1) =~= prefix);
        assert(msgs.take(msgs.len() as int) =~= msgs);
        lemma_history_tool_step(msgs, msgs.len() - 1);
        let c2 = coalesce(msgs);
        let mstep = m.role == Role::Assistant && has_tool_use(m.content);
        if c.len() > 0 && c.last().role == m.role {
            let k = c.len() - 1;
            lemma_has_tool_use_concat(c.last().content, m.content);
            assert(history_has_tool_call(c2) == (history_has_tool_call(c) || mstep)) by {
                if history_has_tool_call(c) {
                    let j = choose|j: int|
                        0 <= j < c.len() && (#[trigger] c[j]).role == Role::Assistant
                            && has_tool_use(c[j].content);
                    if j == k {
                        assert(c2[k].role == Role::Assistant && has_tool_use(c2[k].content));
                    } else {
                        assert(c2[j].role == Role::Assistant && has_tool_use(c2[j].content));
                    }
                    assert(history_has_tool_call(c2));
                } else if mstep {
                    assert(c2[k].role == Role::Assistant && has_tool_use(c2[k].content));
                    assert(history_has_tool_call(c2));
                } else {
                    if history_has_tool_call(c2) {
                        let j = choose|j: int|
                            0 <= j < c2.len() && (#[trigger] c2[j]).role == Role::Assistant
                                && has_tool_use(c2[j].content);
                        if j == k {
                            assert(has_tool_use(c.last().content) || has_tool_use(m.content));
                            assert(c[k].role == Role::Assistant || m.role == Role::Assistant);
                            assert(history_has_tool_call(c) || mstep);
                        } else {
                            assert(c[j].role == Role::Assistant && has_tool_use(c[j].content));
                        }
                        assert(false);
                    }
                }
            }
        } else {
            assert(history_has_tool_call(c2) == (history_has_tool_call(c) || mstep)) by {
                if history_has_tool_call(c) {
                    let j = choose|j: int|
                        0 <= j < c.len() && (#[trigger] c[j]).role == Role::Assistant
                            && has_tool_use(c[j].content);
                    assert(c2[j].role == Role::Assistant && has_tool_use(c2[j].content));
                    assert(history_has_tool_call(c2));
                } else if mstep {
                    assert(c2[c.len() as int].role == Role::Assistant && has_tool_use(
                        c2[c.len() as int].content,
                    ));
                    assert(history_has_tool_call(c2));
                } else {
                    if history_has_tool_call(c2) {
                        let j = choose|j: int|
                            0 <= j < c2.len() && (#[trigger] c2[j]).role == Role::Assistant
                                && has_tool_use(c2[j].content);
                        if j < c.len() {
                            assert(c[j].role == Role::Assistant && has_tool_use(c[j].content));
                        }
                        assert(false);
                    }
                }
            }
        }
    }
}

/// The protocol workaround: when the history mentions a tool invocation but
/// the request offers no tools, the adapted request's tool list is exactly
/// one synthetic `noop` entry.
pub proof fn lemma_noop_injection(model: ModelDescriptorView, req: ChatRequestView)
    requires
        spec_adapt(model, req) is Ok,
        req.tools.len() == 0,
        history_has_tool_call(req.messages),
    ensures
        spec_adapt(model, req)->Ok_0.tools == seq![noop_tool()],
{
    lemma_coalesce_preserves_tool_history(req.messages);
}

// ---------------------------------------------------------------------------
// Vision gating
// ---------------------------------------------------------------------------

pub open spec fn part_is_image(p: VendorPartView) -> bool {
    p matches VendorPartView::Image { .. }
}

pub open spec fn parts_have_image(parts: Seq<VendorPartView>) -> bool {
    exists|i: int| 0 <= i < parts.len() && part_is_image(#[trigger] parts[i])
}

/// Whether one vendor message carries an image: an image part of a user
/// message, or an image tool result.
pub open spec fn vendor_message_shows_image(m: VendorMessageView) -> bool {
    match m {
        VendorMessageView::User { content } => parts_have_image(content),
        VendorMessageView::Tool { tool_call_id, content } => content matches VendorToolContentView::Image { .. },
        _ => false,
    }
}

pub open spec fn vendor_messages_show_image(ms: Seq<VendorMessageView>) -> bool {
    exists|i: int| 0 <= i < ms.len() && vendor_message_shows_image(#[trigger] ms[i])
}

/// Whether a canonical block would contribute an image to the vendor
/// request: an image block, or an image tool result.
pub open spec fn block_carries_image(b: ContentBlockView) -> bool {
    ||| b matches ContentBlockView::Image { .. }
    ||| b matches ContentBlockView::ToolResult {
        content: ToolResultContentView::Image { .. },
        ..
    }
}

pub open spec fn content_carries_image(content: Seq<ContentBlockView>) -> bool {
    exists|i: int| 0 <= i < content.len() && block_carries_image(#[trigger] content[i])
}

/// Whether some user message of the history carries an image. Only user
/// messages count: assistant and system translation never emits images.
pub open spec fn history_carries_user_image(msgs: Seq<MessageView>) -> bool {
    exists|i: int|
        0 <= i < msgs.len() && (#[trigger] msgs[i]).role == Role::User && content_carries_image(
            msgs[i].content,
        )
}

proof fn lemma_content_carries_image_concat(a: Seq<ContentBlockView>, b: Seq<ContentBlockView>)
    ensures
        content_carries_image(a + b) == (content_carries_image(a) || content_carries_image(b)),
{
    if content_carries_image(a) {
        let i = choose|i: int| 0 <= i < a.len() && block_carries_image(#[trigger] a[i]);
        assert(block_carries_image((a + b)[i]));
    } else if content_carries_image(b) {
        let i = choose|i: int| 0 <= i < b.len() && block_carries_image(#[trigger] b[i]);
        assert(block_carries_image((a + b)[a.len() + i]));
    } else {
        if content_carries_image(a + b) {
            let i = choose|i: int|
                0 <= i < (a + b).len() && block_carries_image(#[trigger] (a + b)[i]);
            if i < a.len() {
                assert(block_carries_image(a[i]));
            } else {
                assert(block_carries_image(b[i - a.len()]));
            }
            assert(false);
        }
    }
}

/// Coalescing neither invents nor loses user images.
proof fn lemma_coalesce_preserves_user_image(msgs: Seq<MessageView>)
    ensures
        history_carries_user_image(coalesce(msgs)) == history_carries_user_image(msgs),
    decreases msgs.len(),
{
    if msgs.len() == 0 {
    } else {
        let prefix = msgs.drop_last();
        let c = coalesce(prefix);
        let m = msgs.last();
        lemma_coalesce_preserves_user_image(prefix);
        let c2 = coalesce(msgs);
        let mstep = m.role == Role::User && content_carries_image(m.content);
        assert(history_carries_user_image(msgs) == (history_carries_user_image(prefix) || mstep))
            by {
            if history_carries_user_image(prefix) {
                let j = choose|j: int|
                    0 <= j < prefix.len() && (#[trigger] prefix[j]).role == Role::User
                        && content_carries_image(prefix[j].content);
                assert(msgs[j].role == Role::User && content_carries_image(msgs[j].content));
                assert(history_carries_user_image(msgs));
            } else if mstep {
                assert(msgs[msgs.len() - 1].role == Role::User && content_carries_image(
                    msgs[msgs.len() - 1].content,
                ));
                assert(history_carries_user_image(msgs));
            } else {
                if history_carries_user_image(msgs) {
                    let j = choose|j: int|
                        0 <= j < msgs.len() && (#[trigger] msgs[j]).role == Role::User
                            && content_carries_image(msgs[j].content);
                    if j < msgs.len() - 1 {
                        assert(prefix[j].role == Role::User && content_carries_image(
                            prefix[j].content,
                        ));
                    }
                    assert(false);
                }
            }
        }
        if c.len() > 0 && c.last().role == m.role {
            let k = c.len() - 1;
            lemma_content_carries_image_concat(c.last().content, m.content);
            assert(history_carries_user_image(c2) == (history_carries_user_image(c) || mstep)) by {
                if history_carries_user_image(c) {
                    let j = choose|j: int|
                        0 <= j < c.len() && (#[trigger] c[j]).role == Role::User
                            && content_carries_image(c[j].content);
                    if j == k {
                        assert(c2[k].role == Role::User && content_carries_image(c2[k].content));
                    } else {
                        assert(c2[j].role == Role::User && content_carries_image(c2[j].content));
                    }
                    assert(history_carries_user_image(c2));
                } else if mstep {
                    assert(c2[k].role == Role::User && content_carries_image(c2[k].content));
                    assert(history_carries_user_image(c2));
                } else {
                    if history_carries_user_image(c2) {
                        let j = choose|j: int|
                            0 <= j < c2.len() && (#[trigger] c2[j]).role == Role::User
                                && content_carries_image(c2[j].content);
                        if j == k {
                            assert(content_carries_image(c.last().content)
                                || content_carries_image(m.content));
                            assert(c[k].role == Role::User || m.role == Role::User);
                            assert(history_carries_user_image(c) || mstep);
                        } else {
                            assert(c[j].role == Role::User && content_carries_image(c[j].content));
                        }
                        assert(false);
                    }
                }
            }
        } else {
            assert(history_carries_user_image(c2) == (history_carries_user_image(c) || mstep)) by {
                if history_carries_user_image(c) {
                    let j = choose|j: int|
                        0 <= j < c.len() && (#[trigger] c[j]).role == Role::User
                            && content_carries_image(c[j].content);
                    assert(c2[j].role == Role::User && content_carries_image(c2[j].content));
                    assert(history_carries_user_image(c2));
                } else if mstep {
                    assert(c2[c.len() as int].role == Role::User && content_carries_image(
                        c2[c.len() as int].content,
                    ));
                    assert(history_carries_user_image(c2));
                } else {
                    if history_carries_user_image(c2) {
                        let j = choose|j: int|
                            0 <= j < c2.len() && (#[trigger] c2[j]).role == Role::User
                                && content_carries_image(c2[j].content);
                        if j < c.len() {
                            assert(c[j].role == Role::User && content_carries_image(c[j].content));
                        }
                        assert(false);
                    }
                }
            }
        }
    }
}

/// The user message's content parts carry an image exactly when the model
/// is vision-capable and the canonical blocks hold an image block.
proof fn lemma_user_parts_image(content: Seq<ContentBlockView>, vision: bool)
    ensures
        parts_have_image(user_parts(content, vision)) == (vision && exists|i: int|
            0 <= i < content.len() && (#[trigger] content[i]) matches ContentBlockView::Image { .. }),
    decreases content.len(),
{
    if content.len() == 0 {
    } else {
        let prefix = content.drop_last();
        let b = content.last();
        let p = user_parts(prefix, vision);
        let p2 = user_parts(content, vision);
        lemma_user_parts_image(prefix, vision);
        let bstep = vision && (b matches ContentBlockView::Image { .. });
        assert((vision && exists|i: int|
            0 <= i < content.len() && (#[trigger] content[i]) matches ContentBlockView::Image { .. })
            == ((vision && exists|i: int|
                0 <= i < prefix.len() && (#[trigger] prefix[i]) matches ContentBlockView::Image { .. })
                || bstep)) by {
            if exists|i: int|
                0 <= i < prefix.len() && (#[trigger] prefix[i]) matches ContentBlockView::Image { .. } {
                let i = choose|i: int|
                    0 <= i < prefix.len() && (#[trigger] prefix[i]) matches ContentBlockView::Image { .. };
                assert(content[i] matches ContentBlockView::Image { .. });
            }
            if b matches ContentBlockView::Image { .. } {
                assert(content[content.len() - 1] matches ContentBlockView::Image { .. });
            }
            if exists|i: int|
                0 <= i < content.len() && (#[trigger] content[i]) matches ContentBlockView::Image { .. } {
                let i = choose|i: int|
                    0 <= i < content.len() && (#[trigger] content[i]) matches ContentBlockView::Image { .. };
                if i < content.len() - 1 {
                    assert(prefix[i] matches ContentBlockView::Image { .. });
                }
            }
        }
        assert(parts_have_image(p2) == (parts_have_image(p) || bstep)) by {
            match block_text(b) {
                Some(t) => {
                    if t.len() == 0 {
                    } else if p.len() > 0 && (p.last() matches VendorPartView::Text { .. }) {
                        let k = p.len() - 1;
                        if parts_have_image(p) {
                            let j = choose|j: int|
                                0 <= j < p.len() && part_is_image(#[trigger] p[j]);
                            assert(j != k);
                            assert(part_is_image(p2[j]));
                            assert(parts_have_image(p2));
                        } else {
                            if parts_have_image(p2) {
                                let j = choose|j: int|
                                    0 <= j < p2.len() && part_is_image(#[trigger] p2[j]);
                                assert(part_is_image(p[j]));
                                assert(false);
                            }
                        }
                    } else {
                        if parts_have_image(p) {
                            let j = choose|j: int|
                                0 <= j < p.len() && part_is_image(#[trigger] p[j]);
                            assert(part_is_image(p2[j]));
                            assert(parts_have_image(p2));
                        } else {
                            if parts_have_image(p2) {
                                let j = choose|j: int|
                                    0 <= j < p2.len() && part_is_image(#[trigger] p2[j]);
                                assert(j < p.len());
                                assert(part_is_image(p[j]));
                                assert(false);
                            }
                        }
                    }
                },
                None => {
                    match b {
                        ContentBlockView::Image { url } => {
                            if vision {
                                assert(part_is_image(p2[p.len() as int]));
                                assert(parts_have_image(p2));
                                if parts_have_image(p) {
                                    let j = choose|j: int|
                                        0 <= j < p.len() && part_is_image(#[trigger] p[j]);
                                    assert(part_is_image(p2[j]));
                                }
                            }
                        },
                        _ => {
                            if parts_have_image(p) {
                                let j = choose|j: int|
                                    0 <= j < p.len() && part_is_image(#[trigger] p[j]);
                                assert(part_is_image(p2[j]));
                                assert(parts_have_image(p2));
                            }
                        },
                    }
                },
            }
        }
    }
}

/// The vendor tool messages of a user message carry an image exactly when
/// the model is vision-capable and some tool-result block holds an image.
proof fn lemma_tool_result_messages_image(content: Seq<ContentBlockView>, vision: bool)
    ensures
        vendor_messages_show_image(tool_result_messages(content, vision)) == (vision && exists|
            i: int,
        |
            0 <= i < content.len() && (#[trigger] content[i]) matches ContentBlockView::ToolResult {
                content: ToolResultContentView::Image { .. },
                ..
            }),
    decreases content.len(),
{
    if content.len() == 0 {
    } else {
        let prefix = content.drop_last();
        let b = content.last();
        let ms = tool_result_messages(prefix, vision);
        let ms2 = tool_result_messages(content, vision);
        lemma_tool_result_messages_image(prefix, vision);
        let bstep = vision && (b matches ContentBlockView::ToolResult {
            content: ToolResultContentView::Image { .. },
            ..
        });
        assert((vision && exists|i: int|
            0 <= i < content.len() && (#[trigger] content[i]) matches ContentBlockView::ToolResult {
                content: ToolResultContentView::Image { .. },
                ..
            }) == ((vision && exists|i: int|
            0 <= i < prefix.len() && (#[trigger] prefix[i]) matches ContentBlockView::ToolResult {
                content: ToolResultContentView::Image { .. },
                ..
            }) || bstep)) by {
            if exists|i: int|
                0 <= i < prefix.len() && (#[trigger] prefix[i]) matches ContentBlockView::ToolResult {
                    content: ToolResultContentView::Image { .. },
                    ..
                } {
                let i = choose|i: int|
                    0 <= i < prefix.len() && (#[trigger] prefix[i]) matches ContentBlockView::ToolResult {
                        content: ToolResultContentView::Image { .. },
                        ..
                    };
                assert(content[i] == prefix[i]);
            }
            if bstep {
                assert(content[content.len() - 1] matches ContentBlockView::ToolResult {
                    content: ToolResultContentView::Image { .. },
                    ..
                });
            }
            if exists|i: int|
                0 <= i < content.len() && (#[trigger] content[i]) matches ContentBlockView::ToolResult {
                    content: ToolResultContentView::Image { .. },
                    ..
                } {
                let i = choose|i: int|
                    0 <= i < content.len() && (#[trigger] content[i]) matches ContentBlockView::ToolResult {
                        content: ToolResultContentView::Image { .. },
                        ..
                    };
                if i < content.len() - 1 {
                    assert(prefix[i] == content[i]);
                }
            }
        }
        assert(vendor_messages_show_image(ms2) == (vendor_messages_show_image(ms) || bstep)) by {
            match b {
                ContentBlockView::ToolResult { tool_use_id, tool_name, content: c } => {
                    let appended = tool_result_message(tool_use_id, c, vision);
                    assert(ms2 =~= ms.push(appended));
                    assert(vendor_message_shows_image(appended) == bstep);
                    if vendor_messages_show_image(ms) {
                        let j = choose|j: int|
                            0 <= j < ms.len() && vendor_message_shows_image(#[trigger] ms[j]);
                        assert(vendor_message_shows_image(ms2[j]));
                    } else if bstep {
                        assert(vendor_message_shows_image(ms2[ms.len() as int]));
                    } else {
                        if vendor_messages_show_image(ms2) {
                            let j = choose|j: int|
                                0 <= j < ms2.len() && vendor_message_shows_image(
                                    #[trigger] ms2[j],
                                );
                            if j < ms.len() {
                                assert(vendor_message_shows_image(ms[j]));
                            }
                            assert(false);
                        }
                    }
                },
                _ => {
                    assert(ms2 =~= ms);
                },
            }
        }
    }
}

/// The translated messages carry an image exactly when the model is
/// vision-capable and some (coalesced) user message carries one.
proof fn lemma_translate_messages_image(msgs: Seq<MessageView>, vision: bool)
    requires
        translate_messages(msgs, vision) is Ok,
    ensures
        vendor_messages_show_image(translate_messages(msgs, vision)->Ok_0) == (vision
            && history_carries_user_image(msgs)),
    decreases msgs.len(),
{
    if msgs.len() == 0 {
    } else {
        let prefix = msgs.drop_last();
        let m = msgs.last();
        lemma_translate_messages_image(prefix, vision);
        let vms = translate_messages(prefix, vision)->Ok_0;
        let tail = translate_message(m, vision)->Ok_0;
        let whole = translate_messages(msgs, vision)->Ok_0;
        assert(whole == vms + tail);
        let mstep = m.role == Role::User && content_carries_image(m.content);
        assert(history_carries_user_image(msgs) == (history_carries_user_image(prefix) || mstep))
            by {
            if history_carries_user_image(prefix) {
                let j = choose|j: int|
                    0 <= j < prefix.len() && (#[trigger] prefix[j]).role == Role::User
                        && content_carries_image(prefix[j].content);
                assert(msgs[j].role == Role::User && content_carries_image(msgs[j].content));
            } else if mstep {
                assert(msgs[msgs.len() - 1].role == Role::User && content_carries_image(
                    msgs[msgs.len() - 1].content,
                ));
            } else {
                if history_carries_user_image(msgs) {
                    let j = choose|j: int|
                        0 <= j < msgs.len() && (#[trigger] msgs[j]).role == Role::User
                            && content_carries_image(msgs[j].content);
                    if j < msgs.len() - 1 {
                        assert(prefix[j].role == Role::User && content_carries_image(
                            prefix[j].content,
                        ));
                    }
                    assert(false);
                }
            }
        }
        assert(vendor_messages_show_image(tail) == (vision && mstep)) by {
            match m.role {
                Role::User => {
                    lemma_user_parts_image(m.content, vision);
                    lemma_tool_result_messages_image(m.content, vision);
                    let trm = tool_result_messages(m.content, vision);
                    let up = user_parts(m.content, vision);
                    assert(vendor_messages_show_image(tail) == (vendor_messages_show_image(trm)
                        || (up.len() > 0 && parts_have_image(up)))) by {
                        if vendor_messages_show_image(trm) {
                            let j = choose|j: int|
                                0 <= j < trm.len() && vendor_message_shows_image(
                                    #[trigger] trm[j],
                                );
                            assert(vendor_message_shows_image(tail[j]));
                            assert(vendor_messages_show_image(tail));
                        } else if up.len() > 0 && parts_have_image(up) {
                            assert(tail[trm.len() as int] == (VendorMessageView::User {
                                content: up,
                            }));
                            assert(vendor_message_shows_image(tail[trm.len() as int]));
                            assert(vendor_messages_show_image(tail));
                        } else {
                            if vendor_messages_show_image(tail) {
                                let j = choose|j: int|
                                    0 <= j < tail.len() && vendor_message_shows_image(
                                        #[trigger] tail[j],
                                    );
                                if j < trm.len() {
                                    assert(vendor_message_shows_image(trm[j]));
                                }
                                assert(false);
                            }
                        }
                    }
                    if parts_have_image(up) {
                        assert(up.len() > 0);
                    }
                    assert((vendor_messages_show_image(trm) || parts_have_image(up)) == (vision
                        && content_carries_image(m.content))) by {
                        if content_carries_image(m.content) && vision {
                            let i = choose|i: int|
                                0 <= i < m.content.len() && block_carries_image(
                                    #[trigger] m.content[i],
                                );
                            if m.content[i] matches ContentBlockView::Image { .. } {
                                assert(parts_have_image(up));
                            } else {
                                assert(vendor_messages_show_image(trm));
                            }
                        }
                        if vendor_messages_show_image(trm) {
                            let i = choose|i: int|
                                0 <= i < m.content.len() && (#[trigger] m.content[i]) matches ContentBlockView::ToolResult {
                                    content: ToolResultContentView::Image { .. },
                                    ..
                                };
                            assert(block_carries_image(m.content[i]));
                            assert(content_carries_image(m.content));
                        }
                        if parts_have_image(up) {
                            let i = choose|i: int|
                                0 <= i < m.content.len() && (#[trigger] m.content[i]) matches ContentBlockView::Image { .. };
                            assert(block_carries_image(m.content[i]));
                            assert(content_carries_image(m.content));
                        }
                    }
                },
                Role::Assistant => {
                    assert(tail.len() == 1);
                    assert(!vendor_message_shows_image(tail[0]));
                    if vendor_messages_show_image(tail) {
                        let j = choose|j: int|
                            0 <= j < tail.len() && vendor_message_shows_image(#[trigger] tail[j]);
                        assert(false);
                    }
                },
                Role::System => {
                    assert(tail.len() == 1);
                    assert(!vendor_message_shows_image(tail[0]));
                    if vendor_messages_show_image(tail) {
                        let j = choose|j: int|
                            0 <= j < tail.len() && vendor_message_shows_image(#[trigger] tail[j]);
                        assert(false);
                    }
                },
            }
        }
        assert(vendor_messages_show_image(whole) == (vendor_messages_show_image(vms)
            || vendor_messages_show_image(tail))) by {
            if vendor_messages_show_image(vms) {
                let j = choose|j: int|
                    0 <= j < vms.len() && vendor_message_shows_image(#[trigger] vms[j]);
                assert(vendor_message_shows_image(whole[j]));
            } else if vendor_messages_show_image(tail) {
                let j = choose|j: int|
                    0 <= j < tail.len() && vendor_message_shows_image(#[trigger] tail[j]);
                assert(vendor_message_shows_image(whole[vms.len() + j]));
            } else {
                if vendor_messages_show_image(whole) {
                    let j = choose|j: int|
                        0 <= j < whole.len() && vendor_message_shows_image(#[trigger] whole[j]);
                    if j < vms.len() {
                        assert(vendor_message_shows_image(vms[j]));
                    } else {
                        assert(vendor_message_shows_image(tail[j - vms.len()]));
                    }
                    assert(false);
                }
            }
        }
    }
}

/// Vision gating: a successfully adapted request's messages carry an image
/// exactly when the model is vision-capable and some user message of the
/// request carries one. In particular, without vision support no image ever
/// reaches the vendor output.
pub proof fn lemma_vision_gating(model: ModelDescriptorView, req: ChatRequestView)
    requires
        spec_adapt(model, req) is Ok,
    ensures
        vendor_messages_show_image(spec_adapt(model, req)->Ok_0.messages) == (model.supports_vision
            && history_carries_user_image(req.messages)),
{
    lemma_coalesce_preserves_user_image(req.messages);
    lemma_translate_messages_image(coalesce(req.messages), model.supports_vision);
}

} // verus!
