//! The vendor's wire request shape, as the adapter produces it.

use crate::model::ToolChoice;
use vstd::prelude::*;

verus! {

/// One part of a vendor user message: a text span or an image reference.
#[derive(Clone, Debug, PartialEq)]
pub enum VendorPart {
    Text { text: String },
    Image { url: String },
}

#[verifier::ext_equal]
pub enum VendorPartView {
    Text { text: Seq<char> },
    Image { url: Seq<char> },
}

impl View for VendorPart {
    type V = VendorPartView;

    open spec fn view(&self) -> VendorPartView {
        match self {
            VendorPart::Text { text } => VendorPartView::Text { text: text@ },
            VendorPart::Image { url } => VendorPartView::Image { url: url@ },
        }
    }
}

pub open spec fn parts_view(v: Seq<VendorPart>) -> Seq<VendorPartView> {
    v.map_values(|p: VendorPart| p@)
}

/// Content of a vendor tool message: the tool's textual result, or an image
/// reference when the model is vision-capable.
#[derive(Clone, Debug, PartialEq)]
pub enum VendorToolContent {
    Text(String),
    Image { url: String },
}

#[verifier::ext_equal]
pub enum VendorToolContentView {
    Text(Seq<char>),
    Image { url: Seq<char> },
}

impl View for VendorToolContent {
    type V = VendorToolContentView;

    open spec fn view(&self) -> VendorToolContentView {
        match self {
            VendorToolContent::Text(t) => VendorToolContentView::Text(t@),
            VendorToolContent::Image { url } => VendorToolContentView::Image { url: url@ },
        }
    }
}

/// One tool call reported by an assistant message: the call's id, the tool's
/// name, and the call's input serialized to JSON text.
#[derive(Clone, Debug, PartialEq)]
pub struct VendorToolCall {
    pub id: String,
    pub name: String,
    pub arguments: String,
}

#[verifier::ext_equal]
pub struct VendorToolCallView {
    pub id: Seq<char>,
    pub name: Seq<char>,
    pub arguments: Seq<char>,
}

impl View for VendorToolCall {
    type V = VendorToolCallView;

    open spec fn view(&self) -> VendorToolCallView {
        VendorToolCallView { id: self.id@, name: self.name@, arguments: self.arguments@ }
    }
}

pub open spec fn calls_view(v: Seq<VendorToolCall>) -> Seq<VendorToolCallView> {
    v.map_values(|c: VendorToolCall| c@)
}

/// One message of the vendor request.
#[derive(Clone, Debug, PartialEq)]
pub enum VendorMessage {
    System { content: String },
    User { content: Vec<VendorPart> },
    Assistant { content: String, tool_calls: Vec<VendorToolCall> },
    Tool { tool_call_id: String, content: VendorToolContent },
}

#[verifier::ext_equal]
pub enum VendorMessageView {
    System { content: Seq<char> },
    User { content: Seq<VendorPartView> },
    Assistant { content: Seq<char>, tool_calls: Seq<VendorToolCallView> },
    Tool { tool_call_id: Seq<char>, content: VendorToolContentView },
}

impl View for VendorMessage {
    type V = VendorMessageView;

    open spec fn view(&self) -> VendorMessageView {
        match self {
            VendorMessage::System { content } => VendorMessageView::System { content: content@ },
            VendorMessage::User { content } => VendorMessageView::User {
                content: parts_view(content@),
            },
            VendorMessage::Assistant { content, tool_calls } => VendorMessageView::Assistant {
                content: content@,
                tool_calls: calls_view(tool_calls@),
            },
            VendorMessage::Tool { tool_call_id, content } => VendorMessageView::Tool {
                tool_call_id: tool_call_id@,
                content: content@,
            },
        }
    }
}

pub open spec fn vmsgs_view(v: Seq<VendorMessage>) -> Seq<VendorMessageView> {
    v.map_values(|m: VendorMessage| m@)
}

/// One tool definition of the vendor request: name, description and the
/// JSON-schema value describing the tool's input.
#[derive(Clone, Debug, PartialEq)]
pub struct VendorTool {
    pub name: String,
    pub description: String,
    pub parameters: serde_json::Value,
}

#[verifier::ext_equal]
pub struct VendorToolView {
    pub name: Seq<char>,
    pub description: Seq<char>,
    pub parameters: serde_json::Value,
}

impl View for VendorTool {
    type V = VendorToolView;

    open spec fn view(&self) -> VendorToolView {
        VendorToolView {
            name: self.name@,
            description: self.description@,
            parameters: self.parameters,
        }
    }
}

pub open spec fn vtools_view(v: Seq<VendorTool>) -> Seq<VendorToolView> {
    v.map_values(|t: VendorTool| t@)
}

/// The vendor's wire request. `temperature_tenths` carries the fixed
/// sampling temperature in tenths, so the wire value is this field divided
/// by ten.
#[derive(Clone, Debug, PartialEq)]
pub struct VendorRequest {
    pub intent: bool,
    pub n: u64,
    pub stream: bool,
    pub temperature_tenths: u64,
    pub model: String,
    pub messages: Vec<VendorMessage>,
    pub tools: Vec<VendorTool>,
    pub tool_choice: Option<ToolChoice>,
}

#[verifier::ext_equal]
pub struct VendorRequestView {
    pub intent: bool,
    pub n: u64,
    pub stream: bool,
    pub temperature_tenths: u64,
    pub model: Seq<char>,
    pub messages: Seq<VendorMessageView>,
    pub tools: Seq<VendorToolView>,
    pub tool_choice: Option<ToolChoice>,
}

impl View for VendorRequest {
    type V = VendorRequestView;

    open spec fn view(&self) -> VendorRequestView {
        VendorRequestView {
            intent: self.intent,
            n: self.n,
            stream: self.stream,
            temperature_tenths: self.temperature_tenths,
            model: self.model@,
            messages: vmsgs_view(self.messages@),
            tools: vtools_view(self.tools@),
            tool_choice: self.tool_choice,
        }
    }
}

} // verus!
