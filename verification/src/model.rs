//! The host's canonical chat data model: messages, content blocks, tool
//! definitions and the target-model capability descriptor.

use vstd::prelude::*;

verus! {

/// Author of a canonical chat message.
#[derive(Clone, Copy, Debug, PartialEq, Eq, Structural)]
pub enum Role {
    System,
    User,
    Assistant,
}

/// The host's tool-choice directive, mapped one-to-one onto the vendor's.
#[derive(Clone, Copy, Debug, PartialEq, Eq, Structural)]
pub enum ToolChoice {
    Auto,
    Any,
    /// The model must not call tools (the vendor's `none` choice).
    NoTools,
}

/// Which model family serves the completion, as reported by the vendor.
#[derive(Clone, Copy, Debug, PartialEq, Eq, Structural)]
pub enum ModelVendor {
    OpenAi,
    Anthropic,
    Google,
}

/// The JSON-schema dialect a model accepts for tool input schemas.
#[derive(Clone, Copy, Debug, PartialEq, Eq, Structural)]
pub enum ToolSchemaFormat {
    JsonSchema,
    JsonSchemaSubset,
}

/// Capability descriptor of the target model.
#[derive(Clone, Debug, PartialEq)]
pub struct ModelDescriptor {
    pub id: String,
    pub vendor: ModelVendor,
    pub supports_vision: bool,
    pub supports_tools: bool,
    pub uses_streaming: bool,
}

#[verifier::ext_equal]
pub struct ModelDescriptorView {
    pub id: Seq<char>,
    pub vendor: ModelVendor,
    pub supports_vision: bool,
    pub supports_tools: bool,
    pub uses_streaming: bool,
}

impl View for ModelDescriptor {
    type V = ModelDescriptorView;

    open spec fn view(&self) -> ModelDescriptorView {
        ModelDescriptorView {
            id: self.id@,
            vendor: self.vendor,
            supports_vision: self.supports_vision,
            supports_tools: self.supports_tools,
            uses_streaming: self.uses_streaming,
        }
    }
}

impl ModelDescriptor {
    /// The schema dialect for this model's tool inputs: Google models take
    /// only the restricted subset, the others take full JSON schema.
    pub fn tool_input_format(&self) -> (r: ToolSchemaFormat)
        ensures
            r == (match self.vendor {
                ModelVendor::OpenAi | ModelVendor::Anthropic => ToolSchemaFormat::JsonSchema,
                ModelVendor::Google => ToolSchemaFormat::JsonSchemaSubset,
            }),
    {
        match self.vendor {
            ModelVendor::OpenAi | ModelVendor::Anthropic => ToolSchemaFormat::JsonSchema,
            ModelVendor::Google => ToolSchemaFormat::JsonSchemaSubset,
        }
    }

    /// Every tool-choice directive is honoured exactly when the model
    /// supports tools at all.
    pub fn supports_tool_choice(&self, choice: ToolChoice) -> (r: bool)
        ensures
            r == self.supports_tools,
    {
        match choice {
            ToolChoice::Auto | ToolChoice::Any | ToolChoice::NoTools => self.supports_tools,
        }
    }
}

/// Content carried by a tool-result block: plain text, or an image given as
/// a data URL.
#[derive(Clone, Debug, PartialEq)]
pub enum ToolResultContent {
    Text(String),
    Image { url: String },
}

#[verifier::ext_equal]
pub enum ToolResultContentView {
    Text(Seq<char>),
    Image { url: Seq<char> },
}

impl View for ToolResultContent {
    type V = ToolResultContentView;

    open spec fn view(&self) -> ToolResultContentView {
        match self {
            ToolResultContent::Text(t) => ToolResultContentView::Text(t@),
            ToolResultContent::Image { url } => ToolResultContentView::Image { url: url@ },
        }
    }
}

/// One block of a canonical message: the closed union of content kinds the
/// host can produce.
#[derive(Clone, Debug, PartialEq)]
pub enum ContentBlock {
    Text(String),
    Thinking { text: String },
    RedactedThinking(String),
    /// An image given as a data URL.
    Image { url: String },
    /// A tool invocation the model made earlier in the conversation; its
    /// input is an arbitrary JSON value.
    ToolUse { id: String, name: String, input: serde_json::Value },
    /// The host's answer to an earlier tool invocation.
    ToolResult { tool_use_id: String, tool_name: String, content: ToolResultContent },
}

#[verifier::ext_equal]
pub enum ContentBlockView {
    Text(Seq<char>),
    Thinking { text: Seq<char> },
    RedactedThinking(Seq<char>),
    Image { url: Seq<char> },
    ToolUse { id: Seq<char>, name: Seq<char>, input: serde_json::Value },
    ToolResult { tool_use_id: Seq<char>, tool_name: Seq<char>, content: ToolResultContentView },
}

impl View for ContentBlock {
    type V = ContentBlockView;

    open spec fn view(&self) -> ContentBlockView {
        match self {
            ContentBlock::Text(t) => ContentBlockView::Text(t@),
            ContentBlock::Thinking { text } => ContentBlockView::Thinking { text: text@ },
            ContentBlock::RedactedThinking(t) => ContentBlockView::RedactedThinking(t@),
            ContentBlock::Image { url } => ContentBlockView::Image { url: url@ },
            ContentBlock::ToolUse { id, name, input } => ContentBlockView::ToolUse {
                id: id@,
                name: name@,
                input: *input,
            },
            ContentBlock::ToolResult { tool_use_id, tool_name, content } =>
                ContentBlockView::ToolResult {
                    tool_use_id: tool_use_id@,
                    tool_name: tool_name@,
                    content: content@,
                },
        }
    }
}

pub open spec fn blocks_view(v: Seq<ContentBlock>) -> Seq<ContentBlockView> {
    v.map_values(|b: ContentBlock| b@)
}

/// One canonical chat message: a role and its ordered content blocks.
#[derive(Clone, Debug, PartialEq)]
pub struct Message {
    pub role: Role,
    pub content: Vec<ContentBlock>,
}

#[verifier::ext_equal]
pub struct MessageView {
    pub role: Role,
    pub content: Seq<ContentBlockView>,
}

impl View for Message {
    type V = MessageView;

    open spec fn view(&self) -> MessageView {
        MessageView { role: self.role, content: blocks_view(self.content@) }
    }
}

/// A block that carries no visible content: an empty text or thinking span.
pub open spec fn spec_block_is_blank(b: ContentBlockView) -> bool {
    match b {
        ContentBlockView::Text(t) => t.len() == 0,
        ContentBlockView::Thinking { text } => text.len() == 0,
        _ => false,
    }
}

/// Whether a message carries no content at all: every block (if any) is an
/// empty text or thinking span.
pub open spec fn spec_contents_empty(m: MessageView) -> bool {
    forall|i: int| 0 <= i < m.content.len() ==> spec_block_is_blank(#[trigger] m.content[i])
}

impl Message {
    pub fn contents_empty(&self) -> (r: bool)
        ensures
            r == spec_contents_empty(self@),
    {
        let mut i: usize = 0;
        while i < self.content.len()
            invariant
                i <= self.content.len(),
                forall|j: int| 0 <= j < i ==> spec_block_is_blank(#[trigger] self@.content[j]),
            decreases self.content.len() - i,
        {
            let blank = match &self.content[i] {
                ContentBlock::Text(t) => t.as_str().is_empty(),
                ContentBlock::Thinking { text } => text.as_str().is_empty(),
                _ => false,
            };
            if !blank {
                assert(!spec_block_is_blank(self@.content[i as int]));
                return false;
            }
            i = i + 1;
        }
        true
    }
}

pub open spec fn msgs_view(v: Seq<Message>) -> Seq<MessageView> {
    v.map_values(|m: Message| m@)
}

/// One tool the host offers the model: a name, a description and a
/// JSON-schema value describing the tool's input.
#[derive(Clone, Debug, PartialEq)]
pub struct ToolDefinition {
    pub name: String,
    pub description: String,
    pub input_schema: serde_json::Value,
}

#[verifier::ext_equal]
pub struct ToolDefinitionView {
    pub name: Seq<char>,
    pub description: Seq<char>,
    pub input_schema: serde_json::Value,
}

impl View for ToolDefinition {
    type V = ToolDefinitionView;

    open spec fn view(&self) -> ToolDefinitionView {
        ToolDefinitionView {
            name: self.name@,
            description: self.description@,
            input_schema: self.input_schema,
        }
    }
}

pub open spec fn tools_view(v: Seq<ToolDefinition>) -> Seq<ToolDefinitionView> {
    v.map_values(|t: ToolDefinition| t@)
}

/// The canonical completion request the host hands to the adapter.
#[derive(Clone, Debug, PartialEq)]
pub struct ChatRequest {
    pub messages: Vec<Message>,
    pub tools: Vec<ToolDefinition>,
    pub tool_choice: Option<ToolChoice>,
}

#[verifier::ext_equal]
pub struct ChatRequestView {
    pub messages: Seq<MessageView>,
    pub tools: Seq<ToolDefinitionView>,
    pub tool_choice: Option<ToolChoice>,
}

impl View for ChatRequest {
    type V = ChatRequestView;

    open spec fn view(&self) -> ChatRequestView {
        ChatRequestView {
            messages: msgs_view(self.messages@),
            tools: tools_view(self.tools@),
            tool_choice: self.tool_choice,
        }
    }
}

} // verus!
