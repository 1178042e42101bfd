use chat_adapter::adapter::{into_vendor_request, prepare_request, RequestError};
use chat_adapter::model::{
    ChatRequest, ContentBlock, Message, ModelDescriptor, ModelVendor, Role, ToolChoice,
    ToolDefinition, ToolResultContent, ToolSchemaFormat,
};
use chat_adapter::vendor::{VendorMessage, VendorPart, VendorToolContent};

fn model(vision: bool) -> ModelDescriptor {
    ModelDescriptor {
        id: String::from("gpt-test"),
        vendor: ModelVendor::OpenAi,
        supports_vision: vision,
        supports_tools: true,
        uses_streaming: true,
    }
}

fn user_text(s: &str) -> Message {
    Message { role: Role::User, content: vec![ContentBlock::Text(String::from(s))] }
}

fn request(messages: Vec<Message>) -> ChatRequest {
    ChatRequest { messages, tools: Vec::new(), tool_choice: None }
}

fn json(s: &str) -> serde_json::Value {
    serde_json::from_str(s).unwrap()
}

#[test]
fn coalescing_merges_consecutive_user_messages() {
    let req = request(vec![user_text("a"), user_text("b")]);
    let out = into_vendor_request(&model(false), req).unwrap();
    assert_eq!(out.messages.len(), 1);
    match &out.messages[0] {
        VendorMessage::User { content } => {
            // Adjacent text spans merge into one part, in order.
            assert_eq!(content, &vec![VendorPart::Text { text: String::from("ab") }]);
        }
        other => panic!("expected a user message, got {:?}", other),
    }
}

#[test]
fn coalescing_keeps_part_order_around_images() {
    let req = request(vec![
        user_text("a"),
        Message {
            role: Role::User,
            content: vec![
                ContentBlock::Image { url: String::from("data:image/png;base64,xyz") },
                ContentBlock::Text(String::from("b")),
            ],
        },
    ]);
    let out = into_vendor_request(&model(true), req).unwrap();
    assert_eq!(out.messages.len(), 1);
    match &out.messages[0] {
        VendorMessage::User { content } => {
            assert_eq!(
                content,
                &vec![
                    VendorPart::Text { text: String::from("a") },
                    VendorPart::Image { url: String::from("data:image/png;base64,xyz") },
                    VendorPart::Text { text: String::from("b") },
                ]
            );
        }
        other => panic!("expected a user message, got {:?}", other),
    }
}

#[test]
fn vision_gating_includes_image_only_with_vision() {
    let make = || {
        request(vec![Message {
            role: Role::User,
            content: vec![
                ContentBlock::Text(String::from("look")),
                ContentBlock::Image { url: String::from("data:image/png;base64,abc") },
            ],
        }])
    };
    let with_vision = into_vendor_request(&model(true), make()).unwrap();
    match &with_vision.messages[0] {
        VendorMessage::User { content } => {
            assert!(content
                .iter()
                .any(|p| matches!(p, VendorPart::Image { .. })));
        }
        other => panic!("expected a user message, got {:?}", other),
    }
    let without_vision = into_vendor_request(&model(false), make()).unwrap();
    match &without_vision.messages[0] {
        VendorMessage::User { content } => {
            assert!(!content
                .iter()
                .any(|p| matches!(p, VendorPart::Image { .. })));
            assert_eq!(content, &vec![VendorPart::Text { text: String::from("look") }]);
        }
        other => panic!("expected a user message, got {:?}", other),
    }
}

#[test]
fn tool_result_becomes_tool_message_before_user_message() {
    let req = request(vec![Message {
        role: Role::User,
        content: vec![
            ContentBlock::ToolResult {
                tool_use_id: String::from("call-1"),
                tool_name: String::from("lookup"),
                content: ToolResultContent::Text(String::from("42")),
            },
            ContentBlock::Text(String::from("thanks")),
        ],
    }]);
    let out = into_vendor_request(&model(false), req).unwrap();
    assert_eq!(out.messages.len(), 2);
    assert_eq!(
        out.messages[0],
        VendorMessage::Tool {
            tool_call_id: String::from("call-1"),
            content: VendorToolContent::Text(String::from("42")),
        }
    );
    assert_eq!(
        out.messages[1],
        VendorMessage::User { content: vec![VendorPart::Text { text: String::from("thanks") }] }
    );
}

#[test]
fn image_tool_result_without_vision_gets_diagnostic_text() {
    let req = request(vec![Message {
        role: Role::User,
        content: vec![ContentBlock::ToolResult {
            tool_use_id: String::from("call-2"),
            tool_name: String::from("screenshot"),
            content: ToolResultContent::Image { url: String::from("data:image/png;base64,abc") },
        }],
    }]);
    let out = into_vendor_request(&model(false), req).unwrap();
    assert_eq!(out.messages.len(), 1);
    assert_eq!(
        out.messages[0],
        VendorMessage::Tool {
            tool_call_id: String::from("call-2"),
            content: VendorToolContent::Text(String::from(
                "[Tool responded with an image, but this model does not support vision]"
            )),
        }
    );
}

#[test]
fn image_tool_result_with_vision_stays_an_image() {
    let req = request(vec![Message {
        role: Role::User,
        content: vec![ContentBlock::ToolResult {
            tool_use_id: String::from("call-3"),
            tool_name: String::from("screenshot"),
            content: ToolResultContent::Image { url: String::from("data:image/png;base64,abc") },
        }],
    }]);
    let out = into_vendor_request(&model(true), req).unwrap();
    assert_eq!(
        out.messages[0],
        VendorMessage::Tool {
            tool_call_id: String::from("call-3"),
            content: VendorToolContent::Image { url: String::from("data:image/png;base64,abc") },
        }
    );
}

#[test]
fn assistant_message_serializes_tool_calls_and_flattens_text() {
    let req = request(vec![
        Message {
            role: Role::Assistant,
            content: vec![
                ContentBlock::Text(String::from("let me check")),
                ContentBlock::ToolUse {
                    id: String::from("call-7"),
                    name: String::from("probe"),
                    input: json("{\"x\":1}"),
                },
                ContentBlock::Thinking { text: String::from(" hold on") },
            ],
        },
        user_text("go on"),
    ]);
    let out = into_vendor_request(&model(false), req).unwrap();
    match &out.messages[0] {
        VendorMessage::Assistant { content, tool_calls } => {
            assert_eq!(content, "let me check hold on");
            assert_eq!(tool_calls.len(), 1);
            assert_eq!(tool_calls[0].id, "call-7");
            assert_eq!(tool_calls[0].name, "probe");
            assert_eq!(json(&tool_calls[0].arguments), json("{\"x\":1}"));
        }
        other => panic!("expected an assistant message, got {:?}", other),
    }
}

#[test]
fn assistant_without_text_gets_explicit_empty_content() {
    let req = request(vec![
        Message {
            role: Role::Assistant,
            content: vec![ContentBlock::ToolUse {
                id: String::from("call-8"),
                name: String::from("probe"),
                input: json("{}"),
            }],
        },
        user_text("ok"),
    ]);
    let out = into_vendor_request(&model(false), req).unwrap();
    match &out.messages[0] {
        VendorMessage::Assistant { content, tool_calls } => {
            assert_eq!(content, "");
            assert_eq!(tool_calls.len(), 1);
        }
        other => panic!("expected an assistant message, got {:?}", other),
    }
}

#[test]
fn system_message_flattens_all_text() {
    let req = request(vec![Message {
        role: Role::System,
        content: vec![
            ContentBlock::Text(String::from("be ")),
            ContentBlock::Thinking { text: String::from("brief") },
        ],
    }]);
    let out = into_vendor_request(&model(false), req).unwrap();
    assert_eq!(out.messages, vec![VendorMessage::System { content: String::from("be brief") }]);
}

#[test]
fn noop_tool_injected_when_history_has_tool_use_and_no_tools() {
    let req = request(vec![
        Message {
            role: Role::Assistant,
            content: vec![ContentBlock::ToolUse {
                id: String::from("call-9"),
                name: String::from("probe"),
                input: json("{}"),
            }],
        },
        user_text("continue"),
    ]);
    let out = into_vendor_request(&model(false), req).unwrap();
    assert_eq!(out.tools.len(), 1);
    assert_eq!(out.tools[0].name, "noop");
    assert_eq!(out.tools[0].description, "No operation");
    assert_eq!(out.tools[0].parameters, json("{\"type\":\"object\"}"));
}

#[test]
fn no_noop_tool_without_tool_history() {
    let out = into_vendor_request(&model(false), request(vec![user_text("hi")])).unwrap();
    assert!(out.tools.is_empty());
}

#[test]
fn no_noop_tool_when_tools_are_offered() {
    let mut req = request(vec![
        Message {
            role: Role::Assistant,
            content: vec![ContentBlock::ToolUse {
                id: String::from("call-10"),
                name: String::from("probe"),
                input: json("{}"),
            }],
        },
        user_text("continue"),
    ]);
    req.tools = vec![ToolDefinition {
        name: String::from("probe"),
        description: String::from("probes"),
        input_schema: json("{\"type\":\"object\",\"properties\":{}}"),
    }];
    let out = into_vendor_request(&model(false), req).unwrap();
    assert_eq!(out.tools.len(), 1);
    assert_eq!(out.tools[0].name, "probe");
    assert_eq!(out.tools[0].description, "probes");
    assert_eq!(out.tools[0].parameters, json("{\"type\":\"object\",\"properties\":{}}"));
}

#[test]
fn fixed_protocol_fields_are_set() {
    let out = into_vendor_request(&model(false), request(vec![user_text("hi")])).unwrap();
    assert!(out.intent);
    assert_eq!(out.n, 1);
    assert_eq!(out.temperature_tenths, 1);
    assert!(out.stream);
    assert_eq!(out.model, "gpt-test");
    assert_eq!(out.tool_choice, None);
    let mut non_streaming = model(false);
    non_streaming.uses_streaming = false;
    let out2 = into_vendor_request(&non_streaming, request(vec![user_text("hi")])).unwrap();
    assert!(!out2.stream);
}

#[test]
fn tool_choice_maps_one_to_one() {
    for choice in [ToolChoice::Auto, ToolChoice::Any, ToolChoice::NoTools] {
        let mut req = request(vec![user_text("hi")]);
        req.tool_choice = Some(choice);
        let out = into_vendor_request(&model(false), req).unwrap();
        assert_eq!(out.tool_choice, Some(choice));
    }
}

#[test]
fn adapting_twice_gives_identical_output() {
    let make = || {
        let mut req = request(vec![
            Message {
                role: Role::System,
                content: vec![ContentBlock::Text(String::from("sys"))],
            },
            Message {
                role: Role::Assistant,
                content: vec![ContentBlock::ToolUse {
                    id: String::from("call-11"),
                    name: String::from("probe"),
                    input: json("{\"deep\":[1,2,{\"k\":\"v\"}]}"),
                }],
            },
            user_text("again"),
        ]);
        req.tool_choice = Some(ToolChoice::Auto);
        req
    };
    let a = into_vendor_request(&model(true), make()).unwrap();
    let b = into_vendor_request(&model(true), make()).unwrap();
    assert_eq!(a, b);
}

#[test]
fn empty_final_message_is_rejected() {
    let req = request(vec![
        user_text("hello"),
        Message { role: Role::User, content: vec![ContentBlock::Text(String::new())] },
    ]);
    let r = prepare_request(&model(false), req);
    assert_eq!(r.unwrap_err(), RequestError::EmptyPrompt);
}

#[test]
fn non_user_final_message_is_rejected() {
    let req = request(vec![Message {
        role: Role::Assistant,
        content: vec![ContentBlock::Text(String::from("hi"))],
    }]);
    let r = prepare_request(&model(false), req);
    assert_eq!(r.unwrap_err(), RequestError::LastMessageNotUser);
}

#[test]
fn valid_request_passes_preparation() {
    let out = prepare_request(&model(false), request(vec![user_text("hi")])).unwrap();
    assert_eq!(out.messages.len(), 1);
}

#[test]
fn empty_message_list_adapts_to_empty_request() {
    let out = prepare_request(&model(false), request(Vec::new())).unwrap();
    assert!(out.messages.is_empty());
    assert!(out.tools.is_empty());
}

#[test]
fn redacted_thinking_and_empty_text_are_dropped_from_user_parts() {
    let req = request(vec![Message {
        role: Role::User,
        content: vec![
            ContentBlock::RedactedThinking(String::from("secret")),
            ContentBlock::Text(String::new()),
            ContentBlock::Text(String::from("real")),
        ],
    }]);
    let out = into_vendor_request(&model(false), req).unwrap();
    assert_eq!(
        out.messages,
        vec![VendorMessage::User { content: vec![VendorPart::Text { text: String::from("real") }] }]
    );
}

#[test]
fn user_message_with_no_parts_is_omitted() {
    let req = request(vec![Message {
        role: Role::User,
        content: vec![ContentBlock::Image { url: String::from("data:x") }],
    }]);
    let out = into_vendor_request(&model(false), req).unwrap();
    assert!(out.messages.is_empty());
}

#[test]
fn tool_input_format_follows_vendor_family() {
    let mut m = model(false);
    assert_eq!(m.tool_input_format(), ToolSchemaFormat::JsonSchema);
    m.vendor = ModelVendor::Anthropic;
    assert_eq!(m.tool_input_format(), ToolSchemaFormat::JsonSchema);
    m.vendor = ModelVendor::Google;
    assert_eq!(m.tool_input_format(), ToolSchemaFormat::JsonSchemaSubset);
}

#[test]
fn tool_choice_support_follows_tool_support() {
    let mut m = model(false);
    assert!(m.supports_tool_choice(ToolChoice::Auto));
    assert!(m.supports_tool_choice(ToolChoice::Any));
    assert!(m.supports_tool_choice(ToolChoice::NoTools));
    m.supports_tools = false;
    assert!(!m.supports_tool_choice(ToolChoice::Auto));
}
