use chat_adapter::normalizer::{
    CompletionEvent, FunctionChunk, NormalizeError, ResponseChoice, ResponseDelta, ResponseEvent,
    StopReason, StreamNormalizer, ToolCallChunk,
};

fn text_event(text: &str) -> ResponseEvent {
    ResponseEvent {
        choices: vec![ResponseChoice {
            delta: Some(ResponseDelta {
                content: Some(String::from(text)),
                tool_calls: Vec::new(),
            }),
            message: None,
            finish_reason: None,
        }],
    }
}

fn chunk_event(index: usize, id: Option<&str>, name: Option<&str>, args: Option<&str>) -> ResponseEvent {
    ResponseEvent {
        choices: vec![ResponseChoice {
            delta: Some(ResponseDelta {
                content: None,
                tool_calls: vec![ToolCallChunk {
                    index,
                    id: id.map(String::from),
                    function: Some(FunctionChunk {
                        name: name.map(String::from),
                        arguments: args.map(String::from),
                    }),
                }],
            }),
            message: None,
            finish_reason: None,
        }],
    }
}

fn finish_event(reason: &str) -> ResponseEvent {
    ResponseEvent {
        choices: vec![ResponseChoice {
            delta: Some(ResponseDelta { content: None, tool_calls: Vec::new() }),
            message: None,
            finish_reason: Some(String::from(reason)),
        }],
    }
}

fn json(s: &str) -> serde_json::Value {
    serde_json::from_str(s).unwrap()
}

#[test]
fn text_is_emitted_immediately() {
    let mut n = StreamNormalizer::new(true);
    let out = n.process_event(&text_event("hel"));
    assert_eq!(out, vec![Ok(CompletionEvent::Text(String::from("hel")))]);
    let out = n.process_event(&text_event("lo"));
    assert_eq!(out, vec![Ok(CompletionEvent::Text(String::from("lo")))]);
}

#[test]
fn tool_call_fragments_reassemble() {
    let mut n = StreamNormalizer::new(true);
    assert!(n.process_event(&chunk_event(0, Some("call-1"), Some("foo"), None)).is_empty());
    assert!(n.process_event(&chunk_event(0, None, None, Some("{\"x\":"))).is_empty());
    assert!(n.process_event(&chunk_event(0, None, None, Some("1}"))).is_empty());
    let out = n.process_event(&finish_event("tool_calls"));
    assert_eq!(out.len(), 2);
    match &out[0] {
        Ok(CompletionEvent::ToolUse(t)) => {
            assert_eq!(t.id, "call-1");
            assert_eq!(t.name, "foo");
            assert_eq!(t.input, json("{\"x\":1}"));
            assert_eq!(t.raw_input, "{\"x\":1}");
            assert!(t.is_input_complete);
        }
        other => panic!("expected a tool-use event, got {:?}", other),
    }
    assert_eq!(out[1], Ok(CompletionEvent::Stop(StopReason::ToolUse)));
}

#[test]
fn empty_arguments_parse_to_empty_object() {
    let mut n = StreamNormalizer::new(true);
    n.process_event(&chunk_event(0, Some("call-2"), Some("noargs"), None));
    let out = n.process_event(&finish_event("tool_calls"));
    assert_eq!(out.len(), 2);
    match &out[0] {
        Ok(CompletionEvent::ToolUse(t)) => {
            assert_eq!(t.input, json("{}"));
            assert_eq!(t.raw_input, "");
        }
        other => panic!("expected a tool-use event, got {:?}", other),
    }
}

#[test]
fn malformed_arguments_give_structured_error_and_sequence_continues() {
    let mut n = StreamNormalizer::new(true);
    n.process_event(&chunk_event(0, Some("call-3"), Some("bad"), Some("{not json")));
    let out = n.process_event(&finish_event("tool_calls"));
    assert_eq!(out.len(), 2);
    match &out[0] {
        Err(NormalizeError::ToolArgumentParse { id, tool_name, raw_input, detail }) => {
            assert_eq!(id, "call-3");
            assert_eq!(tool_name, "bad");
            assert_eq!(raw_input, "{not json");
            assert!(!detail.is_empty());
        }
        other => panic!("expected a parse error, got {:?}", other),
    }
    assert_eq!(out[1], Ok(CompletionEvent::Stop(StopReason::ToolUse)));
    // The sequence continues: later events are still processed.
    let out = n.process_event(&text_event("still here"));
    assert_eq!(out, vec![Ok(CompletionEvent::Text(String::from("still here")))]);
}

#[test]
fn sibling_tool_calls_survive_a_malformed_one() {
    let mut n = StreamNormalizer::new(true);
    n.process_event(&chunk_event(0, Some("call-4"), Some("bad"), Some("{oops")));
    n.process_event(&chunk_event(1, Some("call-5"), Some("good"), Some("{\"y\":2}")));
    let out = n.process_event(&finish_event("tool_calls"));
    assert_eq!(out.len(), 3);
    let mut saw_error = false;
    let mut saw_good = false;
    for item in &out[..2] {
        match item {
            Err(NormalizeError::ToolArgumentParse { id, .. }) => {
                assert_eq!(id, "call-4");
                saw_error = true;
            }
            Ok(CompletionEvent::ToolUse(t)) => {
                assert_eq!(t.id, "call-5");
                assert_eq!(t.input, json("{\"y\":2}"));
                saw_good = true;
            }
            other => panic!("unexpected item {:?}", other),
        }
    }
    assert!(saw_error && saw_good);
    assert_eq!(out[2], Ok(CompletionEvent::Stop(StopReason::ToolUse)));
}

#[test]
fn stop_yields_end_turn_even_with_buffered_fragments() {
    let mut n = StreamNormalizer::new(true);
    n.process_event(&chunk_event(0, Some("call-6"), Some("unfinished"), Some("{\"x\":")));
    let out = n.process_event(&finish_event("stop"));
    assert_eq!(out, vec![Ok(CompletionEvent::Stop(StopReason::EndTurn))]);
    // The buffers were kept, not drained: a later tool_calls finish drains
    // the fragment accumulated before the stop.
    let out = n.process_event(&chunk_event(0, None, None, Some("1}")));
    assert!(out.is_empty());
    let out = n.process_event(&finish_event("tool_calls"));
    match &out[0] {
        Ok(CompletionEvent::ToolUse(t)) => assert_eq!(t.input, json("{\"x\":1}")),
        other => panic!("expected a tool-use event, got {:?}", other),
    }
}

#[test]
fn id_and_name_replace_while_arguments_append() {
    let mut n = StreamNormalizer::new(true);
    n.process_event(&chunk_event(0, Some("old-id"), Some("old-name"), Some("{\"a\"")));
    n.process_event(&chunk_event(0, Some("new-id"), Some("new-name"), Some(":true}")));
    let out = n.process_event(&finish_event("tool_calls"));
    match &out[0] {
        Ok(CompletionEvent::ToolUse(t)) => {
            assert_eq!(t.id, "new-id");
            assert_eq!(t.name, "new-name");
            assert_eq!(t.raw_input, "{\"a\":true}");
        }
        other => panic!("expected a tool-use event, got {:?}", other),
    }
}

#[test]
fn missing_choice_is_an_in_band_error() {
    let mut n = StreamNormalizer::new(true);
    let out = n.process_event(&ResponseEvent { choices: Vec::new() });
    assert_eq!(out, vec![Err(NormalizeError::MissingChoice)]);
    // Further events keep being processed.
    let out = n.process_event(&text_event("on we go"));
    assert_eq!(out, vec![Ok(CompletionEvent::Text(String::from("on we go")))]);
}

#[test]
fn missing_delta_is_an_in_band_error() {
    let mut n = StreamNormalizer::new(true);
    let out = n.process_event(&ResponseEvent {
        choices: vec![ResponseChoice { delta: None, message: None, finish_reason: None }],
    });
    assert_eq!(out, vec![Err(NormalizeError::MissingDelta)]);
}

#[test]
fn non_streaming_mode_reads_the_message_field() {
    let mut n = StreamNormalizer::new(false);
    let event = ResponseEvent {
        choices: vec![ResponseChoice {
            delta: None,
            message: Some(ResponseDelta {
                content: Some(String::from("whole answer")),
                tool_calls: Vec::new(),
            }),
            finish_reason: Some(String::from("stop")),
        }],
    };
    let out = n.process_event(&event);
    assert_eq!(
        out,
        vec![
            Ok(CompletionEvent::Text(String::from("whole answer"))),
            Ok(CompletionEvent::Stop(StopReason::EndTurn)),
        ]
    );
    // In non-streaming mode a delta-only event has no usable payload.
    let out = n.process_event(&text_event("ignored"));
    assert_eq!(out, vec![Err(NormalizeError::MissingDelta)]);
}

#[test]
fn unexpected_finish_reason_falls_back_to_end_turn() {
    let mut n = StreamNormalizer::new(true);
    let out = n.process_event(&finish_event("content_filter"));
    assert_eq!(out, vec![Ok(CompletionEvent::Stop(StopReason::EndTurn))]);
    assert_eq!(n.last_unexpected_finish, Some(String::from("content_filter")));
}

#[test]
fn only_first_choice_is_consumed() {
    let mut n = StreamNormalizer::new(true);
    let event = ResponseEvent {
        choices: vec![
            ResponseChoice {
                delta: Some(ResponseDelta {
                    content: Some(String::from("first")),
                    tool_calls: Vec::new(),
                }),
                message: None,
                finish_reason: None,
            },
            ResponseChoice {
                delta: Some(ResponseDelta {
                    content: Some(String::from("second")),
                    tool_calls: Vec::new(),
                }),
                message: None,
                finish_reason: None,
            },
        ],
    };
    let out = n.process_event(&event);
    assert_eq!(out, vec![Ok(CompletionEvent::Text(String::from("first")))]);
}

#[test]
fn text_and_stop_in_one_event_emit_in_order() {
    let mut n = StreamNormalizer::new(true);
    let event = ResponseEvent {
        choices: vec![ResponseChoice {
            delta: Some(ResponseDelta {
                content: Some(String::from("bye")),
                tool_calls: Vec::new(),
            }),
            message: None,
            finish_reason: Some(String::from("stop")),
        }],
    };
    let out = n.process_event(&event);
    assert_eq!(
        out,
        vec![
            Ok(CompletionEvent::Text(String::from("bye"))),
            Ok(CompletionEvent::Stop(StopReason::EndTurn)),
        ]
    );
}

#[test]
fn accumulator_is_empty_after_draining() {
    let mut n = StreamNormalizer::new(true);
    n.process_event(&chunk_event(0, Some("call-7"), Some("once"), Some("{}")));
    let first = n.process_event(&finish_event("tool_calls"));
    assert_eq!(first.len(), 2);
    // A second drain finds nothing left.
    let second = n.process_event(&finish_event("tool_calls"));
    assert_eq!(second, vec![Ok(CompletionEvent::Stop(StopReason::ToolUse))]);
}
