use grok_provider::wire::{
    CompletionEvent, EventMapper, HostMessage, HostRequest, Role, StopReason, ToolCallChunk,
    WireChoice, WireEvent, into_wire,
};

fn text_event(text: &str) -> WireEvent {
    WireEvent {
        choices: vec![WireChoice {
            content: Some(text.to_string()),
            tool_calls: Vec::new(),
            finish_reason: None,
        }],
    }
}

fn stop_event(reason: &str) -> WireEvent {
    WireEvent {
        choices: vec![WireChoice {
            content: None,
            tool_calls: Vec::new(),
            finish_reason: Some(reason.to_string()),
        }],
    }
}

fn emitted_text(events: &[CompletionEvent]) -> String {
    let mut out = String::new();
    for e in events {
        if let CompletionEvent::Text(t) = e {
            out.push_str(t);
        }
    }
    out
}

#[test]
fn into_wire_copies_messages_and_applies_ceiling() {
    let request = HostRequest {
        messages: vec![
            HostMessage { role: Role::System, content: "be terse".to_string() },
            HostMessage { role: Role::User, content: "hello".to_string() },
        ],
    };
    let wire = into_wire(&request, "grok-3-latest", Some(4096));
    assert_eq!(wire.model, "grok-3-latest");
    assert!(wire.stream);
    assert_eq!(wire.max_tokens, Some(4096));
    assert_eq!(wire.messages.len(), 2);
    assert!(matches!(wire.messages[0].role, Role::System));
    assert_eq!(wire.messages[0].content, "be terse");
    assert!(matches!(wire.messages[1].role, Role::User));
    assert_eq!(wire.messages[1].content, "hello");
}

#[test]
fn streamed_text_is_neither_lost_nor_duplicated() {
    let mut mapper = EventMapper::new();
    let mut all: Vec<CompletionEvent> = Vec::new();
    for chunk in ["Hel", "lo,", " wor", "ld"] {
        all.extend(mapper.map_event(text_event(chunk)));
    }
    all.extend(mapper.map_event(stop_event("stop")));
    assert_eq!(emitted_text(&all), "Hello, world");
    assert!(matches!(all.last(), Some(CompletionEvent::Stop(StopReason::EndTurn))));
}

#[test]
fn tool_call_fragments_assemble_across_events() {
    let mut mapper = EventMapper::new();
    let first = WireEvent {
        choices: vec![WireChoice {
            content: None,
            tool_calls: vec![ToolCallChunk {
                index: 0,
                id: Some("call-1".to_string()),
                name: Some("look".to_string()),
                arguments: Some("{\"q\":".to_string()),
            }],
            finish_reason: None,
        }],
    };
    let second = WireEvent {
        choices: vec![WireChoice {
            content: None,
            tool_calls: vec![ToolCallChunk {
                index: 0,
                id: None,
                name: Some("up".to_string()),
                arguments: Some("\"x\"}".to_string()),
            }],
            finish_reason: Some("tool_calls".to_string()),
        }],
    };
    let mut events = mapper.map_event(first);
    assert!(events.is_empty());
    events.extend(mapper.map_event(second));
    assert_eq!(events.len(), 2);
    match &events[0] {
        CompletionEvent::ToolUse(call) => {
            assert_eq!(call.id, "call-1");
            assert_eq!(call.name, "lookup");
            assert_eq!(call.arguments, "{\"q\":\"x\"}");
        }
        _ => panic!("expected an assembled tool call"),
    }
    assert!(matches!(events[1], CompletionEvent::Stop(StopReason::ToolUse)));
}

#[test]
fn parallel_tool_calls_fill_separate_slots() {
    let mut mapper = EventMapper::new();
    let ev = WireEvent {
        choices: vec![WireChoice {
            content: None,
            tool_calls: vec![
                ToolCallChunk {
                    index: 1,
                    id: Some("b".to_string()),
                    name: Some("second".to_string()),
                    arguments: Some("{}".to_string()),
                },
                ToolCallChunk {
                    index: 0,
                    id: Some("a".to_string()),
                    name: Some("first".to_string()),
                    arguments: Some("{}".to_string()),
                },
            ],
            finish_reason: Some("tool_calls".to_string()),
        }],
    };
    let events = mapper.map_event(ev);
    assert_eq!(events.len(), 3);
    match (&events[0], &events[1]) {
        (CompletionEvent::ToolUse(a), CompletionEvent::ToolUse(b)) => {
            assert_eq!(a.name, "first");
            assert_eq!(b.name, "second");
        }
        _ => panic!("expected two tool calls in slot order"),
    }
}

#[test]
fn text_before_tool_flush_stays_in_order() {
    let mut mapper = EventMapper::new();
    let ev = WireEvent {
        choices: vec![WireChoice {
            content: Some("thinking".to_string()),
            tool_calls: vec![ToolCallChunk {
                index: 0,
                id: Some("c".to_string()),
                name: Some("act".to_string()),
                arguments: None,
            }],
            finish_reason: Some("tool_calls".to_string()),
        }],
    };
    let events = mapper.map_event(ev);
    assert_eq!(events.len(), 3);
    assert!(matches!(&events[0], CompletionEvent::Text(t) if t == "thinking"));
    assert!(matches!(&events[1], CompletionEvent::ToolUse(_)));
    assert!(matches!(&events[2], CompletionEvent::Stop(StopReason::ToolUse)));
}

#[test]
fn unknown_finish_reason_ends_the_turn() {
    let mut mapper = EventMapper::new();
    let events = mapper.map_event(stop_event("length"));
    assert_eq!(events.len(), 1);
    assert!(matches!(events[0], CompletionEvent::Stop(StopReason::EndTurn)));
}
