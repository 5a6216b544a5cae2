use ollama_rs::coordinator::{Coordinator, RoundOutcome, ITERATION_CEILING};
use ollama_rs::error::CoordinatorError;
use ollama_rs::message::{ChatMessage, MessageRole, ToolCall};
use ollama_rs::request::{FormatType, ModelOptions, ToolDescriptor};
use ollama_rs::stream::{ResponseFragment, ServiceReply, ToolReply};

fn echo_tool() -> ToolDescriptor {
    ToolDescriptor {
        name: "echo".to_string(),
        description: "echoes its argument".to_string(),
        parameters: "{\"x\": \"number\"}".to_string(),
    }
}

#[test]
fn new_starts_with_defaults() {
    let c = Coordinator::new("m".to_string(), Vec::new());
    assert_eq!(c.model, "m");
    assert!(c.history().is_empty());
    assert!(c.tools.is_empty());
    assert!(c.options.entries.is_empty());
    assert!(!c.debug);
    assert!(c.format.is_none());
    assert_eq!(c.iterations_left, ITERATION_CEILING);
}

#[test]
fn builders_replace_one_field_each() {
    let mut options = ModelOptions::default();
    options.set("temperature".to_string(), "0".to_string());
    let c = Coordinator::new_with_tools("m".to_string(), Vec::new(), vec![echo_tool()])
        .format(FormatType::Schema("{\"type\": \"object\"}".to_string()))
        .options(options)
        .debug(true);
    assert!(matches!(c.format, Some(FormatType::Schema(ref s)) if s == "{\"type\": \"object\"}"));
    assert_eq!(c.options.entries.len(), 1);
    assert_eq!(c.options.entries[0].key, "temperature");
    assert_eq!(c.options.entries[0].value, "0");
    assert!(c.debug);
    assert_eq!(c.tools.len(), 1);
    assert_eq!(c.tools[0].name, "echo");
}

#[test]
fn format_always_attached_without_tools() {
    let mut c = Coordinator::new("m".to_string(), Vec::new()).format(FormatType::Json);
    c.begin_turn();
    let q = c
        .next_request(&vec![ChatMessage::user("hi".to_string())])
        .unwrap();
    assert!(matches!(q.format, Some(FormatType::Json)));
    assert!(q.tools.is_empty());
    assert_eq!(q.model, "m");
    assert_eq!(q.messages.len(), 1);
    assert_eq!(q.messages[0].content, "hi");
}

#[test]
fn format_withheld_on_first_tool_enabled_turn() {
    let mut c = Coordinator::new_with_tools("m".to_string(), Vec::new(), vec![echo_tool()])
        .format(FormatType::Json);
    c.begin_turn();
    let q = c
        .next_request(&vec![ChatMessage::user("hi".to_string())])
        .unwrap();
    assert!(q.format.is_none());
    assert_eq!(q.tools.len(), 1);
}

#[test]
fn format_withheld_when_last_message_is_not_a_tool_result() {
    let history = vec![
        ChatMessage::user("hi".to_string()),
        ChatMessage::assistant("hello".to_string()),
    ];
    let mut c = Coordinator::new_with_tools("m".to_string(), history, vec![echo_tool()])
        .format(FormatType::Json);
    c.begin_turn();
    let q = c.next_request(&Vec::new()).unwrap();
    assert!(q.format.is_none());
}

#[test]
fn format_attached_once_last_message_is_a_tool_result() {
    let history = vec![
        ChatMessage::user("hi".to_string()),
        ChatMessage::tool("42".to_string()),
    ];
    let mut c = Coordinator::new_with_tools("m".to_string(), history, vec![echo_tool()])
        .format(FormatType::Json);
    c.begin_turn();
    let q = c.next_request(&Vec::new()).unwrap();
    assert!(matches!(q.format, Some(FormatType::Json)));
}

#[test]
fn stepwise_turn_applies_format_on_the_recursive_request() {
    let mut c = Coordinator::new_with_tools("m".to_string(), Vec::new(), vec![echo_tool()])
        .format(FormatType::Json);
    c.begin_turn();
    let first = c
        .next_request(&vec![ChatMessage::user("echo 1".to_string())])
        .unwrap();
    assert!(first.format.is_none());
    let reply = ServiceReply::Stream(vec![ResponseFragment {
        delta: String::new(),
        tool_calls: vec![ToolCall {
            name: "echo".to_string(),
            arguments: "{\"x\": 1}".to_string(),
        }],
        done: true,
    }]);
    let outcome = c
        .absorb_reply(vec![ChatMessage::user("echo 1".to_string())], &reply)
        .unwrap();
    let calls = match outcome {
        RoundOutcome::PendingCalls(calls) => calls,
        RoundOutcome::Final(_) => panic!("expected a tool call"),
    };
    assert_eq!(calls.len(), 1);
    assert_eq!(calls[0].name, "echo");
    c.absorb_tool_reply(&ToolReply::Output("1".to_string()))
        .unwrap();
    assert!(matches!(
        c.history().last().map(|m| &m.role),
        Some(MessageRole::Tool)
    ));
    let second = c.next_request(&Vec::new()).unwrap();
    assert!(matches!(second.format, Some(FormatType::Json)));
}

#[test]
fn next_request_runs_out_after_the_ceiling() {
    let mut c = Coordinator::new("m".to_string(), Vec::new());
    c.begin_turn();
    let mut i: u32 = 0;
    while i < ITERATION_CEILING {
        assert!(c.next_request(&Vec::new()).is_ok());
        i += 1;
    }
    let r = c.next_request(&Vec::new());
    assert!(matches!(r, Err(CoordinatorError::IterationLimitExceeded)));
    // a fresh turn restores the budget
    c.begin_turn();
    assert!(c.next_request(&Vec::new()).is_ok());
}

#[test]
fn request_carries_options_and_custom_roles_through() {
    let mut options = ModelOptions::default();
    options.set("seed".to_string(), "7".to_string());
    options.set("temperature".to_string(), "0.2".to_string());
    let mut c = Coordinator::new("m".to_string(), Vec::new()).options(options);
    c.begin_turn();
    let q = c
        .next_request(&vec![ChatMessage::new(
            MessageRole::Custom("narrator".to_string()),
            "once upon a time".to_string(),
        )])
        .unwrap();
    assert_eq!(q.options.entries.len(), 2);
    assert_eq!(q.options.entries[0].key, "seed");
    assert_eq!(q.options.entries[1].value, "0.2");
    assert!(matches!(q.messages[0].role, MessageRole::Custom(ref tag) if tag == "narrator"));
}
