use ollama_rs::coordinator::{Coordinator, ITERATION_CEILING};
use ollama_rs::error::CoordinatorError;
use ollama_rs::message::{ChatMessage, MessageRole, ToolCall};
use ollama_rs::request::{FormatType, ToolDescriptor};
use ollama_rs::stream::{ResponseFragment, ServiceReply, ToolReply};

fn frag(delta: &str, done: bool) -> ResponseFragment {
    ResponseFragment { delta: delta.to_string(), tool_calls: Vec::new(), done }
}

fn call_frag(name: &str, arguments: &str, done: bool) -> ResponseFragment {
    ResponseFragment {
        delta: String::new(),
        tool_calls: vec![ToolCall {
            name: name.to_string(),
            arguments: arguments.to_string(),
        }],
        done,
    }
}

fn echo_tool() -> ToolDescriptor {
    ToolDescriptor {
        name: "echo".to_string(),
        description: "echoes its argument".to_string(),
        parameters: "{\"x\": \"number\"}".to_string(),
    }
}

#[test]
fn chat_concatenates_stream_deltas() {
    let mut c = Coordinator::new("llama2:latest".to_string(), Vec::new());
    let replies = vec![ServiceReply::Stream(vec![frag("Hel", false), frag("lo", true)])];
    let tool_replies: Vec<ToolReply> = Vec::new();
    let turn = c
        .chat(
            vec![ChatMessage::user("hi".to_string())],
            &replies,
            &tool_replies,
        )
        .unwrap();
    assert_eq!(turn.message.content, "Hello");
    assert!(matches!(turn.message.role, MessageRole::Assistant));
    assert!(turn.message.tool_calls.is_empty());
    assert!(turn.done);
    assert_eq!(turn.model, "llama2:latest");
    assert_eq!(turn.created_at, "");
    let history = c.history();
    assert_eq!(history.len(), 2);
    assert_eq!(history[0].content, "hi");
    assert!(matches!(history[0].role, MessageRole::User));
    assert_eq!(history[1].content, "Hello");
    assert!(matches!(history[1].role, MessageRole::Assistant));
}

#[test]
fn chat_with_empty_stream_returns_empty_content() {
    let mut c = Coordinator::new("m".to_string(), Vec::new());
    let replies = vec![ServiceReply::Stream(Vec::new())];
    let turn = c.chat(Vec::new(), &replies, &Vec::new()).unwrap();
    assert_eq!(turn.message.content, "");
    assert!(turn.done);
}

#[test]
fn chat_stops_at_first_terminal_fragment() {
    let mut c = Coordinator::new("m".to_string(), Vec::new());
    let replies = vec![ServiceReply::Stream(vec![
        frag("a", false),
        frag("b", true),
        frag("c", false),
    ])];
    let turn = c.chat(Vec::new(), &replies, &Vec::new()).unwrap();
    assert_eq!(turn.message.content, "ab");
}

#[test]
fn chat_dispatches_tool_and_recurses() {
    let mut c = Coordinator::new_with_tools(
        "m".to_string(),
        Vec::new(),
        vec![echo_tool()],
    )
    .format(FormatType::Json);
    let replies = vec![
        ServiceReply::Stream(vec![call_frag("echo", "{\"x\": 1}", true)]),
        ServiceReply::Stream(vec![frag("the echo said 1", true)]),
    ];
    let tool_replies = vec![ToolReply::Output("1".to_string())];
    let turn = c
        .chat(
            vec![ChatMessage::user("please echo 1".to_string())],
            &replies,
            &tool_replies,
        )
        .unwrap();
    assert_eq!(turn.message.content, "the echo said 1");
    let history = c.history();
    // user, assistant tool-call turn, tool result, final assistant answer
    assert_eq!(history.len(), 4);
    assert!(matches!(history[1].role, MessageRole::Assistant));
    assert_eq!(history[1].tool_calls.len(), 1);
    assert_eq!(history[1].tool_calls[0].name, "echo");
    assert_eq!(history[1].tool_calls[0].arguments, "{\"x\": 1}");
    assert!(matches!(history[2].role, MessageRole::Tool));
    assert_eq!(history[2].content, "1");
    assert!(matches!(history[3].role, MessageRole::Assistant));
}

#[test]
fn chat_fails_at_iteration_ceiling() {
    let mut c = Coordinator::new_with_tools("m".to_string(), Vec::new(), vec![echo_tool()]);
    let mut replies: Vec<ServiceReply> = Vec::new();
    let mut tool_replies: Vec<ToolReply> = Vec::new();
    let mut i: u32 = 0;
    while i < ITERATION_CEILING + 1 {
        replies.push(ServiceReply::Stream(vec![call_frag("echo", "{}", true)]));
        tool_replies.push(ToolReply::Output("again".to_string()));
        i += 1;
    }
    let r = c.chat(
        vec![ChatMessage::user("go".to_string())],
        &replies,
        &tool_replies,
    );
    assert!(matches!(r, Err(CoordinatorError::IterationLimitExceeded)));
    // ten rounds were spent before the ceiling was hit
    let history = c.history();
    assert_eq!(history.len(), 1 + 2 * ITERATION_CEILING as usize);
}

#[test]
fn chat_surfaces_transport_failure() {
    let mut c = Coordinator::new("m".to_string(), Vec::new());
    let replies = vec![ServiceReply::Failed];
    let r = c.chat(
        vec![ChatMessage::user("hi".to_string())],
        &replies,
        &Vec::new(),
    );
    assert!(matches!(r, Err(CoordinatorError::Transport)));
    // nothing was appended: the service failed before streaming
    assert!(c.history().is_empty());
}

#[test]
fn chat_without_any_reply_is_a_transport_failure() {
    let mut c = Coordinator::new("m".to_string(), Vec::new());
    let r = c.chat(
        vec![ChatMessage::user("hi".to_string())],
        &Vec::new(),
        &Vec::new(),
    );
    assert!(matches!(r, Err(CoordinatorError::Transport)));
}

#[test]
fn chat_surfaces_tool_failure() {
    let mut c = Coordinator::new_with_tools("m".to_string(), Vec::new(), vec![echo_tool()]);
    let replies = vec![
        ServiceReply::Stream(vec![call_frag("echo", "{}", true)]),
        ServiceReply::Stream(vec![frag("never reached", true)]),
    ];
    let tool_replies = vec![ToolReply::Failed];
    let r = c.chat(
        vec![ChatMessage::user("go".to_string())],
        &replies,
        &tool_replies,
    );
    assert!(matches!(r, Err(CoordinatorError::ToolExecution)));
    // the tool-call turn is stored, the failed tool left no result behind
    assert_eq!(c.history().len(), 2);
}

#[test]
fn chat_with_missing_tool_reply_is_a_tool_failure() {
    let mut c = Coordinator::new_with_tools("m".to_string(), Vec::new(), vec![echo_tool()]);
    let replies = vec![ServiceReply::Stream(vec![call_frag("echo", "{}", true)])];
    let r = c.chat(
        vec![ChatMessage::user("go".to_string())],
        &replies,
        &Vec::new(),
    );
    assert!(matches!(r, Err(CoordinatorError::ToolExecution)));
}

#[test]
fn chat_gathers_calls_across_fragments() {
    let mut c = Coordinator::new_with_tools("m".to_string(), Vec::new(), vec![echo_tool()]);
    let replies = vec![
        ServiceReply::Stream(vec![
            call_frag("echo", "{\"x\": 1}", false),
            call_frag("echo", "{\"x\": 2}", true),
        ]),
        ServiceReply::Stream(vec![frag("both done", true)]),
    ];
    let tool_replies = vec![
        ToolReply::Output("1".to_string()),
        ToolReply::Output("2".to_string()),
    ];
    let turn = c.chat(Vec::new(), &replies, &tool_replies).unwrap();
    assert_eq!(turn.message.content, "both done");
    let history = c.history();
    // assistant turn with two calls, two tool results, final answer
    assert_eq!(history.len(), 4);
    assert_eq!(history[0].tool_calls.len(), 2);
    assert_eq!(history[1].content, "1");
    assert_eq!(history[2].content, "2");
}

#[test]
fn error_descriptions_are_fixed() {
    assert_eq!(
        CoordinatorError::LockPoisoned.describe(),
        "history lock poisoned"
    );
    assert_eq!(CoordinatorError::Transport.describe(), "transport failure");
    assert_eq!(
        CoordinatorError::ToolExecution.describe(),
        "tool execution failed"
    );
    assert_eq!(
        CoordinatorError::IterationLimitExceeded.describe(),
        "tool-call iteration limit exceeded"
    );
}
