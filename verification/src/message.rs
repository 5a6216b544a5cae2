//! Conversation messages: roles, tool-call payloads, and their mathematical
//! views.

use vstd::prelude::*;

verus! {

/// The speaker of a conversation message. Besides the four fixed roles, a
/// message may carry an arbitrary string tag as a custom role.
#[derive(Debug)]
pub enum MessageRole {
    System,
    User,
    Assistant,
    Tool,
    Custom(String),
}

/// Mathematical image of a [`MessageRole`].
pub enum RoleView {
    System,
    User,
    Assistant,
    Tool,
    Custom(Seq<char>),
}

impl View for MessageRole {
    type V = RoleView;

    open spec fn view(&self) -> RoleView {
        match self {
            MessageRole::System => RoleView::System,
            MessageRole::User => RoleView::User,
            MessageRole::Assistant => RoleView::Assistant,
            MessageRole::Tool => RoleView::Tool,
            MessageRole::Custom(tag) => RoleView::Custom(tag@),
        }
    }
}

impl Clone for MessageRole {
    fn clone(&self) -> (r: Self)
        ensures
            r == *self,
    {
        match self {
            MessageRole::System => MessageRole::System,
            MessageRole::User => MessageRole::User,
            MessageRole::Assistant => MessageRole::Assistant,
            MessageRole::Tool => MessageRole::Tool,
            MessageRole::Custom(tag) => MessageRole::Custom(tag.clone()),
        }
    }
}

impl MessageRole {
    /// True exactly on the tool role.
    pub fn is_tool(&self) -> (r: bool)
        ensures
            r == (self@ is Tool),
    {
        match self {
            MessageRole::Tool => true,
            _ => false,
        }
    }
}

/// One tool invocation requested by the model: the tool's name and its
/// argument payload, both as text.
pub struct ToolCall {
    pub name: String,
    pub arguments: String,
}

/// Mathematical image of a [`ToolCall`].
pub struct CallView {
    pub name: Seq<char>,
    pub arguments: Seq<char>,
}

impl View for ToolCall {
    type V = CallView;

    open spec fn view(&self) -> CallView {
        CallView { name: self.name@, arguments: self.arguments@ }
    }
}

impl Clone for ToolCall {
    fn clone(&self) -> (r: Self)
        ensures
            r == *self,
    {
        ToolCall { name: self.name.clone(), arguments: self.arguments.clone() }
    }
}

/// One entry of the conversation history: who spoke, the text, and any tool
/// invocations the speaker requested.
pub struct ChatMessage {
    pub role: MessageRole,
    pub content: String,
    pub tool_calls: Vec<ToolCall>,
}

/// Mathematical image of a [`ChatMessage`].
pub struct MessageView {
    pub role: RoleView,
    pub content: Seq<char>,
    pub tool_calls: Seq<CallView>,
}

impl View for ChatMessage {
    type V = MessageView;

    open spec fn view(&self) -> MessageView {
        MessageView {
            role: self.role@,
            content: self.content@,
            tool_calls: self.tool_calls@.map_values(|c: ToolCall| c@),
        }
    }
}

/// The views of a sequence of messages, in order.
pub open spec fn message_views(messages: Seq<ChatMessage>) -> Seq<MessageView> {
    messages.map_values(|m: ChatMessage| m@)
}

/// The views of a sequence of tool calls, in order.
pub open spec fn call_views(calls: Seq<ToolCall>) -> Seq<CallView> {
    calls.map_values(|c: ToolCall| c@)
}

/// An assistant message carrying `content` and requesting `calls`.
pub open spec fn assistant_view(content: Seq<char>, calls: Seq<CallView>) -> MessageView {
    MessageView { role: RoleView::Assistant, content, tool_calls: calls }
}

/// A tool-role message carrying a tool's textual result.
pub open spec fn tool_view(content: Seq<char>) -> MessageView {
    MessageView { role: RoleView::Tool, content, tool_calls: Seq::empty() }
}

impl Clone for ChatMessage {
    fn clone(&self) -> (r: Self)
        ensures
            r@ == self@,
    {
        let calls = self.tool_calls.clone();
        proof {
            assert forall|i: int| 0 <= i < self.tool_calls@.len() implies calls@[i]
                == self.tool_calls@[i] by {
                assert(cloned::<ToolCall>(self.tool_calls@[i], calls@[i]));
            }
            assert(calls@ =~= self.tool_calls@);
        }
        ChatMessage {
            role: self.role.clone(),
            content: self.content.clone(),
            tool_calls: calls,
        }
    }
}

impl ChatMessage {
    /// A message with the given role and text and no tool calls.
    pub fn new(role: MessageRole, content: String) -> (r: Self)
        ensures
            r@ == (MessageView { role: role@, content: content@, tool_calls: Seq::empty() }),
    {
        let r = ChatMessage { role, content, tool_calls: Vec::new() };
        proof {
            assert(r@.tool_calls =~= Seq::<CallView>::empty());
        }
        r
    }

    /// A user message.
    pub fn user(content: String) -> (r: Self)
        ensures
            r@ == (MessageView {
                role: RoleView::User,
                content: content@,
                tool_calls: Seq::empty(),
            }),
    {
        Self::new(MessageRole::User, content)
    }

    /// A system message.
    pub fn system(content: String) -> (r: Self)
        ensures
            r@ == (MessageView {
                role: RoleView::System,
                content: content@,
                tool_calls: Seq::empty(),
            }),
    {
        Self::new(MessageRole::System, content)
    }

    /// An assistant message without tool calls.
    pub fn assistant(content: String) -> (r: Self)
        ensures
            r@ == assistant_view(content@, Seq::empty()),
    {
        Self::new(MessageRole::Assistant, content)
    }

    /// A tool-role message carrying a tool's textual result.
    pub fn tool(content: String) -> (r: Self)
        ensures
            r@ == tool_view(content@),
    {
        Self::new(MessageRole::Tool, content)
    }
}

} // verus!
