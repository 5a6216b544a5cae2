//! The coordinator: owns the conversation identity and the message history,
//! and resolves full turns against the remote service and the registered
//! tools.
//!
//! The service round trip and tool execution suspend, so they happen outside
//! this crate. A driver advances a turn one event at a time through
//! [`Coordinator::begin_turn`], [`Coordinator::next_request`],
//! [`Coordinator::absorb_reply`] and [`Coordinator::absorb_tool_reply`];
//! [`Coordinator::chat`] resolves a whole turn at once when every
//! collaborator outcome is in hand as a transcript.

use vstd::prelude::*;

use crate::error::CoordinatorError;
use crate::message::{
    assistant_view, call_views, message_views, tool_view, CallView, ChatMessage, MessageRole,
    MessageView, RoleView, ToolCall,
};
use crate::request::{format_applies, ChatRequest, FormatType, ModelOptions, ToolDescriptor};
use crate::stream::{
    accumulate, clone_calls, reply_views, tool_reply_views, turn_calls, turn_content, ReplyView,
    ServiceReply, ToolReply, ToolReplyView,
};

verus! {

/// The hard ceiling on service round trips within one resolved turn: the
/// first request spends one round, and each recursion after a batch of tool
/// results spends another.
pub const ITERATION_CEILING: u32 = 10;

/// Drives a multi-turn dialogue with a remote model: carries the model name,
/// the generation options, the ordered message history, the descriptors of
/// the registered tools, a debug flag, the optional structured-output
/// constraint, and the rounds still allowed in the current turn.
pub struct Coordinator {
    pub model: String,
    pub options: ModelOptions,
    pub history: Vec<ChatMessage>,
    pub tools: Vec<ToolDescriptor>,
    pub debug: bool,
    pub format: Option<FormatType>,
    pub iterations_left: u32,
}

/// The coordinator's output: the model that answered, a timestamp
/// placeholder, and the single finished assistant message.
pub struct ResolvedTurn {
    pub model: String,
    pub created_at: String,
    pub message: ChatMessage,
    pub done: bool,
}

/// What one absorbed service reply leaves behind: either the finished turn,
/// or tool invocations that must be executed before the conversation can
/// continue.
pub enum RoundOutcome {
    Final(ResolvedTurn),
    PendingCalls(Vec<ToolCall>),
}

/// How a resolved turn ends, over views: the final assistant content, or an
/// error.
pub enum TurnOutcome {
    Resolved(Seq<char>),
    Failed(CoordinatorError),
}

/// The conversation identity: everything a resolved turn leaves untouched.
pub open spec fn same_identity(a: Coordinator, b: Coordinator) -> bool {
    &&& a.model == b.model
    &&& a.options == b.options
    &&& a.tools == b.tools
    &&& a.debug == b.debug
    &&& a.format == b.format
}

/// The role of the most recent stored message, if any.
pub open spec fn last_role_of(history: Seq<MessageView>) -> Option<RoleView> {
    if history.len() == 0 {
        None
    } else {
        Some(history.last().role)
    }
}

/// Append one tool-role message per dispatched call, in call order, consuming
/// one tool reply each. Returns the extended history and whether every call
/// produced a result; the batch stops at the first failure or when the
/// replies run out.
pub open spec fn run_tools(
    history: Seq<MessageView>,
    pending_calls: nat,
    replies: Seq<ToolReplyView>,
) -> (Seq<MessageView>, bool)
    decreases pending_calls,
{
    if pending_calls == 0 {
        (history, true)
    } else if replies.len() == 0 {
        (history, false)
    } else {
        match replies[0] {
            ToolReplyView::Failed => (history, false),
            ToolReplyView::Output(text) => run_tools(
                history.push(tool_view(text)),
                (pending_calls - 1) as nat,
                replies.skip(1),
            ),
        }
    }
}

/// One whole turn over views, driven by the collaborators' recorded
/// behaviour: each round spends one unit of budget, appends the pending
/// messages and the assembled assistant message to the history, dispatches
/// any requested tools, and recurses with an empty pending list until a
/// tool-call-free reply resolves the turn or something fails. An exhausted
/// reply transcript reads as the service failing to answer.
pub open spec fn resolve_from(
    history: Seq<MessageView>,
    pending: Seq<MessageView>,
    replies: Seq<ReplyView>,
    tool_replies: Seq<ToolReplyView>,
    budget: nat,
) -> (Seq<MessageView>, TurnOutcome)
    decreases budget,
{
    if budget == 0 {
        (history, TurnOutcome::Failed(CoordinatorError::IterationLimitExceeded))
    } else if replies.len() == 0 {
        (history, TurnOutcome::Failed(CoordinatorError::Transport))
    } else {
        match replies[0] {
            ReplyView::Failed => (history, TurnOutcome::Failed(CoordinatorError::Transport)),
            ReplyView::Stream(fragments) => {
                let content = turn_content(fragments);
                let calls = turn_calls(fragments);
                let grown = history + pending + seq![assistant_view(content, calls)];
                if calls.len() == 0 {
                    (grown, TurnOutcome::Resolved(content))
                } else {
                    let batch = run_tools(grown, calls.len(), tool_replies);
                    if !batch.1 {
                        (batch.0, TurnOutcome::Failed(CoordinatorError::ToolExecution))
                    } else {
                        resolve_from(
                            batch.0,
                            Seq::empty(),
                            replies.skip(1),
                            tool_replies.skip(calls.len() as int),
                            (budget - 1) as nat,
                        )
                    }
                }
            },
        }
    }
}

/// `longer` begins with `prefix`, element for element.
pub open spec fn extends(longer: Seq<MessageView>, prefix: Seq<MessageView>) -> bool {
    longer.len() >= prefix.len() && longer.take(prefix.len() as int) == prefix
}

proof fn lemma_extends_trans(a: Seq<MessageView>, b: Seq<MessageView>, c: Seq<MessageView>)
    requires
        extends(a, b),
        extends(b, c),
    ensures
        extends(a, c),
{
    assert forall|i: int| 0 <= i < c.len() implies a.take(c.len() as int)[i] == c[i] by {
        assert(a[i] == a.take(b.len() as int)[i]);
        assert(b[i] == b.take(c.len() as int)[i]);
    }
    assert(a.take(c.len() as int) =~= c);
}

proof fn lemma_run_tools_append_only(
    history: Seq<MessageView>,
    pending_calls: nat,
    replies: Seq<ToolReplyView>,
)
    ensures
        extends(run_tools(history, pending_calls, replies).0, history),
    decreases pending_calls,
{
    if pending_calls == 0 || replies.len() == 0 || replies[0] is Failed {
        assert(history.take(history.len() as int) =~= history);
    } else {
        let grown = history.push(tool_view(replies[0]->Output_0));
        assert(grown.take(history.len() as int) =~= history);
        lemma_run_tools_append_only(grown, (pending_calls - 1) as nat, replies.skip(1));
        lemma_extends_trans(
            run_tools(grown, (pending_calls - 1) as nat, replies.skip(1)).0,
            grown,
            history,
        );
    }
}

/// Law: within one resolved turn the coordinator only appends — whatever the
/// collaborators answered and however the turn ended, the final history
/// begins with the starting history, with no stored message reordered or
/// removed.
pub proof fn lemma_history_append_only(
    history: Seq<MessageView>,
    pending: Seq<MessageView>,
    replies: Seq<ReplyView>,
    tool_replies: Seq<ToolReplyView>,
    budget: nat,
)
    ensures
        extends(resolve_from(history, pending, replies, tool_replies, budget).0, history),
    decreases budget,
{
    if budget == 0 || replies.len() == 0 || replies[0] is Failed {
        assert(history.take(history.len() as int) =~= history);
    } else {
        let fragments = replies[0]->Stream_0;
        let calls = turn_calls(fragments);
        let grown = history + pending + seq![assistant_view(turn_content(fragments), calls)];
        assert(grown.take(history.len() as int) =~= history);
        if calls.len() == 0 {
        } else {
            let batch = run_tools(grown, calls.len(), tool_replies);
            lemma_run_tools_append_only(grown, calls.len(), tool_replies);
            lemma_extends_trans(batch.0, grown, history);
            if batch.1 {
                lemma_history_append_only(
                    batch.0,
                    Seq::empty(),
                    replies.skip(1),
                    tool_replies.skip(calls.len() as int),
                    (budget - 1) as nat,
                );
                lemma_extends_trans(
                    resolve_from(
                        batch.0,
                        Seq::empty(),
                        replies.skip(1),
                        tool_replies.skip(calls.len() as int),
                        (budget - 1) as nat,
                    ).0,
                    batch.0,
                    history,
                );
            }
        }
    }
}

/// How many tool invocations one service reply carries.
pub open spec fn round_call_count(reply: ReplyView) -> nat {
    match reply {
        ReplyView::Stream(fragments) => turn_calls(fragments).len(),
        ReplyView::Failed => 0,
    }
}

/// The tool invocations carried by the first `rounds` replies together.
pub open spec fn calls_in_prefix(replies: Seq<ReplyView>, rounds: nat) -> nat
    decreases rounds,
{
    if rounds == 0 || replies.len() == 0 {
        0
    } else {
        round_call_count(replies[0]) + calls_in_prefix(replies.skip(1), (rounds - 1) as nat)
    }
}

proof fn lemma_run_tools_all_output(
    history: Seq<MessageView>,
    pending_calls: nat,
    replies: Seq<ToolReplyView>,
)
    requires
        pending_calls <= replies.len(),
        forall|j: int| 0 <= j < pending_calls ==> (#[trigger] replies[j]) is Output,
    ensures
        run_tools(history, pending_calls, replies).1 == true,
    decreases pending_calls,
{
    if pending_calls == 0 {
    } else {
        assert(replies[0] is Output);
        assert forall|j: int| 0 <= j < pending_calls - 1 implies (#[trigger] replies.skip(
            1,
        )[j]) is Output by {
            assert(replies.skip(1)[j] == replies[j + 1]);
        }
        lemma_run_tools_all_output(
            history.push(tool_view(replies[0]->Output_0)),
            (pending_calls - 1) as nat,
            replies.skip(1),
        );
    }
}

/// Law: recursive tool dispatch terminates within the iteration ceiling —
/// whenever the service produces a tool-call-free reply while budget remains,
/// after tool-calling replies only, and every tool dispatched before it
/// succeeds, the turn resolves with an assistant answer rather than an error.
pub proof fn lemma_eventual_resolution(
    history: Seq<MessageView>,
    pending: Seq<MessageView>,
    replies: Seq<ReplyView>,
    tool_replies: Seq<ToolReplyView>,
    budget: nat,
    quiet: nat,
)
    requires
        quiet < budget,
        quiet < replies.len(),
        forall|i: int| 0 <= i < quiet ==> (#[trigger] replies[i]) is Stream && round_call_count(
            replies[i],
        ) > 0,
        replies[quiet as int] is Stream && round_call_count(replies[quiet as int]) == 0,
        calls_in_prefix(replies, quiet) <= tool_replies.len(),
        forall|j: int| 0 <= j < calls_in_prefix(replies, quiet) ==> (#[trigger] tool_replies[j]) is Output,
    ensures
        resolve_from(history, pending, replies, tool_replies, budget).1 is Resolved,
    decreases quiet,
{
    if quiet == 0 {
        assert(turn_calls(replies[0]->Stream_0).len() == 0);
    } else {
        assert(replies[0] is Stream && round_call_count(replies[0]) > 0);
        let fragments = replies[0]->Stream_0;
        let calls = turn_calls(fragments);
        let dispatched = calls.len();
        let grown = history + pending + seq![assistant_view(turn_content(fragments), calls)];
        assert(calls_in_prefix(replies, quiet) == dispatched + calls_in_prefix(
            replies.skip(1),
            (quiet - 1) as nat,
        ));
        lemma_run_tools_all_output(grown, dispatched, tool_replies);
        let batch = run_tools(grown, dispatched, tool_replies);
        assert forall|i: int| 0 <= i < quiet - 1 implies (#[trigger] replies.skip(1)[i]) is Stream
            && round_call_count(replies.skip(1)[i]) > 0 by {
            assert(replies.skip(1)[i] == replies[i + 1]);
        }
        assert(replies.skip(1)[quiet - 1] == replies[quiet as int]);
        assert forall|j: int|
            0 <= j < calls_in_prefix(replies.skip(1), (quiet - 1) as nat) implies (#[trigger] tool_replies.skip(
            dispatched as int,
        )[j]) is Output by {
            assert(tool_replies.skip(dispatched as int)[j] == tool_replies[j + dispatched]);
        }
        lemma_eventual_resolution(
            batch.0,
            Seq::empty(),
            replies.skip(1),
            tool_replies.skip(dispatched as int),
            (budget - 1) as nat,
            (quiet - 1) as nat,
        );
    }
}

impl Coordinator {
    /// A coordinator without tools: empty descriptor set, default options,
    /// debug off, no format constraint.
    pub fn new(model: String, history: Vec<ChatMessage>) -> (r: Self)
        ensures
            r.model == model,
            r.history == history,
            r.options@ == Seq::<(Seq<char>, Seq<char>)>::empty(),
            r.tools@ == Seq::<ToolDescriptor>::empty(),
            r.debug == false,
            r.format is None,
            r.iterations_left == ITERATION_CEILING,
    {
        let r = Coordinator {
            model,
            options: ModelOptions::default(),
            history,
            tools: Vec::new(),
            debug: false,
            format: None,
            iterations_left: ITERATION_CEILING,
        };
        proof {
            assert(r.tools@ =~= Seq::<ToolDescriptor>::empty());
        }
        r
    }

    /// A coordinator with the given tool descriptors; otherwise as
    /// [`Coordinator::new`].
    pub fn new_with_tools(model: String, history: Vec<ChatMessage>, tools: Vec<ToolDescriptor>) -> (r:
        Self)
        ensures
            r.model == model,
            r.history == history,
            r.options@ == Seq::<(Seq<char>, Seq<char>)>::empty(),
            r.tools == tools,
            r.debug == false,
            r.format is None,
            r.iterations_left == ITERATION_CEILING,
    {
        Coordinator {
            model,
            options: ModelOptions::default(),
            history,
            tools,
            debug: false,
            format: None,
            iterations_left: ITERATION_CEILING,
        }
    }

    /// The same coordinator with the format constraint configured.
    pub fn format(self, format: FormatType) -> (r: Self)
        ensures
            r.format == Some(format),
            r.model == self.model,
            r.options == self.options,
            r.history == self.history,
            r.tools == self.tools,
            r.debug == self.debug,
            r.iterations_left == self.iterations_left,
    {
        Coordinator { format: Some(format), ..self }
    }

    /// The same coordinator with the generation options replaced.
    pub fn options(self, options: ModelOptions) -> (r: Self)
        ensures
            r.options == options,
            r.model == self.model,
            r.history == self.history,
            r.tools == self.tools,
            r.debug == self.debug,
            r.format == self.format,
            r.iterations_left == self.iterations_left,
    {
        Coordinator { options, ..self }
    }

    /// The same coordinator with the debug flag set.
    pub fn debug(self, debug: bool) -> (r: Self)
        ensures
            r.debug == debug,
            r.model == self.model,
            r.options == self.options,
            r.history == self.history,
            r.tools == self.tools,
            r.format == self.format,
            r.iterations_left == self.iterations_left,
    {
        Coordinator { debug, ..self }
    }

    /// A handle on the stored history, for external inspection.
    pub fn history(&self) -> (r: &Vec<ChatMessage>)
        ensures
            *r == self.history,
    {
        &self.history
    }

    /// Open a fresh turn: restore the full round budget.
    pub fn begin_turn(&mut self)
        ensures
            same_identity(*final(self), *old(self)),
            final(self).history == old(self).history,
            final(self).iterations_left == ITERATION_CEILING,
    {
        self.iterations_left = ITERATION_CEILING;
    }

    /// Whether the next request must carry the format constraint: one must be
    /// configured, and the policy must admit it against the current history.
    fn attach_format(&self) -> (r: bool)
        ensures
            r == (self.format is Some && format_applies(
                self.tools@.len() > 0,
                last_role_of(message_views(self.history@)),
            )),
    {
        match &self.format {
            None => false,
            Some(_) => {
                if self.tools.len() == 0 {
                    true
                } else if self.history.len() == 0 {
                    proof {
                        assert(message_views(self.history@).len() == 0);
                    }
                    false
                } else {
                    let last = &self.history[self.history.len() - 1];
                    proof {
                        assert(message_views(self.history@).last() == self.history@.last()@);
                    }
                    last.role.is_tool()
                }
            },
        }
    }

    /// Spend one round of the budget and build the request for it: the
    /// coordinator's model and options, the pending messages, the registered
    /// tool descriptors, and the format constraint exactly when the policy
    /// admits it. Fails with `IterationLimitExceeded`, changing nothing, once
    /// the budget is gone.
    pub fn next_request(&mut self, new_messages: &Vec<ChatMessage>) -> (r: Result<
        ChatRequest,
        CoordinatorError,
    >)
        ensures
            old(self).iterations_left == 0 ==> (r == Err::<ChatRequest, CoordinatorError>(
                CoordinatorError::IterationLimitExceeded,
            ) && *final(self) == *old(self)),
            old(self).iterations_left > 0 ==> ({
                &&& same_identity(*final(self), *old(self))
                &&& final(self).history == old(self).history
                &&& final(self).iterations_left == old(self).iterations_left - 1
                &&& r matches Ok(q) && ({
                    &&& q.model@ == old(self).model@
                    &&& message_views(q.messages@) == message_views(new_messages@)
                    &&& q.options@ == old(self).options@
                    &&& q.tools@ == old(self).tools@
                    &&& q.format == (if old(self).format is Some && format_applies(
                        old(self).tools@.len() > 0,
                        last_role_of(message_views(old(self).history@)),
                    ) {
                        old(self).format
                    } else {
                        None::<FormatType>
                    })
                })
            }),
    {
        if self.iterations_left == 0 {
            return Err(CoordinatorError::IterationLimitExceeded);
        }
        self.iterations_left = self.iterations_left - 1;
        let attach = self.attach_format();
        let format: Option<FormatType> = if attach {
            match &self.format {
                Some(f) => Some(f.clone()),
                None => None,
            }
        } else {
            None
        };
        let messages = new_messages.clone();
        proof {
            assert forall|i: int| 0 <= i < new_messages@.len() implies messages@[i]@
                == new_messages@[i]@ by {
                assert(cloned::<ChatMessage>(new_messages@[i], messages@[i]));
            }
            assert(message_views(messages@) =~= message_views(new_messages@));
        }
        let tools = self.tools.clone();
        proof {
            assert forall|i: int| 0 <= i < self.tools@.len() implies tools@[i] == self.tools@[i] by {
                assert(cloned::<ToolDescriptor>(self.tools@[i], tools@[i]));
            }
            assert(tools@ =~= self.tools@);
        }
        Ok(
            ChatRequest {
                model: self.model.clone(),
                messages,
                options: self.options.clone(),
                tools,
                format,
            },
        )
    }

    /// Take the service's answer to the request built for `new_messages`:
    /// on a streamed reply, append the pending messages and the assembled
    /// assistant message to the history and report either the finished turn
    /// or the tool invocations it requests; on a transport failure, change
    /// nothing and surface the error.
    pub fn absorb_reply(&mut self, new_messages: Vec<ChatMessage>, reply: &ServiceReply) -> (r:
        Result<RoundOutcome, CoordinatorError>)
        ensures
            same_identity(*final(self), *old(self)),
            final(self).iterations_left == old(self).iterations_left,
            match *reply {
                ServiceReply::Failed => r == Err::<RoundOutcome, CoordinatorError>(
                    CoordinatorError::Transport,
                ) && *final(self) == *old(self),
                ServiceReply::Stream(ref fragments) => ({
                    let content = turn_content(crate::stream::fragment_views(fragments@));
                    let calls = turn_calls(crate::stream::fragment_views(fragments@));
                    &&& message_views(final(self).history@) == message_views(old(self).history@)
                        + message_views(new_messages@) + seq![assistant_view(content, calls)]
                    &&& if calls.len() == 0 {
                        r matches Ok(RoundOutcome::Final(t)) && t.model@ == old(self).model@
                            && t.created_at@ == Seq::<char>::empty() && t.done == true && t.message@
                            == assistant_view(content, calls)
                    } else {
                        r matches Ok(RoundOutcome::PendingCalls(cs)) && call_views(cs@) == calls
                    }
                }),
            },
    {
        match reply {
            ServiceReply::Failed => Err(CoordinatorError::Transport),
            ServiceReply::Stream(fragments) => {
                let ghost history_before = message_views(self.history@);
                let ghost incoming_views = message_views(new_messages@);
                let (content, calls) = accumulate(fragments);
                let mut incoming = new_messages;
                self.history.append(&mut incoming);
                if calls.len() == 0 {
                    let message = ChatMessage {
                        role: MessageRole::Assistant,
                        content,
                        tool_calls: calls,
                    };
                    self.history.push(message.clone());
                    proof {
                        assert(message_views(self.history@) =~= history_before + incoming_views
                            + seq![message@]);
                        assert(message@.tool_calls =~= turn_calls(
                            crate::stream::fragment_views(fragments@),
                        ));
                    }
                    Ok(
                        RoundOutcome::Final(
                            ResolvedTurn {
                                model: self.model.clone(),
                                created_at: String::new(),
                                message,
                                done: true,
                            },
                        ),
                    )
                } else {
                    let message = ChatMessage {
                        role: MessageRole::Assistant,
                        content,
                        tool_calls: clone_calls(&calls),
                    };
                    self.history.push(message);
                    proof {
                        assert(message_views(self.history@) =~= history_before + incoming_views
                            + seq![
                                assistant_view(
                                    turn_content(crate::stream::fragment_views(fragments@)),
                                    turn_calls(crate::stream::fragment_views(fragments@)),
                                ),
                            ]);
                    }
                    Ok(RoundOutcome::PendingCalls(calls))
                }
            },
        }
    }

    /// Take one dispatched tool's outcome: append a tool-role message with
    /// its result, or change nothing and surface the failure.
    pub fn absorb_tool_reply(&mut self, reply: &ToolReply) -> (r: Result<(), CoordinatorError>)
        ensures
            same_identity(*final(self), *old(self)),
            final(self).iterations_left == old(self).iterations_left,
            match *reply {
                ToolReply::Failed => r == Err::<(), CoordinatorError>(
                    CoordinatorError::ToolExecution,
                ) && *final(self) == *old(self),
                ToolReply::Output(ref text) => r == Ok::<(), CoordinatorError>(()) && message_views(
                    final(self).history@,
                ) == message_views(old(self).history@).push(tool_view(text@)),
            },
    {
        match reply {
            ToolReply::Failed => Err(CoordinatorError::ToolExecution),
            ToolReply::Output(text) => {
                let ghost history_before = message_views(self.history@);
                self.history.push(ChatMessage::tool(text.clone()));
                proof {
                    assert(message_views(self.history@) =~= history_before.push(tool_view(text@)));
                }
                Ok(())
            },
        }
    }

    /// Resolve one whole turn against recorded collaborator behaviour:
    /// `replies` answers the successive service requests and `tool_replies`
    /// the successive tool dispatches, in order. The result and the final
    /// history are exactly what [`resolve_from`] says of the starting state
    /// and the transcripts.
    #[verifier::loop_isolation(false)]
    pub fn chat(
        &mut self,
        new_messages: Vec<ChatMessage>,
        replies: &Vec<ServiceReply>,
        tool_replies: &Vec<ToolReply>,
    ) -> (r: Result<ResolvedTurn, CoordinatorError>)
        ensures
            same_identity(*final(self), *old(self)),
            ({
                let outcome = resolve_from(
                    message_views(old(self).history@),
                    message_views(new_messages@),
                    reply_views(replies@),
                    tool_reply_views(tool_replies@),
                    ITERATION_CEILING as nat,
                );
                &&& message_views(final(self).history@) == outcome.0
                &&& match outcome.1 {
                    TurnOutcome::Resolved(content) => r matches Ok(t) && t.model@ == old(
                        self,
                    ).model@ && t.created_at@ == Seq::<char>::empty() && t.done == true
                        && t.message@ == assistant_view(content, Seq::empty()),
                    TurnOutcome::Failed(e) => r == Err::<ResolvedTurn, CoordinatorError>(e),
                }
            }),
    {
        let ghost orig = *old(self);
        let ghost rvs = reply_views(replies@);
        let ghost tvs = tool_reply_views(tool_replies@);
        let ghost goal = resolve_from(
            message_views(orig.history@),
            message_views(new_messages@),
            rvs,
            tvs,
            ITERATION_CEILING as nat,
        );
        if self.debug {
            let mut di: usize = 0;
            while di < new_messages.len()
                invariant
                    di <= new_messages.len(),
                decreases new_messages.len() - di,
            {
                crate::sink::debug_note(self.model.as_str(), &new_messages[di]);
                di = di + 1;
            }
        }
        self.begin_turn();
        let mut pending = new_messages;
        let mut ri: usize = 0;
        let mut ti: usize = 0;
        proof {
            assert(rvs.skip(0) =~= rvs);
            assert(tvs.skip(0) =~= tvs);
        }
        loop
            invariant
                ri <= replies@.len(),
                ti <= tool_replies@.len(),
                rvs == reply_views(replies@),
                tvs == tool_reply_views(tool_replies@),
                same_identity(*self, orig),
                goal == resolve_from(
                    message_views(self.history@),
                    message_views(pending@),
                    rvs.skip(ri as int),
                    tvs.skip(ti as int),
                    self.iterations_left as nat,
                ),
            decreases self.iterations_left,
        {
            let ghost budget_head = self.iterations_left;
            let ghost history_head = message_views(self.history@);
            let ghost pending_head = message_views(pending@);
            let ghost ri_head = ri;
            let ghost ti_head = ti;
            match self.next_request(&pending) {
                Err(e) => {
                    return Err(e);
                },
                Ok(_request) => {
                    // the reply transcript stands in for the service's answer
                },
            }
            if ri == replies.len() {
                proof {
                    assert(rvs.skip(ri as int).len() == 0);
                }
                return Err(CoordinatorError::Transport);
            }
            let reply = &replies[ri];
            proof {
                assert(rvs.skip(ri as int)[0] == rvs[ri as int]);
                assert(rvs[ri as int] == replies@[ri as int]@);
            }
            ri = ri + 1;
            let cur = pending;
            pending = Vec::new();
            match self.absorb_reply(cur, reply) {
                Err(e) => {
                    return Err(e);
                },
                Ok(RoundOutcome::Final(turn)) => {
                    proof {
                        let fragments = rvs.skip(ri_head as int)[0]->Stream_0;
                        assert(turn_calls(fragments) =~= Seq::<CallView>::empty());
                    }
                    return Ok(turn);
                },
                Ok(RoundOutcome::PendingCalls(calls)) => {
                    let ghost batch_start = message_views(self.history@);
                    let ghost ncalls = call_views(calls@).len();
                    proof {
                        let reply_v = rvs.skip(ri_head as int)[0];
                        assert(reply_v == (*reply)@);
                        assert(reply_v is Stream);
                        let fragments = reply_v->Stream_0;
                        let content = turn_content(fragments);
                        let calls_v = turn_calls(fragments);
                        assert(call_views(calls@) == calls_v);
                        assert(calls_v.len() > 0);
                        let grown = history_head + pending_head + seq![
                            assistant_view(content, calls_v),
                        ];
                        assert(batch_start == grown);
                        assert(resolve_from(
                            history_head,
                            pending_head,
                            rvs.skip(ri_head as int),
                            tvs.skip(ti_head as int),
                            budget_head as nat,
                        ) == ({
                            let batch = run_tools(grown, calls_v.len(), tvs.skip(ti_head as int));
                            if !batch.1 {
                                (batch.0, TurnOutcome::Failed(CoordinatorError::ToolExecution))
                            } else {
                                resolve_from(
                                    batch.0,
                                    Seq::empty(),
                                    rvs.skip(ri_head as int).skip(1),
                                    tvs.skip(ti_head as int).skip(calls_v.len() as int),
                                    (budget_head - 1) as nat,
                                )
                            }
                        }));
                        assert(rvs.skip(ri_head as int).skip(1) =~= rvs.skip(ri as int));
                        assert(message_views(pending@) =~= Seq::<MessageView>::empty());
                    }
                    let mut k: usize = 0;
                    while k < calls.len()
                        invariant
                            k <= calls.len(),
                            ti <= tool_replies@.len(),
                            ti == ti_head + k,
                            ri <= replies@.len(),
                            rvs == reply_views(replies@),
                            tvs == tool_reply_views(tool_replies@),
                            same_identity(*self, orig),
                            self.iterations_left == budget_head - 1,
                            budget_head > 0,
                            ncalls == calls@.len(),
                            pending@.len() == 0,
                            run_tools(batch_start, ncalls, tvs.skip(ti_head as int)) == run_tools(
                                message_views(self.history@),
                                (ncalls - k) as nat,
                                tvs.skip(ti as int),
                            ),
                            goal == ({
                                let batch = run_tools(batch_start, ncalls, tvs.skip(ti_head as int));
                                if !batch.1 {
                                    (batch.0, TurnOutcome::Failed(CoordinatorError::ToolExecution))
                                } else {
                                    resolve_from(
                                        batch.0,
                                        Seq::empty(),
                                        rvs.skip(ri as int),
                                        tvs.skip(ti_head as int).skip(ncalls as int),
                                        (budget_head - 1) as nat,
                                    )
                                }
                            }),
                        decreases calls.len() - k,
                    {
                        if ti == tool_replies.len() {
                            proof {
                                assert(tvs.skip(ti as int).len() == 0);
                            }
                            return Err(CoordinatorError::ToolExecution);
                        }
                        let tool_reply = &tool_replies[ti];
                        proof {
                            assert(tvs.skip(ti as int)[0] == tvs[ti as int]);
                            assert(tvs[ti as int] == tool_replies@[ti as int]@);
                            assert(tvs.skip(ti as int).skip(1) =~= tvs.skip(ti as int + 1));
                        }
                        ti = ti + 1;
                        match self.absorb_tool_reply(tool_reply) {
                            Err(e) => {
                                return Err(e);
                            },
                            Ok(()) => {},
                        }
                        k = k + 1;
                    }
                    proof {
                        assert(tvs.skip(ti_head as int).skip(ncalls as int) =~= tvs.skip(
                            ti as int,
                        ));
                    }
                },
            }
        }
    }
}

} // verus!
