//! Streamed responses: incremental fragments, their accumulation into one
//! assistant reply, and the events that outside collaborators hand back.

use vstd::prelude::*;
use vstd::string::StringExecFns;

use crate::message::{call_views, CallView, ToolCall};

verus! {

/// One incremental delta of a streamed response: a piece of content, any tool
/// invocations announced with it, and a flag marking the terminal fragment.
pub struct ResponseFragment {
    pub delta: String,
    pub tool_calls: Vec<ToolCall>,
    pub done: bool,
}

/// Mathematical image of a [`ResponseFragment`].
pub struct FragmentView {
    pub delta: Seq<char>,
    pub tool_calls: Seq<CallView>,
    pub done: bool,
}

impl View for ResponseFragment {
    type V = FragmentView;

    open spec fn view(&self) -> FragmentView {
        FragmentView {
            delta: self.delta@,
            tool_calls: self.tool_calls@.map_values(|c: ToolCall| c@),
            done: self.done,
        }
    }
}

/// The views of a fragment sequence, in order.
pub open spec fn fragment_views(fragments: Seq<ResponseFragment>) -> Seq<FragmentView> {
    fragments.map_values(|f: ResponseFragment| f@)
}

/// The remote service's answer to one request: either a finite, ordered
/// fragment stream, or a transport failure before any fragment arrived.
pub enum ServiceReply {
    Stream(Vec<ResponseFragment>),
    Failed,
}

/// Mathematical image of a [`ServiceReply`].
pub enum ReplyView {
    Stream(Seq<FragmentView>),
    Failed,
}

impl View for ServiceReply {
    type V = ReplyView;

    open spec fn view(&self) -> ReplyView {
        match self {
            ServiceReply::Stream(fragments) => ReplyView::Stream(fragment_views(fragments@)),
            ServiceReply::Failed => ReplyView::Failed,
        }
    }
}

/// The views of a sequence of service replies, in order.
pub open spec fn reply_views(replies: Seq<ServiceReply>) -> Seq<ReplyView> {
    replies.map_values(|r: ServiceReply| r@)
}

/// A dispatched tool's outcome: its textual result, or failure.
pub enum ToolReply {
    Output(String),
    Failed,
}

/// Mathematical image of a [`ToolReply`].
pub enum ToolReplyView {
    Output(Seq<char>),
    Failed,
}

impl View for ToolReply {
    type V = ToolReplyView;

    open spec fn view(&self) -> ToolReplyView {
        match self {
            ToolReply::Output(text) => ToolReplyView::Output(text@),
            ToolReply::Failed => ToolReplyView::Failed,
        }
    }
}

/// The views of a sequence of tool replies, in order.
pub open spec fn tool_reply_views(replies: Seq<ToolReply>) -> Seq<ToolReplyView> {
    replies.map_values(|r: ToolReply| r@)
}

/// The content of a consumed stream: fragment deltas concatenated in arrival
/// order, up to and including the first terminal fragment; the whole stream
/// when no fragment is terminal.
pub open spec fn turn_content(fragments: Seq<FragmentView>) -> Seq<char>
    decreases fragments.len(),
{
    if fragments.len() == 0 {
        Seq::empty()
    } else if fragments[0].done {
        fragments[0].delta
    } else {
        fragments[0].delta + turn_content(fragments.skip(1))
    }
}

/// The tool invocations of a consumed stream, gathered in arrival order over
/// the same prefix as [`turn_content`].
pub open spec fn turn_calls(fragments: Seq<FragmentView>) -> Seq<CallView>
    decreases fragments.len(),
{
    if fragments.len() == 0 {
        Seq::empty()
    } else if fragments[0].done {
        fragments[0].tool_calls
    } else {
        fragments[0].tool_calls + turn_calls(fragments.skip(1))
    }
}

/// Every fragment's delta concatenated, terminal or not.
pub open spec fn all_deltas(fragments: Seq<FragmentView>) -> Seq<char>
    decreases fragments.len(),
{
    if fragments.len() == 0 {
        Seq::empty()
    } else {
        fragments[0].delta + all_deltas(fragments.skip(1))
    }
}

/// Law: when no fragment before the last is terminal — in particular for a
/// stream whose last fragment alone is marked terminal — the accumulated turn
/// content is the concatenation of every fragment's delta, in order.
pub proof fn lemma_terminal_stream_content(fragments: Seq<FragmentView>)
    requires
        forall|i: int| 0 <= i < fragments.len() - 1 ==> !(#[trigger] fragments[i]).done,
    ensures
        turn_content(fragments) == all_deltas(fragments),
    decreases fragments.len(),
{
    if fragments.len() == 0 {
    } else if fragments[0].done {
        assert(fragments.len() == 1);
        assert(fragments.skip(1).len() == 0);
        assert(fragments[0].delta + all_deltas(fragments.skip(1)) =~= fragments[0].delta);
    } else {
        assert forall|i: int| 0 <= i < fragments.skip(1).len() - 1 implies !(#[trigger] fragments.skip(
            1,
        )[i]).done by {
            assert(fragments.skip(1)[i] == fragments[i + 1]);
        }
        lemma_terminal_stream_content(fragments.skip(1));
    }
}

/// Copy a tool-call list; the copy equals its source, element for element.
pub(crate) fn clone_calls(calls: &Vec<ToolCall>) -> (r: Vec<ToolCall>)
    ensures
        r@ == calls@,
{
    let r = calls.clone();
    proof {
        assert forall|i: int| 0 <= i < calls@.len() implies r@[i] == calls@[i] by {
            assert(cloned::<ToolCall>(calls@[i], r@[i]));
        }
        assert(r@ =~= calls@);
    }
    r
}

/// Consume a fragment stream in arrival order: each delta is written through
/// to the live output sink as it is taken, and accumulation stops at the
/// first terminal fragment. Returns the accumulated content and the gathered
/// tool invocations.
pub fn accumulate(fragments: &Vec<ResponseFragment>) -> (r: (String, Vec<ToolCall>))
    ensures
        r.0@ == turn_content(fragment_views(fragments@)),
        call_views(r.1@) == turn_calls(fragment_views(fragments@)),
{
    let ghost fv = fragment_views(fragments@);
    let mut content = String::new();
    let mut calls: Vec<ToolCall> = Vec::new();
    let mut i: usize = 0;
    let mut finished = false;
    proof {
        assert(fv.skip(0) =~= fv);
        assert(Seq::<char>::empty() + turn_content(fv) =~= turn_content(fv));
        assert(call_views(calls@) =~= Seq::<CallView>::empty());
        assert(Seq::<CallView>::empty() + turn_calls(fv) =~= turn_calls(fv));
    }
    while i < fragments.len() && !finished
        invariant
            i <= fragments.len(),
            fv == fragment_views(fragments@),
            !finished ==> turn_content(fv) == content@ + turn_content(fv.skip(i as int)),
            !finished ==> turn_calls(fv) == call_views(calls@) + turn_calls(fv.skip(i as int)),
            finished ==> turn_content(fv) == content@,
            finished ==> turn_calls(fv) == call_views(calls@),
        decreases fragments.len() - i,
    {
        let fragment = &fragments[i];
        crate::sink::emit_delta(fragment.delta.as_str());
        let ghost content_before = content@;
        let ghost calls_before = calls@;
        content.append(fragment.delta.as_str());
        let mut gathered = clone_calls(&fragment.tool_calls);
        calls.append(&mut gathered);
        if fragment.done {
            finished = true;
        }
        proof {
            assert(fv.skip(i as int)[0] == fv[i as int]);
            assert(fv[i as int] == fragments@[i as int]@);
            assert(fv.skip(i as int).skip(1) =~= fv.skip(i as int + 1));
            assert(call_views(calls@) =~= call_views(calls_before) + call_views(
                fragment.tool_calls@,
            ));
        }
        i = i + 1;
    }
    proof {
        if !finished {
            assert(fv.skip(i as int).len() == 0);
            assert(content@ + Seq::<char>::empty() =~= content@);
            assert(call_views(calls@) + Seq::<CallView>::empty() =~= call_views(calls@));
        }
    }
    (content, calls)
}

} // verus!
