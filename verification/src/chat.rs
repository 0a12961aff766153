//! The conversation loop's state: an ordered, append-only transcript, and
//! the transitions of one turn. A model reply is appended verbatim; a reply
//! carrying a tool invocation is dispatched and the tool's message appended;
//! a reply without one ends the loop. The transcript invariant holds
//! throughout: every tool message is preceded by an assistant message that
//! requested that tool.
use vstd::prelude::*;

verus! {

use crate::function::CallableFunctionList;
use crate::function::DispatchError;
use crate::function::FunctionCall;
use crate::function::PendingInvocation;
use crate::function::ToolEntryModel;
use crate::function::dispatch_post;
use crate::json::JsonObject;
use crate::json::encode_object;

/// Who a transcript message is attributed to.
#[derive(Clone, Copy, PartialEq, Eq, Structural)]
pub enum Role {
    System,
    User,
    Assistant,
    Function,
}

/// One transcript message: its role, optional text, the tool name a tool
/// message is attributed to, and the invocation an assistant reply requests.
pub struct Message {
    pub role: Role,
    pub content: Option<String>,
    pub name: Option<String>,
    pub function_call: Option<FunctionCall>,
}

/// The mathematical model of a transcript message.
pub struct MessageModel {
    pub role: Role,
    pub content: Option<Seq<char>>,
    pub name: Option<Seq<char>>,
    pub function_call: Option<(Seq<char>, Seq<char>)>,
}

impl View for Message {
    type V = MessageModel;

    open spec fn view(&self) -> MessageModel {
        MessageModel {
            role: self.role,
            content: self.content.deep_view(),
            name: self.name.deep_view(),
            function_call: match self.function_call {
                None => None,
                Some(c) => Some((c.name@, c.arguments@)),
            },
        }
    }
}

/// Whether some assistant message in the transcript requests the named tool.
pub open spec fn transcript_has_call(ms: Seq<MessageModel>, n: Seq<char>) -> bool {
    exists|j: int| 0 <= j < ms.len() && (#[trigger] ms[j]).role is Assistant
        && (ms[j].function_call matches Some(c) && c.0 == n)
}

/// The transcript invariant: a tool message never appears without an earlier
/// assistant message requesting the tool it is attributed to.
pub open spec fn transcript_wf(ms: Seq<MessageModel>) -> bool {
    forall|i: int| 0 <= i < ms.len() && (#[trigger] ms[i]).role is Function ==> (ms[i].name
        matches Some(n) && transcript_has_call(ms.take(i), n))
}

/// Appending any message that is not a tool message keeps the transcript
/// well formed.
pub proof fn lemma_wf_push_non_tool(ms: Seq<MessageModel>, m: MessageModel)
    requires
        transcript_wf(ms),
        !(m.role is Function),
    ensures
        transcript_wf(ms.push(m)),
{
    let ext = ms.push(m);
    assert forall|i: int| 0 <= i < ext.len() && (#[trigger] ext[i]).role is Function implies (
    ext[i].name matches Some(n) && transcript_has_call(ext.take(i), n)) by {
        assert(i < ms.len());
        assert(ext[i] == ms[i]);
        assert(ext.take(i) =~= ms.take(i));
    }
}

/// Appending a tool message whose tool some assistant message already
/// requested keeps the transcript well formed.
pub proof fn lemma_wf_push_tool(ms: Seq<MessageModel>, m: MessageModel)
    requires
        transcript_wf(ms),
        m.role is Function,
        m.name matches Some(n) && transcript_has_call(ms, n),
    ensures
        transcript_wf(ms.push(m)),
{
    let ext = ms.push(m);
    assert forall|i: int| 0 <= i < ext.len() && (#[trigger] ext[i]).role is Function implies (
    ext[i].name matches Some(n) && transcript_has_call(ext.take(i), n)) by {
        if i < ms.len() {
            assert(ext[i] == ms[i]);
            assert(ext.take(i) =~= ms.take(i));
        } else {
            assert(ext[i] == m);
            assert(ext.take(i) =~= ms);
        }
    }
}

/// What one model reply leads to: the loop is done, a typed invocation is
/// owed to the host, or the dispatch failed and the turn is fatal.
pub enum TurnOutcome {
    Done,
    Invoke(PendingInvocation),
    Failed(DispatchError),
}

/// What [`Chat::handle_model_reply`] owes for the reply's invocation, if
/// any: exactly the dispatcher's verdict on it.
pub open spec fn reply_post(
    entries: Seq<ToolEntryModel>,
    call: Option<(Seq<char>, Seq<char>)>,
    r: TurnOutcome,
) -> bool {
    match call {
        None => r is Done,
        Some(c) => !(r is Done) && (match r {
            TurnOutcome::Done => false,
            TurnOutcome::Invoke(p) => dispatch_post(entries, c.0, c.1, Ok(p)),
            TurnOutcome::Failed(e) => dispatch_post(entries, c.0, c.1, Err(e)),
        }),
    }
}

/// One conversation with the model: the transcript it is driven by, the
/// model's identifier, and the registry of tools advertised every turn.
pub struct Chat {
    pub model: String,
    pub messages: Vec<Message>,
    pub functions: CallableFunctionList,
}

impl Chat {
    /// The transcript's model.
    pub open spec fn transcript(&self) -> Seq<MessageModel> {
        self.messages@.map_values(|m: Message| m@)
    }

    /// The conversation's invariant.
    pub open spec fn wf(&self) -> bool {
        transcript_wf(self.transcript())
    }

    pub fn new(model: String, functions: CallableFunctionList) -> (r: Chat)
        ensures
            r.transcript() == Seq::<MessageModel>::empty(),
            r.functions == functions,
            r.model@ == model@,
            r.wf(),
    {
        let r = Chat { model, messages: Vec::new(), functions };
        proof {
            assert(r.transcript() =~= Seq::<MessageModel>::empty());
        }
        r
    }

    /// Start the transcript over with one system message.
    pub fn reset_with_system(&mut self, prompt: String)
        ensures
            final(self).transcript() == seq![
                MessageModel {
                    role: Role::System,
                    content: Some(prompt@),
                    name: None,
                    function_call: None,
                },
            ],
            final(self).wf(),
            final(self).functions == old(self).functions,
            final(self).model == old(self).model,
    {
        let mut v: Vec<Message> = Vec::new();
        v.push(Message { role: Role::System, content: Some(prompt), name: None, function_call: None });
        self.messages = v;
        proof {
            let t = self.transcript();
            assert(t =~= seq![self.messages@[0]@]);
            assert forall|i: int| 0 <= i < t.len() && (#[trigger] t[i]).role is Function implies (
            t[i].name matches Some(n) && transcript_has_call(t.take(i), n)) by {}
        }
    }

    /// Open a turn: append the operator's instruction as a user message.
    pub fn push_user_message(&mut self, text: String)
        requires
            old(self).wf(),
        ensures
            final(self).transcript() == old(self).transcript().push(
                MessageModel {
                    role: Role::User,
                    content: Some(text@),
                    name: None,
                    function_call: None,
                },
            ),
            final(self).wf(),
            final(self).functions == old(self).functions,
            final(self).model == old(self).model,
    {
        let ghost before = self.transcript();
        let m = Message { role: Role::User, content: Some(text), name: None, function_call: None };
        let ghost mm = m@;
        self.messages.push(m);
        proof {
            assert(self.transcript() =~= before.push(mm));
            lemma_wf_push_non_tool(before, mm);
        }
    }

    /// Take one model reply: append it verbatim, and decide the turn. The
    /// loop is done exactly when the reply carries no tool invocation;
    /// otherwise the invocation is dispatched and either a typed call is
    /// owed to the host or the dispatch failure ends the run.
    pub fn handle_model_reply(&mut self, reply: Message) -> (r: TurnOutcome)
        requires
            old(self).wf(),
            reply.role is Assistant,
        ensures
            final(self).transcript() == old(self).transcript().push(reply@),
            final(self).wf(),
            final(self).functions == old(self).functions,
            final(self).model == old(self).model,
            r is Done <==> reply.function_call is None,
            reply_post(old(self).functions@, reply@.function_call, r),
            r matches TurnOutcome::Invoke(p) ==> transcript_has_call(
                final(self).transcript(),
                p.name@,
            ),
    {
        let outcome = match &reply.function_call {
            None => TurnOutcome::Done,
            Some(call) => match self.functions.dispatch(call) {
                Ok(p) => TurnOutcome::Invoke(p),
                Err(e) => TurnOutcome::Failed(e),
            },
        };
        let ghost before = self.transcript();
        let ghost mm = reply@;
        self.messages.push(reply);
        proof {
            assert(self.transcript() =~= before.push(mm));
            lemma_wf_push_non_tool(before, mm);
            match &outcome {
                TurnOutcome::Invoke(p) => {
                    let t = self.transcript();
                    assert(t[t.len() - 1] == mm);
                    assert(transcript_has_call(t, p.name@));
                },
                _ => {},
            }
        }
        outcome
    }

    /// Close a dispatched turn: append the tool's message, attributed to the
    /// invoked tool, whose content is exactly the encoded result object.
    pub fn push_tool_message(&mut self, tool_name: String, output: JsonObject)
        requires
            old(self).wf(),
            transcript_has_call(old(self).transcript(), tool_name@),
        ensures
            final(self).transcript() == old(self).transcript().push(
                MessageModel {
                    role: Role::Function,
                    content: Some(encode_object(output@)),
                    name: Some(tool_name@),
                    function_call: None,
                },
            ),
            final(self).wf(),
            final(self).functions == old(self).functions,
            final(self).model == old(self).model,
    {
        let text = crate::json::encode_object_text(&output);
        let ghost before = self.transcript();
        let m = Message {
            role: Role::Function,
            content: Some(text),
            name: Some(tool_name),
            function_call: None,
        };
        let ghost mm = m@;
        self.messages.push(m);
        proof {
            assert(self.transcript() =~= before.push(mm));
            lemma_wf_push_tool(before, mm);
        }
    }
}

} // verus!
