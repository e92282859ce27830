//! One call over an extension session: which event leads to which action.
//!
//! The transport, the clocks and the callback handler live with the caller; it
//! reports each event and performs the action it is given.
use super::{
    fault_message, is_id, valid_id, ExtensionCall, ExtensionError, ExtensionKind, ExtensionMetadata, Fault, Message,
    MetadataView, Outcome, PROTOCOL_VERSION,
};
use crate::json::{Json, Tree};
use crate::text::{copied, joined, listed, same, texts};
use crate::time::Span;
use vstd::prelude::*;

verus! {

pub const MAX_CALLBACKS: usize = 64;
pub const MAX_MESSAGES: usize = 130;

pub enum MessageView {
    Hello { protocol_version: u32, expected_id: Seq<char>, kind: ExtensionKind },
    Ready { metadata: MetadataView },
    Call { id: Seq<char>, contract: Seq<char>, version: u32, method: Seq<char>, params: Tree, timeout_ms: u64 },
    Result { id: Seq<char>, result: Tree },
    Error { id: Seq<char>, code: Seq<char>, message: Seq<char>, outcome: Outcome },
    Callback { id: Seq<char>, parent_id: Seq<char>, method: Seq<char>, params: Tree },
    Cancel { id: Seq<char> },
}

impl View for Message {
    type V = MessageView;

    open spec fn view(&self) -> MessageView {
        match self {
            Message::Hello { protocol_version, expected_id, kind } => MessageView::Hello {
                protocol_version: *protocol_version,
                expected_id: expected_id@,
                kind: *kind,
            },
            Message::Ready { metadata } => MessageView::Ready { metadata: metadata@ },
            Message::Call { id, contract, version, method, params, timeout_ms } => MessageView::Call {
                id: id@,
                contract: contract@,
                version: *version,
                method: method@,
                params: params@,
                timeout_ms: *timeout_ms,
            },
            Message::Result { id, result } => MessageView::Result { id: id@, result: result@ },
            Message::Error { id, code, message, outcome } => MessageView::Error {
                id: id@,
                code: code@,
                message: message@,
                outcome: *outcome,
            },
            Message::Callback { id, parent_id, method, params } => MessageView::Callback {
                id: id@,
                parent_id: parent_id@,
                method: method@,
                params: params@,
            },
            Message::Cancel { id } => MessageView::Cancel { id: id@ },
        }
    }
}

/// What the caller does next.
pub enum Action {
    /// Nothing; wait for the next event.
    Wait,
    /// Send this message.
    Send(Message),
    /// Request cancellation of the call.
    Cancel,
    /// Run the callback handler.
    Callback { method: String, params: Json },
    /// The call is over.
    Finish(Result<Json, ExtensionError>),
}

pub enum ActionView {
    Wait,
    Send(MessageView),
    Cancel,
    Callback { method: Seq<char>, params: Tree },
    Finish(Result<Tree, Fault>),
}

pub open spec fn result_view(r: Result<Json, ExtensionError>) -> Result<Tree, Fault> {
    match r {
        Ok(v) => Ok(v@),
        Err(e) => Err(e@),
    }
}

impl View for Action {
    type V = ActionView;

    open spec fn view(&self) -> ActionView {
        match self {
            Action::Wait => ActionView::Wait,
            Action::Send(m) => ActionView::Send(m@),
            Action::Cancel => ActionView::Cancel,
            Action::Callback { method, params } => ActionView::Callback { method: method@, params: params@ },
            Action::Finish(r) => ActionView::Finish(result_view(*r)),
        }
    }
}

/// A call in progress.
pub struct CallState {
    id: String,
    has_handler: bool,
    cancelled: bool,
    count: usize,
    seen: Vec<String>,
    callback: Option<String>,
}

pub struct CallView {
    pub id: Seq<char>,
    pub has_handler: bool,
    pub cancelled: bool,
    /// Messages received so far.
    pub count: nat,
    /// Ids of the callbacks accepted so far.
    pub seen: Seq<Seq<char>>,
    /// The callback that is running.
    pub callback: Option<Seq<char>>,
}

impl View for CallState {
    type V = CallView;

    closed spec fn view(&self) -> CallView {
        CallView {
            id: self.id@,
            has_handler: self.has_handler,
            cancelled: self.cancelled,
            count: self.count as nat,
            seen: texts(self.seen@),
            callback: match self.callback {
                Some(c) => Some(c@),
                None => None,
            },
        }
    }
}

/// What every reachable call satisfies: callbacks are few, valid and distinct,
/// never named like the call itself, and a running one was accepted.
pub open spec fn orderly(c: CallView) -> bool {
    &&& c.seen.len() <= MAX_CALLBACKS
    &&& c.count <= MAX_MESSAGES + 1
    &&& c.seen.no_duplicates()
    &&& forall|i: int| 0 <= i < c.seen.len() ==> is_id(#[trigger] c.seen[i]) && c.seen[i] != c.id
    &&& c.callback is Some ==> c.seen.len() > 0 && c.callback == Some(c.seen.last()) && c.has_handler
}

/// A callback that may start now.
pub open spec fn admissible(c: CallView, callback_id: Seq<char>, parent_id: Seq<char>) -> bool {
    &&& parent_id == c.id
    &&& !c.cancelled
    &&& c.callback is None
    &&& is_id(callback_id)
    &&& callback_id != c.id
    &&& c.seen.len() < MAX_CALLBACKS
    &&& !c.seen.contains(callback_id)
}

pub open spec fn unexpected() -> Result<Tree, Fault> {
    Err(Fault::Protocol("unexpected, duplicate or uncorrelated message"@))
}

/// What a message leads to.
pub open spec fn received(c: CallView, message: MessageView) -> (CallView, ActionView) {
    let d = CallView { count: c.count + 1, ..c };
    if d.count > MAX_MESSAGES {
        (d, ActionView::Finish(Err(Fault::Protocol("message count exceeded"@))))
    } else {
        match message {
            MessageView::Result { id, result } => if id == c.id && c.callback is None {
                (d, ActionView::Finish(Ok(result)))
            } else {
                (d, ActionView::Finish(unexpected()))
            },
            MessageView::Error { id, code, message: text, outcome } => if id == c.id && c.callback is None {
                let full = code + ": "@ + text;
                (
                    d,
                    ActionView::Finish(
                        Err(
                            if outcome == Outcome::Rejected && c.seen.len() == 0 {
                                Fault::Rejected(full)
                            } else {
                                Fault::Unknown { call_id: c.id, message: full }
                            },
                        ),
                    ),
                )
            } else {
                (d, ActionView::Finish(unexpected()))
            },
            MessageView::Callback { id, parent_id, method, params } => if admissible(c, id, parent_id) {
                let e = CallView { seen: c.seen.push(id), ..d };
                if c.has_handler {
                    (CallView { callback: Some(id), ..e }, ActionView::Callback { method, params })
                } else {
                    (e, ActionView::Finish(Err(Fault::Protocol("unsolicited callback"@))))
                }
            } else {
                (d, ActionView::Finish(unexpected()))
            },
            _ => (d, ActionView::Finish(unexpected())),
        }
    }
}

/// The answer to a finished callback.
pub open spec fn callback_reply(id: Seq<char>, result: Result<Tree, Fault>) -> MessageView {
    match result {
        Ok(v) => MessageView::Result { id, result: v },
        Err(f) => MessageView::Error {
            id,
            code: "tool_rejected"@,
            message: fault_message(f),
            outcome: Outcome::Rejected,
        },
    }
}

/// What a call reports once its transport has been closed: an outcome that was
/// not confirmed is unknown, never a plain failure.
pub open spec fn concluded(call_id: Seq<char>, exited: bool, result: Result<Tree, Fault>) -> Result<Tree, Fault> {
    if !exited {
        Err(
            Fault::Unknown {
                call_id,
                message: "transport did not exit during drain; executor shutdown unconfirmed"@,
            },
        )
    } else {
        match result {
            Ok(v) => Ok(v),
            Err(f) => if f is Rejected || f is Unknown {
                Err(f)
            } else {
                Err(Fault::Unknown { call_id, message: fault_message(f) })
            },
        }
    }
}

impl CallState {
    pub closed spec fn wf(&self) -> bool {
        orderly(self@)
    }

    pub proof fn is_orderly(&self)
        requires
            self.wf(),
        ensures
            orderly(self@),
    {
    }

    pub fn new(id: String, has_handler: bool) -> (r: Self)
        ensures
            r.wf(),
            r@ == (CallView {
                id: id@,
                has_handler,
                cancelled: false,
                count: 0,
                seen: Seq::empty(),
                callback: None,
            }),
    {
        let r = CallState { id, has_handler, cancelled: false, count: 0, seen: Vec::new(), callback: None };
        assert(r@.seen =~= Seq::<Seq<char>>::empty());
        r
    }

    /// Cancellation was requested.
    pub fn on_cancel(&mut self) -> (r: Action)
        requires
            old(self).wf(),
        ensures
            final(self).wf(),
            final(self)@ == (CallView { cancelled: true, ..old(self)@ }),
            r@ == if old(self)@.cancelled {
                ActionView::Wait
            } else {
                ActionView::Send(MessageView::Cancel { id: old(self)@.id })
            },
    {
        if self.cancelled {
            return Action::Wait;
        }
        self.cancelled = true;
        Action::Send(Message::Cancel { id: self.id.clone() })
    }

    /// The call's deadline elapsed.
    pub fn on_deadline(&self) -> (r: Action)
        ensures
            r@ == if self@.cancelled { ActionView::Wait } else { ActionView::Cancel },
    {
        if self.cancelled { Action::Wait } else { Action::Cancel }
    }

    /// No answer came within the grace period after cancellation.
    pub fn on_grace(&self) -> (r: Action)
        ensures
            r@ == if self@.cancelled {
                ActionView::Finish(
                    Err(
                        Fault::Unknown {
                            call_id: self@.id,
                            message: "cancel acknowledgement deadline elapsed"@,
                        },
                    ),
                )
            } else {
                ActionView::Wait
            },
    {
        if self.cancelled {
            Action::Finish(
                Err(
                    ExtensionError::Unknown {
                        call_id: self.id.clone(),
                        message: copied("cancel acknowledgement deadline elapsed"),
                    },
                ),
            )
        } else {
            Action::Wait
        }
    }

    /// The running callback finished.
    pub fn on_callback(&mut self, result: Result<Json, ExtensionError>) -> (r: Action)
        requires
            old(self).wf(),
        ensures
            final(self).wf(),
            final(self)@ == (CallView { callback: None, ..old(self)@ }),
            r@ == match old(self)@.callback {
                Some(id) => ActionView::Send(callback_reply(id, result_view(result))),
                None => ActionView::Wait,
            },
    {
        match self.callback.take() {
            Some(id) => Action::Send(
                match result {
                    Ok(result) => Message::Result { id, result },
                    Err(e) => Message::Error {
                        id,
                        code: copied("tool_rejected"),
                        message: e.message(),
                        outcome: Outcome::Rejected,
                    },
                },
            ),
            None => Action::Wait,
        }
    }

    /// A message arrived.
    pub fn on_message(&mut self, message: Message) -> (r: Action)
        requires
            old(self).wf(),
            old(self)@.count <= MAX_MESSAGES,
        ensures
            final(self).wf(),
            (final(self)@, r@) == received(old(self)@, message@),
    {
        let ghost before = self@;
        self.count = self.count + 1;
        if self.count > MAX_MESSAGES {
            return Action::Finish(Err(ExtensionError::Protocol(copied("message count exceeded"))));
        }
        match message {
            Message::Result { id, result } => {
                if same(&id, &self.id) && self.callback.is_none() {
                    return Action::Finish(Ok(result));
                }
            },
            Message::Error { id, code, message, outcome } => {
                if same(&id, &self.id) && self.callback.is_none() {
                    let full = joined(&code, ": ");
                    let full = joined(&full, &message);
                    if outcome == Outcome::Rejected && self.seen.len() == 0 {
                        return Action::Finish(Err(ExtensionError::Rejected(full)));
                    }
                    return Action::Finish(Err(ExtensionError::Unknown { call_id: self.id.clone(), message: full }));
                }
            },
            Message::Callback { id, parent_id, method, params } => {
                if same(&parent_id, &self.id) && !self.cancelled && self.callback.is_none() && valid_id(&id) && !same(
                    &id,
                    &self.id,
                ) && self.seen.len() < MAX_CALLBACKS && !listed(&self.seen, &id) {
                    let ghost had = texts(self.seen@);
                    let ghost view = id@;
                    self.seen.push(id.clone());
                    proof {
                        assert(texts(self.seen@) =~= had.push(view));
                        assert(had.push(view).last() == view);
                        assert(had.push(view).no_duplicates()) by {
                            assert forall|i: int, j: int|
                                0 <= i < had.len() + 1 && 0 <= j < had.len() + 1 && i != j implies had.push(view)[i]
                                != had.push(view)[j] by {
                                if i < had.len() && j == had.len() {
                                    assert(had.contains(had[i]));
                                } else if j < had.len() && i == had.len() {
                                    assert(had.contains(had[j]));
                                }
                            }
                        }
                        assert forall|i: int| 0 <= i < self@.seen.len() implies is_id(#[trigger] self@.seen[i]) && self@.seen[i]
                            != self@.id by {
                            if i < had.len() {
                                assert(self@.seen[i] == before.seen[i]);
                            }
                        }
                    }
                    if !self.has_handler {
                        return Action::Finish(Err(ExtensionError::Protocol(copied("unsolicited callback"))));
                    }
                    self.callback = Some(id);
                    return Action::Callback { method, params };
                }
            },
            _ => {},
        }
        Action::Finish(
            Err(ExtensionError::Protocol(copied("unexpected, duplicate or uncorrelated message"))),
        )
    }

    /// Reports the call once its transport has been closed.
    pub fn conclude(&self, exited: bool, result: Result<Json, ExtensionError>) -> (r: Result<Json, ExtensionError>)
        ensures
            result_view(r) == concluded(self@.id, exited, result_view(result)),
    {
        if !exited {
            return Err(
                ExtensionError::Unknown {
                    call_id: self.id.clone(),
                    message: copied("transport did not exit during drain; executor shutdown unconfirmed"),
                },
            );
        }
        match result {
            Ok(v) => Ok(v),
            Err(ExtensionError::Rejected(m)) => Err(ExtensionError::Rejected(m)),
            Err(ExtensionError::Unknown { call_id, message }) => Err(ExtensionError::Unknown { call_id, message }),
            Err(other) => Err(ExtensionError::Unknown { call_id: self.id.clone(), message: other.message() }),
        }
    }
}

/// Checks the deadline of a call.
pub fn check_deadline(timeout: Span) -> (r: Result<(), ExtensionError>)
    ensures
        match r {
            Ok(_) => 0 < timeout.total() <= 1800000000000,
            Err(e) => !(0 < timeout.total() <= 1800000000000) && e@ == Fault::Rejected("deadline must be 1ns..1800s"@),
        },
{
    if timeout.is_zero() || timeout.exceeds(1800) {
        return Err(ExtensionError::Rejected(copied("deadline must be 1ns..1800s")));
    }
    Ok(())
}

/// The message that starts a call.
pub fn call_message(call: ExtensionCall, id: &str) -> (r: Message)
    ensures
        r@ == (MessageView::Call {
            id: id@,
            contract: call.contract@,
            version: call.version,
            method: call.method@,
            params: call.params@,
            timeout_ms: if call.timeout.total() / 1000000 == 0 {
                1
            } else if call.timeout.total() / 1000000 <= u64::MAX {
                (call.timeout.total() / 1000000) as u64
            } else {
                1800000
            },
        }),
{
    let timeout_ms: u64 = match call.timeout.millis_fit() {
        Some(0) => 1,
        Some(millis) => millis,
        None => 1800000,
    };
    Message::Call {
        id: copied(id),
        contract: call.contract,
        version: call.version,
        method: call.method,
        params: call.params,
        timeout_ms,
    }
}

/// The opening message of a session.
pub fn hello(id: &str, kind: ExtensionKind) -> (r: Message)
    ensures
        r@ == (MessageView::Hello { protocol_version: PROTOCOL_VERSION, expected_id: id@, kind }),
{
    Message::Hello { protocol_version: PROTOCOL_VERSION, expected_id: copied(id), kind }
}

/// The declarations of an extension that answered as the one expected.
pub fn accept_ready(id: &str, kind: ExtensionKind, reply: Message) -> (r: Result<ExtensionMetadata, ExtensionError>)
    ensures
        ({
            let fits = reply@ is Ready && reply@->metadata.protocol_version == PROTOCOL_VERSION && reply@->metadata.id == id@
                && reply@->metadata.kind == kind;
            match r {
                Ok(m) => fits && m@ == reply@->metadata,
                Err(e) => !fits && e@ == Fault::Protocol("identity, kind or protocol version mismatch"@),
            }
        }),
{
    if let Message::Ready { metadata } = reply {
        if metadata.protocol_version == PROTOCOL_VERSION && same(&metadata.id, id) && metadata.kind == kind {
            return Ok(metadata);
        }
    }
    Err(ExtensionError::Protocol(copied("identity, kind or protocol version mismatch")))
}

/// Refuses a session whose declarations differ from the registered ones.
pub fn check_registered(found: &ExtensionMetadata, expected: &ExtensionMetadata) -> (r: Result<(), ExtensionError>)
    ensures
        match r {
            Ok(_) => super::same_metadata(found@, expected@),
            Err(e) => !super::same_metadata(found@, expected@) && e@ == Fault::Protocol(
                "metadata changed since registration; re-register explicitly"@,
            ),
        },
{
    if !found.equals(expected) {
        return Err(ExtensionError::Protocol(copied("metadata changed since registration; re-register explicitly")));
    }
    Ok(())
}

/// A result is taken only while no callback runs, and only for this call.
pub proof fn results_wait_for_callbacks(c: CallView, message: MessageView)
    requires
        received(c, message).1 is Finish,
        received(c, message).1->Finish_0 is Ok,
    ensures
        c.callback is None,
        message is Result,
        message->Result_id == c.id,
        message->result == received(c, message).1->Finish_0->Ok_0,
{
}

/// No callback starts after cancellation or while another one runs, and none starts twice.
pub proof fn callbacks_are_exclusive(c: CallView, message: MessageView)
    requires
        received(c, message).1 is Callback,
    ensures
        !c.cancelled,
        c.callback is None,
        c.has_handler,
        message is Callback,
        !c.seen.contains(message->Callback_id),
        received(c, message).0.seen == c.seen.push(message->Callback_id),
{
}

/// A rejection is reported as such only when no callback ran before it.
pub proof fn rejection_means_no_effects(c: CallView, message: MessageView, exited: bool)
    requires
        received(c, message).1 is Finish,
        concluded(c.id, exited, received(c, message).1->Finish_0) is Err,
        concluded(c.id, exited, received(c, message).1->Finish_0)->Err_0 is Rejected,
    ensures
        c.seen.len() == 0,
        exited,
        message is Error,
        message->outcome == Outcome::Rejected,
{
}

/// Every failure of a dispatched call is either a rejection or unknown.
pub proof fn failures_are_rejected_or_unknown(call_id: Seq<char>, exited: bool, result: Result<Tree, Fault>)
    requires
        concluded(call_id, exited, result) is Err,
    ensures
        concluded(call_id, exited, result)->Err_0 is Rejected || concluded(call_id, exited, result)->Err_0 is Unknown,
{
}

/// The answer to a call ends it: a result with what was answered, a rejection before any
/// callback as rejected with its words, every other error as unknown. Until a running callback
/// has ended, and from anyone else, nothing is an answer.
pub proof fn answers_end_the_call(c: CallView, message: MessageView)
    requires
        c.count < MAX_MESSAGES,
    ensures
        received(c, message).0.count == c.count + 1,
        received(c, message).0.id == c.id,
        received(c, message).0.cancelled == c.cancelled,
        match message {
            MessageView::Result { id, result } => {
                &&& received(c, message).1 is Finish
                &&& id == c.id && c.callback is None ==> received(c, message).1->Finish_0 == Ok::<Tree, Fault>(result)
                &&& id != c.id || c.callback is Some ==> received(c, message).1->Finish_0 is Err && received(
                    c,
                    message,
                ).1->Finish_0->Err_0 is Protocol
            },
            MessageView::Error { id, code, message: text, outcome } => {
                &&& received(c, message).1 is Finish
                &&& received(c, message).1->Finish_0 is Err
                &&& id == c.id && c.callback is None && outcome == Outcome::Rejected && c.seen.len() == 0 ==> received(
                    c,
                    message,
                ).1->Finish_0->Err_0 == Fault::Rejected(code + ": "@ + text)
                &&& id == c.id && c.callback is None && (outcome != Outcome::Rejected || c.seen.len() > 0) ==> received(
                    c,
                    message,
                ).1->Finish_0->Err_0 == (Fault::Unknown { call_id: c.id, message: code + ": "@ + text })
                &&& id != c.id || c.callback is Some ==> received(c, message).1->Finish_0->Err_0 is Protocol
            },
            MessageView::Callback { .. } => true,
            _ => received(c, message).1 is Finish && received(c, message).1->Finish_0 is Err,
        },
{
}

/// A callback of this call that is new, alone and in time is handed to the handler as it came.
pub proof fn callbacks_are_handed_on(c: CallView, id: Seq<char>, method: Seq<char>, params: Tree)
    requires
        c.count < MAX_MESSAGES,
        c.has_handler,
        !c.cancelled,
        c.callback is None,
        c.seen.len() < MAX_CALLBACKS,
        !c.seen.contains(id),
        is_id(id),
        id != c.id,
    ensures
        ({
            let (after, action) = received(c, MessageView::Callback { id, parent_id: c.id, method, params });
            &&& action == (ActionView::Callback { method, params })
            &&& after.callback == Some(id)
            &&& after.seen == c.seen.push(id)
        }),
        forall|parent: Seq<char>|
            parent != c.id ==> (#[trigger] received(c, MessageView::Callback { id, parent_id: parent, method, params })).1 is Finish,
{
}

/// What a handler returned goes back under the callback's own id: a value as the result, an
/// error as a rejection.
pub proof fn callbacks_are_answered(id: Seq<char>, result: Result<Tree, Fault>)
    ensures
        result is Ok ==> callback_reply(id, result) == (MessageView::Result { id, result: result->Ok_0 }),
        result is Err ==> callback_reply(id, result) is Error && callback_reply(id, result)->Error_id == id && callback_reply(
            id,
            result,
        )->outcome == Outcome::Rejected,
{
}

/// A call has succeeded exactly if it was answered so and its transport is gone; a transport
/// that stays leaves the outcome unknown whatever was said.
pub proof fn success_needs_an_exited_transport(call_id: Seq<char>, exited: bool, result: Result<Tree, Fault>)
    ensures
        concluded(call_id, exited, result) is Ok <==> exited && result is Ok,
        concluded(call_id, exited, result) is Ok ==> concluded(call_id, exited, result)->Ok_0 == result->Ok_0,
        !exited ==> concluded(call_id, exited, result)->Err_0 is Unknown && concluded(call_id, exited, result)->Err_0->call_id
            == call_id,
        concluded(call_id, exited, result) is Err && concluded(call_id, exited, result)->Err_0 is Rejected <==> exited && result
            is Err && result->Err_0 is Rejected,
{
}

/// No call takes more than its share of messages.
pub proof fn messages_are_counted(c: CallView, message: MessageView)
    requires
        c.count >= MAX_MESSAGES,
    ensures
        received(c, message).1 is Finish,
        received(c, message).1->Finish_0 is Err,
{
}

} // verus!
