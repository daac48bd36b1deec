//! Opening a connection: the calls that it takes, and their order.
//!
//! First a credential is had, then the resource code is resolved, then the transport
//! opens the connection with both. The first call that fails ends the attempt.

use super::pool::ConnectOutcome;
use vstd::prelude::*;

verus! {

/// A call that an attempt to connect makes.
#[derive(Clone, Copy, Debug, PartialEq, Eq, Structural)]
pub enum OpenCall {
    /// Get the credential of the tier.
    Credential,
    /// Resolve the resource code.
    Resolve,
    /// Have the transport open the connection.
    Open,
}

/// What came of a call.
pub enum OpenReply<C> {
    /// Whether a credential was had.
    Credential(bool),
    /// Whether the code was resolved.
    Resolved(bool),
    /// The connection, if the transport opened it.
    Opened(Option<C>),
}

/// What follows in an attempt to connect.
pub enum OpenStep<C> {
    /// A call.
    Call(OpenCall),
    /// The end.
    Settle(ConnectOutcome<C>),
}

/// Whether a reply is one to a call.
pub open spec fn replies_to<C>(reply: OpenReply<C>, call: OpenCall) -> bool {
    match call {
        OpenCall::Credential => reply is Credential,
        OpenCall::Resolve => reply is Resolved,
        OpenCall::Open => reply is Opened,
    }
}

/// Whether a reply tells that the call failed.
pub open spec fn is_failure<C>(reply: OpenReply<C>) -> bool {
    match reply {
        OpenReply::Credential(had) => !had,
        OpenReply::Resolved(known) => !known,
        OpenReply::Opened(channel) => channel is None,
    }
}

/// What follows on a reply.
pub open spec fn step_after<C>(reply: OpenReply<C>) -> OpenStep<C> {
    match reply {
        OpenReply::Credential(true) => OpenStep::Call(OpenCall::Resolve),
        OpenReply::Credential(false) => OpenStep::Settle(ConnectOutcome::NoCredential),
        OpenReply::Resolved(true) => OpenStep::Call(OpenCall::Open),
        OpenReply::Resolved(false) => OpenStep::Settle(ConnectOutcome::Unresolved),
        OpenReply::Opened(Some(channel)) => OpenStep::Settle(ConnectOutcome::Opened(channel)),
        OpenReply::Opened(None) => OpenStep::Settle(ConnectOutcome::Unreachable),
    }
}

/// The call that an attempt to connect begins with.
pub fn first_call() -> (call: OpenCall)
    ensures
        call == OpenCall::Credential,
{
    OpenCall::Credential
}

/// Says what follows on a reply.
pub fn next_step<C>(reply: OpenReply<C>) -> (step: OpenStep<C>)
    ensures
        step == step_after(reply),
{
    match reply {
        OpenReply::Credential(true) => OpenStep::Call(OpenCall::Resolve),
        OpenReply::Credential(false) => OpenStep::Settle(ConnectOutcome::NoCredential),
        OpenReply::Resolved(true) => OpenStep::Call(OpenCall::Open),
        OpenReply::Resolved(false) => OpenStep::Settle(ConnectOutcome::Unresolved),
        OpenReply::Opened(Some(channel)) => OpenStep::Settle(ConnectOutcome::Opened(channel)),
        OpenReply::Opened(None) => OpenStep::Settle(ConnectOutcome::Unreachable),
    }
}

/// The steps of an attempt to connect that got some replies.
pub open spec fn attempt<C>(replies: Seq<OpenReply<C>>) -> Seq<OpenStep<C>>
    decreases replies.len(),
{
    if replies.len() == 0 {
        seq![OpenStep::Call(OpenCall::Credential)]
    } else {
        attempt(replies.drop_last()).push(step_after(replies.last()))
    }
}

/// Each reply is one to the call before it.
pub open spec fn replies_in_turn<C>(replies: Seq<OpenReply<C>>) -> bool
    decreases replies.len(),
{
    replies.len() == 0 || {
        &&& replies_in_turn(replies.drop_last())
        &&& attempt(replies.drop_last()).last() matches OpenStep::Call(call) && replies_to(
            replies.last(),
            call,
        )
    }
}

/// The calls come in the order credential, resolve, open, and nothing is called after
/// a failure: the attempt then settles at once, on the outcome that names the call
/// which failed.
pub proof fn nothing_is_called_after_a_failure<C>(replies: Seq<OpenReply<C>>)
    requires
        replies_in_turn(replies),
    ensures
        replies.len() <= 3,
        attempt(replies).len() == replies.len() + 1,
        forall|i: int|
            0 <= i <= replies.len() ==> ((#[trigger] attempt(replies)[i]) matches OpenStep::Call(
                call,
            ) ==> i < 3 && call == seq![OpenCall::Credential, OpenCall::Resolve, OpenCall::Open][i]),
        forall|i: int|
            0 <= i < replies.len() && is_failure(#[trigger] replies[i]) ==> {
                &&& i == replies.len() - 1
                &&& attempt(replies).last() == OpenStep::Settle(
                    if i == 0 {
                        ConnectOutcome::<C>::NoCredential
                    } else if i == 1 {
                        ConnectOutcome::<C>::Unresolved
                    } else {
                        ConnectOutcome::<C>::Unreachable
                    },
                )
            },
        attempt(replies).last() matches OpenStep::Settle(ConnectOutcome::Opened(_)) ==> {
            replies.len() == 3 && forall|i: int|
                0 <= i < 3 ==> !is_failure(#[trigger] replies[i])
        },
    decreases replies.len(),
{
    if replies.len() > 0 {
        let earlier = replies.drop_last();
        nothing_is_called_after_a_failure(earlier);
        let steps = attempt(earlier);
        let all = attempt(replies);
        assert(forall|i: int| 0 <= i < steps.len() ==> all[i] == steps[i]);
        assert(forall|i: int| 0 <= i < earlier.len() ==> replies[i] == earlier[i]);
        assert(steps.last() == steps[earlier.len() as int]);
    }
}

/// While the calls succeed the attempt goes on, from the credential to the address and
/// from there to the transport, and ends with the very connection that the transport
/// opened.
pub proof fn successful_calls_lead_to_the_connection<C>(channel: C)
    ensures
        step_after(OpenReply::<C>::Credential(true)) == OpenStep::<C>::Call(OpenCall::Resolve),
        step_after(OpenReply::<C>::Resolved(true)) == OpenStep::<C>::Call(OpenCall::Open),
        step_after(OpenReply::Opened(Some(channel))) == OpenStep::Settle(
            ConnectOutcome::Opened(channel),
        ),
        step_after(OpenReply::<C>::Credential(false)) == OpenStep::Settle(
            ConnectOutcome::<C>::NoCredential,
        ),
        step_after(OpenReply::<C>::Resolved(false)) == OpenStep::Settle(
            ConnectOutcome::<C>::Unresolved,
        ),
        step_after(OpenReply::<C>::Opened(None)) == OpenStep::Settle(
            ConnectOutcome::<C>::Unreachable,
        ),
        attempt(
            seq![
                OpenReply::Credential(true),
                OpenReply::Resolved(true),
                OpenReply::Opened(Some(channel)),
            ],
        ) == seq![
            OpenStep::Call(OpenCall::Credential),
            OpenStep::Call(OpenCall::Resolve),
            OpenStep::Call(OpenCall::Open),
            OpenStep::Settle(ConnectOutcome::Opened(channel)),
        ],
{
    let replies = seq![
        OpenReply::Credential(true),
        OpenReply::Resolved(true),
        OpenReply::Opened(Some(channel)),
    ];
    let two = replies.drop_last();
    let one = two.drop_last();
    assert(one.drop_last() =~= Seq::<OpenReply<C>>::empty());
    assert(attempt(one.drop_last()) =~= seq![OpenStep::<C>::Call(OpenCall::Credential)]);
    assert(one.last() == OpenReply::<C>::Credential(true));
    assert(attempt(one) =~= seq![
        OpenStep::<C>::Call(OpenCall::Credential),
        OpenStep::<C>::Call(OpenCall::Resolve),
    ]);
    assert(two.last() == OpenReply::<C>::Resolved(true));
    assert(attempt(two) =~= seq![
        OpenStep::<C>::Call(OpenCall::Credential),
        OpenStep::<C>::Call(OpenCall::Resolve),
        OpenStep::<C>::Call(OpenCall::Open),
    ]);
}

} // verus!
