//! The whole course of each flow: what it asks for and what the app then knows, from
//! what it was begun with and what was answered alone.

use vstd::prelude::*;

use crate::flow::{awaited, Effect, Event, Failure, Flow, Purpose, Stage, TokenBody};
use crate::laws::{
    accepting_link, asking, launching, proper, refreshing, run, setting_session, step, Input,
    Point,
};
use crate::link::SignIn;
use crate::message::Message;
use crate::state::{AppState, Tokens};

verus! {

/// A state that holds this access token since this time, and is otherwise the same.
pub open spec fn holding(before: AppState, access_token: String, at: u128) -> AppState {
    AppState { tokens: Some(Tokens { access_token }), access_issued_at: Some(at), ..before }
}

/// The access token that a state holds. An empty one does not count.
pub open spec fn held(state: AppState) -> Option<String> {
    match state.tokens {
        Some(tokens) => if tokens.access_token@.len() == 0 {
            None
        } else {
            Some(tokens.access_token)
        },
        None => None,
    }
}

/// Whether a state holds an access token that came less than fifty minutes ago.
pub open spec fn is_young(state: AppState, now: u128) -> bool {
    held(state) is Some && match state.access_issued_at {
        Some(at) => now < at + 50 * 60 * 1_000_000_000,
        None => false,
    }
}

/// Whether there is no text, or it is empty.
pub open spec fn is_blank(text: Option<String>) -> bool {
    match text {
        Some(text) => text@.len() == 0,
        None => true,
    }
}

/// What is asked for while a worker takes the place of another, after these answers.
/// It is started with `token`, and not at all without one. Where `tells`, a worker
/// that cannot be started ends the flow. Where `announces`, the sign-in is announced
/// at the end.
pub open spec fn replacing(
    token: Option<String>,
    tells: bool,
    announces: bool,
    answers: Seq<Input>,
) -> Effect {
    let begun: int = if token is Some {
        2
    } else {
        1
    };
    let n = answers.len();
    if n == 0 {
        Effect::StopWorker
    } else if n < begun {
        Effect::StartWorker { access_token: token->0 }
    } else if token is Some && tells && (answers[1].event matches Event::WorkerStarted {
        outcome: Err(_),
    }) {
        Effect::Finish {
            outcome: Err(
                Failure::Other { message: answers[1].event->WorkerStarted_outcome->Err_0 },
            ),
        }
    } else if n == begun {
        Effect::SyncWorkspaces
    } else if n == begun + 1 && announces {
        Effect::AnnounceSignIn
    } else {
        Effect::Finish { outcome: Ok(()) }
    }
}

/// How far the attempt to have a new access token has come.
pub enum Attempt {
    /// This is asked for.
    Pending { effect: Effect },
    /// There was no refresh token to ask with. It took so many answers to know.
    Kept { used: int },
    /// It failed, after so many answers.
    Failed { failure: Failure, used: int },
    /// The access token came, and after so many answers it is taken up.
    Had { access_token: String, at: u128, used: int },
}

/// How far the attempt to have a new access token has come after these answers.
pub open spec fn attempt(answers: Seq<Input>) -> Attempt {
    if answers.len() == 0 {
        Attempt::Pending { effect: Effect::LoadRefresh }
    } else if is_blank(answers[0].event->stored) {
        Attempt::Kept { used: 1 }
    } else if answers.len() == 1 {
        Attempt::Pending {
            effect: Effect::RequestToken { refresh_token: answers[0].event->stored->0 },
        }
    } else {
        match answers[1].event->answer {
            Err(message) => Attempt::Failed { failure: Failure::Other { message }, used: 2 },
            Ok(status) => if status.code < 200 || status.code > 299 {
                Attempt::Failed {
                    failure: Failure::TokenRefused { status_text: status.text },
                    used: 2,
                }
            } else {
                attempt_to_read(answers)
            },
        }
    }
}

/// How far it has come once the service has agreed.
pub open spec fn attempt_to_read(answers: Seq<Input>) -> Attempt {
    if answers.len() == 2 {
        Attempt::Pending { effect: Effect::ReadBody }
    } else {
        match answers[2].event->body {
            Err(failure) => Attempt::Failed { failure, used: 3 },
            Ok(body) => if is_blank(body.access_token) {
                Attempt::Failed { failure: Failure::TokenEmpty, used: 3 }
            } else if is_blank(body.refresh_token) {
                Attempt::Had {
                    access_token: body.access_token->0,
                    at: answers[2].now,
                    used: 3,
                }
            } else if answers.len() == 3 {
                Attempt::Pending {
                    effect: Effect::SaveRefresh { refresh_token: body.refresh_token->0 },
                }
            } else {
                match answers[3].event->RefreshSaved_outcome {
                    Err(message) => Attempt::Failed {
                        failure: Failure::Other { message },
                        used: 4,
                    },
                    Ok(()) => Attempt::Had {
                        access_token: body.access_token->0,
                        at: answers[3].now,
                        used: 4,
                    },
                }
            },
        }
    }
}

/// What is asked for once an attempt to have a new access token is over, after these
/// further answers. A restart goes on with what is held, whether it failed or not. A
/// launch goes on where it did not fail.
pub open spec fn going_on(
    purpose: Purpose,
    outcome: Result<(), Failure>,
    token: Option<String>,
    answers: Seq<Input>,
) -> Effect {
    if purpose == Purpose::Restart {
        replacing(token, true, false, answers)
    } else if purpose == Purpose::MenuRestart {
        replacing(token, false, false, answers)
    } else if purpose != Purpose::Launch {
        Effect::Finish { outcome }
    } else if outcome is Ok {
        replacing(token, false, false, answers)
    } else {
        Effect::Finish { outcome: Ok(()) }
    }
}

/// What the app knows after these answers to an attempt to have a new access token.
pub open spec fn known_after(before: AppState, answers: Seq<Input>) -> AppState {
    match attempt(answers) {
        Attempt::Had { access_token, at, used } => holding(before, access_token, at),
        _ => before,
    }
}

/// What is asked for after these answers to an attempt to have a new access token,
/// and beyond it.
pub open spec fn asked_after(before: AppState, purpose: Purpose, answers: Seq<Input>) -> Effect {
    match attempt(answers) {
        Attempt::Pending { effect } => effect,
        Attempt::Kept { used } => going_on(purpose, Ok(()), held(before), answers.skip(used)),
        Attempt::Failed { failure, used } => going_on(
            purpose,
            Err(failure),
            held(before),
            answers.skip(used),
        ),
        Attempt::Had { access_token, at, used } => if answers.len() == used {
            Effect::SendToWorker { message: Message::Token { access_token } }
        } else {
            going_on(purpose, Ok(()), Some(access_token), answers.skip(used + 1))
        },
    }
}

/// Whether a flow of this kind can come to need a new access token.
pub open spec fn refreshes(purpose: Purpose) -> bool {
    ||| purpose == Purpose::KeepFresh
    ||| purpose == Purpose::Restart
    ||| purpose == Purpose::MenuRestart
    ||| purpose == Purpose::Launch
}

/// The point at which a flow asks that the worker be stopped.
pub open spec fn stopping_at(state: AppState, purpose: Purpose) -> Point {
    Point {
        state,
        flow: Flow { purpose, stage: Stage::Stopping },
        effect: Effect::StopWorker,
    }
}

/// The point at which a flow looks up the refresh token to ask with.
pub open spec fn loading_at(state: AppState, purpose: Purpose) -> Point {
    Point { state, flow: Flow { purpose, stage: Stage::Loading }, effect: Effect::LoadRefresh }
}

proof fn lemma_take_step(start: Point, inputs: Seq<Input>, n: int)
    requires
        proper(start, inputs),
        0 <= n < inputs.len(),
    ensures
        run(start, inputs.take(n + 1)) == step(run(start, inputs.take(n)), inputs[n]),
        awaited(run(start, inputs.take(n)).flow.stage, inputs[n].event),
        run(start, inputs.take(0)) == start,
        run(start, inputs.take(inputs.len() as int)) == run(start, inputs),
{
    lemma_prefix(start, inputs, n + 1);
    let taken = inputs.take(n + 1);
    assert(taken.drop_last() =~= inputs.take(n));
    assert(taken.last() == inputs[n]);
    assert(inputs.take(inputs.len() as int) =~= inputs);
}

proof fn lemma_prefix(start: Point, inputs: Seq<Input>, n: int)
    requires
        proper(start, inputs),
        0 <= n <= inputs.len(),
    ensures
        proper(start, inputs.take(n)),
    decreases inputs.len(),
{
    if n == inputs.len() {
        assert(inputs.take(n) =~= inputs);
    } else {
        lemma_prefix(start, inputs.drop_last(), n);
        assert(inputs.drop_last().take(n) =~= inputs.take(n));
    }
}

proof fn lemma_split(start: Point, inputs: Seq<Input>, n: int)
    requires
        proper(start, inputs),
        0 <= n <= inputs.len(),
    ensures
        proper(run(start, inputs.take(n)), inputs.skip(n)),
        run(start, inputs) == run(run(start, inputs.take(n)), inputs.skip(n)),
    decreases inputs.len(),
{
    if n == inputs.len() {
        assert(inputs.take(n) =~= inputs);
    } else {
        let earlier = inputs.drop_last();
        lemma_split(start, earlier, n);
        assert(earlier.take(n) =~= inputs.take(n));
        assert(inputs.skip(n).drop_last() =~= earlier.skip(n));
        assert(inputs.skip(n).last() == inputs.last());
    }
}

proof fn lemma_over(start: Point, inputs: Seq<Input>)
    requires
        proper(start, inputs),
        start.flow.stage is Finished,
    ensures
        inputs.len() == 0,
        run(start, inputs) == start,
{
    if inputs.len() > 0 {
        lemma_take_step(start, inputs, 0);
    }
}

/// A worker takes the place of another in this way: the old one is stopped, one is
/// started with the access token that is held, if there is one, and the workspaces
/// are offered to it. What the app knows stays as it is.
pub proof fn law_worker_is_replaced(state: AppState, purpose: Purpose, inputs: Seq<Input>)
    requires
        purpose != Purpose::SignOut,
        purpose != Purpose::Quit,
        proper(stopping_at(state, purpose), inputs),
    ensures
        run(stopping_at(state, purpose), inputs).state == state,
        run(stopping_at(state, purpose), inputs).effect == replacing(
            held(state),
            purpose == Purpose::SetSession || purpose == Purpose::Restart,
            purpose == Purpose::AcceptLink,
            inputs,
        ),
{
    let start = stopping_at(state, purpose);
    assert(inputs.take(0) =~= Seq::<Input>::empty());
    assert(inputs.take(inputs.len() as int) =~= inputs);
    if inputs.len() > 0 {
        lemma_take_step(start, inputs, 0);
    }
    if inputs.len() > 1 {
        lemma_take_step(start, inputs, 1);
    }
    if inputs.len() > 2 {
        lemma_take_step(start, inputs, 2);
    }
    if inputs.len() > 3 {
        lemma_take_step(start, inputs, 3);
    }
    if inputs.len() > 4 {
        lemma_take_step(start, inputs, 4);
    }
}

/// A new access token is asked for in this way, whatever the flow is for. The request
/// shows the refresh token that was stored. A refresh token in the answer is stored
/// first, and without that the access token in it is not taken up. Then the worker is
/// sent it, and the flow goes on with it.
pub proof fn law_new_token_is_had(state: AppState, purpose: Purpose, inputs: Seq<Input>)
    requires
        refreshes(purpose),
        proper(loading_at(state, purpose), inputs),
    ensures
        run(loading_at(state, purpose), inputs).state == known_after(state, inputs),
        run(loading_at(state, purpose), inputs).effect == asked_after(state, purpose, inputs),
{
    let start = loading_at(state, purpose);
    assert(inputs.take(0) =~= Seq::<Input>::empty());
    assert(inputs.take(inputs.len() as int) =~= inputs);
    if inputs.len() > 0 {
        lemma_take_step(start, inputs, 0);
        match attempt(inputs) {
            Attempt::Kept { used } => {
                lemma_goes_on(start, state, Ok(()), inputs, used);
            },
            Attempt::Failed { failure, used } => {
                lemma_attempt(start, inputs);
                lemma_goes_on(start, state, Err(failure), inputs, used);
            },
            Attempt::Had { access_token, at, used } => {
                lemma_attempt(start, inputs);
                if inputs.len() > used {
                    lemma_take_step(start, inputs, used);
                    lemma_goes_on(
                        start,
                        holding(state, access_token, at),
                        Ok(()),
                        inputs,
                        used + 1,
                    );
                }
            },
            Attempt::Pending { effect } => {
                lemma_attempt(start, inputs);
            },
        }
    }
}

/// The point that a flow comes to where an attempt to have a new access token ends.
spec fn gone_on(state: AppState, purpose: Purpose, outcome: Result<(), Failure>) -> Point {
    if purpose == Purpose::Restart || purpose == Purpose::MenuRestart || (purpose
        == Purpose::Launch && outcome is Ok) {
        stopping_at(state, purpose)
    } else {
        Point {
            state,
            flow: Flow { purpose, stage: Stage::Finished },
            effect: Effect::Finish {
                outcome: if purpose == Purpose::Launch {
                    Ok(())
                } else {
                    outcome
                },
            },
        }
    }
}

proof fn lemma_goes_on(
    start: Point,
    state: AppState,
    outcome: Result<(), Failure>,
    inputs: Seq<Input>,
    n: int,
)
    requires
        refreshes(start.flow.purpose),
        proper(start, inputs),
        0 <= n <= inputs.len(),
        run(start, inputs.take(n)) == gone_on(state, start.flow.purpose, outcome),
    ensures
        run(start, inputs).state == state,
        run(start, inputs).effect == going_on(
            start.flow.purpose,
            outcome,
            held(state),
            inputs.skip(n),
        ),
{
    let purpose = start.flow.purpose;
    let there = gone_on(state, purpose, outcome);
    lemma_split(start, inputs, n);
    if there.flow.stage is Stopping {
        law_worker_is_replaced(state, purpose, inputs.skip(n));
    } else {
        lemma_over(there, inputs.skip(n));
    }
}

proof fn lemma_attempt(start: Point, inputs: Seq<Input>)
    requires
        refreshes(start.flow.purpose),
        start == loading_at(start.state, start.flow.purpose),
        proper(start, inputs),
        inputs.len() > 0,
    ensures
        match attempt(inputs) {
            Attempt::Pending { effect } => {
                &&& run(start, inputs).state == start.state
                &&& run(start, inputs).effect == effect
            },
            Attempt::Kept { used } => true,
            Attempt::Failed { failure, used } => {
                &&& 0 <= used <= inputs.len()
                &&& run(start, inputs.take(used)) == gone_on(
                    start.state,
                    start.flow.purpose,
                    Err(failure),
                )
            },
            Attempt::Had { access_token, at, used } => {
                &&& 0 <= used <= inputs.len()
                &&& access_token@.len() > 0
                &&& run(start, inputs.take(used)) == (Point {
                    state: holding(start.state, access_token, at),
                    flow: Flow { purpose: start.flow.purpose, stage: Stage::Pushing },
                    effect: Effect::SendToWorker { message: Message::Token { access_token } },
                })
            },
        },
{
    lemma_take_step(start, inputs, 0);
    if inputs.len() > 1 {
        lemma_take_step(start, inputs, 1);
    }
    if inputs.len() > 2 {
        lemma_take_step(start, inputs, 2);
    }
    if inputs.len() > 3 {
        lemma_take_step(start, inputs, 3);
    }
}

/// Keeping the access token fresh, or starting the worker anew with a fresh one, goes
/// on at once with a token that is young. Else a new one is asked for first.
pub proof fn law_token_is_kept_fresh(
    before: AppState,
    purpose: Purpose,
    began: u128,
    inputs: Seq<Input>,
)
    requires
        refreshes(purpose),
        proper(refreshing(before, purpose, began), inputs),
    ensures
        ({
            let end = run(refreshing(before, purpose, began), inputs);
            if is_young(before, began) {
                &&& end.state == before
                &&& end.effect == going_on(purpose, Ok(()), held(before), inputs)
            } else {
                &&& end.state == known_after(before, inputs)
                &&& end.effect == asked_after(before, purpose, inputs)
            }
        }),
{
    let start = refreshing(before, purpose, began);
    if is_young(before, began) {
        assert(inputs.take(0) =~= Seq::<Input>::empty());
        assert(inputs.skip(0) =~= inputs);
        lemma_goes_on(start, before, Ok(()), inputs, 0);
    } else {
        assert(start == loading_at(before, purpose));
        law_new_token_is_had(before, purpose, inputs);
    }
}

/// Asking for a new access token does so however young the one is that is held.
pub proof fn law_token_is_asked_for(before: AppState, inputs: Seq<Input>)
    requires
        proper(asking(before), inputs),
    ensures
        run(asking(before), inputs).state == known_after(before, inputs),
        run(asking(before), inputs).effect == asked_after(before, Purpose::KeepFresh, inputs),
{
    assert(asking(before) == loading_at(before, Purpose::KeepFresh));
    law_new_token_is_had(before, Purpose::KeepFresh, inputs);
}

/// A launch looks up whether a session was stored, and is over where none was. Else
/// it goes on with a young access token, and asks for one where there is none.
pub proof fn law_stored_session_is_launched(before: AppState, inputs: Seq<Input>)
    requires
        proper(launching(before), inputs),
    ensures
        ({
            let end = run(launching(before), inputs);
            let answers = inputs.skip(1);
            if inputs.len() == 0 {
                &&& end.state == before
                &&& end.effect == Effect::LoadRefresh
            } else if is_blank(inputs[0].event->stored) {
                &&& end.state == before
                &&& end.effect == (Effect::Finish { outcome: Ok(()) })
            } else if is_young(before, inputs[0].now) {
                &&& end.state == before
                &&& end.effect == replacing(held(before), false, false, answers)
            } else {
                &&& end.state == known_after(before, answers)
                &&& end.effect == asked_after(before, Purpose::Launch, answers)
            }
        }),
{
    let start = launching(before);
    if inputs.len() > 0 {
        lemma_take_step(start, inputs, 0);
        lemma_split(start, inputs, 1);
        let there = run(start, inputs.take(1));
        if is_blank(inputs[0].event->stored) {
            lemma_over(there, inputs.skip(1));
        } else if is_young(before, inputs[0].now) {
            assert(there == stopping_at(before, Purpose::Launch));
            law_worker_is_replaced(before, Purpose::Launch, inputs.skip(1));
        } else {
            assert(there == loading_at(before, Purpose::Launch));
            law_new_token_is_had(before, Purpose::Launch, inputs.skip(1));
        }
    }
}

/// A session that the web app hands over is taken up in this way. Its refresh token,
/// if it has one, is stored first, and where that fails all is as it was. Then a worker
/// is started with its access token, in the place of any other.
pub proof fn law_session_is_taken_up(
    before: AppState,
    access_token: String,
    refresh_token: String,
    began: u128,
    inputs: Seq<Input>,
)
    requires
        access_token@.len() > 0,
        proper(setting_session(before, access_token, refresh_token, began), inputs),
    ensures
        ({
            let end = run(setting_session(before, access_token, refresh_token, began), inputs);
            if refresh_token@.len() == 0 {
                &&& end.state == holding(before, access_token, began)
                &&& end.effect == replacing(Some(access_token), true, false, inputs)
            } else if inputs.len() == 0 {
                &&& end.state == before
                &&& end.effect == (Effect::SaveRefresh { refresh_token })
            } else {
                match inputs[0].event->RefreshSaved_outcome {
                    Err(message) => {
                        &&& end.state == before
                        &&& end.effect == (Effect::Finish {
                            outcome: Err(Failure::Other { message }),
                        })
                    },
                    Ok(()) => {
                        &&& end.state == holding(before, access_token, inputs[0].now)
                        &&& end.effect == replacing(
                            Some(access_token),
                            true,
                            false,
                            inputs.skip(1),
                        )
                    },
                }
            }
        }),
{
    let start = setting_session(before, access_token, refresh_token, began);
    if refresh_token@.len() == 0 {
        let state = holding(before, access_token, began);
        assert(start == stopping_at(state, Purpose::SetSession));
        law_worker_is_replaced(state, Purpose::SetSession, inputs);
    } else if inputs.len() > 0 {
        let state = holding(before, access_token, inputs[0].now);
        lemma_take_step(start, inputs, 0);
        lemma_split(start, inputs, 1);
        let there = run(start, inputs.take(1));
        if inputs[0].event->RefreshSaved_outcome is Err {
            lemma_over(there, inputs.skip(1));
        } else {
            assert(there == stopping_at(state, Purpose::SetSession));
            law_worker_is_replaced(state, Purpose::SetSession, inputs.skip(1));
        }
    }
}

/// A session without an access token is refused, and one in a link is passed over.
/// All is as it was, and nothing is asked for.
pub proof fn law_session_without_token_is_not_taken_up(
    before: AppState,
    access_token: String,
    refresh_token: String,
    sign_in: SignIn,
    began: u128,
)
    requires
        access_token@.len() == 0,
        sign_in.access_token@.len() == 0,
    ensures
        ({
            let handed = setting_session(before, access_token, refresh_token, began);
            &&& handed.state == before
            &&& handed.flow.stage is Finished
            &&& handed.effect == (Effect::Finish { outcome: Err(Failure::MissingAccessToken) })
        }),
        ({
            let opened = accepting_link(before, sign_in, began);
            &&& opened.state == before
            &&& opened.flow.stage is Finished
            &&& opened.effect == (Effect::Finish { outcome: Ok(()) })
        }),
{
}

/// A session that came in a link is taken up in this way. Its refresh token, if it has
/// one, is stored first, and whether that succeeds or not a worker is started with its
/// access token, in the place of any other. At the end the sign-in is announced.
pub proof fn law_link_is_taken_up(
    before: AppState,
    sign_in: SignIn,
    began: u128,
    inputs: Seq<Input>,
)
    requires
        sign_in.access_token@.len() > 0,
        proper(accepting_link(before, sign_in, began), inputs),
    ensures
        ({
            let end = run(accepting_link(before, sign_in, began), inputs);
            let access_token = sign_in.access_token;
            let refresh_token = sign_in.refresh_token;
            if refresh_token@.len() == 0 {
                &&& end.state == holding(before, access_token, began)
                &&& end.effect == replacing(Some(access_token), false, true, inputs)
            } else if inputs.len() == 0 {
                &&& end.state == before
                &&& end.effect == (Effect::SaveRefresh { refresh_token })
            } else {
                &&& end.state == holding(before, access_token, inputs[0].now)
                &&& end.effect == replacing(Some(access_token), false, true, inputs.skip(1))
            }
        }),
{
    let start = accepting_link(before, sign_in, began);
    let access_token = sign_in.access_token;
    if sign_in.refresh_token@.len() == 0 {
        let state = holding(before, access_token, began);
        assert(start == stopping_at(state, Purpose::AcceptLink));
        law_worker_is_replaced(state, Purpose::AcceptLink, inputs);
    } else if inputs.len() > 0 {
        let state = holding(before, access_token, inputs[0].now);
        lemma_take_step(start, inputs, 0);
        lemma_split(start, inputs, 1);
        assert(run(start, inputs.take(1)) == stopping_at(state, Purpose::AcceptLink));
        law_worker_is_replaced(state, Purpose::AcceptLink, inputs.skip(1));
    }
}

/// Whether a flow asks after `n` answers that the worker be stopped, and once it has
/// stopped that one be started with this access token.
pub open spec fn starts_worker_at(
    start: Point,
    inputs: Seq<Input>,
    access_token: String,
    n: int,
) -> bool {
    &&& 0 <= n < inputs.len()
    &&& run(start, inputs.take(n)).effect is StopWorker
    &&& inputs[n].event is WorkerStopped
    &&& run(start, inputs.take(n + 1)).effect == (Effect::StartWorker { access_token })
}

/// Whether a flow has come to ask that the worker be stopped, and once it had stopped
/// that one be started with this access token.
pub open spec fn starts_worker_with(
    start: Point,
    inputs: Seq<Input>,
    access_token: String,
) -> bool {
    exists|n: int| #[trigger] starts_worker_at(start, inputs, access_token, n)
}

proof fn lemma_starts_worker(start: Point, inputs: Seq<Input>, access_token: String, n: int)
    requires
        proper(start, inputs),
        0 <= n < inputs.len(),
        run(start, inputs.take(n)).flow.stage is Stopping,
        run(start, inputs.take(n)).effect is StopWorker,
        run(start, inputs.take(n)).flow.purpose != Purpose::SignOut,
        run(start, inputs.take(n)).flow.purpose != Purpose::Quit,
        held(run(start, inputs.take(n)).state) == Some(access_token),
    ensures
        starts_worker_with(start, inputs, access_token),
{
    lemma_take_step(start, inputs, n);
    lemma_stopped(run(start, inputs.take(n)), inputs[n], access_token);
    assert(starts_worker_at(start, inputs, access_token, n));
}

proof fn lemma_stopped(before: Point, input: Input, access_token: String)
    requires
        awaited(before.flow.stage, input.event),
        before.flow.stage is Stopping,
        before.flow.purpose != Purpose::SignOut,
        before.flow.purpose != Purpose::Quit,
        held(before.state) == Some(access_token),
    ensures
        input.event is WorkerStopped,
        step(before, input).effect == (Effect::StartWorker { access_token }),
{
}

/// By the time a sign-in by link is announced, or over, a worker has been started with
/// exactly the access token of the link, and the one before it stopped. It does not
/// matter who was signed in, or whether a refresh token came and could be stored.
pub proof fn law_link_starts_its_worker(
    before: AppState,
    sign_in: SignIn,
    began: u128,
    inputs: Seq<Input>,
)
    requires
        sign_in.access_token@.len() > 0,
        proper(accepting_link(before, sign_in, began), inputs),
        ({
            let effect = run(accepting_link(before, sign_in, began), inputs).effect;
            effect is AnnounceSignIn || effect is Finish
        }),
    ensures
        starts_worker_with(accepting_link(before, sign_in, began), inputs, sign_in.access_token),
{
    let start = accepting_link(before, sign_in, began);
    law_link_is_taken_up(before, sign_in, began, inputs);
    assert(inputs.take(0) =~= Seq::<Input>::empty());
    if sign_in.refresh_token@.len() == 0 {
        lemma_starts_worker(start, inputs, sign_in.access_token, 0);
    } else {
        lemma_take_step(start, inputs, 0);
        lemma_starts_worker(start, inputs, sign_in.access_token, 1);
    }
}

/// Where a session that the web app hands over is reported as taken up, a worker has
/// been started with exactly its access token, and the one before it stopped, whatever
/// session was held before.
pub proof fn law_session_starts_its_worker(
    before: AppState,
    access_token: String,
    refresh_token: String,
    began: u128,
    inputs: Seq<Input>,
)
    requires
        access_token@.len() > 0,
        proper(setting_session(before, access_token, refresh_token, began), inputs),
        run(setting_session(before, access_token, refresh_token, began), inputs).effect
            == (Effect::Finish { outcome: Ok(()) }),
    ensures
        starts_worker_with(
            setting_session(before, access_token, refresh_token, began),
            inputs,
            access_token,
        ),
{
    let start = setting_session(before, access_token, refresh_token, began);
    law_session_is_taken_up(before, access_token, refresh_token, began, inputs);
    assert(inputs.take(0) =~= Seq::<Input>::empty());
    if refresh_token@.len() == 0 {
        lemma_starts_worker(start, inputs, access_token, 0);
    } else {
        lemma_take_step(start, inputs, 0);
        lemma_starts_worker(start, inputs, access_token, 1);
    }
}

/// Whatever a flow is for, a refresh token in the service's answer is stored before
/// anything else, and the access token in it is then what is held, from the time on at
/// which it was taken up.
pub proof fn law_answer_is_taken_up(before: Point, answer: Input, body: TokenBody, saved: Input)
    requires
        before.flow.stage is Reading,
        answer.event == (Event::BodyRead { body: Ok(body) }),
        !is_blank(body.access_token),
        saved.event == (Event::RefreshSaved { outcome: Ok(()) }),
    ensures
        is_blank(body.refresh_token) ==> {
            &&& step(before, answer).state == holding(
                before.state,
                body.access_token->0,
                answer.now,
            )
            &&& step(before, answer).effect == (Effect::SendToWorker {
                message: Message::Token { access_token: body.access_token->0 },
            })
        },
        !is_blank(body.refresh_token) ==> {
            let stored = step(step(before, answer), saved);
            &&& step(before, answer).state == before.state
            &&& step(before, answer).effect == (Effect::SaveRefresh {
                refresh_token: body.refresh_token->0,
            })
            &&& stored.state == holding(before.state, body.access_token->0, saved.now)
            &&& stored.effect == (Effect::SendToWorker {
                message: Message::Token { access_token: body.access_token->0 },
            })
        },
{
}

/// A restart, or a launch, after the service gave out a new access token starts the
/// worker with that token and no other, however old or new the one was that was held.
pub proof fn law_worker_gets_the_new_token(
    before: AppState,
    purpose: Purpose,
    inputs: Seq<Input>,
)
    requires
        refreshes(purpose),
        purpose != Purpose::KeepFresh,
        proper(loading_at(before, purpose), inputs),
        attempt(inputs) is Had,
        run(loading_at(before, purpose), inputs).effect is Finish,
    ensures
        starts_worker_with(loading_at(before, purpose), inputs, attempt(inputs)->access_token),
        inputs[2].event matches Event::BodyRead { body: Ok(body) } && body.access_token == Some(
            attempt(inputs)->access_token,
        ),
        held(run(loading_at(before, purpose), inputs).state) == Some(
            attempt(inputs)->access_token,
        ),
{
    let start = loading_at(before, purpose);
    let used = attempt(inputs)->Had_used;
    law_new_token_is_had(before, purpose, inputs);
    lemma_attempt(start, inputs);
    lemma_take_step(start, inputs, 0);
    lemma_take_step(start, inputs, 1);
    lemma_take_step(start, inputs, 2);
    lemma_take_step(start, inputs, used);
    lemma_starts_worker(start, inputs, attempt(inputs)->access_token, used + 1);
}

} // verus!
