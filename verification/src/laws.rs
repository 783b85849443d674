//! What holds of every flow, whatever the world outside answers.

use vstd::prelude::*;

use crate::flow::{
    after, awaited, begun, finish, launched, link_opened, not_blank, refresh, session_ended,
    session_set, stop, with_fresh_access, workspace_added, Effect, Event, Failure, Flow, Next,
    Purpose, Stage,
};
use crate::link::SignIn;
use crate::message::Message;
use crate::state::{signed_in, signed_out, usable_token, AppState};

verus! {

/// An event, and when it came.
pub struct Input {
    pub event: Event,
    pub now: u128,
}

/// The point that a flow has come to: the state, the flow and what it asks for.
pub struct Point {
    pub state: AppState,
    pub flow: Flow,
    pub effect: Effect,
}

/// The point after one more event.
pub open spec fn step(point: Point, input: Input) -> Point {
    let (state, next) = after(point.state, point.flow, input.event, input.now);
    let (flow, effect) = begun(point.flow.purpose, next);
    Point { state, flow, effect }
}

/// The point after these events.
pub open spec fn run(start: Point, inputs: Seq<Input>) -> Point
    decreases inputs.len(),
{
    if inputs.len() == 0 {
        start
    } else {
        step(run(start, inputs.drop_last()), inputs.last())
    }
}

/// Whether each event is one that the flow then waited for.
pub open spec fn proper(start: Point, inputs: Seq<Input>) -> bool
    decreases inputs.len(),
{
    inputs.len() == 0 || {
        &&& proper(start, inputs.drop_last())
        &&& awaited(run(start, inputs.drop_last()).flow.stage, inputs.last().event)
    }
}

/// The most events that a flow can still wait for.
pub open spec fn steps_left(stage: Stage) -> nat {
    match stage {
        Stage::Recalling => 10,
        Stage::Loading => 9,
        Stage::Requesting => 8,
        Stage::Reading => 7,
        Stage::Rotating { .. } => 6,
        Stage::Pushing => 5,
        Stage::Storing { .. } => 5,
        Stage::Clearing => 5,
        Stage::Stopping => 4,
        Stage::Starting => 3,
        Stage::Persisting => 3,
        Stage::Syncing => 2,
        Stage::Announcing => 1,
        Stage::Exiting => 1,
        Stage::Finished => 0,
    }
}

/// Every flow ends, after ten events at the most.
pub proof fn law_flows_end(start: Point, inputs: Seq<Input>)
    requires
        proper(start, inputs),
    ensures
        inputs.len() + steps_left(run(start, inputs).flow.stage) <= steps_left(start.flow.stage),
        steps_left(start.flow.stage) <= 10,
    decreases inputs.len(),
{
    if inputs.len() > 0 {
        law_flows_end(start, inputs.drop_last());
        lemma_step_goes_down(run(start, inputs.drop_last()), inputs.last());
    }
}

/// The point at which a flow begins.
pub open spec fn point(state: AppState, purpose: Purpose, next: Next) -> Point {
    let (flow, effect) = begun(purpose, next);
    Point { state, flow, effect }
}

/// The point that is reached in a state with a flow and what it asks for.
pub open spec fn reached(state: AppState, begun: (Flow, Effect)) -> Point {
    Point { state, flow: begun.0, effect: begun.1 }
}

/// The point at which `AppState::set_session` leaves off.
pub open spec fn setting_session(
    state: AppState,
    access_token: String,
    refresh_token: String,
    now: u128,
) -> Point {
    let (state, next) = session_set(state, access_token, refresh_token, now);
    point(state, Purpose::SetSession, next)
}

/// The point at which `AppState::accept_link` leaves off.
pub open spec fn accepting_link(state: AppState, sign_in: SignIn, now: u128) -> Point {
    let (state, next) = link_opened(state, sign_in, now);
    point(state, Purpose::AcceptLink, next)
}

/// The point at which `AppState::ensure_fresh_access`, `AppState::restart_worker` or
/// `AppState::menu_restart` leaves off.
pub open spec fn refreshing(state: AppState, purpose: Purpose, now: u128) -> Point {
    point(state, purpose, with_fresh_access(state, purpose, now))
}

/// The point at which `AppState::refresh_access` leaves off.
pub open spec fn asking(state: AppState) -> Point {
    point(state, Purpose::KeepFresh, refresh())
}

/// The point at which `AppState::auth_sign_out` leaves off.
pub open spec fn signing_out(state: AppState) -> Point {
    point(signed_out(state), Purpose::SignOut, session_ended())
}

/// The point at which `AppState::pick_workspace` leaves off, in the state that holds
/// the workspace that was picked.
pub open spec fn workspace_picked(state: AppState) -> Point {
    point(state, Purpose::PickWorkspace, workspace_added())
}

/// The point at which `AppState::quit` leaves off.
pub open spec fn quitting(state: AppState) -> Point {
    point(state, Purpose::Quit, stop())
}

/// The point at which `AppState::launch` leaves off.
pub open spec fn launching(state: AppState) -> Point {
    point(state, Purpose::Launch, launched())
}

/// Whether what is asked for is what the flow waits for.
pub open spec fn in_step(point: Point) -> bool {
    match point.flow.stage {
        Stage::Recalling | Stage::Loading => point.effect is LoadRefresh,
        Stage::Requesting => point.effect is RequestToken,
        Stage::Reading => point.effect is ReadBody,
        Stage::Rotating { .. } | Stage::Storing { .. } => point.effect is SaveRefresh,
        Stage::Pushing => point.effect is SendToWorker,
        Stage::Stopping => point.effect is StopWorker,
        Stage::Starting => point.effect is StartWorker,
        Stage::Syncing => point.effect is SyncWorkspaces,
        Stage::Announcing => point.effect is AnnounceSignIn,
        Stage::Clearing => point.effect is ClearRefresh,
        Stage::Persisting => point.effect is PersistWorkspaces,
        Stage::Exiting => point.effect is Exit,
        Stage::Finished => point.effect is Finish,
    }
}

/// Whether the session is whole at a point, and a token that is kept until another
/// is stored is not empty.
pub open spec fn sound(point: Point) -> bool {
    &&& point.state.valid()
    &&& point.flow.stage matches Stage::Rotating { access_token } ==> access_token@.len() > 0
    &&& point.flow.stage matches Stage::Storing { access_token } ==> access_token@.len() > 0
}

/// Every flow begins in step and, where the session was whole, sound.
pub proof fn law_flows_begin_well(
    state: AppState,
    access_token: String,
    refresh_token: String,
    sign_in: SignIn,
    purpose: Purpose,
    now: u128,
)
    ensures
        in_step(setting_session(state, access_token, refresh_token, now)),
        in_step(accepting_link(state, sign_in, now)),
        in_step(refreshing(state, purpose, now)),
        in_step(asking(state)),
        in_step(launching(state)),
        in_step(signing_out(state)),
        in_step(workspace_picked(state)),
        in_step(quitting(state)),
        sound(signing_out(state)),
        state.valid() ==> {
            &&& sound(setting_session(state, access_token, refresh_token, now))
            &&& sound(accepting_link(state, sign_in, now))
            &&& sound(refreshing(state, purpose, now))
            &&& sound(asking(state))
            &&& sound(launching(state))
            &&& sound(workspace_picked(state))
            &&& sound(quitting(state))
        },
{
}

/// A flow waits for an answer to what it asks for, at every point.
pub proof fn law_flows_stay_in_step(start: Point, inputs: Seq<Input>)
    requires
        in_step(start),
        proper(start, inputs),
    ensures
        in_step(run(start, inputs)),
    decreases inputs.len(),
{
    if inputs.len() > 0 {
        law_flows_stay_in_step(start, inputs.drop_last());
    }
}

/// No flow ever holds half a session: where there is an access token it is not empty
/// and it is known when it came.
pub proof fn law_sessions_stay_whole(start: Point, inputs: Seq<Input>)
    requires
        sound(start),
        proper(start, inputs),
    ensures
        sound(run(start, inputs)),
    decreases inputs.len(),
{
    if inputs.len() > 0 {
        law_sessions_stay_whole(start, inputs.drop_last());
    }
}

/// A worker is started only once the one before it has been stopped, and with the
/// access token that the session is held with, which is not empty.
pub proof fn law_workers_start_signed_in(start: Point, inputs: Seq<Input>)
    requires
        in_step(start),
        proper(start, inputs),
        inputs.len() > 0,
    ensures
        run(start, inputs).effect matches Effect::StartWorker { access_token } ==> {
            &&& run(start, inputs.drop_last()).effect is StopWorker
            &&& usable_token(run(start, inputs).state.tokens) == Some(access_token)
        },
{
    law_flows_stay_in_step(start, inputs.drop_last());
}

/// A flow does not start a worker where nobody is signed in.
pub proof fn law_no_worker_without_session(before: Point, input: Input)
    requires
        awaited(before.flow.stage, input.event),
        usable_token(before.state.tokens) is None,
    ensures
        step(before, input).effect !is StartWorker,
{
}

/// All that a worker is sent in a flow is the access token that the session is then
/// held with.
pub proof fn law_worker_is_sent_access_tokens(before: Point, input: Input)
    requires
        awaited(before.flow.stage, input.event),
    ensures
        step(before, input).effect matches Effect::SendToWorker { message } ==> (message matches
            Message::Token { access_token } && step(before, input).state.tokens matches Some(tokens)
            && tokens.access_token == access_token),
{
}

proof fn lemma_step_goes_down(before: Point, input: Input)
    requires
        awaited(before.flow.stage, input.event),
    ensures
        1 + steps_left(step(before, input).flow.stage) <= steps_left(before.flow.stage),
{
}

proof fn lemma_steps_go_down(start: Point, inputs: Seq<Input>, n: int)
    requires
        proper(start, inputs),
        0 <= n <= inputs.len(),
    ensures
        inputs.len() - n + steps_left(run(start, inputs).flow.stage) <= steps_left(
            run(start, inputs.take(n)).flow.stage,
        ),
        proper(start, inputs.take(n)),
    decreases inputs.len(),
{
    if n == inputs.len() {
        assert(inputs.take(n) =~= inputs);
    } else {
        let last = run(start, inputs.drop_last());
        lemma_steps_go_down(start, inputs.drop_last(), n);
        lemma_step_goes_down(last, inputs.last());
        assert(inputs.drop_last().take(n) =~= inputs.take(n));
        assert(run(start, inputs) == step(last, inputs.last()));
    }
}

/// A flow makes one request at the most.
pub proof fn law_one_request_at_most(start: Point, inputs: Seq<Input>, n: int, m: int)
    requires
        in_step(start),
        proper(start, inputs),
        0 <= n < m <= inputs.len(),
    ensures
        !(run(start, inputs.take(n)).effect is RequestToken && run(
            start,
            inputs.take(m),
        ).effect is RequestToken),
{
    lemma_steps_go_down(start, inputs, n);
    lemma_steps_go_down(start, inputs, m);
    lemma_steps_go_down(start, inputs.take(m), n);
    assert(inputs.take(m).take(n) =~= inputs.take(n));
    law_flows_stay_in_step(start, inputs.take(n));
    law_flows_stay_in_step(start, inputs.take(m));
}

/// A request that a flow makes shows the refresh token that was stored, and none
/// other.
pub proof fn law_request_shows_stored_token(before: Point, input: Input)
    requires
        awaited(before.flow.stage, input.event),
    ensures
        step(before, input).effect matches Effect::RequestToken { refresh_token } ==> {
            &&& input.event == (Event::RefreshLoaded { stored: Some(refresh_token) })
            &&& refresh_token@.len() > 0
        },
{
}

/// A refresh token that a flow stores on its way is one that the service gave out,
/// and the access token that came with it is not empty.
pub proof fn law_stored_token_came_from_service(before: Point, input: Input)
    requires
        awaited(before.flow.stage, input.event),
    ensures
        step(before, input).effect matches Effect::SaveRefresh { refresh_token } ==> {
            &&& input.event matches Event::BodyRead { body: Ok(body) }
            &&& body.refresh_token == Some(refresh_token)
            &&& refresh_token@.len() > 0
            &&& body.access_token matches Some(access_token) && access_token@.len() > 0
        },
{
}

/// A token that is fresh is left as it is, and nothing is asked for.
pub proof fn law_fresh_token_is_left(state: AppState, now: u128)
    requires
        state.fresh(now),
    ensures
        refreshing(state, Purpose::KeepFresh, now) == point(
            state,
            Purpose::KeepFresh,
            finish(Ok(())),
        ),
{
}

/// A token that is not fresh makes the stored refresh token be looked up.
pub proof fn law_stale_token_is_refreshed(state: AppState, now: u128)
    requires
        !state.fresh(now),
    ensures
        refreshing(state, Purpose::KeepFresh, now).effect is LoadRefresh,
{
}

/// Whether a state is another with a session that was taken up at some time.
pub open spec fn is_signed_in(before: AppState, access_token: String, state: AppState) -> bool {
    exists|now: u128| state == #[trigger] signed_in(before, access_token, now)
}

/// What is so at every point of a flow that keeps the access token fresh.
spec fn keeps_fresh(before: AppState, point: Point) -> bool {
    &&& point.flow.purpose == Purpose::KeepFresh
    &&& point.flow.stage is Loading || point.flow.stage is Requesting || point.flow.stage is Reading
        || point.flow.stage is Rotating || point.flow.stage is Pushing
        || point.flow.stage is Finished
    &&& point.flow.stage is Finished <==> point.effect is Finish
    &&& (point.flow.stage is Loading || point.flow.stage is Requesting || point.flow.stage is Reading
        || point.flow.stage is Rotating) ==> point.state == before
    &&& point.flow.stage matches Stage::Rotating { access_token } ==> access_token@.len() > 0
    &&& point.effect matches Effect::Finish { outcome: Err(_) } ==> point.state == before
    &&& point.state == before || exists|access_token: String|
        access_token@.len() > 0 && #[trigger] is_signed_in(before, access_token, point.state)
}

/// Whether a flow has so far not asked that the worker be sent anything.
pub open spec fn unsent(start: Point, inputs: Seq<Input>) -> bool {
    forall|n: int|
        0 <= n <= inputs.len() ==> (#[trigger] run(start, inputs.take(n))).effect !is SendToWorker
}

/// Keeping the access token fresh either leaves all as it was or takes up a new
/// access token, which is not empty. Where it fails, all is as it was, and the worker
/// has been sent nothing.
pub proof fn law_refresh_is_all_or_nothing(before: AppState, began: u128, inputs: Seq<Input>)
    requires
        proper(refreshing(before, Purpose::KeepFresh, began), inputs),
    ensures
        ({
            let start = refreshing(before, Purpose::KeepFresh, began);
            let end = run(start, inputs);
            &&& end.effect matches Effect::Finish { outcome: Err(_) } ==> {
                &&& end.state == before
                &&& unsent(start, inputs)
            }
            &&& end.state == before || exists|access_token: String|
                access_token@.len() > 0 && #[trigger] is_signed_in(before, access_token, end.state)
        }),
{
    lemma_keeps_fresh(before, refreshing(before, Purpose::KeepFresh, began), inputs);
}

/// Asking for a new access token either leaves all as it was or takes it up, and it
/// is not empty. Where that fails, all is as it was, and the worker has been sent
/// nothing.
pub proof fn law_asking_is_all_or_nothing(before: AppState, inputs: Seq<Input>)
    requires
        proper(asking(before), inputs),
    ensures
        ({
            let end = run(asking(before), inputs);
            &&& end.effect matches Effect::Finish { outcome: Err(_) } ==> {
                &&& end.state == before
                &&& unsent(asking(before), inputs)
            }
            &&& end.state == before || exists|access_token: String|
                access_token@.len() > 0 && #[trigger] is_signed_in(before, access_token, end.state)
        }),
{
    lemma_keeps_fresh(before, asking(before), inputs);
}

proof fn lemma_keeps_fresh(before: AppState, start: Point, inputs: Seq<Input>)
    requires
        start == asking(before) || start == point(before, Purpose::KeepFresh, finish(Ok(()))),
        proper(start, inputs),
    ensures
        keeps_fresh(before, run(start, inputs)),
        ({
            let end = run(start, inputs);
            ||| end.flow.stage is Pushing
            ||| end.effect matches Effect::Finish { outcome: Ok(_) }
            ||| unsent(start, inputs)
        }),
    decreases inputs.len(),
{
    assert(inputs.take(inputs.len() as int) =~= inputs);
    law_flows_stay_in_step(start, inputs);
    if inputs.len() > 0 {
        let earlier = inputs.drop_last();
        lemma_keeps_fresh(before, start, earlier);
        let last = run(start, earlier);
        let input = inputs.last();
        match (last.flow.stage, input.event) {
            (Stage::Reading, Event::BodyRead { body: Ok(body) }) => {
                if body.access_token is Some {
                    let token = body.access_token->0;
                    assert(is_signed_in(before, token, signed_in(before, token, input.now)));
                }
            },
            (Stage::Rotating { access_token }, _) => {
                assert(is_signed_in(
                    before,
                    access_token,
                    signed_in(before, access_token, input.now),
                ));
            },
            _ => {},
        }
        if unsent(start, earlier) && run(start, inputs).effect !is SendToWorker {
            assert forall|n: int| 0 <= n <= inputs.len() implies (#[trigger] run(
                start,
                inputs.take(n),
            )).effect !is SendToWorker by {
                if n < inputs.len() {
                    assert(inputs.take(n) =~= earlier.take(n));
                }
            }
        }
    }
}

/// What is asked for while a new access token is had, the request for it too, is the
/// same whatever the workspaces are and wherever the app keeps its files: for the
/// same answers, each time the same.
pub proof fn law_asking_does_not_look_at_workspaces(
    left: AppState,
    right: AppState,
    inputs: Seq<Input>,
)
    requires
        left == (AppState {
            workspaces: left.workspaces,
            support_dir: left.support_dir,
            ..right
        }),
    ensures
        forall|n: int|
            0 <= n <= inputs.len() ==> (#[trigger] run(asking(left), inputs.take(n))).effect == run(
                asking(right),
                inputs.take(n),
            ).effect,
{
    assert forall|n: int| 0 <= n <= inputs.len() implies (#[trigger] run(
        asking(left),
        inputs.take(n),
    )).effect == run(asking(right), inputs.take(n)).effect by {
        law_flows_look_only_at_the_session(asking(left), asking(right), inputs.take(n));
    }
}

/// What is so at every point of a flow that takes up a session.
spec fn takes_up(before: AppState, access_token: String, purpose: Purpose, point: Point) -> bool {
    &&& point.flow.purpose == purpose
    &&& match point.flow.stage {
        Stage::Storing { access_token: kept } => kept == access_token && point.state == before,
        Stage::Stopping | Stage::Starting | Stage::Syncing | Stage::Announcing => is_signed_in(
            before,
            access_token,
            point.state,
        ),
        Stage::Finished => {
            &&& point.effect matches Effect::Finish { outcome }
            &&& outcome is Ok ==> is_signed_in(before, access_token, point.state)
            &&& outcome is Err ==> point.state == before || is_signed_in(
                before,
                access_token,
                point.state,
            )
        },
        _ => false,
    }
}

proof fn lemma_takes_up(
    before: AppState,
    access_token: String,
    purpose: Purpose,
    start: Point,
    inputs: Seq<Input>,
)
    requires
        purpose == Purpose::SetSession || purpose == Purpose::AcceptLink,
        takes_up(before, access_token, purpose, start),
        proper(start, inputs),
    ensures
        takes_up(before, access_token, purpose, run(start, inputs)),
    decreases inputs.len(),
{
    if inputs.len() > 0 {
        lemma_takes_up(before, access_token, purpose, start, inputs.drop_last());
        let now = inputs.last().now;
        assert(is_signed_in(before, access_token, signed_in(before, access_token, now)));
    }
}

/// A session that the web app hands over is taken up as it is, or not at all. It is
/// taken up wherever success is reported, and where it has no access token all is
/// as it was.
pub proof fn law_session_is_set_or_refused(
    before: AppState,
    access_token: String,
    refresh_token: String,
    began: u128,
    inputs: Seq<Input>,
)
    requires
        proper(setting_session(before, access_token, refresh_token, began), inputs),
    ensures
        ({
            let end = run(setting_session(before, access_token, refresh_token, began), inputs);
            &&& end.state == before || is_signed_in(before, access_token, end.state)
            &&& end.effect matches Effect::Finish { outcome: Ok(_) } ==> is_signed_in(
                before,
                access_token,
                end.state,
            )
            &&& access_token@.len() == 0 ==> {
                &&& end.state == before
                &&& end.effect == (Effect::Finish { outcome: Err(Failure::MissingAccessToken) })
            }
        }),
{
    let start = setting_session(before, access_token, refresh_token, began);
    assert(is_signed_in(before, access_token, signed_in(before, access_token, began)));
    if access_token@.len() > 0 {
        lemma_takes_up(before, access_token, Purpose::SetSession, start, inputs);
    } else {
        law_flows_end(start, inputs);
    }
}

/// A session that the web app hands over is refused where its refresh token cannot
/// be stored, and all is as it was.
pub proof fn law_session_needs_its_refresh_token(
    before: AppState,
    access_token: String,
    refresh_token: String,
    began: u128,
    message: String,
    now: u128,
)
    requires
        access_token@.len() > 0,
        refresh_token@.len() > 0,
    ensures
        ({
            let start = setting_session(before, access_token, refresh_token, began);
            let event = Event::RefreshSaved { outcome: Err(message) };
            &&& start.effect == (Effect::SaveRefresh { refresh_token })
            &&& awaited(start.flow.stage, event)
            &&& step(start, Input { event, now }) == point(
                before,
                Purpose::SetSession,
                finish(Err(Failure::Other { message })),
            )
        }),
{
}

/// A session that came in a link is taken up whatever the world outside answers, and
/// it is announced before the flow ends.
pub proof fn law_link_is_accepted(
    before: AppState,
    sign_in: SignIn,
    began: u128,
    inputs: Seq<Input>,
)
    requires
        sign_in.access_token@.len() > 0,
        proper(accepting_link(before, sign_in, began), inputs),
    ensures
        ({
            let start = accepting_link(before, sign_in, began);
            let end = run(start, inputs);
            end.effect is Finish ==> {
                &&& end.effect == (Effect::Finish { outcome: Ok(()) })
                &&& is_signed_in(before, sign_in.access_token, end.state)
                &&& inputs.len() > 0
                &&& run(start, inputs.drop_last()).effect is AnnounceSignIn
            }
        }),
{
    let start = accepting_link(before, sign_in, began);
    let access_token = sign_in.access_token;
    assert(is_signed_in(before, access_token, signed_in(before, access_token, began)));
    lemma_takes_up(before, access_token, Purpose::AcceptLink, start, inputs);
    law_flows_stay_in_step(start, inputs);
    lemma_quiet(start, inputs);
    if inputs.len() > 0 {
        lemma_takes_up(before, access_token, Purpose::AcceptLink, start, inputs.drop_last());
        law_flows_stay_in_step(start, inputs.drop_last());
    }
}

/// Whether a flow is one that reports no failure: it is for a launch or the menu, or
/// for a link and past the point where it could ask for a new access token.
spec fn quiet(flow: Flow) -> bool {
    match flow.purpose {
        Purpose::Launch | Purpose::MenuRestart => true,
        Purpose::AcceptLink => steps_left(flow.stage) <= 5 && flow.stage !is Pushing,
        _ => false,
    }
}

proof fn lemma_quiet(start: Point, inputs: Seq<Input>)
    requires
        in_step(start),
        quiet(start.flow),
        start.effect matches Effect::Finish { outcome } ==> outcome is Ok,
        proper(start, inputs),
    ensures
        quiet(run(start, inputs).flow),
        run(start, inputs).flow.purpose == start.flow.purpose,
        run(start, inputs).effect matches Effect::Finish { outcome } ==> outcome is Ok,
    decreases inputs.len(),
{
    if inputs.len() > 0 {
        lemma_quiet(start, inputs.drop_last());
    }
}

/// A launch never reports a failure, whether there is a session to take up or not.
pub proof fn law_launch_does_not_fail(before: AppState, inputs: Seq<Input>)
    requires
        proper(launching(before), inputs),
    ensures
        run(launching(before), inputs).effect matches Effect::Finish { outcome } ==> outcome is Ok,
{
    lemma_quiet(launching(before), inputs);
}

/// A restart from the menu never reports a failure.
pub proof fn law_menu_restart_does_not_fail(before: AppState, began: u128, inputs: Seq<Input>)
    requires
        proper(refreshing(before, Purpose::MenuRestart, began), inputs),
    ensures
        run(refreshing(before, Purpose::MenuRestart, began), inputs).effect matches Effect::Finish {
            outcome,
        } ==> outcome is Ok,
{
    lemma_quiet(refreshing(before, Purpose::MenuRestart, began), inputs);
}

/// A flow changes the session and nothing else.
pub proof fn law_flows_change_only_the_session(start: Point, inputs: Seq<Input>)
    requires
        proper(start, inputs),
    ensures
        ({
            let end = run(start, inputs).state;
            end == AppState {
                tokens: end.tokens,
                access_issued_at: end.access_issued_at,
                ..start.state
            }
        }),
    decreases inputs.len(),
{
    if inputs.len() > 0 {
        law_flows_change_only_the_session(start, inputs.drop_last());
    }
}

/// A flow looks at the session and nothing else: what it asks for is the same
/// whatever the workspaces are, so no path of one is in it.
pub proof fn law_flows_look_only_at_the_session(left: Point, right: Point, inputs: Seq<Input>)
    requires
        left.flow == right.flow,
        left.effect == right.effect,
        left.state.tokens == right.state.tokens,
        left.state.access_issued_at == right.state.access_issued_at,
    ensures
        run(left, inputs).flow == run(right, inputs).flow,
        run(left, inputs).effect == run(right, inputs).effect,
        run(left, inputs).state.tokens == run(right, inputs).state.tokens,
        run(left, inputs).state.access_issued_at == run(right, inputs).state.access_issued_at,
    decreases inputs.len(),
{
    if inputs.len() > 0 {
        law_flows_look_only_at_the_session(left, right, inputs.drop_last());
    }
}

/// What is so at every point of a flow that starts the worker anew.
spec fn restarts(start: Point, inputs: Seq<Input>) -> bool {
    let end = run(start, inputs);
    &&& end.flow.purpose == start.flow.purpose
    &&& end.flow.stage !is Recalling && end.flow.stage !is Storing
    &&& steps_left(end.flow.stage) <= 4 && end.flow.stage !is Pushing ==> stops(start, inputs)
}

/// Whether a flow has come to ask that the worker be stopped.
pub open spec fn stops(start: Point, inputs: Seq<Input>) -> bool {
    exists|n: int|
        0 <= n <= inputs.len() && (#[trigger] run(start, inputs.take(n))).effect is StopWorker
}

/// A restart stops the worker before it ends, even where the access token could not
/// be made fresh.
pub proof fn law_restart_stops_worker(
    before: AppState,
    purpose: Purpose,
    began: u128,
    inputs: Seq<Input>,
)
    requires
        purpose == Purpose::Restart || purpose == Purpose::MenuRestart,
        proper(refreshing(before, purpose, began), inputs),
        run(refreshing(before, purpose, began), inputs).effect is Finish,
    ensures
        stops(refreshing(before, purpose, began), inputs),
{
    let start = refreshing(before, purpose, began);
    law_flows_stay_in_step(start, inputs);
    lemma_restarts(start, inputs);
}

proof fn lemma_restarts(start: Point, inputs: Seq<Input>)
    requires
        start.flow.purpose == Purpose::Restart || start.flow.purpose == Purpose::MenuRestart,
        start.flow.stage is Loading || (start.flow.stage is Stopping && start.effect is StopWorker),
        in_step(start),
        proper(start, inputs),
    ensures
        restarts(start, inputs),
    decreases inputs.len(),
{
    assert(inputs.take(inputs.len() as int) =~= inputs);
    if inputs.len() == 0 {
        assert(inputs.take(0) =~= inputs);
        if start.flow.stage is Stopping {
            assert(run(start, inputs.take(0)).effect is StopWorker);
        }
    } else {
        let earlier = inputs.drop_last();
        lemma_restarts(start, earlier);
        law_flows_stay_in_step(start, earlier);
        law_flows_stay_in_step(start, inputs);
        if stops(start, earlier) {
            let n = choose|n: int|
                0 <= n <= earlier.len() && (#[trigger] run(start, earlier.take(n))).effect is StopWorker;
            assert(inputs.take(n) =~= earlier.take(n));
            assert(run(start, inputs.take(n)).effect is StopWorker);
        } else if run(start, inputs).flow.stage is Stopping {
            assert(run(start, inputs.take(inputs.len() as int)).effect is StopWorker);
        }
    }
}

/// Signing out ends the session at once, has the stored refresh token deleted, then
/// has the worker stopped, and then succeeds.
pub proof fn law_sign_out_clears_and_stops(before: AppState, inputs: Seq<Input>)
    requires
        proper(signing_out(before), inputs),
    ensures
        ({
            let end = run(signing_out(before), inputs);
            &&& inputs.len() <= 2
            &&& end.state == signed_out(before)
            &&& end.effect == if inputs.len() == 0 {
                Effect::ClearRefresh
            } else if inputs.len() == 1 {
                Effect::StopWorker
            } else {
                Effect::Finish { outcome: Ok(()) }
            }
        }),
    decreases inputs.len(),
{
    law_flows_stay_in_step(signing_out(before), inputs);
    if inputs.len() > 0 {
        law_sign_out_clears_and_stops(before, inputs.drop_last());
        law_flows_stay_in_step(signing_out(before), inputs.drop_last());
        lemma_purpose_stays(signing_out(before), inputs.drop_last());
    }
}

/// A workspace that was picked is stored, then offered to the worker, and then the
/// flow succeeds. The state stays as the pick has left it.
pub proof fn law_picked_workspace_is_stored_and_offered(state: AppState, inputs: Seq<Input>)
    requires
        proper(workspace_picked(state), inputs),
    ensures
        ({
            let end = run(workspace_picked(state), inputs);
            &&& inputs.len() <= 2
            &&& end.state == state
            &&& end.effect == if inputs.len() == 0 {
                Effect::PersistWorkspaces
            } else if inputs.len() == 1 {
                Effect::SyncWorkspaces
            } else {
                Effect::Finish { outcome: Ok(()) }
            }
        }),
    decreases inputs.len(),
{
    law_flows_stay_in_step(workspace_picked(state), inputs);
    if inputs.len() > 0 {
        law_picked_workspace_is_stored_and_offered(state, inputs.drop_last());
        law_flows_stay_in_step(workspace_picked(state), inputs.drop_last());
        lemma_purpose_stays(workspace_picked(state), inputs.drop_last());
    }
}

/// Quitting has the worker stopped, then has the app exit, and leaves the state as it
/// was.
pub proof fn law_quit_stops_worker_first(state: AppState, inputs: Seq<Input>)
    requires
        proper(quitting(state), inputs),
    ensures
        ({
            let end = run(quitting(state), inputs);
            &&& inputs.len() <= 2
            &&& end.state == state
            &&& end.effect == if inputs.len() == 0 {
                Effect::StopWorker
            } else if inputs.len() == 1 {
                Effect::Exit
            } else {
                Effect::Finish { outcome: Ok(()) }
            }
        }),
    decreases inputs.len(),
{
    law_flows_stay_in_step(quitting(state), inputs);
    if inputs.len() > 0 {
        law_quit_stops_worker_first(state, inputs.drop_last());
        law_flows_stay_in_step(quitting(state), inputs.drop_last());
        lemma_purpose_stays(quitting(state), inputs.drop_last());
    }
}

proof fn lemma_purpose_stays(start: Point, inputs: Seq<Input>)
    ensures
        run(start, inputs).flow.purpose == start.flow.purpose,
    decreases inputs.len(),
{
    if inputs.len() > 0 {
        lemma_purpose_stays(start, inputs.drop_last());
    }
}

/// Whether no refresh token was found stored whenever one was looked up.
pub open spec fn none_stored(inputs: Seq<Input>) -> bool {
    forall|n: int|
        0 <= n < inputs.len() ==> (#[trigger] inputs[n].event matches Event::RefreshLoaded {
            stored,
        } ==> not_blank(stored) is None)
}

/// Whether a flow begins that is handed no session.
pub open spec fn goes_without_sign_in(state: AppState, start: Point) -> bool {
    ||| start == asking(state)
    ||| start == launching(state)
    ||| start == signing_out(state)
    ||| start == workspace_picked(state)
    ||| start == quitting(state)
    ||| exists|purpose: Purpose, now: u128|
        (purpose == Purpose::KeepFresh || purpose == Purpose::Restart || purpose
            == Purpose::MenuRestart) && start == #[trigger] refreshing(state, purpose, now)
}

/// Where there is no session and no refresh token is stored, only a sign-in brings a
/// session. Any other flow leaves the state as it was. It makes no request, stores no
/// refresh token, and neither starts a worker nor sends it anything.
pub proof fn law_no_session_comes_of_itself(state: AppState, start: Point, inputs: Seq<Input>)
    requires
        state == signed_out(state),
        goes_without_sign_in(state, start),
        proper(start, inputs),
        none_stored(inputs),
    ensures
        run(start, inputs).state == state,
        ({
            let effect = run(start, inputs).effect;
            &&& effect !is RequestToken && effect !is SaveRefresh
            &&& effect !is StartWorker && effect !is SendToWorker
        }),
{
    lemma_stays_out(state, start, inputs);
    law_flows_stay_in_step(start, inputs);
}

/// A session that was signed out is not revived. Once the sign-out is over, the state
/// stays signed out through any flow that is handed no session, as long as no refresh
/// token is found stored: the one that there was has been deleted, and only a sign-in
/// or an answer to a request stores another. Nor is a worker started meanwhile.
pub proof fn law_signed_out_session_is_not_revived(
    before: AppState,
    sign_out: Seq<Input>,
    start: Point,
    inputs: Seq<Input>,
)
    requires
        proper(signing_out(before), sign_out),
        run(signing_out(before), sign_out).effect is Finish,
        goes_without_sign_in(run(signing_out(before), sign_out).state, start),
        proper(start, inputs),
        none_stored(inputs),
    ensures
        run(signing_out(before), sign_out.take(0)).effect is ClearRefresh,
        run(signing_out(before), sign_out.take(1)).effect is StopWorker,
        run(start, inputs).state == signed_out(before),
        usable_token(run(start, inputs).state.tokens) is None,
        ({
            let effect = run(start, inputs).effect;
            &&& effect !is RequestToken && effect !is SaveRefresh
            &&& effect !is StartWorker && effect !is SendToWorker
        }),
{
    law_sign_out_clears_and_stops(before, sign_out);
    assert(sign_out.take(1) =~= sign_out.drop_last());
    assert(sign_out.take(0) =~= sign_out.drop_last().drop_last());
    law_sign_out_clears_and_stops(before, sign_out.take(0));
    law_sign_out_clears_and_stops(before, sign_out.take(1));
    law_no_session_comes_of_itself(signed_out(before), start, inputs);
}

proof fn lemma_stays_out(state: AppState, start: Point, inputs: Seq<Input>)
    requires
        state == signed_out(state),
        goes_without_sign_in(state, start),
        proper(start, inputs),
        none_stored(inputs),
    ensures
        run(start, inputs).state == state,
        in_step(start),
        ({
            let flow = run(start, inputs).flow;
            &&& flow.purpose != Purpose::SetSession && flow.purpose != Purpose::AcceptLink
            &&& match flow.stage {
                Stage::Requesting | Stage::Reading | Stage::Rotating { .. } | Stage::Pushing => false,
                Stage::Storing { .. } | Stage::Starting => false,
                _ => true,
            }
        }),
    decreases inputs.len(),
{
    if inputs.len() > 0 {
        assert forall|n: int| 0 <= n < inputs.drop_last().len() implies (
        #[trigger] inputs.drop_last()[n].event matches Event::RefreshLoaded { stored }
            ==> not_blank(stored) is None) by {
            assert(inputs.drop_last()[n] == inputs[n]);
        }
        lemma_stays_out(state, start, inputs.drop_last());
        assert(inputs.last() == inputs[inputs.len() - 1]);
    }
}

} // verus!
