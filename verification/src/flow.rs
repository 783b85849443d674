//! Sessions and the worker, step by step: what is asked of the world outside, and
//! what follows from its answer.
//!
//! A flow starts with one of the functions that give a `Flow` and a first `Effect`.
//! The caller performs the effect and hands its outcome to `AppState::resume`, until
//! the effect is `Finish`.

use vstd::prelude::*;
use vstd::string::*;

use crate::identity::{is_uuid_v4, new_uuid};
use crate::laws::{
    accepting_link, asking, launching, quitting, reached, setting_session, signing_out,
    step, workspace_picked, Input, Point,
};
use crate::link::SignIn;
use crate::message::Message;
use crate::paths::workspace_name;
use crate::state::{
    same_but_session, signed_in, signed_out, usable_token, with_one_more, AppState,
};
use crate::workspace::LocalWorkspace;

verus! {

/// What a flow is for.
#[derive(Clone, Copy, PartialEq, Eq, Structural, Debug)]
pub enum Purpose {
    /// A session that the web app hands over.
    SetSession,
    /// A session that came in a link.
    AcceptLink,
    /// An access token that is not too old.
    KeepFresh,
    /// The worker is started anew, and the caller is told if it cannot be.
    Restart,
    /// The worker is started anew from the menu.
    MenuRestart,
    /// The app comes up, and takes up a session that was stored.
    Launch,
    /// The session is ended.
    SignOut,
    /// A workspace has been added.
    PickWorkspace,
    /// The app is ended.
    Quit,
}

/// What a flow waits for.
pub enum Stage {
    /// Whether there is a session to take up.
    Recalling,
    /// The stored refresh token.
    Loading,
    /// The status of the answer to the request for a new access token.
    Requesting,
    /// The body of that answer.
    Reading,
    /// That the refresh token in it is stored. The access token in it is kept
    /// meanwhile.
    Rotating { access_token: String },
    /// That the worker has been sent the new access token.
    Pushing,
    /// That the refresh token of a new session is stored. Its access token is kept
    /// meanwhile.
    Storing { access_token: String },
    /// That the worker has stopped.
    Stopping,
    /// That the worker has started.
    Starting,
    /// That the workspaces are on their way to the worker.
    Syncing,
    /// That the sign-in has been shown.
    Announcing,
    /// That the stored refresh token is deleted.
    Clearing,
    /// That the workspaces are stored.
    Persisting,
    /// That the app is told to exit.
    Exiting,
    /// Nothing more.
    Finished,
}

/// A flow: what it is for and what it waits for.
pub struct Flow {
    pub purpose: Purpose,
    pub stage: Stage,
}

/// Why a flow did not get where it was to go.
pub enum Failure {
    /// A session was to be set without an access token.
    MissingAccessToken,
    /// The request for a new access token was refused.
    TokenRefused { status_text: String },
    /// The answer to it is not JSON.
    BodyNotJson,
    /// The answer to it holds no access token.
    TokenEmpty,
    /// What the world outside said.
    Other { message: String },
}

/// What is asked of the world outside.
pub enum Effect {
    /// Look up the stored refresh token. Answered by `RefreshLoaded`.
    LoadRefresh,
    /// Send the request for a new access token. Answered by `TokenAnswered`.
    RequestToken { refresh_token: String },
    /// Read the body of the answer. Answered by `BodyRead`.
    ReadBody,
    /// Store a refresh token. Answered by `RefreshSaved`.
    SaveRefresh { refresh_token: String },
    /// Send the worker a message, whether it answers or not. Answered by `Sent`.
    SendToWorker { message: Message },
    /// Stop the worker, if there is one. Answered by `WorkerStopped`.
    StopWorker,
    /// Start a worker that works with this access token. Answered by
    /// `WorkerStarted`.
    StartWorker { access_token: String },
    /// Offer the workspaces to the worker. Answered by `Synced`.
    SyncWorkspaces,
    /// Tell the web app of the sign-in, show the window and notify the user.
    /// Answered by `Announced`.
    AnnounceSignIn,
    /// Delete the stored refresh token, if there is one. Answered by
    /// `RefreshCleared`.
    ClearRefresh,
    /// Store the workspaces. Answered by `WorkspacesPersisted`.
    PersistWorkspaces,
    /// Have the app exit. Answered by `Exited`.
    Exit,
    /// Nothing: the flow is over.
    Finish { outcome: Result<(), Failure> },
}

/// How an answer begins.
pub struct Status {
    pub code: u16,
    pub text: String,
}

/// The tokens that the body of an answer holds.
pub struct TokenBody {
    pub access_token: Option<String>,
    pub refresh_token: Option<String>,
}

/// What came of an effect.
pub enum Event {
    RefreshLoaded { stored: Option<String> },
    TokenAnswered { answer: Result<Status, String> },
    BodyRead { body: Result<TokenBody, Failure> },
    RefreshSaved { outcome: Result<(), String> },
    Sent,
    WorkerStopped,
    WorkerStarted { outcome: Result<(), String> },
    Synced,
    Announced,
    RefreshCleared,
    WorkspacesPersisted,
    Exited,
}

/// Whether this is the kind of event that a flow waits for.
pub open spec fn awaited(stage: Stage, event: Event) -> bool {
    match stage {
        Stage::Recalling | Stage::Loading => event is RefreshLoaded,
        Stage::Requesting => event is TokenAnswered,
        Stage::Reading => event is BodyRead,
        Stage::Rotating { .. } | Stage::Storing { .. } => event is RefreshSaved,
        Stage::Pushing => event is Sent,
        Stage::Stopping => event is WorkerStopped,
        Stage::Starting => event is WorkerStarted,
        Stage::Syncing => event is Synced,
        Stage::Announcing => event is Announced,
        Stage::Clearing => event is RefreshCleared,
        Stage::Persisting => event is WorkspacesPersisted,
        Stage::Exiting => event is Exited,
        Stage::Finished => false,
    }
}

/// Whether this is the kind of event that a flow waits for.
pub fn is_awaited(stage: &Stage, event: &Event) -> (answer: bool)
    ensures
        answer == awaited(*stage, *event),
{
    match (stage, event) {
        (Stage::Recalling, Event::RefreshLoaded { .. }) => true,
        (Stage::Loading, Event::RefreshLoaded { .. }) => true,
        (Stage::Requesting, Event::TokenAnswered { .. }) => true,
        (Stage::Reading, Event::BodyRead { .. }) => true,
        (Stage::Rotating { .. }, Event::RefreshSaved { .. }) => true,
        (Stage::Storing { .. }, Event::RefreshSaved { .. }) => true,
        (Stage::Pushing, Event::Sent) => true,
        (Stage::Stopping, Event::WorkerStopped) => true,
        (Stage::Starting, Event::WorkerStarted { .. }) => true,
        (Stage::Syncing, Event::Synced) => true,
        (Stage::Announcing, Event::Announced) => true,
        (Stage::Clearing, Event::RefreshCleared) => true,
        (Stage::Persisting, Event::WorkspacesPersisted) => true,
        (Stage::Exiting, Event::Exited) => true,
        _ => false,
    }
}

/// A text, unless there is none or it is empty.
pub open spec fn not_blank(text: Option<String>) -> Option<String> {
    match text {
        Some(text) if text@.len() > 0 => Some(text),
        _ => None,
    }
}

/// A text, unless there is none or it is empty.
pub fn filled(text: Option<String>) -> (filled: Option<String>)
    ensures
        filled == not_blank(text),
{
    match text {
        Some(text) => if text.as_str().is_empty() {
            None
        } else {
            Some(text)
        },
        None => None,
    }
}

/// How a flow goes on: what it waits for, and what is asked for meanwhile.
pub struct Next {
    pub stage: Stage,
    pub effect: Effect,
}

/// The flow is over.
pub open spec fn finish(outcome: Result<(), Failure>) -> Next {
    Next { stage: Stage::Finished, effect: Effect::Finish { outcome } }
}

/// The worker is stopped. What follows is another matter for each purpose.
pub open spec fn stop() -> Next {
    Next { stage: Stage::Stopping, effect: Effect::StopWorker }
}

/// The workspaces are offered to the worker.
pub open spec fn sync() -> Next {
    Next { stage: Stage::Syncing, effect: Effect::SyncWorkspaces }
}

/// A new access token is asked for.
pub open spec fn refresh() -> Next {
    Next { stage: Stage::Loading, effect: Effect::LoadRefresh }
}

/// What follows once the access token has been made fresh, or could not be. A
/// restart goes on either way. A launch goes on only with a fresh token, and ends
/// without complaint.
pub open spec fn after_refresh(purpose: Purpose, outcome: Result<(), Failure>) -> Next {
    match purpose {
        Purpose::Restart | Purpose::MenuRestart => stop(),
        Purpose::Launch => if outcome is Ok {
            stop()
        } else {
            finish(Ok(()))
        },
        _ => finish(outcome),
    }
}

/// What follows once the worker has been started, or could not be, or was not to
/// be. Only those who set a session or ask for a restart are told of a failure, and
/// the workspaces then stay where they are.
pub open spec fn after_start(purpose: Purpose, outcome: Result<(), String>) -> Next {
    match outcome {
        Err(message) if purpose == Purpose::SetSession || purpose == Purpose::Restart => finish(
            Err(Failure::Other { message }),
        ),
        _ => sync(),
    }
}

/// What follows where the access token is to be fresh.
pub open spec fn with_fresh_access(state: AppState, purpose: Purpose, now: u128) -> Next {
    if state.fresh(now) {
        after_refresh(purpose, Ok(()))
    } else {
        refresh()
    }
}

/// What follows once a new access token has been taken up: the worker is sent it.
pub open spec fn push_token(access_token: String) -> Next {
    Next {
        stage: Stage::Pushing,
        effect: Effect::SendToWorker { message: Message::Token { access_token } },
    }
}

/// Whether a status code says that a request succeeded.
pub open spec fn is_success(code: u16) -> bool {
    200 <= code <= 299
}

/// What follows once the stored refresh token is known, and the access token is to
/// be made fresh: it is asked for with the stored token, where there is one.
pub open spec fn after_load(purpose: Purpose, stored: Option<String>) -> Next {
    match not_blank(stored) {
        Some(refresh_token) => Next {
            stage: Stage::Requesting,
            effect: Effect::RequestToken { refresh_token },
        },
        None => after_refresh(purpose, Ok(())),
    }
}

/// What follows once the request has been answered: the body is read where the
/// answer is a success.
pub open spec fn after_request(purpose: Purpose, answer: Result<Status, String>) -> Next {
    match answer {
        Ok(status) => if is_success(status.code) {
            Next { stage: Stage::Reading, effect: Effect::ReadBody }
        } else {
            after_refresh(purpose, Err(Failure::TokenRefused { status_text: status.text }))
        },
        Err(message) => after_refresh(purpose, Err(Failure::Other { message })),
    }
}

/// What follows once the body has been read: an access token in it is taken up, but
/// first a refresh token in it is stored.
pub open spec fn after_body(
    state: AppState,
    purpose: Purpose,
    body: Result<TokenBody, Failure>,
    now: u128,
) -> (AppState, Next) {
    match body {
        Err(failure) => (state, after_refresh(purpose, Err(failure))),
        Ok(tokens) => match not_blank(tokens.access_token) {
            None => (state, after_refresh(purpose, Err(Failure::TokenEmpty))),
            Some(access_token) => match not_blank(tokens.refresh_token) {
                Some(refresh_token) => (
                    state,
                    Next {
                        stage: Stage::Rotating { access_token },
                        effect: Effect::SaveRefresh { refresh_token },
                    },
                ),
                None => (signed_in(state, access_token, now), push_token(access_token)),
            },
        },
    }
}

/// What follows once the new refresh token has been stored, or could not be. Without
/// it the new access token is not taken up.
pub open spec fn after_rotation(
    state: AppState,
    purpose: Purpose,
    access_token: String,
    outcome: Result<(), String>,
    now: u128,
) -> (AppState, Next) {
    match outcome {
        Ok(()) => (signed_in(state, access_token, now), push_token(access_token)),
        Err(message) => (state, after_refresh(purpose, Err(Failure::Other { message }))),
    }
}

/// What follows once the refresh token of a new session has been stored, or could
/// not be. A session that the web app hands over is then refused; one that came in
/// a link is taken up all the same.
pub open spec fn after_store(
    state: AppState,
    purpose: Purpose,
    access_token: String,
    outcome: Result<(), String>,
    now: u128,
) -> (AppState, Next) {
    match outcome {
        Err(message) if purpose == Purpose::SetSession => (
            state,
            finish(Err(Failure::Other { message })),
        ),
        _ => (signed_in(state, access_token, now), stop()),
    }
}

/// What follows once the worker has stopped. Where the session or the app is ended
/// that is the end of it. Else a new one is started, where there is an access token
/// for it.
pub open spec fn after_stop(state: AppState, purpose: Purpose) -> Next {
    match purpose {
        Purpose::SignOut => finish(Ok(())),
        Purpose::Quit => Next { stage: Stage::Exiting, effect: Effect::Exit },
        _ => match usable_token(state.tokens) {
            Some(access_token) => Next {
                stage: Stage::Starting,
                effect: Effect::StartWorker { access_token },
            },
            None => after_start(purpose, Ok(())),
        },
    }
}

/// What follows once the workspaces are on their way.
pub open spec fn after_sync(purpose: Purpose) -> Next {
    if purpose == Purpose::AcceptLink {
        Next { stage: Stage::Announcing, effect: Effect::AnnounceSignIn }
    } else {
        finish(Ok(()))
    }
}

/// The state and the rest of a flow after an event that it waited for.
pub open spec fn after(state: AppState, flow: Flow, event: Event, now: u128) -> (AppState, Next) {
    let purpose = flow.purpose;
    match (flow.stage, event) {
        (Stage::Recalling, Event::RefreshLoaded { stored }) => (
            state,
            if not_blank(stored) is Some {
                with_fresh_access(state, purpose, now)
            } else {
                finish(Ok(()))
            },
        ),
        (Stage::Loading, Event::RefreshLoaded { stored }) => (state, after_load(purpose, stored)),
        (Stage::Requesting, Event::TokenAnswered { answer }) => (
            state,
            after_request(purpose, answer),
        ),
        (Stage::Reading, Event::BodyRead { body }) => after_body(state, purpose, body, now),
        (Stage::Rotating { access_token }, Event::RefreshSaved { outcome }) => after_rotation(
            state,
            purpose,
            access_token,
            outcome,
            now,
        ),
        (Stage::Pushing, Event::Sent) => (state, after_refresh(purpose, Ok(()))),
        (Stage::Storing { access_token }, Event::RefreshSaved { outcome }) => after_store(
            state,
            purpose,
            access_token,
            outcome,
            now,
        ),
        (Stage::Stopping, Event::WorkerStopped) => (state, after_stop(state, purpose)),
        (Stage::Starting, Event::WorkerStarted { outcome }) => (
            state,
            after_start(purpose, outcome),
        ),
        (Stage::Syncing, Event::Synced) => (state, after_sync(purpose)),
        (Stage::Announcing, Event::Announced) => (state, finish(Ok(()))),
        (Stage::Clearing, Event::RefreshCleared) => (state, stop()),
        (Stage::Persisting, Event::WorkspacesPersisted) => (state, sync()),
        (Stage::Exiting, Event::Exited) => (state, finish(Ok(()))),
        _ => (state, finish(Ok(()))),
    }
}

/// What follows where a session is to be taken up: its refresh token is stored
/// first, where there is one.
pub open spec fn take_up(
    state: AppState,
    access_token: String,
    refresh_token: String,
    now: u128,
) -> (AppState, Next) {
    if refresh_token@.len() > 0 {
        (
            state,
            Next {
                stage: Stage::Storing { access_token },
                effect: Effect::SaveRefresh { refresh_token },
            },
        )
    } else {
        (signed_in(state, access_token, now), stop())
    }
}

/// What follows where the web app hands over a session. One without an access token
/// is refused.
pub open spec fn session_set(
    state: AppState,
    access_token: String,
    refresh_token: String,
    now: u128,
) -> (AppState, Next) {
    if access_token@.len() == 0 {
        (state, finish(Err(Failure::MissingAccessToken)))
    } else {
        take_up(state, access_token, refresh_token, now)
    }
}

/// What follows where a session came in a link. One without an access token is
/// passed over.
pub open spec fn link_opened(state: AppState, sign_in: SignIn, now: u128) -> (AppState, Next) {
    if sign_in.access_token@.len() == 0 {
        (state, finish(Ok(())))
    } else {
        take_up(state, sign_in.access_token, sign_in.refresh_token, now)
    }
}

/// What follows where the session is ended: the stored refresh token is deleted.
pub open spec fn session_ended() -> Next {
    Next { stage: Stage::Clearing, effect: Effect::ClearRefresh }
}

/// What follows where a workspace has been added: the workspaces are stored.
pub open spec fn workspace_added() -> Next {
    Next { stage: Stage::Persisting, effect: Effect::PersistWorkspaces }
}

/// What follows where the app comes up.
pub open spec fn launched() -> Next {
    Next { stage: Stage::Recalling, effect: Effect::LoadRefresh }
}

/// The flow for a purpose, and what is asked for first.
pub open spec fn begun(purpose: Purpose, next: Next) -> (Flow, Effect) {
    (Flow { purpose, stage: next.stage }, next.effect)
}

fn begin(purpose: Purpose, next: Next) -> (begun: (Flow, Effect))
    ensures
        begun == self::begun(purpose, next),
{
    (Flow { purpose, stage: next.stage }, next.effect)
}

fn finished(outcome: Result<(), Failure>) -> (next: Next)
    ensures
        next == finish(outcome),
{
    Next { stage: Stage::Finished, effect: Effect::Finish { outcome } }
}

fn stopping() -> (next: Next)
    ensures
        next == stop(),
{
    Next { stage: Stage::Stopping, effect: Effect::StopWorker }
}

fn refreshed(purpose: Purpose, outcome: Result<(), Failure>) -> (next: Next)
    ensures
        next == after_refresh(purpose, outcome),
{
    match purpose {
        Purpose::Restart | Purpose::MenuRestart => stopping(),
        Purpose::Launch => match outcome {
            Ok(()) => stopping(),
            Err(_) => finished(Ok(())),
        },
        _ => finished(outcome),
    }
}

fn started(purpose: Purpose, outcome: Result<(), String>) -> (next: Next)
    ensures
        next == after_start(purpose, outcome),
{
    if let Err(message) = outcome {
        if purpose == Purpose::SetSession || purpose == Purpose::Restart {
            return finished(Err(Failure::Other { message }));
        }
    }
    syncing()
}

fn syncing() -> (next: Next)
    ensures
        next == sync(),
{
    Next { stage: Stage::Syncing, effect: Effect::SyncWorkspaces }
}

fn pushing(access_token: String) -> (next: Next)
    ensures
        next == push_token(access_token),
{
    Next {
        stage: Stage::Pushing,
        effect: Effect::SendToWorker { message: Message::Token { access_token } },
    }
}

fn refreshing() -> (next: Next)
    ensures
        next == refresh(),
{
    Next { stage: Stage::Loading, effect: Effect::LoadRefresh }
}

impl AppState {
    fn fresh_or_refresh(&self, purpose: Purpose, now: u128) -> (next: Next)
        ensures
            next == with_fresh_access(*self, purpose, now),
    {
        if self.has_fresh(now) {
            refreshed(purpose, Ok(()))
        } else {
            refreshing()
        }
    }

    /// Sets the session that the web app hands over, stores its refresh token where
    /// there is one, and starts the worker with it.
    pub fn set_session(&mut self, access_token: String, refresh_token: String, now: u128) -> (begun:
        (Flow, Effect))
        ensures
            (*final(self), begun) == ({
                let (state, next) = session_set(*old(self), access_token, refresh_token, now);
                (state, self::begun(Purpose::SetSession, next))
            }),
            reached(*final(self), begun) == setting_session(
                *old(self),
                access_token,
                refresh_token,
                now,
            ),
    {
        if access_token.as_str().is_empty() {
            return begin(Purpose::SetSession, finished(Err(Failure::MissingAccessToken)));
        }
        let next = self.store_first(access_token, refresh_token, now);
        begin(Purpose::SetSession, next)
    }

    fn store_first(&mut self, access_token: String, refresh_token: String, now: u128) -> (next:
        Next)
        ensures
            (*final(self), next) == take_up(*old(self), access_token, refresh_token, now),
    {
        if refresh_token.as_str().is_empty() {
            self.sign_in(access_token, now);
            stopping()
        } else {
            Next {
                stage: Stage::Storing { access_token },
                effect: Effect::SaveRefresh { refresh_token },
            }
        }
    }

    /// Takes up the session that came in a link, stores its refresh token where
    /// there is one, starts the worker with it and announces it.
    pub fn accept_link(&mut self, sign_in: SignIn, now: u128) -> (begun: (Flow, Effect))
        ensures
            (*final(self), begun) == ({
                let (state, next) = link_opened(*old(self), sign_in, now);
                (state, self::begun(Purpose::AcceptLink, next))
            }),
            reached(*final(self), begun) == accepting_link(*old(self), sign_in, now),
    {
        if sign_in.access_token.as_str().is_empty() {
            return begin(Purpose::AcceptLink, finished(Ok(())));
        }
        let next = self.store_first(sign_in.access_token, sign_in.refresh_token, now);
        begin(Purpose::AcceptLink, next)
    }

    /// Sees to it that the access token is not too old.
    pub fn ensure_fresh_access(&self, now: u128) -> (begun: (Flow, Effect))
        ensures
            begun == self::begun(
                Purpose::KeepFresh,
                with_fresh_access(*self, Purpose::KeepFresh, now),
            ),
            reached(*self, begun) == crate::laws::refreshing(*self, Purpose::KeepFresh, now),
    {
        begin(Purpose::KeepFresh, self.fresh_or_refresh(Purpose::KeepFresh, now))
    }

    /// Asks for a new access token, however old the one that is held.
    pub fn refresh_access(&self) -> (begun: (Flow, Effect))
        ensures
            begun == self::begun(Purpose::KeepFresh, refresh()),
            reached(*self, begun) == asking(*self),
    {
        begin(Purpose::KeepFresh, refreshing())
    }

    /// Ends the session. The stored refresh token is deleted, and then the worker is
    /// stopped.
    pub fn auth_sign_out(&mut self) -> (begun: (Flow, Effect))
        ensures
            *final(self) == signed_out(*old(self)),
            final(self).valid(),
            begun == self::begun(Purpose::SignOut, session_ended()),
            reached(*final(self), begun) == signing_out(*old(self)),
            final(self).tokens is None,
            final(self).access_issued_at is None,
            same_but_session(*old(self), *final(self)),
    {
        self.tokens = None;
        self.access_issued_at = None;
        begin(Purpose::SignOut, Next { stage: Stage::Clearing, effect: Effect::ClearRefresh })
    }

    /// Adds the workspace that was picked, under a fresh id. The workspaces are then
    /// stored, and offered to the worker. Nothing is added where none was picked, or
    /// where what was picked has no path.
    pub fn pick_workspace(&mut self, folder: Option<Result<String, String>>) -> (picked: Result<
        (LocalWorkspace, (Flow, Effect)),
        String,
    >)
        ensures
            folder is None ==> (picked matches Err(error) && error@ == "cancelled"@),
            folder matches Some(Err(error)) ==> picked == Err::<
                (LocalWorkspace, (Flow, Effect)),
                String,
            >(error),
            folder matches Some(Ok(path)) ==> {
                &&& picked matches Ok((workspace, begun))
                &&& is_uuid_v4(workspace.id@)
                &&& workspace.name@ == workspace_name(path@)
                &&& workspace.path == path
                &&& final(self).workspaces@ == old(self).workspaces@.push(workspace)
                &&& begun == self::begun(Purpose::PickWorkspace, workspace_added())
                &&& reached(*final(self), begun) == workspace_picked(*final(self))
                &&& final(self).workspaces@ == with_one_more(old(self).workspaces@, workspace)
            },
            picked is Err ==> *final(self) == *old(self),
            *final(self) == (AppState { workspaces: final(self).workspaces, ..*old(self) }),
    {
        match folder {
            None => Err("cancelled".to_owned()),
            Some(Err(error)) => Err(error),
            Some(Ok(path)) => {
                let workspace = self.add_workspace(new_uuid(), path);
                let next = Next { stage: Stage::Persisting, effect: Effect::PersistWorkspaces };
                Ok((workspace, begin(Purpose::PickWorkspace, next)))
            },
        }
    }

    /// Ends the app. The worker is stopped, and then the app exits.
    pub fn quit(&self) -> (begun: (Flow, Effect))
        ensures
            begun == self::begun(Purpose::Quit, stop()),
            reached(*self, begun) == quitting(*self),
    {
        begin(Purpose::Quit, stopping())
    }

    /// Starts the worker anew, with a fresh access token where one can be had, and
    /// tells if it cannot be started.
    pub fn restart_worker(&self, now: u128) -> (begun: (Flow, Effect))
        ensures
            begun == self::begun(
                Purpose::Restart,
                with_fresh_access(*self, Purpose::Restart, now),
            ),
            reached(*self, begun) == crate::laws::refreshing(*self, Purpose::Restart, now),
    {
        begin(Purpose::Restart, self.fresh_or_refresh(Purpose::Restart, now))
    }

    /// Starts the worker anew, with a fresh access token where one can be had.
    pub fn menu_restart(&self, now: u128) -> (begun: (Flow, Effect))
        ensures
            begun == self::begun(
                Purpose::MenuRestart,
                with_fresh_access(*self, Purpose::MenuRestart, now),
            ),
            reached(*self, begun) == crate::laws::refreshing(*self, Purpose::MenuRestart, now),
    {
        begin(Purpose::MenuRestart, self.fresh_or_refresh(Purpose::MenuRestart, now))
    }

    /// Takes up the session that was stored, if there is one, and starts the worker
    /// with it.
    pub fn launch(&self) -> (begun: (Flow, Effect))
        ensures
            begun == self::begun(Purpose::Launch, launched()),
            reached(*self, begun) == launching(*self),
    {
        begin(Purpose::Launch, Next { stage: Stage::Recalling, effect: Effect::LoadRefresh })
    }

    /// Goes on with a flow after an event that it waited for.
    pub fn resume(&mut self, flow: Flow, event: Event, now: u128) -> (begun: (Flow, Effect))
        requires
            awaited(flow.stage, event),
        ensures
            (*final(self), begun) == ({
                let (state, next) = after(*old(self), flow, event, now);
                (state, self::begun(flow.purpose, next))
            }),
            reached(*final(self), begun) == step(
                (Point { state: *old(self), flow, effect: begun.1 }),
                (Input { event, now }),
            ),
    {
        let purpose = flow.purpose;
        let next = match (flow.stage, event) {
            (Stage::Recalling, Event::RefreshLoaded { stored }) => match filled(stored) {
                Some(_) => self.fresh_or_refresh(purpose, now),
                None => finished(Ok(())),
            },
            (Stage::Loading, Event::RefreshLoaded { stored }) => match filled(stored) {
                Some(refresh_token) => Next {
                    stage: Stage::Requesting,
                    effect: Effect::RequestToken { refresh_token },
                },
                None => refreshed(purpose, Ok(())),
            },
            (Stage::Requesting, Event::TokenAnswered { answer }) => match answer {
                Ok(status) => if 200 <= status.code && status.code <= 299 {
                    Next { stage: Stage::Reading, effect: Effect::ReadBody }
                } else {
                    refreshed(purpose, Err(Failure::TokenRefused { status_text: status.text }))
                },
                Err(message) => refreshed(purpose, Err(Failure::Other { message })),
            },
            (Stage::Reading, Event::BodyRead { body }) => self.read_body(purpose, body, now),
            (Stage::Rotating { access_token }, Event::RefreshSaved { outcome }) => match outcome {
                Ok(()) => {
                    self.sign_in(access_token.clone(), now);
                    pushing(access_token)
                },
                Err(message) => refreshed(purpose, Err(Failure::Other { message })),
            },
            (Stage::Pushing, Event::Sent) => refreshed(purpose, Ok(())),
            (Stage::Storing { access_token }, Event::RefreshSaved { outcome }) => self.stored(
                purpose,
                access_token,
                outcome,
                now,
            ),
            (Stage::Stopping, Event::WorkerStopped) => self.spawn_worker(purpose),
            (Stage::Starting, Event::WorkerStarted { outcome }) => started(purpose, outcome),
            (Stage::Clearing, Event::RefreshCleared) => stopping(),
            (Stage::Persisting, Event::WorkspacesPersisted) => syncing(),
            (Stage::Syncing, Event::Synced) => if purpose == Purpose::AcceptLink {
                Next { stage: Stage::Announcing, effect: Effect::AnnounceSignIn }
            } else {
                finished(Ok(()))
            },
            _ => finished(Ok(())),
        };
        begin(purpose, next)
    }

    fn read_body(&mut self, purpose: Purpose, body: Result<TokenBody, Failure>, now: u128) -> (next:
        Next)
        ensures
            (*final(self), next) == after_body(*old(self), purpose, body, now),
    {
        let tokens = match body {
            Ok(tokens) => tokens,
            Err(failure) => {
                return refreshed(purpose, Err(failure));
            },
        };
        let access_token = match filled(tokens.access_token) {
            Some(access_token) => access_token,
            None => {
                return refreshed(purpose, Err(Failure::TokenEmpty));
            },
        };
        match filled(tokens.refresh_token) {
            Some(refresh_token) => Next {
                stage: Stage::Rotating { access_token },
                effect: Effect::SaveRefresh { refresh_token },
            },
            None => {
                self.sign_in(access_token.clone(), now);
                pushing(access_token)
            },
        }
    }

    fn stored(
        &mut self,
        purpose: Purpose,
        access_token: String,
        outcome: Result<(), String>,
        now: u128,
    ) -> (next: Next)
        ensures
            (*final(self), next) == after_store(*old(self), purpose, access_token, outcome, now),
    {
        if let Err(message) = outcome {
            if purpose == Purpose::SetSession {
                return finished(Err(Failure::Other { message }));
            }
        }
        self.sign_in(access_token, now);
        stopping()
    }

    /// What follows once the worker has stopped.
    fn spawn_worker(&self, purpose: Purpose) -> (next: Next)
        ensures
            next == after_stop(*self, purpose),
    {
        match purpose {
            Purpose::SignOut => finished(Ok(())),
            Purpose::Quit => Next { stage: Stage::Exiting, effect: Effect::Exit },
            _ => match self.get_access_token() {
                Some(access_token) => Next {
                    stage: Stage::Starting,
                    effect: Effect::StartWorker { access_token },
                },
                None => started(purpose, Ok(())),
            },
        }
    }
}

/// Every text counts as it is, but an empty one.
pub proof fn law_every_text_counts_but_an_empty_one(text: String)
    ensures
        text@.len() > 0 ==> not_blank(Some(text)) == Some(text),
        text@.len() == 0 ==> not_blank(Some(text)) is None,
        not_blank(None) is None,
{
}

} // verus!
