//! What the app knows while it runs: the session, the worker's socket and
//! secret, the workspaces, and where the services are.

use vstd::prelude::*;
use vstd::slice::*;
use vstd::string::*;

use crate::login::{auth_start, login_address};
use crate::json::{json_text, Json};
use crate::message::{
    auth_json, law_messages_say_what_they_are, line_of, message_json, says,
    schedule_workspace_sync, tells_of, Message, WorkspaceSync, SYNC_ATTEMPTS,
};
use crate::paths::{display_name, workspace_name};
use crate::workspace::{copy_all, LocalWorkspace};

verus! {

/// Donna's cloud, where no other is asked for.
pub const DEFAULT_API: &'static str = "https://donna-server-go-production.up.railway.app";

/// Donna's web app, where no other is asked for.
pub const DEFAULT_WEB: &'static str = "https://donnadoesit.com";

/// How long an access token is used before a new one is asked for: fifty minutes,
/// in nanoseconds.
pub const ACCESS_REFRESH_AFTER: u128 = 3_000_000_000_000;

/// The tokens that a session is held with.
pub struct Tokens {
    pub access_token: String,
}

/// What the app knows while it runs.
pub struct AppState {
    pub tokens: Option<Tokens>,
    /// When the access token came, on a clock that counts nanoseconds and never
    /// goes back.
    pub access_issued_at: Option<u128>,
    pub public_device_id: String,
    pub support_dir: String,
    /// The path of the control socket, as the operating system has it.
    pub ipc_socket: Vec<u8>,
    pub ipc_secret: String,
    pub paused: bool,
    pub workspaces: Vec<LocalWorkspace>,
    pub api_base: String,
    pub web_base: String,
}

/// A setting: what was asked for, or else what there is by default.
pub open spec fn setting(asked: Option<Seq<char>>, default: Seq<char>) -> Seq<char> {
    match asked {
        Some(text) => text,
        None => default,
    }
}

/// A setting: what was asked for, or else what there is by default.
pub fn setting_or(asked: Option<String>, default: &str) -> (text: String)
    ensures
        text@ == setting(asked.deep_view(), default@),
{
    match asked {
        Some(text) => text,
        None => default.to_owned(),
    }
}

/// The access token that a session is held with, if there is one and it is not
/// empty.
pub open spec fn usable_token(tokens: Option<Tokens>) -> Option<String> {
    match tokens {
        Some(tokens) if tokens.access_token@.len() > 0 => Some(tokens.access_token),
        _ => None,
    }
}

/// A state with a new access token, which came at `now`.
pub open spec fn signed_in(state: AppState, access_token: String, now: u128) -> AppState {
    AppState { tokens: Some(Tokens { access_token }), access_issued_at: Some(now), ..state }
}

/// A state in which the session has been ended.
pub open spec fn signed_out(state: AppState) -> AppState {
    AppState { tokens: None, access_issued_at: None, ..state }
}

impl Clone for AppState {
    fn clone(&self) -> (copy: AppState)
        ensures
            copy.tokens == self.tokens,
            copy.access_issued_at == self.access_issued_at,
            copy.public_device_id == self.public_device_id,
            copy.support_dir == self.support_dir,
            copy.ipc_socket@ == self.ipc_socket@,
            copy.ipc_secret == self.ipc_secret,
            copy.paused == self.paused,
            copy.workspaces@ == self.workspaces@,
            copy.api_base == self.api_base,
            copy.web_base == self.web_base,
    {
        AppState {
            tokens: match &self.tokens {
                Some(tokens) => Some(Tokens { access_token: tokens.access_token.clone() }),
                None => None,
            },
            access_issued_at: self.access_issued_at,
            public_device_id: self.public_device_id.clone(),
            support_dir: self.support_dir.clone(),
            ipc_socket: slice_to_vec(self.ipc_socket.as_slice()),
            ipc_secret: self.ipc_secret.clone(),
            paused: self.paused,
            workspaces: copy_all(&self.workspaces),
            api_base: self.api_base.clone(),
            web_base: self.web_base.clone(),
        }
    }
}

impl AppState {
    /// Whether the session is whole: either there is none, or there is an access
    /// token that is not empty and it is known when it came.
    pub open spec fn valid(self) -> bool {
        &&& self.tokens is Some <==> self.access_issued_at is Some
        &&& self.tokens matches Some(tokens) ==> tokens.access_token@.len() > 0
    }

    /// Whether the access token is still used at `now`.
    pub open spec fn fresh(self, now: u128) -> bool {
        &&& usable_token(self.tokens) is Some
        &&& self.access_issued_at matches Some(at) && now - at < ACCESS_REFRESH_AFTER
    }

    /// The state at launch: nobody is signed in.
    pub fn new(
        public_device_id: String,
        support_dir: String,
        ipc_socket: Vec<u8>,
        ipc_secret: String,
        api_base: Option<String>,
        web_base: Option<String>,
    ) -> (state: AppState)
        ensures
            state.valid(),
            state.tokens is None,
            state.access_issued_at is None,
            state.public_device_id == public_device_id,
            state.support_dir == support_dir,
            state.ipc_socket == ipc_socket,
            state.ipc_secret == ipc_secret,
            !state.paused,
            state.workspaces@.len() == 0,
            state.api_base@ == setting(api_base.deep_view(), DEFAULT_API@),
            state.web_base@ == setting(web_base.deep_view(), DEFAULT_WEB@),
    {
        AppState {
            tokens: None,
            access_issued_at: None,
            public_device_id,
            support_dir,
            ipc_socket,
            ipc_secret,
            paused: false,
            workspaces: Vec::new(),
            api_base: setting_or(api_base, DEFAULT_API),
            web_base: setting_or(web_base, DEFAULT_WEB),
        }
    }

    /// The access token that the session is held with, if there is one and it is
    /// not empty.
    pub fn get_access_token(&self) -> (token: Option<String>)
        ensures
            token == usable_token(self.tokens),
    {
        match &self.tokens {
            Some(tokens) => if tokens.access_token.as_str().is_empty() {
                None
            } else {
                Some(tokens.access_token.clone())
            },
            None => None,
        }
    }

    /// The tokens that the session is held with, if there are any and they are not
    /// empty.
    pub fn auth_session(&self) -> (session: Option<Tokens>)
        ensures
            session == match usable_token(self.tokens) {
                Some(access_token) => Some(Tokens { access_token }),
                None => None,
            },
    {
        match self.get_access_token() {
            Some(access_token) => Some(Tokens { access_token }),
            None => None,
        }
    }

    /// Whether the access token is still used at `now`.
    pub fn has_fresh(&self, now: u128) -> (fresh: bool)
        ensures
            fresh == self.fresh(now),
    {
        let held = match &self.tokens {
            Some(tokens) => !tokens.access_token.as_str().is_empty(),
            None => false,
        };
        match self.access_issued_at {
            Some(at) => held && (now < at || now - at < ACCESS_REFRESH_AFTER),
            None => false,
        }
    }

    /// Takes up a new access token.
    pub(crate) fn sign_in(&mut self, access_token: String, now: u128)
        ensures
            *final(self) == signed_in(*old(self), access_token, now),
    {
        self.tokens = Some(Tokens { access_token });
        self.access_issued_at = Some(now);
    }

    /// The address to open in the browser to sign in with `provider`.
    pub fn auth_start(&self, provider: &str) -> (address: String)
        ensures
            address@ == login_address(self.web_base@, provider@),
    {
        auth_start(self.web_base.as_str(), provider)
    }

    /// Turns pausing on or off, and gives the message that tells the worker.
    pub fn toggle_pause(&mut self) -> (message: Message)
        ensures
            *final(self) == toggled(*old(self)),
            message == pause_message(final(self).paused),
    {
        self.paused = !self.paused;
        send_pause(self.paused)
    }

    /// The workspaces.
    pub fn list_workspaces(&self) -> (workspaces: Vec<LocalWorkspace>)
        ensures
            workspaces@ == self.workspaces@,
    {
        copy_all(&self.workspaces)
    }

    /// Takes over the workspaces that were stored, where they could be read.
    pub fn load_workspaces(&mut self, stored: Option<Vec<LocalWorkspace>>)
        ensures
            *final(self) == match stored {
                Some(workspaces) => AppState { workspaces, ..*old(self) },
                None => *old(self),
            },
            *final(self) == with_loaded(*old(self), stored),
    {
        if let Some(workspaces) = stored {
            self.workspaces = workspaces;
        }
    }

    /// Adds the workspace at `path`, under an id of its own.
    pub fn add_workspace(&mut self, id: String, path: String) -> (workspace: LocalWorkspace)
        ensures
            workspace.id == id,
            workspace.name@ == workspace_name(path@),
            workspace.path == path,
            final(self).workspaces@ == old(self).workspaces@.push(workspace),
            final(self).workspaces@ == with_one_more(old(self).workspaces@, workspace),
            *final(self) == (AppState { workspaces: final(self).workspaces, ..*old(self) }),
    {
        let name = display_name(path.as_str());
        let workspace = LocalWorkspace { id, name, path };
        self.workspaces.push(workspace.clone());
        workspace
    }

    /// Offers the workspaces to the worker.
    pub fn schedule_workspace_sync(&self) -> (sync: WorkspaceSync)
        ensures
            sync.exchange.auth@ == line_of(auth_json(self.ipc_secret@)),
            sync.exchange.message@ == line_of(
                message_json(Message::Workspaces { workspaces: self.workspaces }),
            ),
            sync.attempts_left == SYNC_ATTEMPTS,
            sync.exchange.message@ == offer_of(*self),
    {
        let workspaces = copy_all(&self.workspaces);
        assert(workspaces.deep_view() =~= self.workspaces.deep_view());
        schedule_workspace_sync(self.ipc_secret.as_str(), workspaces)
    }
}

/// A state in which pausing has been turned on or off.
pub open spec fn toggled(state: AppState) -> AppState {
    AppState { paused: !state.paused, ..state }
}

/// The message that tells the worker whether it is paused.
pub open spec fn pause_message(paused: bool) -> Message {
    if paused {
        Message::Pause
    } else {
        Message::Resume
    }
}

/// The message that tells the worker whether it is paused.
pub fn send_pause(paused: bool) -> (message: Message)
    ensures
        message == pause_message(paused),
{
    if paused {
        Message::Pause
    } else {
        Message::Resume
    }
}

/// Turning pausing on or off twice changes nothing, and tells the worker of both.
pub proof fn law_pausing_twice_changes_nothing(state: AppState)
    ensures
        toggled(toggled(state)) == state,
        pause_message(toggled(state).paused) != pause_message(toggled(toggled(state)).paused),
{
}

/// An access token that came at `at` is used for fifty minutes from then on, and no
/// longer.
pub proof fn law_token_is_fresh_for_fifty_minutes(
    state: AppState,
    access_token: String,
    at: u128,
    now: u128,
)
    requires
        access_token@.len() > 0,
        at <= now,
    ensures
        signed_in(state, access_token, at).fresh(now) <==> now - at < 50 * 60 * 1_000_000_000,
{
}

/// Where nobody is signed in, no token is fresh.
pub proof fn law_no_session_is_not_fresh(state: AppState, now: u128)
    requires
        state.tokens is None,
    ensures
        !state.fresh(now),
        usable_token(state.tokens) is None,
{
}

/// A setting that was asked for counts, whatever it is, and only where none was does
/// the default.
pub proof fn law_setting_is_taken_as_given(asked: Seq<char>, default: Seq<char>)
    ensures
        setting(Some(asked), default) == asked,
        setting(None, default) == default,
{
}

/// Every access token counts but an empty one, and it is used as it is.
pub proof fn law_every_token_counts_but_an_empty_one(access_token: String)
    ensures
        access_token@.len() > 0 ==> usable_token(Some(Tokens { access_token })) == Some(
            access_token,
        ),
        access_token@.len() == 0 ==> usable_token(Some(Tokens { access_token })) is None,
        usable_token(None) is None,
{
}

/// Signing in and out changes the session and nothing else. A session that was taken up
/// is held with that token, since that time, whatever was held before.
pub proof fn law_signing_in_and_out(state: AppState, access_token: String, now: u128)
    ensures
        ({
            let after = signed_in(state, access_token, now);
            &&& after.tokens matches Some(tokens) && tokens.access_token == access_token
            &&& after.access_issued_at == Some(now)
            &&& same_but_session(state, after)
        }),
        signed_out(state).tokens is None,
        signed_out(state).access_issued_at is None,
        same_but_session(state, signed_out(state)),
{
}

/// Whether two states have all in common but the session.
pub open spec fn same_but_session(left: AppState, right: AppState) -> bool {
    &&& left.public_device_id == right.public_device_id
    &&& left.support_dir == right.support_dir
    &&& left.ipc_socket == right.ipc_socket
    &&& left.ipc_secret == right.ipc_secret
    &&& left.paused == right.paused
    &&& left.workspaces == right.workspaces
    &&& left.api_base == right.api_base
    &&& left.web_base == right.web_base
}

/// A token is used while it is not empty, it is known when it came, and that is less
/// than fifty minutes ago.
pub proof fn law_token_is_used_for_fifty_minutes(state: AppState, now: u128)
    ensures
        state.tokens is None ==> !state.fresh(now),
        state.access_issued_at is None ==> !state.fresh(now),
        state.tokens matches Some(tokens) ==> {
            &&& tokens.access_token@.len() == 0 ==> !state.fresh(now)
            &&& state.access_issued_at matches Some(at) ==> (tokens.access_token@.len() > 0 ==> (
            state.fresh(now) <==> now < at + 50 * 60 * 1_000_000_000))
        },
{
}

/// Pausing is turned on where it was off, and the worker is then asked to pause. It is
/// turned off where it was on, and the worker is then asked to resume. Nothing else
/// changes.
pub proof fn law_worker_is_told_to_pause(state: AppState)
    ensures
        toggled(state).paused == !state.paused,
        toggled(state) == (AppState { paused: toggled(state).paused, ..state }),
        state.paused ==> pause_message(toggled(state).paused) is Resume,
        !state.paused ==> pause_message(toggled(state).paused) is Pause,
{
}

/// Workspaces, and one more.
pub open spec fn with_one_more(
    workspaces: Seq<LocalWorkspace>,
    workspace: LocalWorkspace,
) -> Seq<LocalWorkspace> {
    workspaces.push(workspace)
}

/// A workspace is added whatever the others are, also where one of them is the same. The
/// others stay as they are, where they are, and it comes after them.
pub proof fn law_workspace_is_always_added(
    workspaces: Seq<LocalWorkspace>,
    workspace: LocalWorkspace,
)
    ensures
        ({
            let all = with_one_more(workspaces, workspace);
            &&& all.len() == workspaces.len() + 1
            &&& all[workspaces.len() as int] == workspace
            &&& forall|i: int| 0 <= i < workspaces.len() ==> #[trigger] all[i] == workspaces[i]
        }),
{
}

/// The line by which the workspaces are offered to the worker.
pub open spec fn offer_of(state: AppState) -> Seq<char> {
    line_of(message_json(Message::Workspaces { workspaces: state.workspaces }))
}

/// All workspaces are offered to the worker, each with its id, its name and its path, in
/// their order, and nothing of the session is.
pub proof fn law_all_workspaces_are_offered(state: AppState)
    ensures
        exists|object: Json, rows: Seq<Json>|
            {
                &&& #[trigger] says(object, "workspaces"@, "workspaces"@, Json::List(rows))
                &&& tells_of(rows, state.workspaces@)
                &&& offer_of(state) == json_text(object).push('\n')
            },
{
    let message = Message::Workspaces { workspaces: state.workspaces };
    law_messages_say_what_they_are(message);
    let rows = choose|rows: Seq<Json>| #[trigger]
        tells_of(rows, state.workspaces@) && says(
            message_json(message),
            "workspaces"@,
            "workspaces"@,
            Json::List(rows),
        );
    assert(says(message_json(message), "workspaces"@, "workspaces"@, Json::List(rows)));
}

/// A state with the workspaces that were stored, where they could be read.
pub open spec fn with_loaded(state: AppState, stored: Option<Vec<LocalWorkspace>>) -> AppState {
    match stored {
        Some(workspaces) => AppState { workspaces, ..state },
        None => state,
    }
}

/// Workspaces that could be read are taken over as they are, whatever they are and
/// whatever there was before. Where they could not, all stays as it is.
pub proof fn law_stored_workspaces_are_taken_over(
    state: AppState,
    workspaces: Vec<LocalWorkspace>,
)
    ensures
        with_loaded(state, Some(workspaces)).workspaces == workspaces,
        with_loaded(state, Some(workspaces)) == (AppState { workspaces, ..state }),
        with_loaded(state, None) == state,
{
}

} // verus!
