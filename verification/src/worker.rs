//! The worker: how it is started, whether it runs, and what it says of itself.

use vstd::prelude::*;
use vstd::slice::*;
use vstd::string::*;
use vstd::utf8::*;

use crate::json::{flag_at, is_json, json_flag_at, json_text_at, json_valid, text_at};
use crate::paths::{browser_script, joined_path, server_go_dir};
use crate::state::{setting, usable_token, AppState};

verus! {

/// The version of the worker, where it does not say.
pub const WORKER_VERSION: &'static str = "0.1.0";

/// What is run as the worker.
pub enum Program {
    /// The binary at this path.
    Binary { path: Vec<u8> },
    /// The command `go`, in the directory of its sources.
    Sources { dir: String, args: Vec<String> },
}

/// What is run as the worker, as plain values.
pub enum ProgramView {
    Binary { path: Seq<u8> },
    Sources { dir: Seq<char>, args: Seq<Seq<char>> },
}

impl View for Program {
    type V = ProgramView;

    open spec fn view(&self) -> ProgramView {
        match self {
            Program::Binary { path } => ProgramView::Binary { path: path@ },
            Program::Sources { dir, args } => ProgramView::Sources {
                dir: dir@,
                args: args.deep_view(),
            },
        }
    }
}

/// What is run as the worker, where its binary is at a path or is not.
pub open spec fn program_at(
    sidecar: Seq<u8>,
    sidecar_exists: bool,
    manifest_dir: Seq<char>,
) -> ProgramView {
    if sidecar_exists {
        ProgramView::Binary { path: sidecar }
    } else {
        ProgramView::Sources {
            dir: joined_path(manifest_dir, "../../donna-server-go"@),
            args: go_arguments(),
        }
    }
}

/// How the worker is started: what is run, and the environment that is added to the
/// app's own. The value of a variable is given in bytes, since a path need not be text.
pub struct WorkerCommand {
    pub program: Program,
    pub env: Vec<(String, Vec<u8>)>,
}

/// The environment that a worker is told its work in.
pub open spec fn worker_env(
    state: AppState,
    access_token: Seq<char>,
    manifest_dir: Seq<char>,
    device_name: Seq<char>,
    arch: Seq<char>,
) -> Seq<(Seq<char>, Seq<u8>)> {
    seq![
        ("DONNA_API_BASE"@, encode_utf8(state.api_base@)),
        ("DONNA_ACCESS_TOKEN"@, encode_utf8(access_token)),
        ("DONNA_IPC_SOCKET"@, state.ipc_socket@),
        ("DONNA_IPC_SECRET"@, encode_utf8(state.ipc_secret@)),
        ("DONNA_SUPPORT_DIR"@, encode_utf8(state.support_dir@)),
        ("DONNA_PUBLIC_DEVICE_ID"@, encode_utf8(state.public_device_id@)),
        ("DONNA_DEVICE_NAME"@, encode_utf8(device_name)),
        ("DONNA_DEVICE_ARCH"@, encode_utf8(arch)),
        (
            "DONNA_BROWSER_SCRIPT"@,
            encode_utf8(joined_path(manifest_dir, "../browser/server.js"@)),
        ),
        ("DONNA_BROWSER_HEADED"@, encode_utf8("1"@)),
    ]
}

/// Whether an environment sets a variable, and to nothing but this value.
pub open spec fn sets(env: Seq<(Seq<char>, Seq<u8>)>, name: Seq<char>, value: Seq<u8>) -> bool {
    &&& exists|i: int| 0 <= i < env.len() && (#[trigger] env[i]).0 == name
    &&& forall|i: int| 0 <= i < env.len() && (#[trigger] env[i]).0 == name ==> env[i].1 == value
}

/// The arguments that have `go` run the worker from its sources.
pub open spec fn go_arguments() -> Seq<Seq<char>> {
    seq!["run"@, "./cmd/donna-agent-local"@]
}

fn push_variable(env: &mut Vec<(String, Vec<u8>)>, name: &str, value: &[u8])
    ensures
        final(env).deep_view() == old(env).deep_view().push((name@, value@)),
{
    let ghost before = env.deep_view();
    let name = name.to_owned();
    let value = slice_to_vec(value);
    let ghost variable = (name@, value@);
    assert(value.deep_view() =~= value@);
    env.push((name, value));
    assert(env.deep_view() =~= before.push(variable));
}

/// The program to run as the worker: its binary where it is found, and else its
/// sources.
pub fn worker_program(sidecar: Vec<u8>, sidecar_exists: bool, manifest_dir: &str) -> (program:
    Program)
    ensures
        sidecar_exists ==> program == (Program::Binary { path: sidecar }),
        !sidecar_exists ==> {
            &&& program matches Program::Sources { dir, args }
            &&& dir@ == joined_path(manifest_dir@, "../../donna-server-go"@)
            &&& args.deep_view() == go_arguments()
        },
        program@ == program_at(sidecar@, sidecar_exists, manifest_dir@),
{
    if sidecar_exists {
        return Program::Binary { path: sidecar };
    }
    let mut args: Vec<String> = Vec::new();
    args.push("run".to_owned());
    args.push("./cmd/donna-agent-local".to_owned());
    assert(args.deep_view() =~= go_arguments());
    Program::Sources { dir: server_go_dir(manifest_dir), args }
}

/// How to start a worker that works with an access token. `sidecar` is the path
/// at which its binary is looked for, and `sidecar_exists` whether it is found there.
pub fn spawn_worker(
    state: &AppState,
    access_token: &str,
    sidecar: Vec<u8>,
    sidecar_exists: bool,
    manifest_dir: &str,
    device_name: &str,
    arch: &str,
) -> (command: WorkerCommand)
    ensures
        sidecar_exists ==> command.program == (Program::Binary { path: sidecar }),
        !sidecar_exists ==> {
            &&& command.program matches Program::Sources { dir, args }
            &&& dir@ == joined_path(manifest_dir@, "../../donna-server-go"@)
            &&& args.deep_view() == go_arguments()
        },
        command.program@ == program_at(sidecar@, sidecar_exists, manifest_dir@),
        command.env.deep_view() == worker_env(
            *state,
            access_token@,
            manifest_dir@,
            device_name@,
            arch@,
        ),
        sets(command.env.deep_view(), "DONNA_API_BASE"@, encode_utf8(state.api_base@)),
        sets(command.env.deep_view(), "DONNA_ACCESS_TOKEN"@, encode_utf8(access_token@)),
        sets(command.env.deep_view(), "DONNA_IPC_SOCKET"@, state.ipc_socket@),
        sets(command.env.deep_view(), "DONNA_IPC_SECRET"@, encode_utf8(state.ipc_secret@)),
        sets(command.env.deep_view(), "DONNA_SUPPORT_DIR"@, encode_utf8(state.support_dir@)),
        sets(
            command.env.deep_view(),
            "DONNA_PUBLIC_DEVICE_ID"@,
            encode_utf8(state.public_device_id@),
        ),
        sets(command.env.deep_view(), "DONNA_DEVICE_NAME"@, encode_utf8(device_name@)),
        sets(command.env.deep_view(), "DONNA_DEVICE_ARCH"@, encode_utf8(arch@)),
        sets(
            command.env.deep_view(),
            "DONNA_BROWSER_SCRIPT"@,
            encode_utf8(joined_path(manifest_dir@, "../browser/server.js"@)),
        ),
        sets(command.env.deep_view(), "DONNA_BROWSER_HEADED"@, encode_utf8("1"@)),
        command.env@.len() == 10,
{
    proof {
        law_worker_is_told_all(*state, access_token@, manifest_dir@, device_name@, arch@);
    }
    let script = browser_script(manifest_dir);
    let mut env: Vec<(String, Vec<u8>)> = Vec::new();
    push_variable(&mut env, "DONNA_API_BASE", state.api_base.as_str().as_bytes());
    push_variable(&mut env, "DONNA_ACCESS_TOKEN", access_token.as_bytes());
    push_variable(&mut env, "DONNA_IPC_SOCKET", state.ipc_socket.as_slice());
    push_variable(&mut env, "DONNA_IPC_SECRET", state.ipc_secret.as_str().as_bytes());
    push_variable(&mut env, "DONNA_SUPPORT_DIR", state.support_dir.as_str().as_bytes());
    push_variable(&mut env, "DONNA_PUBLIC_DEVICE_ID", state.public_device_id.as_str().as_bytes());
    push_variable(&mut env, "DONNA_DEVICE_NAME", device_name.as_bytes());
    push_variable(&mut env, "DONNA_DEVICE_ARCH", arch.as_bytes());
    push_variable(&mut env, "DONNA_BROWSER_SCRIPT", script.as_str().as_bytes());
    push_variable(&mut env, "DONNA_BROWSER_HEADED", "1".as_bytes());
    assert(env.deep_view() =~= worker_env(
        *state,
        access_token@,
        manifest_dir@,
        device_name@,
        arch@,
    ));
    WorkerCommand { program: worker_program(sidecar, sidecar_exists, manifest_dir), env }
}

/// What is found when a worker is looked after.
pub enum Probe {
    Running,
    Exited,
    /// It could not be told.
    Unknown,
}

/// Whether the worker is taken to run: there is one, and it is not known to have
/// exited.
pub fn worker_alive(worker: &Option<Probe>) -> (alive: bool)
    ensures
        alive == (*worker matches Some(probe) && probe !is Exited),
{
    match worker {
        Some(Probe::Exited) => false,
        Some(_) => true,
        None => false,
    }
}

/// What the web app is told of this app and its worker.
pub struct DesktopStatus {
    pub app_version: String,
    pub worker_version: String,
    pub device_id: String,
    pub public_device_id: String,
    pub cloud_connected: bool,
    pub worker_running: bool,
    pub paused: bool,
    pub browser_ready: bool,
    pub active_run_id: String,
    pub queued_runs: i64,
}

/// What the web app is told, as plain values.
pub struct StatusView {
    pub app_version: Seq<char>,
    pub worker_version: Seq<char>,
    pub device_id: Seq<char>,
    pub public_device_id: Seq<char>,
    pub cloud_connected: bool,
    pub worker_running: bool,
    pub paused: bool,
    pub browser_ready: bool,
    pub active_run_id: Seq<char>,
    pub queued_runs: int,
}

impl View for DesktopStatus {
    type V = StatusView;

    open spec fn view(&self) -> StatusView {
        StatusView {
            app_version: self.app_version@,
            worker_version: self.worker_version@,
            device_id: self.device_id@,
            public_device_id: self.public_device_id@,
            cloud_connected: self.cloud_connected,
            worker_running: self.worker_running,
            paused: self.paused,
            browser_ready: self.browser_ready,
            active_run_id: self.active_run_id@,
            queued_runs: self.queued_runs as int,
        }
    }
}

/// What the web app is told in a state, where the worker runs or not and answered so.
pub open spec fn status_of(
    state: AppState,
    app_version: Seq<char>,
    running: bool,
    answer: Option<Seq<char>>,
) -> StatusView {
    StatusView {
        app_version,
        worker_version: either(answer_text(answer, "/payload/worker"@), WORKER_VERSION@),
        device_id: either(answer_text(answer, "/payload/device_id"@), Seq::empty()),
        public_device_id: state.public_device_id@,
        cloud_connected: usable_token(state.tokens) is Some,
        worker_running: running,
        paused: either(answer_flag(answer, "/payload/paused"@), state.paused),
        browser_ready: false,
        active_run_id: either(answer_text(answer, "/payload/active_run_id"@), Seq::empty()),
        queued_runs: 0,
    }
}

/// What a worker says of itself, as far as it does.
pub struct StatusReply {
    pub worker: Option<String>,
    pub device_id: Option<String>,
    pub paused: Option<bool>,
    pub active_run_id: Option<String>,
}

/// The text at a pointer in the worker's answer, if it is one.
pub open spec fn answer_text(answer: Option<Seq<char>>, pointer: Seq<char>) -> Option<Seq<char>> {
    match answer {
        Some(line) if json_valid(encode_utf8(line)) => json_text_at(encode_utf8(line), pointer),
        _ => None,
    }
}

/// The boolean at a pointer in the worker's answer, if it is one.
pub open spec fn answer_flag(answer: Option<Seq<char>>, pointer: Seq<char>) -> Option<bool> {
    match answer {
        Some(line) if json_valid(encode_utf8(line)) => json_flag_at(encode_utf8(line), pointer),
        _ => None,
    }
}

/// Reads what the worker says of itself. `answer` is its line, if it sent one.
pub fn read_status(answer: &Option<String>) -> (reply: StatusReply)
    ensures
        reply.worker.deep_view() == answer_text(answer.deep_view(), "/payload/worker"@),
        reply.device_id.deep_view() == answer_text(answer.deep_view(), "/payload/device_id"@),
        reply.paused == answer_flag(answer.deep_view(), "/payload/paused"@),
        reply.active_run_id.deep_view() == answer_text(
            answer.deep_view(),
            "/payload/active_run_id"@,
        ),
{
    if let Some(line) = answer {
        let document = line.as_str().as_bytes();
        if is_json(document) {
            return StatusReply {
                worker: text_at(document, "/payload/worker"),
                device_id: text_at(document, "/payload/device_id"),
                paused: flag_at(document, "/payload/paused"),
                active_run_id: text_at(document, "/payload/active_run_id"),
            };
        }
    }
    StatusReply { worker: None, device_id: None, paused: None, active_run_id: None }
}

/// A value, or else another.
pub open spec fn either<T>(value: Option<T>, other: T) -> T {
    match value {
        Some(value) => value,
        None => other,
    }
}

impl DesktopStatus {
    /// The status, brought up to date with what the worker says of itself. That is
    /// its version, the device it is registered as, whether it is paused and what
    /// it runs, and nothing else.
    pub fn updated(self, reply: StatusReply) -> (status: DesktopStatus)
        ensures
            status == (DesktopStatus {
                worker_version: either(reply.worker, self.worker_version),
                device_id: either(reply.device_id, self.device_id),
                paused: either(reply.paused, self.paused),
                active_run_id: either(reply.active_run_id, self.active_run_id),
                ..self
            }),
    {
        let mut status = self;
        if let Some(version) = reply.worker {
            status.worker_version = version;
        }
        if let Some(device_id) = reply.device_id {
            status.device_id = device_id;
        }
        if let Some(paused) = reply.paused {
            status.paused = paused;
        }
        if let Some(run_id) = reply.active_run_id {
            status.active_run_id = run_id;
        }
        status
    }
}

/// What the web app is told of this app and its worker. `state` is what the app knew
/// before the worker was asked, `running` whether the worker runs, and `answer` what it answered when it was asked for its status, if
/// it did.
pub fn diagnostics(
    state: &AppState,
    app_version: &str,
    running: bool,
    answer: &Option<String>,
) -> (status: DesktopStatus)
    ensures
        status.app_version@ == app_version@,
        status.worker_version@ == setting(
            answer_text(answer.deep_view(), "/payload/worker"@),
            WORKER_VERSION@,
        ),
        status.device_id@ == setting(
            answer_text(answer.deep_view(), "/payload/device_id"@),
            Seq::empty(),
        ),
        status.public_device_id == state.public_device_id,
        status.cloud_connected == (usable_token(state.tokens) is Some),
        status.worker_running == running,
        status.paused == either(
            answer_flag(answer.deep_view(), "/payload/paused"@),
            state.paused,
        ),
        !status.browser_ready,
        status.active_run_id@ == setting(
            answer_text(answer.deep_view(), "/payload/active_run_id"@),
            Seq::empty(),
        ),
        status.queued_runs == 0,
        status@ == status_of(*state, app_version@, running, answer.deep_view()),
{
    let status = DesktopStatus {
        app_version: app_version.to_owned(),
        worker_version: WORKER_VERSION.to_owned(),
        device_id: String::new(),
        public_device_id: state.public_device_id.clone(),
        cloud_connected: state.get_access_token().is_some(),
        worker_running: running,
        paused: state.paused,
        browser_ready: false,
        active_run_id: String::new(),
        queued_runs: 0,
    };
    status.updated(read_status(answer))
}

/// Each variable in a worker's environment is set once.
pub proof fn law_worker_env_names_differ(
    state: AppState,
    access_token: Seq<char>,
    manifest_dir: Seq<char>,
    device_name: Seq<char>,
    arch: Seq<char>,
)
    ensures
        ({
            let env = worker_env(state, access_token, manifest_dir, device_name, arch);
            forall|i: int, j: int|
                0 <= i < j < env.len() ==> (#[trigger] env[i]).0 != (#[trigger] env[j]).0
        }),
{
    reveal_strlit("DONNA_API_BASE");
    reveal_strlit("DONNA_ACCESS_TOKEN");
    reveal_strlit("DONNA_IPC_SOCKET");
    reveal_strlit("DONNA_IPC_SECRET");
    reveal_strlit("DONNA_SUPPORT_DIR");
    reveal_strlit("DONNA_PUBLIC_DEVICE_ID");
    reveal_strlit("DONNA_DEVICE_NAME");
    reveal_strlit("DONNA_DEVICE_ARCH");
    reveal_strlit("DONNA_BROWSER_SCRIPT");
    reveal_strlit("DONNA_BROWSER_HEADED");
    let env = worker_env(state, access_token, manifest_dir, device_name, arch);
    assert forall|i: int, j: int| 0 <= i < j < env.len() implies (#[trigger] env[i]).0 != (
    #[trigger] env[j]).0 by {
        let l = env[i].0;
        let r = env[j].0;
        if l == r {
            assert(l.len() == r.len());
            assert(l[6] == r[6] && l[11] == r[11] && l[13] == r[13] && l[14] == r[14]);
        }
    }
}

/// The worker is told each thing as it is, for every value of it: the services, its
/// access token, its socket and secret, where the app keeps its files, and the id, the
/// name and the architecture of this Mac. Nothing else is set.
pub proof fn law_worker_is_told_all(
    state: AppState,
    access_token: Seq<char>,
    manifest_dir: Seq<char>,
    device_name: Seq<char>,
    arch: Seq<char>,
)
    ensures
        ({
            let env = worker_env(state, access_token, manifest_dir, device_name, arch);
            &&& env.len() == 10
            &&& sets(env, "DONNA_API_BASE"@, encode_utf8(state.api_base@))
            &&& sets(env, "DONNA_ACCESS_TOKEN"@, encode_utf8(access_token))
            &&& sets(env, "DONNA_IPC_SOCKET"@, state.ipc_socket@)
            &&& sets(env, "DONNA_IPC_SECRET"@, encode_utf8(state.ipc_secret@))
            &&& sets(env, "DONNA_SUPPORT_DIR"@, encode_utf8(state.support_dir@))
            &&& sets(env, "DONNA_PUBLIC_DEVICE_ID"@, encode_utf8(state.public_device_id@))
            &&& sets(env, "DONNA_DEVICE_NAME"@, encode_utf8(device_name))
            &&& sets(env, "DONNA_DEVICE_ARCH"@, encode_utf8(arch))
            &&& sets(
                env,
                "DONNA_BROWSER_SCRIPT"@,
                encode_utf8(joined_path(manifest_dir, "../browser/server.js"@)),
            )
            &&& sets(env, "DONNA_BROWSER_HEADED"@, encode_utf8("1"@))
        }),
{
    let env = worker_env(state, access_token, manifest_dir, device_name, arch);
    law_worker_env_names_differ(state, access_token, manifest_dir, device_name, arch);
    lemma_sets(env, 0);
    lemma_sets(env, 1);
    lemma_sets(env, 2);
    lemma_sets(env, 3);
    lemma_sets(env, 4);
    lemma_sets(env, 5);
    lemma_sets(env, 6);
    lemma_sets(env, 7);
    lemma_sets(env, 8);
    lemma_sets(env, 9);
}

proof fn lemma_sets(env: Seq<(Seq<char>, Seq<u8>)>, n: int)
    requires
        0 <= n < env.len(),
        forall|i: int, j: int|
            0 <= i < j < env.len() ==> (#[trigger] env[i]).0 != (#[trigger] env[j]).0,
    ensures
        sets(env, env[n].0, env[n].1),
{
    assert forall|i: int| 0 <= i < env.len() && (#[trigger] env[i]).0 == env[n].0 implies env[i].1
        == env[n].1 by {
        assert(i == n) by {
            if i < n {
                assert(env[i].0 != env[n].0);
            } else if n < i {
                assert(env[n].0 != env[i].0);
            }
        }
    }
}

/// Two Macs of different architectures have their workers told so, each of its own.
pub proof fn law_worker_is_told_the_architecture(
    state: AppState,
    access_token: Seq<char>,
    manifest_dir: Seq<char>,
    device_name: Seq<char>,
    left: Seq<char>,
    right: Seq<char>,
)
    requires
        left != right,
    ensures
        worker_env(state, access_token, manifest_dir, device_name, left) != worker_env(
            state,
            access_token,
            manifest_dir,
            device_name,
            right,
        ),
{
    let l = worker_env(state, access_token, manifest_dir, device_name, left);
    let r = worker_env(state, access_token, manifest_dir, device_name, right);
    law_worker_is_told_all(state, access_token, manifest_dir, device_name, left);
    law_worker_is_told_all(state, access_token, manifest_dir, device_name, right);
    encode_utf8_decode_utf8(left);
    encode_utf8_decode_utf8(right);
    if l == r {
        let i = choose|i: int| 0 <= i < l.len() && (#[trigger] l[i]).0 == "DONNA_DEVICE_ARCH"@;
        assert(l[i].1 == encode_utf8(left));
        assert(r[i].1 == encode_utf8(right));
    }
}

/// What the worker says of itself counts before what is known without it, and only where
/// it does not say does that count.
pub proof fn law_worker_is_believed<T>(said: T, known: T)
    ensures
        either(Some(said), known) == said,
        either(None, known) == known,
{
}

/// The worker's answer is read wherever it is JSON, however long, and at every pointer.
/// Where it did not answer, or not in JSON, it said nothing.
pub proof fn law_every_answer_is_read(line: Seq<char>, pointer: Seq<char>)
    ensures
        json_valid(encode_utf8(line)) ==> {
            &&& answer_text(Some(line), pointer) == json_text_at(encode_utf8(line), pointer)
            &&& answer_flag(Some(line), pointer) == json_flag_at(encode_utf8(line), pointer)
        },
        !json_valid(encode_utf8(line)) ==> {
            &&& answer_text(Some(line), pointer) is None
            &&& answer_flag(Some(line), pointer) is None
        },
        answer_text(None, pointer) is None,
        answer_flag(None, pointer) is None,
{
}

/// The web app is told what the app knows of itself, whatever the worker says: its
/// version, its id, whether somebody is signed in, whether the worker runs.
pub proof fn law_status_tells_what_the_app_knows(
    state: AppState,
    app_version: Seq<char>,
    running: bool,
    answer: Option<Seq<char>>,
)
    ensures
        ({
            let status = status_of(state, app_version, running, answer);
            &&& status.app_version == app_version
            &&& status.public_device_id == state.public_device_id@
            &&& status.worker_running == running
            &&& status.cloud_connected <==> (state.tokens matches Some(tokens)
                && tokens.access_token@.len() > 0)
            &&& !status.browser_ready
            &&& status.queued_runs == 0
        }),
{
}

/// The web app is told what the worker says of itself, as it says it, whatever the app
/// knows: its version, its device, whether it is paused and what it runs.
pub proof fn law_status_tells_what_the_worker_says(
    state: AppState,
    app_version: Seq<char>,
    running: bool,
    line: Seq<char>,
)
    requires
        json_valid(encode_utf8(line)),
    ensures
        ({
            let status = status_of(state, app_version, running, Some(line));
            let document = encode_utf8(line);
            &&& json_text_at(document, "/payload/worker"@) matches Some(text)
                ==> status.worker_version == text
            &&& json_text_at(document, "/payload/device_id"@) matches Some(text)
                ==> status.device_id == text
            &&& json_flag_at(document, "/payload/paused"@) matches Some(paused) ==> status.paused
                == paused
            &&& json_text_at(document, "/payload/active_run_id"@) matches Some(text)
                ==> status.active_run_id == text
            &&& json_text_at(document, "/payload/worker"@) is None ==> status.worker_version
                == "0.1.0"@
            &&& json_text_at(document, "/payload/device_id"@) is None ==> status.device_id.len()
                == 0
            &&& json_flag_at(document, "/payload/paused"@) is None ==> status.paused
                == state.paused
            &&& json_text_at(document, "/payload/active_run_id"@) is None
                ==> status.active_run_id.len() == 0
        }),
{
}

/// A worker that does not answer, or not in JSON, changes nothing of what the web app is
/// told without it.
pub proof fn law_status_without_an_answer(
    state: AppState,
    app_version: Seq<char>,
    running: bool,
    line: Seq<char>,
)
    requires
        !json_valid(encode_utf8(line)),
    ensures
        status_of(state, app_version, running, Some(line)) == status_of(
            state,
            app_version,
            running,
            None,
        ),
        ({
            let status = status_of(state, app_version, running, None);
            &&& status.worker_version == "0.1.0"@
            &&& status.device_id.len() == 0
            &&& status.paused == state.paused
            &&& status.active_run_id.len() == 0
        }),
{
}

/// Where the worker's binary is found it is run, whatever its path, and without
/// arguments. Else `go` runs the worker, in the directory of its sources, and then it
/// does not matter where the binary was looked for.
pub proof fn law_found_worker_is_run(
    sidecar: Seq<u8>,
    other: Seq<u8>,
    manifest_dir: Seq<char>,
)
    ensures
        program_at(sidecar, true, manifest_dir) == (ProgramView::Binary { path: sidecar }),
        program_at(sidecar, false, manifest_dir) == program_at(other, false, manifest_dir),
        program_at(sidecar, false, manifest_dir) matches ProgramView::Sources { dir, args }
            && dir == joined_path(manifest_dir, "../../donna-server-go"@) && args.len() == 2
            && args[0] == "run"@ && args[1] == "./cmd/donna-agent-local"@,
{
}

} // verus!
