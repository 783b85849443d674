//! The messages that the worker is sent over its control socket, one JSON object to
//! a line.

use vstd::prelude::*;
use vstd::string::*;
use vstd::utf8::*;

use crate::json::{
    is_json, items_text, json_text, json_valid, member, member_before, object, string_literal, Json,
};
use crate::workspace::{LocalWorkspace, WorkspaceView};

verus! {

/// How long a message may take to be written, and an answer to come, in seconds.
pub const IPC_TIMEOUT_SECS: u64 = 2;

/// How often the workspaces are offered to a worker that does not answer.
pub const SYNC_ATTEMPTS: u32 = 50;

/// The pause after an attempt that was not answered, in milliseconds.
pub const SYNC_PAUSE_MILLIS: u64 = 100;

/// A message to the worker.
pub enum Message {
    /// Shows the secret of this launch.
    Auth { secret: String },
    /// Asks for the worker's status.
    Status,
    /// Asks to take no new runs.
    Pause,
    /// Asks to take new runs again.
    Resume,
    /// Hands over a new access token.
    Token { access_token: String },
    /// Hands over the workspaces.
    Workspaces { workspaces: Vec<LocalWorkspace> },
}

/// An object that says what it is, and nothing else.
pub open spec fn bare(kind: Seq<char>) -> Json {
    Json::Object(seq![("type"@, Json::Text(kind))])
}

/// An object that says what it is and carries one value, under a key of its own.
pub open spec fn carrying(kind: Seq<char>, key: Seq<char>, value: Json) -> Json {
    Json::Object(
        seq![("payload"@, Json::Object(seq![(key, value)])), ("type"@, Json::Text(kind))],
    )
}

/// A workspace as the worker is told of it.
pub open spec fn workspace_json(workspace: WorkspaceView) -> Json {
    Json::Object(
        seq![
            ("id"@, Json::Text(workspace.id)),
            ("name"@, Json::Text(workspace.name)),
            ("path"@, Json::Text(workspace.path)),
        ],
    )
}

/// Workspaces as the worker is told of them.
pub open spec fn workspaces_json(workspaces: Seq<WorkspaceView>) -> Seq<Json> {
    workspaces.map_values(|workspace: WorkspaceView| workspace_json(workspace))
}

/// The message that shows a secret.
pub open spec fn auth_json(secret: Seq<char>) -> Json {
    carrying("auth"@, "secret"@, Json::Text(secret))
}

/// The object that a message is sent as.
pub open spec fn message_json(message: Message) -> Json {
    match message {
        Message::Auth { secret } => auth_json(secret@),
        Message::Status => bare("status"@),
        Message::Pause => bare("pause"@),
        Message::Resume => bare("resume"@),
        Message::Token { access_token } => carrying(
            "token"@,
            "access_token"@,
            Json::Text(access_token@),
        ),
        Message::Workspaces { workspaces } => carrying(
            "workspaces"@,
            "workspaces"@,
            Json::List(workspaces_json(workspaces.deep_view())),
        ),
    }
}

/// An object on a line of its own.
pub open spec fn line_of(object: Json) -> Seq<char> {
    json_text(object).push('\n')
}

/// Writes an object that says what it is, and nothing else.
fn bare_text(kind: &str) -> (text: String)
    ensures
        text@ == json_text(bare(kind@)),
{
    let members = member("type", string_literal(kind).as_str(), Ghost(Json::Text(kind@)));
    let ghost kinds = seq![("type"@, Json::Text(kind@))];
    object(members.as_str(), Ghost(kinds))
}

/// Writes an object that says what it is and carries one value.
fn carrying_text(kind: &str, key: &str, value: &str, Ghost(model): Ghost<Json>) -> (text: String)
    requires
        value@ == json_text(model),
    ensures
        text@ == json_text(carrying(kind@, key@, model)),
{
    let ghost inner = seq![(key@, model)];
    let ghost kinds = seq![("type"@, Json::Text(kind@))];
    let payload = object(member(key, value, Ghost(model)).as_str(), Ghost(inner));
    let last = member("type", string_literal(kind).as_str(), Ghost(Json::Text(kind@)));
    let members = member_before(
        "payload",
        payload.as_str(),
        Ghost(Json::Object(inner)),
        last.as_str(),
        Ghost(kinds),
    );
    let ghost all = seq![("payload"@, Json::Object(inner))] + kinds;
    assert(all =~= seq![("payload"@, Json::Object(inner)), ("type"@, Json::Text(kind@))]);
    object(members.as_str(), Ghost(all))
}

/// Writes a workspace.
fn workspace_text(workspace: &LocalWorkspace) -> (text: String)
    ensures
        text@ == json_text(workspace_json(workspace@)),
{
    let ghost id = Json::Text(workspace.id@);
    let ghost name = Json::Text(workspace.name@);
    let ghost path = Json::Text(workspace.path@);
    let ghost one = seq![("path"@, path)];
    let ghost two = seq![("name"@, name)] + one;
    let third = member("path", string_literal(workspace.path.as_str()).as_str(), Ghost(path));
    let second = member_before(
        "name",
        string_literal(workspace.name.as_str()).as_str(),
        Ghost(name),
        third.as_str(),
        Ghost(one),
    );
    let first = member_before(
        "id",
        string_literal(workspace.id.as_str()).as_str(),
        Ghost(id),
        second.as_str(),
        Ghost(two),
    );
    let ghost all = seq![("id"@, id)] + two;
    assert(all =~= seq![("id"@, id), ("name"@, name), ("path"@, path)]);
    object(first.as_str(), Ghost(all))
}

proof fn lemma_items_push(items: Seq<Json>, last: Json)
    ensures
        items_text(items.push(last)) == if items.len() == 0 {
            json_text(last)
        } else {
            items_text(items) + seq![','] + json_text(last)
        },
    decreases items.len(),
{
    let all = items.push(last);
    if items.len() > 0 {
        let rest = items.subrange(1, items.len() as int);
        assert(all.subrange(1, all.len() as int) =~= rest.push(last));
        lemma_items_push(rest, last);
        assert(items_text(all) =~= items_text(items) + seq![','] + json_text(last));
    }
}

/// Writes a list of workspaces.
fn workspaces_text(workspaces: &Vec<LocalWorkspace>) -> (text: String)
    ensures
        text@ == json_text(Json::List(workspaces_json(workspaces.deep_view()))),
{
    proof {
        reveal_strlit("[");
        reveal_strlit(",");
        reveal_strlit("]");
    }
    let ghost items = workspaces_json(workspaces.deep_view());
    let mut text = "[".to_owned();
    assert(items.take(0) =~= Seq::<Json>::empty());
    assert(text@ =~= seq!['['] + items_text(items.take(0)));
    for i in 0..workspaces.len()
        invariant
            items == workspaces_json(workspaces.deep_view()),
            text@ == seq!['['] + items_text(items.take(i as int)),
            ","@ == seq![','],
    {
        if i > 0 {
            text.append(",");
        }
        text.append(workspace_text(&workspaces[i]).as_str());
        proof {
            assert(items[i as int] == workspace_json(workspaces[i as int]@));
            assert(items.take(i + 1) =~= items.take(i as int).push(items[i as int]));
            lemma_items_push(items.take(i as int), items[i as int]);
            assert(text@ =~= seq!['['] + items_text(items.take(i + 1)));
        }
    }
    assert(items.take(workspaces@.len() as int) =~= items);
    text.append("]");
    assert(text@ =~= json_text(Json::List(items)));
    text
}

impl Message {
    /// The line that a message is sent as.
    pub fn line(&self) -> (line: String)
        ensures
            line@ == line_of(message_json(*self)),
    {
        let mut line = match self {
            Message::Auth { secret } => carrying_text(
                "auth",
                "secret",
                string_literal(secret.as_str()).as_str(),
                Ghost(Json::Text(secret@)),
            ),
            Message::Status => bare_text("status"),
            Message::Pause => bare_text("pause"),
            Message::Resume => bare_text("resume"),
            Message::Token { access_token } => carrying_text(
                "token",
                "access_token",
                string_literal(access_token.as_str()).as_str(),
                Ghost(Json::Text(access_token@)),
            ),
            Message::Workspaces { workspaces } => carrying_text(
                "workspaces",
                "workspaces",
                workspaces_text(workspaces).as_str(),
                Ghost(Json::List(workspaces_json(workspaces.deep_view()))),
            ),
        };
        proof {
            reveal_strlit("\n");
        }
        line.append("\n");
        assert(line@ =~= line_of(message_json(*self)));
        line
    }
}

/// The two lines that are written on one connection to the worker. `Exchange::open`
/// gives the first, and `Exchange::replied` what follows.
pub struct Exchange {
    pub auth: String,
    pub message: String,
}

/// What to write to the worker to send it a message: the secret goes first.
pub fn ipc_send(secret: &str, message: &Message) -> (exchange: Exchange)
    ensures
        exchange.auth@ == line_of(auth_json(secret@)),
        exchange.message@ == line_of(message_json(*message)),
{
    Exchange {
        auth: (Message::Auth { secret: secret.to_owned() }).line(),
        message: message.line(),
    }
}

/// Whether the worker's line is an answer: any JSON is.
pub fn is_answer(line: &str) -> (answer: bool)
    ensures
        answer == json_valid(encode_utf8(line@)),
{
    is_json(line.as_bytes())
}

/// Which line of an exchange was written last.
pub enum Turn {
    Auth,
    Message,
}

/// How an exchange goes on.
pub enum Talk {
    /// Write this line, and read the line that comes back.
    Write { line: String, turn: Turn },
    /// Nothing more is written. The answer is the worker's, if there was one.
    Over { answer: Option<String> },
}

/// How an exchange begins: the secret is written.
pub open spec fn opened(exchange: Exchange) -> Talk {
    Talk::Write { line: exchange.auth, turn: Turn::Auth }
}

/// How an exchange goes on after a line was written and this came back. Nothing
/// follows where no line came back. Whatever line answers the secret, the message is
/// written then, and what answers that is the answer if it is JSON.
pub open spec fn after_reply(exchange: Exchange, turn: Turn, reply: Option<String>) -> Talk {
    match (turn, reply) {
        (_, None) => Talk::Over { answer: None },
        (Turn::Auth, Some(_)) => Talk::Write { line: exchange.message, turn: Turn::Message },
        (Turn::Message, Some(line)) => Talk::Over {
            answer: if json_valid(encode_utf8(line@)) {
                Some(line)
            } else {
                None
            },
        },
    }
}

impl Exchange {
    /// How the exchange begins.
    pub fn open(&self) -> (talk: Talk)
        ensures
            talk == opened(*self),
    {
        Talk::Write { line: self.auth.clone(), turn: Turn::Auth }
    }

    /// How the exchange goes on after a line was written. `reply` is the line that
    /// came back, and `None` where the line could not be written or none could be
    /// read.
    pub fn replied(&self, turn: Turn, reply: Option<String>) -> (talk: Talk)
        ensures
            talk == after_reply(*self, turn, reply),
    {
        match (turn, reply) {
            (_, None) => Talk::Over { answer: None },
            (Turn::Auth, Some(_)) => Talk::Write {
                line: self.message.clone(),
                turn: Turn::Message,
            },
            (Turn::Message, Some(line)) => if is_answer(line.as_str()) {
                Talk::Over { answer: Some(line) }
            } else {
                Talk::Over { answer: None }
            },
        }
    }
}

/// How an exchange stands after these replies, one for each line that was written.
pub open spec fn talked(exchange: Exchange, replies: Seq<Option<String>>) -> Talk
    decreases replies.len(),
{
    if replies.len() == 0 {
        opened(exchange)
    } else {
        match talked(exchange, replies.drop_last()) {
            Talk::Write { line, turn } => after_reply(exchange, turn, replies.last()),
            Talk::Over { answer } => Talk::Over { answer },
        }
    }
}

/// On each connection the secret is written first. The message is written next, once
/// and only after a line came back. There is an answer only once another came back,
/// and it is that line.
pub proof fn law_secret_goes_first(
    secret: Seq<char>,
    message: Message,
    exchange: Exchange,
    replies: Seq<Option<String>>,
)
    requires
        exchange.auth@ == line_of(auth_json(secret)),
        exchange.message@ == line_of(message_json(message)),
    ensures
        match talked(exchange, replies) {
            Talk::Write { line, turn: Turn::Auth } => {
                &&& replies.len() == 0
                &&& line@ == line_of(auth_json(secret))
            },
            Talk::Write { line, turn: Turn::Message } => {
                &&& replies.len() == 1
                &&& replies[0] is Some
                &&& line@ == line_of(message_json(message))
            },
            Talk::Over { answer: Some(line) } => {
                &&& replies.len() >= 2
                &&& replies[0] is Some
                &&& replies[1] == Some(line)
                &&& json_valid(encode_utf8(line@))
            },
            Talk::Over { answer: None } => {
                &&& replies.len() >= 1
                &&& replies[0] is Some ==> replies.len() >= 2
                &&& replies[0] is Some && replies[1] is Some ==> !json_valid(
                    encode_utf8(replies[1]->0@),
                )
            },
        },
    decreases replies.len(),
{
    if replies.len() > 0 {
        law_secret_goes_first(secret, message, exchange, replies.drop_last());
    }
}

/// The workspaces on their way to a worker that may not be up yet.
pub struct WorkspaceSync {
    pub exchange: Exchange,
    pub attempts_left: u32,
}

/// Offers the workspaces to the worker.
pub fn schedule_workspace_sync(secret: &str, workspaces: Vec<LocalWorkspace>) -> (sync:
    WorkspaceSync)
    ensures
        sync.exchange.auth@ == line_of(auth_json(secret@)),
        sync.exchange.message@ == line_of(message_json(Message::Workspaces { workspaces })),
        sync.attempts_left == SYNC_ATTEMPTS,
{
    WorkspaceSync {
        exchange: ipc_send(secret, &Message::Workspaces { workspaces }),
        attempts_left: SYNC_ATTEMPTS,
    }
}

/// How many attempts are left after one that was answered or was not.
pub open spec fn attempts_after(left: nat, answered: bool) -> nat {
    if answered || left == 0 {
        0
    } else {
        (left - 1) as nat
    }
}

impl WorkspaceSync {
    /// Takes note of an attempt. An answer ends the offer.
    pub fn attempted(&mut self, answered: bool)
        ensures
            final(self).attempts_left == attempts_after(old(self).attempts_left as nat, answered),
            final(self).exchange == old(self).exchange,
    {
        if answered || self.attempts_left == 0 {
            self.attempts_left = 0;
        } else {
            self.attempts_left = self.attempts_left - 1;
        }
    }
}

/// Each object is sent as one line: a line break ends it, and nothing before that
/// is a control character.
pub proof fn law_one_object_one_line(object: Json)
    ensures
        line_of(object).last() == '\n',
        forall|i: int|
            0 <= i < line_of(object).len() - 1 ==> (#[trigger] line_of(object)[i]) as int >= 0x20,
{
    crate::json::law_json_is_one_line(object);
    assert forall|i: int| 0 <= i < line_of(object).len() - 1 implies (#[trigger] line_of(
        object,
    )[i]) as int >= 0x20 by {
        assert(line_of(object)[i] == json_text(object)[i]);
    }
}

/// Whether two messages say the same.
pub open spec fn same_message(left: Message, right: Message) -> bool {
    match (left, right) {
        (Message::Auth { secret: l }, Message::Auth { secret: r }) => l@ == r@,
        (Message::Status, Message::Status) => true,
        (Message::Pause, Message::Pause) => true,
        (Message::Resume, Message::Resume) => true,
        (Message::Token { access_token: l }, Message::Token { access_token: r }) => l@ == r@,
        (
            Message::Workspaces { workspaces: l },
            Message::Workspaces { workspaces: r },
        ) => l.deep_view() == r.deep_view(),
        _ => false,
    }
}

/// The worker can tell what it was sent: two messages that are sent as the same
/// line say the same, whatever secrets, tokens, names and paths are made of.
pub proof fn law_messages_are_unambiguous(left: Message, right: Message)
    requires
        line_of(message_json(left)) == line_of(message_json(right)),
    ensures
        same_message(left, right),
{
    let l = message_json(left);
    let r = message_json(right);
    assert(line_of(l).drop_last() =~= json_text(l));
    assert(line_of(r).drop_last() =~= json_text(r));
    crate::json::law_json_is_unambiguous(l, r);
    reveal_strlit("auth");
    reveal_strlit("status");
    reveal_strlit("pause");
    reveal_strlit("resume");
    reveal_strlit("token");
    reveal_strlit("workspaces");
    assert(l->Object_0.last().1 == Json::Text(kind_of(left)));
    assert(r->Object_0.last().1 == Json::Text(kind_of(right)));
    assert(kind_of(left) == kind_of(right));
    assert(kind_of(left).len() == kind_of(right).len());
    assert(kind_of(left)[0] == kind_of(right)[0]);
    match (left, right) {
        (Message::Auth { secret: s }, Message::Auth { secret: t }) => {
            assert(carried(l) == Json::Text(s@));
            assert(carried(r) == Json::Text(t@));
        },
        (Message::Token { access_token: s }, Message::Token { access_token: t }) => {
            assert(carried(l) == Json::Text(s@));
            assert(carried(r) == Json::Text(t@));
        },
        (Message::Workspaces { workspaces: s }, Message::Workspaces { workspaces: t }) => {
            assert(carried(l) == Json::List(workspaces_json(s.deep_view())));
            assert(carried(r) == Json::List(workspaces_json(t.deep_view())));
            lemma_workspaces_unique(s.deep_view(), t.deep_view());
        },
        _ => {},
    }
}

/// What a message says it is.
spec fn kind_of(message: Message) -> Seq<char> {
    match message {
        Message::Auth { .. } => "auth"@,
        Message::Status => "status"@,
        Message::Pause => "pause"@,
        Message::Resume => "resume"@,
        Message::Token { .. } => "token"@,
        Message::Workspaces { .. } => "workspaces"@,
    }
}

/// The value that an object carries.
spec fn carried(object: Json) -> Json {
    object->Object_0[0].1->Object_0[0].1
}

proof fn lemma_workspaces_unique(left: Seq<WorkspaceView>, right: Seq<WorkspaceView>)
    requires
        workspaces_json(left) == workspaces_json(right),
    ensures
        left == right,
{
    assert(workspaces_json(left).len() == left.len());
    assert(workspaces_json(right).len() == right.len());
    assert forall|i: int| 0 <= i < left.len() implies left[i] == right[i] by {
        let l = workspace_json(left[i]);
        let r = workspace_json(right[i]);
        assert(workspaces_json(left)[i] == l);
        assert(workspaces_json(right)[i] == r);
        assert(l->Object_0[0].1 == r->Object_0[0].1);
        assert(l->Object_0[1].1 == r->Object_0[1].1);
        assert(l->Object_0[2].1 == r->Object_0[2].1);
    }
    assert(left =~= right);
}

/// How many attempts are left after these outcomes.
pub open spec fn attempts_after_all(left: nat, answers: Seq<bool>) -> nat
    decreases answers.len(),
{
    if answers.len() == 0 {
        left
    } else {
        attempts_after(attempts_after_all(left, answers.drop_last()), answers.last())
    }
}

/// The workspaces are offered until the worker answers, and at most
/// `SYNC_ATTEMPTS` times.
pub proof fn law_workspace_sync_ends(answers: Seq<bool>)
    ensures
        answers.contains(true) ==> attempts_after_all(SYNC_ATTEMPTS as nat, answers) == 0,
        !answers.contains(true) && answers.len() <= SYNC_ATTEMPTS ==> attempts_after_all(
            SYNC_ATTEMPTS as nat,
            answers,
        ) == SYNC_ATTEMPTS - answers.len(),
        answers.len() >= SYNC_ATTEMPTS ==> attempts_after_all(SYNC_ATTEMPTS as nat, answers) == 0,
    decreases answers.len(),
{
    if answers.len() > 0 {
        let earlier = answers.drop_last();
        law_workspace_sync_ends(earlier);
        if answers.contains(true) && !answers.last() {
            let i = answers.index_of(true);
            assert(earlier[i]);
        }
        if !answers.contains(true) {
            assert(answers[answers.len() - 1] == answers.last());
            if earlier.contains(true) {
                let i = earlier.index_of(true);
                assert(answers[i]);
            }
        }
    }
}

/// Whether an object says what it is and carries one value under one key, as it is.
pub open spec fn says(object: Json, kind: Seq<char>, key: Seq<char>, value: Json) -> bool {
    &&& object matches Json::Object(members)
    &&& members.len() == 2
    &&& members[0].0 == "payload"@
    &&& members[0].1 matches Json::Object(payload)
    &&& payload.len() == 1
    &&& payload[0].0 == key
    &&& payload[0].1 == value
    &&& members[1].0 == "type"@
    &&& members[1].1 == Json::Text(kind)
}

/// Whether an object says what it is, and nothing else.
pub open spec fn says_only(object: Json, kind: Seq<char>) -> bool {
    &&& object matches Json::Object(members)
    &&& members.len() == 1
    &&& members[0].0 == "type"@
    &&& members[0].1 == Json::Text(kind)
}

/// Each message says what it is, and what it carries is carried as it is: a secret, a
/// token, or the workspaces, all of them.
pub proof fn law_messages_say_what_they_are(message: Message)
    ensures
        match message {
            Message::Auth { secret } => says(
                message_json(message),
                "auth"@,
                "secret"@,
                Json::Text(secret@),
            ),
            Message::Status => says_only(message_json(message), "status"@),
            Message::Pause => says_only(message_json(message), "pause"@),
            Message::Resume => says_only(message_json(message), "resume"@),
            Message::Token { access_token } => says(
                message_json(message),
                "token"@,
                "access_token"@,
                Json::Text(access_token@),
            ),
            Message::Workspaces { workspaces } => exists|rows: Seq<Json>| #[trigger]
                tells_of(rows, workspaces@) && says(
                    message_json(message),
                    "workspaces"@,
                    "workspaces"@,
                    Json::List(rows),
                ),
        },
        forall|secret: Seq<char>|
            says(#[trigger] auth_json(secret), "auth"@, "secret"@, Json::Text(secret)),
{
    if let Message::Workspaces { workspaces } = message {
        let rows = workspaces_json(workspaces.deep_view());
        assert forall|i: int| 0 <= i < workspaces@.len() implies tells_of_one(
            #[trigger] rows[i],
            workspaces@[i],
        ) by {
            assert(rows[i] == workspace_json(workspaces@[i]@));
        }
        assert(tells_of(rows, workspaces@));
    }
}

/// Whether an object tells of a workspace: its id, its name and its path.
pub open spec fn tells_of_one(row: Json, workspace: LocalWorkspace) -> bool {
    &&& row matches Json::Object(members)
    &&& members.len() == 3
    &&& members[0] == ("id"@, Json::Text(workspace.id@))
    &&& members[1] == ("name"@, Json::Text(workspace.name@))
    &&& members[2] == ("path"@, Json::Text(workspace.path@))
}

/// Whether a list tells of these workspaces, all of them and in this order.
pub open spec fn tells_of(rows: Seq<Json>, workspaces: Seq<LocalWorkspace>) -> bool {
    &&& rows.len() == workspaces.len()
    &&& forall|i: int|
        0 <= i < rows.len() ==> tells_of_one(#[trigger] rows[i], workspaces[i])
}

/// A line is the object as it is written, and a line break.
pub proof fn law_line_is_the_object(object: Json)
    ensures
        line_of(object).len() == json_text(object).len() + 1,
        line_of(object).drop_last() == json_text(object),
        line_of(object).last() == '\n',
{
    assert(line_of(object).drop_last() =~= json_text(object));
}

/// How many attempts are left after so many that were not answered.
pub open spec fn left_after(attempts: nat, unanswered: nat) -> nat
    decreases unanswered,
{
    if unanswered == 0 {
        attempts
    } else {
        attempts_after(left_after(attempts, (unanswered - 1) as nat), false)
    }
}

/// Each attempt that is not answered leaves one less, until none is left, and an answer
/// leaves none.
pub proof fn law_attempts_run_out(attempts: nat, unanswered: nat)
    ensures
        unanswered <= attempts ==> left_after(attempts, unanswered) == attempts - unanswered,
        unanswered >= attempts ==> left_after(attempts, unanswered) == 0,
        attempts_after(attempts, true) == 0,
    decreases unanswered,
{
    if unanswered > 0 {
        law_attempts_run_out(attempts, (unanswered - 1) as nat);
    }
}

} // verus!
