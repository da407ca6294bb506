//! The speech server's process: when it is started, how, and how it is stopped.

use crate::net::{LOCALHOST, PORT};
use crate::settings::{bind_host, host_for, settling, SettingsData, SettingsStep};
use crate::text::text_if;
use vstd::prelude::*;

verus! {

/// How long the server may take to say that it is up, in milliseconds.
pub const HEALTH_MILLIS: u64 = 400;

/// The bundled server, below the app's resources.
pub const SERVER_RESOURCE: &'static str = "otoha-server/otoha-server";

/// The bundled model, below the app's resources.
pub const MODEL_RESOURCE: &'static str = "models/kokoro-v1.0.onnx";

/// The bundled voices, below the app's resources.
pub const VOICES_RESOURCE: &'static str = "models/voices-v1.0.bin";

/// Ends whatever else holds the server's port.
pub const SWEEP_COMMAND: &'static str = "lsof -ti:8765 | xargs kill -9 2>/dev/null";

/// Whether the answer with this status, if there is one, says that the server is up.
pub open spec fn says_up(status: Option<u16>) -> bool {
    status matches Some(code) && code == 200
}

/// Whether the server is up, given the status of its answer, if it answered.
pub fn server_up(status: Option<u16>) -> (r: bool)
    ensures
        r == (status == Some(200u16)),
        r == says_up(status),
{
    match status {
        Some(code) => code == 200,
        None => false,
    }
}

/// What a look at a child process shows.
#[derive(Clone, Copy, Debug, PartialEq, Eq, Structural)]
pub enum ChildPoll {
    /// It is running.
    Running,
    /// It has ended.
    Exited,
    /// The look failed.
    Failed,
}

// ---- starting ----------------------------------------------------------------------------------

/// Starting the server.
#[derive(Clone, Copy, Debug, PartialEq, Eq, Structural)]
pub enum StartServer {
    /// The server is to be asked whether it is up.
    ProbeHealth,
    /// The child process, if one is held, is to be looked at.
    PollChild,
    /// The child process has ended and is to be let go.
    DropChild,
    /// A child process is to be started, and held if that succeeds.
    Spawn,
    /// It is over; `serving` says whether a server is up or starting.
    Finished { serving: bool },
}

/// What came of a step.
#[derive(Clone, Copy, Debug, PartialEq, Eq, Structural)]
pub enum StartReply {
    /// The child process is let go.
    Done,
    /// Whether the server is up.
    Health(bool),
    /// What the child process does, if one is held.
    Child(Option<ChildPoll>),
    /// Whether a child process was started.
    Spawned(bool),
}

impl StartServer {
    /// The start after `reply`. A reply that is not called for changes nothing.
    pub open spec fn after(self, reply: StartReply) -> Self {
        match (self, reply) {
            (StartServer::ProbeHealth, StartReply::Health(up)) => if up {
                StartServer::Finished { serving: true }
            } else {
                StartServer::PollChild
            },
            (StartServer::PollChild, StartReply::Child(child)) => match child {
                Some(ChildPoll::Running) => StartServer::Finished { serving: true },
                Some(_) => StartServer::DropChild,
                None => StartServer::Spawn,
            },
            (StartServer::DropChild, StartReply::Done) => StartServer::Spawn,
            (StartServer::Spawn, StartReply::Spawned(ok)) => StartServer::Finished { serving: ok },
            _ => self,
        }
    }

    /// The start after all of `replies`.
    pub open spec fn after_all(replies: Seq<StartReply>) -> Self
        decreases replies.len(),
    {
        if replies.len() == 0 {
            StartServer::ProbeHealth
        } else {
            Self::after_all(replies.drop_last()).after(replies.last())
        }
    }

    /// The start before its first step.
    pub fn start() -> (r: Self)
        ensures
            r == Self::after_all(seq![]),
    {
        StartServer::ProbeHealth
    }

    /// Takes in what came of the step.
    pub fn next(self, reply: StartReply) -> (r: Self)
        ensures
            r == self.after(reply),
    {
        match (self, reply) {
            (StartServer::ProbeHealth, StartReply::Health(up)) => if up {
                StartServer::Finished { serving: true }
            } else {
                StartServer::PollChild
            },
            (StartServer::PollChild, StartReply::Child(child)) => match child {
                Some(ChildPoll::Running) => StartServer::Finished { serving: true },
                Some(_) => StartServer::DropChild,
                None => StartServer::Spawn,
            },
            (StartServer::DropChild, StartReply::Done) => StartServer::Spawn,
            (StartServer::Spawn, StartReply::Spawned(ok)) => StartServer::Finished { serving: ok },
            (start, _) => start,
        }
    }
}

/// Whether a child process is held after `replies`, if `held` says so of the beginning.
pub open spec fn held_after(held: bool, replies: Seq<StartReply>) -> bool
    decreases replies.len(),
{
    if replies.len() == 0 {
        held
    } else {
        let before = held_after(held, replies.drop_last());
        match (StartServer::after_all(replies.drop_last()), replies.last()) {
            (StartServer::DropChild, StartReply::Done) => false,
            (StartServer::Spawn, StartReply::Spawned(ok)) => before || ok,
            _ => before,
        }
    }
}

/// Whether `replies` speak of a child process exactly when one is held.
pub open spec fn honest(held: bool, replies: Seq<StartReply>) -> bool
    decreases replies.len(),
{
    replies.len() > 0 ==> {
        &&& honest(held, replies.drop_last())
        &&& (StartServer::after_all(replies.drop_last()), replies.last()) matches (
            StartServer::PollChild,
            StartReply::Child(child),
        ) ==> (child is Some <==> held_after(held, replies.drop_last()))
    }
}

/// Whether a server that is up, or a child process that is running, was seen among `replies`.
pub open spec fn server_seen(replies: Seq<StartReply>) -> bool
    decreases replies.len(),
{
    replies.len() > 0 && (server_seen(replies.drop_last()) || match (
        StartServer::after_all(replies.drop_last()),
        replies.last(),
    ) {
        (StartServer::ProbeHealth, StartReply::Health(up)) => up,
        (StartServer::PollChild, StartReply::Child(child)) => child == Some(ChildPoll::Running),
        _ => false,
    })
}

/// No second server is started: a child process is started only where the port was silent, no child
/// process was seen running, and none is held any more.
pub proof fn law_no_second_server(held: bool, replies: Seq<StartReply>)
    requires
        honest(held, replies),
        StartServer::after_all(replies) is Spawn,
    ensures
        !server_seen(replies),
        !held_after(held, replies),
{
    lemma_start(held, replies);
}

/// A start that is over reports a server exactly if one was seen or a child process is held.
pub proof fn law_start_reports_server(held: bool, replies: Seq<StartReply>)
    requires
        honest(held, replies),
        StartServer::after_all(replies) is Finished,
    ensures
        StartServer::after_all(replies)->serving <==> server_seen(replies) || held_after(
            held,
            replies,
        ),
{
    lemma_start(held, replies);
}

proof fn lemma_start(held: bool, replies: Seq<StartReply>)
    requires
        honest(held, replies),
    ensures
        match StartServer::after_all(replies) {
            StartServer::ProbeHealth | StartServer::PollChild => !server_seen(replies)
                && held_after(held, replies) == held,
            StartServer::DropChild => !server_seen(replies) && held_after(held, replies),
            StartServer::Spawn => !server_seen(replies) && !held_after(held, replies),
            StartServer::Finished { serving } => serving <==> server_seen(replies) || held_after(
                held,
                replies,
            ),
        },
    decreases replies.len(),
{
    if replies.len() > 0 {
        lemma_start(held, replies.drop_last());
    }
}

// ---- the command -------------------------------------------------------------------------------

/// The program that is the server, with texts of type `T`.
pub enum ServerProgram<T> {
    /// The bundled server.
    Bundled,
    /// A script that Python runs, for development.
    Script { python: T, script: T },
}

/// The value of an environment variable, with texts of type `T`.
pub enum EnvValue<T> {
    /// This text.
    Text(T),
    /// The path of the bundled model.
    ModelPath,
    /// The path of the bundled voices.
    VoicesPath,
}

/// The command that runs the server.
pub struct ServerCommand {
    pub program: ServerProgram<String>,
    /// The environment variables that are set for it.
    pub env: Vec<(&'static str, EnvValue<String>)>,
}

impl View for ServerProgram<String> {
    type V = ServerProgram<Seq<char>>;

    open spec fn view(&self) -> ServerProgram<Seq<char>> {
        match self {
            ServerProgram::Bundled => ServerProgram::Bundled,
            ServerProgram::Script { python, script } => ServerProgram::Script {
                python: python@,
                script: script@,
            },
        }
    }
}

impl View for EnvValue<String> {
    type V = EnvValue<Seq<char>>;

    open spec fn view(&self) -> EnvValue<Seq<char>> {
        match self {
            EnvValue::Text(t) => EnvValue::Text(t@),
            EnvValue::ModelPath => EnvValue::ModelPath,
            EnvValue::VoicesPath => EnvValue::VoicesPath,
        }
    }
}

/// The names and values of a list of environment variables.
pub open spec fn env_view(env: Seq<(&'static str, EnvValue<String>)>) -> Seq<
    (Seq<char>, EnvValue<Seq<char>>),
> {
    env.map_values(|e: (&'static str, EnvValue<String>)| (e.0@, e.1@))
}

/// The text, or `default` where there is none.
pub open spec fn or_default(text: Option<Seq<char>>, default: Seq<char>) -> Seq<char> {
    match text {
        Some(t) => t,
        None => default,
    }
}

/// The Python that runs the server, given what `OTOHA_PYTHON` says, if it says anything.
pub fn py(var: Option<String>) -> (r: String)
    ensures
        r@ == or_default(text_if(var), "python3"@),
{
    match var {
        Some(t) => t,
        None => "python3".to_string(),
    }
}

/// The script that is the server, given what `OTOHA_SERVER` says, if it says anything.
pub fn server_script(var: Option<String>) -> (r: String)
    ensures
        r@ == or_default(text_if(var), "tts_server.py"@),
{
    match var {
        Some(t) => t,
        None => "tts_server.py".to_string(),
    }
}

/// The environment of the server: the port, the address to listen on, and the bundled model and
/// voices. The voices are named only where there is a model.
pub open spec fn env_of(network_access: bool, model: bool, voices: bool) -> Seq<
    (Seq<char>, EnvValue<Seq<char>>),
> {
    seq![
        ("OTOHA_PORT"@, EnvValue::Text(PORT@)),
        ("OTOHA_HOST"@, EnvValue::Text(host_for(network_access))),
    ] + (if model {
        seq![("OTOHA_MODEL"@, EnvValue::ModelPath)]
    } else {
        seq![]
    }) + (if model && voices {
        seq![("OTOHA_VOICES"@, EnvValue::VoicesPath)]
    } else {
        seq![]
    })
}

/// The program that is the server: the bundled one where it exists, and else a script, by what the
/// environment names or by default.
pub open spec fn program_of(
    bundled: bool,
    python: Option<Seq<char>>,
    script: Option<Seq<char>>,
) -> ServerProgram<Seq<char>> {
    if bundled {
        ServerProgram::Bundled
    } else {
        ServerProgram::Script {
            python: or_default(python, "python3"@),
            script: or_default(script, "tts_server.py"@),
        }
    }
}

/// The command that runs the server. `bundled` says whether the bundled server exists, `model`
/// whether the bundled model does, and `voices` whether the path of the bundled voices is known;
/// `python` and `script` are what the environment names for development.
pub fn server_command(
    bundled: bool,
    python: Option<String>,
    script: Option<String>,
    settings: &SettingsData,
    model: bool,
    voices: bool,
) -> (r: ServerCommand)
    ensures
        r.program@ == (if bundled {
            ServerProgram::Bundled
        } else {
            ServerProgram::Script {
                python: or_default(text_if(python), "python3"@),
                script: or_default(text_if(script), "tts_server.py"@),
            }
        }),
        r.program@ == program_of(bundled, text_if(python), text_if(script)),
        env_view(r.env@) == env_of(settings.network_access, model, voices),
{
    let program = if bundled {
        ServerProgram::Bundled
    } else {
        ServerProgram::Script { python: py(python), script: server_script(script) }
    };
    let mut env: Vec<(&'static str, EnvValue<String>)> = Vec::new();
    env.push(("OTOHA_PORT", EnvValue::Text(PORT.to_string())));
    env.push(("OTOHA_HOST", EnvValue::Text(bind_host(settings).to_string())));
    if model {
        env.push(("OTOHA_MODEL", EnvValue::ModelPath));
        if voices {
            env.push(("OTOHA_VOICES", EnvValue::VoicesPath));
        }
    }
    assert(env_view(env@) =~= env_of(settings.network_access, model, voices));
    ServerCommand { program, env }
}

/// Without network access the server listens only on the address by which this machine reaches
/// itself, which is the one that the app's own URLs hold; with it, on every address. Its port is
/// always the one that the URLs hold.
pub proof fn law_server_listens_where_asked(network_access: bool, model: bool, voices: bool)
    ensures
        env_of(network_access, model, voices)[0] == ("OTOHA_PORT"@, EnvValue::Text(PORT@)),
        env_of(network_access, model, voices)[1].0 == "OTOHA_HOST"@,
        !network_access ==> env_of(network_access, model, voices)[1].1 == EnvValue::Text(
            LOCALHOST@,
        ),
        network_access ==> env_of(network_access, model, voices)[1].1 == EnvValue::Text(
            "0.0.0.0"@,
        ),
{
}

/// A change of the settings takes effect: the changed settings are saved first, then the server is
/// stopped and started once each, and the one that is started is told to listen on every address
/// exactly where the changed settings let other devices reach it.
pub proof fn law_settings_take_effect(settings: SettingsData, model: bool, voices: bool)
    ensures
        settling(settings).len() == 3,
        settling(settings)[0] == SettingsStep::Save(settings),
        settling(settings)[1] == SettingsStep::StopServer,
        settling(settings)[2] == SettingsStep::StartServer,
        env_of(settings.network_access, model, voices)[1].0 == "OTOHA_HOST"@,
        env_of(settings.network_access, model, voices)[1].1 == EnvValue::Text("0.0.0.0"@)
            <==> settings.network_access,
{
    reveal_strlit("0.0.0.0");
    reveal_strlit("127.0.0.1");
    assert("0.0.0.0"@[0] != "127.0.0.1"@[0]);
}

// ---- stopping ----------------------------------------------------------------------------------

/// A step in dealing with a child process.
#[derive(Clone, Copy, Debug, PartialEq, Eq, Structural)]
pub enum ChildStep {
    /// Kill the child process that is held, which is let go.
    Kill,
    /// Wait for it to end.
    Wait,
    /// Run `SWEEP_COMMAND`.
    SweepPort,
    /// Start a child process, and hold it if that succeeds.
    Spawn,
}

/// The steps that end the child process, if one is held.
pub open spec fn ending(held: bool) -> Seq<ChildStep> {
    if held {
        seq![ChildStep::Kill, ChildStep::Wait]
    } else {
        seq![]
    }
}

/// The steps that end the child process, if one is held.
pub fn end_child(held: bool) -> (r: Vec<ChildStep>)
    ensures
        r@ == ending(held),
{
    let mut steps: Vec<ChildStep> = Vec::new();
    if held {
        steps.push(ChildStep::Kill);
        steps.push(ChildStep::Wait);
    }
    assert(steps@ =~= ending(held));
    steps
}

/// The steps that stop the server.
pub open spec fn stopping(held: bool) -> Seq<ChildStep> {
    ending(held).push(ChildStep::SweepPort)
}

/// The steps that stop the server: end the child process, if one is held, and whatever else holds
/// the port.
pub fn stop_server(held: bool) -> (r: Vec<ChildStep>)
    ensures
        r@ == ending(held).push(ChildStep::SweepPort),
        r@ == stopping(held),
{
    let mut steps = end_child(held);
    steps.push(ChildStep::SweepPort);
    steps
}

/// What is swept is the port on which the server listens.
pub proof fn law_sweeps_own_port()
    ensures
        SWEEP_COMMAND@ == "lsof -ti:"@ + PORT@ + " | xargs kill -9 2>/dev/null"@,
{
    reveal_strlit("lsof -ti:8765 | xargs kill -9 2>/dev/null");
    reveal_strlit("lsof -ti:");
    reveal_strlit("8765");
    reveal_strlit(" | xargs kill -9 2>/dev/null");
    assert(SWEEP_COMMAND@ =~= "lsof -ti:"@ + PORT@ + " | xargs kill -9 2>/dev/null"@);
}

/// The course of starting the server, for whatever comes of each step. A server that is up, or a child
/// process that is running, is left alone. Else a child process that is held is let go, and one is
/// started; the start reports whether that succeeded.
pub proof fn law_course_of_a_start(up: bool, child: Option<ChildPoll>, spawned: bool)
    ensures
        ({
            let r1 = seq![StartReply::Health(up)];
            let r2 = r1.push(StartReply::Child(child));
            let r3 = r2.push(StartReply::Done);
            let r4 = r3.push(StartReply::Spawned(spawned));
            let running = child == Some(ChildPoll::Running);
            &&& StartServer::after_all(r1) == (if up {
                StartServer::Finished { serving: true }
            } else {
                StartServer::PollChild
            })
            &&& StartServer::after_all(r2) is DropChild <==> !up && child is Some && !running
            &&& StartServer::after_all(r2) is Spawn <==> !up && child is None
            &&& StartServer::after_all(r3) is Spawn <==> !up && !running
            &&& StartServer::after_all(r4) == StartServer::Finished {
                serving: up || running || spawned,
            }
        }),
{
    let r1 = seq![StartReply::Health(up)];
    let r2 = r1.push(StartReply::Child(child));
    let r3 = r2.push(StartReply::Done);
    let r4 = r3.push(StartReply::Spawned(spawned));
    assert(r1.drop_last() =~= Seq::<StartReply>::empty());
    assert(r2.drop_last() =~= r1);
    assert(r3.drop_last() =~= r2);
    assert(r4.drop_last() =~= r3);
    reveal_with_fuel(StartServer::after_all, 5);
}

/// A reply that is not called for has no say in a start.
pub proof fn law_start_heeds_only_answers(start: StartServer, reply: StartReply)
    requires
        match start {
            StartServer::ProbeHealth => !(reply is Health),
            StartServer::PollChild => !(reply is Child),
            StartServer::DropChild => !(reply is Done),
            StartServer::Spawn => !(reply is Spawned),
            StartServer::Finished { .. } => true,
        },
    ensures
        start.after(reply) == start,
{
}

proof fn lemma_env_names()
    ensures
        "OTOHA_PORT"@ != "OTOHA_HOST"@,
        "OTOHA_PORT"@.len() == 10,
        "OTOHA_HOST"@.len() == 10,
        "OTOHA_MODEL"@.len() == 11,
        "OTOHA_VOICES"@.len() == 12,
{
    reveal_strlit("OTOHA_PORT");
    reveal_strlit("OTOHA_HOST");
    reveal_strlit("OTOHA_MODEL");
    reveal_strlit("OTOHA_VOICES");
    assert("OTOHA_PORT"@[6] != "OTOHA_HOST"@[6]);
}

/// The server's environment names the port and the address in every case, the bundled model exactly
/// if it exists, and the bundled voices exactly if the model exists and their path is known. Each
/// variable is set once, and no other is.
pub proof fn law_environment_is_complete(network_access: bool, model: bool, voices: bool)
    ensures
        ({
            let env = env_of(network_access, model, voices);
            let port = ("OTOHA_PORT"@, EnvValue::Text("8765"@));
            let host = (
                "OTOHA_HOST"@,
                EnvValue::Text(
                    if network_access {
                        "0.0.0.0"@
                    } else {
                        "127.0.0.1"@
                    },
                ),
            );
            let model_path = ("OTOHA_MODEL"@, EnvValue::<Seq<char>>::ModelPath);
            let voices_path = ("OTOHA_VOICES"@, EnvValue::<Seq<char>>::VoicesPath);
            &&& env.contains(port)
            &&& env.contains(host)
            &&& env.contains(model_path) <==> model
            &&& env.contains(voices_path) <==> model && voices
            &&& forall|i: int|
                0 <= i < env.len() ==> #[trigger] env[i] == port || env[i] == host || env[i]
                    == model_path || env[i] == voices_path
            &&& forall|i: int, j: int|
                0 <= i < j < env.len() ==> (#[trigger] env[i]).0 != (#[trigger] env[j]).0
        }),
{
    lemma_env_names();
    let env = env_of(network_access, model, voices);
    assert(env[0].0 == "OTOHA_PORT"@);
    assert(env[1].0 == "OTOHA_HOST"@);
    if model {
        assert(env[2] == ("OTOHA_MODEL"@, EnvValue::<Seq<char>>::ModelPath));
        if voices {
            assert(env[3] == ("OTOHA_VOICES"@, EnvValue::<Seq<char>>::VoicesPath));
        }
    }
}

/// Whether other devices may reach the server has a say in the address alone: every other variable is
/// the same for either setting.
pub proof fn law_network_access_sets_the_address_alone(
    model: bool,
    voices: bool,
    name: Seq<char>,
    value: EnvValue<Seq<char>>,
)
    requires
        name != "OTOHA_HOST"@,
    ensures
        env_of(true, model, voices).contains((name, value)) <==> env_of(
            false,
            model,
            voices,
        ).contains((name, value)),
        env_of(true, model, voices).len() == env_of(false, model, voices).len(),
{
    let (a, b) = (env_of(true, model, voices), env_of(false, model, voices));
    assert forall|i: int| 0 <= i < a.len() && i != 1 implies a[i] == b[i] by {}
    if a.contains((name, value)) {
        let i = choose|i: int| 0 <= i < a.len() && a[i] == (name, value);
        assert(b[i] == (name, value));
    }
    if b.contains((name, value)) {
        let i = choose|i: int| 0 <= i < b.len() && b[i] == (name, value);
        assert(a[i] == (name, value));
    }
}

/// What the environment names is used as it is, even an empty text; the default only where it names
/// nothing.
pub proof fn law_default_only_where_unset(t: Seq<char>, default: Seq<char>)
    ensures
        or_default(Some(t), default) == t,
        or_default(None, default) == default,
{
}

/// A child process is killed exactly if one is held, and is waited for right after it is killed;
/// nothing else is done to end it.
pub proof fn law_killed_child_is_waited_for(held: bool)
    ensures
        ending(held).contains(ChildStep::Kill) <==> held,
        ending(held).contains(ChildStep::Wait) <==> held,
        ending(held).len() == (if held {
            2int
        } else {
            0
        }),
        forall|i: int|
            0 <= i < ending(held).len() && #[trigger] ending(held)[i] == ChildStep::Kill ==> i + 1
                < ending(held).len() && ending(held)[i + 1] == ChildStep::Wait,
{
    if held {
        assert(ending(held)[0] == ChildStep::Kill);
        assert(ending(held)[1] == ChildStep::Wait);
    }
}

/// The server is up exactly if it answers, and answers with the status 200.
pub proof fn law_server_is_up_where_it_says_so(code: u16)
    ensures
        says_up(Some(code)) <==> code == 200,
        !says_up(None),
{
}

/// A bundled server is used whatever the environment names. Without one, Python and the script are
/// each what the environment names, and else `python3` and `tts_server.py`, one without regard to the
/// other.
pub proof fn law_bundled_server_comes_first(
    python: Option<Seq<char>>,
    script: Option<Seq<char>>,
    t: Seq<char>,
)
    ensures
        program_of(true, python, script) is Bundled,
        program_of(false, Some(t), script) matches ServerProgram::Script { python: p, .. } && p == t,
        program_of(false, None, script) matches ServerProgram::Script { python: p, .. } && p
            == "python3"@,
        program_of(false, python, Some(t)) matches ServerProgram::Script { script: q, .. } && q == t,
        program_of(false, python, None) matches ServerProgram::Script { script: q, .. } && q
            == "tts_server.py"@,
{
}

/// Stopping the server ends the child process, if one is held, and then clears the port in any case.
pub proof fn law_port_is_cleared_last(held: bool)
    ensures
        stopping(held).last() == ChildStep::SweepPort,
        forall|i: int|
            0 <= i < stopping(held).len() - 1 ==> #[trigger] stopping(held)[i] == ChildStep::Kill
                || stopping(held)[i] == ChildStep::Wait,
        held ==> stopping(held)[0] == ChildStep::Kill && stopping(held)[1] == ChildStep::Wait,
        stopping(held).len() == (if held {
            3int
        } else {
            1
        }),
{
}

/// What the command holds is seen as it is: the variables in their order, each with its value.
pub proof fn law_command_is_seen_as_it_is(
    env: Seq<(&'static str, EnvValue<String>)>,
    i: int,
    python: String,
    script: String,
)
    ensures
        env_view(env).len() == env.len(),
        0 <= i < env.len() ==> env_view(env)[i] == (env[i].0@, env[i].1@),
        (EnvValue::Text(python))@ == EnvValue::Text(python@),
        (ServerProgram::Script { python, script })@ == (ServerProgram::Script {
            python: python@,
            script: script@,
        }),
{
}

} // verus!
