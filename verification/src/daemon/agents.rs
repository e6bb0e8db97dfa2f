//! Agents: which are installed, which run, and where messages to them go.
use crate::common::daemon::{AgentListResult, DiscoveredAgent};
use crate::strings::same;
use crate::table;
use crate::table::Table;
use vstd::prelude::*;

verus! {

/// How an agent is started.
#[derive(Debug, PartialEq)]
pub struct LaunchSpec {
    pub program: &'static str,
    pub args: Vec<&'static str>,
    pub env: Vec<(&'static str, &'static str)>,
}

/// The agents that may be there.
pub const KNOWN_AGENTS: [&'static str; 2] = ["nano", "codex"];

impl LaunchSpec {
    /// It starts `codex`.
    pub open spec fn starts_codex(self) -> bool {
        &&& self.program@ == "npx"@
        &&& self.args@.map_values(|a: &'static str| a@) == seq!["-y"@, "@nyssance/codex-acp-v2"@]
        &&& self.env@.map_values(|e: (&'static str, &'static str)| (e.0@, e.1@)) == seq![
            ("INITIAL_AGENT_MODE"@, "agent-full-access"@),
        ]
    }
}

/// How an agent that is not built in is started.
pub fn launch_spec(agent: &str) -> (r: Option<LaunchSpec>)
    ensures
        r is Some <==> agent@ == "codex"@,
        r matches Some(spec) ==> spec.starts_codex(),
{
    if !same(agent, "codex") {
        return None;
    }
    let mut args: Vec<&'static str> = Vec::new();
    args.push("-y");
    args.push("@nyssance/codex-acp-v2");
    let mut env: Vec<(&'static str, &'static str)> = Vec::new();
    env.push(("INITIAL_AGENT_MODE", "agent-full-access"));
    let spec: LaunchSpec = LaunchSpec { program: "npx", args, env };
    proof {
        assert(spec.args@.map_values(|a: &'static str| a@) =~= seq![
            "-y"@,
            "@nyssance/codex-acp-v2"@,
        ]);
        assert(spec.env@.map_values(|e: (&'static str, &'static str)| (e.0@, e.1@)) =~= seq![
            ("INITIAL_AGENT_MODE"@, "agent-full-access"@),
        ]);
    }
    Some(spec)
}

/// Which programs the machine can find.
#[derive(Debug, Clone, Copy, PartialEq, Eq, Structural)]
pub struct Programs {
    pub codex: bool,
    pub npx: bool,
    pub bun: bool,
}

/// Whether an agent is installed on a machine with these programs.
pub open spec fn installed(agent: Seq<char>, programs: Programs) -> bool {
    ||| agent == "nano"@
    ||| agent == "codex"@ && programs.codex && programs.npx && programs.bun
}

/// Whether an agent is installed: the built-in one always is, `codex` where all that it needs to
/// start is found, and no other.
pub fn is_installed(agent: &str, programs: Programs) -> (r: bool)
    ensures
        r == installed(agent@, programs),
{
    same(agent, "nano") || (same(agent, "codex") && programs.codex && programs.npx && programs.bun)
}

/// An agent that runs.
pub struct RunningAgent<P> {
    /// Tells this run of the agent from earlier and later ones.
    pub instance: u64,
    /// What the run is held by.
    pub process: P,
}

/// What has to be started.
pub enum Launch {
    /// The agent that is built in.
    Nano,
    /// Another program.
    External(LaunchSpec),
}

/// The agents that run.
pub struct AgentRegistry<P> {
    agents: Table<RunningAgent<P>>,
    next_instance: u64,
}

impl<P> AgentRegistry<P> {
    /// The agents that run, under their names.
    pub closed spec fn view(&self) -> Map<Seq<char>, RunningAgent<P>> {
        self.agents@
    }

    /// The number of the next run.
    pub closed spec fn next(&self) -> u64 {
        self.next_instance
    }

    /// No agent that runs has a number that is yet to be given.
    pub open spec fn well_formed(&self) -> bool {
        forall|name: Seq<char>| #[trigger]
            self@.contains_key(name) ==> self@[name].instance < self.next()
    }

    /// No agent runs.
    pub fn new() -> (r: Self)
        ensures
            r.well_formed(),
            r@ == Map::<Seq<char>, RunningAgent<P>>::empty(),
            r.next() == 1,
    {
        AgentRegistry { agents: Table::new(), next_instance: 1 }
    }

    /// The known agents that are installed, in their order, and whether they run.
    pub fn list(&self, programs: Programs) -> (r: AgentListResult)
        ensures
            r.agents@.map_values(|a: DiscoveredAgent| (a.name@, a.running)) == if installed(
                "codex"@,
                programs,
            ) {
                seq![
                    ("nano"@, self@.contains_key("nano"@)),
                    ("codex"@, self@.contains_key("codex"@)),
                ]
            } else {
                seq![("nano"@, self@.contains_key("nano"@))]
            },
    {
        let mut agents: Vec<DiscoveredAgent> = Vec::new();
        agents.push(
            DiscoveredAgent { name: "nano".to_owned(), running: self.agents.contains("nano") },
        );
        if is_installed("codex", programs) {
            agents.push(
                DiscoveredAgent {
                    name: "codex".to_owned(),
                    running: self.agents.contains("codex"),
                },
            );
            proof {
                assert(agents@.map_values(|a: DiscoveredAgent| (a.name@, a.running)) =~= seq![
                    ("nano"@, self@.contains_key("nano"@)),
                    ("codex"@, self@.contains_key("codex"@)),
                ]);
            }
        } else {
            proof {
                assert(agents@.map_values(|a: DiscoveredAgent| (a.name@, a.running)) =~= seq![
                    ("nano"@, self@.contains_key("nano"@)),
                ]);
            }
        }
        AgentListResult { agents }
    }

    /// Begins to start an agent, or to start it again: the run that was there is taken out and is
    /// to be ended, and what comes back besides is what to start.
    pub fn restart(&mut self, agent: &str, programs: Programs) -> (r: Result<
        (Option<RunningAgent<P>>, Launch),
        String,
    >)
        requires
            old(self).well_formed(),
        ensures
            final(self).well_formed(),
            final(self).next() == old(self).next(),
            r is Ok <==> installed(agent@, programs),
            r matches Err(message) ==> message@ == "本机未安装 agent: "@ + agent@ && final(self)@
                == old(self)@,
            r matches Ok((before, launch)) ==> {
                &&& final(self)@ == old(self)@.remove(agent@)
                &&& before is Some <==> old(self)@.contains_key(agent@)
                &&& before is Some ==> before->0 == old(self)@[agent@]
                &&& launch is Nano <==> agent@ == "nano"@
                &&& launch matches Launch::External(spec) ==> spec.starts_codex()
            },
    {
        if !is_installed(agent, programs) {
            let mut message: String = "本机未安装 agent: ".to_owned();
            message.append(agent);
            return Err(message);
        }
        let before: Option<RunningAgent<P>> = self.terminate(agent);
        proof {
            reveal_strlit("nano");
            reveal_strlit("codex");
            assert("nano"@[0] != "codex"@[0]);
        }
        match launch_spec(agent) {
            Some(spec) => Ok((before, Launch::External(spec))),
            None => Ok((before, Launch::Nano)),
        }
    }

    /// An agent was started. What comes back is the number of this run.
    pub fn started(&mut self, agent: &str, process: P) -> (r: u64)
        requires
            old(self).well_formed(),
            old(self).next() < u64::MAX,
        ensures
            final(self).well_formed(),
            r == old(self).next(),
            final(self).next() == old(self).next() + 1,
            final(self)@ == old(self)@.insert(agent@, RunningAgent { instance: r, process }),
    {
        let instance: u64 = self.next_instance;
        self.next_instance = instance + 1;
        let _ = self.agents.insert(agent.to_owned(), RunningAgent { instance, process });
        proof {
            assert forall|name: Seq<char>| #[trigger] self@.contains_key(name) implies self@[name].instance
                < self.next() by {
                assert(name == agent@ || old(self)@.contains_key(name));
            }
        }
        instance
    }

    /// Where a message to an agent goes: to what its run is held by.
    pub fn forward_to_agent(&self, agent: &str) -> (r: Result<&P, String>)
        ensures
            r is Ok <==> self@.contains_key(agent@),
            r matches Ok(process) ==> *process == self@[agent@].process,
            r matches Err(message) ==> message@ == "agent 未启动: "@ + agent@,
    {
        match self.agents.get(agent) {
            Some(running) => Ok(&running.process),
            None => {
                let mut message: String = "agent 未启动: ".to_owned();
                message.append(agent);
                Err(message)
            },
        }
    }

    /// Takes an agent out; its run is to be ended.
    pub fn terminate(&mut self, agent: &str) -> (r: Option<RunningAgent<P>>)
        requires
            old(self).well_formed(),
        ensures
            final(self).well_formed(),
            final(self).next() == old(self).next(),
            final(self)@ == old(self)@.remove(agent@),
            r is Some <==> old(self)@.contains_key(agent@),
            r matches Some(running) ==> running == old(self)@[agent@],
    {
        let r: Option<RunningAgent<P>> = self.agents.remove(agent);
        proof {
            assert forall|name: Seq<char>| #[trigger] self@.contains_key(name) implies self@[name].instance
                < self.next() by {
                assert(old(self)@.contains_key(name));
            }
        }
        r
    }

    /// A run of an agent ended of itself. It is taken out, unless the agent has been started again
    /// meanwhile. Whether it was taken out comes back.
    pub fn on_exit(&mut self, agent: &str, instance: u64) -> (r: bool)
        requires
            old(self).well_formed(),
        ensures
            final(self).well_formed(),
            final(self).next() == old(self).next(),
            r == (old(self)@.contains_key(agent@) && old(self)@[agent@].instance == instance),
            final(self)@ == if r {
                old(self)@.remove(agent@)
            } else {
                old(self)@
            },
    {
        match self.agents.get(agent) {
            Some(running) => {
                if running.instance != instance {
                    return false;
                }
            },
            None => return false,
        }
        let _ = self.terminate(agent);
        true
    }

    /// Takes all agents out; their runs are to be ended.
    pub fn shutdown_all(&mut self) -> (r: Vec<RunningAgent<P>>)
        requires
            old(self).well_formed(),
        ensures
            final(self).well_formed(),
            final(self).next() == old(self).next(),
            final(self)@ == Map::<Seq<char>, RunningAgent<P>>::empty(),
            table::all_values(r@, old(self)@),
    {
        self.agents.drain()
    }
}

/// What is said when a message could not be written to an agent.
pub fn write_failed(agent: &str, error: &str) -> (r: String)
    ensures
        r@ == "agent 写入失败 ("@ + agent@ + "): "@ + error@,
{
    let mut r: String = "agent 写入失败 (".to_owned();
    r.append(agent);
    r.append("): ");
    r.append(error);
    r
}

/// Why an agent could not be started.
#[derive(Debug, Clone, Copy, PartialEq, Eq, Structural)]
pub enum StartFailure {
    /// The program could not be run.
    Spawn,
    /// It has no process number.
    NoPid,
    /// It cannot be written to.
    NoStdin,
    /// It cannot be read.
    NoStdout,
    /// Its errors cannot be read.
    NoStderr,
}

/// What is said when an agent could not be started.
pub fn start_failed(failure: StartFailure, agent: &str, error: &str) -> (r: String)
    ensures
        r@ == match failure {
            StartFailure::Spawn => "启动 agent 失败 ("@ + agent@ + "): "@ + error@,
            StartFailure::NoPid => "agent 缺少 pid: "@ + agent@,
            StartFailure::NoStdin => "agent stdin 不可用: "@ + agent@,
            StartFailure::NoStdout => "agent stdout 不可用: "@ + agent@,
            StartFailure::NoStderr => "agent stderr 不可用: "@ + agent@,
        },
{
    let mut r: String = match failure {
        StartFailure::Spawn => "启动 agent 失败 (".to_owned(),
        StartFailure::NoPid => "agent 缺少 pid: ".to_owned(),
        StartFailure::NoStdin => "agent stdin 不可用: ".to_owned(),
        StartFailure::NoStdout => "agent stdout 不可用: ".to_owned(),
        StartFailure::NoStderr => "agent stderr 不可用: ".to_owned(),
    };
    r.append(agent);
    match failure {
        StartFailure::Spawn => {
            r.append("): ");
            r.append(error);
        },
        _ => {},
    }
    r
}

/// The end of a run that was replaced by a later one does not touch the later one.
pub proof fn law_exit_of_an_earlier_run_is_ignored<P>(
    earlier: AgentRegistry<P>,
    later: AgentRegistry<P>,
    agent: Seq<char>,
)
    requires
        earlier.well_formed(),
        earlier@.contains_key(agent),
        later@.contains_key(agent),
        later@[agent].instance >= earlier.next(),
    ensures
        later@[agent].instance != earlier@[agent].instance,
{
}

} // verus!
