//! Coding agents: how one is launched, watched and counted.
use vstd::prelude::*;

use crate::paths::{name_project, project_name};
use crate::text::{cat2, decimal, law_decimal_reads_back, number_within, parse_number};

verus! {

/// The number of seconds that an agent may run: ten minutes, unless the
/// environment says otherwise.
pub fn agent_timeout(env: Option<&str>) -> (r: u64)
    ensures
        r == (match env {
            Some(v) => match number_within(v@, u64::MAX as nat) {
                Some(n) => n,
                None => 600,
            },
            None => 600,
        }),
{
    match env {
        Some(v) => match parse_number(v, u64::MAX) {
            Some(n) => n,
            None => 600,
        },
        None => 600,
    }
}

/// How many agents are running. The count is never negative.
pub struct AgentCount {
    n: i64,
}

impl View for AgentCount {
    type V = int;

    closed spec fn view(&self) -> int {
        self.n as int
    }
}

/// A count after a change. It never falls below zero.
pub open spec fn counted(n: int, delta: int) -> int {
    if n + delta < 0 {
        0
    } else {
        n + delta
    }
}

impl AgentCount {
    #[verifier::type_invariant]
    spec fn not_negative(self) -> bool {
        self.n >= 0
    }

    pub fn new() -> (r: Self)
        ensures
            r@ == 0,
    {
        AgentCount { n: 0 }
    }

    /// The count.
    pub fn current(&self) -> (r: i64)
        ensures
            r == self@,
            r >= 0,
    {
        proof {
            use_type_invariant(self);
        }
        self.n
    }

    /// Changes the count, and hands it out.
    pub fn update_count(&mut self, delta: i64) -> (r: i64)
        requires
            old(self)@ + delta <= i64::MAX,
        ensures
            final(self)@ == counted(old(self)@, delta as int),
            r == final(self)@,
    {
        proof {
            use_type_invariant(&*self);
        }
        let sum: i64 = self.n + delta;
        self.n = if sum < 0 {
            0
        } else {
            sum
        };
        self.n
    }
}

/// A launch and the end of that agent leave the count where it was, and the count
/// is never negative.
pub proof fn law_launch_and_end_cancel(n: int, delta: int)
    requires
        n >= 0,
    ensures
        counted(counted(n, 1), -1) == n,
        counted(n, delta) >= 0,
{
}

/// The name and the directory of the active project, for an agent in it.
pub fn spawn_agent(active_project: &str) -> (r: (String, String))
    ensures
        r.0@ == project_name(active_project@, active_project@),
        r.1@ == active_project@,
{
    (name_project(active_project, active_project), active_project.to_owned())
}

/// How an agent is launched.
#[derive(Debug, PartialEq)]
pub enum Launch {
    /// It cannot be; the renderer is told why.
    Refused { message: String },
    Run { program: String, args: Vec<String>, cwd: String },
}

/// The arguments of the agent. The double dash keeps a prompt that begins with a
/// hyphen from being read as an option.
pub open spec fn agent_args(task: Seq<char>) -> Seq<Seq<char>> {
    seq!["--print"@, "--dangerously-skip-permissions"@, "--"@, task]
}

/// Plans the launch of an agent on a task in a directory, with the command-line tool
/// of the coding agent, where it is installed. `agent` is the name of that agent.
pub fn spawn_agent_in(cli: Option<String>, agent: &str, cwd: &str, task: &str) -> (r: Launch)
    ensures
        match cli {
            Some(tool) => r matches Launch::Run { program, args, cwd: dir } && program@ == tool@
                && args.deep_view() == agent_args(task@) && dir@ == cwd@,
            None => r matches Launch::Refused { message } && message@ == agent@
                + " CLI not found — no agent launched"@,
        },
{
    match cli {
        None => Launch::Refused { message: cat2(agent, " CLI not found — no agent launched") },
        Some(program) => {
            let mut args: Vec<String> = Vec::new();
            args.push("--print".to_owned());
            args.push("--dangerously-skip-permissions".to_owned());
            args.push("--".to_owned());
            args.push(task.to_owned());
            assert(args.deep_view() =~= agent_args(task@));
            Launch::Run { program, args, cwd: cwd.to_owned() }
        },
    }
}

/// What came of a launch.
#[derive(Debug, PartialEq)]
pub enum LaunchOutcome {
    /// The agent did not start; the renderer is told why.
    Failed { message: String },
    /// It did; the renderer is told how many are running, and what was delegated.
    Launched { count: i64, project: String, path: String, prompt: String },
}

/// Takes the outcome of a launch in. An agent is counted and its prompt echoed only
/// once it has really started, so no delegation is confirmed that never happened.
pub fn launched(
    count: &mut AgentCount,
    failure: Option<String>,
    project: &str,
    cwd: &str,
    task: &str,
) -> (r: LaunchOutcome)
    requires
        old(count)@ < i64::MAX,
    ensures
        match failure {
            Some(e) => {
                &&& r matches LaunchOutcome::Failed { message }
                &&& message@ == "agent launch failed: "@ + e@
                &&& final(count)@ == old(count)@
            },
            None => {
                &&& r matches LaunchOutcome::Launched { count: n, project: name, path, prompt }
                &&& n == old(count)@ + 1
                &&& final(count)@ == old(count)@ + 1
                &&& name@ == project@
                &&& path@ == cwd@
                &&& prompt@ == task@
            },
        },
{
    proof {
        use_type_invariant(&*count);
    }
    match failure {
        Some(e) => LaunchOutcome::Failed { message: cat2("agent launch failed: ", e.as_str()) },
        None => {
            let n = count.update_count(1);
            LaunchOutcome::Launched {
                count: n,
                project: project.to_owned(),
                path: cwd.to_owned(),
                prompt: task.to_owned(),
            }
        },
    }
}

/// What a poll tells of an agent.
pub enum AgentPoll {
    Exited,
    Running,
    Unknown,
}

/// What is done after a poll.
#[derive(Debug, PartialEq)]
pub enum WatchStep {
    /// It is over.
    Done,
    /// It has run for too long: kill it, and it is over.
    Kill,
    /// Poll again in a moment.
    Wait,
}

/// Decides after a poll. A running agent is killed once it has run for longer than
/// its timeout.
pub fn watch_step(poll: AgentPoll, elapsed_ns: u128, timeout_secs: u64) -> (r: WatchStep)
    ensures
        r is Kill <==> poll is Running && elapsed_ns > timeout_secs * 1_000_000_000,
        r is Wait <==> poll is Running && elapsed_ns <= timeout_secs * 1_000_000_000,
        r is Done <==> !(poll is Running),
{
    match poll {
        AgentPoll::Running => if elapsed_ns > timeout_secs as u128 * 1_000_000_000 {
            WatchStep::Kill
        } else {
            WatchStep::Wait
        },
        _ => WatchStep::Done,
    }
}

// ── Laws ─────────────────────────────────────────────────────────────────────

/// A task reaches the agent whole, in the directory that it is for, and cannot be taken for an
/// option, since it stands behind a double dash, as the last argument. Without the tool of the
/// agent nothing is run.
pub proof fn law_a_task_reaches_the_agent_whole(
    cli: String,
    agent: &str,
    cwd: &str,
    task: &str,
    run: Launch,
    refused: Launch,
)
    requires
        call_ensures(spawn_agent_in, (Some(cli), agent, cwd, task), run),
        call_ensures(spawn_agent_in, (None, agent, cwd, task), refused),
    ensures
        run matches Launch::Run { program, args, cwd: dir } && {
            &&& program@ == cli@
            &&& dir@ == cwd@
            &&& args@.len() >= 2
            &&& args@.last()@ == task@
            &&& args@[args@.len() - 2]@ == "--"@
        },
        refused is Refused,
{
    let args = run->args;
    assert(args.deep_view().last() == task@);
    assert(args.deep_view()[args.deep_view().len() - 2] == "--"@);
}

/// The timeout of an agent is the number in the environment, and ten minutes where there is
/// none, or none of 64 bits.
pub proof fn law_the_timeout_is_the_number_given(n: nat, env: &str, r: u64, otherwise: u64)
    requires
        call_ensures(agent_timeout, (Some(env),), r),
        call_ensures(agent_timeout, (None,), otherwise),
    ensures
        env@ == decimal(n) && n <= u64::MAX ==> r == n,
        env@.len() == 0 ==> r == 600,
        otherwise == 600,
{
    law_decimal_reads_back(n);
}

/// Only an agent that started is counted and echoed, with its project, its directory and its
/// whole prompt.
pub proof fn law_only_a_started_agent_counts(
    count: &mut AgentCount,
    project: &str,
    cwd: &str,
    task: &str,
    r: LaunchOutcome,
    other: &mut AgentCount,
    e: String,
    failed: LaunchOutcome,
)
    requires
        call_ensures(launched, (count, None, project, cwd, task), r),
        call_ensures(launched, (other, Some(e), project, cwd, task), failed),
    ensures
        final(count)@ == old(count)@ + 1,
        r matches LaunchOutcome::Launched { count: n, project: name, path, prompt } && n
            == final(count)@ && name@ == project@ && path@ == cwd@ && prompt@ == task@,
        final(other)@ == old(other)@,
        failed is Failed,
{
}

/// An agent is killed exactly where it still runs past its timeout.
pub proof fn law_an_agent_is_killed_past_its_timeout(
    elapsed_ns: u128,
    timeout_secs: u64,
    running: WatchStep,
    exited: WatchStep,
)
    requires
        call_ensures(watch_step, (AgentPoll::Running, elapsed_ns, timeout_secs), running),
        call_ensures(watch_step, (AgentPoll::Exited, elapsed_ns, timeout_secs), exited),
    ensures
        running is Kill <==> elapsed_ns > timeout_secs * 1_000_000_000,
        running is Wait <==> elapsed_ns <= timeout_secs * 1_000_000_000,
        exited is Done,
{
}

/// An agent in the active project runs in its directory, under its name.
pub proof fn law_an_agent_runs_in_the_active_project(active: &str, r: (String, String))
    requires
        call_ensures(spawn_agent, (active,), r),
    ensures
        r.1@ == active@,
        r.0@ == project_name(active@, active@),
{
}

} // verus!
