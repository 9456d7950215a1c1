//! What the program does from its command line to the exit of the sandboxed command.
//!
//! One launch is a state machine. Each state names the one operation that it waits for;
//! `run` takes the outcome of that operation and gives the next state.
use vstd::prelude::*;

verus! {

/// The options that decide what is done.
#[derive(Clone, Copy, Debug, PartialEq, Eq, Structural)]
pub struct Flags {
    /// Apply the inner restrictions and execute the command; used inside of the sandbox.
    pub landlock_exec: bool,
    /// Ignore the configuration file.
    pub clean: bool,
    /// Show the configuration.
    pub status: bool,
    /// Write the configuration file and do no more.
    pub init: bool,
    /// Generate configurations for the tools and do no more.
    pub bootstrap: bool,
    /// Print the sandbox command in place of running it.
    pub dry_run: bool,
}

/// Why a launch failed. Errors of the system and of other parts come as their text.
#[derive(Debug, PartialEq, Eq)]
pub enum LaunchError {
    /// There is no command to execute inside of the sandbox.
    NoCommand,
    /// The current directory is not known.
    CurrentDir(String),
    /// The command could not be executed inside of the sandbox.
    Exec { program: String, error: String },
    /// The sandbox could not be started.
    Spawn(String),
    /// Another part failed, with this message.
    Other(String),
}

impl LaunchError {
    /// The text of the message.
    pub open spec fn text(self) -> Seq<char> {
        match self {
            LaunchError::NoCommand => "--landlock-exec requires a command"@,
            LaunchError::CurrentDir(e) => "Cannot determine current directory: "@ + e@,
            LaunchError::Exec { program, error } => "Failed to exec "@ + program@ + ": "@ + error@,
            LaunchError::Spawn(e) => "Failed to start sandbox: "@ + e@,
            LaunchError::Other(e) => e@,
        }
    }

    /// The message for the user.
    pub fn message(&self) -> (r: String)
        ensures
            r@ == self.text(),
    {
        match self {
            LaunchError::NoCommand => "--landlock-exec requires a command".to_owned(),
            LaunchError::CurrentDir(e) => {
                "Cannot determine current directory: ".to_owned().concat(e.as_str())
            },
            LaunchError::Exec { program, error } => {
                "Failed to exec ".to_owned().concat(program.as_str()).concat(": ").concat(
                    error.as_str(),
                )
            },
            LaunchError::Spawn(e) => "Failed to start sandbox: ".to_owned().concat(e.as_str()),
            LaunchError::Other(e) => e.clone(),
        }
    }
}

/// What a launch goes by once the configuration is known.
#[derive(Clone, Copy, Debug, PartialEq, Eq, Structural)]
pub struct Job {
    pub flags: Flags,
    /// Whether the sandbox is locked down.
    pub lockdown: bool,
}

/// What a launch waits for.
#[derive(Debug, PartialEq, Eq)]
pub enum Launch {
    /// Read the command line.
    ParseCli,
    /// Inside of the sandbox: find the current directory.
    InnerDir { program: String, args: Vec<String> },
    /// Inside of the sandbox: load the configuration file.
    InnerLoad { program: String, args: Vec<String> },
    /// Inside of the sandbox: merge it with the command line.
    InnerMerge { program: String, args: Vec<String> },
    /// Inside of the sandbox: apply the inner restrictions.
    ApplyLandlock { program: String, args: Vec<String> },
    /// Inside of the sandbox: become this program, with these arguments.
    Exec { program: String, args: Vec<String> },
    /// Load the configuration file.
    LoadConfig { flags: Flags },
    /// Take the default configuration in place of the file.
    DefaultConfig { flags: Flags },
    /// Merge the configuration with the command line.
    MergeConfig { flags: Flags },
    /// Show the configuration.
    ShowStatus { job: Job },
    /// Write the configuration file, as the user asked.
    SaveAsAsked { job: Job },
    /// Tell the user that it was written.
    TellSaved { job: Job },
    /// Generate configurations for the tools.
    Bootstrap { job: Job },
    /// Check that the sandbox tool is there.
    CheckSandbox { job: Job },
    /// Tell the user what does not apply on this platform.
    PlatformNotes { job: Job },
    /// Prepare what the sandbox needs.
    Prepare { job: Job },
    /// Find the current directory.
    CurrentDir { job: Job },
    /// Write the configuration file, as on every run that is not locked down.
    SaveConfig { job: Job, dir: String },
    /// Print the sandbox command.
    DryRun { job: Job },
    /// Tell the user that the sandbox is active in this directory.
    TellActive { job: Job, dir: String },
    /// Install the signal handlers.
    InstallHandlers { job: Job },
    /// Build the sandbox command and start it.
    Spawn { job: Job },
    /// Make the child known to whoever handles signals.
    SetChildPid { job: Job, pid: i32 },
    /// Wait for the child to exit.
    Wait { job: Job, pid: i32 },
    /// Forget the handle of the child, which was waited for.
    Forget { job: Job, code: i32 },
    /// Clean up what was prepared, and then end with this result.
    CleanUp { job: Job, result: Result<i32, LaunchError> },
    /// Nothing: the launch is over, with an exit code or an error.
    Finished(Result<i32, LaunchError>),
}

/// The outcome of an operation.
#[derive(Debug, PartialEq, Eq)]
pub enum LaunchReply {
    /// The options and the words of the command, or the error.
    Parsed(Result<(Flags, Vec<String>), String>),
    /// The configuration was merged: whether the sandbox is locked down.
    Merged { lockdown: bool },
    /// The current directory as it is shown, or the error.
    Dir(Result<String, String>),
    /// Whether the operation succeeded.
    Tried(Result<(), String>),
    /// The process of the child, or the error.
    Spawned(Result<u32, String>),
    /// The exit code of the child.
    Exited(i32),
    /// The error that becoming the command ended in.
    ExecFailed(String),
    /// The operation is done and has no outcome that matters.
    Done,
}

impl Launch {
    /// Whether `reply` is an outcome of the operation that is waited for.
    pub open spec fn accepts(self, reply: LaunchReply) -> bool {
        match self {
            Launch::ParseCli => reply is Parsed,
            Launch::InnerDir { .. } => reply is Dir,
            Launch::InnerMerge { .. } => reply is Merged,
            Launch::Exec { .. } => reply is ExecFailed,
            Launch::MergeConfig { .. } => reply is Merged,
            Launch::Bootstrap { .. } => reply is Tried,
            Launch::CheckSandbox { .. } => reply is Tried,
            Launch::Prepare { .. } => reply is Tried,
            Launch::CurrentDir { .. } => reply is Dir,
            Launch::Spawn { .. } => reply is Spawned,
            Launch::Wait { .. } => reply is Exited,
            Launch::Finished(_) => false,
            _ => reply is Done,
        }
    }

    /// Whether `reply` is an outcome of the operation that is waited for.
    pub fn is_answered_by(&self, reply: &LaunchReply) -> (r: bool)
        ensures
            r == self.accepts(*reply),
    {
        match self {
            Launch::ParseCli => matches!(reply, LaunchReply::Parsed(_)),
            Launch::InnerDir { .. } => matches!(reply, LaunchReply::Dir(_)),
            Launch::InnerMerge { .. } => matches!(reply, LaunchReply::Merged { .. }),
            Launch::Exec { .. } => matches!(reply, LaunchReply::ExecFailed(_)),
            Launch::MergeConfig { .. } => matches!(reply, LaunchReply::Merged { .. }),
            Launch::Bootstrap { .. } => matches!(reply, LaunchReply::Tried(_)),
            Launch::CheckSandbox { .. } => matches!(reply, LaunchReply::Tried(_)),
            Launch::Prepare { .. } => matches!(reply, LaunchReply::Tried(_)),
            Launch::CurrentDir { .. } => matches!(reply, LaunchReply::Dir(_)),
            Launch::Spawn { .. } => matches!(reply, LaunchReply::Spawned(_)),
            Launch::Wait { .. } => matches!(reply, LaunchReply::Exited(_)),
            Launch::Finished(_) => false,
            _ => matches!(reply, LaunchReply::Done),
        }
    }
}

/// Whether `next` is what follows a command line inside of the sandbox: without a command
/// the launch is over, else the first word is the program and the others are its arguments.
pub open spec fn begins_inner(command: Vec<String>, next: Launch) -> bool {
    if command@.len() == 0 {
        next == Launch::Finished(Err(LaunchError::NoCommand))
    } else {
        &&& next matches Launch::InnerDir { program, args }
        &&& is_split(command, program, args)
    }
}

/// Whether `program` is the first word of `command` and `args` are the others.
pub open spec fn is_split(command: Vec<String>, program: String, args: Vec<String>) -> bool {
    &&& command@.len() > 0
    &&& program == command@[0]
    &&& args@ == command@.skip(1)
}

/// What follows a command line outside of the sandbox.
pub open spec fn after_parse(flags: Flags) -> Launch {
    if flags.clean {
        Launch::DefaultConfig { flags }
    } else {
        Launch::LoadConfig { flags }
    }
}

/// What follows the merged configuration: the first of the options that ask for
/// something else than running the command is obeyed.
pub open spec fn after_merge(job: Job) -> Launch {
    if job.flags.status {
        Launch::ShowStatus { job }
    } else if job.flags.init {
        Launch::SaveAsAsked { job }
    } else if job.flags.bootstrap {
        Launch::Bootstrap { job }
    } else {
        Launch::CheckSandbox { job }
    }
}

/// What follows once the configuration file is as it is to be.
pub open spec fn after_save(job: Job, dir: String) -> Launch {
    if job.flags.dry_run {
        Launch::DryRun { job }
    } else {
        Launch::TellActive { job, dir }
    }
}

/// Whether a launch in `state` goes on with `next` after `reply`.
pub open spec fn goes(state: Launch, reply: LaunchReply, next: Launch) -> bool {
    match (state, reply) {
        (Launch::ParseCli, LaunchReply::Parsed(Ok((flags, command)))) => {
            if flags.landlock_exec {
                begins_inner(command, next)
            } else {
                next == after_parse(flags)
            }
        },
        _ => next == launch_next(state, reply),
    }
}

/// What a launch waits for next, once there is a command line, or if there is none.
pub open spec fn launch_next(state: Launch, reply: LaunchReply) -> Launch {
    match (state, reply) {
        (Launch::ParseCli, LaunchReply::Parsed(Err(e))) => Launch::Finished(
            Err(LaunchError::Other(e)),
        ),
        (Launch::InnerDir { program, args }, LaunchReply::Dir(dir)) => match dir {
            Ok(_) => Launch::InnerLoad { program, args },
            Err(e) => Launch::Finished(Err(LaunchError::CurrentDir(e))),
        },
        (Launch::InnerLoad { program, args }, LaunchReply::Done) => Launch::InnerMerge {
            program,
            args,
        },
        (
            Launch::InnerMerge { program, args },
            LaunchReply::Merged { .. },
        ) => Launch::ApplyLandlock { program, args },
        (Launch::ApplyLandlock { program, args }, LaunchReply::Done) => Launch::Exec {
            program,
            args,
        },
        (Launch::Exec { program, .. }, LaunchReply::ExecFailed(error)) => Launch::Finished(
            Err(LaunchError::Exec { program, error }),
        ),
        (Launch::LoadConfig { flags }, LaunchReply::Done) => Launch::MergeConfig { flags },
        (Launch::DefaultConfig { flags }, LaunchReply::Done) => Launch::MergeConfig { flags },
        (Launch::MergeConfig { flags }, LaunchReply::Merged { lockdown }) => after_merge(
            Job { flags, lockdown },
        ),
        (Launch::ShowStatus { .. }, LaunchReply::Done) => Launch::Finished(Ok(0)),
        (Launch::SaveAsAsked { job }, LaunchReply::Done) => Launch::TellSaved { job },
        (Launch::TellSaved { .. }, LaunchReply::Done) => Launch::Finished(Ok(0)),
        (Launch::Bootstrap { .. }, LaunchReply::Tried(tried)) => match tried {
            Ok(_) => Launch::Finished(Ok(0)),
            Err(e) => Launch::Finished(Err(LaunchError::Other(e))),
        },
        (Launch::CheckSandbox { job }, LaunchReply::Tried(tried)) => match tried {
            Ok(_) => Launch::PlatformNotes { job },
            Err(e) => Launch::Finished(Err(LaunchError::Other(e))),
        },
        (Launch::PlatformNotes { job }, LaunchReply::Done) => Launch::Prepare { job },
        (Launch::Prepare { job }, LaunchReply::Tried(tried)) => match tried {
            Ok(_) => Launch::CurrentDir { job },
            Err(e) => Launch::Finished(Err(LaunchError::Other(e))),
        },
        (Launch::CurrentDir { job }, LaunchReply::Dir(found)) => match found {
            Ok(dir) => if job.lockdown {
                after_save(job, dir)
            } else {
                Launch::SaveConfig { job, dir }
            },
            Err(e) => Launch::CleanUp { job, result: Err(LaunchError::CurrentDir(e)) },
        },
        (Launch::SaveConfig { job, dir }, LaunchReply::Done) => after_save(job, dir),
        (Launch::DryRun { job }, LaunchReply::Done) => Launch::CleanUp { job, result: Ok(0) },
        (Launch::TellActive { job, .. }, LaunchReply::Done) => Launch::InstallHandlers { job },
        (Launch::InstallHandlers { job }, LaunchReply::Done) => Launch::Spawn { job },
        (Launch::Spawn { job }, LaunchReply::Spawned(spawned)) => match spawned {
            Ok(pid) => Launch::SetChildPid { job, pid: pid as i32 },
            Err(e) => Launch::CleanUp { job, result: Err(LaunchError::Spawn(e)) },
        },
        (Launch::SetChildPid { job, pid }, LaunchReply::Done) => Launch::Wait { job, pid },
        (Launch::Wait { job, .. }, LaunchReply::Exited(code)) => Launch::Forget { job, code },
        (Launch::Forget { job, code }, LaunchReply::Done) => Launch::CleanUp {
            job,
            result: Ok(code),
        },
        (Launch::CleanUp { result, .. }, LaunchReply::Done) => Launch::Finished(result),
        _ => state,
    }
}

/// The first step of a launch inside of the sandbox, with the words of the command.
fn run_landlock_exec(command: Vec<String>) -> (r: Launch)
    ensures
        begins_inner(command, r),
{
    if command.len() == 0 {
        return Launch::Finished(Err(LaunchError::NoCommand));
    }
    let mut args = command;
    let program = args.remove(0);
    assert(args@ =~= command@.skip(1));
    Launch::InnerDir { program, args }
}

/// Executable `after_merge`.
fn choose_task(job: Job) -> (r: Launch)
    ensures
        r == after_merge(job),
{
    if job.flags.status {
        Launch::ShowStatus { job }
    } else if job.flags.init {
        Launch::SaveAsAsked { job }
    } else if job.flags.bootstrap {
        Launch::Bootstrap { job }
    } else {
        Launch::CheckSandbox { job }
    }
}

/// Executable `after_save`.
fn proceed(job: Job, dir: String) -> (r: Launch)
    ensures
        r == after_save(job, dir),
{
    if job.flags.dry_run {
        Launch::DryRun { job }
    } else {
        Launch::TellActive { job, dir }
    }
}

/// Takes one step of a launch: `reply` is the outcome of the operation that `state` waits
/// for. Returns what is waited for next. A launch begins with `Launch::ParseCli`.
pub fn run(state: Launch, reply: LaunchReply) -> (r: Launch)
    requires
        state.accepts(reply),
    ensures
        goes(state, reply, r),
{
    match (state, reply) {
        (Launch::ParseCli, LaunchReply::Parsed(parsed)) => match parsed {
            Ok((flags, command)) => {
                if flags.landlock_exec {
                    return run_landlock_exec(command);
                }
                if flags.clean {
                    Launch::DefaultConfig { flags }
                } else {
                    Launch::LoadConfig { flags }
                }
            },
            Err(e) => Launch::Finished(Err(LaunchError::Other(e))),
        },
        (Launch::InnerDir { program, args }, LaunchReply::Dir(dir)) => match dir {
            Ok(_) => Launch::InnerLoad { program, args },
            Err(e) => Launch::Finished(Err(LaunchError::CurrentDir(e))),
        },
        (Launch::InnerLoad { program, args }, LaunchReply::Done) => {
            Launch::InnerMerge { program, args }
        },
        (Launch::InnerMerge { program, args }, LaunchReply::Merged { .. }) => {
            Launch::ApplyLandlock { program, args }
        },
        (Launch::ApplyLandlock { program, args }, LaunchReply::Done) => {
            Launch::Exec { program, args }
        },
        (Launch::Exec { program, .. }, LaunchReply::ExecFailed(error)) => {
            Launch::Finished(Err(LaunchError::Exec { program, error }))
        },
        (Launch::LoadConfig { flags }, LaunchReply::Done) => Launch::MergeConfig { flags },
        (Launch::DefaultConfig { flags }, LaunchReply::Done) => Launch::MergeConfig { flags },
        (Launch::MergeConfig { flags }, LaunchReply::Merged { lockdown }) => {
            choose_task(Job { flags, lockdown })
        },
        (Launch::ShowStatus { .. }, LaunchReply::Done) => Launch::Finished(Ok(0)),
        (Launch::SaveAsAsked { job }, LaunchReply::Done) => Launch::TellSaved { job },
        (Launch::TellSaved { .. }, LaunchReply::Done) => Launch::Finished(Ok(0)),
        (Launch::Bootstrap { .. }, LaunchReply::Tried(tried)) => match tried {
            Ok(_) => Launch::Finished(Ok(0)),
            Err(e) => Launch::Finished(Err(LaunchError::Other(e))),
        },
        (Launch::CheckSandbox { job }, LaunchReply::Tried(tried)) => match tried {
            Ok(_) => Launch::PlatformNotes { job },
            Err(e) => Launch::Finished(Err(LaunchError::Other(e))),
        },
        (Launch::PlatformNotes { job }, LaunchReply::Done) => Launch::Prepare { job },
        (Launch::Prepare { job }, LaunchReply::Tried(tried)) => match tried {
            Ok(_) => Launch::CurrentDir { job },
            Err(e) => Launch::Finished(Err(LaunchError::Other(e))),
        },
        (Launch::CurrentDir { job }, LaunchReply::Dir(found)) => match found {
            Ok(dir) => {
                // A locked-down run writes nothing outside of the sandbox.
                if job.lockdown {
                    proceed(job, dir)
                } else {
                    Launch::SaveConfig { job, dir }
                }
            },
            Err(e) => Launch::CleanUp { job, result: Err(LaunchError::CurrentDir(e)) },
        },
        (Launch::SaveConfig { job, dir }, LaunchReply::Done) => proceed(job, dir),
        (Launch::DryRun { job }, LaunchReply::Done) => Launch::CleanUp { job, result: Ok(0) },
        (Launch::TellActive { job, .. }, LaunchReply::Done) => Launch::InstallHandlers { job },
        (Launch::InstallHandlers { job }, LaunchReply::Done) => Launch::Spawn { job },
        (Launch::Spawn { job }, LaunchReply::Spawned(spawned)) => match spawned {
            Ok(pid) => Launch::SetChildPid { job, pid: pid as i32 },
            Err(e) => Launch::CleanUp { job, result: Err(LaunchError::Spawn(e)) },
        },
        (Launch::SetChildPid { job, pid }, LaunchReply::Done) => Launch::Wait { job, pid },
        (Launch::Wait { job, .. }, LaunchReply::Exited(code)) => Launch::Forget { job, code },
        (Launch::Forget { job, code }, LaunchReply::Done) => Launch::CleanUp {
            job,
            result: Ok(code),
        },
        (Launch::CleanUp { result, .. }, LaunchReply::Done) => Launch::Finished(result),
        (state, _) => state,
    }
}

/// The line that tells the user that the configuration file was written.
pub fn saved_line() -> (r: String)
    ensures
        r@ == "Config saved to .ai-jail"@,
{
    "Config saved to .ai-jail".to_owned()
}

/// The text of the line that tells the user that the sandbox is active.
pub open spec fn active_text(dir: Seq<char>) -> Seq<char> {
    "Jail Active: "@ + dir
}

/// The line that tells the user that the sandbox is active.
pub fn active_line(dir: &str) -> (r: String)
    ensures
        r@ == active_text(dir@),
{
    "Jail Active: ".to_owned().concat(dir)
}

/// The exit code of the program after a launch with this result.
pub open spec fn process_code(result: Result<i32, LaunchError>) -> i32 {
    match result {
        Ok(code) => code,
        Err(_) => 1,
    }
}

/// The exit code of the program.
pub fn exit_code(result: &Result<i32, LaunchError>) -> (r: i32)
    ensures
        r == process_code(*result),
{
    match result {
        Ok(code) => *code,
        Err(_) => 1,
    }
}

/// Whether a launch can go through these states, one after the other from the start, with
/// these replies in between.
pub open spec fn launch_path(states: Seq<Launch>, replies: Seq<LaunchReply>) -> bool {
    &&& states.len() == replies.len() + 1
    &&& states[0] is ParseCli
    &&& forall|i: int| 0 <= i < replies.len() ==> #[trigger] takes_step(states, replies, i)
}

/// Whether the reply at `i` answers the state there and leads to the state behind it.
pub open spec fn takes_step(states: Seq<Launch>, replies: Seq<LaunchReply>, i: int) -> bool {
    &&& states[i].accepts(replies[i])
    &&& goes(states[i], replies[i], states[i + 1])
}

/// The options that a launch was given.
pub open spec fn given(replies: Seq<LaunchReply>, flags: Flags) -> bool {
    &&& replies.len() > 0
    &&& replies[0] matches LaunchReply::Parsed(Ok((f, _)))
    &&& f == flags
}

/// Whether a launch was given this program and these arguments.
pub open spec fn given_command(
    replies: Seq<LaunchReply>,
    program: String,
    args: Vec<String>,
) -> bool {
    &&& replies[0] matches LaunchReply::Parsed(Ok((_, command)))
    &&& is_split(command, program, args)
}

/// Whether a launch found that the sandbox is locked down, or that it is not.
pub open spec fn found_lockdown(replies: Seq<LaunchReply>, lockdown: bool) -> bool {
    &&& replies.len() > 2
    &&& replies[2] == (LaunchReply::Merged { lockdown })
}

/// Whether a launch inside of the sandbox has reason to be over after `n` replies, with
/// this result: there is no command, the current directory is not known, or the command
/// could not be executed. It is never a success.
pub open spec fn is_inner_end(
    result: Result<i32, LaunchError>,
    replies: Seq<LaunchReply>,
    n: int,
) -> bool {
    match result {
        Ok(_) => false,
        Err(LaunchError::NoCommand) => n == 1 && (replies[0] matches LaunchReply::Parsed(
            Ok((_, command)),
        ) && command@.len() == 0),
        Err(LaunchError::CurrentDir(e)) => n == 2 && replies[1] == LaunchReply::Dir(Err(e)),
        Err(LaunchError::Exec { program, error }) => {
            &&& n == 6
            &&& replies[0] matches LaunchReply::Parsed(Ok((_, command)))
            &&& command@.len() > 0
            &&& program == command@[0]
            &&& replies[5] == LaunchReply::ExecFailed(error)
        },
        Err(_) => false,
    }
}

/// Whether a launch that has prepared for the sandbox has reason to end with this result
/// after `n` replies: the command was printed, the child exited with this code, or the last
/// operation failed.
pub open spec fn is_run_end(
    result: Result<i32, LaunchError>,
    flags: Flags,
    replies: Seq<LaunchReply>,
    n: int,
) -> bool {
    match result {
        Ok(code) => if flags.dry_run {
            code == 0
        } else {
            replies[n - 2] == LaunchReply::Exited(code)
        },
        Err(LaunchError::CurrentDir(e)) => replies[n - 1] == LaunchReply::Dir(Err(e)),
        Err(LaunchError::Spawn(e)) => replies[n - 1] == LaunchReply::Spawned(Err(e)),
        Err(_) => false,
    }
}

/// Whether a launch outside of the sandbox has reason to be over after `n` replies, with
/// this result: it has done what its options ask for, or an operation failed.
pub open spec fn is_outer_end(
    result: Result<i32, LaunchError>,
    flags: Flags,
    replies: Seq<LaunchReply>,
    n: int,
) -> bool {
    if flags.status || flags.init {
        result == Ok::<i32, LaunchError>(0)
    } else {
        match result {
            Err(LaunchError::Other(e)) => replies[n - 1] == LaunchReply::Tried(Err(e)),
            _ => if flags.bootstrap {
                result == Ok::<i32, LaunchError>(0)
            } else {
                is_run_end(result, flags, replies, n - 1)
            },
        }
    }
}

impl Launch {
    /// Whether a launch with these options has reason to be here after `n` of these
    /// replies.
    pub open spec fn is_due(self, flags: Flags, replies: Seq<LaunchReply>, n: int) -> bool {
        let plain = !flags.landlock_exec && !flags.status && !flags.init && !flags.bootstrap;
        match self {
            Launch::ParseCli => false,
            Launch::InnerDir { program, args } => flags.landlock_exec && n == 1 && given_command(
                replies,
                program,
                args,
            ),
            Launch::InnerLoad { program, args } => flags.landlock_exec && n == 2 && given_command(
                replies,
                program,
                args,
            ),
            Launch::InnerMerge { program, args } => flags.landlock_exec && n == 3 && given_command(
                replies,
                program,
                args,
            ),
            Launch::ApplyLandlock { program, args } => flags.landlock_exec && n == 4
                && given_command(replies, program, args),
            Launch::Exec { program, args } => flags.landlock_exec && n == 5 && given_command(
                replies,
                program,
                args,
            ),
            Launch::LoadConfig { flags: f } => f == flags && !flags.landlock_exec && !flags.clean
                && n == 1,
            Launch::DefaultConfig { flags: f } => f == flags && !flags.landlock_exec && flags.clean
                && n == 1,
            Launch::MergeConfig { flags: f } => f == flags && !flags.landlock_exec && n == 2,
            Launch::ShowStatus { job } => job.flags == flags && !flags.landlock_exec
                && flags.status && n > 2 && found_lockdown(replies, job.lockdown),
            Launch::SaveAsAsked { job } | Launch::TellSaved { job } => job.flags == flags
                && !flags.landlock_exec && flags.init && !flags.status && n > 2 && found_lockdown(
                replies,
                job.lockdown,
            ),
            Launch::Bootstrap { job } => job.flags == flags && !flags.landlock_exec
                && flags.bootstrap && !flags.status && !flags.init && n > 2 && found_lockdown(
                replies,
                job.lockdown,
            ),
            Launch::CheckSandbox { job } | Launch::PlatformNotes { job } | Launch::Prepare { job }
            | Launch::CurrentDir { job } => job.flags == flags && plain && n > 2
                && found_lockdown(replies, job.lockdown),
            Launch::SaveConfig { job, dir } => job.flags == flags && plain && !job.lockdown && n > 3
                && found_lockdown(replies, job.lockdown) && replies[n - 1] == LaunchReply::Dir(
                Ok(dir),
            ),
            Launch::DryRun { job } => job.flags == flags && plain && flags.dry_run && n > 2
                && found_lockdown(replies, job.lockdown),
            Launch::TellActive { job, dir } => job.flags == flags && plain && !flags.dry_run && n
                > 3 && found_lockdown(replies, job.lockdown) && LaunchReply::Dir(Ok(dir))
                == replies[if job.lockdown {
                n - 1
            } else {
                n - 2
            }],
            Launch::InstallHandlers { job } | Launch::Spawn { job } => job.flags == flags && plain
                && !flags.dry_run && n > 2 && found_lockdown(replies, job.lockdown),
            Launch::SetChildPid { job, pid } => job.flags == flags && plain && !flags.dry_run && n
                > 3 && found_lockdown(replies, job.lockdown) && is_child(pid, replies[n - 1]),
            Launch::Wait { job, pid } => job.flags == flags && plain && !flags.dry_run && n > 4
                && found_lockdown(replies, job.lockdown) && is_child(pid, replies[n - 2]),
            Launch::Forget { job, code } => job.flags == flags && plain && !flags.dry_run && n > 5
                && found_lockdown(replies, job.lockdown) && replies[n - 1] == LaunchReply::Exited(
                code,
            ),
            Launch::CleanUp { job, result } => job.flags == flags && plain && n > 3
                && found_lockdown(replies, job.lockdown) && is_run_end(result, flags, replies, n),
            Launch::Finished(result) => if flags.landlock_exec {
                is_inner_end(result, replies, n)
            } else {
                is_outer_end(result, flags, replies, n)
            },
        }
    }
}

/// Whether `pid` is the process that `reply` gave.
pub open spec fn is_child(pid: i32, reply: LaunchReply) -> bool {
    reply matches LaunchReply::Spawned(Ok(p)) && pid == p as i32
}

/// A launch does only what its options ask for. Reading the command line is the first
/// operation, and each later one, and the result, has its reason in the options, in whether
/// the sandbox is locked down and in the replies before it.
pub proof fn law_launch_follows_its_options(
    states: Seq<Launch>,
    replies: Seq<LaunchReply>,
    flags: Flags,
    n: int,
)
    requires
        launch_path(states, replies),
        given(replies, flags),
        0 < n <= replies.len(),
    ensures
        states[n].is_due(flags, replies, n),
    decreases n,
{
    assert(takes_step(states, replies, n - 1));
    if n > 1 {
        law_launch_follows_its_options(states, replies, flags, n - 1);
    }
}

/// Inside of the sandbox a launch without a command is over at once, and with one it
/// finds the current directory, loads and merges the configuration, applies the inner
/// restrictions and only then becomes the command, with all of its arguments. It ends
/// before that only if the current directory is not known, and it never succeeds: it has
/// become the command, or there is an error.
pub proof fn law_restrictions_come_before_the_command(
    states: Seq<Launch>,
    replies: Seq<LaunchReply>,
    flags: Flags,
    command: Vec<String>,
)
    requires
        launch_path(states, replies),
        replies.len() > 0,
        replies[0] == LaunchReply::Parsed(Ok((flags, command))),
        flags.landlock_exec,
    ensures
        command@.len() == 0 ==> replies.len() == 1 && states[1] == Launch::Finished(
            Err(LaunchError::NoCommand),
        ),
        command@.len() > 0 ==> states[1] is InnerDir,
        command@.len() > 0 && replies.len() > 1 ==> match replies[1] {
            LaunchReply::Dir(Err(e)) => replies.len() == 2 && states[2] == Launch::Finished(
                Err(LaunchError::CurrentDir(e)),
            ),
            LaunchReply::Dir(Ok(_)) => {
                &&& states[2] is InnerLoad
                &&& replies.len() > 2 ==> states[3] is InnerMerge
                &&& replies.len() > 3 ==> states[4] is ApplyLandlock
                &&& replies.len() > 4 ==> (states[5] matches Launch::Exec { program, args }
                    && program@ == command@[0]@ && args@ == command@.skip(1))
                &&& replies.len() > 5 ==> replies.len() == 6 && (
                replies[5] matches LaunchReply::ExecFailed(error) && states[6] == Launch::Finished(
                    Err(LaunchError::Exec { program: command@[0], error }),
                ))
            },
            _ => false,
        },
        states.last() matches Launch::Finished(result) ==> result is Err,
{
    let len = replies.len() as int;
    assert(takes_step(states, replies, 0));
    if len > 1 {
        assert(takes_step(states, replies, 1));
    }
    if len > 2 {
        assert(takes_step(states, replies, 2));
    }
    if len > 3 {
        assert(takes_step(states, replies, 3));
    }
    if len > 4 {
        assert(takes_step(states, replies, 4));
    }
    if len > 5 {
        assert(takes_step(states, replies, 5));
    }
    if len > 6 {
        assert(takes_step(states, replies, 6));
    }
    law_launch_follows_its_options(states, replies, flags, len);
}

/// A launch that succeeds returns 0 if it was asked for something else than running the
/// command, and else what the child that it waited for returned.
pub proof fn law_launch_returns_the_exit_code(
    states: Seq<Launch>,
    replies: Seq<LaunchReply>,
    flags: Flags,
    code: i32,
)
    requires
        launch_path(states, replies),
        given(replies, flags),
        states.last() == Launch::Finished(Ok(code)),
    ensures
        !flags.landlock_exec,
        if flags.status || flags.init || flags.bootstrap || flags.dry_run {
            code == 0
        } else {
            exists|m: int|
                0 <= m < replies.len() && #[trigger] states[m] is Wait && replies[m]
                    == LaunchReply::Exited(code)
        },
{
    let len = replies.len() as int;
    law_launch_follows_its_options(states, replies, flags, len);
    if !(flags.status || flags.init || flags.bootstrap || flags.dry_run) {
        assert(takes_step(states, replies, len - 1));
        law_launch_follows_its_options(states, replies, flags, len - 1);
        assert(takes_step(states, replies, len - 2));
        law_launch_follows_its_options(states, replies, flags, len - 2);
        assert(takes_step(states, replies, len - 3));
        assert(states[len - 3] is Wait);
    }
}

/// Whether this reply to this operation is the failure that `e` tells of.
pub open spec fn fails_with(state: Launch, reply: LaunchReply, e: LaunchError) -> bool {
    match e {
        LaunchError::NoCommand => {
            &&& state is ParseCli
            &&& reply matches LaunchReply::Parsed(Ok((flags, command)))
            &&& flags.landlock_exec
            &&& command@.len() == 0
        },
        LaunchError::CurrentDir(text) => (state is InnerDir || state is CurrentDir) && reply
            == LaunchReply::Dir(Err(text)),
        LaunchError::Exec { program, error } => (state matches Launch::Exec { program: p, .. } && p
            == program) && reply == LaunchReply::ExecFailed(error),
        LaunchError::Spawn(text) => state is Spawn && reply == LaunchReply::Spawned(Err(text)),
        LaunchError::Other(text) => {
            ||| state is ParseCli && reply == LaunchReply::Parsed(Err(text))
            ||| (state is Bootstrap || state is CheckSandbox || state is Prepare) && reply
                == LaunchReply::Tried(Err(text))
        },
    }
}

/// A launch that fails returns the error of the operation that failed.
pub proof fn law_launch_reports_what_failed(
    states: Seq<Launch>,
    replies: Seq<LaunchReply>,
    e: LaunchError,
)
    requires
        launch_path(states, replies),
        states.last() == Launch::Finished(Err(e)),
    ensures
        exists|m: int|
            0 <= m < replies.len() && #[trigger] fails_with(states[m], replies[m], e),
{
    let len = replies.len() as int;
    assert(takes_step(states, replies, len - 1));
    if states[len - 1] is CleanUp {
        assert(takes_step(states, replies, len - 2));
        assert(fails_with(states[len - 2], replies[len - 2], e));
    } else {
        assert(fails_with(states[len - 1], replies[len - 1], e));
    }
}

/// A run of a locked-down sandbox does not write the configuration file; only an explicit
/// `--init` does.
pub proof fn law_lockdown_does_not_persist(
    states: Seq<Launch>,
    replies: Seq<LaunchReply>,
    flags: Flags,
    n: int,
)
    requires
        launch_path(states, replies),
        given(replies, flags),
        found_lockdown(replies, true),
        !flags.init,
        0 <= n <= replies.len(),
    ensures
        !(states[n] is SaveConfig),
        !(states[n] is SaveAsAsked),
{
    if n > 0 {
        law_launch_follows_its_options(states, replies, flags, n);
    }
}

impl Launch {
    /// Whether the configuration file is as it is to be.
    pub open spec fn is_past_saving(self) -> bool {
        self is DryRun || self is TellActive || self is InstallHandlers || self is Spawn
            || self is SetChildPid || self is Wait || self is Forget
    }

    /// Whether something was prepared for the sandbox that is still to be cleaned up.
    pub open spec fn is_prepared(self) -> bool {
        self is CurrentDir || self is SaveConfig || self.is_past_saving()
    }
}

/// A run that is not locked down writes the configuration file before it goes on to the
/// sandbox, or to printing its command.
pub proof fn law_normal_run_persists(
    states: Seq<Launch>,
    replies: Seq<LaunchReply>,
    flags: Flags,
    n: int,
)
    requires
        launch_path(states, replies),
        given(replies, flags),
        found_lockdown(replies, false),
        0 <= n <= replies.len(),
        states[n].is_past_saving(),
    ensures
        exists|m: int| 0 <= m < n && #[trigger] states[m] is SaveConfig,
    decreases n,
{
    assert(takes_step(states, replies, n - 1));
    if n > 1 {
        law_launch_follows_its_options(states, replies, flags, n - 1);
    }
    if states[n - 1].is_past_saving() {
        law_normal_run_persists(states, replies, flags, n - 1);
    } else {
        assert(states[n - 1] is SaveConfig);
    }
}

/// With `--init` the configuration file is written, locked down or not, and nothing is
/// run: the launch ends with success right after.
pub proof fn law_init_writes_and_ends(flags: Flags, lockdown: bool)
    requires
        flags.init,
        !flags.status,
    ensures
        ({
            let job = Job { flags, lockdown };
            &&& launch_next(Launch::MergeConfig { flags }, LaunchReply::Merged { lockdown }) == (
            Launch::SaveAsAsked { job })
            &&& launch_next(
                launch_next(Launch::SaveAsAsked { job }, LaunchReply::Done),
                LaunchReply::Done,
            ) == Launch::Finished(Ok(0))
        }),
{
}

/// To show the status, `--init`, `--bootstrap` and `--dry-run` each keep the sandbox from
/// being started; and nothing but `--landlock-exec` executes the command without it.
pub proof fn law_only_a_plain_launch_runs(
    states: Seq<Launch>,
    replies: Seq<LaunchReply>,
    flags: Flags,
    n: int,
)
    requires
        launch_path(states, replies),
        given(replies, flags),
        flags.status || flags.init || flags.bootstrap || flags.dry_run,
        0 <= n <= replies.len(),
    ensures
        !(states[n] is Spawn),
        !(states[n] is InstallHandlers),
        states[n] is Exec ==> flags.landlock_exec,
{
    if n > 0 {
        law_launch_follows_its_options(states, replies, flags, n);
    }
}

/// With `--clean` the configuration file is not read.
pub proof fn law_clean_ignores_the_file(
    states: Seq<Launch>,
    replies: Seq<LaunchReply>,
    flags: Flags,
    n: int,
)
    requires
        launch_path(states, replies),
        given(replies, flags),
        flags.clean,
        !flags.landlock_exec,
        0 <= n <= replies.len(),
    ensures
        !(states[n] is LoadConfig),
        !(states[n] is InnerLoad),
{
    if n > 0 {
        law_launch_follows_its_options(states, replies, flags, n);
    }
}

/// The signal handlers are in place when the child is started, and the child is waited for
/// and then forgotten: each of these operations comes right after the one before.
pub proof fn law_handlers_come_before_the_child(
    states: Seq<Launch>,
    replies: Seq<LaunchReply>,
    n: int,
)
    requires
        launch_path(states, replies),
        0 < n <= replies.len(),
    ensures
        states[n] is Spawn ==> states[n - 1] is InstallHandlers,
        states[n] is Wait ==> states[n - 1] is SetChildPid,
        states[n] is Forget ==> states[n - 1] is Wait,
{
    assert(takes_step(states, replies, n - 1));
}

/// What was prepared for the sandbox is cleaned up, however the launch goes on: with it
/// prepared, a launch ends by no other way than cleaning up.
pub proof fn law_preparations_are_cleaned_up(
    states: Seq<Launch>,
    replies: Seq<LaunchReply>,
    n: int,
)
    requires
        launch_path(states, replies),
        0 < n <= replies.len(),
    ensures
        states[n - 1].is_prepared() ==> states[n].is_prepared() || states[n] is CleanUp,
        states[n - 1] matches Launch::CleanUp { result, .. } ==> states[n] == Launch::Finished(
            result,
        ),
{
    assert(takes_step(states, replies, n - 1));
}

/// A command line that cannot be read ends the launch at once, with its error.
pub proof fn law_bad_command_line_ends_the_launch(
    states: Seq<Launch>,
    replies: Seq<LaunchReply>,
    text: String,
)
    requires
        launch_path(states, replies),
        replies.len() > 0,
        replies[0] == LaunchReply::Parsed(Err(text)),
    ensures
        replies.len() == 1,
        states[1] == Launch::Finished(Err(LaunchError::Other(text))),
{
    assert(takes_step(states, replies, 0));
    if replies.len() > 1 {
        assert(takes_step(states, replies, 1));
    }
}

/// Outside of the sandbox, every launch takes its configuration from the file, or with
/// `--clean` from the defaults, and then merges it with the command line.
pub proof fn law_configuration_comes_first(
    states: Seq<Launch>,
    replies: Seq<LaunchReply>,
    flags: Flags,
)
    requires
        launch_path(states, replies),
        given(replies, flags),
        !flags.landlock_exec,
    ensures
        flags.clean ==> states[1] == (Launch::DefaultConfig { flags }),
        !flags.clean ==> states[1] == (Launch::LoadConfig { flags }),
        replies.len() > 1 ==> states[2] == (Launch::MergeConfig { flags }),
        replies.len() > 2 ==> replies[2] is Merged,
{
    assert(takes_step(states, replies, 0));
    if replies.len() > 1 {
        assert(takes_step(states, replies, 1));
    }
    if replies.len() > 2 {
        assert(takes_step(states, replies, 2));
    }
}

/// A launch that was asked for the status shows it as soon as the configuration is known, and
/// ends with success once it was shown, whatever else it was asked for.
pub proof fn law_status_is_shown(
    states: Seq<Launch>,
    replies: Seq<LaunchReply>,
    flags: Flags,
    lockdown: bool,
)
    requires
        launch_path(states, replies),
        given(replies, flags),
        found_lockdown(replies, lockdown),
        !flags.landlock_exec,
        flags.status,
    ensures
        states[3] == (Launch::ShowStatus { job: Job { flags, lockdown } }),
        replies.len() > 3 ==> replies.len() == 4 && states[4] == Launch::Finished(Ok(0)),
{
    law_configuration_comes_first(states, replies, flags);
    assert(takes_step(states, replies, 2));
    if replies.len() > 3 {
        assert(takes_step(states, replies, 3));
    }
    if replies.len() > 4 {
        assert(takes_step(states, replies, 4));
    }
}

/// A launch with `--init` writes the configuration file as soon as the configuration is known,
/// locked down or not, tells so, and ends with success.
pub proof fn law_init_is_obeyed(
    states: Seq<Launch>,
    replies: Seq<LaunchReply>,
    flags: Flags,
    lockdown: bool,
)
    requires
        launch_path(states, replies),
        given(replies, flags),
        found_lockdown(replies, lockdown),
        !flags.landlock_exec,
        !flags.status,
        flags.init,
    ensures
        states[3] == (Launch::SaveAsAsked { job: Job { flags, lockdown } }),
        replies.len() > 3 ==> states[4] is TellSaved,
        replies.len() > 4 ==> replies.len() == 5 && states[5] == Launch::Finished(Ok(0)),
{
    law_configuration_comes_first(states, replies, flags);
    assert(takes_step(states, replies, 2));
    if replies.len() > 3 {
        assert(takes_step(states, replies, 3));
    }
    if replies.len() > 4 {
        assert(takes_step(states, replies, 4));
    }
    if replies.len() > 5 {
        assert(takes_step(states, replies, 5));
    }
}

/// A launch with `--bootstrap` generates the configurations as soon as its own is known, and
/// ends as that ends.
pub proof fn law_bootstrap_is_obeyed(
    states: Seq<Launch>,
    replies: Seq<LaunchReply>,
    flags: Flags,
    lockdown: bool,
)
    requires
        launch_path(states, replies),
        given(replies, flags),
        found_lockdown(replies, lockdown),
        !flags.landlock_exec,
        !flags.status,
        !flags.init,
        flags.bootstrap,
    ensures
        states[3] == (Launch::Bootstrap { job: Job { flags, lockdown } }),
        replies.len() > 3 ==> replies.len() == 4 && match replies[3] {
            LaunchReply::Tried(Ok(_)) => states[4] == Launch::Finished(Ok(0)),
            LaunchReply::Tried(Err(text)) => states[4] == Launch::Finished(
                Err(LaunchError::Other(text)),
            ),
            _ => false,
        },
{
    law_configuration_comes_first(states, replies, flags);
    assert(takes_step(states, replies, 2));
    if replies.len() > 3 {
        assert(takes_step(states, replies, 3));
    }
    if replies.len() > 4 {
        assert(takes_step(states, replies, 4));
    }
}

/// A launch that is to run, or to print, the sandbox command first checks that the sandbox
/// tool is there, tells what does not apply, and prepares what the sandbox needs, locked down
/// or not. If the check or the preparations fail it ends with their error, and it goes on to
/// the current directory in no other way.
pub proof fn law_sandbox_is_checked_and_prepared(
    states: Seq<Launch>,
    replies: Seq<LaunchReply>,
    flags: Flags,
    lockdown: bool,
)
    requires
        launch_path(states, replies),
        given(replies, flags),
        found_lockdown(replies, lockdown),
        !flags.landlock_exec,
        !flags.status,
        !flags.init,
        !flags.bootstrap,
    ensures
        ({
            let job = Job { flags, lockdown };
            &&& states[3] == (Launch::CheckSandbox { job })
            &&& replies.len() > 3 ==> match replies[3] {
                LaunchReply::Tried(Err(text)) => replies.len() == 4 && states[4]
                    == Launch::Finished(Err(LaunchError::Other(text))),
                LaunchReply::Tried(Ok(_)) => {
                    &&& states[4] == (Launch::PlatformNotes { job })
                    &&& replies.len() > 4 ==> states[5] == (Launch::Prepare { job })
                    &&& replies.len() > 5 ==> match replies[5] {
                        LaunchReply::Tried(Err(text)) => replies.len() == 6 && states[6]
                            == Launch::Finished(Err(LaunchError::Other(text))),
                        LaunchReply::Tried(Ok(_)) => states[6] == (Launch::CurrentDir { job }),
                        _ => false,
                    }
                },
                _ => false,
            }
        }),
{
    law_configuration_comes_first(states, replies, flags);
    assert(takes_step(states, replies, 2));
    if replies.len() > 3 {
        assert(takes_step(states, replies, 3));
    }
    if replies.len() > 4 {
        assert(takes_step(states, replies, 4));
    }
    if replies.len() > 5 {
        assert(takes_step(states, replies, 5));
    }
    if replies.len() > 6 {
        assert(takes_step(states, replies, 6));
    }
}

/// Once the current directory is known, the configuration file is written unless the sandbox
/// is locked down, and then the command is printed with `--dry-run`, and else the user is told
/// that the sandbox is active in that directory. Without a current directory, what was
/// prepared is cleaned up and the launch ends with that error.
pub proof fn law_directory_leads_to_the_sandbox(
    states: Seq<Launch>,
    replies: Seq<LaunchReply>,
    job: Job,
    n: int,
)
    requires
        launch_path(states, replies),
        0 <= n < replies.len(),
        states[n] == (Launch::CurrentDir { job }),
    ensures
        match replies[n] {
            LaunchReply::Dir(Err(text)) => {
                &&& states[n + 1] is CleanUp
                &&& replies.len() > n + 1 ==> replies.len() == n + 2 && states[n + 2]
                    == Launch::Finished(Err(LaunchError::CurrentDir(text)))
            },
            LaunchReply::Dir(Ok(dir)) => {
                let then = if job.flags.dry_run {
                    Launch::DryRun { job }
                } else {
                    Launch::TellActive { job, dir }
                };
                &&& job.lockdown ==> states[n + 1] == then
                &&& !job.lockdown ==> states[n + 1] == (Launch::SaveConfig { job, dir })
                &&& !job.lockdown && replies.len() > n + 1 ==> states[n + 2] == then
            },
            _ => false,
        },
{
    assert(takes_step(states, replies, n));
    if replies.len() > n + 1 {
        assert(takes_step(states, replies, n + 1));
    }
    if replies.len() > n + 2 {
        assert(takes_step(states, replies, n + 2));
    }
}

/// Once the command was printed, what was prepared is cleaned up and the launch ends with
/// success.
pub proof fn law_dry_run_ends(states: Seq<Launch>, replies: Seq<LaunchReply>, n: int)
    requires
        launch_path(states, replies),
        0 <= n < replies.len(),
        states[n] is DryRun,
    ensures
        states[n + 1] is CleanUp,
        replies.len() > n + 1 ==> replies.len() == n + 2 && states[n + 2] == Launch::Finished(
            Ok(0),
        ),
{
    assert(takes_step(states, replies, n));
    if replies.len() > n + 1 {
        assert(takes_step(states, replies, n + 1));
    }
    if replies.len() > n + 2 {
        assert(takes_step(states, replies, n + 2));
    }
}

/// Once the user was told, the sandbox is run: the signal handlers are installed, the command
/// is started, its process is made known and waited for, and its handle is forgotten. Then
/// what was prepared is cleaned up, and the launch ends with what the process returned. If the
/// command could not be started, it is cleaned up too and the launch ends with that error.
pub proof fn law_sandbox_is_run(states: Seq<Launch>, replies: Seq<LaunchReply>, n: int)
    requires
        launch_path(states, replies),
        0 <= n < replies.len(),
        states[n] is TellActive,
    ensures
        states[n + 1] is InstallHandlers,
        replies.len() > n + 1 ==> states[n + 2] is Spawn,
        replies.len() > n + 2 ==> match replies[n + 2] {
            LaunchReply::Spawned(Err(text)) => {
                &&& states[n + 3] is CleanUp
                &&& replies.len() > n + 3 ==> replies.len() == n + 4 && states[n + 4]
                    == Launch::Finished(Err(LaunchError::Spawn(text)))
            },
            LaunchReply::Spawned(Ok(p)) => {
                &&& states[n + 3] matches Launch::SetChildPid { pid, .. } && pid == p as i32
                &&& replies.len() > n + 3 ==> (states[n + 4] matches Launch::Wait { pid, .. } && pid
                    == p as i32)
                &&& replies.len() > n + 4 ==> states[n + 5] is Forget
                &&& replies.len() > n + 5 ==> states[n + 6] is CleanUp
                &&& replies.len() > n + 6 ==> replies.len() == n + 7 && (
                replies[n + 4] matches LaunchReply::Exited(code) && states[n + 7]
                    == Launch::Finished(Ok(code)))
            },
            _ => false,
        },
{
    let len = replies.len() as int;
    assert(takes_step(states, replies, n));
    if len > n + 1 {
        assert(takes_step(states, replies, n + 1));
    }
    if len > n + 2 {
        assert(takes_step(states, replies, n + 2));
    }
    if len > n + 3 {
        assert(takes_step(states, replies, n + 3));
    }
    if len > n + 4 {
        assert(takes_step(states, replies, n + 4));
    }
    if len > n + 5 {
        assert(takes_step(states, replies, n + 5));
    }
    if len > n + 6 {
        assert(takes_step(states, replies, n + 6));
    }
    if len > n + 7 {
        assert(takes_step(states, replies, n + 7));
    }
}

/// Whether a launch has gone through an operation of this kind that was answered so.
pub open spec fn went_through(
    states: Seq<Launch>,
    replies: Seq<LaunchReply>,
    n: int,
    kind: spec_fn(Launch) -> bool,
    answer: spec_fn(LaunchReply) -> bool,
) -> bool {
    exists|m: int| 0 <= m < n && kind(#[trigger] states[m]) && answer(replies[m])
}

/// A launch that ends with success has done what it was asked for: shown the status, written
/// the configuration file, generated the configurations, printed the command, or started the
/// command.
pub proof fn law_success_means_done(
    states: Seq<Launch>,
    replies: Seq<LaunchReply>,
    flags: Flags,
    code: i32,
)
    requires
        launch_path(states, replies),
        given(replies, flags),
        states.last() == Launch::Finished(Ok(code)),
    ensures
        ({
            let len = replies.len() as int;
            let any = |r: LaunchReply| true;
            let fine = |r: LaunchReply| r matches LaunchReply::Tried(Ok(_));
            if flags.status {
                went_through(states, replies, len, |s: Launch| s is ShowStatus, any)
            } else if flags.init {
                went_through(states, replies, len, |s: Launch| s is SaveAsAsked, any)
            } else if flags.bootstrap {
                went_through(states, replies, len, |s: Launch| s is Bootstrap, fine)
            } else if flags.dry_run {
                went_through(states, replies, len, |s: Launch| s is DryRun, any)
            } else {
                went_through(
                    states,
                    replies,
                    len,
                    |s: Launch| s is Spawn,
                    |r: LaunchReply| r matches LaunchReply::Spawned(Ok(_)),
                )
            }
        }),
{
    let len = replies.len() as int;
    law_launch_returns_the_exit_code(states, replies, flags, code);
    law_configuration_comes_first(states, replies, flags);
    let lockdown = replies[2]->lockdown;
    assert(takes_step(states, replies, 0));
    if flags.status {
        law_status_is_shown(states, replies, flags, lockdown);
        assert(states[3] is ShowStatus);
    } else if flags.init {
        law_init_is_obeyed(states, replies, flags, lockdown);
        assert(states[3] is SaveAsAsked);
    } else if flags.bootstrap {
        law_bootstrap_is_obeyed(states, replies, flags, lockdown);
        assert(states[3] is Bootstrap);
    } else {
        law_sandbox_is_checked_and_prepared(states, replies, flags, lockdown);
        let job = Job { flags, lockdown };
        law_directory_leads_to_the_sandbox(states, replies, job, 6);
        let n = if lockdown {
            7int
        } else {
            8
        };
        if flags.dry_run {
            assert(states[n] is DryRun);
        } else {
            assert(states[n] is TellActive);
            law_sandbox_is_run(states, replies, n);
            assert(states[n + 2] is Spawn);
        }
    }
}

/// Wherever a launch looks for the current directory of the sandbox, the sandbox tool was
/// found and everything was prepared.
pub proof fn law_directory_comes_after_the_preparations(
    states: Seq<Launch>,
    replies: Seq<LaunchReply>,
    flags: Flags,
    n: int,
)
    requires
        launch_path(states, replies),
        given(replies, flags),
        0 <= n <= replies.len(),
        states[n] is CurrentDir,
    ensures
        ({
            let fine = |r: LaunchReply| r matches LaunchReply::Tried(Ok(_));
            &&& went_through(states, replies, n, |s: Launch| s is CheckSandbox, fine)
            &&& went_through(states, replies, n, |s: Launch| s is Prepare, fine)
        }),
{
    assert(takes_step(states, replies, n - 1));
    assert(states[n - 1] is Prepare);
    assert(takes_step(states, replies, n - 2));
    assert(states[n - 2] is PlatformNotes);
    assert(takes_step(states, replies, n - 3));
    assert(states[n - 3] is CheckSandbox);
}

/// Each state but the last waits for one kind of outcome, and takes every one of that kind.
pub proof fn law_each_state_takes_its_outcome(state: Launch, reply: LaunchReply)
    ensures
        state.accepts(reply) <==> match reply {
            LaunchReply::Parsed(_) => state is ParseCli,
            LaunchReply::Merged { .. } => state is InnerMerge || state is MergeConfig,
            LaunchReply::Dir(_) => state is InnerDir || state is CurrentDir,
            LaunchReply::Tried(_) => state is Bootstrap || state is CheckSandbox
                || state is Prepare,
            LaunchReply::Spawned(_) => state is Spawn,
            LaunchReply::Exited(_) => state is Wait,
            LaunchReply::ExecFailed(_) => state is Exec,
            LaunchReply::Done => state is InnerLoad || state is ApplyLandlock || state is LoadConfig
                || state is DefaultConfig || state is ShowStatus || state is SaveAsAsked
                || state is TellSaved || state is PlatformNotes || state is SaveConfig
                || state is DryRun || state is TellActive || state is InstallHandlers
                || state is SetChildPid || state is Forget || state is CleanUp,
        },
{
}

/// The program exits with what the launch returned, whatever that is, and with 1 after an
/// error, whatever that is.
pub proof fn law_exit_code_is_passed_on(code: i32, e: LaunchError)
    ensures
        process_code(Ok(code)) == code,
        process_code(Err(e)) == 1,
{
}

/// The message of an error is what was tried, and then the cause to its end; an error of
/// another part is passed on as it is.
pub proof fn law_message_ends_in_the_cause(program: String, cause: String)
    ensures
        LaunchError::CurrentDir(cause).text().take(36) == "Cannot determine current directory: "@,
        LaunchError::CurrentDir(cause).text().skip(36) == cause@,
        LaunchError::Spawn(cause).text().take(25) == "Failed to start sandbox: "@,
        LaunchError::Spawn(cause).text().skip(25) == cause@,
        LaunchError::Other(cause).text() == cause@,
        ({
            let text = (LaunchError::Exec { program, error: cause }).text();
            let end: int = 15 + program@.len() as int;
            &&& text.take(15) == "Failed to exec "@
            &&& text.subrange(15, end) == program@
            &&& text.subrange(end, end + 2) == ": "@
            &&& text.skip(end + 2) == cause@
        }),
        active_text(cause@).take(13) == "Jail Active: "@,
        active_text(cause@).skip(13) == cause@,
{
    reveal_strlit("Cannot determine current directory: ");
    reveal_strlit("Failed to start sandbox: ");
    reveal_strlit("Failed to exec ");
    reveal_strlit(": ");
    reveal_strlit("Jail Active: ");
}

} // verus!
