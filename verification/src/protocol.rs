use vstd::prelude::*;

use crate::jsonargs::{json_of, params_json};
use crate::plan::{ExecutableTask, SpecExecutableTask};
use crate::task::spec_materialized;
use vstd::string::StrSliceExecFns;
use vstd::string::StringSliceAdditionalSpecFns;
use vstd::utf8::encode_utf8;

verus! {

// The protocol uploads the script to a fixed hidden remote path,
// `._zap_command` (mode 700), and for file-backed scripts the
// parameters as JSON to `._zap_args.json` (mode 400); both are removed
// again by a best-effort `rm -f` once execution finished.

/// One remote or local interaction the driver performs on the
/// machine's behalf.
pub enum RunAction {
    /// Open the connection to the target and authenticate.
    Connect,
    /// Does the remote path exist?
    CheckFile(String),
    /// Read this local file (a file-backed script's body).
    ReadLocalFile(String),
    /// Show the materialized script to the operator (dry run).
    ShowScript(Vec<u8>),
    /// Upload bytes to a remote path with the given mode.
    Upload(String, Vec<u8>, i32),
    /// Run a remote command line, streaming output, and report its
    /// exit status.
    ExecRemote(String),
    /// Issue the best-effort remote cleanup command.
    CleanupRemote(String),
}

/// Abstract value of a `RunAction`.
pub enum SpecRunAction {
    Connect,
    CheckFile(Seq<char>),
    ReadLocalFile(Seq<char>),
    ShowScript(Seq<u8>),
    Upload(Seq<char>, Seq<u8>, int),
    ExecRemote(Seq<char>),
    CleanupRemote(Seq<char>),
}

impl View for RunAction {
    type V = SpecRunAction;

    open spec fn view(&self) -> SpecRunAction {
        match self {
            RunAction::Connect => SpecRunAction::Connect,
            RunAction::CheckFile(p) => SpecRunAction::CheckFile(p@),
            RunAction::ReadLocalFile(p) => SpecRunAction::ReadLocalFile(p@),
            RunAction::ShowScript(b) => SpecRunAction::ShowScript(b@),
            RunAction::Upload(p, b, m) => SpecRunAction::Upload(p@, b@, *m as int),
            RunAction::ExecRemote(c) => SpecRunAction::ExecRemote(c@),
            RunAction::CleanupRemote(c) => SpecRunAction::CleanupRemote(c@),
        }
    }
}

/// What the driver reports back for the pending action.
pub enum RunEvent {
    Connected(bool),
    /// The existence answer, or nothing when the check itself failed
    /// for a reason other than "not found".
    FileChecked(Option<bool>),
    /// The local file's bytes, or nothing when it could not be read.
    LocalFileRead(Option<Vec<u8>>),
    ScriptShown,
    Uploaded(bool),
    Exited(i32),
    CleanedUp,
}

/// Abstract value of a `RunEvent`.
pub enum SpecRunEvent {
    Connected(bool),
    FileChecked(Option<bool>),
    LocalFileRead(Option<Seq<u8>>),
    ScriptShown,
    Uploaded(bool),
    Exited(int),
    CleanedUp,
}

impl View for RunEvent {
    type V = SpecRunEvent;

    open spec fn view(&self) -> SpecRunEvent {
        match self {
            RunEvent::Connected(ok) => SpecRunEvent::Connected(*ok),
            RunEvent::FileChecked(r) => SpecRunEvent::FileChecked(*r),
            RunEvent::LocalFileRead(b) => SpecRunEvent::LocalFileRead(
                match b {
                    Some(v) => Some(v@),
                    None => None,
                },
            ),
            RunEvent::ScriptShown => SpecRunEvent::ScriptShown,
            RunEvent::Uploaded(ok) => SpecRunEvent::Uploaded(*ok),
            RunEvent::Exited(e) => SpecRunEvent::Exited(*e as int),
            RunEvent::CleanedUp => SpecRunEvent::CleanedUp,
        }
    }
}

/// The states of one `run` against one target.
pub enum RunState {
    Connecting,
    CheckingProvides,
    UploadingUnless,
    RunningUnless,
    ReadingScriptFile,
    Showing(Vec<u8>),
    UploadingScript(Vec<u8>),
    UploadingArgs,
    /// Whether an args file was uploaded (file-backed scripts).
    Executing(bool),
    Cleaning(i32),
    Done(i32),
}

/// Abstract value of a `RunState`.
pub enum SpecRunState {
    Connecting,
    CheckingProvides,
    UploadingUnless,
    RunningUnless,
    ReadingScriptFile,
    Showing(Seq<u8>),
    UploadingScript(Seq<u8>),
    UploadingArgs,
    Executing(bool),
    Cleaning(int),
    Done(int),
}

impl View for RunState {
    type V = SpecRunState;

    open spec fn view(&self) -> SpecRunState {
        match self {
            RunState::Connecting => SpecRunState::Connecting,
            RunState::CheckingProvides => SpecRunState::CheckingProvides,
            RunState::UploadingUnless => SpecRunState::UploadingUnless,
            RunState::RunningUnless => SpecRunState::RunningUnless,
            RunState::ReadingScriptFile => SpecRunState::ReadingScriptFile,
            RunState::Showing(b) => SpecRunState::Showing(b@),
            RunState::UploadingScript(b) => SpecRunState::UploadingScript(b@),
            RunState::UploadingArgs => SpecRunState::UploadingArgs,
            RunState::Executing(a) => SpecRunState::Executing(*a),
            RunState::Cleaning(e) => SpecRunState::Cleaning(*e as int),
            RunState::Done(e) => SpecRunState::Done(*e as int),
        }
    }
}

// ---------------------------------------------------------------------
// The transition relation, as one total function.
// ---------------------------------------------------------------------

/// Where the machine goes once the provides and unless checks are
/// behind it: read the script file if there is one, else materialize
/// the inline text at once.
pub open spec fn spec_enter_materialize(task: SpecExecutableTask, dry_run: bool) -> SpecRunState {
    if task.task.script.file is Some {
        SpecRunState::ReadingScriptFile
    } else {
        spec_finish_materialize(task, dry_run, None)
    }
}

/// Materialization: no body means a failed run (-1); a dry run shows
/// the bytes and stops; otherwise they are uploaded.
pub open spec fn spec_finish_materialize(
    task: SpecExecutableTask,
    dry_run: bool,
    file_contents: Option<Seq<u8>>,
) -> SpecRunState {
    match spec_materialized(task.task.script, Some(task.parameters), file_contents) {
        None => SpecRunState::Done(-1),
        Some(b) => if dry_run {
            SpecRunState::Showing(b)
        } else {
            SpecRunState::UploadingScript(b)
        },
    }
}

/// The unless check runs only when the parameters ask for it.
pub open spec fn spec_after_checks(task: SpecExecutableTask, dry_run: bool) -> SpecRunState {
    if task.parameters.contains_key("unless"@) {
        SpecRunState::UploadingUnless
    } else {
        spec_enter_materialize(task, dry_run)
    }
}

/// The machine's whole transition function.  Events that do not answer
/// the pending action leave the state unchanged; drivers never send
/// them (`event_fits`).
pub open spec fn spec_step(
    task: SpecExecutableTask,
    dry_run: bool,
    st: SpecRunState,
    ev: SpecRunEvent,
) -> SpecRunState {
    match (st, ev) {
        (SpecRunState::Connecting, SpecRunEvent::Connected(ok)) => {
            if !ok {
                SpecRunState::Done(-1)
            } else if task.parameters.contains_key("provides"@) {
                SpecRunState::CheckingProvides
            } else {
                spec_after_checks(task, dry_run)
            }
        },
        (SpecRunState::CheckingProvides, SpecRunEvent::FileChecked(answer)) => {
            match answer {
                Some(true) => SpecRunState::Done(0),
                Some(false) => spec_after_checks(task, dry_run),
                None => SpecRunState::Done(-1),
            }
        },
        (SpecRunState::UploadingUnless, SpecRunEvent::Uploaded(ok)) => {
            // A guard that cannot be uploaded cannot bless a skip: the
            // task itself still runs.
            if ok {
                SpecRunState::RunningUnless
            } else {
                spec_enter_materialize(task, dry_run)
            }
        },
        (SpecRunState::RunningUnless, SpecRunEvent::Exited(e)) => {
            if e == 0 {
                SpecRunState::Done(0)
            } else {
                spec_enter_materialize(task, dry_run)
            }
        },
        (SpecRunState::ReadingScriptFile, SpecRunEvent::LocalFileRead(contents)) => {
            spec_finish_materialize(task, dry_run, contents)
        },
        (SpecRunState::Showing(_), SpecRunEvent::ScriptShown) => SpecRunState::Done(0),
        (SpecRunState::UploadingScript(_), SpecRunEvent::Uploaded(ok)) => {
            if !ok {
                SpecRunState::Done(-1)
            } else if task.task.script.file is Some {
                SpecRunState::UploadingArgs
            } else {
                SpecRunState::Executing(false)
            }
        },
        (SpecRunState::UploadingArgs, SpecRunEvent::Uploaded(ok)) => {
            if ok {
                SpecRunState::Executing(true)
            } else {
                SpecRunState::Done(-1)
            }
        },
        (SpecRunState::Executing(_), SpecRunEvent::Exited(e)) => SpecRunState::Cleaning(e),
        (SpecRunState::Cleaning(e), SpecRunEvent::CleanedUp) => SpecRunState::Done(e),
        (_, _) => st,
    }
}

/// Whether an event answers the action the state is waiting for.
pub open spec fn event_fits(st: SpecRunState, ev: SpecRunEvent) -> bool {
    match (st, ev) {
        (SpecRunState::Connecting, SpecRunEvent::Connected(_)) => true,
        (SpecRunState::CheckingProvides, SpecRunEvent::FileChecked(_)) => true,
        (SpecRunState::UploadingUnless, SpecRunEvent::Uploaded(_)) => true,
        (SpecRunState::RunningUnless, SpecRunEvent::Exited(_)) => true,
        (SpecRunState::ReadingScriptFile, SpecRunEvent::LocalFileRead(_)) => true,
        (SpecRunState::Showing(_), SpecRunEvent::ScriptShown) => true,
        (SpecRunState::UploadingScript(_), SpecRunEvent::Uploaded(_)) => true,
        (SpecRunState::UploadingArgs, SpecRunEvent::Uploaded(_)) => true,
        (SpecRunState::Executing(_), SpecRunEvent::Exited(_)) => true,
        (SpecRunState::Cleaning(_), SpecRunEvent::CleanedUp) => true,
        (_, _) => false,
    }
}

/// The action a state waits on; a finished machine has none.
pub open spec fn spec_action(task: SpecExecutableTask, dry_run: bool, st: SpecRunState) -> Option<
    SpecRunAction,
> {
    match st {
        SpecRunState::Connecting => Some(SpecRunAction::Connect),
        SpecRunState::CheckingProvides => Some(
            SpecRunAction::CheckFile(task.parameters["provides"@]),
        ),
        SpecRunState::UploadingUnless => Some(
            SpecRunAction::Upload(
                "._zap_command"@,
                encode_utf8(task.parameters["unless"@]),
                0o700,
            ),
        ),
        SpecRunState::RunningUnless => Some(SpecRunAction::ExecRemote("./._zap_command"@)),
        SpecRunState::ReadingScriptFile => Some(
            SpecRunAction::ReadLocalFile(task.task.script.file->0),
        ),
        SpecRunState::Showing(b) => Some(SpecRunAction::ShowScript(b)),
        SpecRunState::UploadingScript(b) => Some(
            SpecRunAction::Upload("._zap_command"@, b, 0o700),
        ),
        SpecRunState::UploadingArgs => Some(
            SpecRunAction::Upload("._zap_args.json"@, encode_utf8(json_of(task.parameters)), 0o400),
        ),
        SpecRunState::Executing(with_args) => Some(
            SpecRunAction::ExecRemote(
                if with_args {
                    "./._zap_command ._zap_args.json"@
                } else {
                    "./._zap_command"@
                },
            ),
        ),
        SpecRunState::Cleaning(_) => Some(
            SpecRunAction::CleanupRemote("rm -f ._zap_command ._zap_args.json"@),
        ),
        SpecRunState::Done(_) => None,
    }
}

// ---------------------------------------------------------------------
// Laws of the protocol.
// ---------------------------------------------------------------------

/// Whether an action touches the remote host beyond reading: an
/// upload, a remote execution, or the cleanup command.
pub open spec fn is_remote_write(a: SpecRunAction) -> bool {
    a is Upload || a is ExecRemote || a is CleanupRemote
}

/// A finished machine stays finished, whatever is fed to it, and asks
/// for nothing more.
pub proof fn lemma_done_terminal(
    task: SpecExecutableTask,
    dry_run: bool,
    e: int,
    ev: SpecRunEvent,
)
    ensures
        spec_step(task, dry_run, SpecRunState::Done(e), ev) == SpecRunState::Done(e),
        spec_action(task, dry_run, SpecRunState::Done(e)) is None,
{
}

/// Provides-skip: when the parameters name a `provides` path and the
/// remote existence check answers that it is there, the run finishes
/// with status 0 at once; on that path the machine asks only for the
/// connection and the read-only check — never an upload, an execution
/// or a cleanup.
pub proof fn lemma_provides_skip(task: SpecExecutableTask, dry_run: bool)
    requires
        task.parameters.contains_key("provides"@),
    ensures
        spec_step(task, dry_run, SpecRunState::Connecting, SpecRunEvent::Connected(true))
            == SpecRunState::CheckingProvides,
        spec_step(
            task,
            dry_run,
            SpecRunState::CheckingProvides,
            SpecRunEvent::FileChecked(Some(true)),
        ) == SpecRunState::Done(0),
        !is_remote_write(spec_action(task, dry_run, SpecRunState::Connecting)->0),
        !is_remote_write(spec_action(task, dry_run, SpecRunState::CheckingProvides)->0),
        spec_action(task, dry_run, SpecRunState::Done(0)) is None,
{
}

/// Unless-skip: when the parameters name an `unless` guard and the
/// guard's remote exit status is 0, the run finishes with status 0 and
/// the main script is never materialized, uploaded or executed.
pub proof fn lemma_unless_skip(task: SpecExecutableTask, dry_run: bool)
    requires
        task.parameters.contains_key("unless"@),
    ensures
        !task.parameters.contains_key("provides"@) ==> spec_step(
            task,
            dry_run,
            SpecRunState::Connecting,
            SpecRunEvent::Connected(true),
        ) == SpecRunState::UploadingUnless,
        spec_step(
            task,
            dry_run,
            SpecRunState::CheckingProvides,
            SpecRunEvent::FileChecked(Some(false)),
        ) == SpecRunState::UploadingUnless,
        spec_step(task, dry_run, SpecRunState::UploadingUnless, SpecRunEvent::Uploaded(true))
            == SpecRunState::RunningUnless,
        spec_step(task, dry_run, SpecRunState::RunningUnless, SpecRunEvent::Exited(0))
            == SpecRunState::Done(0),
        spec_action(task, dry_run, SpecRunState::Done(0)) is None,
{
}

/// Exit propagation: the remote script's own exit status is what the
/// run reports, verbatim; the cleanup that follows does not change it.
pub proof fn lemma_exit_propagation(
    task: SpecExecutableTask,
    dry_run: bool,
    with_args: bool,
    e: int,
)
    ensures
        spec_step(task, dry_run, SpecRunState::Executing(with_args), SpecRunEvent::Exited(e))
            == SpecRunState::Cleaning(e),
        spec_step(task, dry_run, SpecRunState::Cleaning(e), SpecRunEvent::CleanedUp)
            == SpecRunState::Done(e),
{
}

/// The states a dry run of a task without an `unless` guard may sit in:
/// none of them uploads, executes or cleans up.
pub open spec fn dry_pure(task: SpecExecutableTask, dry_run: bool, st: SpecRunState) -> bool {
    (dry_run && !task.parameters.contains_key("unless"@)) ==> !(st is UploadingUnless
        || st is RunningUnless || st is UploadingScript || st is UploadingArgs || st is Executing
        || st is Cleaning)
}

/// Dry-run purity, as an invariant: a machine that starts connecting
/// keeps to the pure states through every step, the actions of those
/// states never write to the remote host, and showing the script
/// finishes the run with status 0.
pub proof fn lemma_dry_run_pure(
    task: SpecExecutableTask,
    dry_run: bool,
    st: SpecRunState,
    ev: SpecRunEvent,
    b: Seq<u8>,
)
    requires
        dry_pure(task, dry_run, st),
        event_fits(st, ev),
    ensures
        dry_pure(task, dry_run, SpecRunState::Connecting),
        dry_pure(task, dry_run, spec_step(task, dry_run, st, ev)),
        (dry_run && !task.parameters.contains_key("unless"@)) ==> match spec_action(
            task,
            dry_run,
            st,
        ) {
            Some(a) => !is_remote_write(a),
            None => true,
        },
        spec_step(task, dry_run, SpecRunState::Showing(b), SpecRunEvent::ScriptShown)
            == SpecRunState::Done(0),
{
}

// ---------------------------------------------------------------------
// The executable machine.
// ---------------------------------------------------------------------

/// One `run` of a task against one target, as a stepped machine: the
/// driver performs each pending action (connection, checks, uploads,
/// execution) and feeds the outcome back; every decision in between is
/// made here.
pub struct RunMachine {
    pub task: ExecutableTask,
    pub dry_run: bool,
    pub state: RunState,
}

impl RunMachine {
    /// Validity: the parameters are well formed, and a state that
    /// consults them or the script finds what it needs there.
    pub open spec fn wf(&self) -> bool {
        &&& self.task.wf()
        &&& (self.state@ is CheckingProvides ==> self.task.parameters@.contains_key("provides"@))
        &&& ((self.state@ is UploadingUnless || self.state@ is RunningUnless)
            ==> self.task.parameters@.contains_key("unless"@))
        &&& (self.state@ is ReadingScriptFile ==> self.task@.task.script.file is Some)
    }

    /// A fresh machine, ready to connect.
    pub fn new(task: ExecutableTask, dry_run: bool) -> (r: Self)
        requires
            task.wf(),
        ensures
            r.task == task,
            r.dry_run == dry_run,
            r.state@ == SpecRunState::Connecting,
            r.wf(),
    {
        RunMachine { task, dry_run, state: RunState::Connecting }
    }

    /// The exit status, once the machine is done.
    pub fn status(&self) -> (r: Option<i32>)
        ensures
            match r {
                Some(e) => self.state@ == SpecRunState::Done(e as int),
                None => !(self.state@ is Done),
            },
    {
        match &self.state {
            RunState::Done(e) => Some(*e),
            _ => None,
        }
    }

    /// The action the driver should perform next, or nothing when the
    /// run is over.
    pub fn action(&self) -> (r: Option<RunAction>)
        requires
            self.wf(),
        ensures
            match r {
                Some(a) => spec_action(self.task@, self.dry_run, self.state@) == Some(a@),
                None => spec_action(self.task@, self.dry_run, self.state@) is None,
            },
    {
        match &self.state {
            RunState::Connecting => Some(RunAction::Connect),
            RunState::CheckingProvides => {
                let path = match self.task.parameters.get("provides") {
                    Some(p) => p.clone(),
                    None => String::new(),  // unreachable under wf
                };
                Some(RunAction::CheckFile(path))
            },
            RunState::UploadingUnless => {
                let script = match self.task.parameters.get("unless") {
                    Some(u) => u.clone(),
                    None => String::new(),  // unreachable under wf
                };
                Some(
                    RunAction::Upload(
                        String::from_str("._zap_command"),
                        script.as_str().as_bytes_vec(),
                        0o700,
                    ),
                )
            },
            RunState::RunningUnless => Some(
                RunAction::ExecRemote(String::from_str("./._zap_command")),
            ),
            RunState::ReadingScriptFile => {
                let path = match &self.task.task.script.file {
                    Some(p) => p.clone(),
                    None => String::new(),  // unreachable under wf
                };
                Some(RunAction::ReadLocalFile(path))
            },
            RunState::Showing(b) => Some(RunAction::ShowScript(b.clone())),
            RunState::UploadingScript(b) => Some(
                RunAction::Upload(String::from_str("._zap_command"), b.clone(), 0o700),
            ),
            RunState::UploadingArgs => {
                let args = params_json(&self.task.parameters);
                Some(
                    RunAction::Upload(
                        String::from_str("._zap_args.json"),
                        args.as_str().as_bytes_vec(),
                        0o400,
                    ),
                )
            },
            RunState::Executing(with_args) => {
                if *with_args {
                    Some(
                        RunAction::ExecRemote(
                            String::from_str("./._zap_command ._zap_args.json"),
                        ),
                    )
                } else {
                    Some(RunAction::ExecRemote(String::from_str("./._zap_command")))
                }
            },
            RunState::Cleaning(_) => Some(
                RunAction::CleanupRemote(
                    String::from_str("rm -f ._zap_command ._zap_args.json"),
                ),
            ),
            RunState::Done(_) => None,
        }
    }

    fn enter_materialize(&self) -> (r: RunState)
        requires
            self.task.wf(),
        ensures
            r@ == spec_enter_materialize(self.task@, self.dry_run),
    {
        if self.task.task.script.has_file() {
            RunState::ReadingScriptFile
        } else {
            self.finish_materialize(None)
        }
    }

    fn finish_materialize(&self, file_contents: Option<Vec<u8>>) -> (r: RunState)
        requires
            self.task.wf(),
        ensures
            r@ == spec_finish_materialize(
                self.task@,
                self.dry_run,
                crate::task::opt_bytes_view(file_contents),
            ),
    {
        match self.task.task.script.as_bytes(Some(&self.task.parameters), file_contents) {
            None => RunState::Done(-1),
            Some(b) => {
                if self.dry_run {
                    RunState::Showing(b)
                } else {
                    RunState::UploadingScript(b)
                }
            },
        }
    }

    fn after_checks(&self) -> (r: RunState)
        requires
            self.task.wf(),
        ensures
            r@ == spec_after_checks(self.task@, self.dry_run),
            r@ is UploadingUnless ==> self.task.parameters@.contains_key("unless"@),
    {
        if self.task.parameters.contains_key("unless") {
            RunState::UploadingUnless
        } else {
            self.enter_materialize()
        }
    }

    /// Feed the outcome of the pending action back in; the machine
    /// moves exactly as the transition function says.
    pub fn on_event(&mut self, ev: RunEvent)
        requires
            old(self).wf(),
            event_fits(old(self).state@, ev@),
        ensures
            final(self).task == old(self).task,
            final(self).dry_run == old(self).dry_run,
            final(self).state@ == spec_step(old(self).task@, old(self).dry_run, old(self).state@, ev@),
            final(self).wf(),
    {
        let next: RunState = match (&self.state, ev) {
            (RunState::Connecting, RunEvent::Connected(ok)) => {
                if !ok {
                    RunState::Done(-1)
                } else if self.task.parameters.contains_key("provides") {
                    RunState::CheckingProvides
                } else {
                    self.after_checks()
                }
            },
            (RunState::CheckingProvides, RunEvent::FileChecked(answer)) => {
                match answer {
                    Some(true) => RunState::Done(0),
                    Some(false) => self.after_checks(),
                    None => RunState::Done(-1),
                }
            },
            (RunState::UploadingUnless, RunEvent::Uploaded(ok)) => {
                if ok {
                    RunState::RunningUnless
                } else {
                    self.enter_materialize()
                }
            },
            (RunState::RunningUnless, RunEvent::Exited(e)) => {
                if e == 0 {
                    RunState::Done(0)
                } else {
                    self.enter_materialize()
                }
            },
            (RunState::ReadingScriptFile, RunEvent::LocalFileRead(contents)) => {
                self.finish_materialize(contents)
            },
            (RunState::Showing(_), RunEvent::ScriptShown) => RunState::Done(0),
            (RunState::UploadingScript(_), RunEvent::Uploaded(ok)) => {
                if !ok {
                    RunState::Done(-1)
                } else if self.task.task.script.has_file() {
                    RunState::UploadingArgs
                } else {
                    RunState::Executing(false)
                }
            },
            (RunState::UploadingArgs, RunEvent::Uploaded(ok)) => {
                if ok {
                    RunState::Executing(true)
                } else {
                    RunState::Done(-1)
                }
            },
            (RunState::Executing(_), RunEvent::Exited(e)) => RunState::Cleaning(e),
            (RunState::Cleaning(e), RunEvent::CleanedUp) => RunState::Done(*e),
            (_, _) => {
                proof {
                    assert(false);  // ruled out by event_fits
                }
                RunState::Done(-1)
            },
        };
        self.state = next;
    }
}

} // verus!
