//! The launch sequence: which outside step comes next, given how the last
//! one went.
//!
//! The supervisor performs nothing itself. It answers each event with the
//! action to perform next; whoever drives it performs the action and reports
//! back with the next event.

use crate::emulator::{
    emulator_arg_texts, emulator_args, socket_text, state_dir, state_dir_text, EMULATOR_PROGRAM,
};
use crate::listing::{listing, render_listing};
use crate::qemu::{Call, QemuInstance, QemuInstanceView, MONITOR_PROGRAM};
use crate::text::{concat, concat_strings, copy_strings, texts, Text};
use vstd::prelude::*;
use vstd::string::*;

verus! {

/// How a process ended.
#[derive(Clone, Copy, Debug, PartialEq, Eq, Structural)]
pub enum Termination {
    /// It exited with this code.
    Exited(i32),
    /// This signal ended it.
    Signaled(i32),
}

/// A program and its arguments.
#[derive(Debug, PartialEq, Eq)]
pub struct Command {
    pub program: String,
    pub args: Vec<String>,
}

/// A `Command`, as mathematical values.
pub struct CommandView {
    pub program: Text,
    pub args: Seq<Text>,
}

impl View for Command {
    type V = CommandView;

    open spec fn view(&self) -> CommandView {
        CommandView { program: self.program@, args: texts(self.args@) }
    }
}

/// Why a launch was abandoned.
#[derive(Debug, PartialEq, Eq)]
pub enum LaunchError {
    /// The state directory could not be created.
    StateDir { path: String },
    /// The program could not be started.
    Spawn { command: Command },
    /// An event arrived that does not answer the action last asked for.
    OutOfOrder,
}

/// A `LaunchError`, as mathematical values.
pub enum LaunchErrorView {
    StateDir { path: Text },
    Spawn { command: CommandView },
    OutOfOrder,
}

impl View for LaunchError {
    type V = LaunchErrorView;

    open spec fn view(&self) -> LaunchErrorView {
        match self {
            LaunchError::StateDir { path } => LaunchErrorView::StateDir { path: path@ },
            LaunchError::Spawn { command } => LaunchErrorView::Spawn { command: command@ },
            LaunchError::OutOfOrder => LaunchErrorView::OutOfOrder,
        }
    }
}

impl LaunchErrorView {
    /// The words that report the error.
    pub open spec fn message(self) -> Text {
        match self {
            LaunchErrorView::StateDir { path } => "Cannot create directory "@ + path,
            LaunchErrorView::Spawn { command } => "Cannot run "@ + command.program + " "@
                + concat(command.args),
            LaunchErrorView::OutOfOrder => "Unexpected event"@,
        }
    }
}

impl LaunchError {
    /// The words that report the error: what could not be done, and with
    /// which path, or with which program and arguments.
    pub fn message(&self) -> (words: String)
        ensures
            words@ == self@.message(),
    {
        match self {
            LaunchError::StateDir { path } => {
                let mut words = String::from_str("Cannot create directory ");
                words.append(path.as_str());
                words
            },
            LaunchError::Spawn { command } => {
                let mut words = String::from_str("Cannot run ");
                words.append(command.program.as_str());
                words.append(" ");
                words.append(concat_strings(&command.args).as_str());
                words
            },
            LaunchError::OutOfOrder => String::from_str("Unexpected event"),
        }
    }
}

/// How a launch came to its end.
#[derive(Debug, PartialEq, Eq)]
pub enum Outcome {
    /// The arguments were shown and nothing was started.
    DryRun,
    /// The monitor ran and ended.
    Ended(Termination),
    /// The launch was abandoned.
    Failed(LaunchError),
}

/// An `Outcome`, as mathematical values.
pub enum OutcomeView {
    DryRun,
    Ended(Termination),
    Failed(LaunchErrorView),
}

impl View for Outcome {
    type V = OutcomeView;

    open spec fn view(&self) -> OutcomeView {
        match self {
            Outcome::DryRun => OutcomeView::DryRun,
            Outcome::Ended(termination) => OutcomeView::Ended(*termination),
            Outcome::Failed(error) => OutcomeView::Failed(error@),
        }
    }
}

/// What the driver is asked to do next.
#[derive(Debug, PartialEq, Eq)]
pub enum Action {
    /// Create the directory and its parents, unless it exists.
    EnsureStateDir { path: String },
    /// Start the program in the background, its output captured and drained.
    SpawnBackground { command: Command },
    /// Show the text.
    Print { text: String },
    /// Start the program on the controlling terminal and wait for its end.
    RunForeground { command: Command },
    /// Stop: the launch is over.
    Finish { outcome: Outcome },
}

/// An `Action`, as mathematical values.
pub enum ActionView {
    EnsureStateDir { path: Text },
    SpawnBackground { command: CommandView },
    Print { text: Text },
    RunForeground { command: CommandView },
    Finish { outcome: OutcomeView },
}

impl View for Action {
    type V = ActionView;

    open spec fn view(&self) -> ActionView {
        match self {
            Action::EnsureStateDir { path } => ActionView::EnsureStateDir { path: path@ },
            Action::SpawnBackground { command } => ActionView::SpawnBackground {
                command: command@,
            },
            Action::Print { text } => ActionView::Print { text: text@ },
            Action::RunForeground { command } => ActionView::RunForeground { command: command@ },
            Action::Finish { outcome } => ActionView::Finish { outcome: outcome@ },
        }
    }
}

/// What the driver reports back.
#[derive(Clone, Copy, Debug, PartialEq, Eq, Structural)]
pub enum Event {
    /// The launch is to begin.
    Start,
    /// The state directory exists.
    StateDirReady,
    /// The state directory could not be created.
    StateDirFailed,
    /// The background program runs.
    Spawned,
    /// The program could not be started.
    SpawnFailed,
    /// The text was shown.
    Printed,
    /// The foreground program ended.
    Ended(Termination),
}

/// Where the launch sequence stands.
#[derive(Clone, Copy, Debug, PartialEq, Eq, Structural)]
pub enum Phase {
    /// Nothing was asked for yet.
    Idle,
    /// The state directory was asked for.
    EnsuringStateDir,
    /// The emulator's start was asked for.
    StartingEmulator,
    /// The listing was handed out.
    Printing,
    /// The monitor's run was asked for.
    RunningMonitor,
    /// The launch is over.
    Finished,
}

/// The launch sequence of one machine.
#[derive(Debug)]
pub struct Supervisor {
    phase: Phase,
    dry_run: bool,
    state_dir: String,
    emulator_args: Vec<String>,
    monitor_args: Vec<String>,
}

/// What a `Supervisor` holds, as mathematical values.
pub struct SupervisorView {
    pub phase: Phase,
    pub dry_run: bool,
    pub state_dir: Text,
    pub emulator_args: Seq<Text>,
    pub monitor_args: Seq<Text>,
}

impl SupervisorView {
    /// The launch of `instance`, before it begins.
    pub open spec fn planned(instance: QemuInstanceView, dry_run: bool) -> Self {
        SupervisorView {
            phase: Phase::Idle,
            dry_run,
            state_dir: state_dir_text(instance.serial),
            emulator_args: emulator_arg_texts(state_dir_text(instance.serial)),
            monitor_args: instance.argv(),
        }
    }

    /// The emulator and its arguments.
    pub open spec fn emulator(self) -> CommandView {
        CommandView { program: EMULATOR_PROGRAM@, args: self.emulator_args }
    }

    /// The monitor and its arguments.
    pub open spec fn monitor(self) -> CommandView {
        CommandView { program: MONITOR_PROGRAM@, args: self.monitor_args }
    }

    /// The action that shows the monitor's arguments.
    pub open spec fn print(self) -> ActionView {
        ActionView::Print { text: listing(self.monitor_args) }
    }

    /// The action that ends the launch with `error`.
    pub open spec fn fail(error: LaunchErrorView) -> ActionView {
        ActionView::Finish { outcome: OutcomeView::Failed(error) }
    }

    /// The phase that follows when `event` arrives.
    ///
    /// The order is fixed: the state directory, then the emulator, then the
    /// listing, then the monitor. A dry run passes over the emulator and the
    /// monitor. A failure, or an event that does not answer the action last
    /// asked for, ends the launch.
    pub open spec fn next_phase(self, event: Event) -> Phase {
        match (self.phase, event) {
            (Phase::Idle, Event::Start) => Phase::EnsuringStateDir,
            (Phase::EnsuringStateDir, Event::StateDirReady) => if self.dry_run {
                Phase::Printing
            } else {
                Phase::StartingEmulator
            },
            (Phase::StartingEmulator, Event::Spawned) => Phase::Printing,
            (Phase::Printing, Event::Printed) => if self.dry_run {
                Phase::Finished
            } else {
                Phase::RunningMonitor
            },
            _ => Phase::Finished,
        }
    }

    /// The action asked for when `event` arrives.
    pub open spec fn next_action(self, event: Event) -> ActionView {
        match (self.phase, event) {
            (Phase::Idle, Event::Start) => ActionView::EnsureStateDir { path: self.state_dir },
            (Phase::EnsuringStateDir, Event::StateDirReady) => if self.dry_run {
                self.print()
            } else {
                ActionView::SpawnBackground { command: self.emulator() }
            },
            (Phase::EnsuringStateDir, Event::StateDirFailed) => Self::fail(
                LaunchErrorView::StateDir { path: self.state_dir },
            ),
            (Phase::StartingEmulator, Event::Spawned) => self.print(),
            (Phase::StartingEmulator, Event::SpawnFailed) => Self::fail(
                LaunchErrorView::Spawn { command: self.emulator() },
            ),
            (Phase::Printing, Event::Printed) => if self.dry_run {
                ActionView::Finish { outcome: OutcomeView::DryRun }
            } else {
                ActionView::RunForeground { command: self.monitor() }
            },
            (Phase::RunningMonitor, Event::Ended(termination)) => ActionView::Finish {
                outcome: OutcomeView::Ended(termination),
            },
            (Phase::RunningMonitor, Event::SpawnFailed) => Self::fail(
                LaunchErrorView::Spawn { command: self.monitor() },
            ),
            _ => Self::fail(LaunchErrorView::OutOfOrder),
        }
    }

    /// The supervisor after `event`.
    pub open spec fn next(self, event: Event) -> Self {
        SupervisorView { phase: self.next_phase(event), ..self }
    }
}

impl SupervisorView {
    /// The supervisor after the given events, taken in order.
    pub open spec fn after(self, events: Seq<Event>) -> Self
        decreases events.len(),
    {
        if events.len() == 0 {
            self
        } else {
            self.after(events.drop_last()).next(events.last())
        }
    }

    /// The actions that answer the given events, one for each, in order.
    pub open spec fn actions(self, events: Seq<Event>) -> Seq<ActionView>
        decreases events.len(),
    {
        if events.len() == 0 {
            Seq::empty()
        } else {
            self.actions(events.drop_last()).push(
                self.after(events.drop_last()).next_action(events.last()),
            )
        }
    }
}

/// Whether the action starts a program.
pub open spec fn starts_program(action: ActionView) -> bool {
    action is SpawnBackground || action is RunForeground
}

/// How far a launch that began idle can have come after `events`: nothing
/// but its phase has changed, and each phase but the last is reached after
/// one number of events only.
pub open spec fn on_track(plan: SupervisorView, events: Seq<Event>) -> bool {
    let now = plan.after(events);
    let count = events.len();
    &&& now == SupervisorView { phase: now.phase, ..plan }
    &&& match now.phase {
        Phase::Idle => count == 0,
        Phase::EnsuringStateDir => count == 1,
        Phase::StartingEmulator => count == 2 && !plan.dry_run,
        Phase::Printing => if plan.dry_run {
            count == 2
        } else {
            count == 3 && events[2] == Event::Spawned
        },
        Phase::RunningMonitor => count == 4 && !plan.dry_run && events[2] == Event::Spawned,
        Phase::Finished => true,
    }
}

/// The order of a launch.
///
/// Whatever events arrive at a supervisor that has not begun, each is
/// answered by one action, and:
/// - in a dry run no action starts a program;
/// - the state directory is asked for first or not at all;
/// - the emulator is started second or not at all;
/// - the monitor is run fourth or not at all, and only after the emulator
///   was asked for and reported as running.
pub proof fn lemma_launch_order(plan: SupervisorView, events: Seq<Event>)
    requires
        plan.phase == Phase::Idle,
    ensures
        on_track(plan, events),
        plan.actions(events).len() == events.len(),
        plan.dry_run ==> forall|i: int|
            0 <= i < events.len() ==> !starts_program(#[trigger] plan.actions(events)[i]),
        forall|i: int|
            0 <= i < events.len() && #[trigger] plan.actions(events)[i] is EnsureStateDir ==> i
                == 0,
        forall|i: int|
            0 <= i < events.len() && #[trigger] plan.actions(events)[i] is SpawnBackground ==> {
                &&& i == 1
                &&& plan.actions(events)[i] == ActionView::SpawnBackground {
                    command: plan.emulator(),
                }
            },
        forall|i: int|
            0 <= i < events.len() && #[trigger] plan.actions(events)[i] is RunForeground ==> {
                &&& i == 3
                &&& plan.actions(events)[i] == ActionView::RunForeground {
                    command: plan.monitor(),
                }
                &&& plan.actions(events)[1] == ActionView::SpawnBackground {
                    command: plan.emulator(),
                }
                &&& events[2] == Event::Spawned
            },
    decreases events.len(),
{
    if events.len() > 0 {
        let earlier = events.drop_last();
        let end = events.len() - 1;
        lemma_launch_order(plan, earlier);
        let before = plan.after(earlier);
        let answer = before.next_action(events.last());
        assert(plan.actions(events) == plan.actions(earlier).push(answer));
        assert forall|i: int| 0 <= i < end implies plan.actions(events)[i] == plan.actions(
            earlier,
        )[i] && events[i] == earlier[i] by {}
        assert(plan.actions(events)[end] == answer);
        assert(before.emulator() == plan.emulator());
        assert(before.monitor() == plan.monitor());
        if answer is RunForeground {
            lemma_second_action(plan, earlier);
        }
    }
}

/// A launch that is not a dry run and has passed its second event in order
/// answered that event by starting the emulator.
proof fn lemma_second_action(plan: SupervisorView, events: Seq<Event>)
    requires
        plan.phase == Phase::Idle,
        !plan.dry_run,
        events.len() >= 2,
        plan.after(events).phase != Phase::Finished,
    ensures
        plan.actions(events).len() == events.len(),
        plan.actions(events)[1] == (ActionView::SpawnBackground { command: plan.emulator() }),
    decreases events.len(),
{
    let earlier = events.drop_last();
    lemma_launch_order(plan, earlier);
    let before = plan.after(earlier);
    let answer = before.next_action(events.last());
    assert(plan.actions(events) == plan.actions(earlier).push(answer));
    if events.len() == 2 {
        assert(before.phase == Phase::EnsuringStateDir);
        assert(before.emulator() == plan.emulator());
    } else {
        assert(before.phase != Phase::Finished);
        lemma_second_action(plan, earlier);
    }
}

/// The emulator and the monitor meet at one socket.
///
/// The serial number of the machine names the state directory. The control
/// socket that the emulator is told to open and the socket that the
/// monitor's TPM device is told to use are the same path inside it.
pub proof fn lemma_shared_socket(instance: QemuInstanceView, dry_run: bool)
    ensures
        ({
            let plan = SupervisorView::planned(instance, dry_run);
            let tpm = Call::Tpm.tokens(instance.base_path, instance.serial);
            &&& plan.state_dir == state_dir_text(instance.serial)
            &&& plan.emulator_args[2] == "dir="@ + state_dir_text(instance.serial)
            &&& plan.emulator_args[4] == "type=unixio,path="@ + socket_text(instance.serial)
            &&& tpm[5] == "socket,id=chrtpm,path="@ + socket_text(instance.serial)
        }),
{
    let dir = state_dir_text(instance.serial);
    assert("type=unixio,path="@ + dir + "/swtpm-sock"@ =~= "type=unixio,path="@ + socket_text(
        instance.serial,
    ));
}

impl View for Supervisor {
    type V = SupervisorView;

    closed spec fn view(&self) -> SupervisorView {
        SupervisorView {
            phase: self.phase,
            dry_run: self.dry_run,
            state_dir: self.state_dir@,
            emulator_args: texts(self.emulator_args@),
            monitor_args: texts(self.monitor_args@),
        }
    }
}

impl Supervisor {
    /// Plans the launch of `instance`. With `dry_run` set, the arguments are
    /// shown and no program is started.
    pub fn new(instance: QemuInstance, dry_run: bool) -> (supervisor: Self)
        ensures
            supervisor@ == SupervisorView::planned(instance@, dry_run),
    {
        let dir = state_dir(instance.serial_number());
        let emulator_args = emulator_args(dir.as_str());
        let monitor_args = instance.finalize();
        Supervisor { phase: Phase::Idle, dry_run, state_dir: dir, emulator_args, monitor_args }
    }

    /// Where the launch stands.
    pub fn phase(&self) -> (phase: Phase)
        ensures
            phase == self@.phase,
    {
        self.phase
    }

    fn emulator(&self) -> (command: Command)
        ensures
            command@ == self@.emulator(),
    {
        Command {
            program: String::from_str(EMULATOR_PROGRAM),
            args: copy_strings(&self.emulator_args),
        }
    }

    fn monitor(&self) -> (command: Command)
        ensures
            command@ == self@.monitor(),
    {
        Command {
            program: String::from_str(MONITOR_PROGRAM),
            args: copy_strings(&self.monitor_args),
        }
    }

    fn print(&self) -> (action: Action)
        ensures
            action@ == self@.print(),
    {
        Action::Print { text: render_listing(&self.monitor_args) }
    }

    /// Takes `event` and answers with the action to perform next.
    pub fn step(&mut self, event: Event) -> (action: Action)
        ensures
            final(self)@ == old(self)@.next(event),
            action@ == old(self)@.next_action(event),
    {
        let action = match (self.phase, event) {
            (Phase::Idle, Event::Start) => Action::EnsureStateDir { path: self.state_dir.clone() },
            (Phase::EnsuringStateDir, Event::StateDirReady) => if self.dry_run {
                self.print()
            } else {
                Action::SpawnBackground { command: self.emulator() }
            },
            (Phase::EnsuringStateDir, Event::StateDirFailed) => Action::Finish {
                outcome: Outcome::Failed(LaunchError::StateDir { path: self.state_dir.clone() }),
            },
            (Phase::StartingEmulator, Event::Spawned) => self.print(),
            (Phase::StartingEmulator, Event::SpawnFailed) => Action::Finish {
                outcome: Outcome::Failed(LaunchError::Spawn { command: self.emulator() }),
            },
            (Phase::Printing, Event::Printed) => if self.dry_run {
                Action::Finish { outcome: Outcome::DryRun }
            } else {
                Action::RunForeground { command: self.monitor() }
            },
            (Phase::RunningMonitor, Event::Ended(termination)) => Action::Finish {
                outcome: Outcome::Ended(termination),
            },
            (Phase::RunningMonitor, Event::SpawnFailed) => Action::Finish {
                outcome: Outcome::Failed(LaunchError::Spawn { command: self.monitor() }),
            },
            _ => Action::Finish { outcome: Outcome::Failed(LaunchError::OutOfOrder) },
        };
        self.phase = match (self.phase, event) {
            (Phase::Idle, Event::Start) => Phase::EnsuringStateDir,
            (Phase::EnsuringStateDir, Event::StateDirReady) => if self.dry_run {
                Phase::Printing
            } else {
                Phase::StartingEmulator
            },
            (Phase::StartingEmulator, Event::Spawned) => Phase::Printing,
            (Phase::Printing, Event::Printed) => if self.dry_run {
                Phase::Finished
            } else {
                Phase::RunningMonitor
            },
            _ => Phase::Finished,
        };
        action
    }
}

} // verus!
