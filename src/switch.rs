//! The switch itself: stop the proxy, point the link at the chosen file,
//! start the proxy again. The caller performs each action and reports what
//! came of it; the machine decides what comes next.

use vstd::prelude::*;
use crate::names::copy_name;

verus! {

/// The two uses of the proxy's control command.
#[derive(Clone, Copy, Debug, PartialEq, Eq, Structural)]
pub enum Command {
    Stop,
    Start,
}

/// Where a switch stands.
#[derive(Clone, Copy, Debug, PartialEq, Eq, Structural)]
pub enum Stage {
    /// Waiting for the proxy to stop.
    Stopping,
    /// Waiting for the link to be replaced.
    Switching,
    /// Waiting for the proxy to start.
    Starting,
    /// Everything succeeded.
    Done,
    /// A control command failed; the process leaves with this code.
    Failed(i32),
}

/// What the caller is to do next.
#[derive(Clone, Copy, Debug, PartialEq, Eq, Structural)]
pub enum Action {
    /// Run the control command and wait for it.
    Run(Command),
    /// Remove `config.json` if present and link it to the selected file.
    ReplaceLink,
    /// Leave the process with this code.
    Exit(i32),
}

/// What came of the last action.
#[derive(Clone, Copy, Debug)]
pub enum Event {
    /// The control command finished: its exit code, or `None` when it was
    /// ended by a signal.
    Exited(Option<i32>),
    /// `config.json` now links to the selected file.
    LinkReplaced,
}

/// The abstract state of a switch.
pub struct SwitchState {
    pub stage: Stage,
    /// The file to be made live.
    pub selected: Seq<u8>,
    /// The target of `config.json` as far as this run has changed it: the
    /// previous target until the link is replaced.
    pub link: Option<Seq<u8>>,
}

/// Whether a control command's outcome counts as success.
pub open spec fn succeeded(status: Option<i32>) -> bool {
    status == Some(0i32)
}

/// The code to leave with after a failed control command: its own exit code,
/// or 1 when it had none.
pub open spec fn failure_code(status: Option<i32>) -> i32 {
    match status {
        Some(c) => c,
        None => 1,
    }
}

/// The state a switch starts in.
pub open spec fn begin(current: Option<Seq<u8>>, selected: Seq<u8>) -> SwitchState {
    SwitchState { stage: Stage::Stopping, selected, link: current }
}

/// The state after `e`. An event that the stage does not wait for changes
/// nothing.
pub open spec fn next(s: SwitchState, e: Event) -> SwitchState {
    match (s.stage, e) {
        (Stage::Stopping, Event::Exited(st)) => if succeeded(st) {
            SwitchState { stage: Stage::Switching, ..s }
        } else {
            SwitchState { stage: Stage::Failed(failure_code(st)), ..s }
        },
        (Stage::Switching, Event::LinkReplaced) => SwitchState {
            stage: Stage::Starting,
            link: Some(s.selected),
            ..s
        },
        (Stage::Starting, Event::Exited(st)) => if succeeded(st) {
            SwitchState { stage: Stage::Done, ..s }
        } else {
            SwitchState { stage: Stage::Failed(failure_code(st)), ..s }
        },
        _ => s,
    }
}

/// The action a state asks for.
pub open spec fn pending(s: SwitchState) -> Action {
    match s.stage {
        Stage::Stopping => Action::Run(Command::Stop),
        Stage::Switching => Action::ReplaceLink,
        Stage::Starting => Action::Run(Command::Start),
        Stage::Done => Action::Exit(0),
        Stage::Failed(c) => Action::Exit(c),
    }
}

/// The state after a run in which both control commands succeed.
pub open spec fn successful_run(current: Option<Seq<u8>>, selected: Seq<u8>) -> SwitchState {
    next(next(next(begin(current, selected), Event::Exited(Some(0i32))), Event::LinkReplaced),
        Event::Exited(Some(0i32)))
}

/// A switch in progress.
pub struct Switch {
    stage: Stage,
    selected: Vec<u8>,
    link: Option<Vec<u8>>,
}

impl View for Switch {
    type V = SwitchState;

    closed spec fn view(&self) -> SwitchState {
        SwitchState {
            stage: self.stage,
            selected: self.selected@,
            link: self.link.deep_view(),
        }
    }
}

/// The argument that tells the control command what to do.
pub fn command_arg(c: Command) -> (r: &'static str)
    ensures
        r@ == (match c {
            Command::Stop => "stop"@,
            Command::Start => "start"@,
        }),
{
    match c {
        Command::Stop => "stop",
        Command::Start => "start",
    }
}

impl Switch {
    /// A switch from the link's present target, if any, to `selected`.
    pub fn new(current: Option<Vec<u8>>, selected: Vec<u8>) -> (r: Switch)
        ensures
            r@ == begin(current.deep_view(), selected@),
    {
        Switch { stage: Stage::Stopping, selected, link: current }
    }

    /// The action the switch waits on.
    pub fn next_action(&self) -> (r: Action)
        ensures
            r == pending(self@),
    {
        match self.stage {
            Stage::Stopping => Action::Run(Command::Stop),
            Stage::Switching => Action::ReplaceLink,
            Stage::Starting => Action::Run(Command::Start),
            Stage::Done => Action::Exit(0),
            Stage::Failed(c) => Action::Exit(c),
        }
    }

    /// Takes in what came of the last action and returns the next one.
    pub fn on_event(&mut self, e: Event) -> (r: Action)
        ensures
            final(self)@ == next(old(self)@, e),
            r == pending(final(self)@),
    {
        match (self.stage, e) {
            (Stage::Stopping, Event::Exited(st)) => {
                self.stage = stage_after_command(st, Stage::Switching);
            },
            (Stage::Switching, Event::LinkReplaced) => {
                self.link = Some(copy_name(&self.selected));
                proof {
                    assert(self.link.deep_view() == Some(self.selected@)) by {
                        assert(self.link.unwrap().deep_view() =~= self.selected@);
                    }
                }
                self.stage = Stage::Starting;
            },
            (Stage::Starting, Event::Exited(st)) => {
                self.stage = stage_after_command(st, Stage::Done);
            },
            _ => {},
        }
        self.next_action()
    }

    /// Where the switch stands.
    pub fn stage(&self) -> (r: Stage)
        ensures
            r == self@.stage,
    {
        self.stage
    }

    /// The file to be made live.
    pub fn selected(&self) -> (r: &Vec<u8>)
        ensures
            r@ == self@.selected,
    {
        &self.selected
    }

    /// The target of `config.json` as far as this run has changed it.
    pub fn link(&self) -> (r: &Option<Vec<u8>>)
        ensures
            r.deep_view() == self@.link,
    {
        &self.link
    }
}

/// The stage after a control command ended with `status`: `on_success` when it succeeded,
/// a failure with the command's code otherwise.
fn stage_after_command(status: Option<i32>, on_success: Stage) -> (r: Stage)
    ensures
        r == (if succeeded(status) {
            on_success
        } else {
            Stage::Failed(failure_code(status))
        }),
{
    match status {
        Some(c) => if c == 0 {
            on_success
        } else {
            Stage::Failed(c)
        },
        None => Stage::Failed(1),
    }
}

/// A run in which both control commands succeed leaves `config.json` linked
/// to the selected file and exits with 0; running it again with the same
/// selection ends in the same state.
pub proof fn lemma_successful_run_links_selected(current: Option<Seq<u8>>, selected: Seq<u8>)
    ensures
        successful_run(current, selected).link == Some(selected),
        successful_run(current, selected).stage == Stage::Done,
        pending(successful_run(current, selected)) == Action::Exit(0),
        successful_run(successful_run(current, selected).link, selected) == successful_run(
            current,
            selected,
        ),
{
}

/// When the stop command fails, the process leaves with a non-zero code and
/// the link is never touched: no later event changes anything.
pub proof fn lemma_stop_failure_keeps_link(
    current: Option<Seq<u8>>,
    selected: Seq<u8>,
    status: Option<i32>,
)
    requires
        !succeeded(status),
    ensures
        ({
            let s = next(begin(current, selected), Event::Exited(status));
            &&& s.link == current
            &&& pending(s) == Action::Exit(failure_code(status))
            &&& failure_code(status) != 0
            &&& forall|e: Event| #[trigger] next(s, e) == s
        }),
{
}

/// When the start command fails after the link was replaced, the link stays
/// on the selected file while the process leaves with a non-zero code.
pub proof fn lemma_start_failure_keeps_new_link(
    current: Option<Seq<u8>>,
    selected: Seq<u8>,
    status: Option<i32>,
)
    requires
        !succeeded(status),
    ensures
        ({
            let s = next(
                next(next(begin(current, selected), Event::Exited(Some(0i32))), Event::LinkReplaced),
                Event::Exited(status),
            );
            &&& s.link == Some(selected)
            &&& pending(s) == Action::Exit(failure_code(status))
            &&& failure_code(status) != 0
        }),
{
}

} // verus!
