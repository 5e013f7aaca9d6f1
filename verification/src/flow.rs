//! The orchestrator: a state machine that sequences the run's steps —
//! building the configuration, asking for confirmation, the three git
//! actions, opening the pull request, self-assigning, and announcing the
//! result. The loop that performs the external work lives outside the
//! library; it asks [`next_action`] what to do, does it, reports the outcome
//! as an [`Event`], and moves on with [`advance`]. The theorems at the end
//! make the two ordering guarantees precise: declining the confirmation
//! prevents every git and API call, and a failed step prevents every later
//! step.

use vstd::prelude::*;
use crate::text::str_eq;

verus! {

/// The stages of a run, in the order they are reached. `Aborted` is reached
/// from `Configuring` when the user declines; `Failed` is reached from any
/// stage whose step errors. The three last stages are terminal.
#[derive(Clone, Copy, PartialEq, Eq, Structural, Debug)]
pub enum Stage {
    Init,
    Configuring,
    Confirmed,
    BranchCreated,
    Committed,
    Pushed,
    PrCreated,
    Assigned,
    Done,
    Aborted,
    Failed,
}

/// The step a stage asks for. The first two are interactive; the git and API
/// steps follow; `Announce` reports and opens the pull request's URL.
#[derive(Clone, Copy, PartialEq, Eq, Structural, Debug)]
pub enum Action {
    BuildConfig,
    AskConfirm,
    CreateBranch,
    CreateEmptyCommit,
    Push,
    OpenPullRequest,
    AssignSelf,
    Announce,
}

/// The outcome of a step: it succeeded, the user declined the confirmation,
/// or it errored.
#[derive(Clone, Copy, PartialEq, Eq, Structural, Debug)]
pub enum Event {
    Succeeded,
    Declined,
    Errored,
}

/// A terminal stage: the run is over and no further step is taken.
pub open spec fn is_terminal(s: Stage) -> bool {
    s == Stage::Done || s == Stage::Aborted || s == Stage::Failed
}

/// The step each stage asks for; `None` at the terminal stages.
pub open spec fn action_of(s: Stage) -> Option<Action> {
    match s {
        Stage::Init => Some(Action::BuildConfig),
        Stage::Configuring => Some(Action::AskConfirm),
        Stage::Confirmed => Some(Action::CreateBranch),
        Stage::BranchCreated => Some(Action::CreateEmptyCommit),
        Stage::Committed => Some(Action::Push),
        Stage::Pushed => Some(Action::OpenPullRequest),
        Stage::PrCreated => Some(Action::AssignSelf),
        Stage::Assigned => Some(Action::Announce),
        Stage::Done => None,
        Stage::Aborted => None,
        Stage::Failed => None,
    }
}

/// An action that touches the outside world through git or the API.
pub open spec fn is_external_action(a: Action) -> bool {
    a == Action::CreateBranch || a == Action::CreateEmptyCommit || a == Action::Push || a
        == Action::OpenPullRequest || a == Action::AssignSelf
}

/// The stage asks for a git or API call.
pub open spec fn is_external_step(s: Stage) -> bool {
    action_of(s) matches Some(a) && is_external_action(a)
}

/// The stage after an outcome: success advances one stage; a decline at the
/// confirmation aborts; an error — or an answer no step asked for — fails.
/// Terminal stages absorb every event.
pub open spec fn advance_spec(s: Stage, e: Event) -> Stage {
    if is_terminal(s) {
        s
    } else {
        match e {
            Event::Errored => Stage::Failed,
            Event::Declined => if s == Stage::Configuring {
                Stage::Aborted
            } else {
                Stage::Failed
            },
            Event::Succeeded => match s {
                Stage::Init => Stage::Configuring,
                Stage::Configuring => Stage::Confirmed,
                Stage::Confirmed => Stage::BranchCreated,
                Stage::BranchCreated => Stage::Committed,
                Stage::Committed => Stage::Pushed,
                Stage::Pushed => Stage::PrCreated,
                Stage::PrCreated => Stage::Assigned,
                Stage::Assigned => Stage::Done,
                _ => s,
            },
        }
    }
}

/// Moves the run to its next stage, exactly as [`advance_spec`] says.
pub fn advance(s: Stage, e: Event) -> (r: Stage)
    ensures
        r == advance_spec(s, e),
{
    match s {
        Stage::Done => s,
        Stage::Aborted => s,
        Stage::Failed => s,
        _ => match e {
            Event::Errored => Stage::Failed,
            Event::Declined => if s == Stage::Configuring {
                Stage::Aborted
            } else {
                Stage::Failed
            },
            Event::Succeeded => match s {
                Stage::Init => Stage::Configuring,
                Stage::Configuring => Stage::Confirmed,
                Stage::Confirmed => Stage::BranchCreated,
                Stage::BranchCreated => Stage::Committed,
                Stage::Committed => Stage::Pushed,
                Stage::Pushed => Stage::PrCreated,
                Stage::PrCreated => Stage::Assigned,
                Stage::Assigned => Stage::Done,
                _ => s,
            },
        },
    }
}

/// The step the run asks for next, exactly as [`action_of`] says.
pub fn next_action(s: Stage) -> (r: Option<Action>)
    ensures
        r == action_of(s),
{
    match s {
        Stage::Init => Some(Action::BuildConfig),
        Stage::Configuring => Some(Action::AskConfirm),
        Stage::Confirmed => Some(Action::CreateBranch),
        Stage::BranchCreated => Some(Action::CreateEmptyCommit),
        Stage::Committed => Some(Action::Push),
        Stage::Pushed => Some(Action::OpenPullRequest),
        Stage::PrCreated => Some(Action::AssignSelf),
        Stage::Assigned => Some(Action::Announce),
        Stage::Done => None,
        Stage::Aborted => None,
        Stage::Failed => None,
    }
}

/// How far along the run a stage is; the terminal stages rank above all
/// working stages.
pub open spec fn rank(s: Stage) -> int {
    match s {
        Stage::Init => 0,
        Stage::Configuring => 1,
        Stage::Confirmed => 2,
        Stage::BranchCreated => 3,
        Stage::Committed => 4,
        Stage::Pushed => 5,
        Stage::PrCreated => 6,
        Stage::Assigned => 7,
        Stage::Done => 8,
        Stage::Aborted => 9,
        Stage::Failed => 10,
    }
}

/// The stage after `i` steps of a run that starts at `init` and observes
/// `events`, one outcome per step.
pub open spec fn state_at(init: Stage, events: Seq<Event>, i: int) -> Stage
    decreases i,
{
    if i <= 0 {
        init
    } else {
        advance_spec(state_at(init, events, i - 1), events[i - 1])
    }
}

/// A run never moves backwards: the rank of its stage never decreases.
pub proof fn lemma_rank_monotone(init: Stage, events: Seq<Event>, i: int, j: int)
    requires
        0 <= i <= j,
    ensures
        rank(state_at(init, events, i)) <= rank(state_at(init, events, j)),
    decreases j - i,
{
    if i < j {
        lemma_rank_monotone(init, events, i, j - 1);
    }
}

/// A terminal stage absorbs every later event: once the run is over it
/// stays where it stopped.
pub proof fn lemma_terminal_stays(init: Stage, events: Seq<Event>, i: int, j: int)
    requires
        0 <= i <= j,
        is_terminal(state_at(init, events, i)),
    ensures
        state_at(init, events, j) == state_at(init, events, i),
    decreases j - i,
{
    if i < j {
        lemma_terminal_stays(init, events, i, j - 1);
    }
}

/// Declining the confirmation prevents every git and API call: when the run
/// is declined at the confirmation step, no stage it ever visits — earlier
/// or later — asks for an external action, and every later stage is
/// `Aborted`.
pub proof fn lemma_decline_prevents_external_calls(events: Seq<Event>, k: int)
    requires
        0 <= k < events.len(),
        state_at(Stage::Init, events, k) == Stage::Configuring,
        events[k] == Event::Declined,
    ensures
        forall|j: int| 0 <= j ==> !is_external_step(#[trigger] state_at(Stage::Init, events, j)),
        forall|j: int| j > k ==> #[trigger] state_at(Stage::Init, events, j) == Stage::Aborted,
{
    assert(state_at(Stage::Init, events, k + 1) == Stage::Aborted);
    assert forall|j: int| j > k implies #[trigger] state_at(Stage::Init, events, j)
        == Stage::Aborted by {
        lemma_terminal_stays(Stage::Init, events, k + 1, j);
    }
    assert forall|j: int| 0 <= j implies !is_external_step(
        #[trigger] state_at(Stage::Init, events, j),
    ) by {
        if j <= k {
            lemma_rank_monotone(Stage::Init, events, j, k);
            assert(rank(state_at(Stage::Init, events, j)) <= 1);
        } else {
            lemma_terminal_stays(Stage::Init, events, k + 1, j);
        }
    }
}

/// A failed push prevents the pull request: when the push step errors, no
/// stage the run ever visits asks for the open-pull-request action, and
/// every later stage is `Failed`.
pub proof fn lemma_push_failure_prevents_pr(events: Seq<Event>, k: int)
    requires
        0 <= k < events.len(),
        state_at(Stage::Init, events, k) == Stage::Committed,
        events[k] == Event::Errored,
    ensures
        forall|j: int| 0 <= j ==> action_of(#[trigger] state_at(Stage::Init, events, j)) != Some(
            Action::OpenPullRequest,
        ),
        forall|j: int| j > k ==> #[trigger] state_at(Stage::Init, events, j) == Stage::Failed,
{
    assert(state_at(Stage::Init, events, k + 1) == Stage::Failed);
    assert forall|j: int| j > k implies #[trigger] state_at(Stage::Init, events, j)
        == Stage::Failed by {
        lemma_terminal_stays(Stage::Init, events, k + 1, j);
    }
    assert forall|j: int| 0 <= j implies action_of(
        #[trigger] state_at(Stage::Init, events, j),
    ) != Some(Action::OpenPullRequest) by {
        if j <= k {
            lemma_rank_monotone(Stage::Init, events, j, k);
            assert(rank(state_at(Stage::Init, events, j)) <= 4);
        } else {
            lemma_terminal_stays(Stage::Init, events, k + 1, j);
        }
    }
}

/// A run whose eight steps all succeed ends at `Done`: the full path from
/// configuration to the announced pull request.
pub proof fn lemma_all_successes_reach_done(events: Seq<Event>)
    requires
        events.len() >= 8,
        forall|i: int| 0 <= i < 8 ==> events[i] == Event::Succeeded,
    ensures
        state_at(Stage::Init, events, 8) == Stage::Done,
{
    assert(events[0] == Event::Succeeded && events[1] == Event::Succeeded && events[2]
        == Event::Succeeded && events[3] == Event::Succeeded && events[4] == Event::Succeeded
        && events[5] == Event::Succeeded && events[6] == Event::Succeeded && events[7]
        == Event::Succeeded);
    assert(state_at(Stage::Init, events, 0) == Stage::Init);
    assert(state_at(Stage::Init, events, 1) == Stage::Configuring);
    assert(state_at(Stage::Init, events, 2) == Stage::Confirmed);
    assert(state_at(Stage::Init, events, 3) == Stage::BranchCreated);
    assert(state_at(Stage::Init, events, 4) == Stage::Committed);
    assert(state_at(Stage::Init, events, 5) == Stage::Pushed);
    assert(state_at(Stage::Init, events, 6) == Stage::PrCreated);
    assert(state_at(Stage::Init, events, 7) == Stage::Assigned);
    assert(state_at(Stage::Init, events, 8) == Stage::Done);
}

/// The tool's subcommands.
#[derive(Clone, Copy, PartialEq, Eq, Structural, Debug)]
pub enum Cmd {
    Create,
    Config,
    Version,
    Update,
    Help,
}

/// Which subcommand an argument names; anything unrecognized asks for the
/// usage text.
pub open spec fn command_spec(a: Seq<char>) -> Cmd {
    if a == "create"@ || a == "pr"@ || a == "-c"@ {
        Cmd::Create
    } else if a == "config"@ {
        Cmd::Config
    } else if a == "version"@ || a == "-v"@ {
        Cmd::Version
    } else if a == "update"@ || a == "-up"@ {
        Cmd::Update
    } else {
        Cmd::Help
    }
}

/// Maps the command-line argument to a subcommand, exactly as
/// [`command_spec`] says.
pub fn parse_command(arg: &str) -> (r: Cmd)
    ensures
        r == command_spec(arg@),
{
    if str_eq(arg, "create") || str_eq(arg, "pr") || str_eq(arg, "-c") {
        Cmd::Create
    } else if str_eq(arg, "config") {
        Cmd::Config
    } else if str_eq(arg, "version") || str_eq(arg, "-v") {
        Cmd::Version
    } else if str_eq(arg, "update") || str_eq(arg, "-up") {
        Cmd::Update
    } else {
        Cmd::Help
    }
}

} // verus!
