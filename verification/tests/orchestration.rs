use ghl::api::strip_quotes;
use ghl::flow::{advance, next_action, parse_command, Action, Cmd, Event, Stage};

fn is_git_or_api(a: Action) -> bool {
    matches!(
        a,
        Action::CreateBranch
            | Action::CreateEmptyCommit
            | Action::Push
            | Action::OpenPullRequest
            | Action::AssignSelf
    )
}

fn run_machine(confirm_answer: bool, fail_on: Option<Action>) -> (Vec<Action>, Stage) {
    let mut stage = Stage::Init;
    let mut performed: Vec<Action> = Vec::new();
    let mut steps: usize = 0;
    while let Some(action) = next_action(stage) {
        assert!(steps < 20, "the machine must terminate");
        steps += 1;
        performed.push(action);
        let event = if fail_on == Some(action) {
            Event::Errored
        } else if action == Action::AskConfirm && !confirm_answer {
            Event::Declined
        } else {
            Event::Succeeded
        };
        stage = advance(stage, event);
    }
    (performed, stage)
}

#[test]
fn declined_confirmation_issues_no_git_or_api_call() {
    let (performed, end) = run_machine(false, None);
    let external = performed.iter().filter(|a| is_git_or_api(**a)).count();
    assert_eq!(external, 0);
    assert_eq!(end, Stage::Aborted);
    assert_eq!(
        performed,
        vec![Action::BuildConfig, Action::AskConfirm]
    );
}

#[test]
fn failed_push_never_opens_a_pull_request() {
    let (performed, end) = run_machine(true, Some(Action::Push));
    assert!(!performed.contains(&Action::OpenPullRequest));
    assert!(!performed.contains(&Action::AssignSelf));
    assert_eq!(end, Stage::Failed);
    // The branch and the commit may already exist: fail fast, no rollback.
    assert!(performed.contains(&Action::CreateBranch));
    assert!(performed.contains(&Action::CreateEmptyCommit));
    assert_eq!(*performed.last().unwrap(), Action::Push);
}

#[test]
fn failed_branch_creation_stops_everything_after() {
    let (performed, end) = run_machine(true, Some(Action::CreateBranch));
    assert_eq!(end, Stage::Failed);
    assert_eq!(
        performed,
        vec![Action::BuildConfig, Action::AskConfirm, Action::CreateBranch]
    );
}

#[test]
fn successful_run_walks_all_steps_in_order() {
    let (performed, end) = run_machine(true, None);
    assert_eq!(end, Stage::Done);
    assert_eq!(
        performed,
        vec![
            Action::BuildConfig,
            Action::AskConfirm,
            Action::CreateBranch,
            Action::CreateEmptyCommit,
            Action::Push,
            Action::OpenPullRequest,
            Action::AssignSelf,
            Action::Announce,
        ]
    );
}

#[test]
fn successful_run_reports_the_returned_url_with_quotes_stripped() {
    // The create-pull-request step hands back the raw JSON string value,
    // quotes included; the announced URL is that value with quote characters
    // stripped and nothing else changed.
    let returned = "\"https://github.com/acme/widgets/pull/77\"";
    let mut stage = Stage::Init;
    let mut announced: Option<String> = None;
    while let Some(action) = next_action(stage) {
        if action == Action::Announce {
            announced = Some(strip_quotes(returned));
        }
        stage = advance(stage, Event::Succeeded);
    }
    assert_eq!(stage, Stage::Done);
    assert_eq!(
        announced.unwrap(),
        "https://github.com/acme/widgets/pull/77"
    );
}

#[test]
fn terminal_stages_absorb_events() {
    for stage in [Stage::Done, Stage::Aborted, Stage::Failed] {
        assert_eq!(next_action(stage), None);
        assert_eq!(advance(stage, Event::Succeeded), stage);
        assert_eq!(advance(stage, Event::Errored), stage);
        assert_eq!(advance(stage, Event::Declined), stage);
    }
}

#[test]
fn any_errored_step_fails_the_run() {
    assert_eq!(advance(Stage::Init, Event::Errored), Stage::Failed);
    assert_eq!(advance(Stage::Pushed, Event::Errored), Stage::Failed);
    assert_eq!(advance(Stage::Assigned, Event::Errored), Stage::Failed);
}

#[test]
fn subcommands_and_aliases_parse() {
    assert_eq!(parse_command("create"), Cmd::Create);
    assert_eq!(parse_command("pr"), Cmd::Create);
    assert_eq!(parse_command("-c"), Cmd::Create);
    assert_eq!(parse_command("config"), Cmd::Config);
    assert_eq!(parse_command("version"), Cmd::Version);
    assert_eq!(parse_command("-v"), Cmd::Version);
    assert_eq!(parse_command("update"), Cmd::Update);
    assert_eq!(parse_command("-up"), Cmd::Update);
    assert_eq!(parse_command("help"), Cmd::Help);
    assert_eq!(parse_command(""), Cmd::Help);
    assert_eq!(parse_command("unknown"), Cmd::Help);
}
