use ghl::builder::{
    commit_types, credential_paths, derive_branch_and_title, derive_commit_message,
    desc_store_decision, not_empty, token_store_decision, CommitType, Config,
};

#[test]
fn ticket_slug_gets_uppercased_suffix() {
    let (branch, title) = derive_branch_and_title("eng-123-foo", CommitType::Feat, "feat: x");
    assert_eq!(branch, "feat/eng-123-foo");
    assert_eq!(title, "feat: x [ENG-123]");
}

#[test]
fn non_numeric_second_segment_leaves_title_unchanged() {
    let (branch, title) = derive_branch_and_title("no-ticket-here", CommitType::Fix, "fix: y");
    assert_eq!(branch, "fix/no-ticket-here");
    assert_eq!(title, "fix: y");
}

#[test]
fn single_segment_slug_gets_no_suffix() {
    let (branch, title) = derive_branch_and_title("single", CommitType::Chore, "chore: z");
    assert_eq!(branch, "chore/single");
    assert_eq!(title, "chore: z");
}

#[test]
fn uppercasing_applies_to_first_segment_only() {
    let (branch, title) = derive_branch_and_title("aBc-42-foo", CommitType::Feat, "feat: x");
    assert_eq!(branch, "feat/aBc-42-foo");
    assert_eq!(title, "feat: x [ABC-42]");
}

#[test]
fn empty_second_segment_gets_no_suffix() {
    let (_, title) = derive_branch_and_title("a--b", CommitType::Feat, "feat: x");
    assert_eq!(title, "feat: x");
}

#[test]
fn overlong_number_gets_no_suffix() {
    let (_, title) =
        derive_branch_and_title("a-99999999999999999999-b", CommitType::Feat, "feat: x");
    assert_eq!(title, "feat: x");
}

#[test]
fn plus_signed_number_counts_as_numeric() {
    // `str::parse::<u32>` accepts a leading plus sign, so the rule does too.
    let (_, title) = derive_branch_and_title("a-+42-b", CommitType::Feat, "feat: x");
    assert_eq!(title, "feat: x [A-+42]");
}

#[test]
fn leading_zeros_still_count_as_numeric() {
    let (_, title) =
        derive_branch_and_title("t-0000000000000042-x", CommitType::Feat, "feat: x");
    assert_eq!(title, "feat: x [T-0000000000000042]");
}

#[test]
fn number_at_u32_boundary() {
    let (_, title) = derive_branch_and_title("t-4294967295", CommitType::Feat, "feat: x");
    assert_eq!(title, "feat: x [T-4294967295]");
    let (_, title) = derive_branch_and_title("t-4294967296", CommitType::Feat, "feat: x");
    assert_eq!(title, "feat: x");
}

#[test]
fn scope_is_trimmed_before_formatting() {
    let msg = derive_commit_message(CommitType::Feat, Some("  ui  "), "add button");
    assert_eq!(msg, "feat(ui): add button");
}

#[test]
fn blank_scope_behaves_as_absent() {
    let with_blank = derive_commit_message(CommitType::Fix, Some("   \t"), "bug");
    let without = derive_commit_message(CommitType::Fix, None, "bug");
    assert_eq!(with_blank, "fix: bug");
    assert_eq!(with_blank, without);
}

#[test]
fn name_is_trimmed() {
    let msg = derive_commit_message(CommitType::Docs, None, "  readme  ");
    assert_eq!(msg, "docs: readme");
}

#[test]
fn config_assembles_branch_and_title_together() {
    let config = Config::assemble("eng-7-x", CommitType::Refactor, Some("core"), "split modules");
    assert_eq!(config.branch, "refactor/eng-7-x");
    assert_eq!(config.pr_name, "refactor(core): split modules [ENG-7]");
    assert_eq!(config.commit_type, CommitType::Refactor);
}

#[test]
fn eleven_commit_types_in_menu_order() {
    let types = commit_types();
    assert_eq!(types.len(), 11);
    assert_eq!(types[0], CommitType::Feat);
    assert_eq!(types[10], CommitType::Revert);
    let keywords: Vec<&str> = types.iter().map(|t| t.keyword()).collect();
    assert_eq!(
        keywords,
        vec![
            "feat", "fix", "change", "refactor", "chore", "test", "docs", "ci", "remove", "perf",
            "revert"
        ]
    );
}

#[test]
fn labels_start_with_keyword() {
    for t in commit_types() {
        assert!(t.label().starts_with(t.keyword()));
    }
    assert_eq!(CommitType::Feat.label(), "feat        Add a new feature");
}

#[test]
fn required_input_must_be_non_empty() {
    assert!(!not_empty(""));
    assert!(not_empty(" "));
    assert!(not_empty("x"));
}

#[test]
fn confirm_summary_names_branch_and_title() {
    let config = Config::assemble("eng-123-foo", CommitType::Feat, None, "x");
    let summary = config.confirm_summary();
    assert_eq!(
        summary,
        "This will:\n1. Create a branch called feat/eng-123-foo.\n2. Create an empty commit.\n3. Push to the remote repository.\n4. Create a pull request named feat: x [ENG-123].\n5. Assign you the pull request."
    );
}

#[test]
fn credential_paths_under_home() {
    let (dir, token, desc) = credential_paths("/home/me");
    assert_eq!(dir, "/home/me/.ghl");
    assert_eq!(token, "/home/me/.ghl/token");
    assert_eq!(desc, "/home/me/.ghl/desc.md");
}

#[test]
fn token_prompt_skip_and_trim() {
    assert_eq!(token_store_decision(None), None);
    assert_eq!(token_store_decision(Some(String::new())), None);
    assert_eq!(
        token_store_decision(Some("  tok-123  ".to_string())),
        Some("tok-123".to_string())
    );
}

#[test]
fn description_prompt_skips_empty_and_unchanged() {
    assert_eq!(desc_store_decision("old", None), None);
    assert_eq!(desc_store_decision("old", Some(String::new())), None);
    assert_eq!(desc_store_decision("old", Some("old".to_string())), None);
    assert_eq!(
        desc_store_decision("old", Some("new".to_string())),
        Some("new".to_string())
    );
}
