use ghl::gitmeta::{
    command_verdict, default_branch_from_remote, marker_value, repo_slug_from_git_config,
    repo_slug_of_url, GitMetaError,
};

#[test]
fn https_and_ssh_urls_yield_the_same_slug() {
    assert_eq!(
        repo_slug_of_url("https://github.com/acme/widgets.git"),
        Some("acme/widgets".to_string())
    );
    assert_eq!(
        repo_slug_of_url("git@github.com:acme/widgets.git"),
        Some("acme/widgets".to_string())
    );
}

#[test]
fn url_without_dot_git_suffix_keeps_slug() {
    assert_eq!(
        repo_slug_of_url("https://github.com/acme/widgets"),
        Some("acme/widgets".to_string())
    );
}

#[test]
fn only_trailing_dot_git_is_stripped() {
    assert_eq!(
        repo_slug_of_url("https://github.com/acme/my.git.tools.git"),
        Some("acme/my.git.tools".to_string())
    );
}

#[test]
fn unknown_url_shape_is_rejected() {
    assert_eq!(repo_slug_of_url("https://gitlab.com/acme/widgets.git"), None);
    assert_eq!(repo_slug_of_url("acme/widgets"), None);
}

#[test]
fn repo_slug_read_from_git_config_text() {
    let text = "[core]\n\trepositoryformatversion = 0\n[remote \"origin\"]\n\turl = https://github.com/acme/widgets.git\n\tfetch = +refs/heads/*:refs/remotes/origin/*\n";
    assert_eq!(
        repo_slug_from_git_config(text),
        Ok("acme/widgets".to_string())
    );
    let ssh = "[remote \"origin\"]\n\turl = git@github.com:acme/widgets.git\n";
    assert_eq!(repo_slug_from_git_config(ssh), Ok("acme/widgets".to_string()));
}

#[test]
fn unsupported_remote_url_is_an_error() {
    let text = "[remote \"origin\"]\n\turl = ssh://example.com/acme/widgets.git\n";
    assert_eq!(
        repo_slug_from_git_config(text),
        Err(GitMetaError::UnsupportedUrl)
    );
}

#[test]
fn missing_remote_url_is_an_error() {
    let text = "[core]\n\tbare = false\n";
    assert_eq!(
        repo_slug_from_git_config(text),
        Err(GitMetaError::RepoNotFound)
    );
}

#[test]
fn default_branch_read_from_remote_output() {
    let text = "* remote origin\n  Fetch URL: git@github.com:acme/widgets.git\n  HEAD branch: main\n  Remote branches:\n";
    assert_eq!(default_branch_from_remote(text), Ok("main".to_string()));
}

#[test]
fn missing_head_branch_line_is_an_error() {
    let text = "* remote origin\n  Fetch URL: git@github.com:acme/widgets.git\n";
    assert_eq!(
        default_branch_from_remote(text),
        Err(GitMetaError::DefaultBranchNotFound)
    );
}

#[test]
fn marker_value_takes_first_matching_line() {
    let text = "a\nkey: one\nkey: two\n";
    assert_eq!(marker_value(text, "key: "), Some("one".to_string()));
}

#[test]
fn marker_value_handles_crlf_lines() {
    let text = "a\r\nHEAD branch: main\r\nrest\r\n";
    assert_eq!(marker_value(text, "HEAD branch: "), Some("main".to_string()));
}

#[test]
fn marker_value_stops_at_second_occurrence() {
    // The value is the segment between the first occurrence and the next,
    // as splitting the line on the pattern yields it.
    let text = "url = a url = b\n";
    assert_eq!(marker_value(text, "url = "), Some("a ".to_string()));
}

#[test]
fn marker_value_absent() {
    assert_eq!(marker_value("nothing here\n", "url = "), None);
    assert_eq!(marker_value("", "url = "), None);
}

#[test]
fn error_messages_describe_each_failure() {
    assert_eq!(
        GitMetaError::RepoNotFound.message(),
        "Could not find the repository."
    );
    assert_eq!(
        GitMetaError::UnsupportedUrl.message(),
        "Unsupported repo URL format."
    );
    assert_eq!(
        GitMetaError::DefaultBranchNotFound.message(),
        "Could not find the default branch."
    );
}

#[test]
fn command_verdict_splits_on_success() {
    assert_eq!(
        command_verdict(true, "out".to_string(), "err".to_string()),
        Ok("out".to_string())
    );
    assert_eq!(
        command_verdict(false, "out".to_string(), "err".to_string()),
        Err("err".to_string())
    );
}
