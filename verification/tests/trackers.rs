use workspace_orchestrator::decimal::{decimal_string, parse_i64};
use workspace_orchestrator::github_issues::{
    GitHubIssuesError, GitHubIssuesService, GitHubLabel, GitHubMilestone, GitHubUser,
    ListIssuesParams,
};
use workspace_orchestrator::gitlab_issues::{
    GitLabIssuesError, GitLabIssuesService, GitLabMilestone, GitLabUser, ListGitLabIssuesParams,
};
use workspace_orchestrator::issue_import::{
    github_import_description, gitlab_import_description, imported_github_issue,
    imported_gitlab_issue, is_new_issue, read_imported_name, write_import,
};
use workspace_orchestrator::issue_requests::{
    first_given, number_or, text_or, GitHubConfigStatus, GitLabConfigStatus, ImportGitLabIssueRequest,
    ImportIssueRequest, ImportVortexIssueRequest, ListGitLabIssuesQuery, ListIssuesQuery,
    ListVortexIssuesQuery, VortexConfigStatus,
};
use workspace_orchestrator::text::{
    contains_char, contains_text, find_after_last_char, find_char, matches_at, starts_with,
    trim_end_char,
};
use workspace_orchestrator::vortex_issues::{
    attachments_markdown, extract_vortex_issue_id_from_description, imported_vortex_issue_key,
    is_vortex_imported_task, vortex_import_description, ImportedImage, ListVortexIssuesParams,
    VortexAttachment, VortexComment, VortexUser,
};

fn some(text: &str) -> Option<String> {
    Some(text.to_string())
}

#[test]
fn imported_task_is_told_by_the_start_of_its_description() {
    assert!(is_vortex_imported_task("Imported from Vortex Issue #VX-12\nhttps://vortextask.com/issues/abc"));
    assert!(is_vortex_imported_task("Imported from Vortex Issue #"));
    assert!(!is_vortex_imported_task("imported from Vortex Issue #1"));
    assert!(!is_vortex_imported_task(" Imported from Vortex Issue #1"));
    assert!(!is_vortex_imported_task("Imported from GitHub Issue #1"));
    assert!(!is_vortex_imported_task("Imported from Vortex"));
    assert!(!is_vortex_imported_task(""));
}

#[test]
fn issue_id_is_the_last_part_of_the_link_on_the_second_line() {
    assert_eq!(
        extract_vortex_issue_id_from_description(
            "Imported from Vortex Issue #VX-12\nhttps://vortextask.com/issues/abc-123\n\nBody text"
        ),
        some("abc-123")
    );
    assert_eq!(
        extract_vortex_issue_id_from_description(
            "Imported from Vortex Issue #VX-12\nhttps://vortextask.com/issues/abc?tab=1&x=/y"
        ),
        some("y")
    );
    assert_eq!(
        extract_vortex_issue_id_from_description(
            "Imported from Vortex Issue #1\nhttps://vortextask.com/issues/abc?tab=1"
        ),
        some("abc")
    );
    assert_eq!(
        extract_vortex_issue_id_from_description("Imported from Vortex Issue #1\n  plain-id  \nrest"),
        some("plain-id")
    );
    assert_eq!(
        extract_vortex_issue_id_from_description("Imported from Vortex Issue #1\r\nhttps://v/i/77\r\nrest"),
        some("77")
    );
    assert_eq!(
        extract_vortex_issue_id_from_description("Imported from Vortex Issue #1\nhttps://v/i/88\r"),
        some("88")
    );
}

#[test]
fn issue_id_is_missing_where_the_description_has_none() {
    for description in [
        "Some other task\nhttps://vortextask.com/issues/abc",
        "Imported from Vortex Issue #1",
        "Imported from Vortex Issue #1\n",
        "Imported from Vortex Issue #1\n\nhttps://vortextask.com/issues/abc",
        "Imported from Vortex Issue #1\nhttps://vortextask.com/issues/",
        "Imported from Vortex Issue #1\nhttps://vortextask.com/issues/?tab=1",
        "Imported from Vortex Issue #1\nhttps://vortextask.com/issues/   \nrest",
        "",
    ] {
        assert_eq!(extract_vortex_issue_id_from_description(description), None, "{:?}", description);
    }
}

#[test]
fn default_listings() {
    assert_eq!(
        ListVortexIssuesParams::default(),
        ListVortexIssuesParams { status: some("Open"), priority: None, labels: None, page: Some(1), limit: Some(5) }
    );
    assert_eq!(
        ListIssuesParams::default(),
        ListIssuesParams {
            state: some("open"),
            labels: None,
            sort: some("updated"),
            direction: some("desc"),
            per_page: Some(30),
            page: Some(1),
        }
    );
    assert_eq!(
        ListGitLabIssuesParams::default(),
        ListGitLabIssuesParams {
            state: some("opened"),
            labels: None,
            sort: some("desc"),
            order_by: some("updated_at"),
            per_page: Some(30),
            page: Some(1),
        }
    );
}

#[test]
fn github_repository_is_read_from_short_form_and_addresses() {
    let ok = |owner: &str, repo: &str| Ok((owner.to_string(), repo.to_string()));
    assert_eq!(GitHubIssuesService::parse_repo_url("octo/cat"), ok("octo", "cat"));
    assert_eq!(GitHubIssuesService::parse_repo_url("  octo/cat \n"), ok("octo", "cat"));
    assert_eq!(GitHubIssuesService::parse_repo_url("octo/"), ok("octo", ""));
    assert_eq!(GitHubIssuesService::parse_repo_url("https://github.com/octo/cat"), ok("octo", "cat"));
    assert_eq!(GitHubIssuesService::parse_repo_url("https://github.com/octo/cat.git"), ok("octo", "cat"));
    assert_eq!(GitHubIssuesService::parse_repo_url("https://github.com/octo/cat/issues/4"), ok("octo", "cat"));
    assert_eq!(GitHubIssuesService::parse_repo_url("git@github.com:octo/cat.git"), ok("octo", "cat"));
    assert_eq!(GitHubIssuesService::parse_repo_url("github.com/octo/cat"), ok("octo", "cat"));
}

#[test]
fn github_address_without_repository_is_refused() {
    for address in ["", "octocat", "https://example.org/octo/cat", "a/b/c", "https://github.com/octo", " nothing here "] {
        assert_eq!(
            GitHubIssuesService::parse_repo_url(address),
            Err(GitHubIssuesError::InvalidRepoUrl(address.trim().to_string())),
            "{:?}",
            address
        );
    }
}

#[test]
fn pull_requests_are_told_by_their_address() {
    assert!(GitHubIssuesService::is_pull_request_url("https://github.com/octo/cat/pull/7"));
    assert!(!GitHubIssuesService::is_pull_request_url("https://github.com/octo/cat/issues/7"));
    assert!(!GitHubIssuesService::is_pull_request_url("https://github.com/octo/cat/pull"));
    assert!(!GitHubIssuesService::is_pull_request_url(""));
}

#[test]
fn gitlab_project_is_read_and_encoded() {
    let ok = |path: &str| Ok(path.to_string());
    assert_eq!(GitLabIssuesService::parse_project_url("group/project"), ok("group%2Fproject"));
    assert_eq!(GitLabIssuesService::parse_project_url(" group/sub/project "), ok("group%2Fsub%2Fproject"));
    assert_eq!(GitLabIssuesService::parse_project_url("https://gitlab.com/group/project"), ok("group%2Fproject"));
    assert_eq!(GitLabIssuesService::parse_project_url("https://gitlab.com/group/project.git"), ok("group%2Fproject"));
    assert_eq!(GitLabIssuesService::parse_project_url("https://gitlab.com/group/project/"), ok("group%2Fproject"));
    assert_eq!(GitLabIssuesService::parse_project_url("git@gitlab.com:group/sub/project.git"), ok("group%2Fsub%2Fproject"));
    assert_eq!(GitLabIssuesService::parse_project_url("my group/pro-ject_1.x~"), ok("my%20group%2Fpro-ject_1.x~"));
}

#[test]
fn gitlab_address_without_project_is_refused() {
    for address in ["", "project", "https://example.org/group/project", "user@host/path"] {
        assert_eq!(
            GitLabIssuesService::parse_project_url(address),
            Err(GitLabIssuesError::InvalidProjectUrl(address.trim().to_string())),
            "{:?}",
            address
        );
    }
}

#[test]
fn queries_fall_back_to_the_usual_listing() {
    let empty = ListIssuesQuery { state: None, labels: None, page: None, per_page: None };
    assert_eq!(
        empty.into_params(some("bug")),
        ListIssuesParams {
            state: some("open"),
            labels: some("bug"),
            sort: some("updated"),
            direction: some("desc"),
            per_page: Some(30),
            page: Some(1),
        }
    );
    let full = ListIssuesQuery { state: some("closed"), labels: some("ui"), page: Some(3), per_page: Some(10) };
    assert_eq!(
        full.into_params(some("bug")),
        ListIssuesParams {
            state: some("closed"),
            labels: some("ui"),
            sort: some("updated"),
            direction: some("desc"),
            per_page: Some(10),
            page: Some(3),
        }
    );
    let gitlab = ListGitLabIssuesQuery { state: None, labels: None, page: Some(2), per_page: None };
    assert_eq!(
        gitlab.into_params(None),
        ListGitLabIssuesParams {
            state: some("opened"),
            labels: None,
            sort: some("desc"),
            order_by: some("updated_at"),
            per_page: Some(30),
            page: Some(2),
        }
    );
    let vortex = ListVortexIssuesQuery { status: None, priority: some("high"), page: None, limit: None };
    assert_eq!(
        vortex.into_params(some("agent")),
        ListVortexIssuesParams {
            status: some("Open"),
            priority: some("high"),
            labels: some("agent"),
            page: Some(1),
            limit: Some(50),
        }
    );
    assert_eq!(text_or(None, "x"), some("x"));
    assert_eq!(text_or(some("y"), "x"), some("y"));
    assert_eq!(number_or(None, 4), Some(4));
    assert_eq!(number_or(Some(9), 4), Some(9));
    assert_eq!(first_given(None, some("b")), some("b"));
    assert_eq!(first_given(some("a"), some("b")), some("a"));
    assert_eq!(first_given(None, None), None);
}

#[test]
fn config_status_tells_what_is_set() {
    assert_eq!(
        GitHubConfigStatus::of_settings(some("octo/cat"), false, true, None),
        GitHubConfigStatus {
            has_repo_url: true,
            has_token: false,
            repo_url: some("octo/cat"),
            sync_enabled: true,
            sync_labels: None,
        }
    );
    assert_eq!(
        GitLabConfigStatus::of_settings(None, true, false, some("bug")),
        GitLabConfigStatus {
            has_project_url: false,
            has_token: true,
            project_url: None,
            sync_enabled: false,
            sync_labels: some("bug"),
        }
    );
    assert_eq!(
        VortexConfigStatus::of_settings(some("p1"), true, true, None),
        VortexConfigStatus {
            has_project_id: true,
            has_token: true,
            project_id: some("p1"),
            sync_enabled: true,
            sync_labels: None,
        }
    );
}

#[test]
fn tracker_values_hold_what_they_are_given() {
    let user = GitHubUser { login: "octo".to_string(), avatar_url: "a".to_string() };
    assert_eq!(user.clone(), user);
    let label = GitHubLabel { name: "bug".to_string(), color: "f00".to_string() };
    assert_eq!(label.clone(), label);
    let milestone = GitHubMilestone { title: "v1".to_string(), number: 1 };
    assert_eq!(milestone.clone(), milestone);
    let gitlab_user = GitLabUser { username: "octo".to_string(), avatar_url: None };
    assert_eq!(gitlab_user.clone(), gitlab_user);
    let gitlab_milestone = GitLabMilestone { title: "v1".to_string(), iid: 1 };
    assert_eq!(gitlab_milestone.clone(), gitlab_milestone);
    let vortex_user = VortexUser { id: "1".to_string(), name: "n".to_string(), email: "e".to_string(), avatar_url: None };
    assert_eq!(vortex_user.clone(), vortex_user);
    let attachment = VortexAttachment {
        id: "1".to_string(),
        filename: "f.png".to_string(),
        download_url: None,
        mime_type: None,
        is_image: true,
    };
    assert_eq!(attachment.clone(), attachment);
    let comment = VortexComment {
        id: "1".to_string(),
        issue_id: "2".to_string(),
        user_id: "3".to_string(),
        content: "c".to_string(),
        created_at: "".to_string(),
    };
    assert_eq!(comment.clone(), comment);
    assert_eq!(ImportIssueRequest { issue_number: 4, auto_start: None }.issue_number, 4);
    assert_eq!(ImportGitLabIssueRequest { issue_iid: 5, auto_start: Some(true) }.issue_iid, 5);
    assert_eq!(ImportVortexIssueRequest { issue_id: "x".to_string() }.issue_id, "x");
}

#[test]
fn text_helpers_find_what_they_look_for() {
    assert!(starts_with("hello", "he"));
    assert!(starts_with("hello", ""));
    assert!(!starts_with("he", "hello"));
    assert!(!starts_with("hello", "el"));
    assert_eq!(find_char("a/b/c", '/', 0), 1);
    assert_eq!(find_char("a/b/c", '/', 2), 3);
    assert_eq!(find_char("a/b/c", '?', 0), 5);
    assert_eq!(find_char("\u{e9}/x", '/', 0), 1);
    assert_eq!(find_after_last_char("a/b/c", '/'), 4);
    assert_eq!(find_after_last_char("abc", '/'), 0);
    assert_eq!(find_after_last_char("abc/", '/'), 4);
    assert!(matches_at("a://b", "://", 1));
    assert!(!matches_at("a://b", "://", 2));
    assert!(!matches_at("a:/", "://", 1));
    assert!(contains_text("a://b", "://"));
    assert!(contains_text("abc", ""));
    assert!(!contains_text("a:/b", "://"));
    assert!(contains_char("a@b", '@'));
    assert!(!contains_char("ab", '@'));
    assert_eq!(trim_end_char("a/b//", '/'), "a/b");
    assert_eq!(trim_end_char("///", '/'), "");
    assert_eq!(trim_end_char("a", '/'), "a");
}

#[test]
fn numbers_are_written_in_decimal() {
    assert_eq!(decimal_string(0), "0");
    assert_eq!(decimal_string(7), "7");
    assert_eq!(decimal_string(10), "10");
    assert_eq!(decimal_string(1234567890), "1234567890");
    assert_eq!(decimal_string(-1), "-1");
    assert_eq!(decimal_string(-405), "-405");
    assert_eq!(decimal_string(i64::MAX), "9223372036854775807");
    assert_eq!(decimal_string(i64::MIN), "-9223372036854775808");
}

#[test]
fn numbers_are_read_like_the_standard_library_reads_them() {
    for text in [
        "0", "7", "42", "007", "+5", "-5", "-0", "+0", "9223372036854775807",
        "9223372036854775808", "-9223372036854775808", "-9223372036854775809",
        "99999999999999999999999999999999999999999", "", "+", "-", "--1", "+-1", "1+", "12a",
        "a12", " 12", "12 ", "1 2", "1_000", "\u{661}\u{662}", "12\r", "0x10", "1.5",
    ] {
        assert_eq!(parse_i64(text), text.parse::<i64>().ok(), "{:?}", text);
    }
    assert_eq!(parse_i64("42"), Some(42));
    assert_eq!(parse_i64("-9223372036854775808"), Some(i64::MIN));
    assert_eq!(parse_i64("9223372036854775808"), None);
}

#[test]
fn written_numbers_are_read_back() {
    for n in [0, 1, -1, 9, 10, 99, 100, -100, 123456789, i64::MAX, i64::MIN, i64::MAX - 1, i64::MIN + 1] {
        assert_eq!(decimal_string(n), n.to_string());
        assert_eq!(parse_i64(&decimal_string(n)), Some(n));
    }
}

#[test]
fn github_import_is_described_and_known_again() {
    let description = github_import_description(42, "https://github.com/octo/cat/issues/42", Some("It breaks."));
    assert_eq!(description, "Imported from GitHub Issue #42\nhttps://github.com/octo/cat/issues/42\n\nIt breaks.");
    assert_eq!(imported_github_issue(&description), Some(42));
    assert_eq!(imported_gitlab_issue(&description), None);
    let empty = github_import_description(-3, "u", None);
    assert_eq!(empty, "Imported from GitHub Issue #-3\nu\n\n");
    assert_eq!(imported_github_issue(&empty), Some(-3));
}

#[test]
fn gitlab_import_is_described_and_known_again() {
    let description = gitlab_import_description(7, "https://gitlab.com/g/p/-/issues/7", Some("First line\nsecond"));
    assert_eq!(description, "Imported from GitLab Issue #7\nhttps://gitlab.com/g/p/-/issues/7\n\nFirst line\nsecond");
    assert_eq!(imported_gitlab_issue(&description), Some(7));
    assert_eq!(imported_github_issue(&description), None);
}

#[test]
fn issue_number_is_read_from_the_first_line_only() {
    assert_eq!(imported_github_issue("Imported from GitHub Issue #12"), Some(12));
    assert_eq!(imported_github_issue("Imported from GitHub Issue #12\r\nrest"), Some(12));
    assert_eq!(imported_github_issue("Imported from GitHub Issue #12\r"), None);
    assert_eq!(imported_github_issue("Imported from GitHub Issue #12 \nrest"), None);
    assert_eq!(imported_github_issue("Imported from GitHub Issue #\n12"), None);
    assert_eq!(imported_github_issue("Imported from GitHub Issue #abc\n"), None);
    assert_eq!(imported_github_issue("Imported from GitHub Issue #99999999999999999999\n"), None);
    assert_eq!(imported_github_issue("Some task\nImported from GitHub Issue #12"), None);
    assert_eq!(imported_github_issue(""), None);
    assert_eq!(read_imported_name("Marker name\nrest", "Marker "), Some("name".to_string()));
    assert_eq!(read_imported_name("Marker \r\nrest", "Marker "), Some("".to_string()));
    assert_eq!(read_imported_name("Other", "Marker "), None);
    assert_eq!(write_import("M#", "n", "a", "b"), "M#n\na\n\nb");
}

#[test]
fn only_issues_not_yet_imported_are_new() {
    assert!(is_new_issue(&vec![1, 2, 3], 4));
    assert!(!is_new_issue(&vec![1, 2, 3], 2));
    assert!(is_new_issue(&vec![], 0));
}

#[test]
fn vortex_import_is_described_with_its_images() {
    let images = vec![
        ImportedImage { id: 1, file_path: ".images/a.png".to_string(), original_name: "a.png".to_string() },
        ImportedImage { id: 2, file_path: ".images/b.png".to_string(), original_name: "b.png".to_string() },
    ];
    assert_eq!(attachments_markdown(&vec![]), "");
    assert_eq!(
        attachments_markdown(&images[..1].to_vec()),
        "\n\n## Attachments\n\n![a.png](.images/a.png)"
    );
    assert_eq!(
        attachments_markdown(&images),
        "\n\n## Attachments\n\n![a.png](.images/a.png)\n\n![b.png](.images/b.png)"
    );
    let description = vortex_import_description("VX-12", "abc-123", "Body", &images);
    assert_eq!(
        description,
        "Imported from Vortex Issue #VX-12\nhttps://vortextask.com/issues/abc-123\n\nBody\
         \n\n## Attachments\n\n![a.png](.images/a.png)\n\n![b.png](.images/b.png)"
    );
    assert_eq!(imported_vortex_issue_key(&description), some("VX-12"));
    assert_eq!(extract_vortex_issue_id_from_description(&description), some("abc-123"));
    assert!(is_vortex_imported_task(&description));
    let plain = vortex_import_description("K", "id", "", &vec![]);
    assert_eq!(plain, "Imported from Vortex Issue #K\nhttps://vortextask.com/issues/id\n\n");
    assert_eq!(imported_vortex_issue_key("not imported"), None);
}

#[test]
fn only_images_with_an_address_are_imported() {
    let attachment = |is_image: bool, url: Option<&str>| VortexAttachment {
        id: "1".to_string(),
        filename: "f".to_string(),
        download_url: url.map(|u| u.to_string()),
        mime_type: None,
        is_image,
    };
    assert_eq!(attachment(true, Some("/files/1")).importable_url(), some("/files/1"));
    assert_eq!(attachment(false, Some("/files/1")).importable_url(), None);
    assert_eq!(attachment(true, None).importable_url(), None);
    assert_eq!(VortexAttachment::full_address("/files/1"), "https://api.vortextask.com/files/1");
    assert_eq!(VortexAttachment::full_address("https://cdn.example.org/1"), "https://cdn.example.org/1");
    assert_eq!(VortexAttachment::full_address("httpfoo"), "httpfoo");
    assert_eq!(VortexAttachment::full_address(""), "https://api.vortextask.com");
}
