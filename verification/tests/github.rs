use auto_resume::github::{
    authorization, commit_count_from_link, commits_url, decode_readme, languages_url, listing_url,
    rank_by_importance, readme_from_json, readme_from_response, readme_url, repo_data,
    GitHubRepoData, LanguageShare, Listing, ReadmeError, Repository, RepositoryLanguages,
    RepositoryOwner, RepositoryPermissions, USER_AGENT,
};

fn owner() -> RepositoryOwner {
    RepositoryOwner {
        login: String::new(),
        id: 0,
        node_id: String::new(),
        avatar_url: String::new(),
        gravatar_id: String::new(),
        url: String::new(),
        html_url: String::new(),
        followers_url: String::new(),
        following_url: String::new(),
        gists_url: String::new(),
        starred_url: String::new(),
        subscriptions_url: String::new(),
        organizations_url: String::new(),
        repos_url: String::new(),
        events_url: String::new(),
        received_events_url: String::new(),
        account_type: String::new(),
        user_view_type: String::new(),
        site_admin: false,
    }
}

fn repo(name: &str, stars: u64, forks: u64, size: u64, archived: bool, fork: bool) -> Repository {
    Repository {
        id: 0,
        node_id: String::new(),
        name: name.to_string(),
        full_name: String::new(),
        private: false,
        owner: owner(),
        html_url: String::new(),
        description: None,
        fork: fork,
        url: format!("https://api.github.com/repos/ana/{}", name),
        forks_url: String::new(),
        keys_url: String::new(),
        collaborators_url: String::new(),
        teams_url: String::new(),
        hooks_url: String::new(),
        issue_events_url: String::new(),
        events_url: String::new(),
        assignees_url: String::new(),
        branches_url: String::new(),
        tags_url: String::new(),
        blobs_url: String::new(),
        git_tags_url: String::new(),
        git_refs_url: String::new(),
        trees_url: String::new(),
        statuses_url: String::new(),
        languages_url: String::new(),
        stargazers_url: String::new(),
        contributors_url: String::new(),
        subscribers_url: String::new(),
        subscription_url: String::new(),
        commits_url: String::new(),
        git_commits_url: String::new(),
        comments_url: String::new(),
        issue_comment_url: String::new(),
        contents_url: String::new(),
        compare_url: String::new(),
        merges_url: String::new(),
        archive_url: String::new(),
        downloads_url: String::new(),
        issues_url: String::new(),
        pulls_url: String::new(),
        milestones_url: String::new(),
        notifications_url: String::new(),
        labels_url: String::new(),
        releases_url: String::new(),
        deployments_url: String::new(),
        created_at: "2020-01-01T00:00:00Z".to_string(),
        updated_at: String::new(),
        pushed_at: "2024-01-01T00:00:00Z".to_string(),
        git_url: String::new(),
        ssh_url: String::new(),
        clone_url: String::new(),
        svn_url: String::new(),
        homepage: None,
        size: size,
        stargazers_count: stars,
        watchers_count: 0,
        language: None,
        has_issues: false,
        has_projects: false,
        has_downloads: false,
        has_wiki: false,
        has_pages: false,
        has_discussions: false,
        forks_count: forks,
        mirror_url: None,
        archived: archived,
        disabled: false,
        open_issues_count: 0,
        license: None,
        allow_forking: false,
        is_template: false,
        web_commit_signoff_required: false,
        topics: Vec::new(),
        visibility: String::new(),
        forks: 0,
        open_issues: 0,
        watchers: 0,
        default_branch: String::new(),
        permissions: RepositoryPermissions { admin: false, maintain: false, push: false, triage: false, pull: true },
    }
}

fn names(repos: &Vec<Repository>) -> Vec<String> {
    repos.iter().map(|r| r.name.clone()).collect()
}

#[test]
fn archived_or_fork_scores_nothing() {
    assert_eq!(repo("a", 2000, 50, 5000, true, false).importance_score(), 0);
    assert_eq!(repo("a", 2000, 50, 5000, false, true).importance_score(), 0);
    assert_eq!(repo("a", 2000, 50, 5000, true, true).importance_score(), 0);
    assert_eq!(repo("a", u64::MAX, u64::MAX, u64::MAX, true, false).importance_score(), 0);
}

#[test]
fn score_caps_and_weighs() {
    assert_eq!(repo("a", 2000, 50, 5000, false, false).importance_score(), 3150);
}

#[test]
fn score_at_the_caps() {
    assert_eq!(repo("a", 0, 0, 0, false, false).importance_score(), 0);
    assert_eq!(repo("a", 1, 1, 99, false, false).importance_score(), 5);
    assert_eq!(repo("a", 1, 1, 100, false, false).importance_score(), 6);
    assert_eq!(repo("a", 999, 99, 9999, false, false).importance_score(), 2997 + 198 + 99);
    assert_eq!(repo("a", 1000, 100, 10000, false, false).importance_score(), 3300);
    assert_eq!(repo("a", 1001, 101, 10001, false, false).importance_score(), 3300);
    assert_eq!(repo("a", u64::MAX, u64::MAX, u64::MAX, false, false).importance_score(), 3300);
}

#[test]
fn ranking_drops_forks_and_sorts_descending() {
    let ranked = rank_by_importance(vec![
        repo("low", 1, 0, 0, false, false),
        repo("forked", 5000, 0, 0, false, true),
        repo("high", 10, 0, 0, false, false),
        repo("zero", 0, 0, 0, false, false),
        repo("mid", 5, 0, 0, false, false),
    ]);
    assert_eq!(names(&ranked), vec!["high", "mid", "low", "zero"]);
}

#[test]
fn ranking_is_stable() {
    let ranked = rank_by_importance(vec![
        repo("a", 1, 0, 0, false, false),
        repo("b", 2, 0, 0, false, false),
        repo("c", 1, 0, 0, false, false),
        repo("old", 900, 0, 0, true, false),
        repo("d", 2, 0, 0, false, false),
        repo("e", 0, 0, 50, false, false),
    ]);
    assert_eq!(names(&ranked), vec!["b", "d", "a", "c", "old", "e"]);
    assert!(rank_by_importance(Vec::new()).is_empty());
}

#[test]
fn listing_ends_without_link_header() {
    let mut listing = Listing::new();
    assert_eq!(listing.page, 1);
    let full: Vec<Repository> = (0..100).map(|i| repo(&format!("r{}", i), 0, 0, 0, false, false)).collect();
    assert!(!listing.receive(full, true));
    assert_eq!(listing.page, 2);
    assert_eq!(listing.repositories.len(), 100);
    let again: Vec<Repository> = (0..100).map(|i| repo(&format!("s{}", i), 0, 0, 0, false, false)).collect();
    assert!(listing.receive(again, false));
    assert_eq!(listing.page, 2);
    assert_eq!(listing.repositories.len(), 200);
    assert_eq!(listing.repositories[0].name, "r0");
    assert_eq!(listing.repositories[199].name, "s99");
}

#[test]
fn listing_goes_on_with_link_header() {
    let mut listing = Listing::new();
    assert!(!listing.receive(Vec::new(), true));
    assert_eq!(listing.page, 2);
    assert!(!listing.receive(vec![repo("a", 0, 0, 0, false, false)], true));
    assert_eq!(listing.page, 3);
    assert!(listing.receive(Vec::new(), false));
    assert_eq!(names(&listing.repositories), vec!["a"]);
}

#[test]
fn addresses() {
    assert_eq!(listing_url("ana", 1), "https://api.github.com/users/ana/repos?per_page=100&page=1");
    assert_eq!(
        listing_url("ana", 4294967295),
        "https://api.github.com/users/ana/repos?per_page=100&page=4294967295"
    );
    assert_eq!(readme_url("https://x/r"), "https://x/r/readme");
    assert_eq!(commits_url("https://x/r"), "https://x/r/commits?per_page=1");
    assert_eq!(languages_url("https://x/r"), "https://x/r/languages");
    assert_eq!(USER_AGENT, "auto-resume-app");
}

#[test]
fn authorization_header() {
    assert_eq!(authorization(&None), None);
    assert_eq!(authorization(&Some("abc".to_string())), Some("token abc".to_string()));
}

#[test]
fn readme_is_decoded() {
    assert_eq!(decode_readme("aGVsbG8="), Ok("hello".to_string()));
    assert_eq!(decode_readme("aGVs\nbG8=\r\n"), Ok("hello".to_string()));
    assert_eq!(decode_readme(""), Ok(String::new()));
    assert_eq!(decode_readme("w6fDow=="), Ok("\u{e7}\u{e3}".to_string()));
}

#[test]
fn readme_that_is_no_base64() {
    assert_eq!(decode_readme("not base64!"), Err(ReadmeError::NotBase64));
    assert_eq!(decode_readme("aGVsbG8"), Err(ReadmeError::NotBase64));
    assert_eq!(decode_readme("aGVs bG8="), Err(ReadmeError::NotBase64));
}

#[test]
fn readme_that_is_no_text() {
    assert_eq!(decode_readme("//79"), Err(ReadmeError::NotText));
    assert_eq!(decode_readme("wyg="), Err(ReadmeError::NotText));
}

#[test]
fn readme_from_a_response() {
    assert_eq!(
        readme_from_response(true, "{\"content\":\"aGVs\\nbG8=\\n\",\"encoding\":\"base64\"}"),
        Ok(Some("hello".to_string()))
    );
    assert_eq!(readme_from_response(true, "{\"name\":\"README.md\"}"), Ok(None));
    assert_eq!(readme_from_response(true, "[1]"), Ok(None));
    assert_eq!(readme_from_response(true, "{\"content\":null}"), Ok(Some(String::new())));
    assert_eq!(readme_from_response(true, "{\"content\":7}"), Ok(Some(String::new())));
    assert_eq!(readme_from_response(true, "{\"content\":\"!\"}"), Err(ReadmeError::NotBase64));
    assert_eq!(readme_from_response(true, "{\"content\":\"//79\"}"), Err(ReadmeError::NotText));
    assert_eq!(readme_from_response(true, "<html>"), Err(ReadmeError::InvalidBody));
    assert_eq!(readme_from_response(false, "{\"content\":\"aGVsbG8=\"}"), Ok(None));
    assert_eq!(readme_from_response(false, "<html>"), Ok(None));
}

#[test]
fn readme_from_a_parsed_response() {
    let body: serde_json::Value = serde_json::from_str("{\"content\":\"aGk=\"}").unwrap();
    assert_eq!(readme_from_json(&body), Ok(Some("hi".to_string())));
    let body: serde_json::Value = serde_json::from_str("{}").unwrap();
    assert_eq!(readme_from_json(&body), Ok(None));
}

#[test]
fn commit_count_from_link_header() {
    let link = "<https://api.github.com/repositories/123/commits?per_page=1&page=2>; rel=\"next\", <https://api.github.com/repositories/123/commits?per_page=1&page=57>; rel=\"last\"";
    assert_eq!(commit_count_from_link(Some(link)), 57);
    assert_eq!(commit_count_from_link(None), 0);
    assert_eq!(commit_count_from_link(Some("")), 0);
    assert_eq!(commit_count_from_link(Some("<https://api.github.com/repositories/1/commits?per_page=1&page=2>; rel=\"next\"")), 0);
    let huge = "<https://api.github.com/repositories/1/commits?per_page=1&page=2>; rel=\"next\", <https://api.github.com/repositories/1/commits?per_page=1&page=99999999999999999999999>; rel=\"last\"";
    assert_eq!(commit_count_from_link(Some(huge)), 0);
    let top = "<https://api.github.com/repositories/1/commits?per_page=1&page=2>; rel=\"next\", <https://api.github.com/repositories/1/commits?per_page=1&page=18446744073709551615>; rel=\"last\"";
    assert_eq!(commit_count_from_link(Some(top)), u64::MAX);
    let other = "<https://api.github.com/repositories/1/commits?per_page=1&page=\u{661}>; rel=\"next\"";
    assert_eq!(commit_count_from_link(Some(other)), 0);
}

#[test]
fn repo_data_keeps_what_was_fetched() {
    let r = repo("tool", 2000, 50, 5000, false, false);
    let languages = RepositoryLanguages {
        languages: vec![LanguageShare {
            name: "Rust".to_string(),
            byte_count: 10,
            percent: "100".to_string(),
        }],
        total_byte_count: 10,
    };
    let data = repo_data(&r, None, Some("# tool".to_string()), Some(12), Some(languages.clone()));
    assert_eq!(
        data,
        GitHubRepoData {
            name: "tool".to_string(),
            url: "https://api.github.com/repos/ana/tool".to_string(),
            stargazers_count: 2000,
            forks_count: 50,
            size: 5000,
            importance_score: 3150,
            languages: Some(languages),
            created_at: "2020-01-01T00:00:00Z".to_string(),
            pushed_at: "2024-01-01T00:00:00Z".to_string(),
            readme: Some("# tool".to_string()),
            commits: 12,
        }
    );
    assert_eq!(data.clone(), data);
}

#[test]
fn repo_data_prefers_the_cache_and_drops_empty_readmes() {
    let r = repo("tool", 0, 0, 0, true, false);
    let data = repo_data(&r, Some("cached".to_string()), Some("fetched".to_string()), None, None);
    assert_eq!(data.readme, Some("cached".to_string()));
    assert_eq!(data.commits, 0);
    assert_eq!(data.importance_score, 0);
    assert_eq!(data.languages, None);
    assert_eq!(repo_data(&r, None, None, None, None).readme, None);
    assert_eq!(repo_data(&r, None, Some(String::new()), None, None).readme, None);
    assert_eq!(repo_data(&r, Some(String::new()), Some("x".to_string()), None, None).readme, None);
}
