use auto_resume::agent::RankedRepository;
use auto_resume::github::GitHubRepoData;
use auto_resume::select::{
    add_by_names, default_selection, find_rank, find_repo, has_selected, notice_text, notice_tone,
    prompt, ranked_entry, read_answer, relevance_stars, select_batch, suggest, Answer, Notice,
    SelectionError,
    Selector, SelectorPhase, Tone,
};

fn ranked(rank: usize, name: &str) -> RankedRepository {
    RankedRepository { rank, name: name.to_string(), reasoning: format!("because {}", name) }
}

fn data(name: &str) -> GitHubRepoData {
    GitHubRepoData {
        name: name.to_string(),
        url: format!("https://api.github.com/repos/ana/{}", name),
        stargazers_count: 1,
        forks_count: 2,
        size: 3,
        importance_score: 7,
        languages: None,
        created_at: "2020".to_string(),
        pushed_at: "2024".to_string(),
        readme: None,
        commits: 4,
    }
}

fn names(repos: &Vec<GitHubRepoData>) -> Vec<String> {
    repos.iter().map(|r| r.name.clone()).collect()
}

fn ranking() -> Vec<RankedRepository> {
    vec![
        ranked(1, "alpha"),
        ranked(2, "ghost"),
        ranked(3, "gamma"),
        ranked(4, "delta"),
        ranked(5, "epsilon"),
        ranked(6, "zeta"),
        ranked(7, "eta"),
    ]
}

fn profile() -> Vec<GitHubRepoData> {
    vec![
        data("zeta"),
        data("alpha"),
        data("Beta-Tool"),
        data("gamma"),
        data("delta"),
        data("epsilon"),
        data("eta"),
    ]
}

#[test]
fn empty_input_takes_the_first_five() {
    let all = vec![data("e"), data("d"), data("c"), data("b"), data("a"), data("f")];
    let ranking = vec![ranked(1, "a"), ranked(2, "b"), ranked(3, "c"), ranked(4, "d"), ranked(5, "e"), ranked(6, "f")];
    let mut selector = Selector::new();
    let notices = selector.step("\n", &ranking, &all);
    assert_eq!(notices, vec![Notice::UsingDefault]);
    assert_eq!(selector.phase, SelectorPhase::Finished);
    assert!(selector.is_finished());
    assert_eq!(names(&selector.selected), vec!["a", "b", "c", "d", "e"]);
    assert_eq!(selector.selected[0], data("a"));
}

#[test]
fn default_skips_names_that_the_profile_lacks() {
    assert_eq!(names(&default_selection(&ranking(), &profile())), vec!["alpha", "gamma", "delta", "epsilon"]);
    let mut selector = Selector::new();
    selector.step("   ", &ranking(), &profile());
    assert_eq!(names(&selector.selected), vec!["alpha", "gamma", "delta", "epsilon"]);
}

#[test]
fn default_of_a_short_ranking() {
    let ranking = vec![ranked(9, "gamma"), ranked(9, "alpha")];
    assert_eq!(names(&default_selection(&ranking, &profile())), vec!["gamma", "alpha"]);
    assert!(default_selection(&Vec::new(), &profile()).is_empty());
    assert!(default_selection(&ranking, &Vec::new()).is_empty());
    let mut selector = Selector::new();
    let notices = selector.step("", &Vec::new(), &profile());
    assert_eq!(notices, vec![Notice::UsingDefault]);
    assert!(selector.is_finished());
    assert!(selector.selected.is_empty());
}

#[test]
fn invalid_token_rejects_the_whole_batch() {
    assert_eq!(
        select_batch("1,x,3", &ranking(), &profile()),
        Err(SelectionError::InvalidInput("x".to_string()))
    );
    let mut selector = Selector::new();
    let notices = selector.step("1,x,3\n", &ranking(), &profile());
    assert_eq!(notices, vec![Notice::InvalidInput("x".to_string())]);
    assert_eq!(selector.phase, SelectorPhase::AwaitSelection);
    assert!(selector.selected.is_empty());
    assert!(!selector.is_finished());
}

#[test]
fn unknown_rank_rejects_the_whole_batch() {
    assert_eq!(select_batch("1, 9 ,x", &ranking(), &profile()), Err(SelectionError::InvalidRank(9)));
    assert_eq!(select_batch("1,,3", &ranking(), &profile()), Err(SelectionError::InvalidInput(String::new())));
    assert_eq!(select_batch("", &ranking(), &profile()), Err(SelectionError::InvalidInput(String::new())));
    assert_eq!(select_batch("-1", &ranking(), &profile()), Err(SelectionError::InvalidInput("-1".to_string())));
    assert_eq!(select_batch("1 2", &ranking(), &profile()), Err(SelectionError::InvalidInput("1 2".to_string())));
    assert_eq!(select_batch("0", &ranking(), &profile()), Err(SelectionError::InvalidRank(0)));
    let mut selector = Selector::new();
    let notices = selector.step("3,8", &ranking(), &profile());
    assert_eq!(notices, vec![Notice::InvalidRank(8)]);
    assert_eq!(selector.phase, SelectorPhase::AwaitSelection);
    assert!(selector.selected.is_empty());
}

#[test]
fn valid_batch_is_kept_in_the_order_given() {
    let chosen = select_batch(" 3 ,1,+4,3", &ranking(), &profile()).unwrap();
    assert_eq!(names(&chosen), vec!["gamma", "alpha", "delta", "gamma"]);
    let chosen = select_batch("2,1", &ranking(), &profile()).unwrap();
    assert_eq!(names(&chosen), vec!["alpha"]);
}

#[test]
fn batch_that_selects_nothing_is_asked_again() {
    let mut selector = Selector::new();
    let notices = selector.step("2", &ranking(), &profile());
    assert!(notices.is_empty());
    assert_eq!(selector.phase, SelectorPhase::AwaitSelection);
    assert!(selector.selected.is_empty());
}

#[test]
fn dialogue_without_more_names() {
    let mut selector = Selector::new();
    assert!(selector.step("1,3\n", &ranking(), &profile()).is_empty());
    assert_eq!(selector.phase, SelectorPhase::AwaitConfirmAddMore);
    assert_eq!(selector.step("maybe\n", &ranking(), &profile()), vec![Notice::AnswerYesOrNo]);
    assert_eq!(selector.phase, SelectorPhase::AwaitConfirmAddMore);
    assert_eq!(selector.step("\n", &ranking(), &profile()), vec![Notice::AnswerYesOrNo]);
    assert!(selector.step(" No \n", &ranking(), &profile()).is_empty());
    assert!(selector.is_finished());
    assert_eq!(names(&selector.selected), vec!["alpha", "gamma"]);
    assert!(selector.step("1", &ranking(), &profile()).is_empty());
    assert!(selector.is_finished());
    assert_eq!(names(&selector.selected), vec!["alpha", "gamma"]);
}

#[test]
fn dialogue_with_more_names() {
    let mut selector = Selector::new();
    selector.step("1", &ranking(), &profile());
    assert_eq!(selector.step("YES\n", &ranking(), &profile()), vec![Notice::AddByName]);
    assert_eq!(selector.phase, SelectorPhase::AwaitManualNames);
    let notices = selector.step(" zeta , alpha,nope,Beta-Tool \n", &ranking(), &profile());
    assert_eq!(
        notices,
        vec![
            Notice::Added("zeta".to_string()),
            Notice::AlreadySelected("alpha".to_string()),
            Notice::NotFound("nope".to_string()),
            Notice::Available(
                vec!["zeta".to_string(), "alpha".to_string(), "Beta-Tool".to_string(), "gamma".to_string(), "delta".to_string()],
                2
            ),
            Notice::Added("Beta-Tool".to_string()),
        ]
    );
    assert_eq!(selector.phase, SelectorPhase::AwaitManualNames);
    assert_eq!(names(&selector.selected), vec!["alpha", "zeta", "Beta-Tool"]);
    let notices = selector.step("beta\n", &ranking(), &profile());
    assert_eq!(
        notices,
        vec![
            Notice::NotFound("beta".to_string()),
            Notice::DidYouMean(vec!["Beta-Tool".to_string(), "eta".to_string()]),
        ]
    );
    assert!(selector.step("\n", &ranking(), &profile()).is_empty());
    assert!(selector.is_finished());
    assert_eq!(names(&selector.selected), vec!["alpha", "zeta", "Beta-Tool"]);
}

#[test]
fn yes_in_one_letter() {
    let mut selector = Selector::new();
    selector.step("4", &ranking(), &profile());
    assert_eq!(selector.step("y", &ranking(), &profile()), vec![Notice::AddByName]);
    let mut selector = Selector::new();
    selector.step("4", &ranking(), &profile());
    assert!(selector.step("N", &ranking(), &profile()).is_empty());
    assert!(selector.is_finished());
}

#[test]
fn names_are_added_once() {
    let mut selected = vec![data("alpha")];
    let notices = add_by_names(&mut selected, "gamma,gamma", &profile());
    assert_eq!(
        notices,
        vec![Notice::Added("gamma".to_string()), Notice::AlreadySelected("gamma".to_string())]
    );
    assert_eq!(names(&selected), vec!["alpha", "gamma"]);
    assert!(has_selected(&selected, "gamma"));
    assert!(!has_selected(&selected, "Gamma"));
}

#[test]
fn suggestions_resemble_the_name() {
    let all = vec![data("web-app"), data("WEB"), data("cli"), data("my-web-server"), data("webby")];
    assert_eq!(
        suggest(&all, "Web"),
        Notice::DidYouMean(vec!["web-app".to_string(), "WEB".to_string(), "my-web-server".to_string()])
    );
    assert_eq!(suggest(&all, "the-cli-tool"), Notice::DidYouMean(vec!["cli".to_string()]));
    assert_eq!(
        suggest(&all, ""),
        Notice::DidYouMean(vec!["web-app".to_string(), "WEB".to_string(), "cli".to_string()])
    );
    assert_eq!(
        suggest(&all, "zzz"),
        Notice::Available(
            vec!["web-app".to_string(), "WEB".to_string(), "cli".to_string(), "my-web-server".to_string(), "webby".to_string()],
            0
        )
    );
    assert_eq!(suggest(&Vec::new(), "zzz"), Notice::Available(Vec::new(), 0));
    assert_eq!(
        suggest(&profile(), "zzz"),
        Notice::Available(
            vec!["zeta".to_string(), "alpha".to_string(), "Beta-Tool".to_string(), "gamma".to_string(), "delta".to_string()],
            2
        )
    );
}

#[test]
fn lookups_take_the_first_match() {
    let all = vec![data("a"), data("b"), data("a")];
    assert_eq!(find_repo(&all, "a"), Some(0));
    assert_eq!(find_repo(&all, "b"), Some(1));
    assert_eq!(find_repo(&all, "c"), None);
    let ranking = vec![ranked(2, "x"), ranked(1, "y"), ranked(2, "z")];
    assert_eq!(find_rank(&ranking, 2), Some(0));
    assert_eq!(find_rank(&ranking, 1), Some(1));
    assert_eq!(find_rank(&ranking, 3), None);
    assert_eq!(names(&select_batch("2", &ranking, &vec![data("z"), data("x")]).unwrap()), vec!["x"]);
}

#[test]
fn notices_in_words() {
    assert_eq!(notice_text(&Notice::UsingDefault), "No repositories selected. Using top 5 by default.");
    assert_eq!(notice_text(&Notice::InvalidRank(12)), "Invalid rank: 12. Please try again.");
    assert_eq!(
        notice_text(&Notice::InvalidInput("x".to_string())),
        "Invalid input: 'x'. Please enter numbers separated by commas."
    );
    assert_eq!(notice_text(&Notice::AnswerYesOrNo), "Please enter 'y' or 'n'.");
    assert_eq!(
        notice_text(&Notice::AddByName),
        "\nAdd repositories by name (e.g., 'owner/repo-name' or just 'repo-name'):"
    );
    assert_eq!(notice_text(&Notice::Added("a".to_string())), "\u{2713} Added: a");
    assert_eq!(notice_text(&Notice::AlreadySelected("a".to_string())), "\u{2298} Already selected: a");
    assert_eq!(notice_text(&Notice::NotFound("a".to_string())), "\u{2717} Not found in profile: a");
    assert_eq!(
        notice_text(&Notice::DidYouMean(vec!["a".to_string(), "b".to_string()])),
        "  \u{2192} Did you mean:\n    \u{2022} a\n    \u{2022} b"
    );
    assert_eq!(
        notice_text(&Notice::Available(vec!["a".to_string()], 0)),
        "  \u{2192} No similar repos found. Available repos in your profile:\n    \u{2022} a"
    );
    assert_eq!(
        notice_text(&Notice::Available(vec!["a".to_string()], 37)),
        "  \u{2192} No similar repos found. Available repos in your profile:\n    \u{2022} a\n    \u{2022} and 37 more..."
    );
}

#[test]
fn notices_in_colour() {
    assert_eq!(notice_tone(&Notice::UsingDefault), Tone::Yellow);
    assert_eq!(notice_tone(&Notice::InvalidRank(1)), Tone::Red);
    assert_eq!(notice_tone(&Notice::InvalidInput(String::new())), Tone::Red);
    assert_eq!(notice_tone(&Notice::AnswerYesOrNo), Tone::Red);
    assert_eq!(notice_tone(&Notice::AddByName), Tone::Cyan);
    assert_eq!(notice_tone(&Notice::Added(String::new())), Tone::Green);
    assert_eq!(notice_tone(&Notice::AlreadySelected(String::new())), Tone::Yellow);
    assert_eq!(notice_tone(&Notice::NotFound(String::new())), Tone::Red);
    assert_eq!(notice_tone(&Notice::DidYouMean(Vec::new())), Tone::Cyan);
    assert_eq!(notice_tone(&Notice::Available(Vec::new(), 0)), Tone::Cyan);
}

#[test]
fn prompts_of_each_phase() {
    assert_eq!(
        prompt(SelectorPhase::AwaitSelection),
        "Enter repository numbers to include (comma-separated, e.g., '1,2,3'): "
    );
    assert_eq!(prompt(SelectorPhase::AwaitConfirmAddMore), "\nAdd more repositories manually? (y/n): ");
    assert_eq!(
        prompt(SelectorPhase::AwaitManualNames),
        "Enter repository name(s) (comma-separated, or press Enter to finish): "
    );
    assert_eq!(prompt(SelectorPhase::Finished), "");
}

#[test]
fn stars_follow_the_rank() {
    let expected = [0usize, 0, 1, 1, 2, 2, 3, 3, 4, 4, 5, 5, 5];
    for (rank, stars) in expected.iter().enumerate() {
        assert_eq!(relevance_stars(rank), *stars, "{}", rank);
    }
    assert_eq!(relevance_stars(usize::MAX), 5);
    assert_eq!(ranked_entry(&ranked(1, "a")), "1. [] a\n   because a\n");
    assert_eq!(ranked_entry(&ranked(7, "b")), "7. [\u{2605}\u{2605}\u{2605}] b\n   because b\n");
    assert_eq!(
        ranked_entry(&ranked(100, "c")),
        "100. [\u{2605}\u{2605}\u{2605}\u{2605}\u{2605}] c\n   because c\n"
    );
}

#[test]
fn answers_in_lower_case() {
    assert_eq!(read_answer("y"), Answer::Yes);
    assert_eq!(read_answer("yes"), Answer::Yes);
    assert_eq!(read_answer("n"), Answer::No);
    assert_eq!(read_answer("no"), Answer::No);
    assert_eq!(read_answer("Yes"), Answer::Unclear);
    assert_eq!(read_answer(""), Answer::Unclear);
    assert_eq!(read_answer("yes "), Answer::Unclear);
}
