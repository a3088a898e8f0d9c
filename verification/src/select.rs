//! Choosing the repositories that go into the resume: the dialogue with the
//! user as a state machine. The caller shows what is to be shown and reads
//! the lines; every decision is taken here.

use crate::agent::{ranked_views, RankedRepository, RankedRepositoryView};
use crate::github::{lemma_repo_views_push, repo_views, GitHubRepoData, GitHubRepoDataView};
use crate::number::{decimal_text, parse_usize, parsed_unsigned, push_decimal};
use crate::text::{
    contains, contains_text, lowercase, same_text, split, split_on, texts, to_chars, to_lowercase,
    trim, trimmed,
};
use vstd::prelude::*;
use vstd::string::*;

verus! {

/// The first repository of that name, if there is one.
pub open spec fn named(all: Seq<GitHubRepoDataView>, name: Seq<char>) -> Option<
    GitHubRepoDataView,
>
    decreases all.len(),
{
    if all.len() == 0 {
        None
    } else if all[0].name == name {
        Some(all[0])
    } else {
        named(all.skip(1), name)
    }
}

/// The first suggestion with that place, if there is one.
pub open spec fn placed(ranked: Seq<RankedRepositoryView>, rank: usize) -> Option<
    RankedRepositoryView,
>
    decreases ranked.len(),
{
    if ranked.len() == 0 {
        None
    } else if ranked[0].rank == rank {
        Some(ranked[0])
    } else {
        placed(ranked.skip(1), rank)
    }
}

/// The repositories that a list of names stands for, in the order of the
/// names; a name that no repository has is passed over.
pub open spec fn resolved(names: Seq<Seq<char>>, all: Seq<GitHubRepoDataView>) -> Seq<
    GitHubRepoDataView,
>
    decreases names.len(),
{
    if names.len() == 0 {
        Seq::empty()
    } else {
        let head = resolved(names.drop_last(), all);
        match named(all, names.last()) {
            Some(repo) => head.push(repo),
            None => head,
        }
    }
}

/// The names of a ranking, in its order.
pub open spec fn ranked_names(ranked: Seq<RankedRepositoryView>) -> Seq<Seq<char>> {
    Seq::new(ranked.len(), |i: int| ranked[i].name)
}

/// The first `n` of a sequence, or all of it where it is shorter.
pub open spec fn first_n<T>(s: Seq<T>, n: nat) -> Seq<T> {
    if s.len() < n {
        s
    } else {
        s.take(n as int)
    }
}

/// How many suggestions stand for the whole ranking where the user chooses
/// nothing.
pub const DEFAULT_COUNT: usize = 5;

/// The selection where the user chooses nothing: the first five suggestions,
/// as far as the profile has a repository of their name.
pub open spec fn default_choice(
    ranked: Seq<RankedRepositoryView>,
    all: Seq<GitHubRepoDataView>,
) -> Seq<GitHubRepoDataView> {
    resolved(first_n(ranked_names(ranked), DEFAULT_COUNT as nat), all)
}

/// Where the first repository of that name stands.
pub fn find_repo(all: &Vec<GitHubRepoData>, name: &str) -> (r: Option<usize>)
    ensures
        match r {
            Some(i) => i < all.len() && named(repo_views(all@), name@) == Some(all@[i as int]@),
            None => named(repo_views(all@), name@) is None,
        },
{
    let ghost views = repo_views(all@);
    let mut i: usize = 0;
    assert(views.skip(0) =~= views);
    while i < all.len()
        invariant
            i <= all.len(),
            views == repo_views(all@),
            named(views, name@) == named(views.skip(i as int), name@),
        decreases all.len() - i,
    {
        assert(views.skip(i as int)[0] == all@[i as int]@);
        if same_text(all[i].name.as_str(), name) {
            return Some(i);
        }
        assert(views.skip(i as int).skip(1) =~= views.skip(i + 1));
        i += 1;
    }
    None
}

/// Where the first suggestion with that place stands.
pub fn find_rank(ranked: &Vec<RankedRepository>, rank: usize) -> (r: Option<usize>)
    ensures
        match r {
            Some(i) => i < ranked.len() && placed(ranked_views(ranked@), rank) == Some(
                ranked@[i as int]@,
            ),
            None => placed(ranked_views(ranked@), rank) is None,
        },
{
    let ghost views = ranked_views(ranked@);
    let mut i: usize = 0;
    assert(views.skip(0) =~= views);
    while i < ranked.len()
        invariant
            i <= ranked.len(),
            views == ranked_views(ranked@),
            placed(views, rank) == placed(views.skip(i as int), rank),
        decreases ranked.len() - i,
    {
        assert(views.skip(i as int)[0] == ranked@[i as int]@);
        if ranked[i].rank == rank {
            return Some(i);
        }
        assert(views.skip(i as int).skip(1) =~= views.skip(i + 1));
        i += 1;
    }
    None
}

/// The repositories of two lists of names, one after the other.
pub proof fn lemma_resolved_concat(
    a: Seq<Seq<char>>,
    b: Seq<Seq<char>>,
    all: Seq<GitHubRepoDataView>,
)
    ensures
        resolved(a + b, all) == resolved(a, all) + resolved(b, all),
    decreases b.len(),
{
    if b.len() == 0 {
        assert(a + b =~= a);
        assert(resolved(a, all) + resolved(b, all) =~= resolved(a, all));
    } else {
        assert((a + b).drop_last() =~= a + b.drop_last());
        assert((a + b).last() == b.last());
        lemma_resolved_concat(a, b.drop_last(), all);
        match named(all, b.last()) {
            Some(repo) => {
                assert((resolved(a, all) + resolved(b.drop_last(), all)).push(repo) =~= resolved(
                    a,
                    all,
                ) + resolved(b.drop_last(), all).push(repo));
            },
            None => {},
        }
    }
}

/// A name that the profile does not have is passed over: the selection is
/// what it would be without the name.
pub proof fn lemma_unknown_name_is_skipped(
    before: Seq<Seq<char>>,
    name: Seq<char>,
    after: Seq<Seq<char>>,
    all: Seq<GitHubRepoDataView>,
)
    requires
        named(all, name) is None,
    ensures
        resolved(before + seq![name] + after, all) == resolved(before + after, all),
{
    lemma_resolved_concat(before + seq![name], after, all);
    lemma_resolved_concat(before, seq![name], all);
    lemma_resolved_concat(before, after, all);
    assert(seq![name].drop_last() =~= Seq::<Seq<char>>::empty());
    assert(seq![name].last() == name);
    assert(resolved(Seq::<Seq<char>>::empty(), all) =~= Seq::<GitHubRepoDataView>::empty());
    assert(resolved(seq![name], all) =~= Seq::<GitHubRepoDataView>::empty());
    assert(resolved(before, all) + Seq::<GitHubRepoDataView>::empty() =~= resolved(before, all));
}

/// Where the profile has every name, each name selects its repository, in
/// the order of the names.
pub proof fn lemma_known_names_keep_their_order(
    names: Seq<Seq<char>>,
    all: Seq<GitHubRepoDataView>,
)
    requires
        forall|i: int| 0 <= i < names.len() ==> named(all, #[trigger] names[i]) is Some,
    ensures
        resolved(names, all).len() == names.len(),
        forall|i: int|
            0 <= i < names.len() ==> Some(#[trigger] resolved(names, all)[i]) == named(
                all,
                names[i],
            ),
    decreases names.len(),
{
    if names.len() > 0 {
        let front = names.drop_last();
        assert forall|i: int| 0 <= i < front.len() implies named(all, #[trigger] front[i])
            is Some by {
            assert(front[i] == names[i]);
        }
        lemma_known_names_keep_their_order(front, all);
        assert(names.last() == names[names.len() - 1]);
        assert forall|i: int| 0 <= i < names.len() implies Some(
            #[trigger] resolved(names, all)[i],
        ) == named(all, names[i]) by {
            if i < front.len() {
                assert(resolved(names, all)[i] == resolved(front, all)[i]);
                assert(front[i] == names[i]);
            }
        }
    }
}

/// With five suggestions or more, all of them in the profile, nothing
/// chosen selects exactly the first five, in the order of the ranking.
pub proof fn lemma_default_choice_is_the_first_five(
    ranked: Seq<RankedRepositoryView>,
    all: Seq<GitHubRepoDataView>,
)
    requires
        ranked.len() >= 5,
        forall|i: int| 0 <= i < 5 ==> named(all, (#[trigger] ranked[i]).name) is Some,
    ensures
        default_choice(ranked, all).len() == 5,
        forall|i: int|
            0 <= i < 5 ==> Some(#[trigger] default_choice(ranked, all)[i]) == named(
                all,
                ranked[i].name,
            ),
{
    let names = first_n(ranked_names(ranked), DEFAULT_COUNT as nat);
    assert(names.len() == 5);
    assert forall|i: int| 0 <= i < names.len() implies named(all, #[trigger] names[i]) is Some by {
        assert(names[i] == ranked[i].name);
    }
    lemma_known_names_keep_their_order(names, all);
    assert forall|i: int| 0 <= i < 5 implies Some(#[trigger] default_choice(ranked, all)[i])
        == named(all, ranked[i].name) by {
        assert(names[i] == ranked[i].name);
        assert(Some(resolved(names, all)[i]) == named(all, names[i]));
    }
}

/// The selection where the user chooses nothing.
pub fn default_selection(ranked: &Vec<RankedRepository>, all: &Vec<GitHubRepoData>) -> (r: Vec<
    GitHubRepoData,
>)
    ensures
        repo_views(r@) == default_choice(ranked_views(ranked@), repo_views(all@)),
        r.len() <= DEFAULT_COUNT,
{
    let ghost names = ranked_names(ranked_views(ranked@));
    let limit: usize = if ranked.len() < DEFAULT_COUNT {
        ranked.len()
    } else {
        DEFAULT_COUNT
    };
    let mut out: Vec<GitHubRepoData> = Vec::new();
    let mut i: usize = 0;
    assert(names.take(0) =~= Seq::<Seq<char>>::empty());
    assert(repo_views(out@) =~= Seq::<GitHubRepoDataView>::empty());
    while i < limit
        invariant
            i <= limit <= ranked.len(),
            names == ranked_names(ranked_views(ranked@)),
            repo_views(out@) == resolved(names.take(i as int), repo_views(all@)),
            out.len() <= i,
        decreases limit - i,
    {
        assert(names.take(i + 1).drop_last() =~= names.take(i as int));
        assert(names.take(i + 1).last() == ranked@[i as int].name@);
        match find_repo(all, ranked[i].name.as_str()) {
            Some(k) => {
                let repo = all[k].clone();
                proof {
                    lemma_repo_views_push(out@, repo);
                }
                out.push(repo);
            },
            None => {},
        }
        i += 1;
    }
    assert(names.take(names.len() as int) =~= names);
    out
}

/// Why a batch of places was turned down.
#[derive(Debug, PartialEq)]
pub enum SelectionError {
    /// No suggestion has this place.
    InvalidRank(usize),
    /// This entry is no number.
    InvalidInput(String),
}

pub enum SelectionErrorView {
    InvalidRank(usize),
    InvalidInput(Seq<char>),
}

impl View for SelectionError {
    type V = SelectionErrorView;

    open spec fn view(&self) -> SelectionErrorView {
        match self {
            SelectionError::InvalidRank(n) => SelectionErrorView::InvalidRank(*n),
            SelectionError::InvalidInput(s) => SelectionErrorView::InvalidInput(s@),
        }
    }
}

/// What one entry of a batch stands for: white space around it is dropped,
/// what is left must be a number, and that number the place of a
/// suggestion. A suggestion whose name the profile does not have selects
/// nothing and is no error.
pub open spec fn entry_outcome(
    entry: Seq<char>,
    ranked: Seq<RankedRepositoryView>,
    all: Seq<GitHubRepoDataView>,
) -> Result<Option<GitHubRepoDataView>, SelectionErrorView> {
    match parsed_unsigned(trimmed(entry), usize::MAX as nat) {
        None => Err(SelectionErrorView::InvalidInput(trimmed(entry))),
        Some(n) => match placed(ranked, n as usize) {
            None => Err(SelectionErrorView::InvalidRank(n as usize)),
            Some(suggestion) => Ok(named(all, suggestion.name)),
        },
    }
}

/// What a batch of entries selects: the repositories of its entries in
/// order, or the error of the first entry that has one.
pub open spec fn batch_outcome(
    entries: Seq<Seq<char>>,
    ranked: Seq<RankedRepositoryView>,
    all: Seq<GitHubRepoDataView>,
) -> Result<Seq<GitHubRepoDataView>, SelectionErrorView>
    decreases entries.len(),
{
    if entries.len() == 0 {
        Ok(Seq::empty())
    } else {
        match batch_outcome(entries.drop_last(), ranked, all) {
            Err(e) => Err(e),
            Ok(chosen) => match entry_outcome(entries.last(), ranked, all) {
                Err(e) => Err(e),
                Ok(Some(repo)) => Ok(chosen.push(repo)),
                Ok(None) => Ok(chosen),
            },
        }
    }
}

/// An error among the first entries is the error of the whole batch.
pub proof fn lemma_batch_error_stays(
    entries: Seq<Seq<char>>,
    ranked: Seq<RankedRepositoryView>,
    all: Seq<GitHubRepoDataView>,
    k: int,
)
    requires
        0 <= k <= entries.len(),
        batch_outcome(entries.take(k), ranked, all) is Err,
    ensures
        batch_outcome(entries, ranked, all) == batch_outcome(entries.take(k), ranked, all),
    decreases entries.len() - k,
{
    if k == entries.len() {
        assert(entries.take(k) =~= entries);
    } else {
        assert(entries.take(k + 1).drop_last() =~= entries.take(k));
        lemma_batch_error_stays(entries, ranked, all, k + 1);
    }
}

/// A batch with an entry that is no number, or the place of no suggestion,
/// selects nothing at all, whatever its other entries are.
pub proof fn lemma_invalid_entry_rejects_batch(
    entries: Seq<Seq<char>>,
    ranked: Seq<RankedRepositoryView>,
    all: Seq<GitHubRepoDataView>,
    i: int,
)
    requires
        0 <= i < entries.len(),
        entry_outcome(entries[i], ranked, all) is Err,
    ensures
        batch_outcome(entries, ranked, all) is Err,
{
    assert(entries.take(i + 1).drop_last() =~= entries.take(i));
    assert(entries.take(i + 1).last() == entries[i]);
    assert(batch_outcome(entries.take(i + 1), ranked, all) is Err);
    lemma_batch_error_stays(entries, ranked, all, i + 1);
}

/// A batch selects something only where each of its entries is in order.
pub proof fn lemma_accepted_batch_has_valid_entries(
    entries: Seq<Seq<char>>,
    ranked: Seq<RankedRepositoryView>,
    all: Seq<GitHubRepoDataView>,
)
    requires
        batch_outcome(entries, ranked, all) is Ok,
    ensures
        forall|i: int| 0 <= i < entries.len() ==> (#[trigger] entry_outcome(
            entries[i],
            ranked,
            all,
        )) is Ok,
{
    assert forall|i: int| 0 <= i < entries.len() implies (#[trigger] entry_outcome(
        entries[i],
        ranked,
        all,
    )) is Ok by {
        if entry_outcome(entries[i], ranked, all) is Err {
            lemma_invalid_entry_rejects_batch(entries, ranked, all, i);
        }
    }
}

/// Reads a batch of places, separated by commas.
pub fn select_batch(input: &str, ranked: &Vec<RankedRepository>, all: &Vec<GitHubRepoData>) -> (r:
    Result<Vec<GitHubRepoData>, SelectionError>)
    ensures
        match r {
            Ok(chosen) => batch_outcome(
                split_on(input@, ','),
                ranked_views(ranked@),
                repo_views(all@),
            ) == Ok::<Seq<GitHubRepoDataView>, SelectionErrorView>(repo_views(chosen@)),
            Err(e) => batch_outcome(split_on(input@, ','), ranked_views(ranked@), repo_views(all@))
                == Err::<Seq<GitHubRepoDataView>, SelectionErrorView>(e@),
        },
{
    let entries = split(input, ',');
    let ghost es = texts(entries@);
    let ghost rv = ranked_views(ranked@);
    let ghost av = repo_views(all@);
    let mut out: Vec<GitHubRepoData> = Vec::new();
    let mut i: usize = 0;
    assert(es.take(0) =~= Seq::<Seq<char>>::empty());
    assert(repo_views(out@) =~= Seq::<GitHubRepoDataView>::empty());
    while i < entries.len()
        invariant
            i <= entries.len(),
            es == texts(entries@),
            es == split_on(input@, ','),
            rv == ranked_views(ranked@),
            av == repo_views(all@),
            batch_outcome(es.take(i as int), rv, av) == Ok::<
                Seq<GitHubRepoDataView>,
                SelectionErrorView,
            >(repo_views(out@)),
        decreases entries.len() - i,
    {
        assert(es.take(i + 1).drop_last() =~= es.take(i as int));
        assert(es.take(i + 1).last() == entries@[i as int]@);
        let entry = trim(entries[i].as_str());
        match parse_usize(entry.as_str()) {
            None => {
                proof {
                    lemma_batch_error_stays(es, rv, av, i + 1);
                }
                return Err(SelectionError::InvalidInput(entry));
            },
            Some(n) => match find_rank(ranked, n) {
                None => {
                    proof {
                        lemma_batch_error_stays(es, rv, av, i + 1);
                    }
                    return Err(SelectionError::InvalidRank(n));
                },
                Some(k) => match find_repo(all, ranked[k].name.as_str()) {
                    Some(j) => {
                        let repo = all[j].clone();
                        proof {
                            lemma_repo_views_push(out@, repo);
                        }
                        out.push(repo);
                    },
                    None => {},
                },
            },
        }
        i += 1;
    }
    assert(es.take(entries.len() as int) =~= es);
    Ok(out)
}

/// What the user is told after a line.
#[derive(Debug, PartialEq)]
pub enum Notice {
    /// Nothing was chosen: the first suggestions are taken.
    UsingDefault,
    /// No suggestion has this place.
    InvalidRank(usize),
    /// This entry is no number.
    InvalidInput(String),
    /// The answer was neither yes nor no.
    AnswerYesOrNo,
    /// Names may now be entered.
    AddByName,
    /// The repository of this name was added.
    Added(String),
    /// The repository of this name was selected before.
    AlreadySelected(String),
    /// The profile has no repository of this name.
    NotFound(String),
    /// Names that resemble the one that was not found.
    DidYouMean(Vec<String>),
    /// Nothing resembles it: the first names of the profile, and how many
    /// more there are.
    Available(Vec<String>, usize),
}

pub enum NoticeView {
    UsingDefault,
    InvalidRank(usize),
    InvalidInput(Seq<char>),
    AnswerYesOrNo,
    AddByName,
    Added(Seq<char>),
    AlreadySelected(Seq<char>),
    NotFound(Seq<char>),
    DidYouMean(Seq<Seq<char>>),
    Available(Seq<Seq<char>>, usize),
}

impl View for Notice {
    type V = NoticeView;

    open spec fn view(&self) -> NoticeView {
        match self {
            Notice::UsingDefault => NoticeView::UsingDefault,
            Notice::InvalidRank(n) => NoticeView::InvalidRank(*n),
            Notice::InvalidInput(s) => NoticeView::InvalidInput(s@),
            Notice::AnswerYesOrNo => NoticeView::AnswerYesOrNo,
            Notice::AddByName => NoticeView::AddByName,
            Notice::Added(s) => NoticeView::Added(s@),
            Notice::AlreadySelected(s) => NoticeView::AlreadySelected(s@),
            Notice::NotFound(s) => NoticeView::NotFound(s@),
            Notice::DidYouMean(names) => NoticeView::DidYouMean(texts(names@)),
            Notice::Available(names, more) => NoticeView::Available(texts(names@), *more),
        }
    }
}

/// The models of a list of notices.
pub open spec fn notice_views(v: Seq<Notice>) -> Seq<NoticeView> {
    Seq::new(v.len(), |i: int| v[i]@)
}

pub proof fn lemma_notice_views_push(v: Seq<Notice>, n: Notice)
    ensures
        notice_views(v.push(n)) == notice_views(v).push(n@),
{
    assert(notice_views(v.push(n)) =~= notice_views(v).push(n@));
}

/// The names of a profile's repositories, in its order.
pub open spec fn repo_names(all: Seq<GitHubRepoDataView>) -> Seq<Seq<char>> {
    Seq::new(all.len(), |i: int| all[i].name)
}

/// A repository of that name is among the selected.
pub open spec fn is_selected(selected: Seq<GitHubRepoDataView>, name: Seq<char>) -> bool {
    exists|i: int| 0 <= i < selected.len() && (#[trigger] selected[i]).name == name
}

/// Two names resemble each other where, case aside, one holds the other.
pub open spec fn resembles(a: Seq<char>, b: Seq<char>) -> bool {
    contains_text(lowercase(a), lowercase(b)) || contains_text(lowercase(b), lowercase(a))
}

/// The names that resemble `query`, in their order.
pub open spec fn resembling(names: Seq<Seq<char>>, query: Seq<char>) -> Seq<Seq<char>>
    decreases names.len(),
{
    if names.len() == 0 {
        Seq::empty()
    } else if resembles(names.last(), query) {
        resembling(names.drop_last(), query).push(names.last())
    } else {
        resembling(names.drop_last(), query)
    }
}

/// At most this many resembling names are offered.
pub const SUGGESTION_COUNT: usize = 3;

/// At most this many names are listed where nothing resembles.
pub const LISTING_COUNT: usize = 5;

/// What is offered for a name that was not found: up to three names that
/// resemble it, or, where none does, the first five names of the profile and
/// the number of the others.
pub open spec fn suggestion(all: Seq<GitHubRepoDataView>, query: Seq<char>) -> NoticeView {
    let alike = resembling(repo_names(all), query);
    if alike.len() > 0 {
        NoticeView::DidYouMean(first_n(alike, SUGGESTION_COUNT as nat))
    } else {
        NoticeView::Available(
            first_n(repo_names(all), LISTING_COUNT as nat),
            if all.len() > LISTING_COUNT {
                (all.len() - LISTING_COUNT) as usize
            } else {
                0
            },
        )
    }
}

/// The selection and the notices after one more name. A name of the profile
/// is added unless a repository of that name is selected already; another
/// name changes nothing and is answered with a suggestion.
pub open spec fn after_name(
    state: (Seq<GitHubRepoDataView>, Seq<NoticeView>),
    name: Seq<char>,
    all: Seq<GitHubRepoDataView>,
) -> (Seq<GitHubRepoDataView>, Seq<NoticeView>) {
    match named(all, name) {
        Some(repo) => if is_selected(state.0, repo.name) {
            (state.0, state.1.push(NoticeView::AlreadySelected(name)))
        } else {
            (state.0.push(repo), state.1.push(NoticeView::Added(name)))
        },
        None => (state.0, state.1.push(NoticeView::NotFound(name)).push(suggestion(all, name))),
    }
}

/// The selection and the notices after a list of entries, each taken
/// without the white space around it.
pub open spec fn after_names(
    selected: Seq<GitHubRepoDataView>,
    entries: Seq<Seq<char>>,
    all: Seq<GitHubRepoDataView>,
) -> (Seq<GitHubRepoDataView>, Seq<NoticeView>)
    decreases entries.len(),
{
    if entries.len() == 0 {
        (selected, Seq::empty())
    } else {
        after_name(after_names(selected, entries.drop_last(), all), trimmed(entries.last()), all)
    }
}

/// Whether a repository of that name is among the selected.
pub fn has_selected(selected: &Vec<GitHubRepoData>, name: &str) -> (r: bool)
    ensures
        r == is_selected(repo_views(selected@), name@),
{
    let mut i: usize = 0;
    while i < selected.len()
        invariant
            i <= selected.len(),
            forall|k: int| 0 <= k < i ==> (#[trigger] repo_views(selected@)[k]).name != name@,
        decreases selected.len() - i,
    {
        if same_text(selected[i].name.as_str(), name) {
            assert(repo_views(selected@)[i as int].name == name@);
            return true;
        }
        i += 1;
    }
    false
}

/// The first `n` of a list of names.
fn take_names(names: &Vec<String>, n: usize) -> (r: Vec<String>)
    ensures
        texts(r@) == first_n(texts(names@), n as nat),
{
    let limit: usize = if names.len() < n {
        names.len()
    } else {
        n
    };
    let mut out: Vec<String> = Vec::new();
    let mut i: usize = 0;
    while i < limit
        invariant
            i <= limit <= names.len(),
            out.len() == i,
            forall|k: int| 0 <= k < i ==> out@[k]@ == names@[k]@,
        decreases limit - i,
    {
        out.push(names[i].clone());
        i += 1;
    }
    assert(texts(out@) =~= first_n(texts(names@), n as nat));
    out
}

/// What is offered for a name that the profile does not have.
pub fn suggest(all: &Vec<GitHubRepoData>, query: &str) -> (r: Notice)
    ensures
        r@ == suggestion(repo_views(all@), query@),
{
    let ghost names = repo_names(repo_views(all@));
    let wanted = to_chars(to_lowercase(query).as_str());
    let mut alike: Vec<String> = Vec::new();
    let mut listed: Vec<String> = Vec::new();
    let mut i: usize = 0;
    assert(names.take(0) =~= Seq::<Seq<char>>::empty());
    assert(texts(alike@) =~= Seq::<Seq<char>>::empty());
    while i < all.len()
        invariant
            i <= all.len(),
            names == repo_names(repo_views(all@)),
            wanted@ == lowercase(query@),
            texts(alike@) == resembling(names.take(i as int), query@),
            listed.len() == i,
            forall|k: int| 0 <= k < i ==> listed@[k]@ == names[k],
        decreases all.len() - i,
    {
        assert(names.take(i + 1).drop_last() =~= names.take(i as int));
        assert(names.take(i + 1).last() == all@[i as int].name@);
        let name = to_chars(to_lowercase(all[i].name.as_str()).as_str());
        if contains(&name, &wanted) || contains(&wanted, &name) {
            let ghost before = alike@;
            let copy = all[i].name.clone();
            proof {
                crate::text::lemma_texts_push(before, copy);
            }
            alike.push(copy);
        }
        listed.push(all[i].name.clone());
        i += 1;
    }
    assert(names.take(all.len() as int) =~= names);
    assert(texts(listed@) =~= names);
    if alike.len() > 0 {
        Notice::DidYouMean(take_names(&alike, SUGGESTION_COUNT))
    } else {
        let more: usize = if all.len() > LISTING_COUNT {
            all.len() - LISTING_COUNT
        } else {
            0
        };
        Notice::Available(take_names(&listed, LISTING_COUNT), more)
    }
}

/// Adds the repositories that a line of names asks for, and says what
/// became of each name.
pub fn add_by_names(selected: &mut Vec<GitHubRepoData>, input: &str, all: &Vec<GitHubRepoData>) -> (r:
    Vec<Notice>)
    ensures
        (repo_views(final(selected)@), notice_views(r@)) == after_names(
            repo_views(old(selected)@),
            split_on(input@, ','),
            repo_views(all@),
        ),
{
    let entries = split(input, ',');
    let ghost es = texts(entries@);
    let ghost av = repo_views(all@);
    let ghost start = repo_views(selected@);
    let mut notices: Vec<Notice> = Vec::new();
    let mut i: usize = 0;
    assert(es.take(0) =~= Seq::<Seq<char>>::empty());
    assert(notice_views(notices@) =~= Seq::<NoticeView>::empty());
    while i < entries.len()
        invariant
            i <= entries.len(),
            es == texts(entries@),
            es == split_on(input@, ','),
            av == repo_views(all@),
            (repo_views(selected@), notice_views(notices@)) == after_names(
                start,
                es.take(i as int),
                av,
            ),
        decreases entries.len() - i,
    {
        assert(es.take(i + 1).drop_last() =~= es.take(i as int));
        assert(es.take(i + 1).last() == entries@[i as int]@);
        let name = trim(entries[i].as_str());
        match find_repo(all, name.as_str()) {
            Some(k) => {
                if !has_selected(selected, all[k].name.as_str()) {
                    let repo = all[k].clone();
                    let notice = Notice::Added(name);
                    proof {
                        lemma_repo_views_push(selected@, repo);
                        lemma_notice_views_push(notices@, notice);
                    }
                    selected.push(repo);
                    notices.push(notice);
                } else {
                    let notice = Notice::AlreadySelected(name);
                    proof {
                        lemma_notice_views_push(notices@, notice);
                    }
                    notices.push(notice);
                }
            },
            None => {
                let offer = suggest(all, name.as_str());
                let notice = Notice::NotFound(name);
                proof {
                    lemma_notice_views_push(notices@, notice);
                    lemma_notice_views_push(notices@.push(notice), offer);
                }
                notices.push(notice);
                notices.push(offer);
            },
        }
        i += 1;
    }
    assert(es.take(entries.len() as int) =~= es);
    notices
}

/// Where the dialogue stands.
#[derive(Debug, Clone, Copy, PartialEq, Eq)]
pub enum SelectorPhase {
    /// A batch of places is awaited.
    AwaitSelection,
    /// A yes or a no is awaited: are names to be added?
    AwaitConfirmAddMore,
    /// A line of names is awaited.
    AwaitManualNames,
    /// The selection stands.
    Finished,
}

/// The dialogue: where it stands, and what has been selected so far.
#[derive(Debug)]
pub struct Selector {
    pub phase: SelectorPhase,
    pub selected: Vec<GitHubRepoData>,
}

pub struct SelectorView {
    pub phase: SelectorPhase,
    pub selected: Seq<GitHubRepoDataView>,
}

impl View for Selector {
    type V = SelectorView;

    open spec fn view(&self) -> SelectorView {
        SelectorView { phase: self.phase, selected: repo_views(self.selected@) }
    }
}

/// What an answer to a yes-or-no question says.
#[derive(Debug, Clone, Copy, PartialEq, Eq)]
pub enum Answer {
    Yes,
    No,
    Unclear,
}

/// What an answer in lower case says: `y` and `yes` say yes, `n` and `no`
/// say no.
pub open spec fn answer_named(lowered: Seq<char>) -> Answer {
    if lowered == "y"@ || lowered == "yes"@ {
        Answer::Yes
    } else if lowered == "n"@ || lowered == "no"@ {
        Answer::No
    } else {
        Answer::Unclear
    }
}

/// What an answer in lower case says.
pub fn read_answer(lowered: &str) -> (r: Answer)
    ensures
        r == answer_named(lowered@),
{
    if same_text(lowered, "y") || same_text(lowered, "yes") {
        Answer::Yes
    } else if same_text(lowered, "n") || same_text(lowered, "no") {
        Answer::No
    } else {
        Answer::Unclear
    }
}

/// The notice that turns a batch down.
pub open spec fn rejection(e: SelectionErrorView) -> NoticeView {
    match e {
        SelectionErrorView::InvalidRank(n) => NoticeView::InvalidRank(n),
        SelectionErrorView::InvalidInput(s) => NoticeView::InvalidInput(s),
    }
}

/// The state after a line, and what the user is told. The line counts
/// without the white space around it.
///
/// While a batch is awaited: an empty line takes the default and ends the
/// dialogue; a batch with a fault is turned down as a whole, and so is,
/// without a word, one that selects nothing; any other batch is the
/// selection, and the question follows. The question is asked again until
/// the answer, case aside, is `y`, `yes`, `n` or `no`. While names are
/// awaited, each line adds its names and an empty line ends the dialogue.
pub open spec fn stepped(
    state: SelectorView,
    line: Seq<char>,
    ranked: Seq<RankedRepositoryView>,
    all: Seq<GitHubRepoDataView>,
) -> (SelectorView, Seq<NoticeView>) {
    let input = trimmed(line);
    match state.phase {
        SelectorPhase::AwaitSelection => if input.len() == 0 {
            (
                SelectorView {
                    phase: SelectorPhase::Finished,
                    selected: default_choice(ranked, all),
                },
                seq![NoticeView::UsingDefault],
            )
        } else {
            match batch_outcome(split_on(input, ','), ranked, all) {
                Err(e) => (
                    SelectorView { phase: SelectorPhase::AwaitSelection, selected: Seq::empty() },
                    seq![rejection(e)],
                ),
                Ok(chosen) => if chosen.len() > 0 {
                    (
                        SelectorView {
                            phase: SelectorPhase::AwaitConfirmAddMore,
                            selected: chosen,
                        },
                        Seq::empty(),
                    )
                } else {
                    (
                        SelectorView {
                            phase: SelectorPhase::AwaitSelection,
                            selected: Seq::empty(),
                        },
                        Seq::empty(),
                    )
                },
            }
        },
        SelectorPhase::AwaitConfirmAddMore => match answer_named(lowercase(input)) {
            Answer::Yes => (
                SelectorView { phase: SelectorPhase::AwaitManualNames, selected: state.selected },
                seq![NoticeView::AddByName],
            ),
            Answer::No => (
                SelectorView { phase: SelectorPhase::Finished, selected: state.selected },
                Seq::empty(),
            ),
            Answer::Unclear => (state, seq![NoticeView::AnswerYesOrNo]),
        },
        SelectorPhase::AwaitManualNames => if input.len() == 0 {
            (
                SelectorView { phase: SelectorPhase::Finished, selected: state.selected },
                Seq::empty(),
            )
        } else {
            let (selected, notices) = after_names(state.selected, split_on(input, ','), all);
            (SelectorView { phase: SelectorPhase::AwaitManualNames, selected }, notices)
        },
        SelectorPhase::Finished => (state, Seq::empty()),
    }
}

/// A state that the dialogue can be in: nothing is selected while a batch is
/// awaited, and something is once the question is asked or names are
/// awaited.
pub open spec fn well_formed(state: SelectorView) -> bool {
    match state.phase {
        SelectorPhase::AwaitSelection => state.selected.len() == 0,
        SelectorPhase::AwaitConfirmAddMore => state.selected.len() > 0,
        SelectorPhase::AwaitManualNames => state.selected.len() > 0,
        SelectorPhase::Finished => true,
    }
}

/// Names only add to a selection.
pub proof fn lemma_names_only_add(
    selected: Seq<GitHubRepoDataView>,
    entries: Seq<Seq<char>>,
    all: Seq<GitHubRepoDataView>,
)
    ensures
        after_names(selected, entries, all).0.len() >= selected.len(),
    decreases entries.len(),
{
    if entries.len() > 0 {
        lemma_names_only_add(selected, entries.drop_last(), all);
    }
}

/// Every line leaves the dialogue in a state that it can be in.
pub proof fn lemma_step_keeps_well_formed(
    state: SelectorView,
    line: Seq<char>,
    ranked: Seq<RankedRepositoryView>,
    all: Seq<GitHubRepoDataView>,
)
    requires
        well_formed(state),
    ensures
        well_formed(stepped(state, line, ranked, all).0),
{
    if state.phase == SelectorPhase::AwaitManualNames && trimmed(line).len() > 0 {
        lemma_names_only_add(state.selected, split_on(trimmed(line), ','), all);
    }
}

/// A batch with a faulty entry changes nothing: no part of it is kept, a
/// batch is awaited again, and the user is told of one fault.
pub proof fn lemma_faulty_batch_keeps_nothing(
    state: SelectorView,
    line: Seq<char>,
    ranked: Seq<RankedRepositoryView>,
    all: Seq<GitHubRepoDataView>,
    i: int,
)
    requires
        state.phase == SelectorPhase::AwaitSelection,
        trimmed(line).len() > 0,
        0 <= i < split_on(trimmed(line), ',').len(),
        entry_outcome(split_on(trimmed(line), ',')[i], ranked, all) is Err,
    ensures
        stepped(state, line, ranked, all).0 == (SelectorView {
            phase: SelectorPhase::AwaitSelection,
            selected: Seq::empty(),
        }),
        stepped(state, line, ranked, all).1.len() == 1,
{
    lemma_invalid_entry_rejects_batch(split_on(trimmed(line), ','), ranked, all, i);
}

impl Selector {
    /// The dialogue at its start: nothing selected, a batch awaited.
    pub fn new() -> (r: Self)
        ensures
            r@ == (SelectorView { phase: SelectorPhase::AwaitSelection, selected: Seq::empty() }),
            well_formed(r@),
    {
        let r = Selector { phase: SelectorPhase::AwaitSelection, selected: Vec::new() };
        assert(repo_views(r.selected@) =~= Seq::<GitHubRepoDataView>::empty());
        r
    }

    /// Whether the selection stands.
    pub fn is_finished(&self) -> (r: bool)
        ensures
            r == (self.phase == SelectorPhase::Finished),
    {
        match self.phase {
            SelectorPhase::Finished => true,
            _ => false,
        }
    }

    /// Takes one line of input.
    pub fn step(
        &mut self,
        line: &str,
        ranked: &Vec<RankedRepository>,
        all: &Vec<GitHubRepoData>,
    ) -> (r: Vec<Notice>)
        ensures
            (final(self)@, notice_views(r@)) == stepped(
                old(self)@,
                line@,
                ranked_views(ranked@),
                repo_views(all@),
            ),
    {
        let input = trim(line);
        let mut notices: Vec<Notice> = Vec::new();
        assert(notice_views(notices@) =~= Seq::<NoticeView>::empty());
        match self.phase {
            SelectorPhase::AwaitSelection => {
                if input.as_str().is_empty() {
                    self.selected = default_selection(ranked, all);
                    self.phase = SelectorPhase::Finished;
                    notices.push(Notice::UsingDefault);
                    assert(notice_views(notices@) =~= seq![NoticeView::UsingDefault]);
                } else {
                    match select_batch(input.as_str(), ranked, all) {
                        Err(e) => {
                            let ghost ev = e@;
                            let notice = match e {
                                SelectionError::InvalidRank(n) => Notice::InvalidRank(n),
                                SelectionError::InvalidInput(s) => Notice::InvalidInput(s),
                            };
                            assert(notice@ == rejection(ev));
                            notices.push(notice);
                            assert(notice_views(notices@) =~= seq![rejection(ev)]);
                            self.selected = Vec::new();
                            assert(repo_views(self.selected@) =~= Seq::<
                                GitHubRepoDataView,
                            >::empty());
                        },
                        Ok(chosen) => {
                            if chosen.len() > 0 {
                                self.selected = chosen;
                                self.phase = SelectorPhase::AwaitConfirmAddMore;
                            } else {
                                self.selected = Vec::new();
                                assert(repo_views(self.selected@) =~= Seq::<
                                    GitHubRepoDataView,
                                >::empty());
                            }
                        },
                    }
                }
            },
            SelectorPhase::AwaitConfirmAddMore => {
                match read_answer(to_lowercase(input.as_str()).as_str()) {
                    Answer::Yes => {
                        self.phase = SelectorPhase::AwaitManualNames;
                        notices.push(Notice::AddByName);
                        assert(notice_views(notices@) =~= seq![NoticeView::AddByName]);
                    },
                    Answer::No => {
                        self.phase = SelectorPhase::Finished;
                    },
                    Answer::Unclear => {
                        notices.push(Notice::AnswerYesOrNo);
                        assert(notice_views(notices@) =~= seq![NoticeView::AnswerYesOrNo]);
                    },
                }
            },
            SelectorPhase::AwaitManualNames => {
                if input.as_str().is_empty() {
                    self.phase = SelectorPhase::Finished;
                } else {
                    notices = add_by_names(&mut self.selected, input.as_str(), all);
                }
            },
            SelectorPhase::Finished => {},
        }
        notices
    }
}

/// How a notice is coloured.
#[derive(Debug, Clone, Copy, PartialEq, Eq)]
pub enum Tone {
    Cyan,
    Green,
    Red,
    Yellow,
}

/// The colour of each notice.
pub open spec fn tone_of(notice: NoticeView) -> Tone {
    match notice {
        NoticeView::UsingDefault => Tone::Yellow,
        NoticeView::InvalidRank(_) => Tone::Red,
        NoticeView::InvalidInput(_) => Tone::Red,
        NoticeView::AnswerYesOrNo => Tone::Red,
        NoticeView::AddByName => Tone::Cyan,
        NoticeView::Added(_) => Tone::Green,
        NoticeView::AlreadySelected(_) => Tone::Yellow,
        NoticeView::NotFound(_) => Tone::Red,
        NoticeView::DidYouMean(_) => Tone::Cyan,
        NoticeView::Available(_, _) => Tone::Cyan,
    }
}

pub fn notice_tone(notice: &Notice) -> (r: Tone)
    ensures
        r == tone_of(notice@),
{
    match notice {
        Notice::UsingDefault => Tone::Yellow,
        Notice::InvalidRank(_) => Tone::Red,
        Notice::InvalidInput(_) => Tone::Red,
        Notice::AnswerYesOrNo => Tone::Red,
        Notice::AddByName => Tone::Cyan,
        Notice::Added(_) => Tone::Green,
        Notice::AlreadySelected(_) => Tone::Yellow,
        Notice::NotFound(_) => Tone::Red,
        Notice::DidYouMean(_) => Tone::Cyan,
        Notice::Available(_, _) => Tone::Cyan,
    }
}

/// A list of names, each on a line of its own behind a bullet.
pub open spec fn bulleted(names: Seq<Seq<char>>) -> Seq<char>
    decreases names.len(),
{
    if names.len() == 0 {
        Seq::empty()
    } else {
        bulleted(names.drop_last()) + "\n    \u{2022} "@ + names.last()
    }
}

/// The words of each notice.
pub open spec fn notice_message(notice: NoticeView) -> Seq<char> {
    match notice {
        NoticeView::UsingDefault => "No repositories selected. Using top 5 by default."@,
        NoticeView::InvalidRank(n) => "Invalid rank: "@ + decimal_text(n as nat)
            + ". Please try again."@,
        NoticeView::InvalidInput(s) => "Invalid input: '"@ + s
            + "'. Please enter numbers separated by commas."@,
        NoticeView::AnswerYesOrNo => "Please enter 'y' or 'n'."@,
        NoticeView::AddByName =>
            "\nAdd repositories by name (e.g., 'owner/repo-name' or just 'repo-name'):"@,
        NoticeView::Added(s) => "\u{2713} Added: "@ + s,
        NoticeView::AlreadySelected(s) => "\u{2298} Already selected: "@ + s,
        NoticeView::NotFound(s) => "\u{2717} Not found in profile: "@ + s,
        NoticeView::DidYouMean(names) => "  \u{2192} Did you mean:"@ + bulleted(names),
        NoticeView::Available(names, more) =>
            "  \u{2192} No similar repos found. Available repos in your profile:"@ + bulleted(
                names,
            ) + (if more > 0 {
                "\n    \u{2022} and "@ + decimal_text(more as nat) + " more..."@
            } else {
                Seq::empty()
            }),
    }
}

fn push_bulleted(out: &mut String, names: &Vec<String>)
    ensures
        final(out)@ == old(out)@ + bulleted(texts(names@)),
{
    let ghost start = out@;
    let mut i: usize = 0;
    assert(texts(names@).take(0) =~= Seq::<Seq<char>>::empty());
    assert(start + Seq::<char>::empty() =~= start);
    while i < names.len()
        invariant
            i <= names.len(),
            out@ == start + bulleted(texts(names@).take(i as int)),
        decreases names.len() - i,
    {
        out.append("\n    \u{2022} ");
        out.append(names[i].as_str());
        assert(texts(names@).take(i + 1).drop_last() =~= texts(names@).take(i as int));
        assert(out@ =~= start + (bulleted(texts(names@).take(i as int)) + "\n    \u{2022} "@
            + names@[i as int]@));
        i += 1;
    }
    assert(texts(names@).take(names.len() as int) =~= texts(names@));
}

/// The words of a notice.
pub fn notice_text(notice: &Notice) -> (r: String)
    ensures
        r@ == notice_message(notice@),
{
    let mut out = String::new();
    match notice {
        Notice::UsingDefault => {
            out.append("No repositories selected. Using top 5 by default.");
        },
        Notice::InvalidRank(n) => {
            out.append("Invalid rank: ");
            push_decimal(&mut out, *n as u64);
            out.append(". Please try again.");
        },
        Notice::InvalidInput(s) => {
            out.append("Invalid input: '");
            out.append(s.as_str());
            out.append("'. Please enter numbers separated by commas.");
        },
        Notice::AnswerYesOrNo => {
            out.append("Please enter 'y' or 'n'.");
        },
        Notice::AddByName => {
            out.append("\nAdd repositories by name (e.g., 'owner/repo-name' or just 'repo-name'):");
        },
        Notice::Added(s) => {
            out.append("\u{2713} Added: ");
            out.append(s.as_str());
        },
        Notice::AlreadySelected(s) => {
            out.append("\u{2298} Already selected: ");
            out.append(s.as_str());
        },
        Notice::NotFound(s) => {
            out.append("\u{2717} Not found in profile: ");
            out.append(s.as_str());
        },
        Notice::DidYouMean(names) => {
            out.append("  \u{2192} Did you mean:");
            push_bulleted(&mut out, names);
        },
        Notice::Available(names, more) => {
            out.append("  \u{2192} No similar repos found. Available repos in your profile:");
            push_bulleted(&mut out, names);
            if *more > 0 {
                out.append("\n    \u{2022} and ");
                push_decimal(&mut out, *more as u64);
                out.append(" more...");
            }
        },
    }
    assert(out@ =~= notice_message(notice@));
    out
}

/// What the user is asked in each phase.
pub open spec fn prompt_text(phase: SelectorPhase) -> Seq<char> {
    match phase {
        SelectorPhase::AwaitSelection =>
            "Enter repository numbers to include (comma-separated, e.g., '1,2,3'): "@,
        SelectorPhase::AwaitConfirmAddMore => "\nAdd more repositories manually? (y/n): "@,
        SelectorPhase::AwaitManualNames =>
            "Enter repository name(s) (comma-separated, or press Enter to finish): "@,
        SelectorPhase::Finished => ""@,
    }
}

pub fn prompt(phase: SelectorPhase) -> (r: &'static str)
    ensures
        r@ == prompt_text(phase),
{
    match phase {
        SelectorPhase::AwaitSelection =>
            "Enter repository numbers to include (comma-separated, e.g., '1,2,3'): ",
        SelectorPhase::AwaitConfirmAddMore => "\nAdd more repositories manually? (y/n): ",
        SelectorPhase::AwaitManualNames =>
            "Enter repository name(s) (comma-separated, or press Enter to finish): ",
        SelectorPhase::Finished => "",
    }
}

/// How many stars mark a suggestion: one for every two places, five at most.
pub open spec fn relevance(rank: usize) -> nat {
    if rank / 2 < 5 {
        (rank / 2) as nat
    } else {
        5
    }
}

pub fn relevance_stars(rank: usize) -> (r: usize)
    ensures
        r == relevance(rank),
{
    if rank / 2 < 5 {
        rank / 2
    } else {
        5
    }
}

/// `n` stars in a row.
pub open spec fn stars(n: nat) -> Seq<char>
    decreases n,
{
    if n == 0 {
        Seq::empty()
    } else {
        stars((n - 1) as nat).push('\u{2605}')
    }
}

/// A suggestion as it is listed: place, stars and name, then the reason.
pub open spec fn listing(r: RankedRepositoryView) -> Seq<char> {
    decimal_text(r.rank as nat) + ". ["@ + stars(relevance(r.rank)) + "] "@ + r.name + "\n   "@
        + r.reasoning + "\n"@
}

/// A suggestion as it is listed.
pub fn ranked_entry(r: &RankedRepository) -> (out: String)
    ensures
        out@ == listing(r@),
{
    let mut out = String::new();
    push_decimal(&mut out, r.rank as u64);
    out.append(". [");
    let ghost head = out@;
    let n = relevance_stars(r.rank);
    let mut i: usize = 0;
    assert(head + stars(0) =~= head);
    while i < n
        invariant
            i <= n,
            out@ == head + stars(i as nat),
        decreases n - i,
    {
        out.push('\u{2605}');
        assert(out@ =~= head + stars(i as nat).push('\u{2605}'));
        i += 1;
    }
    out.append("] ");
    out.append(r.name.as_str());
    out.append("\n   ");
    out.append(r.reasoning.as_str());
    out.append("\n");
    assert(out@ =~= listing(r@));
    out
}

} // verus!
