//! Repositories as the hosting service lists them, and what is kept of each
//! for ranking and writing.

use crate::job::{capture_of, find_capture};
use crate::json::{json_get, json_model, json_str, member, parse_json, parsed_json, text_of, Json};
use crate::number::{decimal_text, parse_u64, parsed_unsigned, push_decimal};
use crate::text::{copy_opt, opt_text, remove_chars, without_chars};
use vstd::prelude::*;
use vstd::string::*;
use vstd::utf8::{decode_utf8, valid_utf8};

verus! {

/// The account that a repository belongs to.
#[derive(Debug, Clone)]
pub struct RepositoryOwner {
    pub login: String,
    pub id: u64,
    pub node_id: String,
    pub avatar_url: String,
    pub gravatar_id: String,
    pub url: String,
    pub html_url: String,
    pub followers_url: String,
    pub following_url: String,
    pub gists_url: String,
    pub starred_url: String,
    pub subscriptions_url: String,
    pub organizations_url: String,
    pub repos_url: String,
    pub events_url: String,
    pub received_events_url: String,
    pub account_type: String,
    pub user_view_type: String,
    pub site_admin: bool,
}

/// What the listing account may do with a repository.
#[derive(Debug)]
pub struct RepositoryPermissions {
    pub admin: bool,
    pub maintain: bool,
    pub push: bool,
    pub triage: bool,
    pub pull: bool,
}

/// The license that a repository declares.
#[derive(Debug)]
pub struct RepositoryLicense {
    pub key: String,
    pub name: String,
    pub spdx_id: String,
    pub url: Option<String>,
    pub node_id: String,
}

/// One repository of a listing, with every field that the listing carries.
#[derive(Debug)]
pub struct Repository {
    pub id: u64,
    pub node_id: String,
    pub name: String,
    pub full_name: String,
    pub private: bool,
    pub owner: RepositoryOwner,
    pub html_url: String,
    pub description: Option<String>,
    pub fork: bool,
    pub url: String,
    pub forks_url: String,
    pub keys_url: String,
    pub collaborators_url: String,
    pub teams_url: String,
    pub hooks_url: String,
    pub issue_events_url: String,
    pub events_url: String,
    pub assignees_url: String,
    pub branches_url: String,
    pub tags_url: String,
    pub blobs_url: String,
    pub git_tags_url: String,
    pub git_refs_url: String,
    pub trees_url: String,
    pub statuses_url: String,
    pub languages_url: String,
    pub stargazers_url: String,
    pub contributors_url: String,
    pub subscribers_url: String,
    pub subscription_url: String,
    pub commits_url: String,
    pub git_commits_url: String,
    pub comments_url: String,
    pub issue_comment_url: String,
    pub contents_url: String,
    pub compare_url: String,
    pub merges_url: String,
    pub archive_url: String,
    pub downloads_url: String,
    pub issues_url: String,
    pub pulls_url: String,
    pub milestones_url: String,
    pub notifications_url: String,
    pub labels_url: String,
    pub releases_url: String,
    pub deployments_url: String,
    pub created_at: String,
    pub updated_at: String,
    pub pushed_at: String,
    pub git_url: String,
    pub ssh_url: String,
    pub clone_url: String,
    pub svn_url: String,
    pub homepage: Option<String>,
    pub size: u64,
    pub stargazers_count: u64,
    pub watchers_count: u64,
    pub language: Option<String>,
    pub has_issues: bool,
    pub has_projects: bool,
    pub has_downloads: bool,
    pub has_wiki: bool,
    pub has_pages: bool,
    pub has_discussions: bool,
    pub forks_count: u64,
    pub mirror_url: Option<String>,
    pub archived: bool,
    pub disabled: bool,
    pub open_issues_count: u64,
    pub license: Option<RepositoryLicense>,
    pub allow_forking: bool,
    pub is_template: bool,
    pub web_commit_signoff_required: bool,
    pub topics: Vec<String>,
    pub visibility: String,
    pub forks: u64,
    pub open_issues: u64,
    pub watchers: u64,
    pub default_branch: String,
    pub permissions: RepositoryPermissions,
}

/// Stars beyond this many add nothing to a repository's weight.
pub const STAR_CAP: u64 = 1000;

/// Forks beyond this many add nothing to a repository's weight.
pub const FORK_CAP: u64 = 100;

/// Size beyond this adds nothing to a repository's weight.
pub const SIZE_CAP: u64 = 10000;

pub open spec fn at_most(value: u64, cap: u64) -> int {
    if value < cap {
        value as int
    } else {
        cap as int
    }
}

/// The weight of a repository among its owner's: nothing for an archive or a
/// fork; otherwise three for each star, two for each fork and one for each
/// hundred units of size, each count capped.
pub open spec fn importance(archived: bool, fork: bool, stars: u64, forks: u64, size: u64) -> int {
    if archived || fork {
        0
    } else {
        at_most(stars, STAR_CAP) * 3 + at_most(forks, FORK_CAP) * 2 + at_most(size, SIZE_CAP) / 100
    }
}

fn cap(value: u64, limit: u64) -> (r: u64)
    ensures
        r == at_most(value, limit),
{
    if value < limit {
        value
    } else {
        limit
    }
}

impl Repository {
    /// The importance of this repository.
    pub open spec fn score(&self) -> int {
        importance(self.archived, self.fork, self.stargazers_count, self.forks_count, self.size)
    }

    /// The weight by which repositories are ordered and summarized.
    pub fn importance_score(&self) -> (r: u64)
        ensures
            r == self.score(),
            self.archived || self.fork ==> r == 0,
            r <= 3300,
    {
        if self.archived || self.fork {
            return 0;
        }
        let stars = cap(self.stargazers_count, STAR_CAP);
        let forks = cap(self.forks_count, FORK_CAP);
        let size = cap(self.size, SIZE_CAP) / 100;
        (stars * 3) + (forks * 2) + size
    }
}

/// One language of a repository: how many bytes are written in it, and that
/// share of the whole as it is shown, a percentage with at most two decimals.
#[derive(Debug, PartialEq)]
pub struct LanguageShare {
    pub name: String,
    pub byte_count: u64,
    pub percent: String,
}

pub struct LanguageShareView {
    pub name: Seq<char>,
    pub byte_count: u64,
    pub percent: Seq<char>,
}

impl View for LanguageShare {
    type V = LanguageShareView;

    open spec fn view(&self) -> LanguageShareView {
        LanguageShareView { name: self.name@, byte_count: self.byte_count, percent: self.percent@ }
    }
}

impl Clone for LanguageShare {
    fn clone(&self) -> (r: Self)
        ensures
            r@ == self@,
    {
        LanguageShare {
            name: self.name.clone(),
            byte_count: self.byte_count,
            percent: self.percent.clone(),
        }
    }
}

pub open spec fn share_views(v: Seq<LanguageShare>) -> Seq<LanguageShareView> {
    Seq::new(v.len(), |i: int| v[i]@)
}

/// The languages of a repository, in the order in which they were reported.
#[derive(Debug, PartialEq)]
pub struct RepositoryLanguages {
    pub languages: Vec<LanguageShare>,
    pub total_byte_count: u64,
}

pub struct RepositoryLanguagesView {
    pub languages: Seq<LanguageShareView>,
    pub total_byte_count: u64,
}

impl View for RepositoryLanguages {
    type V = RepositoryLanguagesView;

    open spec fn view(&self) -> RepositoryLanguagesView {
        RepositoryLanguagesView {
            languages: share_views(self.languages@),
            total_byte_count: self.total_byte_count,
        }
    }
}

impl Clone for RepositoryLanguages {
    fn clone(&self) -> (r: Self)
        ensures
            r@ == self@,
    {
        let mut languages: Vec<LanguageShare> = Vec::new();
        let mut i: usize = 0;
        while i < self.languages.len()
            invariant
                i <= self.languages.len(),
                languages.len() == i,
                forall|k: int| 0 <= k < i ==> languages@[k]@ == self.languages@[k]@,
            decreases self.languages.len() - i,
        {
            languages.push(self.languages[i].clone());
            i += 1;
        }
        assert(share_views(languages@) =~= share_views(self.languages@));
        RepositoryLanguages { languages, total_byte_count: self.total_byte_count }
    }
}

pub open spec fn opt_languages(o: Option<RepositoryLanguages>) -> Option<RepositoryLanguagesView> {
    match o {
        Some(l) => Some(l@),
        None => None,
    }
}

/// What is kept of a repository once its details have been fetched.
#[derive(Debug, PartialEq)]
pub struct GitHubRepoData {
    pub name: String,
    pub url: String,
    pub stargazers_count: u64,
    pub forks_count: u64,
    pub size: u64,
    pub importance_score: u64,
    pub languages: Option<RepositoryLanguages>,
    pub created_at: String,
    pub pushed_at: String,
    pub readme: Option<String>,
    pub commits: u64,
}

pub struct GitHubRepoDataView {
    pub name: Seq<char>,
    pub url: Seq<char>,
    pub stargazers_count: u64,
    pub forks_count: u64,
    pub size: u64,
    pub importance_score: u64,
    pub languages: Option<RepositoryLanguagesView>,
    pub created_at: Seq<char>,
    pub pushed_at: Seq<char>,
    pub readme: Option<Seq<char>>,
    pub commits: u64,
}

impl View for GitHubRepoData {
    type V = GitHubRepoDataView;

    open spec fn view(&self) -> GitHubRepoDataView {
        GitHubRepoDataView {
            name: self.name@,
            url: self.url@,
            stargazers_count: self.stargazers_count,
            forks_count: self.forks_count,
            size: self.size,
            importance_score: self.importance_score,
            languages: opt_languages(self.languages),
            created_at: self.created_at@,
            pushed_at: self.pushed_at@,
            readme: opt_text(self.readme),
            commits: self.commits,
        }
    }
}

impl Clone for GitHubRepoData {
    fn clone(&self) -> (r: Self)
        ensures
            r@ == self@,
    {
        GitHubRepoData {
            name: self.name.clone(),
            url: self.url.clone(),
            stargazers_count: self.stargazers_count,
            forks_count: self.forks_count,
            size: self.size,
            importance_score: self.importance_score,
            languages: match &self.languages {
                Some(l) => Some(l.clone()),
                None => None,
            },
            created_at: self.created_at.clone(),
            pushed_at: self.pushed_at.clone(),
            readme: copy_opt(&self.readme),
            commits: self.commits,
        }
    }
}

/// The models of a list of repositories.
pub open spec fn repo_views(v: Seq<GitHubRepoData>) -> Seq<GitHubRepoDataView> {
    Seq::new(v.len(), |i: int| v[i]@)
}

pub proof fn lemma_repo_views_push(v: Seq<GitHubRepoData>, repo: GitHubRepoData)
    ensures
        repo_views(v.push(repo)) == repo_views(v).push(repo@),
{
    assert(repo_views(v.push(repo)) =~= repo_views(v).push(repo@));
}

/// How every request to the hosting service names its sender.
pub const USER_AGENT: &'static str = "auto-resume-app";

/// The address of one page of a user's repositories, a hundred to the page.
pub open spec fn listing_address(username: Seq<char>, page: u32) -> Seq<char> {
    "https://api.github.com/users/"@ + username + "/repos?per_page=100&page="@ + decimal_text(
        page as nat,
    )
}

pub fn listing_url(username: &str, page: u32) -> (r: String)
    ensures
        r@ == listing_address(username@, page),
{
    let mut out = String::from_str("https://api.github.com/users/");
    out.append(username);
    out.append("/repos?per_page=100&page=");
    push_decimal(&mut out, page as u64);
    out
}

/// The address of a repository's README.
pub fn readme_url(repo_url: &str) -> (r: String)
    ensures
        r@ == repo_url@ + "/readme"@,
{
    let mut out = String::from_str(repo_url);
    out.append("/readme");
    out
}

/// The address that shows a repository's commits one to a page.
pub fn commits_url(repo_url: &str) -> (r: String)
    ensures
        r@ == repo_url@ + "/commits?per_page=1"@,
{
    let mut out = String::from_str(repo_url);
    out.append("/commits?per_page=1");
    out
}

/// The address of a repository's languages.
pub fn languages_url(repo_url: &str) -> (r: String)
    ensures
        r@ == repo_url@ + "/languages"@,
{
    let mut out = String::from_str(repo_url);
    out.append("/languages");
    out
}

/// The `Authorization` header, where a token is configured.
pub fn authorization(token: &Option<String>) -> (r: Option<String>)
    ensures
        opt_text(r) == (match opt_text(*token) {
            Some(t) => Some("token "@ + t),
            None => None,
        }),
{
    match token {
        Some(t) => {
            let mut out = String::from_str("token ");
            out.append(t.as_str());
            Some(out)
        },
        None => None,
    }
}

/// The listing of a user's repositories while its pages come in.
#[derive(Debug)]
pub struct Listing {
    /// The page to fetch next; the first is 1.
    pub page: u32,
    /// What the pages so far have held.
    pub repositories: Vec<Repository>,
}

impl Listing {
    /// A listing of which no page has come in.
    pub fn new() -> (r: Self)
        ensures
            r.page == 1,
            r.repositories@ == Seq::<Repository>::empty(),
    {
        Listing { page: 1, repositories: Vec::new() }
    }

    /// Takes in one page. The answer is `true` where the listing is
    /// complete: that is where the response had no `link` header, however
    /// many repositories the page held. Otherwise the next page is due.
    pub fn receive(&mut self, page: Vec<Repository>, has_link_header: bool) -> (complete: bool)
        requires
            has_link_header ==> old(self).page < u32::MAX,
        ensures
            complete == !has_link_header,
            final(self).repositories@ == old(self).repositories@ + page@,
            final(self).page == (if has_link_header {
                old(self).page + 1
            } else {
                old(self).page as int
            }),
    {
        let mut page = page;
        self.repositories.append(&mut page);
        if has_link_header {
            self.page = self.page + 1;
            false
        } else {
            true
        }
    }
}

/// `base64::DecodeError`, why a text is no base64.
#[verifier::external_type_specification]
#[verifier::external_body]
pub struct ExDecodeError(base64::DecodeError);

/// The bytes that a text encodes in standard base64 with padding, or `None`
/// where it encodes none.
pub uninterp spec fn base64_decoded(text: Seq<char>) -> Option<Seq<u8>>;

/// `Engine::decode` of `BASE64_STANDARD`. Nothing is proved of the
/// decoding itself: the result is only given its name.
#[verifier::external_body]
pub(crate) fn base64_decode(text: &str) -> (r: Result<Vec<u8>, base64::DecodeError>)
    ensures
        match r {
            Ok(bytes) => base64_decoded(text@) == Some(bytes@),
            Err(_) => base64_decoded(text@) is None,
        },
{
    base64::Engine::decode(&base64::prelude::BASE64_STANDARD, text)
}

/// `String::from_utf8`: the text that the bytes encode in UTF-8, or `None`
/// where they are no valid UTF-8.
#[verifier::external_body]
pub(crate) fn text_from_utf8(bytes: Vec<u8>) -> (r: Option<String>)
    ensures
        match r {
            Some(s) => valid_utf8(bytes@) && s@ == decode_utf8(bytes@),
            None => !valid_utf8(bytes@),
        },
{
    String::from_utf8(bytes).ok()
}

/// Why a README could not be read.
#[derive(Debug, Clone, Copy, PartialEq, Eq)]
pub enum ReadmeError {
    /// The response body is no JSON document.
    InvalidBody,
    /// The content is no base64.
    NotBase64,
    /// The decoded content is no UTF-8 text.
    NotText,
}

/// The README that a content field encodes: base64, broken into lines, of
/// text in UTF-8.
pub open spec fn decoded_readme(content: Seq<char>) -> Result<Seq<char>, ReadmeError> {
    match base64_decoded(without_chars(content, '\n', '\r')) {
        None => Err(ReadmeError::NotBase64),
        Some(bytes) => if valid_utf8(bytes) {
            Ok(decode_utf8(bytes))
        } else {
            Err(ReadmeError::NotText)
        },
    }
}

/// Decodes the content field of a README response.
pub fn decode_readme(content: &str) -> (r: Result<String, ReadmeError>)
    ensures
        match r {
            Ok(text) => decoded_readme(content@) == Ok::<Seq<char>, ReadmeError>(text@),
            Err(e) => decoded_readme(content@) == Err::<Seq<char>, ReadmeError>(e),
        },
{
    let joined = remove_chars(content, '\n', '\r');
    match base64_decode(joined.as_str()) {
        Err(_) => Err(ReadmeError::NotBase64),
        Ok(bytes) => match text_from_utf8(bytes) {
            Some(text) => Ok(text),
            None => Err(ReadmeError::NotText),
        },
    }
}

/// The README that a response document carries: none where it has no
/// `content`; a `content` that is no string counts as empty.
pub open spec fn readme_of(body: Json) -> Result<Option<Seq<char>>, ReadmeError> {
    match member(body, "content"@) {
        None => Ok(None),
        Some(content) => match decoded_readme(
            match text_of(content) {
                Some(t) => t,
                None => Seq::empty(),
            },
        ) {
            Ok(text) => Ok(Some(text)),
            Err(e) => Err(e),
        },
    }
}

/// The README that a parsed response carries.
pub fn readme_from_json(body: &serde_json::Value) -> (r: Result<Option<String>, ReadmeError>)
    ensures
        match r {
            Ok(text) => readme_of(json_model(*body)) == Ok::<Option<Seq<char>>, ReadmeError>(
                opt_text(text),
            ),
            Err(e) => readme_of(json_model(*body)) == Err::<Option<Seq<char>>, ReadmeError>(e),
        },
{
    match json_get(body, "content") {
        None => Ok(None),
        Some(content) => {
            proof {
                reveal_strlit("");
                assert(""@ =~= Seq::<char>::empty());
            }
            let decoded = match json_str(content) {
                Some(t) => decode_readme(t),
                None => decode_readme(""),
            };
            match decoded {
                Ok(text) => Ok(Some(text)),
                Err(e) => Err(e),
            }
        },
    }
}

/// The README that a response carries. A response without success carries
/// none, whatever its body.
pub open spec fn readme_outcome(success: bool, body: Seq<char>) -> Result<
    Option<Seq<char>>,
    ReadmeError,
> {
    if !success {
        Ok(None)
    } else {
        match parsed_json(body) {
            None => Err(ReadmeError::InvalidBody),
            Some(j) => readme_of(j),
        }
    }
}

/// The README that a response carries.
pub fn readme_from_response(success: bool, body: &str) -> (r: Result<Option<String>, ReadmeError>)
    ensures
        match r {
            Ok(text) => readme_outcome(success, body@) == Ok::<Option<Seq<char>>, ReadmeError>(
                opt_text(text),
            ),
            Err(e) => readme_outcome(success, body@) == Err::<Option<Seq<char>>, ReadmeError>(e),
        },
{
    if !success {
        return Ok(None);
    }
    match parse_json(body) {
        Err(_) => Err(ReadmeError::InvalidBody),
        Ok(v) => readme_from_json(&v),
    }
}

/// What a `link` header looks like where a repository has more than one
/// commit: the second page is next, and the last page is captured.
pub const LAST_PAGE: &'static str =
    "<https://api\\.github\\.com/repositories/\\d+/commits\\?per_page=1&page=2>; rel=\"next\", <https://api\\.github\\.com/repositories/\\d+/commits\\?per_page=1&page=(\\d+)>; rel=\"last\"";

/// The number of commits that a `link` header tells: the number of the last
/// page, and 0 where the header is missing, has another form, or tells no
/// number of 64 bits in the digits `0` to `9`.
pub open spec fn commits_told(link: Option<Seq<char>>) -> u64 {
    match link {
        None => 0,
        Some(l) => match capture_of(LAST_PAGE@, l, 1) {
            None => 0,
            Some(digits) => match parsed_unsigned(digits, u64::MAX as nat) {
                Some(n) => n as u64,
                None => 0,
            },
        },
    }
}

/// The number of commits that a `link` header tells.
pub fn commit_count_from_link(link: Option<&str>) -> (r: u64)
    ensures
        r == commits_told(
            match link {
                Some(l) => Some(l@),
                None => None,
            },
        ),
{
    match link {
        None => 0,
        Some(l) => match find_capture(LAST_PAGE, l, 1) {
            None => 0,
            Some(digits) => match parse_u64(digits.as_str()) {
                Some(n) => n,
                None => 0,
            },
        },
    }
}

/// The README that goes with a repository: the cached one where there is
/// one, else the fetched one; an empty README is none.
pub open spec fn readme_kept(cached: Option<Seq<char>>, fetched: Option<Seq<char>>) -> Option<
    Seq<char>,
> {
    let text = match cached {
        Some(c) => c,
        None => match fetched {
            Some(f) => f,
            None => Seq::empty(),
        },
    };
    if text.len() == 0 {
        None
    } else {
        Some(text)
    }
}

/// What is kept of a repository, given what was fetched for it. A commit
/// count that could not be fetched is 0.
pub open spec fn kept(
    repo: Repository,
    cached: Option<Seq<char>>,
    fetched: Option<Seq<char>>,
    commits: Option<u64>,
    languages: Option<RepositoryLanguagesView>,
) -> GitHubRepoDataView {
    GitHubRepoDataView {
        name: repo.name@,
        url: repo.url@,
        stargazers_count: repo.stargazers_count,
        forks_count: repo.forks_count,
        size: repo.size,
        importance_score: repo.score() as u64,
        languages,
        created_at: repo.created_at@,
        pushed_at: repo.pushed_at@,
        readme: readme_kept(cached, fetched),
        commits: match commits {
            Some(n) => n,
            None => 0,
        },
    }
}

/// What is kept of a repository.
pub fn repo_data(
    repo: &Repository,
    cached_readme: Option<String>,
    fetched_readme: Option<String>,
    commits: Option<u64>,
    languages: Option<RepositoryLanguages>,
) -> (r: GitHubRepoData)
    ensures
        r@ == kept(
            *repo,
            opt_text(cached_readme),
            opt_text(fetched_readme),
            commits,
            opt_languages(languages),
        ),
{
    let readme = match cached_readme {
        Some(c) => c,
        None => match fetched_readme {
            Some(f) => f,
            None => String::new(),
        },
    };
    let readme = if readme.as_str().is_empty() {
        None
    } else {
        Some(readme)
    };
    GitHubRepoData {
        name: repo.name.clone(),
        url: repo.url.clone(),
        stargazers_count: repo.stargazers_count,
        forks_count: repo.forks_count,
        size: repo.size,
        importance_score: repo.importance_score(),
        languages,
        created_at: repo.created_at.clone(),
        pushed_at: repo.pushed_at.clone(),
        readme,
        commits: match commits {
            Some(n) => n,
            None => 0,
        },
    }
}

/// The repositories of a list that are no forks and have a given
/// importance, in the order of the list.
pub open spec fn own_scoring(s: Seq<Repository>, k: int) -> Seq<Repository>
    decreases s.len(),
{
    if s.len() == 0 {
        Seq::empty()
    } else if !s.last().fork && s.last().score() == k {
        own_scoring(s.drop_last(), k).push(s.last())
    } else {
        own_scoring(s.drop_last(), k)
    }
}

/// No repository of the list is less important than one behind it.
pub open spec fn descending(s: Seq<Repository>) -> bool {
    forall|i: int, j: int| 0 <= i <= j < s.len() ==> s[i].score() >= s[j].score()
}

pub proof fn lemma_own_scoring_concat(a: Seq<Repository>, b: Seq<Repository>, k: int)
    ensures
        own_scoring(a + b, k) == own_scoring(a, k) + own_scoring(b, k),
    decreases b.len(),
{
    if b.len() == 0 {
        assert(a + b =~= a);
        assert(own_scoring(a, k) + own_scoring(b, k) =~= own_scoring(a, k));
    } else {
        assert((a + b).drop_last() =~= a + b.drop_last());
        assert((a + b).last() == b.last());
        lemma_own_scoring_concat(a, b.drop_last(), k);
        if !b.last().fork && b.last().score() == k {
            assert((own_scoring(a, k) + own_scoring(b.drop_last(), k)).push(b.last())
                =~= own_scoring(a, k) + own_scoring(b.drop_last(), k).push(b.last()));
        }
    }
}

pub proof fn lemma_own_scoring_none(s: Seq<Repository>, k: int)
    requires
        forall|i: int| 0 <= i < s.len() ==> (#[trigger] s[i]).score() != k,
    ensures
        own_scoring(s, k) == Seq::<Repository>::empty(),
    decreases s.len(),
{
    if s.len() > 0 {
        assert(s.last() == s[s.len() - 1]);
        assert forall|i: int| 0 <= i < s.drop_last().len() implies (#[trigger] s.drop_last()[i]).score()
            != k by {
            assert(s.drop_last()[i] == s[i]);
        }
        lemma_own_scoring_none(s.drop_last(), k);
    }
}

pub proof fn lemma_own_scoring_one(x: Repository, k: int)
    ensures
        own_scoring(seq![x], k) == (if !x.fork && x.score() == k {
            seq![x]
        } else {
            Seq::<Repository>::empty()
        }),
{
    assert(seq![x].drop_last() =~= Seq::<Repository>::empty());
    assert(seq![x].last() == x);
    assert(own_scoring(Seq::<Repository>::empty(), k) =~= Seq::<Repository>::empty());
    assert(Seq::<Repository>::empty().push(x) =~= seq![x]);
}

/// The repositories that are no forks, the most important first. Among
/// repositories of one importance the order of the listing stays.
pub fn rank_by_importance(repos: Vec<Repository>) -> (r: Vec<Repository>)
    ensures
        descending(r@),
        forall|i: int| 0 <= i < r.len() ==> !(#[trigger] r@[i]).fork,
        forall|k: int| own_scoring(r@, k) == own_scoring(repos@, k),
{
    let mut rest = repos;
    let mut out: Vec<Repository> = Vec::new();
    proof {
        assert forall|k: int|
            own_scoring(out@, k) + own_scoring(rest@, k) == own_scoring(
                repos@,
                k,
            ) by {
            assert(Seq::<Repository>::empty() + own_scoring(rest@, k) =~= own_scoring(
                rest@,
                k,
            ));
        }
    }
    while rest.len() > 0
        invariant
            descending(out@),
            forall|i: int| 0 <= i < out.len() ==> !(#[trigger] out@[i]).fork,
            forall|k: int|
                own_scoring(out@, k) + own_scoring(rest@, k) == own_scoring(
                    repos@,
                    k,
                ),
        decreases rest.len(),
    {
        let ghost before = rest@;
        let ghost sorted = out@;
        let x = rest.remove(0);
        assert(before =~= seq![x] + rest@);
        if x.fork {
            proof {
                assert forall|k: int|
                    own_scoring(out@, k) + own_scoring(rest@, k) == own_scoring(
                        repos@,
                        k,
                    ) by {
                    lemma_own_scoring_concat(seq![x], rest@, k);
                    lemma_own_scoring_one(x, k);
                    assert(Seq::<Repository>::empty() + own_scoring(rest@, k)
                        =~= own_scoring(rest@, k));
                }
            }
        } else {
            let score = x.importance_score();
            let mut j: usize = 0;
            while j < out.len() && out[j].importance_score() >= score
                invariant
                    j <= out.len(),
                    out@ == sorted,
                    score == x.score(),
                    forall|i: int| 0 <= i < j ==> (#[trigger] out@[i]).score() >= score,
                decreases out.len() - j,
            {
                j += 1;
            }
            out.insert(j, x);
            proof {
                let front = sorted.take(j as int);
                let back = sorted.skip(j as int);
                assert(out@ =~= front + seq![x] + back);
                assert(sorted =~= front + back);
                assert forall|i: int| 0 <= i < back.len() implies (#[trigger] back[i]).score()
                    < score by {
                    assert(back[i] == sorted[j + i]);
                    assert(sorted[j as int].score() >= sorted[j + i].score());
                }
                assert forall|a: int, b: int| 0 <= a <= b < out@.len() implies out@[a].score()
                    >= out@[b].score() by {
                    if a < j && b > j {
                        assert(out@[a] == sorted[a]);
                        assert(out@[b] == back[b - j - 1]);
                    } else if a < j && b < j {
                        assert(out@[a] == sorted[a] && out@[b] == sorted[b]);
                    } else if a > j {
                        assert(out@[a] == sorted[a - 1] && out@[b] == sorted[b - 1]);
                    } else if a == j && b > j {
                        assert(out@[b] == back[b - j - 1]);
                    } else if b == j && a < j {
                        assert(out@[a] == sorted[a]);
                    }
                }
                assert forall|i: int| 0 <= i < out@.len() implies !(#[trigger] out@[i]).fork by {
                    if i < j {
                        assert(out@[i] == sorted[i]);
                    } else if i > j {
                        assert(out@[i] == sorted[i - 1]);
                    }
                }
                assert forall|k: int|
                    own_scoring(out@, k) + own_scoring(rest@, k) == own_scoring(
                        repos@,
                        k,
                    ) by {
                    lemma_own_scoring_concat(seq![x], rest@, k);
                    lemma_own_scoring_one(x, k);
                    lemma_own_scoring_concat(front + seq![x], back, k);
                    lemma_own_scoring_concat(front, seq![x], k);
                    lemma_own_scoring_concat(front, back, k);
                    if k == score {
                        lemma_own_scoring_none(back, k);
                        assert(own_scoring(out@, k) + own_scoring(rest@, k) =~= (
                        own_scoring(front, k) + Seq::<Repository>::empty()) + (seq![x]
                            + own_scoring(rest@, k)));
                    } else {
                        assert(own_scoring(front, k) + Seq::<Repository>::empty()
                            + own_scoring(back, k) =~= own_scoring(front, k)
                            + own_scoring(back, k));
                        assert(Seq::<Repository>::empty() + own_scoring(rest@, k)
                            =~= own_scoring(rest@, k));
                    }
                }
            }
        }
    }
    proof {
        assert(rest@ =~= Seq::<Repository>::empty());
        assert forall|k: int| own_scoring(out@, k) == own_scoring(repos@, k) by {
            assert(own_scoring(out@, k) + own_scoring(rest@, k) =~= own_scoring(
                out@,
                k,
            ));
        }
    }
    out
}

} // verus!
