//! The language model's part: what it is asked, and what is read from its
//! answers.

use crate::config::{LLMConfig, item_views, ResumeConfig, ResumeConfigView, ResumeItem, ResumeItemView};
use crate::github::{
    repo_views, GitHubRepoData, GitHubRepoDataView, LanguageShareView, RepositoryLanguages,
    RepositoryLanguagesView,
};
use crate::job::{JobDescription, JobDescriptionView};
use crate::json::{element, field_text, field_unsigned, json_array, json_at, json_get, json_model, json_models, member, parse_json, parsed_json, string_field, unsigned_field, Json};
use crate::latex::ResumeLanguage;
use crate::number::{decimal_text, push_decimal};
use crate::text::{copy_strings, find_between, from_range, index_of, join, joined, last_index_of, opt_text, replace, replaced, rfind, texts, to_chars, trim, trim_end_matches, trimmed, without_trailing};
use vstd::prelude::*;
use vstd::string::*;

verus! {

/// One repository that the model suggests, with its place and the reason.
/// Places need not be distinct nor without gaps.
#[derive(Debug, PartialEq)]
pub struct RankedRepository {
    pub rank: usize,
    pub name: String,
    pub reasoning: String,
}

pub struct RankedRepositoryView {
    pub rank: usize,
    pub name: Seq<char>,
    pub reasoning: Seq<char>,
}

impl View for RankedRepository {
    type V = RankedRepositoryView;

    open spec fn view(&self) -> RankedRepositoryView {
        RankedRepositoryView { rank: self.rank, name: self.name@, reasoning: self.reasoning@ }
    }
}

impl Clone for RankedRepository {
    fn clone(&self) -> (r: Self)
        ensures
            r@ == self@,
    {
        RankedRepository {
            rank: self.rank,
            name: self.name.clone(),
            reasoning: self.reasoning.clone(),
        }
    }
}

/// The models of a ranking.
pub open spec fn ranked_views(v: Seq<RankedRepository>) -> Seq<RankedRepositoryView> {
    Seq::new(v.len(), |i: int| v[i]@)
}

pub proof fn lemma_ranked_views_push(v: Seq<RankedRepository>, r: RankedRepository)
    ensures
        ranked_views(v.push(r)) == ranked_views(v).push(r@),
{
    assert(ranked_views(v.push(r)) =~= ranked_views(v).push(r@));
}

/// Why an answer of the language model could not be used.
#[derive(Debug, Clone, Copy, PartialEq, Eq)]
pub enum AgentError {
    /// The body of the answer is no JSON document.
    InvalidBody,
    /// The body does not hold a text where the answer should be.
    InvalidResponse,
    /// The answer holds no `{`.
    NoJson,
    /// The answer holds no `}` behind its first `{`.
    MalformedJson,
    /// What stands between the braces is no JSON document.
    InvalidJson,
    /// A text could not be written as a JSON string.
    Unquotable,
}

/// The text as a JSON string, quotes included, as `serde_json::to_string`
/// writes it; `None` where it reports an error.
pub uninterp spec fn json_quoted(s: Seq<char>) -> Option<Seq<char>>;

/// `serde_json::to_string` at `str`. Nothing is proved of the escaping: the
/// result is only given its name.
#[verifier::external_body]
pub(crate) fn quote(s: &str) -> (r: Result<String, serde_json::Error>)
    ensures
        match r {
            Ok(q) => json_quoted(s@) == Some(q@),
            Err(_) => json_quoted(s@) is None,
        },
{
    serde_json::to_string(s)
}

/// What the model is told about its task before anything else.
pub const SYSTEM_PROMPT: &'static str =
    "You are a career advisor who writes concise, factual resumes for software engineers. Use only what the candidate's material supports, prefer measurable results, and never invent employers, degrees, dates or links.";

/// What the model is asked when it writes the resume. Each name in braces
/// stands for what [`writing_prompt`] puts in its place.
pub const PROMPT_TEMPLATE: &'static str =
    "Write the content of a resume for {candidate_name}, tailored to the position below.\n\nPOSITION: {job_title} at {job_company}\n\nJOB DESCRIPTION:\n{job_description}\n\nGITHUB REPOSITORIES:\n{github_repos}\n\nEDUCATION:\n{education_context}\n\nEXPERIENCE:\n{experience_context}\n\nSKILLS:\n{skills_context}\n\nWrite every section in {language}. Group the skills by category, describe each project in one brief line, and keep every accomplishment to one sentence.\n";

/// The shape of a tidied job posting.
pub const JOB_SCHEMA: &'static str =
    "{\"properties\":{\"company\":{\"description\":\"Company name (can be null if not found)\",\"type\":\"string\"},\"description\":{\"description\":\"Clean job description with key responsibilities\",\"type\":\"string\"},\"requirements\":{\"description\":\"Key technical requirements and qualifications\",\"type\":\"string\"},\"title\":{\"description\":\"Job title/position name\",\"type\":\"string\"}},\"required\":[\"title\",\"description\",\"requirements\"],\"type\":\"object\"}";

/// The shape of a ranking.
pub const RANKING_SCHEMA: &'static str =
    "{\"properties\":{\"ranked_repositories\":{\"items\":{\"properties\":{\"name\":{\"type\":\"string\"},\"rank\":{\"type\":\"integer\"},\"reasoning\":{\"type\":\"string\"}},\"required\":[\"rank\",\"name\",\"reasoning\"],\"type\":\"object\"},\"type\":\"array\"}},\"required\":[\"ranked_repositories\"],\"type\":\"object\"}";

/// The shape of the resume's content.
pub const RESUME_SCHEMA: &'static str =
    "{\"properties\":{\"education\":{\"items\":{\"properties\":{\"accomplishments\":{\"items\":{\"type\":\"string\"},\"type\":\"array\"},\"date\":{\"type\":\"string\"},\"degree\":{\"type\":\"string\"},\"institution\":{\"type\":\"string\"},\"location\":{\"type\":\"string\"}},\"required\":[\"institution\",\"degree\",\"location\",\"date\",\"accomplishments\"],\"type\":\"object\"},\"type\":\"array\"},\"experience\":{\"items\":{\"properties\":{\"accomplishments\":{\"items\":{\"type\":\"string\"},\"type\":\"array\"},\"company\":{\"type\":\"string\"},\"date\":{\"type\":\"string\"},\"location\":{\"type\":\"string\"},\"position\":{\"type\":\"string\"}},\"required\":[\"company\",\"position\",\"location\",\"date\",\"accomplishments\"],\"type\":\"object\"},\"type\":\"array\"},\"projects\":{\"items\":{\"properties\":{\"items\":{\"description\":\"Single brief line (max 15 words) describing core purpose or key feature\",\"items\":{\"type\":\"string\"},\"type\":\"array\"},\"link\":{\"description\":\"GitHub repository URL\",\"type\":\"string\"},\"title\":{\"description\":\"Project name in format: 'Project Name (Technology/Language)'\",\"type\":\"string\"}},\"required\":[\"title\",\"link\",\"items\"],\"type\":\"object\"},\"type\":\"array\"},\"skills_by_category\":{\"items\":{\"properties\":{\"category\":{\"description\":\"Technical skill category (e.g., Back-end, Front-end)\",\"type\":\"string\"},\"items\":{\"description\":\"List of specific skills in this category\",\"items\":{\"type\":\"string\"},\"type\":\"array\"}},\"required\":[\"category\",\"items\"],\"type\":\"object\"},\"type\":\"array\"}},\"required\":[\"skills_by_category\",\"projects\",\"education\",\"experience\"],\"type\":\"object\"}";

/// The body of a request: the prompt, the shape that the answer must have,
/// and, where there are any, the standing instructions. `prompt` and
/// `system` are JSON strings already.
pub open spec fn request_text(prompt: Seq<char>, system: Option<Seq<char>>, schema: Seq<char>) -> Seq<
    char,
> {
    "{\"contents\":[{\"parts\":[{\"text\":"@ + prompt
        + "}]}],\"generationConfig\":{\"responseJsonSchema\":"@ + schema
        + ",\"responseMimeType\":\"application/json\"}"@ + (match system {
        Some(s) => ",\"systemInstruction\":{\"parts\":[{\"text\":"@ + s + "}]}"@,
        None => Seq::empty(),
    }) + "}"@
}

/// The body of a request, or `Unquotable` where a text cannot be written as
/// a JSON string.
pub open spec fn request_outcome(prompt: Seq<char>, system: Option<Seq<char>>, schema: Seq<char>) -> Result<
    Seq<char>,
    AgentError,
> {
    match json_quoted(prompt) {
        None => Err(AgentError::Unquotable),
        Some(p) => match system {
            None => Ok(request_text(p, None, schema)),
            Some(s) => match json_quoted(s) {
                None => Err(AgentError::Unquotable),
                Some(q) => Ok(request_text(p, Some(q), schema)),
            },
        },
    }
}

/// The body of a request, given the two texts as JSON strings.
pub fn compose_request(prompt: &str, system: Option<&str>, schema: &str) -> (r: String)
    ensures
        r@ == request_text(
            prompt@,
            match system {
                Some(s) => Some(s@),
                None => None,
            },
            schema@,
        ),
{
    let mut out = String::from_str("{\"contents\":[{\"parts\":[{\"text\":");
    out.append(prompt);
    out.append("}]}],\"generationConfig\":{\"responseJsonSchema\":");
    out.append(schema);
    out.append(",\"responseMimeType\":\"application/json\"}");
    match system {
        Some(s) => {
            out.append(",\"systemInstruction\":{\"parts\":[{\"text\":");
            out.append(s);
            out.append("}]}");
        },
        None => {
            assert(out@ + Seq::<char>::empty() =~= out@);
        },
    }
    out.append("}");
    out
}

/// The body of a request.
pub fn request_body(prompt: &str, system: Option<&str>, schema: &str) -> (r: Result<
    String,
    AgentError,
>)
    ensures
        match r {
            Ok(body) => request_outcome(
                prompt@,
                match system {
                    Some(s) => Some(s@),
                    None => None,
                },
                schema@,
            ) == Ok::<Seq<char>, AgentError>(body@),
            Err(e) => request_outcome(
                prompt@,
                match system {
                    Some(s) => Some(s@),
                    None => None,
                },
                schema@,
            ) == Err::<Seq<char>, AgentError>(e),
        },
{
    let p = match quote(prompt) {
        Ok(p) => p,
        Err(_) => {
            return Err(AgentError::Unquotable);
        },
    };
    match system {
        None => Ok(compose_request(p.as_str(), None, schema)),
        Some(s) => match quote(s) {
            Ok(q) => Ok(compose_request(p.as_str(), Some(q.as_str()), schema)),
            Err(_) => Err(AgentError::Unquotable),
        },
    }
}

/// What stands between the first `{` and the last `}` of an answer, both
/// included, once the white space around the answer is dropped.
pub open spec fn json_span(answer: Seq<char>) -> Result<Seq<char>, AgentError> {
    let t = trimmed(answer);
    let start = index_of(t, '{');
    let end = last_index_of(t, '}');
    if start >= t.len() {
        Err(AgentError::NoJson)
    } else if end < start {
        Err(AgentError::MalformedJson)
    } else {
        Ok(t.subrange(start, end + 1))
    }
}

/// The JSON object of an answer, whatever prose stands around it.
pub fn extract_json_object(answer: &str) -> (r: Result<String, AgentError>)
    ensures
        match r {
            Ok(span) => json_span(answer@) == Ok::<Seq<char>, AgentError>(span@),
            Err(e) => json_span(answer@) == Err::<Seq<char>, AgentError>(e),
        },
{
    let chars = to_chars(trim(answer).as_str());
    assert(chars@.subrange(0, chars@.len() as int) =~= chars@);
    let start = find_between(&chars, 0, chars.len(), '{');
    if start >= chars.len() {
        return Err(AgentError::NoJson);
    }
    match rfind(&chars, '}') {
        None => Err(AgentError::MalformedJson),
        Some(end) => {
            if end < start {
                Err(AgentError::MalformedJson)
            } else {
                Ok(from_range(&chars, start, end + 1))
            }
        },
    }
}

/// The text of an answer: in the body, the first candidate's content's first
/// part's text.
pub open spec fn reply_of(body: Json) -> Option<Seq<char>> {
    match member(body, "candidates"@) {
        None => None,
        Some(candidates) => match element(candidates, 0) {
            None => None,
            Some(candidate) => match member(candidate, "content"@) {
                None => None,
                Some(content) => match member(content, "parts"@) {
                    None => None,
                    Some(parts) => match element(parts, 0) {
                        None => None,
                        Some(part) => field_text(part, "text"@),
                    },
                },
            },
        },
    }
}

/// The text of an answer, read from its parsed body.
pub fn response_text(body: &serde_json::Value) -> (r: Option<String>)
    ensures
        opt_text(r) == reply_of(json_model(*body)),
{
    match json_get(body, "candidates") {
        None => None,
        Some(candidates) => match json_at(candidates, 0) {
            None => None,
            Some(candidate) => match json_get(candidate, "content") {
                None => None,
                Some(content) => match json_get(content, "parts") {
                    None => None,
                    Some(parts) => match json_at(parts, 0) {
                        None => None,
                        Some(part) => string_field(part, "text"),
                    },
                },
            },
        },
    }
}

/// The answer that a response body carries.
pub open spec fn reply_outcome(body: Seq<char>) -> Result<Seq<char>, AgentError> {
    match parsed_json(body) {
        None => Err(AgentError::InvalidBody),
        Some(j) => match reply_of(j) {
            None => Err(AgentError::InvalidResponse),
            Some(t) => Ok(t),
        },
    }
}

/// The answer that a response body carries.
pub fn reply_from_body(body: &str) -> (r: Result<String, AgentError>)
    ensures
        match r {
            Ok(t) => reply_outcome(body@) == Ok::<Seq<char>, AgentError>(t@),
            Err(e) => reply_outcome(body@) == Err::<Seq<char>, AgentError>(e),
        },
{
    match parse_json(body) {
        Err(_) => Err(AgentError::InvalidBody),
        Ok(v) => match response_text(&v) {
            None => Err(AgentError::InvalidResponse),
            Some(t) => Ok(t),
        },
    }
}

/// The document between the braces of an answer.
pub open spec fn answer_json(answer: Seq<char>) -> Result<Json, AgentError> {
    match json_span(answer) {
        Err(e) => Err(e),
        Ok(span) => match parsed_json(span) {
            None => Err(AgentError::InvalidJson),
            Some(j) => Ok(j),
        },
    }
}

fn parse_answer(answer: &str) -> (r: Result<serde_json::Value, AgentError>)
    ensures
        match r {
            Ok(v) => answer_json(answer@) == Ok::<Json, AgentError>(json_model(v)),
            Err(e) => answer_json(answer@) == Err::<Json, AgentError>(e),
        },
{
    match extract_json_object(answer) {
        Err(e) => Err(e),
        Ok(span) => match parse_json(span.as_str()) {
            Err(_) => Err(AgentError::InvalidJson),
            Ok(v) => Ok(v),
        },
    }
}

/// The posting that a document describes. A title that is missing is
/// `Job Title`; a description or requirements that are missing are empty.
pub open spec fn job_of(j: Json) -> JobDescriptionView {
    JobDescriptionView {
        title: match field_text(j, "title"@) {
            Some(t) => t,
            None => "Job Title"@,
        },
        company: field_text(j, "company"@),
        description: match field_text(j, "description"@) {
            Some(t) => t,
            None => Seq::empty(),
        },
        requirements: match field_text(j, "requirements"@) {
            Some(t) => t,
            None => Seq::empty(),
        },
    }
}

/// The posting that a parsed answer describes.
pub fn job_from_json(v: &serde_json::Value) -> (r: JobDescription)
    ensures
        r@ == job_of(json_model(*v)),
{
    JobDescription {
        title: match string_field(v, "title") {
            Some(t) => t,
            None => String::from_str("Job Title"),
        },
        company: string_field(v, "company"),
        description: match string_field(v, "description") {
            Some(t) => t,
            None => String::new(),
        },
        requirements: match string_field(v, "requirements") {
            Some(t) => t,
            None => String::new(),
        },
    }
}

/// The suggestion that an entry of a ranking makes, if the entry has a
/// place, a name and a reason.
pub open spec fn suggestion_of(j: Json) -> Option<RankedRepositoryView> {
    match (field_unsigned(j, "rank"@), field_text(j, "name"@), field_text(j, "reasoning"@)) {
        (Some(rank), Some(name), Some(reasoning)) => Some(
            RankedRepositoryView { rank: rank as usize, name, reasoning },
        ),
        _ => None,
    }
}

/// The suggestions of a list of entries, in order; an entry that lacks a
/// field is passed over.
pub open spec fn suggestions_of(entries: Seq<Json>) -> Seq<RankedRepositoryView>
    decreases entries.len(),
{
    if entries.len() == 0 {
        Seq::empty()
    } else {
        match suggestion_of(entries.last()) {
            Some(s) => suggestions_of(entries.drop_last()).push(s),
            None => suggestions_of(entries.drop_last()),
        }
    }
}

/// The ranking that a document holds under `ranked_repositories`; empty
/// where there is no array under that key.
pub open spec fn ranking_of(j: Json) -> Seq<RankedRepositoryView> {
    match member(j, "ranked_repositories"@) {
        Some(Json::Array(entries)) => suggestions_of(entries),
        _ => Seq::empty(),
    }
}

/// The suggestions of two lists, one after the other.
pub proof fn lemma_suggestions_of_concat(a: Seq<Json>, b: Seq<Json>)
    ensures
        suggestions_of(a + b) == suggestions_of(a) + suggestions_of(b),
    decreases b.len(),
{
    if b.len() == 0 {
        assert(a + b =~= a);
        assert(suggestions_of(a) + suggestions_of(b) =~= suggestions_of(a));
    } else {
        assert((a + b).drop_last() =~= a + b.drop_last());
        assert((a + b).last() == b.last());
        lemma_suggestions_of_concat(a, b.drop_last());
        match suggestion_of(b.last()) {
            Some(s) => {
                assert((suggestions_of(a) + suggestions_of(b.drop_last())).push(s) =~= suggestions_of(
                    a,
                ) + suggestions_of(b.drop_last()).push(s));
            },
            None => {},
        }
    }
}

/// An entry that lacks its place, its name or its reason leaves no trace:
/// the ranking is what it would be without the entry.
pub proof fn lemma_incomplete_entry_is_dropped(before: Seq<Json>, entry: Json, after: Seq<Json>)
    requires
        field_unsigned(entry, "rank"@) is None || field_text(entry, "name"@) is None || field_text(
            entry,
            "reasoning"@,
        ) is None,
    ensures
        suggestions_of(before + seq![entry] + after) == suggestions_of(before + after),
{
    lemma_suggestions_of_concat(before + seq![entry], after);
    lemma_suggestions_of_concat(before, seq![entry]);
    lemma_suggestions_of_concat(before, after);
    assert(seq![entry].drop_last() =~= Seq::<Json>::empty());
    assert(seq![entry].last() == entry);
    assert(suggestions_of(Seq::<Json>::empty()) =~= Seq::<RankedRepositoryView>::empty());
    assert(suggestions_of(seq![entry]) =~= Seq::<RankedRepositoryView>::empty());
    assert(suggestions_of(before) + Seq::<RankedRepositoryView>::empty() =~= suggestions_of(
        before,
    ));
}

/// An entry with all three fields is kept, in its place among the others.
pub proof fn lemma_complete_entry_is_kept(before: Seq<Json>, entry: Json, after: Seq<Json>)
    requires
        suggestion_of(entry) is Some,
    ensures
        suggestions_of(before + seq![entry] + after) == suggestions_of(before) + seq![
            suggestion_of(entry)->0,
        ] + suggestions_of(after),
{
    lemma_suggestions_of_concat(before + seq![entry], after);
    lemma_suggestions_of_concat(before, seq![entry]);
    assert(seq![entry].drop_last() =~= Seq::<Json>::empty());
    assert(seq![entry].last() == entry);
    assert(suggestions_of(Seq::<Json>::empty()) =~= Seq::<RankedRepositoryView>::empty());
    assert(suggestions_of(seq![entry]) =~= seq![suggestion_of(entry)->0]);
}

/// The ranking that a parsed answer holds.
pub fn ranking_from_json(v: &serde_json::Value) -> (r: Vec<RankedRepository>)
    ensures
        ranked_views(r@) == ranking_of(json_model(*v)),
{
    let mut out: Vec<RankedRepository> = Vec::new();
    assert(ranked_views(out@) =~= Seq::<RankedRepositoryView>::empty());
    let entries = match json_get(v, "ranked_repositories") {
        None => {
            return out;
        },
        Some(list) => match json_array(list) {
            None => {
                return out;
            },
            Some(entries) => entries,
        },
    };
    let ghost models = json_models(entries@);
    let mut i: usize = 0;
    assert(models.take(0) =~= Seq::<Json>::empty());
    while i < entries.len()
        invariant
            i <= entries.len(),
            models == json_models(entries@),
            ranked_views(out@) == suggestions_of(models.take(i as int)),
        decreases entries.len() - i,
    {
        assert(models.take(i + 1).drop_last() =~= models.take(i as int));
        assert(models.take(i + 1).last() == json_model(entries@[i as int]));
        let entry = &entries[i];
        let rank = unsigned_field(entry, "rank");
        let name = string_field(entry, "name");
        let reasoning = string_field(entry, "reasoning");
        match (rank, name, reasoning) {
            (Some(rank), Some(name), Some(reasoning)) => {
                let suggestion = RankedRepository {
                    rank: #[verifier::truncate]
                    (rank as usize),
                    name,
                    reasoning,
                };
                proof {
                    lemma_ranked_views_push(out@, suggestion);
                }
                out.push(suggestion);
            },
            _ => {},
        }
        i += 1;
    }
    assert(models.take(entries.len() as int) =~= models);
    out
}

/// The posting that an answer describes.
pub fn job_from_reply(answer: &str) -> (r: Result<JobDescription, AgentError>)
    ensures
        match r {
            Ok(job) => answer_json(answer@) matches Ok(j) && job@ == job_of(j),
            Err(e) => answer_json(answer@) == Err::<Json, AgentError>(e),
        },
{
    match parse_answer(answer) {
        Err(e) => Err(e),
        Ok(v) => Ok(job_from_json(&v)),
    }
}

/// The ranking that an answer holds.
pub fn ranking_from_reply(answer: &str) -> (r: Result<Vec<RankedRepository>, AgentError>)
    ensures
        match r {
            Ok(ranking) => answer_json(answer@) matches Ok(j) && ranked_views(ranking@)
                == ranking_of(j),
            Err(e) => answer_json(answer@) == Err::<Json, AgentError>(e),
        },
{
    match parse_answer(answer) {
        Err(e) => Err(e),
        Ok(v) => Ok(ranking_from_json(&v)),
    }
}

/// The caller of the language model: where it is and how it is asked.
pub struct ResumeAgent {
    api_key: String,
    model: String,
    endpoint: String,
    max_retries: u32,
}

pub struct ResumeAgentView {
    pub api_key: Seq<char>,
    pub model: Seq<char>,
    pub endpoint: Seq<char>,
    pub max_retries: u32,
}

impl View for ResumeAgent {
    type V = ResumeAgentView;

    closed spec fn view(&self) -> ResumeAgentView {
        ResumeAgentView {
            api_key: self.api_key@,
            model: self.model@,
            endpoint: self.endpoint@,
            max_retries: self.max_retries,
        }
    }
}

/// The address that a request goes to: the endpoint without slashes at its
/// end, the model, the method, and the key.
pub open spec fn request_address(agent: ResumeAgentView) -> Seq<char> {
    without_trailing(agent.endpoint, '/') + "/"@ + agent.model + ":generateContent?key="@
        + agent.api_key
}

/// What the model is asked when it tidies a job posting.
pub open spec fn cleaning_prompt(raw: Seq<char>) -> Seq<char> {
    "Extract and clean the job description from the following content. If it's HTML, convert to plain text. If it's already plain text, clean it up.\n\nIMPORTANT: Respond ONLY with valid JSON in this format:\n{\n\"title\": \"Job Title\",\n\"company\": \"Company Name\",\n\"description\": \"Clean job description with key responsibilities\",\n\"requirements\": \"Key technical requirements and qualifications\"\n}\n\nContent to process:\n"@
        + raw
}

/// One language with its share.
pub open spec fn share_label(share: LanguageShareView) -> Seq<char> {
    share.name + " ("@ + share.percent + "%)"@
}

pub open spec fn share_labels(shares: Seq<LanguageShareView>) -> Seq<Seq<char>> {
    Seq::new(shares.len(), |i: int| share_label(shares[i]))
}

/// The languages of a repository with their shares, or `Unknown`.
pub open spec fn language_summary(languages: Option<RepositoryLanguagesView>) -> Seq<char> {
    match languages {
        Some(l) => joined(share_labels(l.languages), ", "@),
        None => "Unknown"@,
    }
}

/// What both digests say of a repository: name, languages, dates and
/// counts.
pub open spec fn repo_facts(repo: GitHubRepoDataView) -> Seq<char> {
    "- "@ + repo.name + " ["@ + language_summary(repo.languages) + "] (created: "@
        + repo.created_at + ", last updated: "@ + repo.pushed_at + ", stars: "@ + decimal_text(
        repo.stargazers_count as nat,
    ) + ", forks: "@ + decimal_text(repo.forks_count as nat) + ", size: "@ + decimal_text(
        repo.size as nat,
    ) + ", commits: "@ + decimal_text(repo.commits as nat) + ", importance: "@ + decimal_text(
        repo.importance_score as nat,
    ) + ")"@
}

/// A repository in the digest for ranking: the facts, a mark where it has a
/// README, and its address.
pub open spec fn ranking_line(repo: GitHubRepoDataView) -> Seq<char> {
    repo_facts(repo) + (if repo.readme is Some {
        " [HAS_README]"@
    } else {
        Seq::empty()
    }) + "  "@ + repo.url
}

/// A repository in the digest for writing: the facts, its address, and its
/// README where it has one.
pub open spec fn writing_line(repo: GitHubRepoDataView) -> Seq<char> {
    repo_facts(repo) + " - "@ + repo.url + (match repo.readme {
        Some(text) => "\n  README:\n```\n"@ + text + "\n```"@,
        None => Seq::empty(),
    })
}

pub open spec fn ranking_lines(repos: Seq<GitHubRepoDataView>) -> Seq<Seq<char>> {
    Seq::new(repos.len(), |i: int| ranking_line(repos[i]))
}

pub open spec fn writing_lines(repos: Seq<GitHubRepoDataView>) -> Seq<Seq<char>> {
    Seq::new(repos.len(), |i: int| writing_line(repos[i]))
}

/// What the model is asked when it ranks the repositories.
pub open spec fn ranking_prompt(repos: Seq<GitHubRepoDataView>, job: JobDescriptionView) -> Seq<
    char,
> {
    "Rank and select the BEST 10 repositories from this candidate's GitHub profile that would be most impressive for a resume targeting a "@
        + job.title + " role at "@ + (match job.company {
        Some(c) => c,
        None => "the target company"@,
    })
        + ".\n\nCRITERIA:\n- Recent activity (prefer repos updated in last 2 years)\n- Maintenance status (avoid abandoned projects)\n- Language diversity (vary the tech stack)\n- Relevance to job requirements: "@
        + job.description
        + "\n- Project maturity (complete, not WIP)\n- Star count and forks (community engagement)\n\nREPOSITORIES:\n"@
        + joined(ranking_lines(repos), "\n"@)
        + "\n\nRespond ONLY with valid JSON in this exact format:\n{\n\"ranked_repositories\": [\n{\n\"rank\": 1,\n\"name\": \"project-name\",\n\"reasoning\": \"Why this is a good choice for the resume\"\n},\n...\n]\n}"@
}

/// A language by its English name.
pub open spec fn language_name(language: ResumeLanguage) -> Seq<char> {
    match language {
        ResumeLanguage::English => "English"@,
        ResumeLanguage::Portuguese => "Portuguese"@,
    }
}

pub open spec fn or_text(o: Option<Seq<char>>, otherwise: Seq<char>) -> Seq<char> {
    match o {
        Some(t) => t,
        None => otherwise,
    }
}

/// What the model is asked when it writes the resume: the template with
/// candidate, posting, digest, the three contexts and the language put in
/// place, one after another in that order. A context that is not configured
/// is a sentence that says so.
pub open spec fn writing_prompt(
    template: Seq<char>,
    resume: ResumeConfigView,
    job: JobDescriptionView,
    repos: Seq<GitHubRepoDataView>,
    language: ResumeLanguage,
) -> Seq<char> {
    let a = replaced(template, "{candidate_name}"@, resume.full_name);
    let b = replaced(a, "{job_title}"@, job.title);
    let c = replaced(b, "{job_company}"@, or_text(job.company, "Unknown Company"@));
    let d = replaced(c, "{job_description}"@, job.description);
    let e = replaced(d, "{github_repos}"@, joined(writing_lines(repos), "\n"@));
    let f = replaced(
        e,
        "{education_context}"@,
        or_text(resume.education_context, "User has not provided specific education details"@),
    );
    let g = replaced(
        f,
        "{experience_context}"@,
        or_text(resume.experience_context, "User has not provided specific experience details"@),
    );
    let h = replaced(
        g,
        "{skills_context}"@,
        or_text(resume.skills_context, "User has not provided specific skill details"@),
    );
    replaced(h, "{language}"@, language_name(language))
}

fn summarize_languages(languages: &Option<RepositoryLanguages>) -> (r: String)
    ensures
        r@ == language_summary(crate::github::opt_languages(*languages)),
{
    match languages {
        None => String::from_str("Unknown"),
        Some(l) => {
            let mut labels: Vec<String> = Vec::new();
            let mut i: usize = 0;
            while i < l.languages.len()
                invariant
                    i <= l.languages.len(),
                    labels.len() == i,
                    forall|k: int| 0 <= k < i ==> labels@[k]@ == share_label(l.languages@[k]@),
                decreases l.languages.len() - i,
            {
                let mut label = String::new();
                label.append(l.languages[i].name.as_str());
                label.append(" (");
                label.append(l.languages[i].percent.as_str());
                label.append("%)");
                assert(label@ =~= share_label(l.languages@[i as int]@));
                labels.push(label);
                i += 1;
            }
            assert(texts(labels@) =~= share_labels(l@.languages));
            join(&labels, ", ")
        },
    }
}

fn push_facts(out: &mut String, repo: &GitHubRepoData)
    ensures
        final(out)@ == old(out)@ + repo_facts(repo@),
{
    out.append("- ");
    out.append(repo.name.as_str());
    out.append(" [");
    out.append(summarize_languages(&repo.languages).as_str());
    out.append("] (created: ");
    out.append(repo.created_at.as_str());
    out.append(", last updated: ");
    out.append(repo.pushed_at.as_str());
    out.append(", stars: ");
    push_decimal(out, repo.stargazers_count);
    out.append(", forks: ");
    push_decimal(out, repo.forks_count);
    out.append(", size: ");
    push_decimal(out, repo.size);
    out.append(", commits: ");
    push_decimal(out, repo.commits);
    out.append(", importance: ");
    push_decimal(out, repo.importance_score);
    out.append(")");
    assert(out@ =~= old(out)@ + repo_facts(repo@));
}

/// The digest of the repositories for ranking, one line each.
pub fn ranking_digest(repos: &Vec<GitHubRepoData>) -> (r: String)
    ensures
        r@ == joined(ranking_lines(repo_views(repos@)), "\n"@),
{
    let mut lines: Vec<String> = Vec::new();
    let mut i: usize = 0;
    while i < repos.len()
        invariant
            i <= repos.len(),
            lines.len() == i,
            forall|k: int| 0 <= k < i ==> lines@[k]@ == ranking_line(repos@[k]@),
        decreases repos.len() - i,
    {
        let mut line = String::new();
        push_facts(&mut line, &repos[i]);
        if repos[i].readme.is_some() {
            line.append(" [HAS_README]");
        }
        line.append("  ");
        line.append(repos[i].url.as_str());
        assert(line@ =~= ranking_line(repos@[i as int]@));
        lines.push(line);
        i += 1;
    }
    assert(texts(lines@) =~= ranking_lines(repo_views(repos@)));
    join(&lines, "\n")
}

/// The digest of the repositories for writing, READMEs included.
pub fn writing_digest(repos: &Vec<GitHubRepoData>) -> (r: String)
    ensures
        r@ == joined(writing_lines(repo_views(repos@)), "\n"@),
{
    let mut lines: Vec<String> = Vec::new();
    let mut i: usize = 0;
    while i < repos.len()
        invariant
            i <= repos.len(),
            lines.len() == i,
            forall|k: int| 0 <= k < i ==> lines@[k]@ == writing_line(repos@[k]@),
        decreases repos.len() - i,
    {
        let mut line = String::new();
        push_facts(&mut line, &repos[i]);
        line.append(" - ");
        line.append(repos[i].url.as_str());
        if let Some(readme) = &repos[i].readme {
            line.append("\n  README:\n```\n");
            line.append(readme.as_str());
            line.append("\n```");
        }
        assert(line@ =~= writing_line(repos@[i as int]@));
        lines.push(line);
        i += 1;
    }
    assert(texts(lines@) =~= writing_lines(repo_views(repos@)));
    join(&lines, "\n")
}

impl ResumeAgent {
    /// An agent for one key, model and endpoint.
    pub fn new(api_key: String, model: String, endpoint: String, max_retries: u32) -> (r: Self)
        ensures
            r@ == (ResumeAgentView {
                api_key: api_key@,
                model: model@,
                endpoint: endpoint@,
                max_retries,
            }),
    {
        ResumeAgent { api_key, model, endpoint, max_retries }
    }

    /// An agent for what is configured, or `None` where no key is: without
    /// a key no call can be made.
    pub fn from_config(llm: &LLMConfig) -> (r: Option<Self>)
        ensures
            match r {
                Some(agent) => llm@.api_key is Some && agent@ == (ResumeAgentView {
                    api_key: llm@.api_key->0,
                    model: llm@.model,
                    endpoint: llm@.endpoint,
                    max_retries: llm@.max_retries,
                }),
                None => llm@.api_key is None,
            },
    {
        match &llm.api_key {
            Some(key) => Some(
                ResumeAgent {
                    api_key: key.clone(),
                    model: llm.model.clone(),
                    endpoint: llm.endpoint.clone(),
                    max_retries: llm.max_retries,
                },
            ),
            None => None,
        }
    }

    /// How often a failed call is tried again.
    pub fn max_retries(&self) -> (r: u32)
        ensures
            r == self@.max_retries,
    {
        self.max_retries
    }

    /// The address that every request goes to.
    pub fn request_url(&self) -> (r: String)
        ensures
            r@ == request_address(self@),
    {
        let mut out = trim_end_matches(self.endpoint.as_str(), '/');
        out.append("/");
        out.append(self.model.as_str());
        out.append(":generateContent?key=");
        out.append(self.api_key.as_str());
        out
    }

    /// What the model is asked when it tidies a job posting.
    pub fn job_cleaning_prompt(raw_html_or_text: &str) -> (r: String)
        ensures
            r@ == cleaning_prompt(raw_html_or_text@),
    {
        let mut out = String::from_str(
            "Extract and clean the job description from the following content. If it's HTML, convert to plain text. If it's already plain text, clean it up.\n\nIMPORTANT: Respond ONLY with valid JSON in this format:\n{\n\"title\": \"Job Title\",\n\"company\": \"Company Name\",\n\"description\": \"Clean job description with key responsibilities\",\n\"requirements\": \"Key technical requirements and qualifications\"\n}\n\nContent to process:\n",
        );
        out.append(raw_html_or_text);
        out
    }

    /// What the model is asked when it ranks the repositories.
    pub fn repository_ranking_prompt(
        github_repos: &Vec<GitHubRepoData>,
        job_description: &JobDescription,
    ) -> (r: String)
        ensures
            r@ == ranking_prompt(repo_views(github_repos@), job_description@),
    {
        let mut out = String::from_str(
            "Rank and select the BEST 10 repositories from this candidate's GitHub profile that would be most impressive for a resume targeting a ",
        );
        out.append(job_description.title.as_str());
        out.append(" role at ");
        match &job_description.company {
            Some(c) => out.append(c.as_str()),
            None => out.append("the target company"),
        }
        out.append(
            ".\n\nCRITERIA:\n- Recent activity (prefer repos updated in last 2 years)\n- Maintenance status (avoid abandoned projects)\n- Language diversity (vary the tech stack)\n- Relevance to job requirements: ",
        );
        out.append(job_description.description.as_str());
        out.append(
            "\n- Project maturity (complete, not WIP)\n- Star count and forks (community engagement)\n\nREPOSITORIES:\n",
        );
        out.append(ranking_digest(github_repos).as_str());
        out.append(
            "\n\nRespond ONLY with valid JSON in this exact format:\n{\n\"ranked_repositories\": [\n{\n\"rank\": 1,\n\"name\": \"project-name\",\n\"reasoning\": \"Why this is a good choice for the resume\"\n},\n...\n]\n}",
        );
        out
    }

    /// What the model is asked when it writes the resume.
    pub fn build_prompt(
        &self,
        resume_config: &ResumeConfig,
        job_description: &JobDescription,
        github_repos: &Vec<GitHubRepoData>,
        language: &ResumeLanguage,
    ) -> (r: String)
        ensures
            r@ == writing_prompt(
                PROMPT_TEMPLATE@,
                resume_config@,
                job_description@,
                repo_views(github_repos@),
                *language,
            ),
    {
        fill_prompt(PROMPT_TEMPLATE, resume_config, job_description, github_repos, language)
    }
}

fn text_or<'a>(o: &'a Option<String>, otherwise: &'a str) -> (r: &'a str)
    ensures
        r@ == or_text(opt_text(*o), otherwise@),
{
    match o {
        Some(t) => t.as_str(),
        None => otherwise,
    }
}

/// A writing prompt from a template of the caller's own.
pub fn fill_prompt(
    template: &str,
    resume_config: &ResumeConfig,
    job_description: &JobDescription,
    github_repos: &Vec<GitHubRepoData>,
    language: &ResumeLanguage,
) -> (r: String)
    ensures
        r@ == writing_prompt(
            template@,
            resume_config@,
            job_description@,
            repo_views(github_repos@),
            *language,
        ),
{
    let t = replace(template, "{candidate_name}", resume_config.full_name.as_str());
    let t = replace(t.as_str(), "{job_title}", job_description.title.as_str());
    let t = replace(
        t.as_str(),
        "{job_company}",
        text_or(&job_description.company, "Unknown Company"),
    );
    let t = replace(t.as_str(), "{job_description}", job_description.description.as_str());
    let t = replace(t.as_str(), "{github_repos}", writing_digest(github_repos).as_str());
    let t = replace(
        t.as_str(),
        "{education_context}",
        text_or(
            &resume_config.education_context,
            "User has not provided specific education details",
        ),
    );
    let t = replace(
        t.as_str(),
        "{experience_context}",
        text_or(
            &resume_config.experience_context,
            "User has not provided specific experience details",
        ),
    );
    let t = replace(
        t.as_str(),
        "{skills_context}",
        text_or(&resume_config.skills_context, "User has not provided specific skill details"),
    );
    replace(
        t.as_str(),
        "{language}",
        match language {
            ResumeLanguage::English => "English",
            ResumeLanguage::Portuguese => "Portuguese",
        },
    )
}

/// One degree or course.
#[derive(Debug, Clone, PartialEq)]
pub struct EducationEntry {
    pub institution: String,
    pub degree: String,
    pub location: String,
    pub date: String,
    pub accomplishments: Vec<String>,
}

pub struct EducationEntryView {
    pub institution: Seq<char>,
    pub degree: Seq<char>,
    pub location: Seq<char>,
    pub date: Seq<char>,
    pub accomplishments: Seq<Seq<char>>,
}

impl View for EducationEntry {
    type V = EducationEntryView;

    open spec fn view(&self) -> EducationEntryView {
        EducationEntryView {
            institution: self.institution@,
            degree: self.degree@,
            location: self.location@,
            date: self.date@,
            accomplishments: texts(self.accomplishments@),
        }
    }
}

/// One position held.
#[derive(Debug, Clone, PartialEq)]
pub struct ExperienceEntry {
    pub company: String,
    pub position: String,
    pub location: String,
    pub date: String,
    pub accomplishments: Vec<String>,
}

pub struct ExperienceEntryView {
    pub company: Seq<char>,
    pub position: Seq<char>,
    pub location: Seq<char>,
    pub date: Seq<char>,
    pub accomplishments: Seq<Seq<char>>,
}

impl View for ExperienceEntry {
    type V = ExperienceEntryView;

    open spec fn view(&self) -> ExperienceEntryView {
        ExperienceEntryView {
            company: self.company@,
            position: self.position@,
            location: self.location@,
            date: self.date@,
            accomplishments: texts(self.accomplishments@),
        }
    }
}

/// One group of skills.
#[derive(Debug, Clone, PartialEq)]
pub struct SkillCategory {
    pub category: String,
    pub items: Vec<String>,
}

pub struct SkillCategoryView {
    pub category: Seq<char>,
    pub items: Seq<Seq<char>>,
}

impl View for SkillCategory {
    type V = SkillCategoryView;

    open spec fn view(&self) -> SkillCategoryView {
        SkillCategoryView { category: self.category@, items: texts(self.items@) }
    }
}

/// One project.
#[derive(Debug, Clone, PartialEq)]
pub struct ProjectEntry {
    pub title: String,
    pub link: String,
    pub items: Vec<String>,
}

pub struct ProjectEntryView {
    pub title: Seq<char>,
    pub link: Seq<char>,
    pub items: Seq<Seq<char>>,
}

impl View for ProjectEntry {
    type V = ProjectEntryView;

    open spec fn view(&self) -> ProjectEntryView {
        ProjectEntryView { title: self.title@, link: self.link@, items: texts(self.items@) }
    }
}

/// The content that the model writes for a resume.
#[derive(Debug, Clone, PartialEq)]
pub struct LLMResumeOutput {
    pub skills_by_category: Vec<SkillCategory>,
    pub projects: Vec<ProjectEntry>,
    pub education: Vec<EducationEntry>,
    pub experience: Vec<ExperienceEntry>,
}

pub struct LLMResumeOutputView {
    pub skills_by_category: Seq<SkillCategoryView>,
    pub projects: Seq<ProjectEntryView>,
    pub education: Seq<EducationEntryView>,
    pub experience: Seq<ExperienceEntryView>,
}

impl View for LLMResumeOutput {
    type V = LLMResumeOutputView;

    open spec fn view(&self) -> LLMResumeOutputView {
        LLMResumeOutputView {
            skills_by_category: Seq::new(
                self.skills_by_category@.len(),
                |i: int| self.skills_by_category@[i]@,
            ),
            projects: Seq::new(self.projects@.len(), |i: int| self.projects@[i]@),
            education: Seq::new(self.education@.len(), |i: int| self.education@[i]@),
            experience: Seq::new(self.experience@.len(), |i: int| self.experience@[i]@),
        }
    }
}

/// A group of skills as one bullet: the category in bold, then its skills
/// with commas between them.
pub open spec fn skill_line(category: SkillCategoryView) -> Seq<char> {
    "**"@ + category.category + "**: "@ + joined(category.items, ", "@)
}

pub open spec fn skill_lines(categories: Seq<SkillCategoryView>) -> Seq<Seq<char>> {
    Seq::new(categories.len(), |i: int| skill_line(categories[i]))
}

/// The one block that holds all skills.
pub open spec fn skills_block(categories: Seq<SkillCategoryView>) -> ResumeItemView {
    ResumeItemView {
        title: None,
        date: None,
        location: None,
        description: None,
        link: None,
        items: skill_lines(categories),
    }
}

/// A project as a block: its title, linked under the word `GitHub`.
pub open spec fn project_block(project: ProjectEntryView) -> ResumeItemView {
    ResumeItemView {
        title: Some(project.title),
        date: None,
        location: Some("GitHub"@),
        description: None,
        link: Some(project.link),
        items: project.items,
    }
}

/// A degree as a block: the institution and its place, then the degree and
/// its date.
pub open spec fn education_block(entry: EducationEntryView) -> ResumeItemView {
    ResumeItemView {
        title: Some(entry.institution),
        date: Some(entry.date),
        location: Some(entry.location),
        description: Some(entry.degree),
        link: None,
        items: entry.accomplishments,
    }
}

/// A position as a block: the company and its place, then the position and
/// its date.
pub open spec fn experience_block(entry: ExperienceEntryView) -> ResumeItemView {
    ResumeItemView {
        title: Some(entry.company),
        date: Some(entry.date),
        location: Some(entry.location),
        description: Some(entry.position),
        link: None,
        items: entry.accomplishments,
    }
}

pub open spec fn project_blocks(projects: Seq<ProjectEntryView>) -> Seq<ResumeItemView> {
    Seq::new(projects.len(), |i: int| project_block(projects[i]))
}

pub open spec fn education_blocks(entries: Seq<EducationEntryView>) -> Seq<ResumeItemView> {
    Seq::new(entries.len(), |i: int| education_block(entries[i]))
}

pub open spec fn experience_blocks(entries: Seq<ExperienceEntryView>) -> Seq<ResumeItemView> {
    Seq::new(entries.len(), |i: int| experience_block(entries[i]))
}

fn skills_item(categories: &Vec<SkillCategory>) -> (r: ResumeItem)
    ensures
        r@ == skills_block(Seq::new(categories@.len(), |i: int| categories@[i]@)),
{
    let mut items: Vec<String> = Vec::new();
    let mut i: usize = 0;
    while i < categories.len()
        invariant
            i <= categories.len(),
            items.len() == i,
            forall|k: int| 0 <= k < i ==> items@[k]@ == skill_line(categories@[k]@),
        decreases categories.len() - i,
    {
        let mut line = String::from_str("**");
        line.append(categories[i].category.as_str());
        line.append("**: ");
        line.append(join(&categories[i].items, ", ").as_str());
        items.push(line);
        i += 1;
    }
    assert(texts(items@) =~= skill_lines(Seq::new(categories@.len(), |i: int| categories@[i]@)));
    ResumeItem { title: None, date: None, location: None, description: None, link: None, items }
}

fn project_items(projects: &Vec<ProjectEntry>) -> (r: Vec<ResumeItem>)
    ensures
        item_views(r@) == project_blocks(Seq::new(projects@.len(), |i: int| projects@[i]@)),
{
    let mut out: Vec<ResumeItem> = Vec::new();
    let mut i: usize = 0;
    while i < projects.len()
        invariant
            i <= projects.len(),
            out.len() == i,
            forall|k: int| 0 <= k < i ==> out@[k]@ == project_block(projects@[k]@),
        decreases projects.len() - i,
    {
        let items = copy_strings(&projects[i].items);
        out.push(
            ResumeItem {
                title: Some(projects[i].title.clone()),
                date: None,
                location: Some(String::from_str("GitHub")),
                description: None,
                link: Some(projects[i].link.clone()),
                items,
            },
        );
        i += 1;
    }
    assert(item_views(out@) =~= project_blocks(Seq::new(projects@.len(), |i: int| projects@[i]@)));
    out
}

fn education_items(entries: &Vec<EducationEntry>) -> (r: Vec<ResumeItem>)
    ensures
        item_views(r@) == education_blocks(Seq::new(entries@.len(), |i: int| entries@[i]@)),
{
    let mut out: Vec<ResumeItem> = Vec::new();
    let mut i: usize = 0;
    while i < entries.len()
        invariant
            i <= entries.len(),
            out.len() == i,
            forall|k: int| 0 <= k < i ==> out@[k]@ == education_block(entries@[k]@),
        decreases entries.len() - i,
    {
        let items = copy_strings(&entries[i].accomplishments);
        out.push(
            ResumeItem {
                title: Some(entries[i].institution.clone()),
                date: Some(entries[i].date.clone()),
                location: Some(entries[i].location.clone()),
                description: Some(entries[i].degree.clone()),
                link: None,
                items,
            },
        );
        i += 1;
    }
    assert(item_views(out@) =~= education_blocks(Seq::new(entries@.len(), |i: int| entries@[i]@)));
    out
}

fn experience_items(entries: &Vec<ExperienceEntry>) -> (r: Vec<ResumeItem>)
    ensures
        item_views(r@) == experience_blocks(Seq::new(entries@.len(), |i: int| entries@[i]@)),
{
    let mut out: Vec<ResumeItem> = Vec::new();
    let mut i: usize = 0;
    while i < entries.len()
        invariant
            i <= entries.len(),
            out.len() == i,
            forall|k: int| 0 <= k < i ==> out@[k]@ == experience_block(entries@[k]@),
        decreases entries.len() - i,
    {
        let items = copy_strings(&entries[i].accomplishments);
        out.push(
            ResumeItem {
                title: Some(entries[i].company.clone()),
                date: Some(entries[i].date.clone()),
                location: Some(entries[i].location.clone()),
                description: Some(entries[i].position.clone()),
                link: None,
                items,
            },
        );
        i += 1;
    }
    assert(item_views(out@) =~= experience_blocks(Seq::new(entries@.len(), |i: int| entries@[i]@)));
    out
}

/// The blocks of a resume from what the model wrote: the one block of
/// skills, then the blocks of experience, of projects and of education.
pub fn resume_output_to_resume_items(output: &LLMResumeOutput) -> (r: (
    ResumeItem,
    Vec<ResumeItem>,
    Vec<ResumeItem>,
    Vec<ResumeItem>,
))
    ensures
        r.0@ == skills_block(output@.skills_by_category),
        item_views(r.1@) == experience_blocks(output@.experience),
        item_views(r.2@) == project_blocks(output@.projects),
        item_views(r.3@) == education_blocks(output@.education),
{
    let skills = skills_item(&output.skills_by_category);
    let projects = project_items(&output.projects);
    let education = education_items(&output.education);
    let experience = experience_items(&output.experience);
    (skills, experience, projects, education)
}

/// A configured section, unless anything was written for it: what was
/// written replaces the section as a whole.
pub open spec fn section_or(written: Seq<ResumeItemView>, configured: Seq<ResumeItemView>) -> Seq<
    ResumeItemView,
> {
    if written.len() == 0 {
        configured
    } else {
        written
    }
}

/// The resume with the sections that the model wrote in place of the
/// configured ones. The skills count as written where their block has a
/// bullet.
pub open spec fn with_written(
    resume: ResumeConfigView,
    skills: ResumeItemView,
    experience: Seq<ResumeItemView>,
    projects: Seq<ResumeItemView>,
    education: Seq<ResumeItemView>,
) -> ResumeConfigView {
    ResumeConfigView {
        skills: if skills.items.len() == 0 {
            resume.skills
        } else {
            seq![skills]
        },
        experience: section_or(experience, resume.experience),
        projects: section_or(projects, resume.projects),
        education: section_or(education, resume.education),
        ..resume
    }
}

/// Puts the sections that the model wrote into the resume.
pub fn apply_generated(
    resume: ResumeConfig,
    skills: ResumeItem,
    experience: Vec<ResumeItem>,
    projects: Vec<ResumeItem>,
    education: Vec<ResumeItem>,
) -> (r: ResumeConfig)
    ensures
        r@ == with_written(
            resume@,
            skills@,
            item_views(experience@),
            item_views(projects@),
            item_views(education@),
        ),
{
    let mut r = resume;
    if skills.items.len() > 0 {
        let mut one: Vec<ResumeItem> = Vec::new();
        one.push(skills);
        assert(item_views(one@) =~= seq![skills@]);
        r.skills = one;
    }
    if experience.len() > 0 {
        r.experience = experience;
    }
    if projects.len() > 0 {
        r.projects = projects;
    }
    if education.len() > 0 {
        r.education = education;
    }
    r
}

} // verus!
