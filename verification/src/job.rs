//! The job posting: what is read from a page or a file before the language
//! model tidies it.

use crate::text::{
    copy_opt, join, joined, lemma_texts_push, opt_text, replace, replaced, split, split_on, texts,
    trim, trimmed,
};
use vstd::prelude::*;
use vstd::string::*;

verus! {

/// `regex::Error`, why a pattern does not compile.
#[verifier::external_type_specification]
#[verifier::external_body]
pub struct ExRegexError(regex::Error);

/// What the first match of `pattern` in `text` captured in its group
/// `group`: `None` where the pattern does not compile, `Some(None)` where it
/// does not match, has no such group, or the group took no part in the
/// match.
pub uninterp spec fn captured(pattern: Seq<char>, text: Seq<char>, group: nat) -> Option<
    Option<Seq<char>>,
>;

/// `Regex::new`, then `Regex::captures`, `Captures::get` and
/// `Match::as_str`: the text of one group of the leftmost match. Nothing is
/// proved of the matching itself: the result is only given its name.
#[verifier::external_body]
pub(crate) fn capture(pattern: &str, text: &str, group: usize) -> (r: Result<
    Option<String>,
    regex::Error,
>)
    ensures
        match r {
            Ok(found) => captured(pattern@, text@, group as nat) == Some(opt_text(found)),
            Err(_) => captured(pattern@, text@, group as nat) is None,
        },
{
    let re = regex::Regex::new(pattern)?;
    Ok(re.captures(text).and_then(|c| c.get(group)).map(|m| m.as_str().to_string()))
}

/// What a pattern captured, where it compiles and matches.
pub open spec fn capture_of(pattern: Seq<char>, text: Seq<char>, group: nat) -> Option<Seq<char>> {
    match captured(pattern, text, group) {
        Some(Some(s)) => Some(s),
        _ => None,
    }
}

/// The first of two that is there.
pub open spec fn or_else(a: Option<Seq<char>>, b: Option<Seq<char>>) -> Option<Seq<char>> {
    if a is Some {
        a
    } else {
        b
    }
}

/// What a pattern captured; a pattern that does not compile captures
/// nothing.
pub fn find_capture(pattern: &str, text: &str, group: usize) -> (r: Option<String>)
    ensures
        opt_text(r) == capture_of(pattern@, text@, group as nat),
{
    match capture(pattern, text, group) {
        Ok(found) => found,
        Err(_) => None,
    }
}

/// A job posting.
#[derive(Debug, PartialEq)]
pub struct JobDescription {
    pub title: String,
    pub company: Option<String>,
    pub description: String,
    pub requirements: String,
}

pub struct JobDescriptionView {
    pub title: Seq<char>,
    pub company: Option<Seq<char>>,
    pub description: Seq<char>,
    pub requirements: Seq<char>,
}

impl View for JobDescription {
    type V = JobDescriptionView;

    open spec fn view(&self) -> JobDescriptionView {
        JobDescriptionView {
            title: self.title@,
            company: opt_text(self.company),
            description: self.description@,
            requirements: self.requirements@,
        }
    }
}

impl Clone for JobDescription {
    fn clone(&self) -> (r: Self)
        ensures
            r@ == self@,
    {
        JobDescription {
            title: self.title.clone(),
            company: copy_opt(&self.company),
            description: self.description.clone(),
            requirements: self.requirements.clone(),
        }
    }
}

/// A heading of first level.
pub const TITLE_IN_HEADING: &'static str = "<h1[^>]*>([^<]+)</h1>";

/// The title that a page declares for sharing.
pub const TITLE_IN_META: &'static str = "<meta property=\"og:title\" content=\"([^\"]+)";

/// The title of the page.
pub const TITLE_IN_TITLE: &'static str = "<title>([^<]+)</title>";

/// The site name that a page declares for sharing.
pub const COMPANY_IN_META: &'static str = "<meta property=\"og:site_name\" content=\"([^\"]+)";

/// The content of an element whose tag speaks of a company.
pub const COMPANY_IN_TAG: &'static str = "company[^>]*>([^<]+)<";

/// A hundred characters or more of text behind a word for requirements.
pub const REQUIREMENTS: &'static str =
    "(?i)(requirements|qualifications|skills|must-haves?)[:\\s]*([^<]{100,})";

/// One line of a page as text: the character references for `<`, `>`, `&`,
/// `"` and `'` resolved in that order, and the white space around the line
/// dropped. Tags stay as they are.
pub open spec fn plain_line(line: Seq<char>) -> Seq<char> {
    let a = replaced(line, "<[^>]+>"@, ""@);
    let b = replaced(a, "&lt;"@, "<"@);
    let c = replaced(b, "&gt;"@, ">"@);
    let d = replaced(c, "&amp;"@, "&"@);
    let e = replaced(d, "&quot;"@, "\""@);
    let f = replaced(e, "&#39;"@, "'"@);
    trimmed(f)
}

/// The lines of a page that are not empty as text.
pub open spec fn plain_lines(lines: Seq<Seq<char>>) -> Seq<Seq<char>>
    decreases lines.len(),
{
    if lines.len() == 0 {
        Seq::empty()
    } else if plain_line(lines.last()).len() == 0 {
        plain_lines(lines.drop_last())
    } else {
        plain_lines(lines.drop_last()).push(plain_line(lines.last()))
    }
}

/// A page as text: its lines, those that are empty left out. The lines are
/// what stands between the line feeds; a carriage return before a line feed
/// is white space at the end of its line.
pub open spec fn page_text(html: Seq<char>) -> Seq<char> {
    joined(plain_lines(split_on(html, '\n')), "\n"@)
}

/// The title of a posting: what the first of the three title patterns that
/// matches has captured.
pub open spec fn page_title(html: Seq<char>) -> Option<Seq<char>> {
    or_else(
        capture_of(TITLE_IN_HEADING@, html, 1),
        or_else(capture_of(TITLE_IN_META@, html, 1), capture_of(TITLE_IN_TITLE@, html, 1)),
    )
}

/// The company of a posting.
pub open spec fn page_company(html: Seq<char>) -> Option<Seq<char>> {
    or_else(capture_of(COMPANY_IN_META@, html, 1), capture_of(COMPANY_IN_TAG@, html, 1))
}

/// The requirements of a posting.
pub open spec fn page_requirements(html: Seq<char>) -> Option<Seq<char>> {
    capture_of(REQUIREMENTS@, html, 2)
}

/// The posting that a page holds. Where no title is found it is
/// `Unknown Position`; where no requirements are found they are the whole
/// text.
pub open spec fn page_job(html: Seq<char>) -> JobDescriptionView {
    JobDescriptionView {
        title: match page_title(html) {
            Some(t) => t,
            None => "Unknown Position"@,
        },
        company: page_company(html),
        description: page_text(html),
        requirements: match page_requirements(html) {
            Some(r) => r,
            None => page_text(html),
        },
    }
}

/// Reads job postings.
pub struct JobScraper;

impl JobScraper {
    /// The posting that a page holds.
    pub fn parse_html(html: &str) -> (r: JobDescription)
        ensures
            r@ == page_job(html@),
    {
        let description = Self::extract_text_from_html(html);
        let title = match Self::extract_job_title(html) {
            Some(t) => t,
            None => String::from_str("Unknown Position"),
        };
        let company = Self::extract_company_name(html);
        let requirements = match Self::extract_requirements(html) {
            Some(r) => r,
            None => description.clone(),
        };
        JobDescription { title, company, description, requirements }
    }

    /// A page as text.
    pub fn extract_text_from_html(html: &str) -> (r: String)
        ensures
            r@ == page_text(html@),
    {
        let lines = split(html, '\n');
        let ghost ls = texts(lines@);
        let mut kept: Vec<String> = Vec::new();
        let mut i: usize = 0;
        assert(ls.take(0) =~= Seq::<Seq<char>>::empty());
        assert(texts(kept@) =~= Seq::<Seq<char>>::empty());
        while i < lines.len()
            invariant
                i <= lines.len(),
                ls == texts(lines@),
                texts(kept@) == plain_lines(ls.take(i as int)),
            decreases lines.len() - i,
        {
            assert(ls.take(i + 1).drop_last() =~= ls.take(i as int));
            assert(ls.take(i + 1).last() == lines@[i as int]@);
            let a = replace(lines[i].as_str(), "<[^>]+>", "");
            let b = replace(a.as_str(), "&lt;", "<");
            let c = replace(b.as_str(), "&gt;", ">");
            let d = replace(c.as_str(), "&amp;", "&");
            let e = replace(d.as_str(), "&quot;", "\"");
            let f = replace(e.as_str(), "&#39;", "'");
            let line = trim(f.as_str());
            if !line.as_str().is_empty() {
                proof {
                    lemma_texts_push(kept@, line);
                }
                kept.push(line);
            }
            i += 1;
        }
        assert(ls.take(lines.len() as int) =~= ls);
        join(&kept, "\n")
    }

    /// The title of a posting, where the page shows one.
    pub fn extract_job_title(html: &str) -> (r: Option<String>)
        ensures
            opt_text(r) == page_title(html@),
    {
        match find_capture(TITLE_IN_HEADING, html, 1) {
            Some(t) => Some(t),
            None => match find_capture(TITLE_IN_META, html, 1) {
                Some(t) => Some(t),
                None => find_capture(TITLE_IN_TITLE, html, 1),
            },
        }
    }

    /// The company of a posting, where the page shows one.
    pub fn extract_company_name(html: &str) -> (r: Option<String>)
        ensures
            opt_text(r) == page_company(html@),
    {
        match find_capture(COMPANY_IN_META, html, 1) {
            Some(c) => Some(c),
            None => find_capture(COMPANY_IN_TAG, html, 1),
        }
    }

    /// The requirements of a posting, where the page shows them.
    pub fn extract_requirements(html: &str) -> (r: Option<String>)
        ensures
            opt_text(r) == page_requirements(html@),
    {
        find_capture(REQUIREMENTS, html, 2)
    }

    /// The posting that a file of plain text holds: the text is both its
    /// description and its requirements.
    pub fn from_text(content: String) -> (r: JobDescription)
        ensures
            r@ == (JobDescriptionView {
                title: "Job Description"@,
                company: None,
                description: content@,
                requirements: content@,
            }),
    {
        JobDescription {
            title: String::from_str("Job Description"),
            company: None,
            description: content.clone(),
            requirements: content,
        }
    }

    /// The posting that stands in where none is given.
    pub fn generic() -> (r: JobDescription)
        ensures
            r@ == (JobDescriptionView {
                title: "Software Engineer"@,
                company: Some("Your Target Company"@),
                description:
                    "Software engineer position focused on building scalable systems and solving complex technical challenges."@,
                requirements:
                    "Experience with modern software development practices, strong problem-solving skills, and collaborative mindset."@,
            }),
    {
        JobDescription {
            title: String::from_str("Software Engineer"),
            company: Some(String::from_str("Your Target Company")),
            description: String::from_str(
                "Software engineer position focused on building scalable systems and solving complex technical challenges.",
            ),
            requirements: String::from_str(
                "Experience with modern software development practices, strong problem-solving skills, and collaborative mindset.",
            ),
        }
    }
}

/// Where the posting comes from.
#[derive(Debug, PartialEq)]
pub enum JobSource {
    /// A page to fetch.
    Url(String),
    /// A file to read.
    File(String),
    /// Nothing was given: the generic posting.
    Generic,
}

pub enum JobSourceView {
    Url(Seq<char>),
    File(Seq<char>),
    Generic,
}

impl View for JobSource {
    type V = JobSourceView;

    open spec fn view(&self) -> JobSourceView {
        match self {
            JobSource::Url(u) => JobSourceView::Url(u@),
            JobSource::File(f) => JobSourceView::File(f@),
            JobSource::Generic => JobSourceView::Generic,
        }
    }
}

/// A page goes before a file, and a file before the generic posting.
pub open spec fn chosen_source(url: Option<Seq<char>>, file: Option<Seq<char>>) -> JobSourceView {
    match url {
        Some(u) => JobSourceView::Url(u),
        None => match file {
            Some(f) => JobSourceView::File(f),
            None => JobSourceView::Generic,
        },
    }
}

/// Where the posting comes from, given what the command line names.
pub fn job_source(url: &Option<String>, file: &Option<String>) -> (r: JobSource)
    ensures
        r@ == chosen_source(opt_text(*url), opt_text(*file)),
{
    match url {
        Some(u) => JobSource::Url(u.clone()),
        None => match file {
            Some(f) => JobSource::File(f.clone()),
            None => JobSource::Generic,
        },
    }
}

} // verus!
