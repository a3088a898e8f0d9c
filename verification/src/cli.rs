//! What the command line says, as plain values.

use crate::job::{chosen_source, job_source, JobSource};
use crate::latex::ResumeLanguage;
use crate::text::{lowercase, opt_text, same_text, to_lowercase};
use vstd::prelude::*;
use vstd::string::*;

verus! {

/// How much is logged.
#[derive(Debug, Clone, Copy, PartialEq, Eq)]
pub enum Verbosity {
    Off,
    Error,
    Warn,
    Info,
    Debug,
    Trace,
}

/// The arguments of a run.
#[derive(Debug, PartialEq)]
pub struct Args {
    /// The configuration file.
    pub config: String,
    /// The page of the job posting.
    pub job_url: Option<String>,
    /// The file of the job posting.
    pub job_file: Option<String>,
    /// The language of the resume, as a tag.
    pub language: String,
    /// Where the PDF goes.
    pub output: String,
    /// How much is logged.
    pub verbosity: Verbosity,
}

/// The language that an argument in lower case names: `pt` and
/// `portuguese` name Portuguese, every other word English.
pub open spec fn argument_named(lowered: Seq<char>) -> ResumeLanguage {
    if lowered == "pt"@ || lowered == "portuguese"@ {
        ResumeLanguage::Portuguese
    } else {
        ResumeLanguage::English
    }
}

/// The language that an argument names, whatever its case.
pub open spec fn argument_language(tag: Seq<char>) -> ResumeLanguage {
    argument_named(lowercase(tag))
}

/// The language that an argument in lower case names.
pub fn language_from_lowercase(lowered: &str) -> (r: ResumeLanguage)
    ensures
        r == argument_named(lowered@),
{
    if same_text(lowered, "pt") || same_text(lowered, "portuguese") {
        ResumeLanguage::Portuguese
    } else {
        ResumeLanguage::English
    }
}

/// The language that an argument names.
pub fn parse_language(lang: &str) -> (r: ResumeLanguage)
    ensures
        r == argument_language(lang@),
{
    language_from_lowercase(to_lowercase(lang).as_str())
}

/// The tag of a language.
pub fn language_tag(language: ResumeLanguage) -> (r: &'static str)
    ensures
        r@ == (match language {
            ResumeLanguage::English => "en"@,
            ResumeLanguage::Portuguese => "pt"@,
        }),
{
    match language {
        ResumeLanguage::English => "en",
        ResumeLanguage::Portuguese => "pt",
    }
}

impl Args {
    /// The arguments of a run that names nothing: the configuration in
    /// `config.toml`, no posting, Portuguese, the PDF in `resume.pdf`.
    pub fn defaults() -> (r: Self)
        ensures
            r.config@ == "config.toml"@,
            r.job_url is None,
            r.job_file is None,
            r.language@ == "pt"@,
            r.output@ == "resume.pdf"@,
            r.verbosity == Verbosity::Info,
    {
        Args {
            config: String::from_str("config.toml"),
            job_url: None,
            job_file: None,
            language: String::from_str("pt"),
            output: String::from_str("resume.pdf"),
            verbosity: Verbosity::Info,
        }
    }

    /// The language of the resume.
    pub fn resume_language(&self) -> (r: ResumeLanguage)
        ensures
            r == argument_language(self.language@),
    {
        parse_language(self.language.as_str())
    }

    /// Where the posting comes from.
    pub fn job_source(&self) -> (r: JobSource)
        ensures
            r@ == chosen_source(opt_text(self.job_url), opt_text(self.job_file)),
    {
        job_source(&self.job_url, &self.job_file)
    }
}

} // verus!
