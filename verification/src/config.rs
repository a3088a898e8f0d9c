//! What the operator configures: identity, baseline resume sections, and the
//! credentials of the two remote services.

use crate::text::{copy_opt, copy_strings, opt_text, texts};
use std::sync::Arc;
use vstd::prelude::*;
use vstd::string::*;

verus! {

/// The configuration as it is handed through the pipeline: loaded once, then
/// shared and never changed.
pub type Config = Arc<ConfigInner>;

/// One block of a resume section: a heading line, a second line, and bullets.
#[derive(Debug, PartialEq)]
pub struct ResumeItem {
    pub title: Option<String>,
    pub date: Option<String>,
    pub location: Option<String>,
    pub description: Option<String>,
    pub link: Option<String>,
    pub items: Vec<String>,
}

pub struct ResumeItemView {
    pub title: Option<Seq<char>>,
    pub date: Option<Seq<char>>,
    pub location: Option<Seq<char>>,
    pub description: Option<Seq<char>>,
    pub link: Option<Seq<char>>,
    pub items: Seq<Seq<char>>,
}

impl View for ResumeItem {
    type V = ResumeItemView;

    open spec fn view(&self) -> ResumeItemView {
        ResumeItemView {
            title: opt_text(self.title),
            date: opt_text(self.date),
            location: opt_text(self.location),
            description: opt_text(self.description),
            link: opt_text(self.link),
            items: texts(self.items@),
        }
    }
}

impl Clone for ResumeItem {
    fn clone(&self) -> (r: Self)
        ensures
            r@ == self@,
    {
        ResumeItem {
            title: copy_opt(&self.title),
            date: copy_opt(&self.date),
            location: copy_opt(&self.location),
            description: copy_opt(&self.description),
            link: copy_opt(&self.link),
            items: copy_strings(&self.items),
        }
    }
}

/// The models of a list of resume items.
pub open spec fn item_views(v: Seq<ResumeItem>) -> Seq<ResumeItemView> {
    Seq::new(v.len(), |i: int| v[i]@)
}

/// A copy of a list of resume items.
pub fn copy_items(v: &Vec<ResumeItem>) -> (r: Vec<ResumeItem>)
    ensures
        item_views(r@) == item_views(v@),
{
    let mut out: Vec<ResumeItem> = Vec::new();
    let mut i: usize = 0;
    while i < v.len()
        invariant
            i <= v.len(),
            out.len() == i,
            forall|k: int| 0 <= k < i ==> out@[k]@ == v@[k]@,
        decreases v.len() - i,
    {
        out.push(v[i].clone());
        i += 1;
    }
    assert(item_views(out@) =~= item_views(v@));
    out
}

/// The candidate: who they are and what their resume holds before any
/// generated content replaces a section.
#[derive(Debug, PartialEq)]
pub struct ResumeConfig {
    pub full_name: String,
    pub country: String,
    pub city: String,
    pub email: Option<String>,
    pub phone: Option<String>,
    pub linkedin: Option<String>,
    pub github: Option<String>,
    pub site: Option<String>,
    pub education: Vec<ResumeItem>,
    pub skills: Vec<ResumeItem>,
    pub experience: Vec<ResumeItem>,
    pub projects: Vec<ResumeItem>,
    pub education_context: Option<String>,
    pub experience_context: Option<String>,
    pub skills_context: Option<String>,
}

pub struct ResumeConfigView {
    pub full_name: Seq<char>,
    pub country: Seq<char>,
    pub city: Seq<char>,
    pub email: Option<Seq<char>>,
    pub phone: Option<Seq<char>>,
    pub linkedin: Option<Seq<char>>,
    pub github: Option<Seq<char>>,
    pub site: Option<Seq<char>>,
    pub education: Seq<ResumeItemView>,
    pub skills: Seq<ResumeItemView>,
    pub experience: Seq<ResumeItemView>,
    pub projects: Seq<ResumeItemView>,
    pub education_context: Option<Seq<char>>,
    pub experience_context: Option<Seq<char>>,
    pub skills_context: Option<Seq<char>>,
}

impl View for ResumeConfig {
    type V = ResumeConfigView;

    open spec fn view(&self) -> ResumeConfigView {
        ResumeConfigView {
            full_name: self.full_name@,
            country: self.country@,
            city: self.city@,
            email: opt_text(self.email),
            phone: opt_text(self.phone),
            linkedin: opt_text(self.linkedin),
            github: opt_text(self.github),
            site: opt_text(self.site),
            education: item_views(self.education@),
            skills: item_views(self.skills@),
            experience: item_views(self.experience@),
            projects: item_views(self.projects@),
            education_context: opt_text(self.education_context),
            experience_context: opt_text(self.experience_context),
            skills_context: opt_text(self.skills_context),
        }
    }
}

impl Clone for ResumeConfig {
    fn clone(&self) -> (r: Self)
        ensures
            r@ == self@,
    {
        ResumeConfig {
            full_name: self.full_name.clone(),
            country: self.country.clone(),
            city: self.city.clone(),
            email: copy_opt(&self.email),
            phone: copy_opt(&self.phone),
            linkedin: copy_opt(&self.linkedin),
            github: copy_opt(&self.github),
            site: copy_opt(&self.site),
            education: copy_items(&self.education),
            skills: copy_items(&self.skills),
            experience: copy_items(&self.experience),
            projects: copy_items(&self.projects),
            education_context: copy_opt(&self.education_context),
            experience_context: copy_opt(&self.experience_context),
            skills_context: copy_opt(&self.skills_context),
        }
    }
}

/// Whose repositories are listed, and with which token.
#[derive(Debug, PartialEq)]
pub struct GithubConfig {
    pub token: Option<String>,
    pub username: String,
}

pub struct GithubConfigView {
    pub token: Option<Seq<char>>,
    pub username: Seq<char>,
}

impl View for GithubConfig {
    type V = GithubConfigView;

    open spec fn view(&self) -> GithubConfigView {
        GithubConfigView { token: opt_text(self.token), username: self.username@ }
    }
}

impl Clone for GithubConfig {
    fn clone(&self) -> (r: Self)
        ensures
            r@ == self@,
    {
        GithubConfig { token: copy_opt(&self.token), username: self.username.clone() }
    }
}

/// How the language model is reached.
#[derive(Debug, PartialEq)]
pub struct LLMConfig {
    pub api_key: Option<String>,
    pub model: String,
    pub endpoint: String,
    pub max_retries: u32,
}

pub struct LLMConfigView {
    pub api_key: Option<Seq<char>>,
    pub model: Seq<char>,
    pub endpoint: Seq<char>,
    pub max_retries: u32,
}

impl View for LLMConfig {
    type V = LLMConfigView;

    open spec fn view(&self) -> LLMConfigView {
        LLMConfigView {
            api_key: opt_text(self.api_key),
            model: self.model@,
            endpoint: self.endpoint@,
            max_retries: self.max_retries,
        }
    }
}

impl Clone for LLMConfig {
    fn clone(&self) -> (r: Self)
        ensures
            r@ == self@,
    {
        LLMConfig {
            api_key: copy_opt(&self.api_key),
            model: self.model.clone(),
            endpoint: self.endpoint.clone(),
            max_retries: self.max_retries,
        }
    }
}

/// The whole configuration file.
#[derive(Debug, PartialEq)]
pub struct ConfigInner {
    pub resume: ResumeConfig,
    pub github: GithubConfig,
    pub llm: LLMConfig,
}

pub struct ConfigInnerView {
    pub resume: ResumeConfigView,
    pub github: GithubConfigView,
    pub llm: LLMConfigView,
}

impl View for ConfigInner {
    type V = ConfigInnerView;

    open spec fn view(&self) -> ConfigInnerView {
        ConfigInnerView { resume: self.resume@, github: self.github@, llm: self.llm@ }
    }
}

impl Clone for ConfigInner {
    fn clone(&self) -> (r: Self)
        ensures
            r@ == self@,
    {
        ConfigInner {
            resume: self.resume.clone(),
            github: self.github.clone(),
            llm: self.llm.clone(),
        }
    }
}

/// The model that is asked where the configuration names none.
pub fn default_llm_model() -> (r: String)
    ensures
        r@ == "gemini-2.0-flash-exp"@,
{
    String::from_str("gemini-2.0-flash-exp")
}

/// The endpoint that is called where the configuration names none.
pub fn default_llm_endpoint() -> (r: String)
    ensures
        r@ == "https://generativelanguage.googleapis.com/v1beta/models"@,
{
    String::from_str("https://generativelanguage.googleapis.com/v1beta/models")
}

/// The retry count where the configuration gives none.
pub fn default_max_retries() -> (r: u32)
    ensures
        r == 3,
{
    3
}

} // verus!
