//! The resume as LaTeX source: escaping of free text, the blocks of each
//! section, the contact line, and the template they are set into.

use crate::config::{item_views, Config, ResumeConfig, ResumeConfigView, ResumeItem, ResumeItemView};
use crate::text::{occurs_at, find_between, find_text_between, first_occurrence, index_of, join, joined, lowercase, replace, replaced, same_text, texts, to_chars, to_lowercase};
use vstd::prelude::*;
use vstd::string::*;

verus! {

/// What one character outside any markup span is written as.
pub open spec fn escaped_char(c: char) -> Seq<char> {
    if c == '&' {
        "\\&"@
    } else if c == '%' {
        "\\%"@
    } else if c == '$' {
        "\\$"@
    } else if c == '#' {
        "\\#"@
    } else if c == '_' {
        "\\_"@
    } else if c == '{' {
        "\\{"@
    } else if c == '}' {
        "\\}"@
    } else if c == '^' {
        "\\textasciicircum{}"@
    } else if c == '~' {
        "\\textasciitilde{}"@
    } else if c == '\\' {
        "\\textbackslash{}"@
    } else {
        seq![c]
    }
}

/// The marker that opens and closes a bold span.
pub open spec fn bold_marker() -> Seq<char> {
    seq!['*', '*']
}

/// A text as LaTeX source. A span between two `**` becomes a bold group and
/// a span between two backticks a monospace group, each with its inside
/// escaped in turn; a span that is never closed keeps its opening marker.
/// Every other character is written by [`escaped_char`].
pub open spec fn escaped(s: Seq<char>) -> Seq<char>
    decreases s.len(),
{
    if s.len() == 0 {
        s
    } else if s.len() >= 2 && s[0] == '*' && s[1] == '*' {
        let rest = s.skip(2);
        let j = first_occurrence(rest, bold_marker());
        if 0 <= j && j + 2 <= rest.len() {
            "\\textbf{"@ + escaped(rest.take(j)) + "}"@ + escaped(rest.skip(j + 2))
        } else {
            "**"@ + escaped(rest)
        }
    } else if s[0] == '`' {
        let rest = s.skip(1);
        let j = index_of(rest, '`');
        if 0 <= j < rest.len() {
            "\\texttt{"@ + escaped(rest.take(j)) + "}"@ + escaped(rest.skip(j + 1))
        } else {
            "`"@ + escaped(rest)
        }
    } else {
        escaped_char(s[0]) + escaped(s.skip(1))
    }
}

fn push_escaped_char(out: &mut String, c: char)
    ensures
        final(out)@ == old(out)@ + escaped_char(c),
{
    if c == '&' {
        out.append("\\&");
    } else if c == '%' {
        out.append("\\%");
    } else if c == '$' {
        out.append("\\$");
    } else if c == '#' {
        out.append("\\#");
    } else if c == '_' {
        out.append("\\_");
    } else if c == '{' {
        out.append("\\{");
    } else if c == '}' {
        out.append("\\}");
    } else if c == '^' {
        out.append("\\textasciicircum{}");
    } else if c == '~' {
        out.append("\\textasciitilde{}");
    } else if c == '\\' {
        out.append("\\textbackslash{}");
    } else {
        let ghost before = out@;
        out.push(c);
        assert(before.push(c) =~= before + seq![c]);
    }
}

fn escape_range(chars: &Vec<char>, lo: usize, hi: usize) -> (r: String)
    requires
        lo <= hi <= chars.len(),
    ensures
        r@ == escaped(chars@.subrange(lo as int, hi as int)),
    decreases hi - lo,
{
    let mut marker: Vec<char> = Vec::new();
    marker.push('*');
    marker.push('*');
    assert(marker@ =~= bold_marker());
    let mut out = String::new();
    let mut i: usize = lo;
    assert(out@ + escaped(chars@.subrange(lo as int, hi as int)) =~= escaped(
        chars@.subrange(lo as int, hi as int),
    ));
    while i < hi
        invariant
            lo <= i <= hi <= chars.len(),
            marker@ == bold_marker(),
            out@ + escaped(chars@.subrange(i as int, hi as int)) == escaped(
                chars@.subrange(lo as int, hi as int),
            ),
        decreases hi - i,
    {
        let ghost s = chars@.subrange(i as int, hi as int);
        let ghost before = out@;
        let c = chars[i];
        assert(s[0] == c);
        if c == '*' && i + 1 < hi && chars[i + 1] == '*' {
            assert(s[1] == '*');
            let ghost rest = s.skip(2);
            assert(rest =~= chars@.subrange(i + 2, hi as int));
            match find_text_between(chars, i + 2, hi, &marker) {
                Some(j) => {
                    let inner = escape_range(chars, i + 2, j);
                    assert(rest.take(j - (i + 2)) =~= chars@.subrange(i + 2, j as int));
                    assert(rest.skip(j - (i + 2) + 2) =~= chars@.subrange(j + 2, hi as int));
                    out.append("\\textbf{");
                    out.append(inner.as_str());
                    out.append("}");
                    assert(out@ + escaped(chars@.subrange(j + 2, hi as int)) =~= before + (
                    "\\textbf{"@ + inner@ + "}"@ + escaped(chars@.subrange(j + 2, hi as int))));
                    i = j + 2;
                },
                None => {
                    let inner = escape_range(chars, i + 2, hi);
                    out.append("**");
                    out.append(inner.as_str());
                    assert(chars@.subrange(hi as int, hi as int) =~= Seq::<char>::empty());
                    assert(out@ + Seq::<char>::empty() =~= before + ("**"@ + inner@));
                    i = hi;
                },
            }
        } else if c == '`' {
            let ghost rest = s.skip(1);
            assert(rest =~= chars@.subrange(i + 1, hi as int));
            let j = find_between(chars, i + 1, hi, '`');
            if j < hi {
                let inner = escape_range(chars, i + 1, j);
                assert(rest.take(j - (i + 1)) =~= chars@.subrange(i + 1, j as int));
                assert(rest.skip(j - (i + 1) + 1) =~= chars@.subrange(j + 1, hi as int));
                out.append("\\texttt{");
                out.append(inner.as_str());
                out.append("}");
                assert(out@ + escaped(chars@.subrange(j + 1, hi as int)) =~= before + ("\\texttt{"@
                    + inner@ + "}"@ + escaped(chars@.subrange(j + 1, hi as int))));
                i = j + 1;
            } else {
                let inner = escape_range(chars, i + 1, hi);
                out.append("`");
                out.append(inner.as_str());
                assert(chars@.subrange(hi as int, hi as int) =~= Seq::<char>::empty());
                assert(out@ + Seq::<char>::empty() =~= before + ("`"@ + inner@));
                i = hi;
            }
        } else {
            push_escaped_char(&mut out, c);
            assert(s.skip(1) =~= chars@.subrange(i + 1, hi as int));
            assert(out@ + escaped(s.skip(1)) =~= before + (escaped_char(c) + escaped(s.skip(1))));
            i += 1;
        }
    }
    assert(chars@.subrange(hi as int, hi as int) =~= Seq::<char>::empty());
    assert(out@ + Seq::<char>::empty() =~= out@);
    out
}

/// Writes free text as LaTeX source.
pub fn escape_latex(text: &str) -> (r: String)
    ensures
        r@ == escaped(text@),
{
    let chars = to_chars(text);
    let r = escape_range(&chars, 0, chars.len());
    assert(chars@.subrange(0, chars.len() as int) =~= chars@);
    r
}

/// The language that the section headings are written in.
#[derive(Debug, Clone, Copy, PartialEq, Eq)]
pub enum ResumeLanguage {
    English,
    Portuguese,
}

impl Default for ResumeLanguage {
    fn default() -> (r: Self)
        ensures
            r == ResumeLanguage::English,
    {
        ResumeLanguage::English
    }
}

/// The language that a tag in lower case names: `pt`, `pt-br` and
/// `portuguese` name Portuguese, every other tag English.
pub open spec fn language_named(lowered: Seq<char>) -> ResumeLanguage {
    if lowered == "pt"@ || lowered == "pt-br"@ || lowered == "portuguese"@ {
        ResumeLanguage::Portuguese
    } else {
        ResumeLanguage::English
    }
}

/// The language that a tag names, whatever its case.
pub open spec fn language_of(tag: Seq<char>) -> ResumeLanguage {
    language_named(lowercase(tag))
}

impl ResumeLanguage {
    /// The language that a tag in lower case names.
    pub fn from_lowercase(lowered: &str) -> (r: Self)
        ensures
            r == language_named(lowered@),
    {
        if same_text(lowered, "pt") || same_text(lowered, "pt-br") || same_text(
            lowered,
            "portuguese",
        ) {
            ResumeLanguage::Portuguese
        } else {
            ResumeLanguage::English
        }
    }
}

impl From<&str> for ResumeLanguage {
    fn from(s: &str) -> (r: Self) {
        Self::from_lowercase(to_lowercase(s).as_str())
    }
}

impl vstd::std_specs::convert::FromSpecImpl<&str> for ResumeLanguage {
    open spec fn obeys_from_spec() -> bool {
        true
    }

    open spec fn from_spec(s: &str) -> Self {
        language_of(s@)
    }
}

/// The document that the resume is set into. Each `<<..>>` stands for what
/// [`assembled`] puts in its place.
pub const TEMPLATE: &'static str =
    "\\documentclass[11pt,a4paper]{article}\n\\usepackage[utf8]{inputenc}\n\\usepackage[T1]{fontenc}\n\\usepackage[margin=0.75in]{geometry}\n\\usepackage{enumitem}\n\\usepackage[hidelinks]{hyperref}\n\\pagestyle{empty}\n\\setlength{\\parindent}{0pt}\n\\setlength{\\parskip}{4pt}\n\n\\begin{document}\n\n\\begin{center}\n{\\LARGE \\textbf{<<NAME>>}} \\\\\n\\vspace{4pt}\n<<CITY>>, <<COUNTRY>> <<HEADER>>\n\\end{center}\n\n\\section*{<<EDUCATION_HEADER>>}\n\\hrule\n\\vspace{4pt}\n<<EDUCATION>>\n\n\\section*{<<SKILLS_HEADER>>}\n\\hrule\n\\vspace{4pt}\n<<SKILLS>>\n\n\\section*{<<EXPERIENCE_HEADER>>}\n\\hrule\n\\vspace{4pt}\n<<EXPERIENCE>>\n\n\\section*{<<PROJECTS_HEADER>>}\n\\hrule\n\\vspace{4pt}\n<<PROJECTS>>\n\n\\end{document}\n";

pub open spec fn education_heading(language: ResumeLanguage) -> Seq<char> {
    match language {
        ResumeLanguage::English => "Education"@,
        ResumeLanguage::Portuguese => "Educa\u{e7}\u{e3}o"@,
    }
}

pub open spec fn skills_heading(language: ResumeLanguage) -> Seq<char> {
    match language {
        ResumeLanguage::English => "Technical Skills"@,
        ResumeLanguage::Portuguese => "Habilidades T\u{e9}cnicas"@,
    }
}

pub open spec fn experience_heading(language: ResumeLanguage) -> Seq<char> {
    match language {
        ResumeLanguage::English => "Professional Experience"@,
        ResumeLanguage::Portuguese => "Experi\u{ea}ncia Profissional"@,
    }
}

pub open spec fn projects_heading(language: ResumeLanguage) -> Seq<char> {
    match language {
        ResumeLanguage::English => "Key Projects"@,
        ResumeLanguage::Portuguese => "Projetos e Performance"@,
    }
}

/// A template with the four section headings filled in, in the order
/// education, skills, experience, projects.
pub open spec fn localized(template: Seq<char>, language: ResumeLanguage) -> Seq<char> {
    let a = replaced(template, "<<EDUCATION_HEADER>>"@, education_heading(language));
    let b = replaced(a, "<<SKILLS_HEADER>>"@, skills_heading(language));
    let c = replaced(b, "<<EXPERIENCE_HEADER>>"@, experience_heading(language));
    replaced(c, "<<PROJECTS_HEADER>>"@, projects_heading(language))
}

/// An address as it is shown to the reader: without `https://` or `http://`
/// in front.
pub open spec fn shown_url(url: Seq<char>) -> Seq<char> {
    if "https://"@.is_prefix_of(url) {
        url.skip("https://"@.len() as int)
    } else if "http://"@.is_prefix_of(url) {
        url.skip("http://"@.len() as int)
    } else {
        url
    }
}

/// A contact entry that links `url` under its shown form.
pub open spec fn link_entry(url: Seq<char>) -> Seq<char> {
    "\\ $|$ \\ \\href{"@ + url + "}{"@ + shown_url(url) + "} "@
}

/// The contact line: e-mail, phone, LinkedIn, GitHub and site, each only
/// where it is configured and each behind a separator.
pub open spec fn contact_line(resume: ResumeConfigView) -> Seq<char> {
    let email = match resume.email {
        Some(e) => "\\ $|$ \\ \\href{mailto:"@ + e + "}{"@ + e + "} "@,
        None => Seq::empty(),
    };
    let phone = match resume.phone {
        Some(p) => "\\ $|$ \\ "@ + p,
        None => Seq::empty(),
    };
    let linkedin = match resume.linkedin {
        Some(u) => link_entry(u),
        None => Seq::empty(),
    };
    let github = match resume.github {
        Some(u) => link_entry(u),
        None => Seq::empty(),
    };
    let site = match resume.site {
        Some(u) => link_entry(u),
        None => Seq::empty(),
    };
    email + phone + linkedin + github + site
}

/// The heading line of a block, empty where the item has no title.
pub open spec fn title_line(item: ResumeItemView) -> Seq<char> {
    match item.title {
        None => Seq::empty(),
        Some(title) => {
            let place = match item.location {
                None => Seq::empty(),
                Some(location) => match item.link {
                    Some(link) => " \\hfill \\href{"@ + link + "}{"@ + escaped(location) + "}"@,
                    None => " \\hfill "@ + escaped(location),
                },
            };
            let line_break = if item.description is Some {
                " \\\\"@
            } else {
                Seq::empty()
            };
            "\\noindent \\textbf{"@ + escaped(title) + "}"@ + place + line_break + "\n"@
        },
    }
}

/// The second line of a block, empty where the item has no description.
pub open spec fn description_line(item: ResumeItemView) -> Seq<char> {
    match item.description {
        None => Seq::empty(),
        Some(description) => {
            let date = match item.date {
                Some(d) => " \\hfill "@ + d + " "@,
                None => Seq::empty(),
            };
            "\\textit{"@ + escaped(description) + "}"@ + date + "\n"@
        },
    }
}

/// The bullets of a block, one line each.
pub open spec fn bullet_lines(items: Seq<Seq<char>>) -> Seq<char>
    decreases items.len(),
{
    if items.len() == 0 {
        Seq::empty()
    } else {
        bullet_lines(items.drop_last()) + "    \\item "@ + escaped(items.last()) + "\n"@
    }
}

/// One resume item as LaTeX source.
pub open spec fn item_block(item: ResumeItemView) -> Seq<char> {
    title_line(item) + description_line(item)
        + "\\begin{itemize}[noitemsep,topsep=0pt,leftmargin=*]\n"@ + bullet_lines(item.items)
        + "\\end{itemize}\n"@
}

/// The blocks of a list of items.
pub open spec fn item_blocks(items: Seq<ResumeItemView>) -> Seq<Seq<char>> {
    Seq::new(items.len(), |i: int| item_block(items[i]))
}

/// A section body: the blocks of its items with an empty line between them.
pub open spec fn section_body(items: Seq<ResumeItemView>) -> Seq<char> {
    joined(item_blocks(items), "\n"@)
}

/// The finished document: the template with its headings localized, then
/// name, city, country, contact line and the four section bodies put in
/// place, one after another in that order.
pub open spec fn assembled(
    template: Seq<char>,
    resume: ResumeConfigView,
    language: ResumeLanguage,
) -> Seq<char> {
    let a = replaced(localized(template, language), "<<NAME>>"@, escaped(resume.full_name));
    let b = replaced(a, "<<CITY>>"@, escaped(resume.city));
    let c = replaced(b, "<<COUNTRY>>"@, escaped(resume.country));
    let d = replaced(c, "<<HEADER>>"@, contact_line(resume));
    let e = replaced(d, "<<EDUCATION>>"@, section_body(resume.education));
    let f = replaced(e, "<<SKILLS>>"@, section_body(resume.skills));
    let g = replaced(f, "<<EXPERIENCE>>"@, section_body(resume.experience));
    replaced(g, "<<PROJECTS>>"@, section_body(resume.projects))
}

/// Fills a template for one configuration and one language.
pub struct LatexResumeAssembler {
    language: ResumeLanguage,
    config: Config,
}

impl LatexResumeAssembler {
    pub closed spec fn language(&self) -> ResumeLanguage {
        self.language
    }

    pub closed spec fn resume(&self) -> ResumeConfigView {
        self.config.resume@
    }

    /// An assembler for `config`; where no language is given, English.
    pub fn new(config: Config, language: Option<ResumeLanguage>) -> (r: Self)
        ensures
            r.resume() == config.resume@,
            r.language() == (match language {
                Some(l) => l,
                None => ResumeLanguage::English,
            }),
    {
        let language = match language {
            Some(l) => l,
            None => ResumeLanguage::English,
        };
        LatexResumeAssembler { language, config }
    }

    /// The resume as LaTeX source.
    pub fn assemble(&self) -> (r: String)
        ensures
            r@ == assembled(TEMPLATE@, self.resume(), self.language()),
    {
        Self::render(TEMPLATE, &self.config.resume, self.language)
    }

    /// The resume set into a template of the caller's own.
    pub fn render(template: &str, resume: &ResumeConfig, language: ResumeLanguage) -> (r: String)
        ensures
            r@ == assembled(template@, resume@, language),
    {
        let t = Self::localize(String::from_str(template), &language);
        let t = replace(t.as_str(), "<<NAME>>", Self::escape_latex(&resume.full_name).as_str());
        let t = replace(t.as_str(), "<<CITY>>", Self::escape_latex(&resume.city).as_str());
        let t = replace(t.as_str(), "<<COUNTRY>>", Self::escape_latex(&resume.country).as_str());
        let t = replace(t.as_str(), "<<HEADER>>", Self::contact_header(resume).as_str());
        let t = replace(t.as_str(), "<<EDUCATION>>", Self::items(&resume.education).as_str());
        let t = replace(t.as_str(), "<<SKILLS>>", Self::items(&resume.skills).as_str());
        let t = replace(t.as_str(), "<<EXPERIENCE>>", Self::items(&resume.experience).as_str());
        replace(t.as_str(), "<<PROJECTS>>", Self::items(&resume.projects).as_str())
    }

    /// The contact line of this assembler's configuration.
    pub fn header(&self) -> (r: String)
        ensures
            r@ == contact_line(self.resume()),
    {
        Self::contact_header(&self.config.resume)
    }

    /// The contact line of a configuration.
    pub fn contact_header(resume: &ResumeConfig) -> (r: String)
        ensures
            r@ == contact_line(resume@),
    {
        let mut header = String::new();
        if let Some(email) = &resume.email {
            header.append("\\ $|$ \\ \\href{mailto:");
            header.append(email.as_str());
            header.append("}{");
            header.append(email.as_str());
            header.append("} ");
        }
        if let Some(phone) = &resume.phone {
            header.append("\\ $|$ \\ ");
            header.append(phone.as_str());
        }
        if let Some(linkedin) = &resume.linkedin {
            push_link_entry(&mut header, linkedin.as_str());
        }
        if let Some(github) = &resume.github {
            push_link_entry(&mut header, github.as_str());
        }
        if let Some(site) = &resume.site {
            push_link_entry(&mut header, site.as_str());
        }
        assert(header@ =~= contact_line(resume@));
        header
    }

    /// One resume item as LaTeX source.
    pub fn item(item: &ResumeItem) -> (r: String)
        ensures
            r@ == item_block(item@),
    {
        let mut out = String::new();
        if let Some(title) = &item.title {
            out.append("\\noindent \\textbf{");
            out.append(Self::escape_latex(title.as_str()).as_str());
            out.append("}");
            if let Some(location) = &item.location {
                match &item.link {
                    Some(link) => {
                        out.append(" \\hfill \\href{");
                        out.append(link.as_str());
                        out.append("}{");
                        out.append(Self::escape_latex(location.as_str()).as_str());
                        out.append("}");
                    },
                    None => {
                        out.append(" \\hfill ");
                        out.append(Self::escape_latex(location.as_str()).as_str());
                    },
                }
            }
            if item.description.is_some() {
                out.append(" \\\\");
            }
            out.append("\n");
        }
        assert(out@ =~= title_line(item@));
        let ghost a = out@;
        if let Some(description) = &item.description {
            out.append("\\textit{");
            out.append(Self::escape_latex(description.as_str()).as_str());
            out.append("}");
            if let Some(date) = &item.date {
                out.append(" \\hfill ");
                out.append(date.as_str());
                out.append(" ");
            }
            out.append("\n");
        }
        assert(out@ =~= a + description_line(item@));
        out.append("\\begin{itemize}[noitemsep,topsep=0pt,leftmargin=*]\n");
        let ghost head = out@;
        let mut i: usize = 0;
        assert(texts(item.items@).take(0) =~= Seq::<Seq<char>>::empty());
        assert(head + Seq::<char>::empty() =~= head);
        while i < item.items.len()
            invariant
                i <= item.items.len(),
                out@ == head + bullet_lines(texts(item.items@).take(i as int)),
            decreases item.items.len() - i,
        {
            out.append("    \\item ");
            out.append(Self::escape_latex(item.items[i].as_str()).as_str());
            out.append("\n");
            assert(texts(item.items@).take(i + 1).drop_last() =~= texts(item.items@).take(
                i as int,
            ));
            assert(out@ =~= head + (bullet_lines(texts(item.items@).take(i as int))
                + "    \\item "@ + escaped(item.items@[i as int]@) + "\n"@));
            i += 1;
        }
        assert(texts(item.items@).take(item.items.len() as int) =~= texts(item.items@));
        out.append("\\end{itemize}\n");
        assert(out@ =~= item_block(item@));
        out
    }

    /// A section body.
    pub fn items(items: &Vec<ResumeItem>) -> (r: String)
        ensures
            r@ == section_body(item_views(items@)),
    {
        let mut blocks: Vec<String> = Vec::new();
        let mut i: usize = 0;
        while i < items.len()
            invariant
                i <= items.len(),
                blocks.len() == i,
                forall|k: int| 0 <= k < i ==> blocks@[k]@ == item_block(items@[k]@),
            decreases items.len() - i,
        {
            blocks.push(Self::item(&items[i]));
            i += 1;
        }
        assert(texts(blocks@) =~= item_blocks(item_views(items@)));
        join(&blocks, "\n")
    }

    /// Writes free text as LaTeX source.
    pub fn escape_latex(text: &str) -> (r: String)
        ensures
            r@ == escaped(text@),
    {
        escape_latex(text)
    }

    /// Fills in the section headings of a template.
    pub fn localize(template: String, language: &ResumeLanguage) -> (r: String)
        ensures
            r@ == localized(template@, *language),
    {
        let (education, skills, experience, projects) = match language {
            ResumeLanguage::English => (
                "Education",
                "Technical Skills",
                "Professional Experience",
                "Key Projects",
            ),
            ResumeLanguage::Portuguese => (
                "Educa\u{e7}\u{e3}o",
                "Habilidades T\u{e9}cnicas",
                "Experi\u{ea}ncia Profissional",
                "Projetos e Performance",
            ),
        };
        let t = replace(template.as_str(), "<<EDUCATION_HEADER>>", education);
        let t = replace(t.as_str(), "<<SKILLS_HEADER>>", skills);
        let t = replace(t.as_str(), "<<EXPERIENCE_HEADER>>", experience);
        replace(t.as_str(), "<<PROJECTS_HEADER>>", projects)
    }
}

/// An address without its scheme.
pub fn strip_url(url: &str) -> (r: String)
    ensures
        r@ == shown_url(url@),
{
    let chars = to_chars(url);
    let https = to_chars("https://");
    let http = to_chars("http://");
    if crate::text::matches_at(&chars, &https, 0) {
        assert(chars@.skip(https@.len() as int) =~= chars@.subrange(
            https@.len() as int,
            chars@.len() as int,
        ));
        crate::text::from_range(&chars, https.len(), chars.len())
    } else if crate::text::matches_at(&chars, &http, 0) {
        assert(chars@.skip(http@.len() as int) =~= chars@.subrange(
            http@.len() as int,
            chars@.len() as int,
        ));
        crate::text::from_range(&chars, http.len(), chars.len())
    } else {
        String::from_str(url)
    }
}

fn push_link_entry(out: &mut String, url: &str)
    ensures
        final(out)@ == old(out)@ + link_entry(url@),
{
    out.append("\\ $|$ \\ \\href{");
    out.append(url);
    out.append("}{");
    out.append(strip_url(url).as_str());
    out.append("} ");
    assert(out@ =~= old(out)@ + link_entry(url@));
}

/// The characters that LaTeX reads as commands.
pub open spec fn is_special(c: char) -> bool {
    c == '&' || c == '%' || c == '$' || c == '#' || c == '_' || c == '{' || c == '}' || c == '^'
        || c == '~' || c == '\\'
}

/// No span of the text is read as markup: a marker, where there is one, is
/// never closed.
pub open spec fn markup_free(s: Seq<char>) -> bool
    decreases s.len(),
{
    if s.len() == 0 {
        true
    } else if s.len() >= 2 && s[0] == '*' && s[1] == '*' {
        let rest = s.skip(2);
        let j = first_occurrence(rest, bold_marker());
        !(0 <= j && j + 2 <= rest.len()) && markup_free(rest)
    } else if s[0] == '`' {
        let rest = s.skip(1);
        let j = index_of(rest, '`');
        !(0 <= j < rest.len()) && markup_free(rest)
    } else {
        markup_free(s.skip(1))
    }
}

/// Text without markup and without a character that LaTeX reads as a
/// command is written as it stands. So writing it twice is writing it once.
pub proof fn lemma_plain_text_is_unchanged(s: Seq<char>)
    requires
        markup_free(s),
        forall|i: int| 0 <= i < s.len() ==> !is_special(#[trigger] s[i]),
    ensures
        escaped(s) == s,
        escaped(escaped(s)) == escaped(s),
    decreases s.len(),
{
    reveal_strlit("**");
    reveal_strlit("`");
    if s.len() == 0 {
    } else if s.len() >= 2 && s[0] == '*' && s[1] == '*' {
        let rest = s.skip(2);
        assert forall|i: int| 0 <= i < rest.len() implies !is_special(#[trigger] rest[i]) by {
            assert(rest[i] == s[i + 2]);
        }
        lemma_plain_text_is_unchanged(rest);
        assert("**"@ + rest =~= s);
    } else if s[0] == '`' {
        let rest = s.skip(1);
        assert forall|i: int| 0 <= i < rest.len() implies !is_special(#[trigger] rest[i]) by {
            assert(rest[i] == s[i + 1]);
        }
        lemma_plain_text_is_unchanged(rest);
        assert("`"@ + rest =~= s);
    } else {
        let rest = s.skip(1);
        assert forall|i: int| 0 <= i < rest.len() implies !is_special(#[trigger] rest[i]) by {
            assert(rest[i] == s[i + 1]);
        }
        lemma_plain_text_is_unchanged(rest);
        assert(!is_special(s[0]));
        assert(seq![s[0]] + rest =~= s);
    }
}

/// Where a text first occurs is where it occurs with no occurrence before.
pub proof fn lemma_first_occurrence_at(hay: Seq<char>, needle: Seq<char>, n: int)
    requires
        occurs_at(hay, needle, n),
        forall|i: int| 0 <= i < n ==> !occurs_at(hay, needle, i),
    ensures
        first_occurrence(hay, needle) == n,
    decreases n,
{
    if n > 0 {
        let rest = hay.skip(1);
        assert(rest.subrange(n - 1, n - 1 + needle.len()) =~= hay.subrange(n, n + needle.len()));
        assert forall|i: int| 0 <= i < n - 1 implies !occurs_at(rest, needle, i) by {
            if i + needle.len() <= rest.len() {
                assert(rest.subrange(i, i + needle.len()) =~= hay.subrange(
                    i + 1,
                    i + 1 + needle.len(),
                ));
            }
            assert(!occurs_at(hay, needle, i + 1));
        }
        lemma_first_occurrence_at(rest, needle, n - 1);
    }
}

/// A character that a text does not hold is first found at the text's end.
pub proof fn lemma_index_of_absent(s: Seq<char>, c: char)
    requires
        forall|i: int| 0 <= i < s.len() ==> #[trigger] s[i] != c,
    ensures
        index_of(s, c) == s.len(),
    decreases s.len(),
{
    if s.len() > 0 {
        assert forall|i: int| 0 <= i < s.skip(1).len() implies #[trigger] s.skip(1)[i] != c by {
            assert(s.skip(1)[i] == s[i + 1]);
        }
        lemma_index_of_absent(s.skip(1), c);
    }
}

/// A span between two `**` is written as a bold group around the span's own
/// LaTeX source. The span must not itself hold two asterisks in a row, nor
/// end in one: the group would close there.
pub proof fn lemma_bold_span(x: Seq<char>)
    requires
        forall|i: int| 0 <= i && i + 1 < x.len() ==> !(#[trigger] x[i] == '*' && x[i + 1] == '*'),
        x.len() > 0 ==> x.last() != '*',
    ensures
        escaped(bold_marker() + x + bold_marker()) == "\\textbf{"@ + escaped(x) + "}"@,
{
    let s = bold_marker() + x + bold_marker();
    let rest = s.skip(2);
    assert(rest =~= x + bold_marker());
    let n = x.len() as int;
    assert(rest.subrange(n, n + 2) =~= bold_marker());
    assert forall|i: int| 0 <= i < n implies !occurs_at(rest, bold_marker(), i) by {
        if occurs_at(rest, bold_marker(), i) {
            assert(rest.subrange(i, i + 2)[0] == '*');
            assert(rest.subrange(i, i + 2)[1] == '*');
            assert(rest[i] == x[i]);
            if i + 1 < n {
                assert(rest[i + 1] == x[i + 1]);
            } else {
                assert(x.last() == x[i]);
            }
        }
    }
    lemma_first_occurrence_at(rest, bold_marker(), n);
    assert(rest.take(n) =~= x);
    assert(rest.skip(n + 2) =~= Seq::<char>::empty());
    assert(escaped(Seq::<char>::empty()) =~= Seq::<char>::empty());
    assert("\\textbf{"@ + escaped(x) + "}"@ + Seq::<char>::empty() =~= "\\textbf{"@ + escaped(x)
        + "}"@);
}

/// A span between two backticks is written as a monospace group around the
/// span's own LaTeX source.
pub proof fn lemma_code_span(x: Seq<char>)
    requires
        forall|i: int| 0 <= i < x.len() ==> #[trigger] x[i] != '`',
    ensures
        escaped(seq!['`'] + x + seq!['`']) == "\\texttt{"@ + escaped(x) + "}"@,
{
    let s = seq!['`'] + x + seq!['`'];
    let rest = s.skip(1);
    assert(rest =~= x + seq!['`']);
    lemma_index_of_concat(x, seq!['`'], '`');
    assert(index_of(seq!['`'], '`') == 0);
    let n = x.len() as int;
    assert(rest.take(n) =~= x);
    assert(rest.skip(n + 1) =~= Seq::<char>::empty());
    assert(escaped(Seq::<char>::empty()) =~= Seq::<char>::empty());
    assert("\\texttt{"@ + escaped(x) + "}"@ + Seq::<char>::empty() =~= "\\texttt{"@ + escaped(x)
        + "}"@);
}

/// A character that the front of a text does not hold is found where the
/// rest holds it.
pub proof fn lemma_index_of_concat(a: Seq<char>, b: Seq<char>, c: char)
    requires
        forall|i: int| 0 <= i < a.len() ==> #[trigger] a[i] != c,
    ensures
        index_of(a + b, c) == a.len() + index_of(b, c),
    decreases a.len(),
{
    if a.len() == 0 {
        assert(a + b =~= b);
    } else {
        assert((a + b).skip(1) =~= a.skip(1) + b);
        assert((a + b)[0] == a[0]);
        assert forall|i: int| 0 <= i < a.skip(1).len() implies #[trigger] a.skip(1)[i] != c by {
            assert(a.skip(1)[i] == a[i + 1]);
        }
        lemma_index_of_concat(a.skip(1), b, c);
    }
}

/// A backtick that is never closed stays a backtick, and what follows is
/// written as if it stood alone.
pub proof fn lemma_unterminated_code(x: Seq<char>)
    requires
        forall|i: int| 0 <= i < x.len() ==> #[trigger] x[i] != '`',
    ensures
        escaped(seq!['`'] + x) == seq!['`'] + escaped(x),
{
    reveal_strlit("`");
    let s = seq!['`'] + x;
    assert(s.skip(1) =~= x);
    lemma_index_of_absent(x, '`');
    assert("`"@ =~= seq!['`']);
}

} // verus!
