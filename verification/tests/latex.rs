use auto_resume::config::{ConfigInner, GithubConfig, LLMConfig, ResumeConfig, ResumeItem};
use auto_resume::latex::{escape_latex, strip_url, LatexResumeAssembler, ResumeLanguage, TEMPLATE};
use std::sync::Arc;

fn item(title: Option<&str>, description: Option<&str>) -> ResumeItem {
    ResumeItem {
        title: title.map(|s| s.to_string()),
        date: None,
        location: None,
        description: description.map(|s| s.to_string()),
        link: None,
        items: Vec::new(),
    }
}

fn resume() -> ResumeConfig {
    ResumeConfig {
        full_name: "Ana & Co".to_string(),
        country: "Brasil".to_string(),
        city: "S\u{e3}o Paulo".to_string(),
        email: None,
        phone: None,
        linkedin: None,
        github: None,
        site: None,
        education: Vec::new(),
        skills: Vec::new(),
        experience: Vec::new(),
        projects: Vec::new(),
        education_context: None,
        experience_context: None,
        skills_context: None,
    }
}

fn config(resume: ResumeConfig) -> Arc<ConfigInner> {
    Arc::new(ConfigInner {
        resume,
        github: GithubConfig { token: None, username: "ana".to_string() },
        llm: LLMConfig {
            api_key: None,
            model: "m".to_string(),
            endpoint: "e".to_string(),
            max_retries: 3,
        },
    })
}

#[test]
fn escape_bold_span() {
    assert_eq!(LatexResumeAssembler::escape_latex("**x**"), "\\textbf{x}");
    assert_eq!(escape_latex("a **b_c** d"), "a \\textbf{b\\_c} d");
    assert_eq!(escape_latex("**a****b**"), "\\textbf{a}\\textbf{b}");
}

#[test]
fn escape_unterminated_code() {
    assert_eq!(LatexResumeAssembler::escape_latex("`code"), "`code");
    assert_eq!(escape_latex("`a_b"), "`a\\_b");
    assert_eq!(escape_latex("x `"), "x `");
}

#[test]
fn escape_unterminated_bold() {
    assert_eq!(escape_latex("**bold"), "**bold");
    assert_eq!(escape_latex("**a&b"), "**a\\&b");
    assert_eq!(escape_latex("***"), "***");
    assert_eq!(escape_latex("**"), "**");
    assert_eq!(escape_latex("*"), "*");
    assert_eq!(escape_latex("a*b"), "a*b");
}

#[test]
fn escape_code_span() {
    assert_eq!(escape_latex("`x`"), "\\texttt{x}");
    assert_eq!(escape_latex("run `a_b` now"), "run \\texttt{a\\_b} now");
    assert_eq!(escape_latex("``"), "\\texttt{}");
}

#[test]
fn escape_nested_spans() {
    assert_eq!(escape_latex("**a `b` c**"), "\\textbf{a \\texttt{b} c}");
    assert_eq!(escape_latex("`a **b** c`"), "\\texttt{a \\textbf{b} c}");
    assert_eq!(escape_latex("**a***"), "\\textbf{a}*");
    assert_eq!(escape_latex("**a`b**c`"), "\\textbf{a`b}c`");
}

#[test]
fn escape_special_characters() {
    assert_eq!(
        escape_latex("& % $ # _ { } ^ ~ \\"),
        "\\& \\% \\$ \\# \\_ \\{ \\} \\textasciicircum{} \\textasciitilde{} \\textbackslash{}"
    );
    assert_eq!(escape_latex(""), "");
    assert_eq!(escape_latex("R&D at 100%"), "R\\&D at 100\\%");
}

#[test]
fn escape_leaves_plain_text_alone() {
    for s in ["plain text, nothing else.", "caf\u{e9} *one* star", "**open", "`open", "a<b>c"] {
        let once = escape_latex(s);
        assert_eq!(once, s);
        assert_eq!(escape_latex(&once), once);
    }
}

#[test]
fn escape_is_not_idempotent_on_special_characters() {
    let once = escape_latex("a&b");
    assert_eq!(once, "a\\&b");
    assert_eq!(escape_latex(&once), "a\\textbackslash{}\\&b");
}

#[test]
fn strip_url_drops_the_scheme() {
    assert_eq!(strip_url("https://github.com/ana"), "github.com/ana");
    assert_eq!(strip_url("http://ana.dev"), "ana.dev");
    assert_eq!(strip_url("ana.dev"), "ana.dev");
    assert_eq!(strip_url("ftp://ana.dev"), "ftp://ana.dev");
    assert_eq!(strip_url("https://"), "");
    assert_eq!(strip_url(""), "");
}

#[test]
fn header_lists_what_is_configured() {
    assert_eq!(LatexResumeAssembler::contact_header(&resume()), "");
    let mut r = resume();
    r.email = Some("a@b.c".to_string());
    r.phone = Some("+55 11".to_string());
    r.linkedin = Some("https://linkedin.com/in/ana".to_string());
    r.github = Some("https://github.com/ana".to_string());
    r.site = Some("ana.dev".to_string());
    let expected = "\\ $|$ \\ \\href{mailto:a@b.c}{a@b.c} \\ $|$ \\ +55 11\\ $|$ \\ \\href{https://linkedin.com/in/ana}{linkedin.com/in/ana} \\ $|$ \\ \\href{https://github.com/ana}{github.com/ana} \\ $|$ \\ \\href{ana.dev}{ana.dev} ";
    assert_eq!(LatexResumeAssembler::contact_header(&r), expected);
    let assembler = LatexResumeAssembler::new(config(r), None);
    assert_eq!(assembler.header(), expected);
}

#[test]
fn header_with_phone_only() {
    let mut r = resume();
    r.phone = Some("123".to_string());
    assert_eq!(LatexResumeAssembler::contact_header(&r), "\\ $|$ \\ 123");
}

#[test]
fn item_with_everything() {
    let it = ResumeItem {
        title: Some("Acme & Sons".to_string()),
        date: Some("2020 -- 2024".to_string()),
        location: Some("Lisbon".to_string()),
        description: Some("Engineer".to_string()),
        link: Some("https://acme.example".to_string()),
        items: vec!["Built **x**".to_string(), "Cut costs 10%".to_string()],
    };
    assert_eq!(
        LatexResumeAssembler::item(&it),
        "\\noindent \\textbf{Acme \\& Sons} \\hfill \\href{https://acme.example}{Lisbon} \\\\\n\\textit{Engineer} \\hfill 2020 -- 2024 \n\\begin{itemize}[noitemsep,topsep=0pt,leftmargin=*]\n    \\item Built \\textbf{x}\n    \\item Cut costs 10\\%\n\\end{itemize}\n"
    );
}

#[test]
fn item_without_link_or_description() {
    let it = ResumeItem {
        title: Some("T".to_string()),
        date: Some("2020".to_string()),
        location: Some("L_1".to_string()),
        description: None,
        link: None,
        items: Vec::new(),
    };
    assert_eq!(
        LatexResumeAssembler::item(&it),
        "\\noindent \\textbf{T} \\hfill L\\_1\n\\begin{itemize}[noitemsep,topsep=0pt,leftmargin=*]\n\\end{itemize}\n"
    );
}

#[test]
fn item_with_bullets_only() {
    let it = ResumeItem {
        title: None,
        date: Some("ignored".to_string()),
        location: Some("ignored".to_string()),
        description: None,
        link: None,
        items: vec!["one".to_string()],
    };
    assert_eq!(
        LatexResumeAssembler::item(&it),
        "\\begin{itemize}[noitemsep,topsep=0pt,leftmargin=*]\n    \\item one\n\\end{itemize}\n"
    );
}

#[test]
fn item_with_description_only() {
    assert_eq!(
        LatexResumeAssembler::item(&item(None, Some("d"))),
        "\\textit{d}\n\\begin{itemize}[noitemsep,topsep=0pt,leftmargin=*]\n\\end{itemize}\n"
    );
}

#[test]
fn items_are_separated_by_an_empty_line() {
    let block = "\\begin{itemize}[noitemsep,topsep=0pt,leftmargin=*]\n\\end{itemize}\n";
    assert_eq!(LatexResumeAssembler::items(&Vec::new()), "");
    assert_eq!(LatexResumeAssembler::items(&vec![item(None, None)]), block);
    assert_eq!(
        LatexResumeAssembler::items(&vec![item(None, None), item(None, None)]),
        format!("{}\n{}", block, block)
    );
}

#[test]
fn localize_fills_the_headings() {
    let t = "<<EDUCATION_HEADER>>|<<SKILLS_HEADER>>|<<EXPERIENCE_HEADER>>|<<PROJECTS_HEADER>>";
    assert_eq!(
        LatexResumeAssembler::localize(t.to_string(), &ResumeLanguage::English),
        "Education|Technical Skills|Professional Experience|Key Projects"
    );
    assert_eq!(
        LatexResumeAssembler::localize(t.to_string(), &ResumeLanguage::Portuguese),
        "Educa\u{e7}\u{e3}o|Habilidades T\u{e9}cnicas|Experi\u{ea}ncia Profissional|Projetos e Performance"
    );
}

#[test]
fn language_from_tag() {
    for tag in ["pt", "PT", "pt-br", "Pt-BR", "portuguese", "PORTUGUESE"] {
        assert_eq!(ResumeLanguage::from(tag), ResumeLanguage::Portuguese, "{}", tag);
    }
    for tag in ["en", "EN", "en-us", "english", "", "fr", "pt_br", " pt"] {
        assert_eq!(ResumeLanguage::from(tag), ResumeLanguage::English, "{}", tag);
    }
    assert_eq!(ResumeLanguage::default(), ResumeLanguage::English);
}

#[test]
fn render_fills_a_template() {
    let mut r = resume();
    r.phone = Some("1".to_string());
    r.skills = vec![item(None, None)];
    let out = LatexResumeAssembler::render(
        "<<NAME>>;<<CITY>>;<<COUNTRY>>;<<HEADER>>;<<SKILLS_HEADER>>;<<SKILLS>>;<<EDUCATION>>;<<NAME>>",
        &r,
        ResumeLanguage::English,
    );
    assert_eq!(
        out,
        "Ana \\& Co;S\u{e3}o Paulo;Brasil;\\ $|$ \\ 1;Technical Skills;\\begin{itemize}[noitemsep,topsep=0pt,leftmargin=*]\n\\end{itemize}\n;;Ana \\& Co"
    );
}

#[test]
fn render_replaces_in_order() {
    let mut r = resume();
    r.full_name = "<<CITY>>".to_string();
    r.city = "X".to_string();
    let out = LatexResumeAssembler::render("<<NAME>>", &r, ResumeLanguage::English);
    assert_eq!(out, "X");
}

#[test]
fn assemble_leaves_no_placeholder() {
    let mut r = resume();
    r.email = Some("a@b.c".to_string());
    r.education = vec![item(Some("UFSC"), Some("BSc"))];
    let assembler = LatexResumeAssembler::new(config(r), Some(ResumeLanguage::Portuguese));
    let out = assembler.assemble();
    assert!(!out.contains("<<"));
    assert!(out.contains("\\textbf{Ana \\& Co}"));
    assert!(out.contains("\\section*{Educa\u{e7}\u{e3}o}"));
    assert!(out.contains("\\noindent \\textbf{UFSC} \\\\\n\\textit{BSc}\n"));
    assert!(out.contains("\\href{mailto:a@b.c}{a@b.c}"));
    assert!(out.starts_with("\\documentclass"));
    assert!(out.ends_with("\\end{document}\n"));
}

#[test]
fn assemble_defaults_to_english() {
    let out = LatexResumeAssembler::new(config(resume()), None).assemble();
    assert!(out.contains("\\section*{Key Projects}"));
    assert_eq!(
        out,
        LatexResumeAssembler::render(TEMPLATE, &resume(), ResumeLanguage::English)
    );
}

#[test]
fn template_names_every_placeholder_once() {
    for p in [
        "<<NAME>>", "<<CITY>>", "<<COUNTRY>>", "<<HEADER>>", "<<EDUCATION>>", "<<SKILLS>>",
        "<<EXPERIENCE>>", "<<PROJECTS>>", "<<EDUCATION_HEADER>>", "<<SKILLS_HEADER>>",
        "<<EXPERIENCE_HEADER>>", "<<PROJECTS_HEADER>>",
    ] {
        assert_eq!(TEMPLATE.matches(p).count(), 1, "{}", p);
    }
}

#[test]
fn language_from_lowered_tag() {
    assert_eq!(ResumeLanguage::from_lowercase("pt-br"), ResumeLanguage::Portuguese);
    assert_eq!(ResumeLanguage::from_lowercase("PT"), ResumeLanguage::English);
    assert_eq!(auto_resume::cli::language_from_lowercase("pt"), ResumeLanguage::Portuguese);
    assert_eq!(auto_resume::cli::language_from_lowercase("pt-br"), ResumeLanguage::English);
}
