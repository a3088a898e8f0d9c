use auto_resume::cli::{language_tag, parse_language, Args, Verbosity};
use auto_resume::job::{find_capture, job_source, JobDescription, JobScraper, JobSource};
use auto_resume::latex::ResumeLanguage;

#[test]
fn page_text_resolves_references_and_drops_empty_lines() {
    let html = "  <p>Tom &amp; Jerry</p>  \r\n\n   \n&lt;b&gt; &quot;x&quot; &#39;y&#39;\n";
    assert_eq!(
        JobScraper::extract_text_from_html(html),
        "<p>Tom & Jerry</p>\n<b> \"x\" 'y'"
    );
    assert_eq!(JobScraper::extract_text_from_html(""), "");
    assert_eq!(JobScraper::extract_text_from_html("\n\n"), "");
    assert_eq!(JobScraper::extract_text_from_html("one"), "one");
    assert_eq!(JobScraper::extract_text_from_html("a<[^>]+>b"), "ab");
    assert_eq!(JobScraper::extract_text_from_html("&amp;lt;"), "&lt;");
    assert_eq!(JobScraper::extract_text_from_html("&amp;quot;"), "\"");
}

#[test]
fn page_text_agrees_with_lines() {
    for html in ["a\r\nb\rc\n\r\nd\r", "x\n", "\r", " a \r\n b ", "a\n\nb"] {
        let expected = html
            .lines()
            .map(|l| l.trim().to_string())
            .filter(|l| !l.is_empty())
            .collect::<Vec<_>>()
            .join("\n");
        assert_eq!(JobScraper::extract_text_from_html(html), expected, "{:?}", html);
    }
}

#[test]
fn title_comes_from_the_first_pattern_that_matches() {
    let html = "<title>Page</title><meta property=\"og:title\" content=\"Shared\"><h1 class=\"x\">Heading</h1>";
    assert_eq!(JobScraper::extract_job_title(html), Some("Heading".to_string()));
    let html = "<title>Page</title><meta property=\"og:title\" content=\"Shared\">";
    assert_eq!(JobScraper::extract_job_title(html), Some("Shared".to_string()));
    assert_eq!(JobScraper::extract_job_title("<title>Page</title>"), Some("Page".to_string()));
    assert_eq!(JobScraper::extract_job_title("<h1></h1>"), None);
    assert_eq!(JobScraper::extract_job_title("nothing"), None);
}

#[test]
fn company_comes_from_meta_or_tag() {
    let html = "<span class=\"company\">Acme</span><meta property=\"og:site_name\" content=\"Acme Inc\">";
    assert_eq!(JobScraper::extract_company_name(html), Some("Acme Inc".to_string()));
    assert_eq!(
        JobScraper::extract_company_name("<span class=\"company\">Acme</span>"),
        Some("Acme".to_string())
    );
    assert_eq!(JobScraper::extract_company_name("<p>none</p>"), None);
}

#[test]
fn requirements_need_a_hundred_characters() {
    let long = "x".repeat(100);
    let html = format!("<h2>Requirements: {}</h2>", long);
    assert_eq!(JobScraper::extract_requirements(&html), Some(long.clone()));
    let html = format!("<h2>QUALIFICATIONS{}</h2>", long);
    assert_eq!(JobScraper::extract_requirements(&html), Some(long));
    let html = format!("<h2>Requirements: {}</h2>", "x".repeat(99));
    assert_eq!(JobScraper::extract_requirements(&html), Some(format!(" {}", "x".repeat(99))));
    let html = format!("<h2>Requirements: {}</h2>", "x".repeat(97));
    assert_eq!(JobScraper::extract_requirements(&html), None);
}

#[test]
fn find_capture_picks_the_group() {
    assert_eq!(find_capture("(a+)(b+)", "xaabbb", 0), Some("aabbb".to_string()));
    assert_eq!(find_capture("(a+)(b+)", "xaabbb", 1), Some("aa".to_string()));
    assert_eq!(find_capture("(a+)(b+)", "xaabbb", 2), Some("bbb".to_string()));
    assert_eq!(find_capture("(a+)(b+)", "xaabbb", 3), None);
    assert_eq!(find_capture("(a)|(b)", "b", 1), None);
    assert_eq!(find_capture("(a+)", "bbb", 1), None);
    assert_eq!(find_capture("(a", "a", 1), None);
    assert_eq!(find_capture("a", "a", 0), Some("a".to_string()));
}

#[test]
fn parse_html_fills_the_gaps() {
    let job = JobScraper::parse_html("<p>We build things.</p>");
    assert_eq!(
        job,
        JobDescription {
            title: "Unknown Position".to_string(),
            company: None,
            description: "<p>We build things.</p>".to_string(),
            requirements: "<p>We build things.</p>".to_string(),
        }
    );
    let long = "y".repeat(120);
    let html = format!("<h1>Engineer</h1>\n<div class=\"company\">Acme</div>\nSkills: {}", long);
    let job = JobScraper::parse_html(&html);
    assert_eq!(job.title, "Engineer");
    assert_eq!(job.company, Some("Acme".to_string()));
    assert_eq!(job.requirements, long);
    assert_eq!(job.description, html);
    assert_eq!(job.clone(), job);
}

#[test]
fn posting_from_text_and_generic_posting() {
    let job = JobScraper::from_text("Do things".to_string());
    assert_eq!(job.title, "Job Description");
    assert_eq!(job.company, None);
    assert_eq!(job.description, "Do things");
    assert_eq!(job.requirements, "Do things");
    let generic = JobScraper::generic();
    assert_eq!(generic.title, "Software Engineer");
    assert_eq!(generic.company, Some("Your Target Company".to_string()));
    assert_eq!(generic.description, "Software engineer position focused on building scalable systems and solving complex technical challenges.");
    assert_eq!(generic.requirements, "Experience with modern software development practices, strong problem-solving skills, and collaborative mindset.");
}

#[test]
fn url_goes_before_file() {
    let url = Some("https://jobs/1".to_string());
    let file = Some("job.txt".to_string());
    assert_eq!(job_source(&url, &file), JobSource::Url("https://jobs/1".to_string()));
    assert_eq!(job_source(&url, &None), JobSource::Url("https://jobs/1".to_string()));
    assert_eq!(job_source(&None, &file), JobSource::File("job.txt".to_string()));
    assert_eq!(job_source(&None, &None), JobSource::Generic);
}

#[test]
fn language_argument() {
    for tag in ["pt", "PT", "portuguese", "Portuguese"] {
        assert_eq!(parse_language(tag), ResumeLanguage::Portuguese, "{}", tag);
    }
    for tag in ["en", "english", "pt-br", "", "de"] {
        assert_eq!(parse_language(tag), ResumeLanguage::English, "{}", tag);
    }
    assert_eq!(language_tag(ResumeLanguage::English), "en");
    assert_eq!(language_tag(ResumeLanguage::Portuguese), "pt");
}

#[test]
fn default_arguments() {
    let args = Args::defaults();
    assert_eq!(args.config, "config.toml");
    assert_eq!(args.output, "resume.pdf");
    assert_eq!(args.language, "pt");
    assert_eq!(args.verbosity, Verbosity::Info);
    assert_eq!(args.resume_language(), ResumeLanguage::Portuguese);
    assert_eq!(args.job_source(), JobSource::Generic);
    let args = Args { job_file: Some("j.txt".to_string()), language: "EN".to_string(), ..args };
    assert_eq!(args.resume_language(), ResumeLanguage::English);
    assert_eq!(args.job_source(), JobSource::File("j.txt".to_string()));
}
