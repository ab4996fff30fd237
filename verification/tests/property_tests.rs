use resume_core::date::Date;
use resume_core::formatter::{FormattingOptions, OutputFormat, ResumeFormatter};
use resume_core::model::{Profile, Resume, Skill};
use resume_core::optimizer::ResumeOptimizer;

fn small_resume() -> Resume {
    let mut resume = Resume::new(Profile {
        name: "Ada Example".to_string(),
        email: "ada@example.com".to_string(),
        summary: "Builder of **fast** systems, see [site](https://ada.example.com) for more."
            .to_string(),
        ..Profile::default()
    });
    resume.skills.technical.push(Skill {
        name: "Rust".to_string(),
        level: None,
        years: None,
    });
    resume
}

#[test]
fn plaintext_never_contains_markup_characters() {
    let formatter = ResumeFormatter::new();
    let resume = small_resume();
    let result = formatter.format(&resume, OutputFormat::PlainText).unwrap();
    assert!(!result.content.contains('#'));
    assert!(!result.content.contains('*'));
    assert!(!result.content.contains('_'));
    // The link syntax of the summary is rewritten to "text (url)".
    assert!(result.content.contains("site (https://ada.example.com)"));
}

#[test]
fn score_is_always_within_bounds() {
    let optimizer = ResumeOptimizer::new();
    let resume = small_resume();
    for jd in [
        "",
        "Rust Rust Rust Rust developer wanted",
        "Looking for python, react, kubernetes, docker, aws, sql experts",
        "Nothing relevant here at all",
    ] {
        let result = optimizer.optimize(&resume, jd);
        assert!(result.score <= 100);
    }
}

#[test]
fn importance_one_keyword_is_never_missing() {
    let optimizer = ResumeOptimizer::new();
    let resume = small_resume();
    // "zyzzyva" appears once and is no industry keyword: importance 1.
    let result = optimizer.optimize(&resume, "A zyzzyva specialist using python and python");
    assert!(!result.missing_keywords.contains(&"zyzzyva".to_string()));
    // "python" appears twice (importance above one) and the résumé lacks it.
    assert!(result.missing_keywords.contains(&"python".to_string()));
}

#[test]
fn date_range_formatting_cases() {
    let formatter = ResumeFormatter::new();
    let start = Some(Date::from_ymd_opt(2020, 1, 15).unwrap());
    let end = Some(Date::from_ymd_opt(2021, 12, 31).unwrap());
    assert_eq!(
        formatter.format_date_range(start, end, false),
        "January 2020 - December 2021"
    );
    let s2019 = Some(Date::from_ymd_opt(2019, 3, 1).unwrap());
    assert_eq!(
        formatter.format_date_range(s2019, None, true),
        "March 2019 - Present"
    );
    assert_eq!(formatter.format_date_range(None, None, false), "");
    assert_eq!(
        formatter.format_date_range(start, None, false),
        "From January 2020"
    );
    assert_eq!(
        formatter.format_date_range(None, end, false),
        "Until December 2021"
    );
}

#[test]
fn unknown_template_is_refused_by_name() {
    let mut options = FormattingOptions::default();
    options.template = "sleek".to_string();
    let formatter = ResumeFormatter::with_options(options);
    let resume = small_resume();
    let result = formatter.format(&resume, OutputFormat::Markdown);
    assert_eq!(result.unwrap_err(), "Template 'sleek' not found");
}

#[test]
fn registered_template_is_accepted() {
    let mut options = FormattingOptions::default();
    options.template = "sleek".to_string();
    let mut formatter = ResumeFormatter::with_options(options);
    formatter.add_template("sleek".to_string(), "".to_string());
    let resume = small_resume();
    assert!(formatter.format(&resume, OutputFormat::Markdown).is_ok());
}

#[test]
fn unknown_industry_is_refused_by_name() {
    let mut optimizer = ResumeOptimizer::new();
    let result = optimizer.load_keywords_for_industry("cooking");
    assert_eq!(
        result.unwrap_err(),
        "No keywords found for industry: cooking"
    );
}

#[test]
fn json_is_left_to_the_caller_serializer() {
    let formatter = ResumeFormatter::new();
    let resume = small_resume();
    let result = formatter.format(&resume, OutputFormat::JSON);
    assert!(result.is_err());
}

#[test]
fn extensions_match_the_formats() {
    assert_eq!(OutputFormat::Markdown.extension(), "md");
    assert_eq!(OutputFormat::PlainText.extension(), "txt");
    assert_eq!(OutputFormat::JSON.extension(), "json");
    assert_eq!(OutputFormat::HTML.extension(), "html");
    assert_eq!(OutputFormat::PDF.extension(), "pdf");
}

#[test]
fn gpa_renders_with_two_decimals() {
    let formatter = ResumeFormatter::new();
    let mut resume = small_resume();
    resume.education.push(resume_core::model::Education {
        institution: "Uni".to_string(),
        degree: "BS".to_string(),
        field_of_study: "CS".to_string(),
        location: None,
        start_date: None,
        end_date: None,
        current: false,
        gpa: Some(390),
        courses: vec![],
        achievements: vec![],
        description: "".to_string(),
    });
    let result = formatter.format(&resume, OutputFormat::Markdown).unwrap();
    assert!(result.content.contains("**GPA:** 3.90"));
}

#[test]
fn html_converts_headings_and_list_items() {
    let formatter = ResumeFormatter::new();
    let mut resume = small_resume();
    resume.profile.phone = "555-0000".to_string();
    let result = formatter.format(&resume, OutputFormat::HTML).unwrap();
    assert!(result.content.contains("<h2>Contact Information"));
    assert!(result.content.contains("<ul><li>Email: ada@example.com</li></ul>"));
    assert!(result.content.contains("<title>Ada Example's Resume</title>"));
}

#[test]
fn unbalanced_bold_markers_warn_but_still_render() {
    let formatter = ResumeFormatter::new();
    let mut resume = small_resume();
    // One stray double marker on top of the renderer's balanced ones.
    resume.profile.summary = "An ** unbalanced summary".to_string();
    let result = formatter.format(&resume, OutputFormat::HTML).unwrap();
    assert!(result
        .warnings
        .iter()
        .any(|w| w == "Mismatched bold markers in content"));
    assert!(!result.content.is_empty());
}

#[test]
fn score_is_the_floor_share_of_important_keywords() {
    let optimizer = ResumeOptimizer::new();
    let mut resume = Resume::new(Profile {
        name: "Ada Example".to_string(),
        email: "ada@example.com".to_string(),
        ..Profile::default()
    });
    resume.skills.technical.push(Skill {
        name: "Python".to_string(),
        level: None,
        years: None,
    });
    // Two important keywords (each boosted industry terms), one matched.
    let result = optimizer.optimize(&resume, "python and react");
    assert_eq!(result.score, 50);
    // Three important keywords, one matched: floor(1/3 * 100) = 33.
    let result = optimizer.optimize(&resume, "python, react and docker");
    assert_eq!(result.score, 33);
}

#[test]
fn unbalanced_italic_markers_warn_but_still_render() {
    let formatter = ResumeFormatter::new();
    let mut resume = small_resume();
    resume.profile.summary = "A _stray italic marker".to_string();
    let result = formatter.format(&resume, OutputFormat::HTML).unwrap();
    assert!(result
        .warnings
        .iter()
        .any(|w| w == "Mismatched italic markers in content"));
    assert!(!result.content.is_empty());
}

#[test]
fn summary_of_twenty_words_is_not_asked_to_expand() {
    let optimizer = ResumeOptimizer::new();
    let mut resume = small_resume();
    let twenty = vec!["word"; 20].join(" ");
    resume.profile.summary = twenty;
    let result = optimizer.optimize(&resume, "anything");
    assert!(!result.suggestions.iter().any(|s| s.contains("Expand")));
    let nineteen = vec!["word"; 19].join(" ");
    resume.profile.summary = nineteen;
    let result = optimizer.optimize(&resume, "anything");
    assert!(result.suggestions.iter().any(|s| s.contains("Expand")));
}

#[test]
fn switched_off_sections_vanish_with_their_headings() {
    let mut options = FormattingOptions::default();
    options
        .section_options
        .insert("experiences".to_string(), false);
    let formatter = ResumeFormatter::with_options(options);
    let mut resume = small_resume();
    resume.experiences.push(resume_core::model::Experience {
        company: "Somewhere".to_string(),
        title: "Engineer".to_string(),
        location: None,
        start_date: None,
        end_date: None,
        current: true,
        description: "Daily engineering".to_string(),
        achievements: vec![],
        technologies: vec![],
    });
    let result = formatter.format(&resume, OutputFormat::Markdown).unwrap();
    assert!(!result.content.contains("## Work Experience"));
    assert!(!result.content.contains("Somewhere"));
    assert!(result.content.contains("## Skills"));
}

#[test]
fn tokenizer_keeps_compound_words_together() {
    let profile = Profile {
        name: "Ada Example".to_string(),
        email: "ada@example.com".to_string(),
        summary: "Practices test-driven development daily".to_string(),
        ..Profile::default()
    };
    let resume = Resume::new(profile);
    let keywords = resume.count_keywords();
    assert!(keywords.contains_key("test-driven"));
    assert!(!keywords.contains_key("test"));
    assert!(!keywords.contains_key("driven"));
}

#[test]
fn keyword_counts_accumulate_per_keyword() {
    let profile = Profile {
        name: "Ada Example".to_string(),
        email: "ada@example.com".to_string(),
        summary: "AWS again aws and AWS once more".to_string(),
        ..Profile::default()
    };
    let resume = Resume::new(profile);
    let keywords = resume.count_keywords();
    assert_eq!(keywords.get("amazon web services"), Some(&3usize));
}

#[test]
fn matching_keywords_carry_the_resume_counts() {
    let optimizer = ResumeOptimizer::new();
    let profile = Profile {
        name: "Ada Example".to_string(),
        email: "ada@example.com".to_string(),
        summary: "python python python".to_string(),
        ..Profile::default()
    };
    let resume = Resume::new(profile);
    let result = optimizer.optimize(&resume, "We use python here");
    assert_eq!(result.matching_keywords.get("python"), Some(&3usize));
}

#[test]
fn overused_keywords_are_flagged_above_four_uses() {
    let optimizer = ResumeOptimizer::new();
    let profile = Profile {
        name: "Ada Example".to_string(),
        email: "ada@example.com".to_string(),
        summary: "rust rust rust rust rust".to_string(),
        ..Profile::default()
    };
    let resume = Resume::new(profile);
    let result = optimizer.optimize(&resume, "anything");
    assert!(result.overused_keywords.contains(&"rust".to_string()));
    assert!(!result.overused_keywords.contains(&"ada".to_string()));
}
