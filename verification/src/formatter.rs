//! The rendering pipeline: a résumé record is serialized into a Markdown
//! document, and the plain-text and HTML outputs are derived strictly from
//! that Markdown, never from the record directly.
use crate::collections::{alist_has, alist_lookup, alist_store, StrMap};
use crate::convert::spec_plaintext;
use crate::date::{strftime, strftime_exec, Date};
use crate::model::{skill_names, Education, Experience, Profile, Project, Resume, Skills};
use crate::text::{
    chars_vec, digit_char, join_sep, join_strings, push_char, push_chars, push_str, push_u32_dec, replace_all,
    string_from_chars, views_of_strings,
};
use vstd::prelude::*;

verus! {

broadcast use crate::collections::lemma_store_lookup;

/// The output representations a résumé can be rendered into.
#[derive(Debug, Clone, Copy, PartialEq, Eq, Structural)]
pub enum OutputFormat {
    Markdown,
    PlainText,
    JSON,
    HTML,
    PDF,
}

impl OutputFormat {
    /// The file-name extension that suits the format.
    pub fn extension(&self) -> (r: &'static str)
        ensures
            r@ == match *self {
                OutputFormat::Markdown => "md"@,
                OutputFormat::PlainText => "txt"@,
                OutputFormat::JSON => "json"@,
                OutputFormat::HTML => "html"@,
                OutputFormat::PDF => "pdf"@,
            },
    {
        match self {
            Self::Markdown => "md",
            Self::PlainText => "txt",
            Self::JSON => "json",
            Self::HTML => "html",
            Self::PDF => "pdf",
        }
    }
}

/// How the renderer is configured: template name, contact-info gating,
/// date pattern, and per-section switches (a missing switch means the
/// section is included).
#[derive(Clone, Debug)]
pub struct FormattingOptions {
    pub template: String,
    pub include_contact_info: bool,
    pub include_picture: bool,
    pub date_format: String,
    pub section_options: StrMap<bool>,
    pub custom_options: StrMap<String>,
}

impl Default for FormattingOptions {
    /// The default configuration: the "modern" template, contact
    /// information included, the "%B %Y" date pattern, and every section
    /// switched on.
    fn default() -> (r: FormattingOptions)
        ensures
            r.template@ == "modern"@,
            r.include_contact_info,
            !r.include_picture,
            r.date_format@ == "%B %Y"@,
            sec_enabled(r.section_options@, "experiences"@),
            sec_enabled(r.section_options@, "education"@),
            sec_enabled(r.section_options@, "skills"@),
            sec_enabled(r.section_options@, "projects"@),
            sec_enabled(r.section_options@, "certifications"@),
            sec_enabled(r.section_options@, "languages"@),
            sec_enabled(r.section_options@, "publications"@),
            sec_enabled(r.section_options@, "volunteer"@),
            r.custom_options@ == Seq::<(Seq<char>, String)>::empty(),
    {
        proof {
            reveal_strlit("experiences");
            reveal_strlit("education");
            reveal_strlit("skills");
            reveal_strlit("projects");
            reveal_strlit("certifications");
            reveal_strlit("languages");
            reveal_strlit("publications");
            reveal_strlit("volunteer");
        }
        let mut section_options: StrMap<bool> = StrMap::new();
        section_options.insert("experiences".to_owned(), true);
        section_options.insert("education".to_owned(), true);
        section_options.insert("skills".to_owned(), true);
        section_options.insert("projects".to_owned(), true);
        section_options.insert("certifications".to_owned(), true);
        section_options.insert("languages".to_owned(), true);
        section_options.insert("publications".to_owned(), true);
        section_options.insert("volunteer".to_owned(), true);
        FormattingOptions {
            template: "modern".to_owned(),
            include_contact_info: true,
            include_picture: false,
            date_format: "%B %Y".to_owned(),
            section_options,
            custom_options: StrMap::new(),
        }
    }
}

/// What a render call hands back: the document, the format it is in, and
/// advisory warnings that never fail the call.
#[derive(Debug)]
pub struct FormattingResult {
    pub content: String,
    pub format: OutputFormat,
    pub warnings: Vec<String>,
}

/// Renders résumé records. The template registry only gates rendering by
/// name: the layout itself is the renderer's own.
pub struct ResumeFormatter {
    pub templates: StrMap<String>,
    pub options: FormattingOptions,
}

/// A section is included unless its switch is present and off.
pub open spec fn sec_enabled(opts: Seq<(Seq<char>, bool)>, name: Seq<char>) -> bool {
    match alist_lookup(opts, name) {
        Some(b) => b,
        None => true,
    }
}

// ---------------------------------------------------------------------------
// Date ranges
// ---------------------------------------------------------------------------
/// The rendering of an optional date under a pattern; absent dates render
/// as empty text.
pub open spec fn spec_date_str(d: Option<Date>, pattern: Seq<char>) -> Seq<char> {
    match d {
        Some(dt) => strftime(dt.year as int, dt.month as int, dt.day as int, pattern),
        None => Seq::empty(),
    }
}

/// How a date range reads: `"start - end"` when both sides are present,
/// `"From start"` or `"Until end"` when one is, empty when neither is.
/// When `current` holds, the end label is the literal `Present`.
pub open spec fn spec_date_range(
    start: Option<Date>,
    end: Option<Date>,
    current: bool,
    pattern: Seq<char>,
) -> Seq<char> {
    let s = spec_date_str(start, pattern);
    let e = if current {
        "Present"@
    } else {
        spec_date_str(end, pattern)
    };
    if s.len() == 0 && e.len() == 0 {
        Seq::empty()
    } else if s.len() == 0 {
        "Until "@ + e
    } else if e.len() == 0 {
        "From "@ + s
    } else {
        s + " - "@ + e
    }
}

// ---------------------------------------------------------------------------
// Markdown rendering, section by section
// ---------------------------------------------------------------------------
/// Each item on its own bulleted line.
pub open spec fn bullets(items: Seq<Seq<char>>) -> Seq<char>
    decreases items.len(),
{
    if items.len() == 0 {
        Seq::empty()
    } else {
        bullets(items.drop_last()) + "- "@ + items.last() + "\n"@
    }
}

/// The GPA in hundredths printed with two decimal places.
pub open spec fn gpa_text(g: u32) -> Seq<char> {
    crate::text::dec_digits(g as int / 100) + seq!['.'] + seq![
        digit_char((g as int / 10) % 10),
        digit_char(g as int % 10),
    ]
}

/// City and country joined with a comma when both are present, else
/// whichever one is.
pub open spec fn spec_location_text(city: Seq<char>, country: Seq<char>) -> Seq<char> {
    if city.len() > 0 && country.len() > 0 {
        city + ", "@ + country
    } else if city.len() > 0 {
        city
    } else {
        country
    }
}

/// The title line and the optional subtitle.
pub open spec fn spec_md_header(p: Profile) -> Seq<char> {
    "# "@ + p.name@ + "\n"@ + if p.title@.len() > 0 {
        "## "@ + p.title@ + "\n\n"@
    } else {
        Seq::empty()
    }
}

/// The reachability lines of the contact block: e-mail, phone, location.
pub open spec fn spec_contact_reach(p: Profile) -> Seq<char> {
    (if p.email@.len() > 0 {
        "- Email: "@ + p.email@ + "\n"@
    } else {
        Seq::empty()
    }) + (if p.phone@.len() > 0 {
        "- Phone: "@ + p.phone@ + "\n"@
    } else {
        Seq::empty()
    }) + (if p.location.city@.len() > 0 || p.location.country@.len() > 0 {
        "- Location: "@ + spec_location_text(p.location.city@, p.location.country@) + "\n"@
    } else {
        Seq::empty()
    })
}

/// The web-presence lines of the contact block.
pub open spec fn spec_contact_web(p: Profile) -> Seq<char> {
    (if p.linkedin@.len() > 0 {
        "- LinkedIn: "@ + p.linkedin@ + "\n"@
    } else {
        Seq::empty()
    }) + (if p.github@.len() > 0 {
        "- GitHub: "@ + p.github@ + "\n"@
    } else {
        Seq::empty()
    }) + (if p.website@.len() > 0 {
        "- Website: "@ + p.website@ + "\n"@
    } else {
        Seq::empty()
    })
}

/// The contact block: one line per present field, nothing when the block
/// is switched off.
pub open spec fn spec_contact(p: Profile, with_contact: bool) -> Seq<char> {
    if !with_contact {
        Seq::empty()
    } else {
        "## Contact Information\n\n"@ + spec_contact_reach(p) + spec_contact_web(p) + "\n"@
    }
}

/// The professional summary block, when a summary is present.
pub open spec fn spec_summary(p: Profile) -> Seq<char> {
    if p.summary@.len() > 0 {
        "## Professional Summary\n\n"@ + p.summary@ + "\n\n"@
    } else {
        Seq::empty()
    }
}

/// The heading lines of a work-experience entry: role, employer, dates.
pub open spec fn spec_exp_head(e: Experience, pattern: Seq<char>) -> Seq<char> {
    "### "@ + e.title@ + " at "@ + e.company@ + "\n"@ + "_"@ + spec_date_range(
        e.start_date,
        e.end_date,
        e.current,
        pattern,
    ) + "_\n\n"@
}

/// The body of a work-experience entry: location, description,
/// achievements and technologies, each only when present.
pub open spec fn spec_exp_tail(e: Experience) -> Seq<char> {
    (match e.location {
        Some(l) => "**Location:** "@ + l@ + "\n\n"@,
        None => Seq::empty(),
    }) + (if e.description@.len() > 0 {
        e.description@ + "\n\n"@
    } else {
        Seq::empty()
    }) + (if e.achievements@.len() > 0 {
        "**Key Achievements:**\n\n"@ + bullets(views_of_strings(e.achievements@)) + "\n"@
    } else {
        Seq::empty()
    }) + (if e.technologies@.len() > 0 {
        "**Technologies:** "@ + join_sep(views_of_strings(e.technologies@), ", "@) + "\n\n"@
    } else {
        Seq::empty()
    })
}

/// One work-experience entry.
pub open spec fn spec_exp_entry(e: Experience, pattern: Seq<char>) -> Seq<char> {
    spec_exp_head(e, pattern) + spec_exp_tail(e)
}

pub open spec fn cat_exp_entries(list: Seq<Experience>, pattern: Seq<char>) -> Seq<char>
    decreases list.len(),
{
    if list.len() == 0 {
        Seq::empty()
    } else {
        cat_exp_entries(list.drop_last(), pattern) + spec_exp_entry(list.last(), pattern)
    }
}

/// The Work Experience section, present only when switched on and
/// non-empty.
pub open spec fn spec_experiences(
    list: Seq<Experience>,
    enabled: bool,
    pattern: Seq<char>,
) -> Seq<char> {
    if enabled && list.len() > 0 {
        "## Work Experience\n\n"@ + cat_exp_entries(list, pattern)
    } else {
        Seq::empty()
    }
}

/// The heading lines of an education entry: degree, institution, dates.
pub open spec fn spec_edu_head(e: Education, pattern: Seq<char>) -> Seq<char> {
    "### "@ + e.degree@ + " in "@ + e.field_of_study@ + "\n"@ + "**"@ + e.institution@ + "**\n"@
        + "_"@ + spec_date_range(e.start_date, e.end_date, e.current, pattern) + "_\n\n"@
}

/// The body of an education entry: GPA, description, courses and
/// achievements, each only when present.
pub open spec fn spec_edu_tail(e: Education) -> Seq<char> {
    (match e.gpa {
        Some(g) => "**GPA:** "@ + gpa_text(g) + "\n\n"@,
        None => Seq::empty(),
    }) + (if e.description@.len() > 0 {
        e.description@ + "\n\n"@
    } else {
        Seq::empty()
    }) + (if e.courses@.len() > 0 {
        "**Relevant Courses:**\n\n"@ + bullets(views_of_strings(e.courses@)) + "\n"@
    } else {
        Seq::empty()
    }) + (if e.achievements@.len() > 0 {
        "**Achievements:**\n\n"@ + bullets(views_of_strings(e.achievements@)) + "\n"@
    } else {
        Seq::empty()
    })
}

/// One education entry.
pub open spec fn spec_edu_entry(e: Education, pattern: Seq<char>) -> Seq<char> {
    spec_edu_head(e, pattern) + spec_edu_tail(e)
}

pub open spec fn cat_edu_entries(list: Seq<Education>, pattern: Seq<char>) -> Seq<char>
    decreases list.len(),
{
    if list.len() == 0 {
        Seq::empty()
    } else {
        cat_edu_entries(list.drop_last(), pattern) + spec_edu_entry(list.last(), pattern)
    }
}

/// The Education section, present only when switched on and non-empty.
pub open spec fn spec_education(
    list: Seq<Education>,
    enabled: bool,
    pattern: Seq<char>,
) -> Seq<char> {
    if enabled && list.len() > 0 {
        "## Education\n\n"@ + cat_edu_entries(list, pattern)
    } else {
        Seq::empty()
    }
}

/// The Skills section: comma-joined names per category, languages as a
/// bullet list. The heading appears whenever the section is switched on.
pub open spec fn spec_skills(s: Skills, enabled: bool) -> Seq<char> {
    if enabled {
        "## Skills\n\n"@ + (if s.technical@.len() > 0 {
            "### Technical Skills\n\n"@ + join_sep(skill_names(s.technical@), ", "@) + "\n\n"@
        } else {
            Seq::empty()
        }) + (if s.soft@.len() > 0 {
            "### Soft Skills\n\n"@ + join_sep(skill_names(s.soft@), ", "@) + "\n\n"@
        } else {
            Seq::empty()
        }) + (if s.tools@.len() > 0 {
            "### Tools\n\n"@ + join_sep(skill_names(s.tools@), ", "@) + "\n\n"@
        } else {
            Seq::empty()
        }) + (if s.languages@.len() > 0 {
            "### Languages\n\n"@ + bullets(skill_names(s.languages@)) + "\n"@
        } else {
            Seq::empty()
        })
    } else {
        Seq::empty()
    }
}

/// One project entry.
pub open spec fn spec_proj_entry(p: Project) -> Seq<char> {
    "### "@ + p.name@ + "\n\n"@ + (if p.description@.len() > 0 {
        p.description@ + "\n\n"@
    } else {
        Seq::empty()
    }) + (match p.url {
        Some(u) => "**Link:** [Project Link]("@ + u@ + ")\n\n"@,
        None => Seq::empty(),
    }) + (match p.github {
        Some(g) => "**GitHub:** [Repository]("@ + g@ + ")\n\n"@,
        None => Seq::empty(),
    }) + (if p.technologies@.len() > 0 {
        "**Technologies:** "@ + join_sep(views_of_strings(p.technologies@), ", "@) + "\n\n"@
    } else {
        Seq::empty()
    }) + (if p.highlights@.len() > 0 {
        "**Highlights:**\n\n"@ + bullets(views_of_strings(p.highlights@)) + "\n"@
    } else {
        Seq::empty()
    })
}

pub open spec fn cat_proj_entries(list: Seq<Project>) -> Seq<char>
    decreases list.len(),
{
    if list.len() == 0 {
        Seq::empty()
    } else {
        cat_proj_entries(list.drop_last()) + spec_proj_entry(list.last())
    }
}

/// The Projects section, present only when switched on and non-empty.
pub open spec fn spec_projects(list: Seq<Project>, enabled: bool) -> Seq<char> {
    if enabled && list.len() > 0 {
        "## Projects\n\n"@ + cat_proj_entries(list)
    } else {
        Seq::empty()
    }
}

/// The whole Markdown document for a record under the given configuration.
pub open spec fn spec_markdown(
    r: Resume,
    include_contact: bool,
    sections: Seq<(Seq<char>, bool)>,
    pattern: Seq<char>,
) -> Seq<char> {
    spec_md_header(r.profile) + spec_contact(r.profile, include_contact) + spec_summary(r.profile)
        + spec_experiences(r.experiences@, sec_enabled(sections, "experiences"@), pattern)
        + spec_education(r.education@, sec_enabled(sections, "education"@), pattern) + spec_skills(
        r.skills,
        sec_enabled(sections, "skills"@),
    ) + spec_projects(r.projects@, sec_enabled(sections, "projects"@))
}

/// The advisory warnings the renderer appends: empty experiences, empty
/// education, empty technical skills.
pub open spec fn spec_md_warnings(r: Resume) -> Seq<Seq<char>> {
    (if r.experiences@.len() == 0 {
        seq!["Resume doesn't have any work experiences"@]
    } else {
        Seq::empty()
    }) + (if r.education@.len() == 0 {
        seq!["Resume doesn't have any education entries"@]
    } else {
        Seq::empty()
    }) + (if r.skills.technical@.len() == 0 {
        seq!["Resume doesn't have any technical skills"@]
    } else {
        Seq::empty()
    })
}

// ---------------------------------------------------------------------------
// Executable rendering helpers
// ---------------------------------------------------------------------------
/// Appends each item as a bulleted line.
fn push_bullets(out: &mut Vec<char>, items: &Vec<String>)
    ensures
        final(out)@ == old(out)@ + bullets(views_of_strings(items@)),
{
    let mut i: usize = 0;
    while i < items.len()
        invariant
            i <= items@.len(),
            out@ == old(out)@ + bullets(views_of_strings(items@.take(i as int))),
        decreases items@.len() - i,
    {
        push_str(out, "- ");
        push_str(out, items[i].as_str());
        push_str(out, "\n");
        i = i + 1;
        proof {
            let vs = views_of_strings(items@.take(i as int));
            assert(views_of_strings(items@.take(i - 1)) =~= vs.drop_last());
            assert(vs.last() == items@[i - 1]@);
            assert(out@ =~= old(out)@ + bullets(vs));
        }
    }
    proof {
        assert(items@.take(items@.len() as int) =~= items@);
    }
}

/// Appends each skill name as a bulleted line.
fn push_skill_bullets(out: &mut Vec<char>, items: &Vec<crate::model::Skill>)
    ensures
        final(out)@ == old(out)@ + bullets(skill_names(items@)),
{
    let mut i: usize = 0;
    while i < items.len()
        invariant
            i <= items@.len(),
            out@ == old(out)@ + bullets(skill_names(items@.take(i as int))),
        decreases items@.len() - i,
    {
        push_str(out, "- ");
        push_str(out, items[i].name.as_str());
        push_str(out, "\n");
        i = i + 1;
        proof {
            let vs = skill_names(items@.take(i as int));
            assert(skill_names(items@.take(i - 1)) =~= vs.drop_last());
            assert(vs.last() == items@[i - 1].name@);
            assert(out@ =~= old(out)@ + bullets(vs));
        }
    }
    proof {
        assert(items@.take(items@.len() as int) =~= items@);
    }
}

/// Appends the skill names joined with a comma.
fn push_joined_skill_names(out: &mut Vec<char>, items: &Vec<crate::model::Skill>)
    ensures
        final(out)@ == old(out)@ + join_sep(skill_names(items@), ", "@),
{
    let mut i: usize = 0;
    while i < items.len()
        invariant
            i <= items@.len(),
            out@ == old(out)@ + join_sep(skill_names(items@.take(i as int)), ", "@),
        decreases items@.len() - i,
    {
        if i > 0 {
            push_str(out, ", ");
        }
        push_str(out, items[i].name.as_str());
        i = i + 1;
        proof {
            let vs = skill_names(items@.take(i as int));
            assert(skill_names(items@.take(i - 1)) =~= vs.drop_last());
            assert(vs.last() == items@[i - 1].name@);
            assert(out@ =~= old(out)@ + join_sep(vs, ", "@));
        }
    }
    proof {
        assert(items@.take(items@.len() as int) =~= items@);
    }
}

impl ResumeFormatter {
    /// A renderer with the default configuration and the built-in template
    /// names registered.
    pub fn new() -> (r: ResumeFormatter)
        ensures
            r.options.template@ == "modern"@,
            r.options.include_contact_info,
            r.options.date_format@ == "%B %Y"@,
            sec_enabled(r.options.section_options@, "experiences"@),
            sec_enabled(r.options.section_options@, "education"@),
            sec_enabled(r.options.section_options@, "skills"@),
            sec_enabled(r.options.section_options@, "projects"@),
            r.templates@.len() == 3,
            alist_has(r.templates@, "modern"@),
            alist_has(r.templates@, "classic"@),
            alist_has(r.templates@, "minimal"@),
    {
        let mut f = ResumeFormatter { templates: StrMap::new(), options: FormattingOptions::default() };
        f.load_default_templates();
        f
    }

    /// A renderer with the given configuration and the built-in template
    /// names registered.
    pub fn with_options(options: FormattingOptions) -> (r: ResumeFormatter)
        ensures
            r.options == options,
            r.templates@.len() == 3,
            alist_has(r.templates@, "modern"@),
            alist_has(r.templates@, "classic"@),
            alist_has(r.templates@, "minimal"@),
    {
        let mut f = ResumeFormatter { templates: StrMap::new(), options };
        f.load_default_templates();
        f
    }

    /// Registers exactly the three built-in template names. The built-in
    /// layout is hard-coded in the renderer; the registry records which
    /// names exist, so the stored text is empty.
    fn load_default_templates(&mut self)
        requires
            old(self).templates@.len() == 0,
        ensures
            final(self).options == old(self).options,
            final(self).templates@.len() == 3,
            final(self).templates@[0].0 == "modern"@,
            final(self).templates@[1].0 == "classic"@,
            final(self).templates@[2].0 == "minimal"@,
            alist_has(final(self).templates@, "modern"@),
            alist_has(final(self).templates@, "classic"@),
            alist_has(final(self).templates@, "minimal"@),
    {
        proof {
            reveal_strlit("modern");
            reveal_strlit("classic");
            reveal_strlit("minimal");
            assert("modern"@.len() == 6);
            assert("classic"@.len() == 7);
            assert("minimal"@.len() == 7);
            assert("classic"@ != "minimal"@) by {
                assert("classic"@[0] == 'c' && "minimal"@[0] == 'm');
            }
        }
        let ghost t0 = self.templates@;
        let c1 = String::new();
        let ghost g1 = c1;
        self.templates.insert("modern".to_owned(), c1);
        let ghost t1 = self.templates@;
        proof {
            assert(t0 =~= Seq::<(Seq<char>, String)>::empty());
            assert(t1 =~= seq![("modern"@, g1)]);
        }
        let c2 = String::new();
        let ghost g2 = c2;
        self.templates.insert("classic".to_owned(), c2);
        let ghost t2 = self.templates@;
        proof {
            assert(t1.drop_first() =~= Seq::<(Seq<char>, String)>::empty());
            assert(alist_store(t1, "classic"@, g2) =~= seq![t1[0]] + alist_store(
                t1.drop_first(),
                "classic"@,
                g2,
            ));
            assert(t2 =~= seq![("modern"@, g1), ("classic"@, g2)]);
        }
        let c3 = String::new();
        let ghost g3 = c3;
        self.templates.insert("minimal".to_owned(), c3);
        proof {
            let t3 = self.templates@;
            assert(t2.drop_first() =~= seq![("classic"@, g2)]);
            assert(t2.drop_first().drop_first() =~= Seq::<(Seq<char>, String)>::empty());
            assert(alist_store(t2.drop_first(), "minimal"@, g3) =~= seq![t2.drop_first()[0]]
                + alist_store(t2.drop_first().drop_first(), "minimal"@, g3));
            assert(alist_store(t2, "minimal"@, g3) =~= seq![t2[0]] + alist_store(
                t2.drop_first(),
                "minimal"@,
                g3,
            ));
            assert(t3 =~= seq![("modern"@, g1), ("classic"@, g2), ("minimal"@, g3)]);
        }
    }

    /// Registers a template under a name, replacing any previous content.
    pub fn add_template(&mut self, name: String, content: String)
        ensures
            final(self).options == old(self).options,
            final(self).templates@ == alist_store(old(self).templates@, name@, content),
    {
        self.templates.insert(name, content);
    }

    /// Renders an optional date range: both sides present as
    /// `"start - end"`, one side as `"From start"` or `"Until end"`,
    /// neither as empty text; `current` replaces the end with `Present`.
    pub fn format_date_range(&self, start: Option<Date>, end: Option<Date>, current: bool) -> (r:
        String)
        ensures
            r@ == spec_date_range(start, end, current, self.options.date_format@),
    {
        let mut out: Vec<char> = Vec::new();
        push_date_range(&mut out, start, end, current, self.options.date_format.as_str());
        string_from_chars(&out)
    }
}

/// Appends a rendered date range.
fn push_date_range(
    out: &mut Vec<char>,
    start: Option<Date>,
    end: Option<Date>,
    current: bool,
    pattern: &str,
)
    ensures
        final(out)@ == old(out)@ + spec_date_range(start, end, current, pattern@),
{
    let start_str: String = match start {
        Some(d) => strftime_exec(d.year, d.month, d.day, pattern),
        None => String::new(),
    };
    let end_str: String = if current {
        "Present".to_owned()
    } else {
        match end {
            Some(d) => strftime_exec(d.year, d.month, d.day, pattern),
            None => String::new(),
        }
    };
    proof {
        reveal_strlit("Present");
    }
    if start_str.as_str().is_empty() && end_str.as_str().is_empty() {
    } else if start_str.as_str().is_empty() {
        push_str(out, "Until ");
        push_str(out, end_str.as_str());
    } else if end_str.as_str().is_empty() {
        push_str(out, "From ");
        push_str(out, start_str.as_str());
    } else {
        push_str(out, start_str.as_str());
        push_str(out, " - ");
        push_str(out, end_str.as_str());
    }
    proof {
        assert(out@ =~= old(out)@ + spec_date_range(start, end, current, pattern@));
    }
}

/// A section switch: present and off means excluded, anything else means
/// included.
fn section_on(opts: &StrMap<bool>, name: &str) -> (r: bool)
    ensures
        r == sec_enabled(opts@, name@),
{
    match opts.get(name) {
        Some(b) => *b,
        None => true,
    }
}

/// Appends the title line and the optional subtitle.
fn push_md_header(out: &mut Vec<char>, p: &Profile)
    ensures
        final(out)@ == old(out)@ + spec_md_header(*p),
{
    push_str(out, "# ");
    push_str(out, p.name.as_str());
    push_str(out, "\n");
    if !p.title.as_str().is_empty() {
        push_str(out, "## ");
        push_str(out, p.title.as_str());
        push_str(out, "\n\n");
    }
    proof {
        assert(out@ =~= old(out)@ + spec_md_header(*p));
    }
}

/// Appends the reachability lines of the contact block.
fn push_contact_reach(out: &mut Vec<char>, p: &Profile)
    ensures
        final(out)@ == old(out)@ + spec_contact_reach(*p),
{
    broadcast use crate::text::lemma_seq_concat_assoc;

    if !p.email.as_str().is_empty() {
        push_str(out, "- Email: ");
        push_str(out, p.email.as_str());
        push_str(out, "\n");
    }
    let ghost mut acc = old(out)@ + (if p.email@.len() > 0 {
        "- Email: "@ + p.email@ + "\n"@
    } else {
        Seq::<char>::empty()
    });
    proof {
        assert(out@ == acc);
    }
    if !p.phone.as_str().is_empty() {
        push_str(out, "- Phone: ");
        push_str(out, p.phone.as_str());
        push_str(out, "\n");
    }
    proof {
        acc = acc + (if p.phone@.len() > 0 {
            "- Phone: "@ + p.phone@ + "\n"@
        } else {
            Seq::<char>::empty()
        });
        assert(out@ == acc);
    }
    if !p.location.city.as_str().is_empty() || !p.location.country.as_str().is_empty() {
        push_str(out, "- Location: ");
        if !p.location.city.as_str().is_empty() && !p.location.country.as_str().is_empty() {
            push_str(out, p.location.city.as_str());
            push_str(out, ", ");
            push_str(out, p.location.country.as_str());
        } else if !p.location.city.as_str().is_empty() {
            push_str(out, p.location.city.as_str());
        } else {
            push_str(out, p.location.country.as_str());
        }
        push_str(out, "\n");
    }
    proof {
        acc = acc + (if p.location.city@.len() > 0 || p.location.country@.len() > 0 {
            "- Location: "@ + spec_location_text(p.location.city@, p.location.country@) + "\n"@
        } else {
            Seq::<char>::empty()
        });
        assert(out@ == acc);
        assert(out@ =~= old(out)@ + spec_contact_reach(*p));
    }
}

/// Appends the web-presence lines of the contact block.
fn push_contact_web(out: &mut Vec<char>, p: &Profile)
    ensures
        final(out)@ == old(out)@ + spec_contact_web(*p),
{
    broadcast use crate::text::lemma_seq_concat_assoc;

    if !p.linkedin.as_str().is_empty() {
        push_str(out, "- LinkedIn: ");
        push_str(out, p.linkedin.as_str());
        push_str(out, "\n");
    }
    let ghost mut acc = old(out)@ + (if p.linkedin@.len() > 0 {
        "- LinkedIn: "@ + p.linkedin@ + "\n"@
    } else {
        Seq::<char>::empty()
    });
    proof {
        assert(out@ == acc);
    }
    if !p.github.as_str().is_empty() {
        push_str(out, "- GitHub: ");
        push_str(out, p.github.as_str());
        push_str(out, "\n");
    }
    proof {
        acc = acc + (if p.github@.len() > 0 {
            "- GitHub: "@ + p.github@ + "\n"@
        } else {
            Seq::<char>::empty()
        });
        assert(out@ == acc);
    }
    if !p.website.as_str().is_empty() {
        push_str(out, "- Website: ");
        push_str(out, p.website.as_str());
        push_str(out, "\n");
    }
    proof {
        acc = acc + (if p.website@.len() > 0 {
            "- Website: "@ + p.website@ + "\n"@
        } else {
            Seq::<char>::empty()
        });
        assert(out@ == acc);
        assert(out@ =~= old(out)@ + spec_contact_web(*p));
    }
}

/// Appends the contact block.
fn push_contact(out: &mut Vec<char>, p: &Profile, with_contact: bool)
    ensures
        final(out)@ == old(out)@ + spec_contact(*p, with_contact),
{
    if with_contact {
        push_str(out, "## Contact Information\n\n");
        push_contact_reach(out, p);
        push_contact_web(out, p);
        push_str(out, "\n");
        proof {
            assert(out@ =~= old(out)@ + spec_contact(*p, with_contact));
        }
    }
}

/// Appends the professional summary block.
fn push_summary(out: &mut Vec<char>, p: &Profile)
    ensures
        final(out)@ == old(out)@ + spec_summary(*p),
{
    if !p.summary.as_str().is_empty() {
        push_str(out, "## Professional Summary\n\n");
        push_str(out, p.summary.as_str());
        push_str(out, "\n\n");
    }
    proof {
        assert(out@ =~= old(out)@ + spec_summary(*p));
    }
}

/// Appends the heading lines of a work-experience entry.
fn push_exp_head(out: &mut Vec<char>, e: &Experience, pattern: &str)
    ensures
        final(out)@ == old(out)@ + spec_exp_head(*e, pattern@),
{
    push_str(out, "### ");
    push_str(out, e.title.as_str());
    push_str(out, " at ");
    push_str(out, e.company.as_str());
    push_str(out, "\n");
    push_str(out, "_");
    push_date_range(out, e.start_date, e.end_date, e.current, pattern);
    push_str(out, "_\n\n");
    proof {
        assert(out@ =~= old(out)@ + spec_exp_head(*e, pattern@));
    }
}

/// Appends the body of a work-experience entry.
fn push_exp_tail(out: &mut Vec<char>, e: &Experience)
    ensures
        final(out)@ == old(out)@ + spec_exp_tail(*e),
{
    broadcast use crate::text::lemma_seq_concat_assoc;

    match &e.location {
        Some(l) => {
            push_str(out, "**Location:** ");
            push_str(out, l.as_str());
            push_str(out, "\n\n");
        },
        None => {},
    }
    let ghost mut acc = old(out)@ + (match &e.location {
        Some(l) => "**Location:** "@ + l@ + "\n\n"@,
        None => Seq::<char>::empty(),
    });
    proof {
        assert(out@ == acc);
    }
    if !e.description.as_str().is_empty() {
        push_str(out, e.description.as_str());
        push_str(out, "\n\n");
    }
    proof {
        acc = acc + (if e.description@.len() > 0 {
            e.description@ + "\n\n"@
        } else {
            Seq::<char>::empty()
        });
        assert(out@ == acc);
    }
    if e.achievements.len() > 0 {
        push_str(out, "**Key Achievements:**\n\n");
        push_bullets(out, &e.achievements);
        push_str(out, "\n");
    }
    proof {
        acc = acc + (if e.achievements@.len() > 0 {
            "**Key Achievements:**\n\n"@ + bullets(views_of_strings(e.achievements@)) + "\n"@
        } else {
            Seq::<char>::empty()
        });
        assert(out@ == acc);
    }
    if e.technologies.len() > 0 {
        push_str(out, "**Technologies:** ");
        let joined = join_strings(&e.technologies, ", ");
        push_chars(out, &joined);
        push_str(out, "\n\n");
    }
    proof {
        acc = acc + (if e.technologies@.len() > 0 {
            "**Technologies:** "@ + join_sep(views_of_strings(e.technologies@), ", "@) + "\n\n"@
        } else {
            Seq::<char>::empty()
        });
        assert(out@ == acc);
        assert(out@ =~= old(out)@ + spec_exp_tail(*e));
    }
}

/// Appends one work-experience entry.
fn push_exp_entry(out: &mut Vec<char>, e: &Experience, pattern: &str)
    ensures
        final(out)@ == old(out)@ + spec_exp_entry(*e, pattern@),
{
    push_exp_head(out, e, pattern);
    push_exp_tail(out, e);
    proof {
        assert(out@ =~= old(out)@ + spec_exp_entry(*e, pattern@));
    }
}

/// Appends the Work Experience section.
fn push_exp_section(out: &mut Vec<char>, list: &Vec<Experience>, enabled: bool, pattern: &str)
    ensures
        final(out)@ == old(out)@ + spec_experiences(list@, enabled, pattern@),
{
    if enabled && list.len() > 0 {
        push_str(out, "## Work Experience\n\n");
        let ghost head = out@;
        let mut i: usize = 0;
        while i < list.len()
            invariant
                i <= list@.len(),
                out@ == head + cat_exp_entries(list@.take(i as int), pattern@),
            decreases list@.len() - i,
        {
            push_exp_entry(out, &list[i], pattern);
            i = i + 1;
            proof {
                let pre = list@.take(i as int);
                assert(pre.drop_last() =~= list@.take(i - 1));
                assert(pre.last() == list@[i - 1]);
                assert(out@ =~= head + cat_exp_entries(pre, pattern@));
            }
        }
        proof {
            assert(list@.take(list@.len() as int) =~= list@);
            assert(out@ =~= old(out)@ + spec_experiences(list@, enabled, pattern@));
        }
    }
}

/// Appends the heading lines of an education entry.
fn push_edu_head(out: &mut Vec<char>, e: &Education, pattern: &str)
    ensures
        final(out)@ == old(out)@ + spec_edu_head(*e, pattern@),
{
    push_str(out, "### ");
    push_str(out, e.degree.as_str());
    push_str(out, " in ");
    push_str(out, e.field_of_study.as_str());
    push_str(out, "\n");
    push_str(out, "**");
    push_str(out, e.institution.as_str());
    push_str(out, "**\n");
    push_str(out, "_");
    push_date_range(out, e.start_date, e.end_date, e.current, pattern);
    push_str(out, "_\n\n");
    proof {
        assert(out@ =~= old(out)@ + spec_edu_head(*e, pattern@));
    }
}

/// Appends the body of an education entry.
fn push_edu_tail(out: &mut Vec<char>, e: &Education)
    ensures
        final(out)@ == old(out)@ + spec_edu_tail(*e),
{
    broadcast use crate::text::lemma_seq_concat_assoc;

    match e.gpa {
        Some(g) => {
            push_str(out, "**GPA:** ");
            push_u32_dec(out, g / 100);
            push_char(out, '.');
            push_char(out, (((g / 10) % 10) as u8 + 48) as char);
            push_char(out, ((g % 10) as u8 + 48) as char);
            push_str(out, "\n\n");
            proof {
                assert(gpa_text(g) =~= crate::text::dec_digits(g as int / 100) + seq!['.']
                    + seq![digit_char((g as int / 10) % 10)] + seq![digit_char(g as int % 10)]);
            }
        },
        None => {},
    }
    let ghost mut acc = old(out)@ + (match e.gpa {
        Some(g) => "**GPA:** "@ + gpa_text(g) + "\n\n"@,
        None => Seq::<char>::empty(),
    });
    proof {
        assert(out@ == acc);
    }
    if !e.description.as_str().is_empty() {
        push_str(out, e.description.as_str());
        push_str(out, "\n\n");
    }
    proof {
        acc = acc + (if e.description@.len() > 0 {
            e.description@ + "\n\n"@
        } else {
            Seq::<char>::empty()
        });
        assert(out@ == acc);
    }
    if e.courses.len() > 0 {
        push_str(out, "**Relevant Courses:**\n\n");
        push_bullets(out, &e.courses);
        push_str(out, "\n");
    }
    proof {
        acc = acc + (if e.courses@.len() > 0 {
            "**Relevant Courses:**\n\n"@ + bullets(views_of_strings(e.courses@)) + "\n"@
        } else {
            Seq::<char>::empty()
        });
        assert(out@ == acc);
    }
    if e.achievements.len() > 0 {
        push_str(out, "**Achievements:**\n\n");
        push_bullets(out, &e.achievements);
        push_str(out, "\n");
    }
    proof {
        acc = acc + (if e.achievements@.len() > 0 {
            "**Achievements:**\n\n"@ + bullets(views_of_strings(e.achievements@)) + "\n"@
        } else {
            Seq::<char>::empty()
        });
        assert(out@ == acc);
        assert(out@ =~= old(out)@ + spec_edu_tail(*e));
    }
}

/// Appends one education entry.
fn push_edu_entry(out: &mut Vec<char>, e: &Education, pattern: &str)
    ensures
        final(out)@ == old(out)@ + spec_edu_entry(*e, pattern@),
{
    push_edu_head(out, e, pattern);
    push_edu_tail(out, e);
    proof {
        assert(out@ =~= old(out)@ + spec_edu_entry(*e, pattern@));
    }
}

/// Appends the Education section.
fn push_edu_section(out: &mut Vec<char>, list: &Vec<Education>, enabled: bool, pattern: &str)
    ensures
        final(out)@ == old(out)@ + spec_education(list@, enabled, pattern@),
{
    if enabled && list.len() > 0 {
        push_str(out, "## Education\n\n");
        let ghost head = out@;
        let mut i: usize = 0;
        while i < list.len()
            invariant
                i <= list@.len(),
                out@ == head + cat_edu_entries(list@.take(i as int), pattern@),
            decreases list@.len() - i,
        {
            push_edu_entry(out, &list[i], pattern);
            i = i + 1;
            proof {
                let pre = list@.take(i as int);
                assert(pre.drop_last() =~= list@.take(i - 1));
                assert(pre.last() == list@[i - 1]);
                assert(out@ =~= head + cat_edu_entries(pre, pattern@));
            }
        }
        proof {
            assert(list@.take(list@.len() as int) =~= list@);
            assert(out@ =~= old(out)@ + spec_education(list@, enabled, pattern@));
        }
    }
}

/// Appends the Skills section.
#[verifier::rlimit(100)]
fn push_skills_section(out: &mut Vec<char>, s: &Skills, enabled: bool)
    ensures
        final(out)@ == old(out)@ + spec_skills(*s, enabled),
{
    if enabled {
        push_str(out, "## Skills\n\n");
        let ghost mut acc = old(out)@ + "## Skills\n\n"@;
        if s.technical.len() > 0 {
            push_str(out, "### Technical Skills\n\n");
            push_joined_skill_names(out, &s.technical);
            push_str(out, "\n\n");
        }
        proof {
            acc = acc + (if s.technical@.len() > 0 {
                "### Technical Skills\n\n"@ + join_sep(skill_names(s.technical@), ", "@)
                    + "\n\n"@
            } else {
                Seq::<char>::empty()
            });
            assert(out@ == acc);
        }
        if s.soft.len() > 0 {
            push_str(out, "### Soft Skills\n\n");
            push_joined_skill_names(out, &s.soft);
            push_str(out, "\n\n");
        }
        proof {
            acc = acc + (if s.soft@.len() > 0 {
                "### Soft Skills\n\n"@ + join_sep(skill_names(s.soft@), ", "@) + "\n\n"@
            } else {
                Seq::<char>::empty()
            });
            assert(out@ == acc);
        }
        if s.tools.len() > 0 {
            push_str(out, "### Tools\n\n");
            push_joined_skill_names(out, &s.tools);
            push_str(out, "\n\n");
        }
        proof {
            acc = acc + (if s.tools@.len() > 0 {
                "### Tools\n\n"@ + join_sep(skill_names(s.tools@), ", "@) + "\n\n"@
            } else {
                Seq::<char>::empty()
            });
            assert(out@ == acc);
        }
        if s.languages.len() > 0 {
            push_str(out, "### Languages\n\n");
            push_skill_bullets(out, &s.languages);
            push_str(out, "\n");
        }
        proof {
            acc = acc + (if s.languages@.len() > 0 {
                "### Languages\n\n"@ + bullets(skill_names(s.languages@)) + "\n"@
            } else {
                Seq::<char>::empty()
            });
            assert(out@ == acc);
            assert(out@ =~= old(out)@ + spec_skills(*s, enabled));
        }
    }
}

/// Appends one project entry.
#[verifier::rlimit(100)]
fn push_proj_entry(out: &mut Vec<char>, p: &Project)
    ensures
        final(out)@ == old(out)@ + spec_proj_entry(*p),
{
    broadcast use crate::text::lemma_seq_concat_assoc;
    push_str(out, "### ");
    push_str(out, p.name.as_str());
    push_str(out, "\n\n");
    let ghost mut acc = old(out)@ + "### "@ + p.name@ + "\n\n"@;
    proof {
        assert(out@ == acc);
    }
    if !p.description.as_str().is_empty() {
        push_str(out, p.description.as_str());
        push_str(out, "\n\n");
    }
    proof {
        acc = acc + (if p.description@.len() > 0 {
            p.description@ + "\n\n"@
        } else {
            Seq::<char>::empty()
        });
        assert(out@ == acc);
    }
    match &p.url {
        Some(u) => {
            push_str(out, "**Link:** [Project Link](");
            push_str(out, u.as_str());
            push_str(out, ")\n\n");
        },
        None => {},
    }
    proof {
        acc = acc + (match &p.url {
            Some(u) => "**Link:** [Project Link]("@ + u@ + ")\n\n"@,
            None => Seq::<char>::empty(),
        });
        assert(out@ == acc);
    }
    match &p.github {
        Some(g) => {
            push_str(out, "**GitHub:** [Repository](");
            push_str(out, g.as_str());
            push_str(out, ")\n\n");
        },
        None => {},
    }
    proof {
        acc = acc + (match &p.github {
            Some(g) => "**GitHub:** [Repository]("@ + g@ + ")\n\n"@,
            None => Seq::<char>::empty(),
        });
        assert(out@ == acc);
    }
    if p.technologies.len() > 0 {
        push_str(out, "**Technologies:** ");
        let joined = join_strings(&p.technologies, ", ");
        push_chars(out, &joined);
        push_str(out, "\n\n");
    }
    proof {
        acc = acc + (if p.technologies@.len() > 0 {
            "**Technologies:** "@ + join_sep(views_of_strings(p.technologies@), ", "@) + "\n\n"@
        } else {
            Seq::<char>::empty()
        });
        assert(out@ == acc);
    }
    if p.highlights.len() > 0 {
        push_str(out, "**Highlights:**\n\n");
        push_bullets(out, &p.highlights);
        push_str(out, "\n");
    }
    proof {
        acc = acc + (if p.highlights@.len() > 0 {
            "**Highlights:**\n\n"@ + bullets(views_of_strings(p.highlights@)) + "\n"@
        } else {
            Seq::<char>::empty()
        });
        assert(out@ == acc);
        assert(out@ =~= old(out)@ + spec_proj_entry(*p));
    }
}

/// Appends the Projects section.
fn push_proj_section(out: &mut Vec<char>, list: &Vec<Project>, enabled: bool)
    ensures
        final(out)@ == old(out)@ + spec_projects(list@, enabled),
{
    if enabled && list.len() > 0 {
        push_str(out, "## Projects\n\n");
        let ghost head = out@;
        let mut i: usize = 0;
        while i < list.len()
            invariant
                i <= list@.len(),
                out@ == head + cat_proj_entries(list@.take(i as int)),
            decreases list@.len() - i,
        {
            push_proj_entry(out, &list[i]);
            i = i + 1;
            proof {
                let pre = list@.take(i as int);
                assert(pre.drop_last() =~= list@.take(i - 1));
                assert(pre.last() == list@[i - 1]);
                assert(out@ =~= head + cat_proj_entries(pre));
            }
        }
        proof {
            assert(list@.take(list@.len() as int) =~= list@);
            assert(out@ =~= old(out)@ + spec_projects(list@, enabled));
        }
    }
}

// ---------------------------------------------------------------------------
// HTML derivation: the ordered rewrite passes over the Markdown
// ---------------------------------------------------------------------------
/// Heading lines after a newline become opening tags; a closing tag is
/// inferred from a trailing ` #` before a newline. A heading at the very
/// start of the document, or one whose text ends in a literal `#`, is left
/// as the passes produce it: the derivation is an approximation, not a
/// parser.
pub open spec fn heading_passes(s: Seq<char>) -> Seq<char> {
    replace_all(
        replace_all(
            replace_all(
                replace_all(
                    replace_all(replace_all(s, "\n# "@, "\n<h1>"@), "\n## "@, "\n<h2>"@),
                    "\n### "@,
                    "\n<h3>"@,
                ),
                " #\n"@,
                "</h1>\n"@,
            ),
            " ##\n"@,
            "</h2>\n"@,
        ),
        " ###\n"@,
        "</h3>\n"@,
    )
}

/// The document after headings, bullets, item closing, list wrapping and
/// the blanket bold-marker replacement.
pub open spec fn html_pre_bold(md: Seq<char>) -> Seq<char> {
    replace_all(
        replace_all(
            crate::convert::ul_from(
                crate::convert::li_close_from(
                    replace_all(
                        replace_all(heading_passes(md), "\n- "@, "\n<li>"@),
                        "\n* "@,
                        "\n<li>"@,
                    ),
                    0,
                ),
                0,
            ),
            "**"@,
            "<strong>"@,
        ),
        "__"@,
        "<strong>"@,
    )
}

/// The bold markers did not pair up evenly.
pub open spec fn html_bold_odd(md: Seq<char>) -> bool {
    crate::text::count_from(html_pre_bold(md), "<strong>"@, 0) % 2 == 1
}

/// The document after bold pairing and the blanket italic-marker
/// replacement.
pub open spec fn html_pre_em(md: Seq<char>) -> Seq<char> {
    replace_all(
        replace_all(
            crate::convert::pair_from(html_pre_bold(md), "<strong>"@, "</strong>"@, false, 0),
            "*"@,
            "<em>"@,
        ),
        "_"@,
        "<em>"@,
    )
}

/// The italic markers did not pair up evenly.
pub open spec fn html_em_odd(md: Seq<char>) -> bool {
    crate::text::count_from(html_pre_em(md), "<em>"@, 0) % 2 == 1
}

/// The rewritten content before the outer paragraph wrap: italics paired,
/// links turned into anchors, blank lines turned into paragraph breaks.
pub open spec fn html_paragraph_content(md: Seq<char>) -> Seq<char> {
    replace_all(
        crate::convert::links_from(
            crate::convert::pair_from(html_pre_em(md), "<em>"@, "</em>"@, false, 0),
            0,
            true,
        ),
        "\n\n"@,
        "\n</p>\n<p>\n"@,
    )
}

/// The finished HTML body: the rewritten content wrapped in paragraph
/// tags.
pub open spec fn spec_html_body(md: Seq<char>) -> Seq<char> {
    "<p>"@ + html_paragraph_content(md) + "</p>"@
}

/// The fixed document shell around the body, titled after the profile
/// name.
pub open spec fn html_head(name: Seq<char>) -> Seq<char> {
    "<!DOCTYPE html>\n<html lang=\"en\">\n<head>\n"@ + "<meta charset=\"UTF-8\">\n"@
        + "<meta name=\"viewport\" content=\"width=device-width, initial-scale=1.0\">\n"@
        + "<title>"@ + name + "'s Resume</title>\n"@ + "<style>\n"@
        + "body { font-family: Arial, sans-serif; line-height: 1.6; max-width: 800px; margin: 0 auto; padding: 20px; }\n"@
        + "h1, h2, h3 { color: #333; }\n"@
        + "h1 { border-bottom: 2px solid #333; padding-bottom: 10px; }\n"@
        + "h2 { border-bottom: 1px solid #ddd; padding-bottom: 5px; margin-top: 20px; }\n"@
        + "ul { margin-top: 5px; }\n"@ + "</style>\n"@ + "</head>\n<body>\n"@
}

/// The whole HTML document derived from a Markdown rendering.
pub open spec fn spec_html_doc(name: Seq<char>, md: Seq<char>) -> Seq<char> {
    html_head(name) + spec_html_body(md) + "\n</body>\n</html>"@
}

/// The warnings the HTML derivation appends: unbalanced bold markers, then
/// unbalanced italic markers.
pub open spec fn spec_html_warnings(md: Seq<char>) -> Seq<Seq<char>> {
    (if html_bold_odd(md) {
        seq!["Mismatched bold markers in content"@]
    } else {
        Seq::empty()
    }) + (if html_em_odd(md) {
        seq!["Mismatched italic markers in content"@]
    } else {
        Seq::empty()
    })
}

/// Runs the rewrite passes over a Markdown document, appending the marker
/// warnings.
fn html_passes(md: &Vec<char>, warnings: &mut Vec<String>) -> (r: Vec<char>)
    ensures
        r@ == html_paragraph_content(md@),
        views_of_strings(final(warnings)@) == views_of_strings(old(warnings)@)
            + spec_html_warnings(md@),
{
    proof {
        reveal_strlit("\n# ");
        reveal_strlit("\n## ");
        reveal_strlit("\n### ");
        reveal_strlit(" #\n");
        reveal_strlit(" ##\n");
        reveal_strlit(" ###\n");
        reveal_strlit("\n- ");
        reveal_strlit("\n* ");
        reveal_strlit("**");
        reveal_strlit("__");
        reveal_strlit("<strong>");
        reveal_strlit("*");
        reveal_strlit("_");
        reveal_strlit("<em>");
        reveal_strlit("\n\n");
    }
    let c = crate::text::replace_all_exec(md, &chars_vec("\n# "), &chars_vec("\n<h1>"));
    let c = crate::text::replace_all_exec(&c, &chars_vec("\n## "), &chars_vec("\n<h2>"));
    let c = crate::text::replace_all_exec(&c, &chars_vec("\n### "), &chars_vec("\n<h3>"));
    let c = crate::text::replace_all_exec(&c, &chars_vec(" #\n"), &chars_vec("</h1>\n"));
    let c = crate::text::replace_all_exec(&c, &chars_vec(" ##\n"), &chars_vec("</h2>\n"));
    let c = crate::text::replace_all_exec(&c, &chars_vec(" ###\n"), &chars_vec("</h3>\n"));
    let c = crate::text::replace_all_exec(&c, &chars_vec("\n- "), &chars_vec("\n<li>"));
    let c = crate::text::replace_all_exec(&c, &chars_vec("\n* "), &chars_vec("\n<li>"));
    let c = crate::convert::li_close_pass(&c);
    let c = crate::convert::ul_pass(&c);
    let c = crate::text::replace_all_exec(&c, &chars_vec("**"), &chars_vec("<strong>"));
    let c = crate::text::replace_all_exec(&c, &chars_vec("__"), &chars_vec("<strong>"));
    let strong_count = crate::text::count_sub(&c, &chars_vec("<strong>"));
    if strong_count % 2 != 0 {
        let ghost wprev = warnings@;
        warnings.push("Mismatched bold markers in content".to_owned());
        proof {
            assert(views_of_strings(warnings@) =~= views_of_strings(wprev).push(
                "Mismatched bold markers in content"@,
            ));
        }
    }
    let c = crate::convert::pair_rewrite(&c, &chars_vec("<strong>"), &chars_vec("</strong>"));
    let c = crate::text::replace_all_exec(&c, &chars_vec("*"), &chars_vec("<em>"));
    let c = crate::text::replace_all_exec(&c, &chars_vec("_"), &chars_vec("<em>"));
    let em_count = crate::text::count_sub(&c, &chars_vec("<em>"));
    if em_count % 2 != 0 {
        let ghost wprev = warnings@;
        warnings.push("Mismatched italic markers in content".to_owned());
        proof {
            assert(views_of_strings(warnings@) =~= views_of_strings(wprev).push(
                "Mismatched italic markers in content"@,
            ));
        }
    }
    proof {
        assert(views_of_strings(warnings@) =~= views_of_strings(old(warnings)@)
            + spec_html_warnings(md@));
    }
    let c = crate::convert::pair_rewrite(&c, &chars_vec("<em>"), &chars_vec("</em>"));
    let c = crate::convert::links_rewrite(&c, true);
    let c = crate::text::replace_all_exec(&c, &chars_vec("\n\n"), &chars_vec("\n</p>\n<p>\n"));
    c
}

/// Appends the fixed document shell up to the opening of the body.
fn push_html_head(out: &mut Vec<char>, name: &String)
    ensures
        final(out)@ == old(out)@ + html_head(name@),
{
    push_str(out, "<!DOCTYPE html>\n<html lang=\"en\">\n<head>\n");
    push_str(out, "<meta charset=\"UTF-8\">\n");
    push_str(out, "<meta name=\"viewport\" content=\"width=device-width, initial-scale=1.0\">\n");
    push_str(out, "<title>");
    push_str(out, name.as_str());
    push_str(out, "'s Resume</title>\n");
    push_str(out, "<style>\n");
    push_str(
        out,
        "body { font-family: Arial, sans-serif; line-height: 1.6; max-width: 800px; margin: 0 auto; padding: 20px; }\n",
    );
    push_str(out, "h1, h2, h3 { color: #333; }\n");
    push_str(out, "h1 { border-bottom: 2px solid #333; padding-bottom: 10px; }\n");
    push_str(out, "h2 { border-bottom: 1px solid #ddd; padding-bottom: 5px; margin-top: 20px; }\n");
    push_str(out, "ul { margin-top: 5px; }\n");
    push_str(out, "</style>\n");
    push_str(out, "</head>\n<body>\n");
    proof {
        broadcast use crate::text::lemma_seq_concat_assoc;

        assert(out@ == old(out)@ + html_head(name@));
    }
}

impl ResumeFormatter {
    /// The Markdown document the configuration asks for, with the section
    /// warnings appended.
    fn render_markdown(&self, resume: &Resume, warnings: &mut Vec<String>) -> (content: Vec<
        char,
    >)
        ensures
            content@ == spec_markdown(
                *resume,
                self.options.include_contact_info,
                self.options.section_options@,
                self.options.date_format@,
            ),
            views_of_strings(final(warnings)@) == views_of_strings(old(warnings)@)
                + spec_md_warnings(*resume),
    {
        let mut out: Vec<char> = Vec::new();
        push_md_header(&mut out, &resume.profile);
        push_contact(&mut out, &resume.profile, self.options.include_contact_info);
        push_summary(&mut out, &resume.profile);
        let pattern = self.options.date_format.as_str();
        let exp_on = section_on(&self.options.section_options, "experiences");
        push_exp_section(&mut out, &resume.experiences, exp_on, pattern);
        let edu_on = section_on(&self.options.section_options, "education");
        push_edu_section(&mut out, &resume.education, edu_on, pattern);
        let skills_on = section_on(&self.options.section_options, "skills");
        push_skills_section(&mut out, &resume.skills, skills_on);
        let proj_on = section_on(&self.options.section_options, "projects");
        push_proj_section(&mut out, &resume.projects, proj_on);
        proof {
            assert(out@ =~= spec_markdown(
                *resume,
                self.options.include_contact_info,
                self.options.section_options@,
                self.options.date_format@,
            ));
        }
        let ghost mut wacc = views_of_strings(old(warnings)@);
        if resume.experiences.len() == 0 {
            let ghost wprev = warnings@;
            warnings.push("Resume doesn't have any work experiences".to_owned());
            proof {
                assert(views_of_strings(warnings@) =~= views_of_strings(wprev).push(
                    "Resume doesn't have any work experiences"@,
                ));
            }
        }
        proof {
            wacc = wacc + (if resume.experiences@.len() == 0 {
                seq!["Resume doesn't have any work experiences"@]
            } else {
                Seq::<Seq<char>>::empty()
            });
            assert(views_of_strings(warnings@) =~= wacc);
        }
        if resume.education.len() == 0 {
            let ghost wprev = warnings@;
            warnings.push("Resume doesn't have any education entries".to_owned());
            proof {
                assert(views_of_strings(warnings@) =~= views_of_strings(wprev).push(
                    "Resume doesn't have any education entries"@,
                ));
            }
        }
        proof {
            wacc = wacc + (if resume.education@.len() == 0 {
                seq!["Resume doesn't have any education entries"@]
            } else {
                Seq::<Seq<char>>::empty()
            });
            assert(views_of_strings(warnings@) =~= wacc);
        }
        if resume.skills.technical.len() == 0 {
            let ghost wprev = warnings@;
            warnings.push("Resume doesn't have any technical skills".to_owned());
            proof {
                assert(views_of_strings(warnings@) =~= views_of_strings(wprev).push(
                    "Resume doesn't have any technical skills"@,
                ));
            }
        }
        proof {
            wacc = wacc + (if resume.skills.technical@.len() == 0 {
                seq!["Resume doesn't have any technical skills"@]
            } else {
                Seq::<Seq<char>>::empty()
            });
            assert(views_of_strings(warnings@) =~= wacc);
            assert(views_of_strings(warnings@) =~= views_of_strings(old(warnings)@)
                + spec_md_warnings(*resume));
        }
        out
    }

    /// The plain-text document: derived strictly from the Markdown
    /// rendering, and free of `#`, `*` and `_`.
    fn render_plaintext(&self, resume: &Resume, warnings: &mut Vec<String>) -> (content: Vec<
        char,
    >)
        ensures
            content@ == spec_plaintext(
                spec_markdown(
                    *resume,
                    self.options.include_contact_info,
                    self.options.section_options@,
                    self.options.date_format@,
                ),
            ),
            views_of_strings(final(warnings)@) == views_of_strings(old(warnings)@)
                + spec_md_warnings(*resume),
            forall|k: int|
                0 <= k < content@.len() ==> !crate::convert::is_md_mark(#[trigger] content@[k]),
    {
        let md = self.render_markdown(resume, warnings);
        let r = crate::convert::plaintext_of(&md);
        proof {
            crate::convert::lemma_plaintext_clean(md@, 0);
        }
        r
    }

    /// The HTML document: derived strictly from the Markdown rendering by
    /// the fixed sequence of rewrite passes, with the marker warnings
    /// appended after the section warnings.
    fn render_html(&self, resume: &Resume, warnings: &mut Vec<String>) -> (content: Vec<char>)
        ensures
            content@ == spec_html_doc(
                resume.profile.name@,
                spec_markdown(
                    *resume,
                    self.options.include_contact_info,
                    self.options.section_options@,
                    self.options.date_format@,
                ),
            ),
            views_of_strings(final(warnings)@) == views_of_strings(old(warnings)@)
                + spec_md_warnings(*resume) + spec_html_warnings(
                spec_markdown(
                    *resume,
                    self.options.include_contact_info,
                    self.options.section_options@,
                    self.options.date_format@,
                ),
            ),
    {
        let md = self.render_markdown(resume, warnings);
        let c = html_passes(&md, warnings);
        let mut html: Vec<char> = Vec::new();
        push_html_head(&mut html, &resume.profile.name);
        push_str(&mut html, "<p>");
        push_chars(&mut html, &c);
        push_str(&mut html, "</p>");
        push_str(&mut html, "\n</body>\n</html>");
        proof {
            broadcast use crate::text::lemma_seq_concat_assoc;

            assert(html@ == spec_html_doc(resume.profile.name@, md@));
        }
        html
    }

    /// Renders the record in the requested representation. Markdown, plain
    /// text and HTML succeed whenever the configured template name is
    /// registered; PDF is unsupported, and the JSON document is produced
    /// by the caller's structural serializer, not by the renderer.
    pub fn format(&self, resume: &Resume, format: OutputFormat) -> (r: Result<
        FormattingResult,
        String,
    >)
        ensures
            r is Ok <==> (alist_has(self.templates@, self.options.template@) && format
                != OutputFormat::PDF && format != OutputFormat::JSON),
            match r {
                Ok(res) => {
                    &&& res.format == format
                    &&& (format == OutputFormat::Markdown ==> res.content@ == spec_markdown(
                        *resume,
                        self.options.include_contact_info,
                        self.options.section_options@,
                        self.options.date_format@,
                    ) && views_of_strings(res.warnings@) == spec_md_warnings(*resume))
                    &&& (format == OutputFormat::PlainText ==> res.content@ == spec_plaintext(
                        spec_markdown(
                            *resume,
                            self.options.include_contact_info,
                            self.options.section_options@,
                            self.options.date_format@,
                        ),
                    ) && views_of_strings(res.warnings@) == spec_md_warnings(*resume) && (
                    forall|k: int|
                        0 <= k < res.content@.len() ==> !crate::convert::is_md_mark(
                            #[trigger] res.content@[k],
                        )))
                    &&& (format == OutputFormat::HTML ==> res.content@ == spec_html_doc(
                        resume.profile.name@,
                        spec_markdown(
                            *resume,
                            self.options.include_contact_info,
                            self.options.section_options@,
                            self.options.date_format@,
                        ),
                    ) && views_of_strings(res.warnings@) == spec_md_warnings(*resume)
                        + spec_html_warnings(
                        spec_markdown(
                            *resume,
                            self.options.include_contact_info,
                            self.options.section_options@,
                            self.options.date_format@,
                        ),
                    ))
                },
                Err(m) => {
                    &&& (!alist_has(self.templates@, self.options.template@) ==> m@
                        == "Template '"@ + self.options.template@ + "' not found"@)
                    &&& (alist_has(self.templates@, self.options.template@) && format
                        == OutputFormat::PDF ==> m@ == "PDF output requires additional setup"@)
                    &&& (alist_has(self.templates@, self.options.template@) && format
                        == OutputFormat::JSON ==> m@
                        == "JSON output is produced by the caller's serializer"@)
                },
            },
    {
        if !self.templates.contains_key(self.options.template.as_str()) {
            let mut m: Vec<char> = Vec::new();
            push_str(&mut m, "Template '");
            push_str(&mut m, self.options.template.as_str());
            push_str(&mut m, "' not found");
            return Err(string_from_chars(&m));
        }
        let mut warnings: Vec<String> = Vec::new();
        proof {
            assert(views_of_strings(warnings@) =~= Seq::<Seq<char>>::empty());
        }
        let content_chars: Vec<char> = match format {
            OutputFormat::Markdown => self.render_markdown(resume, &mut warnings),
            OutputFormat::PlainText => self.render_plaintext(resume, &mut warnings),
            OutputFormat::HTML => self.render_html(resume, &mut warnings),
            OutputFormat::JSON => {
                return Err("JSON output is produced by the caller's serializer".to_owned());
            },
            OutputFormat::PDF => {
                return Err("PDF output requires additional setup".to_owned());
            },
        };
        proof {
            assert(Seq::<Seq<char>>::empty() + spec_md_warnings(*resume) =~= spec_md_warnings(
                *resume,
            ));
        }
        let content = string_from_chars(&content_chars);
        Ok(FormattingResult { content, format, warnings })
    }
}

} // verus!
