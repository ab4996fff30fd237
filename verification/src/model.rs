//! The résumé record and its field-level rules: plain value types, presence
//! and range validation, and the keyword extraction over the record's free
//! text.
use crate::collections::{alist_bump, alist_has, alist_lookup, StrMap};
use crate::date::{date_lt, Date};
use crate::text::{
    push_all_spaced, push_chars,
    chars_eq, chars_vec, has_char, has_prefix, lower, lower_vec, push_char, push_str, spec_tokens,
    starts_with_chars, string_from_chars, tokenize, views_of_strings,
};
use vstd::prelude::*;

verus! {

/// Who the résumé is about and how to reach them. An empty string means the
/// field is absent.
#[derive(Clone, Debug)]
pub struct Profile {
    pub name: String,
    pub email: String,
    pub phone: String,
    pub location: Location,
    pub website: String,
    pub linkedin: String,
    pub github: String,
    pub summary: String,
    pub title: String,
}

/// A place, kept as the parts the renderer composes.
#[derive(Clone, Debug)]
pub struct Location {
    pub city: String,
    pub country: String,
}

/// One work-experience entry.
#[derive(Clone, Debug)]
pub struct Experience {
    pub company: String,
    pub title: String,
    pub location: Option<String>,
    pub start_date: Option<Date>,
    pub end_date: Option<Date>,
    pub current: bool,
    pub description: String,
    pub achievements: Vec<String>,
    pub technologies: Vec<String>,
}

/// One education entry. The grade-point average is held in hundredths, so
/// a GPA of 3.90 is stored as 390.
#[derive(Clone, Debug)]
pub struct Education {
    pub institution: String,
    pub degree: String,
    pub field_of_study: String,
    pub location: Option<String>,
    pub start_date: Option<Date>,
    pub end_date: Option<Date>,
    pub current: bool,
    pub gpa: Option<u32>,
    pub courses: Vec<String>,
    pub achievements: Vec<String>,
    pub description: String,
}

/// Skills partitioned into categories.
#[derive(Clone, Debug)]
pub struct Skills {
    pub technical: Vec<Skill>,
    pub soft: Vec<Skill>,
    pub languages: Vec<Skill>,
    pub tools: Vec<Skill>,
    pub other: Vec<Skill>,
}

/// One named skill.
#[derive(Clone, Debug)]
pub struct Skill {
    pub name: String,
    pub level: Option<String>,
    pub years: Option<u32>,
}

/// How far a skill has been taken.
#[derive(Clone, Copy, Debug, PartialEq, Eq, Structural)]
pub enum SkillLevel {
    Beginner,
    Intermediate,
    Advanced,
    Expert,
}

/// One project entry.
#[derive(Clone, Debug)]
pub struct Project {
    pub name: String,
    pub description: String,
    pub url: Option<String>,
    pub github: Option<String>,
    pub technologies: Vec<String>,
    pub start_date: Option<Date>,
    pub end_date: Option<Date>,
    pub highlights: Vec<String>,
}

/// One certification entry.
#[derive(Clone, Debug)]
pub struct Certification {
    pub name: String,
    pub issuer: String,
    pub date_obtained: Option<Date>,
    pub expiry_date: Option<Date>,
    pub credential_id: Option<String>,
    pub url: Option<String>,
}

/// One spoken language.
#[derive(Clone, Debug)]
pub struct Language {
    pub name: String,
    pub proficiency: LanguageProficiency,
}

/// How well a language is spoken.
#[derive(Clone, Copy, Debug, PartialEq, Eq, Structural)]
pub enum LanguageProficiency {
    Elementary,
    Limited,
    Professional,
    FullProfessional,
    Native,
}

/// One publication entry.
#[derive(Clone, Debug)]
pub struct Publication {
    pub title: String,
    pub publisher: String,
    pub published_date: Option<Date>,
    pub authors: Vec<String>,
    pub url: Option<String>,
    pub description: String,
}

/// One volunteering entry.
#[derive(Clone, Debug)]
pub struct Volunteer {
    pub organization: String,
    pub role: String,
    pub start_date: Option<Date>,
    pub end_date: Option<Date>,
    pub current: bool,
    pub description: String,
    pub location: Option<String>,
}

/// Bookkeeping about the record itself; not read by the core logic.
#[derive(Clone, Debug)]
pub struct ResumeMetadata {
    pub last_updated: String,
    pub version: String,
    pub template: String,
    pub custom_fields: StrMap<String>,
}

/// The whole résumé record. Consumed read-only by the renderer and the
/// optimizer.
#[derive(Clone, Debug)]
pub struct Resume {
    pub profile: Profile,
    pub experiences: Vec<Experience>,
    pub education: Vec<Education>,
    pub skills: Skills,
    pub projects: Vec<Project>,
    pub certifications: Vec<Certification>,
    pub languages: Vec<Language>,
    pub publications: Vec<Publication>,
    pub volunteer: Vec<Volunteer>,
    pub metadata: ResumeMetadata,
}

impl Default for Location {
    /// An empty location.
    fn default() -> (r: Location)
        ensures
            r.city@ == Seq::<char>::empty(),
            r.country@ == Seq::<char>::empty(),
    {
        Location { city: String::new(), country: String::new() }
    }
}

impl Default for Profile {
    /// A profile with every field absent.
    fn default() -> (r: Profile)
        ensures
            r.name@ == Seq::<char>::empty(),
            r.email@ == Seq::<char>::empty(),
            r.phone@ == Seq::<char>::empty(),
            r.location.city@ == Seq::<char>::empty(),
            r.location.country@ == Seq::<char>::empty(),
            r.website@ == Seq::<char>::empty(),
            r.linkedin@ == Seq::<char>::empty(),
            r.github@ == Seq::<char>::empty(),
            r.summary@ == Seq::<char>::empty(),
            r.title@ == Seq::<char>::empty(),
    {
        Profile {
            name: String::new(),
            email: String::new(),
            phone: String::new(),
            location: Location { city: String::new(), country: String::new() },
            website: String::new(),
            linkedin: String::new(),
            github: String::new(),
            summary: String::new(),
            title: String::new(),
        }
    }
}

impl Default for Skills {
    /// Empty skill categories.
    fn default() -> (r: Skills)
        ensures
            r.technical@ == Seq::<Skill>::empty(),
            r.soft@ == Seq::<Skill>::empty(),
            r.languages@ == Seq::<Skill>::empty(),
            r.tools@ == Seq::<Skill>::empty(),
            r.other@ == Seq::<Skill>::empty(),
    {
        Skills {
            technical: Vec::new(),
            soft: Vec::new(),
            languages: Vec::new(),
            tools: Vec::new(),
            other: Vec::new(),
        }
    }
}

impl Default for ResumeMetadata {
    /// Fresh metadata for a new record.
    fn default() -> (r: ResumeMetadata)
        ensures
            r.last_updated@ == Seq::<char>::empty(),
            r.version@ == "1.0.0"@,
            r.template@ == "default"@,
            r.custom_fields@ == Seq::<(Seq<char>, String)>::empty(),
    {
        ResumeMetadata {
            last_updated: String::new(),
            version: "1.0.0".to_owned(),
            template: "default".to_owned(),
            custom_fields: StrMap::new(),
        }
    }
}

// ---------------------------------------------------------------------------
// Validation
// ---------------------------------------------------------------------------
/// Both dates are present and the end lies before the start.
pub open spec fn dates_reversed(start: Option<Date>, end: Option<Date>) -> bool {
    match (start, end) {
        (Some(s), Some(e)) => date_lt(e, s),
        _ => false,
    }
}

/// The error text for an experience entry with reversed dates.
pub open spec fn exp_date_error(e: Experience) -> Seq<char> {
    "Invalid dates for experience at "@ + e.company@ + ": end date before start date"@
}

/// The first experience entry with reversed dates yields its error.
pub open spec fn first_exp_error(list: Seq<Experience>) -> Option<Seq<char>>
    decreases list.len(),
{
    if list.len() == 0 {
        None
    } else if dates_reversed(list[0].start_date, list[0].end_date) {
        Some(exp_date_error(list[0]))
    } else {
        first_exp_error(list.drop_first())
    }
}

/// A GPA is out of range when it exceeds 4.00 (400 hundredths).
pub open spec fn gpa_out_of_range(gpa: Option<u32>) -> bool {
    match gpa {
        Some(g) => g > 400,
        None => false,
    }
}

/// The error an education entry yields: reversed dates first, then the GPA
/// range.
pub open spec fn edu_entry_error(e: Education) -> Option<Seq<char>> {
    if dates_reversed(e.start_date, e.end_date) {
        Some("Invalid dates for education at "@ + e.institution@ + ": end date before start date"@)
    } else if gpa_out_of_range(e.gpa) {
        Some("Invalid GPA for "@ + e.institution@ + ": must be between 0.0 and 4.0"@)
    } else {
        None
    }
}

/// The first education entry in error yields its message.
pub open spec fn first_edu_error(list: Seq<Education>) -> Option<Seq<char>>
    decreases list.len(),
{
    if list.len() == 0 {
        None
    } else if edu_entry_error(list[0]) is Some {
        edu_entry_error(list[0])
    } else {
        first_edu_error(list.drop_first())
    }
}

/// The first validation error of the record, checked in a fixed order; the
/// record is valid exactly when there is none.
pub open spec fn spec_validate(r: Resume) -> Option<Seq<char>> {
    if r.profile.name@.len() == 0 {
        Some("Name is required"@)
    } else if r.profile.email@.len() == 0 {
        Some("Email is required"@)
    } else if !r.profile.email@.contains('@') {
        Some("Invalid email format"@)
    } else if first_exp_error(r.experiences@) is Some {
        first_exp_error(r.experiences@)
    } else if first_edu_error(r.education@) is Some {
        first_edu_error(r.education@)
    } else if r.profile.linkedin@.len() > 0 && !has_prefix(r.profile.linkedin@, "https://"@) {
        Some("LinkedIn URL must start with https://"@)
    } else if r.profile.github@.len() > 0 && !has_prefix(r.profile.github@, "https://"@) {
        Some("GitHub URL must start with https://"@)
    } else if r.skills.technical@.len() == 0 {
        Some("At least one technical skill is required"@)
    } else {
        None
    }
}

// ---------------------------------------------------------------------------
// Keyword extraction
// ---------------------------------------------------------------------------
/// The closed list of words too common to count as keywords.
pub open spec fn is_stopword(w: Seq<char>) -> bool {
    ||| w == "the"@
    ||| w == "and"@
    ||| w == "in"@
    ||| w == "of"@
    ||| w == "on"@
    ||| w == "with"@
    ||| w == "for"@
    ||| w == "to"@
    ||| w == "a"@
    ||| w == "an"@
    ||| w == "at"@
    ||| w == "by"@
    ||| w == "is"@
    ||| w == "this"@
    ||| w == "that"@
    ||| w == "it"@
    ||| w == "as"@
    ||| w == "or"@
    ||| w == "be"@
    ||| w == "are"@
    ||| w == "was"@
    ||| w == "were"@
    ||| w == "not"@
}

/// The word is in the stopword list.
pub fn is_common_word(w: &Vec<char>) -> (r: bool)
    ensures
        r == is_stopword(w@),
{
    chars_eq(w, &chars_vec("the")) || chars_eq(w, &chars_vec("and")) || chars_eq(
        w,
        &chars_vec("in"),
    ) || chars_eq(w, &chars_vec("of")) || chars_eq(w, &chars_vec("on")) || chars_eq(
        w,
        &chars_vec("with"),
    ) || chars_eq(w, &chars_vec("for")) || chars_eq(w, &chars_vec("to")) || chars_eq(
        w,
        &chars_vec("a"),
    ) || chars_eq(w, &chars_vec("an")) || chars_eq(w, &chars_vec("at")) || chars_eq(
        w,
        &chars_vec("by"),
    ) || chars_eq(w, &chars_vec("is")) || chars_eq(w, &chars_vec("this")) || chars_eq(
        w,
        &chars_vec("that"),
    ) || chars_eq(w, &chars_vec("it")) || chars_eq(w, &chars_vec("as")) || chars_eq(
        w,
        &chars_vec("or"),
    ) || chars_eq(w, &chars_vec("be")) || chars_eq(w, &chars_vec("are")) || chars_eq(
        w,
        &chars_vec("was"),
    ) || chars_eq(w, &chars_vec("were")) || chars_eq(w, &chars_vec("not"))
}

/// The fixed dictionary of technical acronyms and their canonical long
/// forms, all lower case.
pub open spec fn acronym_pairs() -> Seq<(Seq<char>, Seq<char>)> {
    seq![
        ("aws"@, "amazon web services"@),
        ("gcp"@, "google cloud platform"@),
        ("azure"@, "microsoft azure"@),
        ("iaas"@, "infrastructure as a service"@),
        ("paas"@, "platform as a service"@),
        ("saas"@, "software as a service"@),
        ("cdn"@, "content delivery network"@),
        ("dns"@, "domain name system"@),
        ("api"@, "application programming interface"@),
        ("sdk"@, "software development kit"@),
        ("cli"@, "command line interface"@),
        ("gui"@, "graphical user interface"@),
        ("oop"@, "object-oriented programming"@),
        ("fp"@, "functional programming"@),
        ("ci/cd"@, "continuous integration / continuous deployment"@),
        ("mvc"@, "model-view-controller"@),
        ("tdd"@, "test-driven development"@),
        ("orm"@, "object-relational mapping"@),
        ("ml"@, "machine learning"@),
        ("ai"@, "artificial intelligence"@),
        ("nlp"@, "natural language processing"@),
        ("cv"@, "computer vision"@),
        ("dl"@, "deep learning"@),
        ("rnn"@, "recurrent neural network"@),
        ("cnn"@, "convolutional neural network"@),
        ("lstm"@, "long short-term memory"@),
        ("gan"@, "generative adversarial network"@),
        ("etl"@, "extract, transform, load"@),
        ("sql"@, "structured query language"@),
        ("nosql"@, "not only sql"@),
        ("rdbms"@, "relational database management system"@),
        ("acid"@, "atomicity, consistency, isolation, durability"@),
        ("oltp"@, "online transaction processing"@),
        ("olap"@, "online analytical processing"@),
        ("tcp/ip"@, "transmission control protocol / internet protocol"@),
        ("http"@, "hypertext transfer protocol"@),
        ("https"@, "hypertext transfer protocol secure"@),
        ("ssh"@, "secure shell"@),
        ("ssl"@, "secure sockets layer"@),
        ("tls"@, "transport layer security"@),
        ("vpn"@, "virtual private network"@),
        ("ddos"@, "distributed denial of service"@),
        ("k8s"@, "kubernetes"@),
        ("iac"@, "infrastructure as code"@),
        ("bpm"@, "business process management"@),
        ("vm"@, "virtual machine"@),
        ("vcs"@, "version control system"@),
        ("git"@, "version control system (not an acronym but widely used)"@),
    ]
}

/// The views of a table of string pairs.
pub open spec fn pairs_views(v: Seq<(String, String)>) -> Seq<(Seq<char>, Seq<char>)> {
    v.map_values(|p: (String, String)| (p.0@, p.1@))
}

/// A token normalized against the acronym dictionary: the canonical long
/// form when the token is a known acronym, the token itself otherwise.
pub open spec fn normalize_token(t: Seq<char>) -> Seq<char> {
    match alist_lookup(acronym_pairs(), t) {
        Some(v) => v,
        None => t,
    }
}

/// Builds the acronym dictionary as a table of owned pairs.
#[verifier::rlimit(60)]
fn tech_acronyms() -> (r: Vec<(String, String)>)
    ensures
        pairs_views(r@) == acronym_pairs(),
{
    let mut t: Vec<(String, String)> = Vec::new();
    t.push(("aws".to_owned(), "amazon web services".to_owned()));
    t.push(("gcp".to_owned(), "google cloud platform".to_owned()));
    t.push(("azure".to_owned(), "microsoft azure".to_owned()));
    t.push(("iaas".to_owned(), "infrastructure as a service".to_owned()));
    t.push(("paas".to_owned(), "platform as a service".to_owned()));
    t.push(("saas".to_owned(), "software as a service".to_owned()));
    t.push(("cdn".to_owned(), "content delivery network".to_owned()));
    t.push(("dns".to_owned(), "domain name system".to_owned()));
    t.push(("api".to_owned(), "application programming interface".to_owned()));
    t.push(("sdk".to_owned(), "software development kit".to_owned()));
    t.push(("cli".to_owned(), "command line interface".to_owned()));
    t.push(("gui".to_owned(), "graphical user interface".to_owned()));
    t.push(("oop".to_owned(), "object-oriented programming".to_owned()));
    t.push(("fp".to_owned(), "functional programming".to_owned()));
    t.push(("ci/cd".to_owned(), "continuous integration / continuous deployment".to_owned()));
    t.push(("mvc".to_owned(), "model-view-controller".to_owned()));
    t.push(("tdd".to_owned(), "test-driven development".to_owned()));
    t.push(("orm".to_owned(), "object-relational mapping".to_owned()));
    t.push(("ml".to_owned(), "machine learning".to_owned()));
    t.push(("ai".to_owned(), "artificial intelligence".to_owned()));
    t.push(("nlp".to_owned(), "natural language processing".to_owned()));
    t.push(("cv".to_owned(), "computer vision".to_owned()));
    t.push(("dl".to_owned(), "deep learning".to_owned()));
    t.push(("rnn".to_owned(), "recurrent neural network".to_owned()));
    t.push(("cnn".to_owned(), "convolutional neural network".to_owned()));
    t.push(("lstm".to_owned(), "long short-term memory".to_owned()));
    t.push(("gan".to_owned(), "generative adversarial network".to_owned()));
    t.push(("etl".to_owned(), "extract, transform, load".to_owned()));
    t.push(("sql".to_owned(), "structured query language".to_owned()));
    t.push(("nosql".to_owned(), "not only sql".to_owned()));
    t.push(("rdbms".to_owned(), "relational database management system".to_owned()));
    t.push(("acid".to_owned(), "atomicity, consistency, isolation, durability".to_owned()));
    t.push(("oltp".to_owned(), "online transaction processing".to_owned()));
    t.push(("olap".to_owned(), "online analytical processing".to_owned()));
    t.push(("tcp/ip".to_owned(), "transmission control protocol / internet protocol".to_owned()));
    t.push(("http".to_owned(), "hypertext transfer protocol".to_owned()));
    t.push(("https".to_owned(), "hypertext transfer protocol secure".to_owned()));
    t.push(("ssh".to_owned(), "secure shell".to_owned()));
    t.push(("ssl".to_owned(), "secure sockets layer".to_owned()));
    t.push(("tls".to_owned(), "transport layer security".to_owned()));
    t.push(("vpn".to_owned(), "virtual private network".to_owned()));
    t.push(("ddos".to_owned(), "distributed denial of service".to_owned()));
    t.push(("k8s".to_owned(), "kubernetes".to_owned()));
    t.push(("iac".to_owned(), "infrastructure as code".to_owned()));
    t.push(("bpm".to_owned(), "business process management".to_owned()));
    t.push(("vm".to_owned(), "virtual machine".to_owned()));
    t.push(("vcs".to_owned(), "version control system".to_owned()));
    t.push(("git".to_owned(), "version control system (not an acronym but widely used)".to_owned()));
    proof {
        assert(pairs_views(t@) =~= acronym_pairs());
    }
    t
}

/// Looks a token up in the acronym table.
fn normalize_with(table: &Vec<(String, String)>, w: &Vec<char>) -> (r: Vec<char>)
    requires
        pairs_views(table@) == acronym_pairs(),
    ensures
        r@ == normalize_token(w@),
{
    let ghost pv = pairs_views(table@);
    proof {
        assert(pv.skip(0) =~= pv);
    }
    let mut i: usize = 0;
    while i < table.len()
        invariant
            i <= table@.len(),
            pv == pairs_views(table@),
            pv == acronym_pairs(),
            alist_lookup(pv, w@) == alist_lookup(pv.skip(i as int), w@),
        decreases table@.len() - i,
    {
        proof {
            assert(pv.skip(i as int)[0] == pv[i as int]);
            assert(pv.skip(i as int).drop_first() =~= pv.skip(i + 1));
        }
        let key = chars_vec(table[i].0.as_str());
        if chars_eq(&key, w) {
            return chars_vec(table[i].1.as_str());
        }
        i = i + 1;
    }
    let mut r: Vec<char> = Vec::new();
    push_chars(&mut r, w);
    proof {
        assert(r@ =~= w@);
    }
    r
}

/// Normalizes one word as the keyword counter does: case-folded, then
/// looked up in the acronym dictionary.
pub fn normalize_keyword(word: &str) -> (r: String)
    ensures
        r@ == normalize_token(lower(word@)),
{
    let wc = chars_vec(word);
    let lowered = lower_vec(&wc);
    let table = tech_acronyms();
    let norm = normalize_with(&table, &lowered);
    string_from_chars(&norm)
}

/// Keyword counts accumulated over a token list: stopwords are dropped and
/// every other token is normalized and counted, in order of appearance.
pub open spec fn count_tokens(toks: Seq<Seq<char>>) -> Seq<(Seq<char>, usize)>
    decreases toks.len(),
{
    if toks.len() == 0 {
        Seq::empty()
    } else {
        let rest = count_tokens(toks.drop_last());
        let t = toks.last();
        if is_stopword(t) {
            rest
        } else {
            alist_bump(rest, normalize_token(t))
        }
    }
}

/// One space-separated text fragment per experience entry.
pub open spec fn exp_text(e: Experience) -> Seq<char> {
    e.title@ + seq![' '] + e.description@ + seq![' '] + crate::text::cat_spaced(
        views_of_strings(e.achievements@),
    ) + crate::text::cat_spaced(views_of_strings(e.technologies@))
}

pub open spec fn cat_exp_texts(list: Seq<Experience>) -> Seq<char>
    decreases list.len(),
{
    if list.len() == 0 {
        Seq::empty()
    } else {
        cat_exp_texts(list.drop_last()) + exp_text(list.last())
    }
}

/// One space-separated text fragment per education entry.
pub open spec fn edu_text(e: Education) -> Seq<char> {
    e.degree@ + seq![' '] + e.field_of_study@ + seq![' '] + e.description@ + seq![' ']
        + crate::text::cat_spaced(views_of_strings(e.courses@))
}

pub open spec fn cat_edu_texts(list: Seq<Education>) -> Seq<char>
    decreases list.len(),
{
    if list.len() == 0 {
        Seq::empty()
    } else {
        cat_edu_texts(list.drop_last()) + edu_text(list.last())
    }
}

/// One space-separated text fragment per project entry.
pub open spec fn proj_text(p: Project) -> Seq<char> {
    p.name@ + seq![' '] + p.description@ + seq![' '] + crate::text::cat_spaced(
        views_of_strings(p.technologies@),
    )
}

pub open spec fn cat_proj_texts(list: Seq<Project>) -> Seq<char>
    decreases list.len(),
{
    if list.len() == 0 {
        Seq::empty()
    } else {
        cat_proj_texts(list.drop_last()) + proj_text(list.last())
    }
}

/// The names of a list of skills.
pub open spec fn skill_names(list: Seq<Skill>) -> Seq<Seq<char>> {
    list.map_values(|s: Skill| s.name@)
}

/// All free text of the record, space-separated, in a fixed order: profile
/// summary, title and name; experiences; education; technical, soft,
/// language and tool skills; projects.
pub open spec fn spec_resume_text(r: Resume) -> Seq<char> {
    r.profile.summary@ + seq![' '] + r.profile.title@ + seq![' '] + r.profile.name@ + seq![' ']
        + cat_exp_texts(r.experiences@) + cat_edu_texts(r.education@) + crate::text::cat_spaced(
        skill_names(r.skills.technical@),
    ) + crate::text::cat_spaced(skill_names(r.skills.soft@)) + crate::text::cat_spaced(
        skill_names(r.skills.languages@),
    ) + crate::text::cat_spaced(skill_names(r.skills.tools@)) + cat_proj_texts(r.projects@)
}

/// The keyword counts of the whole record: the tokens of its case-folded
/// free text, stopwords dropped, acronyms normalized, counted in order of
/// first appearance.
pub open spec fn spec_count_keywords(r: Resume) -> Seq<(Seq<char>, usize)> {
    count_tokens(spec_tokens(lower(spec_resume_text(r))))
}

/// Appends the names of a skill list, each followed by a space.
fn push_skill_names(out: &mut Vec<char>, list: &Vec<Skill>)
    ensures
        final(out)@ == old(out)@ + crate::text::cat_spaced(skill_names(list@)),
{
    let mut i: usize = 0;
    while i < list.len()
        invariant
            i <= list@.len(),
            out@ == old(out)@ + crate::text::cat_spaced(skill_names(list@.take(i as int))),
        decreases list@.len() - i,
    {
        push_str(out, list[i].name.as_str());
        push_char(out, ' ');
        i = i + 1;
        proof {
            let vs = skill_names(list@.take(i as int));
            assert(skill_names(list@.take(i - 1)) =~= vs.drop_last());
            assert(vs.last() == list@[i - 1].name@);
            assert(out@ =~= old(out)@ + crate::text::cat_spaced(vs));
        }
    }
    proof {
        assert(list@.take(list@.len() as int) =~= list@);
    }
}

/// Keyword counting never repeats a key.
pub proof fn lemma_count_tokens_distinct(toks: Seq<Seq<char>>)
    ensures
        crate::collections::alist_distinct(count_tokens(toks)),
    decreases toks.len(),
{
    if toks.len() > 0 {
        lemma_count_tokens_distinct(toks.drop_last());
        if !is_stopword(toks.last()) {
            crate::collections::lemma_bump_distinct(
                count_tokens(toks.drop_last()),
                normalize_token(toks.last()),
            );
        }
    }
}

/// Appends the free text of every experience entry.
fn push_experience_texts(out: &mut Vec<char>, list: &Vec<Experience>)
    ensures
        final(out)@ == old(out)@ + cat_exp_texts(list@),
{
    let mut i: usize = 0;
    while i < list.len()
        invariant
            i <= list@.len(),
            out@ == old(out)@ + cat_exp_texts(list@.take(i as int)),
        decreases list@.len() - i,
    {
        let e = &list[i];
        push_str(out, e.title.as_str());
        push_char(out, ' ');
        push_str(out, e.description.as_str());
        push_char(out, ' ');
        push_all_spaced(out, &e.achievements);
        push_all_spaced(out, &e.technologies);
        i = i + 1;
        proof {
            let pre = list@.take(i as int);
            assert(pre.drop_last() =~= list@.take(i - 1));
            assert(pre.last() == list@[i - 1]);
            assert(out@ =~= old(out)@ + cat_exp_texts(pre));
        }
    }
    proof {
        assert(list@.take(list@.len() as int) =~= list@);
    }
}

/// Appends the free text of every education entry.
fn push_education_texts(out: &mut Vec<char>, list: &Vec<Education>)
    ensures
        final(out)@ == old(out)@ + cat_edu_texts(list@),
{
    let mut i: usize = 0;
    while i < list.len()
        invariant
            i <= list@.len(),
            out@ == old(out)@ + cat_edu_texts(list@.take(i as int)),
        decreases list@.len() - i,
    {
        let e = &list[i];
        push_str(out, e.degree.as_str());
        push_char(out, ' ');
        push_str(out, e.field_of_study.as_str());
        push_char(out, ' ');
        push_str(out, e.description.as_str());
        push_char(out, ' ');
        push_all_spaced(out, &e.courses);
        i = i + 1;
        proof {
            let pre = list@.take(i as int);
            assert(pre.drop_last() =~= list@.take(i - 1));
            assert(pre.last() == list@[i - 1]);
            assert(out@ =~= old(out)@ + cat_edu_texts(pre));
        }
    }
    proof {
        assert(list@.take(list@.len() as int) =~= list@);
    }
}

/// Appends the free text of every project entry.
fn push_project_texts(out: &mut Vec<char>, list: &Vec<Project>)
    ensures
        final(out)@ == old(out)@ + cat_proj_texts(list@),
{
    let mut i: usize = 0;
    while i < list.len()
        invariant
            i <= list@.len(),
            out@ == old(out)@ + cat_proj_texts(list@.take(i as int)),
        decreases list@.len() - i,
    {
        let p = &list[i];
        push_str(out, p.name.as_str());
        push_char(out, ' ');
        push_str(out, p.description.as_str());
        push_char(out, ' ');
        push_all_spaced(out, &p.technologies);
        i = i + 1;
        proof {
            let pre = list@.take(i as int);
            assert(pre.drop_last() =~= list@.take(i - 1));
            assert(pre.last() == list@[i - 1]);
            assert(out@ =~= old(out)@ + cat_proj_texts(pre));
        }
    }
    proof {
        assert(list@.take(list@.len() as int) =~= list@);
    }
}

/// Keyword counts of an arbitrary text: case-folded, tokenized, stopwords
/// dropped, acronyms normalized, counted in order of first appearance.
pub open spec fn spec_text_keywords(text: Seq<char>) -> Seq<(Seq<char>, usize)> {
    count_tokens(spec_tokens(lower(text)))
}

/// Counts the keywords of a free text.
pub fn count_keywords_text(text: &Vec<char>) -> (r: StrMap<usize>)
    ensures
        r@ == spec_text_keywords(text@),
{
    let lowered = lower_vec(text);
    let toks = tokenize(&lowered);
    let table = tech_acronyms();
    let mut m: StrMap<usize> = StrMap::new();
    let ghost tv = crate::text::views_of(toks@);
    proof {
        assert(tv.take(0) =~= Seq::<Seq<char>>::empty());
    }
    let mut k: usize = 0;
    while k < toks.len()
        invariant
            k <= toks@.len(),
            tv == crate::text::views_of(toks@),
            tv == spec_tokens(lower(text@)),
            pairs_views(table@) == acronym_pairs(),
            m@ == count_tokens(tv.take(k as int)),
            forall|j: int| 0 <= j < m@.len() ==> #[trigger] m@[j].1 <= k,
        decreases toks@.len() - k,
    {
        let t = &toks[k];
        proof {
            assert(tv[k as int] == toks@[k as int]@);
            assert(tv.take(k + 1).drop_last() =~= tv.take(k as int));
            assert(tv.take(k + 1).last() == tv[k as int]);
        }
        if !is_common_word(t) {
            let norm = normalize_with(&table, t);
            proof {
                crate::collections::lemma_bump_values_bound(m@, norm@, k as int);
            }
            m.increment(string_from_chars(&norm));
        }
        k = k + 1;
    }
    proof {
        assert(tv.take(tv.len() as int) =~= tv);
    }
    m
}

impl Resume {
    /// A new record around a profile, with every list empty.
    pub fn new(profile: Profile) -> (r: Resume)
        ensures
            r.profile == profile,
            r.experiences@ == Seq::<Experience>::empty(),
            r.education@ == Seq::<Education>::empty(),
            r.skills.technical@ == Seq::<Skill>::empty(),
            r.skills.soft@ == Seq::<Skill>::empty(),
            r.skills.languages@ == Seq::<Skill>::empty(),
            r.skills.tools@ == Seq::<Skill>::empty(),
            r.skills.other@ == Seq::<Skill>::empty(),
            r.projects@ == Seq::<Project>::empty(),
            r.certifications@ == Seq::<Certification>::empty(),
            r.languages@ == Seq::<Language>::empty(),
            r.publications@ == Seq::<Publication>::empty(),
            r.volunteer@ == Seq::<Volunteer>::empty(),
            r.metadata.version@ == "1.0.0"@,
            r.metadata.template@ == "default"@,
    {
        Resume {
            profile,
            experiences: Vec::new(),
            education: Vec::new(),
            skills: Skills::default(),
            projects: Vec::new(),
            certifications: Vec::new(),
            languages: Vec::new(),
            publications: Vec::new(),
            volunteer: Vec::new(),
            metadata: ResumeMetadata::default(),
        }
    }

    /// Gathers all free text of the record, space-separated, in the fixed
    /// order of [`spec_resume_text`].
    fn build_text(&self) -> (r: Vec<char>)
        ensures
            r@ == spec_resume_text(*self),
    {
        let mut out: Vec<char> = Vec::new();
        push_str(&mut out, self.profile.summary.as_str());
        push_char(&mut out, ' ');
        push_str(&mut out, self.profile.title.as_str());
        push_char(&mut out, ' ');
        push_str(&mut out, self.profile.name.as_str());
        push_char(&mut out, ' ');
        push_experience_texts(&mut out, &self.experiences);
        push_education_texts(&mut out, &self.education);
        push_skill_names(&mut out, &self.skills.technical);
        push_skill_names(&mut out, &self.skills.soft);
        push_skill_names(&mut out, &self.skills.languages);
        push_skill_names(&mut out, &self.skills.tools);
        push_project_texts(&mut out, &self.projects);
        proof {
            assert(out@ =~= spec_resume_text(*self));
        }
        out
    }

    /// Counts the keywords of the record: its free text is case-folded and
    /// tokenized, stopwords are dropped, acronyms are normalized to their
    /// long forms, and each surviving keyword is counted in order of first
    /// appearance.
    pub fn count_keywords(&self) -> (r: StrMap<usize>)
        ensures
            r@ == spec_count_keywords(*self),
    {
        let text = self.build_text();
        count_keywords_text(&text)
    }

    /// The normalized form of the word occurs among the record's keywords.
    pub fn contains_keyword(&self, keyword: &str) -> (r: bool)
        ensures
            r == alist_has(spec_count_keywords(*self), normalize_token(lower(keyword@))),
    {
        let norm = normalize_keyword(keyword);
        let counts = self.count_keywords();
        counts.contains_key(norm.as_str())
    }

    /// Checks the record's field rules and yields the first violation, in
    /// the fixed order of [`spec_validate`].
    pub fn validate(&self) -> (r: Result<(), String>)
        ensures
            match r {
                Ok(_) => spec_validate(*self) is None,
                Err(m) => spec_validate(*self) == Some(m@),
            },
    {
        if self.profile.name.as_str().is_empty() {
            return Err("Name is required".to_owned());
        }
        if self.profile.email.as_str().is_empty() {
            return Err("Email is required".to_owned());
        }
        let email_chars = chars_vec(self.profile.email.as_str());
        if !has_char(&email_chars, '@') {
            return Err("Invalid email format".to_owned());
        }
        proof {
            assert(self.experiences@.skip(0) =~= self.experiences@);
        }
        let mut i: usize = 0;
        while i < self.experiences.len()
            invariant
                i <= self.experiences@.len(),
                first_exp_error(self.experiences@) == first_exp_error(
                    self.experiences@.skip(i as int),
                ),
            decreases self.experiences@.len() - i,
        {
            proof {
                assert(self.experiences@.skip(i as int)[0] == self.experiences@[i as int]);
                assert(self.experiences@.skip(i as int).drop_first() =~= self.experiences@.skip(
                    i + 1,
                ));
            }
            let exp = &self.experiences[i];
            let bad = match (exp.start_date, exp.end_date) {
                (Some(s), Some(e)) => e.before(&s),
                _ => false,
            };
            if bad {
                let mut m: Vec<char> = Vec::new();
                push_str(&mut m, "Invalid dates for experience at ");
                push_str(&mut m, exp.company.as_str());
                push_str(&mut m, ": end date before start date");
                proof {
                    assert(m@ =~= exp_date_error(self.experiences@[i as int]));
                }
                return Err(string_from_chars(&m));
            }
            i = i + 1;
        }
        proof {
            assert(self.education@.skip(0) =~= self.education@);
        }
        let mut i: usize = 0;
        while i < self.education.len()
            invariant
                i <= self.education@.len(),
                first_exp_error(self.experiences@) is None,
                first_edu_error(self.education@) == first_edu_error(
                    self.education@.skip(i as int),
                ),
            decreases self.education@.len() - i,
        {
            proof {
                assert(self.education@.skip(i as int)[0] == self.education@[i as int]);
                assert(self.education@.skip(i as int).drop_first() =~= self.education@.skip(
                    i + 1,
                ));
            }
            let edu = &self.education[i];
            let bad = match (edu.start_date, edu.end_date) {
                (Some(s), Some(e)) => e.before(&s),
                _ => false,
            };
            if bad {
                let mut m: Vec<char> = Vec::new();
                push_str(&mut m, "Invalid dates for education at ");
                push_str(&mut m, edu.institution.as_str());
                push_str(&mut m, ": end date before start date");
                proof {
                    assert(Some(m@) =~= edu_entry_error(self.education@[i as int]));
                }
                return Err(string_from_chars(&m));
            }
            let gpa_bad = match edu.gpa {
                Some(g) => g > 400,
                None => false,
            };
            if gpa_bad {
                let mut m: Vec<char> = Vec::new();
                push_str(&mut m, "Invalid GPA for ");
                push_str(&mut m, edu.institution.as_str());
                push_str(&mut m, ": must be between 0.0 and 4.0");
                proof {
                    assert(Some(m@) =~= edu_entry_error(self.education@[i as int]));
                }
                return Err(string_from_chars(&m));
            }
            i = i + 1;
        }
        let https = chars_vec("https://");
        if !self.profile.linkedin.as_str().is_empty() {
            let linkedin_chars = chars_vec(self.profile.linkedin.as_str());
            if !starts_with_chars(&linkedin_chars, &https) {
                return Err("LinkedIn URL must start with https://".to_owned());
            }
        }
        if !self.profile.github.as_str().is_empty() {
            let github_chars = chars_vec(self.profile.github.as_str());
            if !starts_with_chars(&github_chars, &https) {
                return Err("GitHub URL must start with https://".to_owned());
            }
        }
        if self.skills.technical.len() == 0 {
            return Err("At least one technical skill is required".to_owned());
        }
        Ok(())
    }
}

} // verus!
