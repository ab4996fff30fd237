//! The keyword/optimization engine: scores how well a résumé covers a job
//! description and derives suggestions, as a deterministic function of the
//! two inputs and the engine's fixed dictionaries.
use crate::collections::{alist_has, alist_lookup, alist_store, StrMap, StrSet};
use crate::model::{spec_count_keywords, spec_text_keywords, Resume};
use crate::text::{
    chars_vec, contains_sub, count_from, count_sub, lower, lower_vec, push_str, string_from_chars,
    views_of_strings,
};
use vstd::prelude::*;

verus! {

broadcast use crate::collections::lemma_store_lookup;

/// What one optimization run reports: the coverage score, the keyword
/// lists, and the free-text and per-section suggestions.
#[derive(Clone, Debug)]
pub struct OptimizationResult {
    pub score: u8,
    pub missing_keywords: Vec<String>,
    pub matching_keywords: StrMap<usize>,
    pub overused_keywords: Vec<String>,
    pub suggestions: Vec<String>,
    pub section_improvements: StrMap<Vec<String>>,
}

impl Default for OptimizationResult {
    /// An empty report.
    fn default() -> (r: OptimizationResult)
        ensures
            r.score == 0,
            r.missing_keywords@ == Seq::<String>::empty(),
            r.matching_keywords@ == Seq::<(Seq<char>, usize)>::empty(),
            r.overused_keywords@ == Seq::<String>::empty(),
            r.suggestions@ == Seq::<String>::empty(),
            r.section_improvements@ == Seq::<(Seq<char>, Vec<String>)>::empty(),
    {
        OptimizationResult {
            score: 0,
            missing_keywords: Vec::new(),
            matching_keywords: StrMap::new(),
            overused_keywords: Vec::new(),
            suggestions: Vec::new(),
            section_improvements: StrMap::new(),
        }
    }
}

/// Scores résumés against job descriptions. The dictionaries are filled at
/// construction and only read afterwards.
pub struct ResumeOptimizer {
    pub industry_keywords: StrMap<StrSet>,
    pub action_verbs: StrSet,
    pub weak_terms: StrSet,
}

/// The views of an industry table: each industry name with the views of
/// its keyword set.
pub open spec fn industry_views(entries: Seq<(Seq<char>, StrSet)>) -> Seq<
    (Seq<char>, Seq<Seq<char>>),
> {
    entries.map_values(|p: (Seq<char>, StrSet)| (p.0, p.1@))
}

/// The built-in keyword list for software-related industries.
pub open spec fn software_keywords() -> Seq<Seq<char>> {
    seq![
        "python"@,
        "javascript"@,
        "typescript"@,
        "rust"@,
        "java"@,
        "c++"@,
        "react"@,
        "node.js"@,
        "docker"@,
        "kubernetes"@,
        "ci/cd"@,
        "aws"@,
        "azure"@,
        "gcp"@,
        "microservices"@,
        "rest api"@,
        "git"@,
        "agile"@,
        "scrum"@,
        "devops"@,
        "test-driven development"@,
        "distributed systems"@,
        "database"@,
        "sql"@,
        "nosql"@,
        "mongodb"@,
        "postgresql"@,
        "full-stack"@,
        "backend"@,
        "frontend"@,
        "mobile"@,
        "machine learning"@,
        "data science"@,
        "algorithms"@,
        "system design"@,
    ]
}

/// The built-in action verbs strong résumé text should use.
pub open spec fn default_action_verbs() -> Seq<Seq<char>> {
    seq![
        "achieved"@,
        "improved"@,
        "solved"@,
        "delivered"@,
        "created"@,
        "implemented"@,
        "developed"@,
        "designed"@,
        "launched"@,
        "managed"@,
        "led"@,
        "coordinated"@,
        "increased"@,
        "decreased"@,
        "reduced"@,
        "optimized"@,
        "negotiated"@,
        "trained"@,
        "mentored"@,
        "supervised"@,
        "analyzed"@,
        "researched"@,
        "integrated"@,
        "authored"@,
    ]
}

/// The built-in weak phrases the engine flags.
pub open spec fn default_weak_terms() -> Seq<Seq<char>> {
    seq![
        "responsible for"@,
        "duties included"@,
        "worked on"@,
        "helped with"@,
        "assisted"@,
        "was tasked with"@,
        "participated in"@,
        "familiar with"@,
        "exposure to"@,
        "involved in"@,
        "experience with"@,
        "very"@,
        "various"@,
        "numerous"@,
        "different"@,
        "several"@,
        "many"@,
        "part of"@,
        "things"@,
    ]
}

/// An industry name the engine knows: it mentions software, development or
/// engineering (case-insensitively).
pub open spec fn industry_matches(industry: Seq<char>) -> bool {
    contains_sub(lower(industry), "software"@) || contains_sub(lower(industry), "developer"@)
        || contains_sub(lower(industry), "engineering"@)
}

/// Storing a keyword set stores its views.
proof fn lemma_industry_store_views(
    entries: Seq<(Seq<char>, StrSet)>,
    k: Seq<char>,
    v: StrSet,
)
    ensures
        industry_views(alist_store(entries, k, v)) == alist_store(industry_views(entries), k, v@),
    decreases entries.len(),
{
    if entries.len() == 0 {
        assert(industry_views(alist_store(entries, k, v)) =~= alist_store(
            industry_views(entries),
            k,
            v@,
        ));
    } else if entries[0].0 == k {
        assert(industry_views(entries)[0] == (entries[0].0, entries[0].1@));
        assert(industry_views(alist_store(entries, k, v)) =~= alist_store(
            industry_views(entries),
            k,
            v@,
        ));
    } else {
        lemma_industry_store_views(entries.drop_first(), k, v);
        assert(industry_views(entries)[0] == (entries[0].0, entries[0].1@));
        assert(industry_views(entries).drop_first() =~= industry_views(entries.drop_first()));
        assert(industry_views(alist_store(entries, k, v)) =~= seq![
            (entries[0].0, entries[0].1@),
        ] + industry_views(alist_store(entries.drop_first(), k, v)));
        assert(alist_store(industry_views(entries), k, v@) =~= seq![
            (entries[0].0, entries[0].1@),
        ] + alist_store(industry_views(entries.drop_first()), k, v@));
    }
}

// ---------------------------------------------------------------------------
// Job-side keyword extraction
// ---------------------------------------------------------------------------
/// Records each industry keyword that occurs in the text (as a
/// case-insensitive substring) with its occurrence count plus one, so that
/// an industry term counts as important even at low frequency.
pub open spec fn boost_with_set(
    m: Seq<(Seq<char>, usize)>,
    text: Seq<char>,
    kws: Seq<Seq<char>>,
) -> Seq<(Seq<char>, usize)>
    decreases kws.len(),
{
    if kws.len() == 0 {
        m
    } else {
        let prev = boost_with_set(m, text, kws.drop_last());
        let kw = lower(kws.last());
        if kw.len() >= 1 && count_from(lower(text), kw, 0) > 0 {
            alist_store(prev, kws.last(), (count_from(lower(text), kw, 0) + 1) as usize)
        } else {
            prev
        }
    }
}

/// The boost applied for every industry, in registration order.
pub open spec fn boost_industries(
    m: Seq<(Seq<char>, usize)>,
    text: Seq<char>,
    inds: Seq<(Seq<char>, Seq<Seq<char>>)>,
) -> Seq<(Seq<char>, usize)>
    decreases inds.len(),
{
    if inds.len() == 0 {
        m
    } else {
        boost_with_set(boost_industries(m, text, inds.drop_last()), text, inds.last().1)
    }
}

/// The job-description keyword weights: the plain keyword counts of the
/// text, with every configured industry keyword found in the text boosted
/// to its occurrence count plus one.
pub open spec fn spec_job_keywords(
    inds: Seq<(Seq<char>, Seq<Seq<char>>)>,
    text: Seq<char>,
) -> Seq<(Seq<char>, usize)> {
    boost_industries(spec_text_keywords(text), text, inds)
}

// ---------------------------------------------------------------------------
// The four keyword lists and the score
// ---------------------------------------------------------------------------
/// Every job keyword that the résumé mentions, with the résumé's count.
pub open spec fn spec_matching(
    jobs: Seq<(Seq<char>, usize)>,
    res: Seq<(Seq<char>, usize)>,
) -> Seq<(Seq<char>, usize)>
    decreases jobs.len(),
{
    if jobs.len() == 0 {
        Seq::empty()
    } else {
        spec_matching(jobs.drop_last(), res) + (match alist_lookup(res, jobs.last().0) {
            Some(c) => seq![(jobs.last().0, c)],
            None => Seq::empty(),
        })
    }
}

/// Every job keyword of importance above one that the résumé does not
/// mention; a keyword of importance one is never missing.
pub open spec fn spec_missing(
    jobs: Seq<(Seq<char>, usize)>,
    res: Seq<(Seq<char>, usize)>,
) -> Seq<Seq<char>>
    decreases jobs.len(),
{
    if jobs.len() == 0 {
        Seq::empty()
    } else {
        spec_missing(jobs.drop_last(), res) + (if jobs.last().1 > 1 && !alist_has(
            res,
            jobs.last().0,
        ) {
            seq![jobs.last().0]
        } else {
            Seq::empty()
        })
    }
}

/// Every résumé keyword used more than four times, independent of the job
/// description.
pub open spec fn spec_overused(res: Seq<(Seq<char>, usize)>) -> Seq<Seq<char>>
    decreases res.len(),
{
    if res.len() == 0 {
        Seq::empty()
    } else {
        spec_overused(res.drop_last()) + (if res.last().1 > 4 {
            seq![res.last().0]
        } else {
            Seq::empty()
        })
    }
}

/// Number of job keywords with importance above one.
pub open spec fn count_important(jobs: Seq<(Seq<char>, usize)>) -> int
    decreases jobs.len(),
{
    if jobs.len() == 0 {
        0
    } else {
        count_important(jobs.drop_last()) + if jobs.last().1 > 1 {
            1int
        } else {
            0int
        }
    }
}

/// Number of important job keywords the résumé mentions.
pub open spec fn count_matched_important(
    jobs: Seq<(Seq<char>, usize)>,
    res: Seq<(Seq<char>, usize)>,
) -> int
    decreases jobs.len(),
{
    if jobs.len() == 0 {
        0
    } else {
        count_matched_important(jobs.drop_last(), res) + if jobs.last().1 > 1 && alist_has(
            res,
            jobs.last().0,
        ) {
            1int
        } else {
            0int
        }
    }
}

/// The coverage score: the share of important job keywords the résumé
/// mentions, as a whole percentage; zero when nothing is important.
pub open spec fn spec_score(jobs: Seq<(Seq<char>, usize)>, res: Seq<(Seq<char>, usize)>) -> int {
    let total = count_important(jobs);
    if total > 0 {
        count_matched_important(jobs, res) * 100 / total
    } else {
        0
    }
}

/// The industry boost never repeats a key.
proof fn lemma_boost_set_distinct(
    m: Seq<(Seq<char>, usize)>,
    text: Seq<char>,
    kws: Seq<Seq<char>>,
)
    requires
        crate::collections::alist_distinct(m),
    ensures
        crate::collections::alist_distinct(boost_with_set(m, text, kws)),
    decreases kws.len(),
{
    if kws.len() > 0 {
        lemma_boost_set_distinct(m, text, kws.drop_last());
        let prev = boost_with_set(m, text, kws.drop_last());
        let kw = lower(kws.last());
        if kw.len() >= 1 && count_from(lower(text), kw, 0) > 0 {
            crate::collections::lemma_store_distinct(
                prev,
                kws.last(),
                (count_from(lower(text), kw, 0) + 1) as usize,
            );
        }
    }
}

/// The job keyword table has pairwise distinct keys, so each keyword has
/// one well-defined importance.
pub proof fn lemma_job_keywords_distinct(
    inds: Seq<(Seq<char>, Seq<Seq<char>>)>,
    text: Seq<char>,
)
    ensures
        crate::collections::alist_distinct(spec_job_keywords(inds, text)),
    decreases inds.len(),
{
    if inds.len() == 0 {
        crate::model::lemma_count_tokens_distinct(
            crate::text::spec_tokens(lower(text)),
        );
    } else {
        lemma_job_keywords_distinct(inds.drop_last(), text);
        assert(spec_job_keywords(inds.drop_last(), text) == boost_industries(
            spec_text_keywords(text),
            text,
            inds.drop_last(),
        ));
        lemma_boost_set_distinct(
            boost_industries(spec_text_keywords(text), text, inds.drop_last()),
            text,
            inds.last().1,
        );
    }
}

/// Every missing keyword stands in the job table with importance above
/// one.
proof fn lemma_missing_importance(jobs: Seq<(Seq<char>, usize)>, res: Seq<(Seq<char>, usize)>)
    ensures
        forall|i: int|
            0 <= i < spec_missing(jobs, res).len() ==> exists|j: int|
                0 <= j < jobs.len() && jobs[j].0 == #[trigger] spec_missing(jobs, res)[i]
                    && jobs[j].1 > 1 && !alist_has(res, jobs[j].0),
    decreases jobs.len(),
{
    if jobs.len() > 0 {
        lemma_missing_importance(jobs.drop_last(), res);
        let prev = spec_missing(jobs.drop_last(), res);
        assert forall|i: int| 0 <= i < spec_missing(jobs, res).len() implies exists|j: int|
            0 <= j < jobs.len() && jobs[j].0 == #[trigger] spec_missing(jobs, res)[i] && jobs[j].1
                > 1 && !alist_has(res, jobs[j].0) by {
            if i < prev.len() {
                assert(spec_missing(jobs, res)[i] == prev[i]);
                let j0 = choose|j: int|
                    0 <= j < jobs.drop_last().len() && jobs.drop_last()[j].0 == prev[i]
                        && jobs.drop_last()[j].1 > 1 && !alist_has(res, jobs.drop_last()[j].0);
                assert(jobs[j0] == jobs.drop_last()[j0]);
            } else {
                assert(spec_missing(jobs, res)[i] == jobs.last().0);
                assert(jobs[jobs.len() - 1] == jobs.last());
            }
        }
    }
}

/// Collects the job keywords the résumé mentions, with the résumé counts.
fn compute_matching(jobs: &StrMap<usize>, res: &StrMap<usize>) -> (r: StrMap<usize>)
    ensures
        r@ == spec_matching(jobs@, res@),
{
    let mut m: StrMap<usize> = StrMap::new();
    let mut i: usize = 0;
    while i < jobs.len()
        invariant
            i <= jobs@.len(),
            m@ == spec_matching(jobs@.take(i as int), res@),
        decreases jobs@.len() - i,
    {
        let key = jobs.key_at(i);
        proof {
            assert(jobs@.take(i + 1).drop_last() =~= jobs@.take(i as int));
            assert(jobs@.take(i + 1).last() == jobs@[i as int]);
        }
        match res.get(key.as_str()) {
            Some(c) => {
                let count = *c;
                let owned = key.clone();
                m.append_entry(owned, count);
            },
            None => {},
        }
        i = i + 1;
        proof {
            assert(m@ =~= spec_matching(jobs@.take(i as int), res@));
        }
    }
    proof {
        assert(jobs@.take(jobs@.len() as int) =~= jobs@);
    }
    m
}

/// Collects the important job keywords absent from the résumé.
fn compute_missing(jobs: &StrMap<usize>, res: &StrMap<usize>) -> (r: Vec<String>)
    ensures
        views_of_strings(r@) == spec_missing(jobs@, res@),
{
    let mut out: Vec<String> = Vec::new();
    let mut i: usize = 0;
    while i < jobs.len()
        invariant
            i <= jobs@.len(),
            views_of_strings(out@) == spec_missing(jobs@.take(i as int), res@),
        decreases jobs@.len() - i,
    {
        let key = jobs.key_at(i);
        let v = *jobs.val_at(i);
        proof {
            assert(jobs@.take(i + 1).drop_last() =~= jobs@.take(i as int));
            assert(jobs@.take(i + 1).last() == jobs@[i as int]);
        }
        if v > 1 && !res.contains_key(key.as_str()) {
            let ghost pre = out@;
            out.push(key.clone());
            proof {
                assert(views_of_strings(out@) =~= views_of_strings(pre).push(
                    jobs@[i as int].0,
                ));
            }
        }
        i = i + 1;
        proof {
            assert(views_of_strings(out@) =~= spec_missing(jobs@.take(i as int), res@));
        }
    }
    proof {
        assert(jobs@.take(jobs@.len() as int) =~= jobs@);
    }
    out
}

/// Collects the résumé keywords used more than four times.
fn compute_overused(res: &StrMap<usize>) -> (r: Vec<String>)
    ensures
        views_of_strings(r@) == spec_overused(res@),
{
    let mut out: Vec<String> = Vec::new();
    let mut i: usize = 0;
    while i < res.len()
        invariant
            i <= res@.len(),
            views_of_strings(out@) == spec_overused(res@.take(i as int)),
        decreases res@.len() - i,
    {
        let key = res.key_at(i);
        let v = *res.val_at(i);
        proof {
            assert(res@.take(i + 1).drop_last() =~= res@.take(i as int));
            assert(res@.take(i + 1).last() == res@[i as int]);
        }
        if v > 4 {
            let ghost pre = out@;
            out.push(key.clone());
            proof {
                assert(views_of_strings(out@) =~= views_of_strings(pre).push(res@[i as int].0));
            }
        }
        i = i + 1;
        proof {
            assert(views_of_strings(out@) =~= spec_overused(res@.take(i as int)));
        }
    }
    proof {
        assert(res@.take(res@.len() as int) =~= res@);
    }
    out
}

/// Computes the coverage score; it always lies between 0 and 100.
fn compute_score(jobs: &StrMap<usize>, res: &StrMap<usize>) -> (r: u8)
    ensures
        r as int == spec_score(jobs@, res@),
        r <= 100,
{
    let mut total: usize = 0;
    let mut matched: usize = 0;
    let mut i: usize = 0;
    while i < jobs.len()
        invariant
            i <= jobs@.len(),
            total == count_important(jobs@.take(i as int)),
            matched == count_matched_important(jobs@.take(i as int), res@),
            matched <= total <= i,
        decreases jobs@.len() - i,
    {
        let key = jobs.key_at(i);
        let v = *jobs.val_at(i);
        proof {
            assert(jobs@.take(i + 1).drop_last() =~= jobs@.take(i as int));
            assert(jobs@.take(i + 1).last() == jobs@[i as int]);
        }
        if v > 1 {
            total = total + 1;
            if res.contains_key(key.as_str()) {
                matched = matched + 1;
            }
        }
        i = i + 1;
    }
    proof {
        assert(jobs@.take(jobs@.len() as int) =~= jobs@);
    }
    if total > 0 {
        let wide: u128 = (matched as u128) * 100 / (total as u128);
        proof {
            let m = matched as int;
            let t = total as int;
            assert(m * 100 / t <= 100) by (nonlinear_arith)
                requires
                    0 <= m <= t,
                    0 < t,
            ;
            assert(wide == m * 100 / t);
        }
        wide as u8
    } else {
        0
    }
}

// ---------------------------------------------------------------------------
// Suggestions and section analyses
// ---------------------------------------------------------------------------
/// Some experience description contains some term of the list, all
/// case-insensitively.
pub open spec fn spec_any_desc_contains(exps: Seq<crate::model::Experience>, terms: Seq<
    Seq<char>,
>) -> bool {
    exists|i: int, j: int|
        0 <= i < exps.len() && 0 <= j < terms.len() && contains_sub(
            lower(exps[i].description@),
            lower(terms[j]),
        )
}

/// The free-text suggestions, in their fixed order: summary presence and
/// length, phone, LinkedIn, weak phrases, action verbs.
pub open spec fn spec_suggestions(
    r: Resume,
    weak: Seq<Seq<char>>,
    verbs: Seq<Seq<char>>,
) -> Seq<Seq<char>> {
    (if r.profile.summary@.len() == 0 {
        seq!["Add a professional summary to highlight your qualifications"@]
    } else if crate::text::word_count(r.profile.summary@) < 20 {
        seq!["Expand your professional summary to better highlight your experience"@]
    } else {
        Seq::empty()
    }) + (if r.profile.phone@.len() == 0 {
        seq!["Add your phone number to contact information"@]
    } else {
        Seq::empty()
    }) + (if r.profile.linkedin@.len() == 0 {
        seq!["Add your LinkedIn profile to contact information"@]
    } else {
        Seq::empty()
    }) + (if spec_any_desc_contains(r.experiences@, weak) {
        seq!["Replace passive or weak phrases with strong action verbs"@]
    } else {
        Seq::empty()
    }) + (if !spec_any_desc_contains(r.experiences@, verbs) {
        seq!["Use more action verbs to describe your accomplishments"@]
    } else {
        Seq::empty()
    })
}

/// An experience entry mentions the (lower-cased) keyword in its
/// description, title or technology list.
pub open spec fn spec_mentions(e: crate::model::Experience, lkw: Seq<char>) -> bool {
    contains_sub(lower(e.description@), lkw) || contains_sub(lower(e.title@), lkw) || exists|
        t: int,
    |
        0 <= t < e.technologies@.len() && contains_sub(lower(e.technologies@[t]@), lkw)
}

/// Some experience entry mentions the keyword.
pub open spec fn spec_any_mentions(exps: Seq<crate::model::Experience>, lkw: Seq<char>) -> bool {
    exists|i: int| 0 <= i < exps.len() && spec_mentions(exps[i], lkw)
}

/// The important job keywords that no experience entry mentions.
pub open spec fn spec_missing_in_experience(
    jobs: Seq<(Seq<char>, usize)>,
    exps: Seq<crate::model::Experience>,
) -> Seq<Seq<char>>
    decreases jobs.len(),
{
    if jobs.len() == 0 {
        Seq::empty()
    } else {
        spec_missing_in_experience(jobs.drop_last(), exps) + (if jobs.last().1 > 1
            && !spec_any_mentions(exps, lower(jobs.last().0)) {
            seq![jobs.last().0]
        } else {
            Seq::empty()
        })
    }
}

/// Some experience entry lists achievements.
pub open spec fn spec_has_achievements(exps: Seq<crate::model::Experience>) -> bool {
    exists|i: int| 0 <= i < exps.len() && exps[i].achievements@.len() > 0
}

/// The improvement notes for the experience section: quantifiable
/// achievements, and up to five missing keywords by name, more than five
/// as a summary line.
pub open spec fn spec_experience_improvements(
    jobs: Seq<(Seq<char>, usize)>,
    exps: Seq<crate::model::Experience>,
) -> Seq<Seq<char>> {
    let miss = spec_missing_in_experience(jobs, exps);
    (if !spec_has_achievements(exps) {
        seq!["Add quantifiable achievements to your work experience"@]
    } else {
        Seq::empty()
    }) + (if miss.len() > 0 && miss.len() <= 5 {
        seq![
            "Consider incorporating these keywords into your experience section: "@
                + crate::text::join_sep(miss, ", "@),
        ]
    } else if miss.len() > 5 {
        seq![
            "Many important keywords from the job description are missing from your experience section"@,
        ]
    } else {
        Seq::empty()
    })
}

/// Some skill name of the list contains the (lower-cased) keyword.
pub open spec fn spec_skill_name_covers(list: Seq<crate::model::Skill>, lkw: Seq<char>) -> bool {
    exists|i: int| 0 <= i < list.len() && contains_sub(lower(list[i].name@), lkw)
}

/// Some technical, soft, tool or other skill name contains the keyword.
pub open spec fn spec_skill_covers(sk: crate::model::Skills, lkw: Seq<char>) -> bool {
    spec_skill_name_covers(sk.technical@, lkw) || spec_skill_name_covers(sk.soft@, lkw)
        || spec_skill_name_covers(sk.tools@, lkw) || spec_skill_name_covers(sk.other@, lkw)
}

/// The important job keywords no skill name covers.
pub open spec fn spec_missing_skills(
    jobs: Seq<(Seq<char>, usize)>,
    sk: crate::model::Skills,
) -> Seq<Seq<char>>
    decreases jobs.len(),
{
    if jobs.len() == 0 {
        Seq::empty()
    } else {
        spec_missing_skills(jobs.drop_last(), sk) + (if jobs.last().1 > 1 && !spec_skill_covers(
            sk,
            lower(jobs.last().0),
        ) {
            seq![jobs.last().0]
        } else {
            Seq::empty()
        })
    }
}

/// The improvement notes for the skills section: categorization, and up to
/// five missing skills by name, more than five as a summary line.
pub open spec fn spec_skills_improvements(
    jobs: Seq<(Seq<char>, usize)>,
    sk: crate::model::Skills,
) -> Seq<Seq<char>> {
    let miss = spec_missing_skills(jobs, sk);
    (if sk.technical@.len() == 0 && sk.other@.len() > 0 {
        seq!["Organize your skills into categories (technical, soft, tools, etc.)"@]
    } else {
        Seq::empty()
    }) + (if miss.len() > 0 && miss.len() <= 5 {
        seq![
            "Consider adding these skills if you have them: "@ + crate::text::join_sep(
                miss,
                ", "@,
            ),
        ]
    } else if miss.len() > 5 {
        seq![
            "Many important skills from the job description are missing from your skills section"@,
        ]
    } else {
        Seq::empty()
    })
}

/// The views of the per-section improvement map.
pub open spec fn section_views(entries: Seq<(Seq<char>, Vec<String>)>) -> Seq<
    (Seq<char>, Seq<Seq<char>>),
> {
    entries.map_values(|p: (Seq<char>, Vec<String>)| (p.0, views_of_strings(p.1@)))
}

/// The whole per-section improvement map: the experience notes under
/// `Experience`, the skills notes under `Skills`, each only when
/// non-empty.
pub open spec fn spec_section_improvements(jobs: Seq<(Seq<char>, usize)>, r: Resume) -> Seq<
    (Seq<char>, Seq<Seq<char>>),
> {
    let ei = spec_experience_improvements(jobs, r.experiences@);
    let si = spec_skills_improvements(jobs, r.skills);
    let m1: Seq<(Seq<char>, Seq<Seq<char>>)> = if ei.len() > 0 {
        alist_store(Seq::empty(), "Experience"@, ei)
    } else {
        Seq::empty()
    };
    if si.len() > 0 {
        alist_store(m1, "Skills"@, si)
    } else {
        m1
    }
}

/// Storing an improvement list stores its views.
proof fn lemma_section_store_views(
    entries: Seq<(Seq<char>, Vec<String>)>,
    k: Seq<char>,
    v: Vec<String>,
)
    ensures
        section_views(alist_store(entries, k, v)) == alist_store(
            section_views(entries),
            k,
            views_of_strings(v@),
        ),
    decreases entries.len(),
{
    if entries.len() == 0 {
        assert(section_views(alist_store(entries, k, v)) =~= alist_store(
            section_views(entries),
            k,
            views_of_strings(v@),
        ));
    } else if entries[0].0 == k {
        assert(section_views(entries)[0] == (entries[0].0, views_of_strings(entries[0].1@)));
        assert(section_views(alist_store(entries, k, v)) =~= alist_store(
            section_views(entries),
            k,
            views_of_strings(v@),
        ));
    } else {
        lemma_section_store_views(entries.drop_first(), k, v);
        assert(section_views(entries)[0] == (entries[0].0, views_of_strings(entries[0].1@)));
        assert(section_views(entries).drop_first() =~= section_views(entries.drop_first()));
        assert(section_views(alist_store(entries, k, v)) =~= seq![
            (entries[0].0, views_of_strings(entries[0].1@)),
        ] + section_views(alist_store(entries.drop_first(), k, v)));
        assert(alist_store(section_views(entries), k, views_of_strings(v@)) =~= seq![
            (entries[0].0, views_of_strings(entries[0].1@)),
        ] + alist_store(section_views(entries.drop_first()), k, views_of_strings(v@)));
    }
}

/// The text contains some term of the set, after case folding the term.
fn text_contains_any_term(d: &Vec<char>, terms: &StrSet) -> (r: bool)
    ensures
        r == exists|j: int| 0 <= j < terms@.len() && contains_sub(d@, lower(terms@[j])),
{
    let mut j: usize = 0;
    while j < terms.len()
        invariant
            j <= terms@.len(),
            forall|j2: int| 0 <= j2 < j ==> !contains_sub(d@, lower(terms@[j2])),
        decreases terms@.len() - j,
    {
        let tc = chars_vec(terms.at(j).as_str());
        let lt = lower_vec(&tc);
        if crate::text::contains_sub_any(d, &lt) {
            return true;
        }
        j = j + 1;
    }
    false
}

/// Some experience description contains some term of the set.
fn any_description_contains(exps: &Vec<crate::model::Experience>, terms: &StrSet) -> (r: bool)
    ensures
        r == spec_any_desc_contains(exps@, terms@),
{
    let mut i: usize = 0;
    while i < exps.len()
        invariant
            i <= exps@.len(),
            forall|i2: int, j2: int|
                0 <= i2 < i && 0 <= j2 < terms@.len() ==> !contains_sub(
                    lower(exps@[i2].description@),
                    lower(terms@[j2]),
                ),
        decreases exps@.len() - i,
    {
        let dc = chars_vec(exps[i].description.as_str());
        let d = lower_vec(&dc);
        if text_contains_any_term(&d, terms) {
            proof {
                let j0 = choose|j: int|
                    0 <= j < terms@.len() && contains_sub(d@, lower(terms@[j]));
                assert(contains_sub(lower(exps@[i as int].description@), lower(terms@[j0])));
            }
            return true;
        }
        i = i + 1;
    }
    false
}

/// The entry mentions the lower-cased keyword.
fn mentions_keyword(e: &crate::model::Experience, lk: &Vec<char>) -> (r: bool)
    ensures
        r == spec_mentions(*e, lk@),
{
    let dc = chars_vec(e.description.as_str());
    let d = lower_vec(&dc);
    if crate::text::contains_sub_any(&d, lk) {
        return true;
    }
    let tc = chars_vec(e.title.as_str());
    let t = lower_vec(&tc);
    if crate::text::contains_sub_any(&t, lk) {
        return true;
    }
    let mut j: usize = 0;
    while j < e.technologies.len()
        invariant
            j <= e.technologies@.len(),
            forall|j2: int|
                0 <= j2 < j ==> !contains_sub(lower(e.technologies@[j2]@), lk@),
        decreases e.technologies@.len() - j,
    {
        let hc = chars_vec(e.technologies[j].as_str());
        let h = lower_vec(&hc);
        if crate::text::contains_sub_any(&h, lk) {
            return true;
        }
        j = j + 1;
    }
    false
}

/// Some entry mentions the lower-cased keyword.
fn any_exp_mentions(exps: &Vec<crate::model::Experience>, lk: &Vec<char>) -> (r: bool)
    ensures
        r == spec_any_mentions(exps@, lk@),
{
    let mut i: usize = 0;
    while i < exps.len()
        invariant
            i <= exps@.len(),
            forall|i2: int| 0 <= i2 < i ==> !spec_mentions(exps@[i2], lk@),
        decreases exps@.len() - i,
    {
        if mentions_keyword(&exps[i], lk) {
            return true;
        }
        i = i + 1;
    }
    false
}

/// Some entry lists achievements.
fn has_achievements(exps: &Vec<crate::model::Experience>) -> (r: bool)
    ensures
        r == spec_has_achievements(exps@),
{
    let mut i: usize = 0;
    while i < exps.len()
        invariant
            i <= exps@.len(),
            forall|i2: int| 0 <= i2 < i ==> exps@[i2].achievements@.len() == 0,
        decreases exps@.len() - i,
    {
        if exps[i].achievements.len() > 0 {
            return true;
        }
        i = i + 1;
    }
    false
}

/// Collects the important job keywords no experience entry mentions.
fn missing_in_experience(jobs: &StrMap<usize>, exps: &Vec<crate::model::Experience>) -> (r: Vec<
    String,
>)
    ensures
        views_of_strings(r@) == spec_missing_in_experience(jobs@, exps@),
{
    let mut out: Vec<String> = Vec::new();
    let mut i: usize = 0;
    while i < jobs.len()
        invariant
            i <= jobs@.len(),
            views_of_strings(out@) == spec_missing_in_experience(jobs@.take(i as int), exps@),
        decreases jobs@.len() - i,
    {
        let key = jobs.key_at(i);
        let v = *jobs.val_at(i);
        proof {
            assert(jobs@.take(i + 1).drop_last() =~= jobs@.take(i as int));
            assert(jobs@.take(i + 1).last() == jobs@[i as int]);
        }
        if v > 1 {
            let kc = chars_vec(key.as_str());
            let lk = lower_vec(&kc);
            if !any_exp_mentions(exps, &lk) {
                let ghost pre = out@;
                out.push(key.clone());
                proof {
                    assert(views_of_strings(out@) =~= views_of_strings(pre).push(
                        jobs@[i as int].0,
                    ));
                }
            }
        }
        i = i + 1;
        proof {
            assert(views_of_strings(out@) =~= spec_missing_in_experience(
                jobs@.take(i as int),
                exps@,
            ));
        }
    }
    proof {
        assert(jobs@.take(jobs@.len() as int) =~= jobs@);
    }
    out
}

/// Some name of the list contains the lower-cased keyword.
fn skill_list_covers(list: &Vec<crate::model::Skill>, lk: &Vec<char>) -> (r: bool)
    ensures
        r == spec_skill_name_covers(list@, lk@),
{
    let mut i: usize = 0;
    while i < list.len()
        invariant
            i <= list@.len(),
            forall|i2: int| 0 <= i2 < i ==> !contains_sub(lower(list@[i2].name@), lk@),
        decreases list@.len() - i,
    {
        let nc = chars_vec(list[i].name.as_str());
        let n = lower_vec(&nc);
        if crate::text::contains_sub_any(&n, lk) {
            return true;
        }
        i = i + 1;
    }
    false
}

/// Collects the important job keywords no skill name covers.
fn missing_skills(jobs: &StrMap<usize>, sk: &crate::model::Skills) -> (r: Vec<String>)
    ensures
        views_of_strings(r@) == spec_missing_skills(jobs@, *sk),
{
    let mut out: Vec<String> = Vec::new();
    let mut i: usize = 0;
    while i < jobs.len()
        invariant
            i <= jobs@.len(),
            views_of_strings(out@) == spec_missing_skills(jobs@.take(i as int), *sk),
        decreases jobs@.len() - i,
    {
        let key = jobs.key_at(i);
        let v = *jobs.val_at(i);
        proof {
            assert(jobs@.take(i + 1).drop_last() =~= jobs@.take(i as int));
            assert(jobs@.take(i + 1).last() == jobs@[i as int]);
        }
        if v > 1 {
            let kc = chars_vec(key.as_str());
            let lk = lower_vec(&kc);
            let covered = skill_list_covers(&sk.technical, &lk) || skill_list_covers(
                &sk.soft,
                &lk,
            ) || skill_list_covers(&sk.tools, &lk) || skill_list_covers(&sk.other, &lk);
            if !covered {
                let ghost pre = out@;
                out.push(key.clone());
                proof {
                    assert(views_of_strings(out@) =~= views_of_strings(pre).push(
                        jobs@[i as int].0,
                    ));
                }
            }
        }
        i = i + 1;
        proof {
            assert(views_of_strings(out@) =~= spec_missing_skills(jobs@.take(i as int), *sk));
        }
    }
    proof {
        assert(jobs@.take(jobs@.len() as int) =~= jobs@);
    }
    out
}

impl Default for ResumeOptimizer {
    /// The engine with its built-in dictionaries, as [`ResumeOptimizer::new`].
    fn default() -> (r: ResumeOptimizer)
        ensures
            industry_views(r.industry_keywords@) == seq![
                ("software development"@, software_keywords()),
            ],
            r.action_verbs@ == default_action_verbs(),
            r.weak_terms@ == default_weak_terms(),
    {
        ResumeOptimizer::new()
    }
}

impl ResumeOptimizer {
    /// An engine with the built-in industry keywords, action verbs and
    /// weak phrases loaded.
    pub fn new() -> (r: ResumeOptimizer)
        ensures
            industry_views(r.industry_keywords@) == seq![
                ("software development"@, software_keywords()),
            ],
            r.action_verbs@ == default_action_verbs(),
            r.weak_terms@ == default_weak_terms(),
    {
        let mut optimizer = ResumeOptimizer {
            industry_keywords: StrMap::new(),
            action_verbs: StrSet::new(),
            weak_terms: StrSet::new(),
        };
        optimizer.load_industry_keywords();
        optimizer
    }

    /// Loads the built-in dictionaries into an empty engine.
    fn load_industry_keywords(&mut self)
        requires
            old(self).industry_keywords@ == Seq::<(Seq<char>, StrSet)>::empty(),
        ensures
            industry_views(final(self).industry_keywords@) == seq![
                ("software development"@, software_keywords()),
            ],
            final(self).action_verbs@ == default_action_verbs(),
            final(self).weak_terms@ == default_weak_terms(),
    {
        let loaded = self.load_keywords_for_industry("software development");
        match loaded {
            Ok(_) => {},
            Err(_) => {},
        }
        proof {
            reveal_strlit("software development");
            reveal_strlit("software");
            assert(lower("software development"@).subrange(0, 8) =~= "software"@);
            assert(crate::text::matches_at(lower("software development"@), "software"@, 0));
            assert(industry_matches("software development"@));
            assert(alist_store(
                Seq::<(Seq<char>, Seq<Seq<char>>)>::empty(),
                "software development"@,
                software_keywords(),
            ) =~= seq![("software development"@, software_keywords())]);
        }
        self.load_default_keywords();
    }

    /// Registers the keyword set for an industry the engine knows; an
    /// unknown industry is refused with an error naming it.
    pub fn load_keywords_for_industry(&mut self, industry: &str) -> (r: Result<(), String>)
        ensures
            r is Ok <==> industry_matches(industry@),
            final(self).action_verbs@ == old(self).action_verbs@,
            final(self).weak_terms@ == old(self).weak_terms@,
            match r {
                Ok(_) => industry_views(final(self).industry_keywords@) == alist_store(
                    industry_views(old(self).industry_keywords@),
                    industry@,
                    software_keywords(),
                ),
                Err(m) => final(self).industry_keywords@ == old(self).industry_keywords@ && m@
                    == "No keywords found for industry: "@ + industry@,
            },
    {
        let industry_chars = chars_vec(industry);
        let lowered = lower_vec(&industry_chars);
        proof {
            reveal_strlit("software");
            reveal_strlit("developer");
            reveal_strlit("engineering");
        }
        let known = crate::text::contains_sub_exec(&lowered, &chars_vec("software"))
            || crate::text::contains_sub_exec(&lowered, &chars_vec("developer"))
            || crate::text::contains_sub_exec(&lowered, &chars_vec("engineering"));
        if known {
            let mut set = StrSet::new();
            set.push("python".to_owned());
            set.push("javascript".to_owned());
            set.push("typescript".to_owned());
            set.push("rust".to_owned());
            set.push("java".to_owned());
            set.push("c++".to_owned());
            set.push("react".to_owned());
            set.push("node.js".to_owned());
            set.push("docker".to_owned());
            set.push("kubernetes".to_owned());
            set.push("ci/cd".to_owned());
            set.push("aws".to_owned());
            set.push("azure".to_owned());
            set.push("gcp".to_owned());
            set.push("microservices".to_owned());
            set.push("rest api".to_owned());
            set.push("git".to_owned());
            set.push("agile".to_owned());
            set.push("scrum".to_owned());
            set.push("devops".to_owned());
            set.push("test-driven development".to_owned());
            set.push("distributed systems".to_owned());
            set.push("database".to_owned());
            set.push("sql".to_owned());
            set.push("nosql".to_owned());
            set.push("mongodb".to_owned());
            set.push("postgresql".to_owned());
            set.push("full-stack".to_owned());
            set.push("backend".to_owned());
            set.push("frontend".to_owned());
            set.push("mobile".to_owned());
            set.push("machine learning".to_owned());
            set.push("data science".to_owned());
            set.push("algorithms".to_owned());
            set.push("system design".to_owned());
            proof {
                assert(set@ =~= software_keywords());
            }
            let ghost pre = self.industry_keywords@;
            let ghost stored = set;
            self.industry_keywords.insert(industry.to_owned(), set);
            proof {
                assert(self.industry_keywords@ == alist_store(pre, industry@, stored));
                lemma_industry_store_views(pre, industry@, stored);
            }
            Ok(())
        } else {
            let mut m: Vec<char> = Vec::new();
            push_str(&mut m, "No keywords found for industry: ");
            push_str(&mut m, industry);
            proof {
                assert(m@ =~= "No keywords found for industry: "@ + industry@);
            }
            Err(string_from_chars(&m))
        }
    }

    /// Fills the action-verb and weak-phrase dictionaries.
    pub fn load_default_keywords(&mut self)
        ensures
            final(self).industry_keywords@ == old(self).industry_keywords@,
            final(self).action_verbs@ == default_action_verbs(),
            final(self).weak_terms@ == default_weak_terms(),
    {
        let mut verbs = StrSet::new();
        verbs.push("achieved".to_owned());
        verbs.push("improved".to_owned());
        verbs.push("solved".to_owned());
        verbs.push("delivered".to_owned());
        verbs.push("created".to_owned());
        verbs.push("implemented".to_owned());
        verbs.push("developed".to_owned());
        verbs.push("designed".to_owned());
        verbs.push("launched".to_owned());
        verbs.push("managed".to_owned());
        verbs.push("led".to_owned());
        verbs.push("coordinated".to_owned());
        verbs.push("increased".to_owned());
        verbs.push("decreased".to_owned());
        verbs.push("reduced".to_owned());
        verbs.push("optimized".to_owned());
        verbs.push("negotiated".to_owned());
        verbs.push("trained".to_owned());
        verbs.push("mentored".to_owned());
        verbs.push("supervised".to_owned());
        verbs.push("analyzed".to_owned());
        verbs.push("researched".to_owned());
        verbs.push("integrated".to_owned());
        verbs.push("authored".to_owned());
        proof {
            assert(verbs@ =~= default_action_verbs());
        }
        self.action_verbs = verbs;
        let mut weak = StrSet::new();
        weak.push("responsible for".to_owned());
        weak.push("duties included".to_owned());
        weak.push("worked on".to_owned());
        weak.push("helped with".to_owned());
        weak.push("assisted".to_owned());
        weak.push("was tasked with".to_owned());
        weak.push("participated in".to_owned());
        weak.push("familiar with".to_owned());
        weak.push("exposure to".to_owned());
        weak.push("involved in".to_owned());
        weak.push("experience with".to_owned());
        weak.push("very".to_owned());
        weak.push("various".to_owned());
        weak.push("numerous".to_owned());
        weak.push("different".to_owned());
        weak.push("several".to_owned());
        weak.push("many".to_owned());
        weak.push("part of".to_owned());
        weak.push("things".to_owned());
        proof {
            assert(weak@ =~= default_weak_terms());
        }
        self.weak_terms = weak;
    }

    /// Extracts the job-side keyword weights of a text: its plain keyword
    /// counts, with every known industry keyword found in the text boosted
    /// to its occurrence count plus one.
    fn extract_keywords(&self, text: &Vec<char>) -> (r: StrMap<usize>)
        requires
            text@.len() < usize::MAX,
        ensures
            r@ == spec_job_keywords(industry_views(self.industry_keywords@), text@),
    {
        let mut m = crate::model::count_keywords_text(text);
        let lowered = lower_vec(text);
        let ghost inds = industry_views(self.industry_keywords@);
        proof {
            assert(inds.take(0) =~= Seq::<(Seq<char>, Seq<Seq<char>>)>::empty());
        }
        let n = self.industry_keywords.len();
        let mut i: usize = 0;
        while i < n
            invariant
                i <= n,
                n == self.industry_keywords@.len(),
                text@.len() < usize::MAX,
                lowered@ == lower(text@),
                inds == industry_views(self.industry_keywords@),
                m@ == boost_industries(spec_text_keywords(text@), text@, inds.take(i as int)),
            decreases n - i,
        {
            let set = self.industry_keywords.val_at(i);
            let ghost kws = inds[i as int].1;
            proof {
                assert(inds[i as int] == (
                    self.industry_keywords@[i as int].0,
                    self.industry_keywords@[i as int].1@,
                ));
                assert(kws == set@);
                assert(inds.take(i + 1).drop_last() =~= inds.take(i as int));
                assert(inds.take(i + 1).last() == inds[i as int]);
                assert(kws.take(0) =~= Seq::<Seq<char>>::empty());
            }
            let ghost base = m@;
            let sn = set.len();
            let mut j: usize = 0;
            while j < sn
                invariant
                    j <= sn,
                    sn == kws.len(),
                    kws == set@,
                    text@.len() < usize::MAX,
                    lowered@ == lower(text@),
                    m@ == boost_with_set(base, text@, kws.take(j as int)),
                decreases sn - j,
            {
                let kc = chars_vec(set.at(j).as_str());
                let lk = lower_vec(&kc);
                proof {
                    assert(kws.take(j + 1).drop_last() =~= kws.take(j as int));
                    assert(kws.take(j + 1).last() == kws[j as int]);
                }
                if lk.len() > 0 {
                    let c = count_sub(&lowered, &lk);
                    if c > 0 {
                        m.insert(set.at(j).clone(), c + 1);
                    }
                }
                j = j + 1;
                proof {
                    assert(m@ =~= boost_with_set(base, text@, kws.take(j as int)));
                }
            }
            proof {
                assert(kws.take(sn as int) =~= kws);
            }
            i = i + 1;
            proof {
                assert(m@ =~= boost_industries(
                    spec_text_keywords(text@),
                    text@,
                    inds.take(i as int),
                ));
            }
        }
        proof {
            assert(inds.take(inds.len() as int) =~= inds);
        }
        m
    }

    /// Appends the free-text suggestions about the summary, the contact
    /// fields and the tone of the experience descriptions; nothing else in
    /// the report changes.
    #[verifier::rlimit(100)]
    fn add_general_suggestions(&self, resume: &Resume, result: &mut OptimizationResult)
        ensures
            views_of_strings(final(result).suggestions@) == views_of_strings(
                old(result).suggestions@,
            ) + spec_suggestions(*resume, self.weak_terms@, self.action_verbs@),
            final(result).score == old(result).score,
            final(result).missing_keywords == old(result).missing_keywords,
            final(result).matching_keywords == old(result).matching_keywords,
            final(result).overused_keywords == old(result).overused_keywords,
            final(result).section_improvements == old(result).section_improvements,
    {
        broadcast use crate::text::lemma_seq_concat_assoc;

        if resume.profile.summary.as_str().is_empty() {
            let ghost pre = result.suggestions@;
            result.suggestions.push(
                "Add a professional summary to highlight your qualifications".to_owned(),
            );
            proof {
                assert(views_of_strings(result.suggestions@) =~= views_of_strings(pre).push(
                    "Add a professional summary to highlight your qualifications"@,
                ));
            }
        } else {
            let sc = chars_vec(resume.profile.summary.as_str());
            if crate::text::word_count_exec(&sc) < 20 {
                let ghost pre = result.suggestions@;
                result.suggestions.push(
                    "Expand your professional summary to better highlight your experience".to_owned(),
                );
                proof {
                    assert(views_of_strings(result.suggestions@) =~= views_of_strings(pre).push(
                        "Expand your professional summary to better highlight your experience"@,
                    ));
                }
            }
        }
        let ghost mut acc = views_of_strings(old(result).suggestions@) + (if resume.profile.summary@.len() == 0 {
            seq!["Add a professional summary to highlight your qualifications"@]
        } else if crate::text::word_count(resume.profile.summary@) < 20 {
            seq!["Expand your professional summary to better highlight your experience"@]
        } else {
            Seq::<Seq<char>>::empty()
        });
        proof {
            assert(views_of_strings(result.suggestions@) =~= acc);
        }
        if resume.profile.phone.as_str().is_empty() {
            let ghost pre = result.suggestions@;
            result.suggestions.push("Add your phone number to contact information".to_owned());
            proof {
                assert(views_of_strings(result.suggestions@) =~= views_of_strings(pre).push(
                    "Add your phone number to contact information"@,
                ));
            }
        }
        proof {
            acc = acc + (if resume.profile.phone@.len() == 0 {
                seq!["Add your phone number to contact information"@]
            } else {
                Seq::<Seq<char>>::empty()
            });
            assert(views_of_strings(result.suggestions@) =~= acc);
        }
        if resume.profile.linkedin.as_str().is_empty() {
            let ghost pre = result.suggestions@;
            result.suggestions.push(
                "Add your LinkedIn profile to contact information".to_owned(),
            );
            proof {
                assert(views_of_strings(result.suggestions@) =~= views_of_strings(pre).push(
                    "Add your LinkedIn profile to contact information"@,
                ));
            }
        }
        proof {
            acc = acc + (if resume.profile.linkedin@.len() == 0 {
                seq!["Add your LinkedIn profile to contact information"@]
            } else {
                Seq::<Seq<char>>::empty()
            });
            assert(views_of_strings(result.suggestions@) =~= acc);
        }
        let has_weak_terms = any_description_contains(&resume.experiences, &self.weak_terms);
        let has_action_verbs = any_description_contains(&resume.experiences, &self.action_verbs);
        if has_weak_terms {
            let ghost pre = result.suggestions@;
            result.suggestions.push(
                "Replace passive or weak phrases with strong action verbs".to_owned(),
            );
            proof {
                assert(views_of_strings(result.suggestions@) =~= views_of_strings(pre).push(
                    "Replace passive or weak phrases with strong action verbs"@,
                ));
            }
        }
        proof {
            acc = acc + (if spec_any_desc_contains(resume.experiences@, self.weak_terms@) {
                seq!["Replace passive or weak phrases with strong action verbs"@]
            } else {
                Seq::<Seq<char>>::empty()
            });
            assert(views_of_strings(result.suggestions@) =~= acc);
        }
        if !has_action_verbs {
            let ghost pre = result.suggestions@;
            result.suggestions.push(
                "Use more action verbs to describe your accomplishments".to_owned(),
            );
            proof {
                assert(views_of_strings(result.suggestions@) =~= views_of_strings(pre).push(
                    "Use more action verbs to describe your accomplishments"@,
                ));
            }
        }
        proof {
            acc = acc + (if !spec_any_desc_contains(resume.experiences@, self.action_verbs@) {
                seq!["Use more action verbs to describe your accomplishments"@]
            } else {
                Seq::<Seq<char>>::empty()
            });
            assert(views_of_strings(result.suggestions@) =~= acc);
            assert(views_of_strings(result.suggestions@) =~= views_of_strings(
                old(result).suggestions@,
            ) + spec_suggestions(*resume, self.weak_terms@, self.action_verbs@));
        }
    }

    /// Appends the experience-section notes under `Experience` when there
    /// are any; nothing else in the report changes.
    fn analyze_experience_section(
        &self,
        resume: &Resume,
        job_keywords: &StrMap<usize>,
        result: &mut OptimizationResult,
    )
        ensures
            section_views(final(result).section_improvements@) == (
            if spec_experience_improvements(job_keywords@, resume.experiences@).len() > 0 {
                alist_store(
                    section_views(old(result).section_improvements@),
                    "Experience"@,
                    spec_experience_improvements(job_keywords@, resume.experiences@),
                )
            } else {
                section_views(old(result).section_improvements@)
            }),
            final(result).score == old(result).score,
            final(result).missing_keywords == old(result).missing_keywords,
            final(result).matching_keywords == old(result).matching_keywords,
            final(result).overused_keywords == old(result).overused_keywords,
            final(result).suggestions == old(result).suggestions,
    {
        let mut improvements: Vec<String> = Vec::new();
        if !has_achievements(&resume.experiences) {
            improvements.push("Add quantifiable achievements to your work experience".to_owned());
            proof {
                assert(views_of_strings(improvements@) =~= seq![
                    "Add quantifiable achievements to your work experience"@,
                ]);
            }
        }
        let ghost head = views_of_strings(improvements@);
        let missing = missing_in_experience(job_keywords, &resume.experiences);
        if missing.len() > 0 && missing.len() <= 5 {
            let mut msg: Vec<char> = Vec::new();
            push_str(&mut msg, "Consider incorporating these keywords into your experience section: ");
            let joined = crate::text::join_strings(&missing, ", ");
            crate::text::push_chars(&mut msg, &joined);
            let ghost pre = improvements@;
            improvements.push(string_from_chars(&msg));
            proof {
                assert(views_of_strings(improvements@) =~= views_of_strings(pre).push(msg@));
            }
        } else if missing.len() > 0 {
            let ghost pre = improvements@;
            improvements.push(
                "Many important keywords from the job description are missing from your experience section".to_owned(),
            );
            proof {
                assert(views_of_strings(improvements@) =~= views_of_strings(pre).push(
                    "Many important keywords from the job description are missing from your experience section"@,
                ));
            }
        }
        proof {
            assert(views_of_strings(improvements@) =~= spec_experience_improvements(
                job_keywords@,
                resume.experiences@,
            ));
        }
        if improvements.len() > 0 {
            let ghost pre = result.section_improvements@;
            let ghost stored = improvements;
            result.section_improvements.insert("Experience".to_owned(), improvements);
            proof {
                assert(result.section_improvements@ == alist_store(pre, "Experience"@, stored));
                lemma_section_store_views(pre, "Experience"@, stored);
            }
        }
    }

    /// Appends the skills-section notes under `Skills` when there are any;
    /// nothing else in the report changes.
    fn analyze_skills_section(
        &self,
        resume: &Resume,
        job_keywords: &StrMap<usize>,
        result: &mut OptimizationResult,
    )
        ensures
            section_views(final(result).section_improvements@) == (
            if spec_skills_improvements(job_keywords@, resume.skills).len() > 0 {
                alist_store(
                    section_views(old(result).section_improvements@),
                    "Skills"@,
                    spec_skills_improvements(job_keywords@, resume.skills),
                )
            } else {
                section_views(old(result).section_improvements@)
            }),
            final(result).score == old(result).score,
            final(result).missing_keywords == old(result).missing_keywords,
            final(result).matching_keywords == old(result).matching_keywords,
            final(result).overused_keywords == old(result).overused_keywords,
            final(result).suggestions == old(result).suggestions,
    {
        let mut improvements: Vec<String> = Vec::new();
        if resume.skills.technical.len() == 0 && resume.skills.other.len() > 0 {
            improvements.push(
                "Organize your skills into categories (technical, soft, tools, etc.)".to_owned(),
            );
            proof {
                assert(views_of_strings(improvements@) =~= seq![
                    "Organize your skills into categories (technical, soft, tools, etc.)"@,
                ]);
            }
        }
        let missing = missing_skills(job_keywords, &resume.skills);
        if missing.len() > 0 && missing.len() <= 5 {
            let mut msg: Vec<char> = Vec::new();
            push_str(&mut msg, "Consider adding these skills if you have them: ");
            let joined = crate::text::join_strings(&missing, ", ");
            crate::text::push_chars(&mut msg, &joined);
            let ghost pre = improvements@;
            improvements.push(string_from_chars(&msg));
            proof {
                assert(views_of_strings(improvements@) =~= views_of_strings(pre).push(msg@));
            }
        } else if missing.len() > 0 {
            let ghost pre = improvements@;
            improvements.push(
                "Many important skills from the job description are missing from your skills section".to_owned(),
            );
            proof {
                assert(views_of_strings(improvements@) =~= views_of_strings(pre).push(
                    "Many important skills from the job description are missing from your skills section"@,
                ));
            }
        }
        proof {
            assert(views_of_strings(improvements@) =~= spec_skills_improvements(
                job_keywords@,
                resume.skills,
            ));
        }
        if improvements.len() > 0 {
            let ghost pre = result.section_improvements@;
            let ghost stored = improvements;
            result.section_improvements.insert("Skills".to_owned(), improvements);
            proof {
                assert(result.section_improvements@ == alist_store(pre, "Skills"@, stored));
                lemma_section_store_views(pre, "Skills"@, stored);
            }
        }
    }

    /// Scores the résumé against a job description and derives the keyword
    /// lists and suggestions. A deterministic, pure function of the two
    /// inputs and the engine's dictionaries: the score is the share of
    /// important job keywords the résumé mentions, a job keyword of
    /// importance one is never reported missing, and every list is as the
    /// specification functions state.
    pub fn optimize(&self, resume: &Resume, job_description: &str) -> (r: OptimizationResult)
        requires
            job_description@.len() < usize::MAX,
        ensures
            ({
                let jobs = spec_job_keywords(
                    industry_views(self.industry_keywords@),
                    job_description@,
                );
                let res = spec_count_keywords(*resume);
                &&& r.score as int == spec_score(jobs, res)
                &&& r.score <= 100
                &&& r.matching_keywords@ == spec_matching(jobs, res)
                &&& views_of_strings(r.missing_keywords@) == spec_missing(jobs, res)
                &&& forall|i: int|
                    0 <= i < r.missing_keywords@.len() ==> exists|j: int|
                        0 <= j < jobs.len() && jobs[j].0 == #[trigger] r.missing_keywords@[i]@
                            && jobs[j].1 > 1 && !alist_has(res, jobs[j].0)
                &&& forall|i: int|
                    0 <= i < r.missing_keywords@.len() ==> (alist_lookup(
                        jobs,
                        #[trigger] r.missing_keywords@[i]@,
                    ) matches Some(c) && c > 1)
                &&& views_of_strings(r.overused_keywords@) == spec_overused(res)
                &&& views_of_strings(r.suggestions@) == spec_suggestions(
                    *resume,
                    self.weak_terms@,
                    self.action_verbs@,
                )
                &&& section_views(r.section_improvements@) == spec_section_improvements(
                    jobs,
                    *resume,
                )
            }),
    {
        let jd = chars_vec(job_description);
        let job_keywords = self.extract_keywords(&jd);
        let resume_keywords = resume.count_keywords();
        let mut result = OptimizationResult::default();
        proof {
            assert(views_of_strings(result.suggestions@) =~= Seq::<Seq<char>>::empty());
            assert(section_views(result.section_improvements@) =~= Seq::<
                (Seq<char>, Seq<Seq<char>>),
            >::empty());
        }
        self.add_general_suggestions(resume, &mut result);
        proof {
            assert(Seq::<Seq<char>>::empty() + spec_suggestions(
                *resume,
                self.weak_terms@,
                self.action_verbs@,
            ) =~= spec_suggestions(*resume, self.weak_terms@, self.action_verbs@));
        }
        self.analyze_experience_section(resume, &job_keywords, &mut result);
        self.analyze_skills_section(resume, &job_keywords, &mut result);
        result.score = compute_score(&job_keywords, &resume_keywords);
        result.missing_keywords = compute_missing(&job_keywords, &resume_keywords);
        result.matching_keywords = compute_matching(&job_keywords, &resume_keywords);
        result.overused_keywords = compute_overused(&resume_keywords);
        proof {
            lemma_missing_importance(job_keywords@, resume_keywords@);
            let ghost jobs = spec_job_keywords(
                industry_views(self.industry_keywords@),
                job_description@,
            );
            let ghost res = spec_count_keywords(*resume);
            assert forall|i: int| 0 <= i < result.missing_keywords@.len() implies exists|j: int|
                0 <= j < jobs.len() && jobs[j].0 == #[trigger] result.missing_keywords@[i]@
                    && jobs[j].1 > 1 && !alist_has(res, jobs[j].0) by {
                assert(views_of_strings(result.missing_keywords@)[i]
                    == result.missing_keywords@[i]@);
                assert(spec_missing(jobs, res)[i] == result.missing_keywords@[i]@);
            }
            lemma_job_keywords_distinct(
                industry_views(self.industry_keywords@),
                job_description@,
            );
            assert forall|i: int| 0 <= i < result.missing_keywords@.len() implies (alist_lookup(
                jobs,
                #[trigger] result.missing_keywords@[i]@,
            ) matches Some(c) && c > 1) by {
                let j = choose|j: int|
                    0 <= j < jobs.len() && jobs[j].0 == result.missing_keywords@[i]@ && jobs[j].1
                        > 1 && !alist_has(res, jobs[j].0);
                crate::collections::lemma_lookup_at_index(jobs, j);
            }
        }
        result
    }
}

} // verus!
