//! Character-level text utilities shared by the renderer and the keyword
//! engine: case folding, tokenization, substring search and rewriting.
//!
//! All executable text processing works on `Vec<char>`, whose view is the
//! same `Seq<char>` as the view of `String` and `&str`, so contracts relate
//! directly to the strings a caller passes in.
use vstd::prelude::*;

verus! {

broadcast use vstd::string::group_string_axioms;

// ---------------------------------------------------------------------------
// Case folding (ASCII)
// ---------------------------------------------------------------------------
/// ASCII upper-case letters fold to lower case; every other character is kept.
pub open spec fn lower_char(c: char) -> char {
    if 'A' <= c && c <= 'Z' {
        ((c as u8) + 32) as char
    } else {
        c
    }
}

/// Case folding of a whole text, character by character.
pub open spec fn lower(s: Seq<char>) -> Seq<char> {
    s.map_values(|c: char| lower_char(c))
}

/// Lower-cases one character (ASCII folding).
pub fn lower_char_exec(c: char) -> (r: char)
    ensures
        r == lower_char(c),
{
    if 'A' <= c && c <= 'Z' {
        ((c as u8) + 32) as char
    } else {
        c
    }
}

/// Lower-cases a whole character vector.
pub fn lower_vec(s: &Vec<char>) -> (r: Vec<char>)
    ensures
        r@ == lower(s@),
{
    let mut r: Vec<char> = Vec::new();
    let mut i: usize = 0;
    while i < s.len()
        invariant
            i <= s@.len(),
            r@ == lower(s@.take(i as int)),
        decreases s@.len() - i,
    {
        r.push(lower_char_exec(s[i]));
        i = i + 1;
        assert(r@ =~= lower(s@.take(i as int)));
    }
    assert(s@.take(s@.len() as int) =~= s@);
    r
}

// ---------------------------------------------------------------------------
// Conversions between strings and character vectors
// ---------------------------------------------------------------------------
/// Collects the characters of a string slice into a vector.
pub fn chars_vec(s: &str) -> (r: Vec<char>)
    ensures
        r@ == s@,
{
    let n = s.unicode_len();
    let mut r: Vec<char> = Vec::new();
    let mut i: usize = 0;
    while i < n
        invariant
            i <= n,
            n == s@.len(),
            r@ == s@.take(i as int),
        decreases n - i,
    {
        r.push(s.get_char(i));
        i = i + 1;
        assert(r@ =~= s@.take(i as int));
    }
    assert(r@ =~= s@);
    r
}

/// Relies on `String: FromIterator<char>`: collecting the characters of a
/// vector yields the string whose view is exactly that character sequence.
#[verifier::external_body]
pub fn string_from_chars(v: &Vec<char>) -> (r: String)
    ensures
        r@ == v@,
{
    v.iter().collect()
}

/// Appends the characters of another vector.
pub fn push_chars(out: &mut Vec<char>, s: &Vec<char>)
    ensures
        final(out)@ == old(out)@ + s@,
{
    out.extend_from_slice(s.as_slice());
}

/// Appends the characters of a string slice.
pub fn push_str(out: &mut Vec<char>, s: &str)
    ensures
        final(out)@ == old(out)@ + s@,
{
    let cs = chars_vec(s);
    out.extend_from_slice(cs.as_slice());
}

/// Appends one character.
pub fn push_char(out: &mut Vec<char>, c: char)
    ensures
        final(out)@ == old(out)@ + seq![c],
{
    out.push(c);
    assert(final(out)@ =~= old(out)@ + seq![c]);
}

// ---------------------------------------------------------------------------
// Substring search
// ---------------------------------------------------------------------------
/// The pattern occurs in `s` starting at index `i`.
pub open spec fn matches_at(s: Seq<char>, pat: Seq<char>, i: int) -> bool {
    0 <= i && i + pat.len() <= s.len() && s.subrange(i, i + pat.len()) == pat
}

/// The pattern occurs somewhere in `s`.
pub open spec fn contains_sub(s: Seq<char>, pat: Seq<char>) -> bool {
    exists|i: int| matches_at(s, pat, i)
}

/// Index of the first occurrence of the pattern at or after `i`.
pub open spec fn find_from(s: Seq<char>, pat: Seq<char>, i: int) -> Option<int>
    decreases s.len() - i,
    when 0 <= i && 1 <= pat.len()
{
    if i + pat.len() > s.len() {
        None
    } else if matches_at(s, pat, i) {
        Some(i)
    } else {
        find_from(s, pat, i + 1)
    }
}

/// Number of non-overlapping occurrences of the pattern at or after `i`,
/// scanning left to right.
pub open spec fn count_from(s: Seq<char>, pat: Seq<char>, i: int) -> int
    decreases s.len() - i,
    when 0 <= i && 1 <= pat.len()
{
    if i + pat.len() > s.len() {
        0
    } else if matches_at(s, pat, i) {
        1 + count_from(s, pat, i + pat.len())
    } else {
        count_from(s, pat, i + 1)
    }
}

/// Tests whether the pattern occurs at index `i`.
pub fn is_match_at(s: &Vec<char>, pat: &Vec<char>, i: usize) -> (r: bool)
    requires
        i + pat@.len() <= s@.len(),
    ensures
        r == matches_at(s@, pat@, i as int),
{
    let n = s.len();
    let mut j: usize = 0;
    while j < pat.len()
        invariant
            j <= pat@.len(),
            i + pat@.len() <= s@.len(),
            n == s@.len(),
            forall|k: int| 0 <= k < j ==> s@[i + k] == pat@[k],
        decreases pat@.len() - j,
    {
        if s[i + j] != pat[j] {
            assert(s@.subrange(i as int, i + pat@.len()) != pat@) by {
                assert(s@.subrange(i as int, i + pat@.len())[j as int] != pat@[j as int]);
            }
            return false;
        }
        j = j + 1;
    }
    assert(s@.subrange(i as int, i + pat@.len()) =~= pat@);
    true
}

/// Finds the first occurrence of the pattern at or after `from`.
pub fn find_sub_from(s: &Vec<char>, pat: &Vec<char>, from: usize) -> (r: Option<usize>)
    requires
        1 <= pat@.len(),
        from <= s@.len(),
    ensures
        match r {
            Some(j) => from <= j && find_from(s@, pat@, from as int) == Some(j as int),
            None => find_from(s@, pat@, from as int) is None,
        },
{
    let mut i: usize = from;
    while s.len() - i >= pat.len()
        invariant
            from <= i <= s@.len(),
            1 <= pat@.len(),
            find_from(s@, pat@, from as int) == find_from(s@, pat@, i as int),
        decreases s@.len() - i,
    {
        if is_match_at(s, pat, i) {
            return Some(i);
        }
        i = i + 1;
    }
    None
}

/// True when the pattern occurs somewhere in `s`.
pub fn contains_sub_exec(s: &Vec<char>, pat: &Vec<char>) -> (r: bool)
    requires
        1 <= pat@.len(),
    ensures
        r == contains_sub(s@, pat@),
{
    let r = find_sub_from(s, pat, 0);
    proof {
        lemma_find_from_contains(s@, pat@, 0);
    }
    match r {
        Some(_) => true,
        None => false,
    }
}

/// True when the pattern occurs somewhere in `s`; the empty pattern occurs
/// everywhere.
pub fn contains_sub_any(s: &Vec<char>, pat: &Vec<char>) -> (r: bool)
    ensures
        r == contains_sub(s@, pat@),
{
    if pat.len() == 0 {
        proof {
            assert(s@.subrange(0, 0) =~= pat@);
            assert(matches_at(s@, pat@, 0));
        }
        true
    } else {
        contains_sub_exec(s, pat)
    }
}

/// Relates the first-occurrence search to the existence of any occurrence.
proof fn lemma_find_from_contains(s: Seq<char>, pat: Seq<char>, i: int)
    requires
        0 <= i,
        1 <= pat.len(),
    ensures
        find_from(s, pat, i) is Some ==> matches_at(s, pat, find_from(s, pat, i)->Some_0),
        find_from(s, pat, i) is None ==> forall|j: int| i <= j ==> !matches_at(s, pat, j),
    decreases s.len() - i,
{
    if i + pat.len() > s.len() {
        assert(forall|j: int| i <= j ==> !matches_at(s, pat, j));
    } else if matches_at(s, pat, i) {
    } else {
        lemma_find_from_contains(s, pat, i + 1);
    }
}

/// Counts the non-overlapping occurrences of the pattern, left to right.
pub fn count_sub(s: &Vec<char>, pat: &Vec<char>) -> (r: usize)
    requires
        1 <= pat@.len(),
    ensures
        r == count_from(s@, pat@, 0),
        r <= s@.len(),
{
    let mut i: usize = 0;
    let mut n: usize = 0;
    while s.len() - i >= pat.len()
        invariant
            i <= s@.len(),
            n <= i,
            1 <= pat@.len(),
            count_from(s@, pat@, 0) == n + count_from(s@, pat@, i as int),
        decreases s@.len() - i,
    {
        if is_match_at(s, pat, i) {
            n = n + 1;
            i = i + pat.len();
        } else {
            i = i + 1;
        }
    }
    n
}

/// Replaces every non-overlapping occurrence of the pattern, left to right.
pub open spec fn replace_from(s: Seq<char>, pat: Seq<char>, rep: Seq<char>, i: int) -> Seq<char>
    decreases s.len() - i,
    when 0 <= i && 1 <= pat.len()
{
    if i + pat.len() > s.len() {
        s.skip(i)
    } else if matches_at(s, pat, i) {
        rep + replace_from(s, pat, rep, i + pat.len())
    } else {
        seq![s[i]] + replace_from(s, pat, rep, i + 1)
    }
}

/// The text with every occurrence of `pat` rewritten to `rep`.
pub open spec fn replace_all(s: Seq<char>, pat: Seq<char>, rep: Seq<char>) -> Seq<char> {
    replace_from(s, pat, rep, 0)
}

/// Rewrites every occurrence of the pattern.
pub fn replace_all_exec(s: &Vec<char>, pat: &Vec<char>, rep: &Vec<char>) -> (r: Vec<char>)
    requires
        1 <= pat@.len(),
    ensures
        r@ == replace_all(s@, pat@, rep@),
{
    let mut out: Vec<char> = Vec::new();
    let mut i: usize = 0;
    while s.len() - i >= pat.len()
        invariant
            i <= s@.len(),
            1 <= pat@.len(),
            replace_all(s@, pat@, rep@) == out@ + replace_from(s@, pat@, rep@, i as int),
        decreases s@.len() - i,
    {
        if is_match_at(s, pat, i) {
            push_chars(&mut out, rep);
            i = i + pat.len();
        } else {
            push_char(&mut out, s[i]);
            i = i + 1;
        }
        assert(replace_all(s@, pat@, rep@) =~= out@ + replace_from(s@, pat@, rep@, i as int));
    }
    while i < s.len()
        invariant
            i <= s@.len(),
            s@.len() - i < pat@.len(),
            1 <= pat@.len(),
            replace_all(s@, pat@, rep@) == out@ + s@.skip(i as int),
        decreases s@.len() - i,
    {
        push_char(&mut out, s[i]);
        i = i + 1;
        assert(replace_all(s@, pat@, rep@) =~= out@ + s@.skip(i as int));
    }
    assert(s@.skip(s@.len() as int) =~= Seq::<char>::empty());
    assert(out@ =~= out@ + s@.skip(s@.len() as int));
    out
}

// ---------------------------------------------------------------------------
// Tokenization
// ---------------------------------------------------------------------------
/// A character that can stand inside a keyword token.
pub open spec fn is_word_char(c: char) -> bool {
    ('a' <= c && c <= 'z') || ('A' <= c && c <= 'Z') || ('0' <= c && c <= '9')
}

/// A character that joins the parts of a compound token but cannot begin or
/// end one.
pub open spec fn is_joiner(c: char) -> bool {
    c == '-' || c == '/'
}

pub open spec fn is_token_char(c: char) -> bool {
    is_word_char(c) || is_joiner(c)
}

/// The maximal runs of token characters in `s`, in order.
pub open spec fn raw_tokens(s: Seq<char>) -> Seq<Seq<char>>
    decreases s.len(),
{
    if s.len() == 0 {
        Seq::empty()
    } else {
        let rest = raw_tokens(s.drop_last());
        let c = s.last();
        if !is_token_char(c) {
            rest
        } else if s.len() >= 2 && is_token_char(s[s.len() - 2]) {
            rest.update(rest.len() - 1, rest.last().push(c))
        } else {
            rest.push(seq![c])
        }
    }
}

/// Joiner characters are stripped from the front of a token.
pub open spec fn trim_leading(t: Seq<char>) -> Seq<char>
    decreases t.len(),
{
    if t.len() > 0 && is_joiner(t[0]) {
        trim_leading(t.drop_first())
    } else {
        t
    }
}

/// Joiner characters are stripped from the back of a token.
pub open spec fn trim_trailing(t: Seq<char>) -> Seq<char>
    decreases t.len(),
{
    if t.len() > 0 && is_joiner(t.last()) {
        trim_trailing(t.drop_last())
    } else {
        t
    }
}

/// A raw run trimmed of joiners on both sides.
pub open spec fn trim_token(t: Seq<char>) -> Seq<char> {
    trim_trailing(trim_leading(t))
}

/// The trimmed, non-empty tokens of a sequence of raw runs.
pub open spec fn clean_tokens(raw: Seq<Seq<char>>) -> Seq<Seq<char>>
    decreases raw.len(),
{
    if raw.len() == 0 {
        Seq::empty()
    } else {
        let rest = clean_tokens(raw.drop_last());
        let t = trim_token(raw.last());
        if t.len() > 0 {
            rest.push(t)
        } else {
            rest
        }
    }
}

/// The word tokens of a text: maximal runs of letters, digits, `-` and `/`,
/// trimmed of leading and trailing `-`/`/`, empty results dropped.
pub open spec fn spec_tokens(s: Seq<char>) -> Seq<Seq<char>> {
    clean_tokens(raw_tokens(s))
}

/// The views of a sequence of character vectors.
pub open spec fn views_of(v: Seq<Vec<char>>) -> Seq<Seq<char>> {
    v.map_values(|x: Vec<char>| x@)
}

/// The views of a sequence of strings.
pub open spec fn views_of_strings(v: Seq<String>) -> Seq<Seq<char>> {
    v.map_values(|x: String| x@)
}

pub fn is_token_char_exec(c: char) -> (r: bool)
    ensures
        r == is_token_char(c),
{
    ('a' <= c && c <= 'z') || ('A' <= c && c <= 'Z') || ('0' <= c && c <= '9') || c == '-' || c
        == '/'
}

pub fn is_joiner_exec(c: char) -> (r: bool)
    ensures
        r == is_joiner(c),
{
    c == '-' || c == '/'
}

/// Strips joiners from both ends of a run.
fn trim_token_exec(t: &Vec<char>) -> (r: Vec<char>)
    ensures
        r@ == trim_token(t@),
{
    proof {
        assert(t@.skip(0) =~= t@);
    }
    let mut lo: usize = 0;
    while lo < t.len() && is_joiner_exec(t[lo])
        invariant
            lo <= t@.len(),
            trim_leading(t@) == trim_leading(t@.skip(lo as int)),
        decreases t@.len() - lo,
    {
        proof {
            assert(t@.skip(lo as int)[0] == t@[lo as int]);
            assert(t@.skip(lo as int).drop_first() =~= t@.skip(lo + 1));
        }
        lo = lo + 1;
    }
    let ghost led = trim_leading(t@);
    proof {
        if lo < t@.len() {
            assert(t@.skip(lo as int)[0] == t@[lo as int]);
        }
        assert(led == t@.skip(lo as int));
        assert(t@.subrange(lo as int, t@.len() as int) =~= t@.skip(lo as int));
    }
    let mut hi: usize = t.len();
    while hi > lo && is_joiner_exec(t[hi - 1])
        invariant
            lo <= hi <= t@.len(),
            led == t@.skip(lo as int),
            trim_trailing(led) == trim_trailing(t@.subrange(lo as int, hi as int)),
        decreases hi,
    {
        proof {
            let sub = t@.subrange(lo as int, hi as int);
            assert(sub.last() == t@[hi - 1]);
            assert(sub.drop_last() =~= t@.subrange(lo as int, hi - 1));
        }
        hi = hi - 1;
    }
    proof {
        let sub = t@.subrange(lo as int, hi as int);
        if hi > lo {
            assert(sub.last() == t@[hi - 1]);
        }
        assert(trim_trailing(sub) == sub);
    }
    let mut r: Vec<char> = Vec::new();
    let mut i: usize = lo;
    while i < hi
        invariant
            lo <= i <= hi <= t@.len(),
            r@ == t@.subrange(lo as int, i as int),
        decreases hi - i,
    {
        r.push(t[i]);
        i = i + 1;
        assert(r@ =~= t@.subrange(lo as int, i as int));
    }
    r
}

/// Splits a text into its word tokens.
pub fn tokenize(s: &Vec<char>) -> (r: Vec<Vec<char>>)
    ensures
        views_of(r@) == spec_tokens(s@),
{
    let mut out: Vec<Vec<char>> = Vec::new();
    let mut cur: Vec<char> = Vec::new();
    let mut i: usize = 0;
    while i < s.len()
        invariant
            i <= s@.len(),
            cur@.len() > 0 <==> (i > 0 && is_token_char(s@[i - 1])),
            cur@.len() > 0 ==> raw_tokens(s@.take(i as int)).len() > 0 && raw_tokens(
                s@.take(i as int),
            ).last() == cur@ && views_of(out@) == clean_tokens(
                raw_tokens(s@.take(i as int)).drop_last(),
            ),
            cur@.len() == 0 ==> views_of(out@) == clean_tokens(raw_tokens(s@.take(i as int))),
        decreases s@.len() - i,
    {
        let ghost pre = s@.take(i as int);
        let ghost pre1 = s@.take(i + 1);
        proof {
            assert(pre1.drop_last() =~= pre);
            assert(pre1.last() == s@[i as int]);
            if i > 0 {
                assert(pre1[pre1.len() - 2] == s@[i - 1]);
            }
        }
        let c = s[i];
        if is_token_char_exec(c) {
            if cur.len() > 0 {
                proof {
                    let raws = raw_tokens(pre);
                    let raws1 = raw_tokens(pre1);
                    assert(raws1 == raws.update(raws.len() - 1, raws.last().push(c)));
                    assert(raws1.len() == raws.len());
                    assert(raws1.last() == cur@.push(c));
                    assert(raws1.drop_last() =~= raws.drop_last());
                }
                cur.push(c);
            } else {
                proof {
                    let raws = raw_tokens(pre);
                    let raws1 = raw_tokens(pre1);
                    assert(raws1 == raws.push(seq![c]));
                    assert(raws1.last() == seq![c]);
                    assert(raws1.drop_last() =~= raws);
                }
                cur.push(c);
                assert(cur@ =~= seq![c]);
            }
        } else {
            proof {
                assert(raw_tokens(pre1) == raw_tokens(pre));
            }
            if cur.len() > 0 {
                let ghost raws = raw_tokens(pre);
                let t = trim_token_exec(&cur);
                if t.len() > 0 {
                    out.push(t);
                    proof {
                        assert(clean_tokens(raws) == clean_tokens(raws.drop_last()).push(
                            trim_token(cur@),
                        ));
                        assert(views_of(out@) =~= clean_tokens(raws));
                    }
                } else {
                    proof {
                        assert(clean_tokens(raws) == clean_tokens(raws.drop_last()));
                    }
                }
                cur = Vec::new();
            }
        }
        i = i + 1;
    }
    proof {
        assert(s@.take(s@.len() as int) =~= s@);
    }
    if cur.len() > 0 {
        let ghost raws = raw_tokens(s@);
        let t = trim_token_exec(&cur);
        if t.len() > 0 {
            out.push(t);
            proof {
                assert(clean_tokens(raws) == clean_tokens(raws.drop_last()).push(
                    trim_token(cur@),
                ));
                assert(views_of(out@) =~= clean_tokens(raws));
            }
        } else {
            proof {
                assert(clean_tokens(raws) == clean_tokens(raws.drop_last()));
            }
        }
    }
    out
}

/// Concatenation of sequences is associative; with this as a rewriting
/// rule, equalities between differently grouped concatenations close
/// without element-wise reasoning.
pub broadcast proof fn lemma_seq_concat_assoc<A>(a: Seq<A>, b: Seq<A>, c: Seq<A>)
    ensures
        #[trigger] ((a + b) + c) == a + (b + c),
{
    assert((a + b) + c =~= a + (b + c));
}

// ---------------------------------------------------------------------------
// Comparison, prefixes, joining, words, digits
// ---------------------------------------------------------------------------
/// Compares two character vectors.
pub fn chars_eq(a: &Vec<char>, b: &Vec<char>) -> (r: bool)
    ensures
        r == (a@ == b@),
{
    if a.len() != b.len() {
        return false;
    }
    let mut i: usize = 0;
    while i < a.len()
        invariant
            i <= a@.len(),
            a@.len() == b@.len(),
            forall|k: int| 0 <= k < i ==> a@[k] == b@[k],
        decreases a@.len() - i,
    {
        if a[i] != b[i] {
            return false;
        }
        i = i + 1;
    }
    assert(a@ =~= b@);
    true
}

/// Tests whether a character occurs in the text.
pub fn has_char(s: &Vec<char>, c: char) -> (r: bool)
    ensures
        r == s@.contains(c),
{
    let mut i: usize = 0;
    while i < s.len()
        invariant
            i <= s@.len(),
            forall|k: int| 0 <= k < i ==> s@[k] != c,
        decreases s@.len() - i,
    {
        if s[i] == c {
            return true;
        }
        i = i + 1;
    }
    false
}

/// `s` begins with the given prefix.
pub open spec fn has_prefix(s: Seq<char>, pre: Seq<char>) -> bool {
    pre.len() <= s.len() && s.take(pre.len() as int) == pre
}

/// Tests whether the string starts with the given prefix.
pub fn starts_with_chars(s: &Vec<char>, pre: &Vec<char>) -> (r: bool)
    ensures
        r == has_prefix(s@, pre@),
{
    if s.len() < pre.len() {
        return false;
    }
    let r = is_match_at(s, pre, 0);
    proof {
        assert(s@.subrange(0, pre@.len() as int) =~= s@.take(pre@.len() as int));
    }
    r
}

/// Items joined with a separator between neighbours.
pub open spec fn join_sep(items: Seq<Seq<char>>, sep: Seq<char>) -> Seq<char>
    decreases items.len(),
{
    if items.len() == 0 {
        Seq::empty()
    } else if items.len() == 1 {
        items[0]
    } else {
        join_sep(items.drop_last(), sep) + sep + items.last()
    }
}

/// Joins string items with a separator.
pub fn join_strings(items: &Vec<String>, sep: &str) -> (r: Vec<char>)
    ensures
        r@ == join_sep(views_of_strings(items@), sep@),
{
    let mut out: Vec<char> = Vec::new();
    let mut i: usize = 0;
    while i < items.len()
        invariant
            i <= items@.len(),
            out@ == join_sep(views_of_strings(items@.take(i as int)), sep@),
        decreases items@.len() - i,
    {
        if i > 0 {
            push_str(&mut out, sep);
        }
        push_str(&mut out, items[i].as_str());
        i = i + 1;
        proof {
            let vs = views_of_strings(items@.take(i as int));
            assert(views_of_strings(items@.take(i - 1)) =~= vs.drop_last());
            assert(vs.last() == items@[i - 1]@);
        }
    }
    proof {
        assert(items@.take(items@.len() as int) =~= items@);
    }
    out
}

/// Items concatenated, each followed by a single space.
pub open spec fn cat_spaced(items: Seq<Seq<char>>) -> Seq<char>
    decreases items.len(),
{
    if items.len() == 0 {
        Seq::empty()
    } else {
        cat_spaced(items.drop_last()) + items.last() + seq![' ']
    }
}

/// Appends every item, each followed by a single space.
pub fn push_all_spaced(out: &mut Vec<char>, items: &Vec<String>)
    ensures
        final(out)@ == old(out)@ + cat_spaced(views_of_strings(items@)),
{
    let mut i: usize = 0;
    while i < items.len()
        invariant
            i <= items@.len(),
            out@ == old(out)@ + cat_spaced(views_of_strings(items@.take(i as int))),
        decreases items@.len() - i,
    {
        push_str(out, items[i].as_str());
        push_char(out, ' ');
        i = i + 1;
        proof {
            let vs = views_of_strings(items@.take(i as int));
            assert(views_of_strings(items@.take(i - 1)) =~= vs.drop_last());
            assert(vs.last() == items@[i - 1]@);
            assert(out@ =~= old(out)@ + cat_spaced(vs));
        }
    }
    proof {
        assert(items@.take(items@.len() as int) =~= items@);
    }
}

/// Whitespace for the purpose of counting words (ASCII).
pub open spec fn is_space(c: char) -> bool {
    c == ' ' || c == '\t' || c == '\n' || c == '\r'
}

/// Number of maximal runs of non-whitespace characters.
pub open spec fn word_count(s: Seq<char>) -> int
    decreases s.len(),
{
    if s.len() == 0 {
        0
    } else {
        word_count(s.drop_last()) + if !is_space(s.last()) && (s.len() == 1 || is_space(
            s[s.len() - 2],
        )) {
            1int
        } else {
            0int
        }
    }
}

/// Counts the whitespace-separated words of a text.
pub fn word_count_exec(s: &Vec<char>) -> (r: usize)
    ensures
        r == word_count(s@),
{
    let mut n: usize = 0;
    let mut i: usize = 0;
    while i < s.len()
        invariant
            i <= s@.len(),
            n == word_count(s@.take(i as int)),
            n <= i,
        decreases s@.len() - i,
    {
        let c = s[i];
        let in_word = !(c == ' ' || c == '\t' || c == '\n' || c == '\r');
        let starts = in_word && (i == 0 || {
            let p = s[i - 1];
            p == ' ' || p == '\t' || p == '\n' || p == '\r'
        });
        proof {
            let pre1 = s@.take(i + 1);
            assert(pre1.drop_last() =~= s@.take(i as int));
            assert(pre1.last() == s@[i as int]);
            if i > 0 {
                assert(pre1[pre1.len() - 2] == s@[i - 1]);
            }
        }
        if starts {
            n = n + 1;
        }
        i = i + 1;
    }
    proof {
        assert(s@.take(s@.len() as int) =~= s@);
    }
    n
}

/// The decimal digit character for a value below ten.
pub open spec fn digit_char(d: int) -> char {
    ((d + ('0' as int)) as u8) as char
}

/// The decimal representation of a natural number, most significant digit
/// first.
pub open spec fn dec_digits(n: int) -> Seq<char>
    decreases n,
    when n >= 0
{
    if n < 10 {
        seq![digit_char(n)]
    } else {
        dec_digits(n / 10).push(digit_char(n % 10))
    }
}

/// Appends the decimal representation of `n`.
pub fn push_u32_dec(out: &mut Vec<char>, n: u32)
    ensures
        final(out)@ == old(out)@ + dec_digits(n as int),
    decreases n,
{
    if n < 10 {
        out.push(((n as u8) + 48) as char);
        assert(final(out)@ =~= old(out)@ + dec_digits(n as int));
    } else {
        push_u32_dec(out, n / 10);
        out.push((((n % 10) as u8) + 48) as char);
        assert(final(out)@ =~= old(out)@ + dec_digits(n as int));
    }
}

} // verus!
