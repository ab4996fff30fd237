//! Derived-format passes: the rewrites that turn the rendered Markdown
//! into plain text or HTML. Each pass is a deterministic left-to-right
//! scan, specified by a recursive function and mirrored by its executable
//! counterpart.
use crate::text::{
    is_match_at, matches_at, push_char, push_chars, push_str, replace_all, views_of_strings,
};
use vstd::prelude::*;

verus! {

// ---------------------------------------------------------------------------
// Small scanning helpers
// ---------------------------------------------------------------------------
/// Index of the first occurrence of `c` at or after `i`, or the length of
/// the text when there is none.
pub open spec fn find_char_from(s: Seq<char>, c: char, i: int) -> int
    decreases s.len() - i,
    when 0 <= i <= s.len()
{
    if i >= s.len() {
        i
    } else if s[i] == c {
        i
    } else {
        find_char_from(s, c, i + 1)
    }
}

pub proof fn lemma_find_char_from_bounds(s: Seq<char>, c: char, i: int)
    requires
        0 <= i <= s.len(),
    ensures
        i <= find_char_from(s, c, i) <= s.len(),
    decreases s.len() - i,
{
    if i >= s.len() {
    } else if s[i] == c {
    } else {
        lemma_find_char_from_bounds(s, c, i + 1);
    }
}

/// Finds the first occurrence of `c` at or after `from`; the text length
/// stands for "none".
pub fn find_char_exec(s: &Vec<char>, c: char, from: usize) -> (r: usize)
    requires
        from <= s@.len(),
    ensures
        r == find_char_from(s@, c, from as int),
        from <= r <= s@.len(),
{
    let mut i: usize = from;
    while i < s.len()
        invariant
            from <= i <= s@.len(),
            find_char_from(s@, c, from as int) == find_char_from(s@, c, i as int),
        decreases s@.len() - i,
    {
        if s[i] == c {
            return i;
        }
        i = i + 1;
    }
    i
}

/// Appends a copy of `s[lo..hi]`.
pub fn push_subrange(out: &mut Vec<char>, s: &Vec<char>, lo: usize, hi: usize)
    requires
        lo <= hi <= s@.len(),
    ensures
        final(out)@ == old(out)@ + s@.subrange(lo as int, hi as int),
{
    let mut i: usize = lo;
    while i < hi
        invariant
            lo <= i <= hi <= s@.len(),
            out@ == old(out)@ + s@.subrange(lo as int, i as int),
        decreases hi - i,
    {
        out.push(s[i]);
        i = i + 1;
        assert(out@ =~= old(out)@ + s@.subrange(lo as int, i as int));
    }
}

// ---------------------------------------------------------------------------
// Markdown marker stripping (plain text)
// ---------------------------------------------------------------------------
/// The characters the plain-text conversion strips.
pub open spec fn is_md_mark(c: char) -> bool {
    c == '#' || c == '*' || c == '_'
}

/// The text with every `#`, `*` and `_` removed.
pub open spec fn strip_md(s: Seq<char>) -> Seq<char>
    decreases s.len(),
{
    if s.len() == 0 {
        Seq::empty()
    } else {
        strip_md(s.drop_last()) + if is_md_mark(s.last()) {
            Seq::empty()
        } else {
            seq![s.last()]
        }
    }
}

/// Removes every `#`, `*` and `_`.
pub fn strip_md_exec(s: &Vec<char>) -> (r: Vec<char>)
    ensures
        r@ == strip_md(s@),
{
    let mut out: Vec<char> = Vec::new();
    let mut i: usize = 0;
    while i < s.len()
        invariant
            i <= s@.len(),
            out@ == strip_md(s@.take(i as int)),
        decreases s@.len() - i,
    {
        let c = s[i];
        proof {
            let pre1 = s@.take(i + 1);
            assert(pre1.drop_last() =~= s@.take(i as int));
            assert(pre1.last() == s@[i as int]);
        }
        if !(c == '#' || c == '*' || c == '_') {
            out.push(c);
            assert(out@ =~= strip_md(s@.take(i as int)) + seq![s@[i as int]]);
        }
        i = i + 1;
    }
    proof {
        assert(s@.take(s@.len() as int) =~= s@);
    }
    out
}

/// Stripping leaves no marker characters behind.
pub proof fn lemma_strip_md_clean(s: Seq<char>)
    ensures
        forall|k: int| 0 <= k < strip_md(s).len() ==> !is_md_mark(#[trigger] strip_md(s)[k]),
    decreases s.len(),
{
    if s.len() > 0 {
        lemma_strip_md_clean(s.drop_last());
        let a = strip_md(s.drop_last());
        assert forall|k: int| 0 <= k < strip_md(s).len() implies !is_md_mark(
            #[trigger] strip_md(s)[k],
        ) by {
            if k < a.len() {
                assert(strip_md(s)[k] == a[k]);
            } else {
                assert(strip_md(s)[k] == s.last());
            }
        }
    }
}

// ---------------------------------------------------------------------------
// Link syntax
// ---------------------------------------------------------------------------
/// Position of the first `](` at or after `i`, giving up at a newline.
pub open spec fn find_link_mid(s: Seq<char>, i: int) -> Option<int>
    decreases s.len() - i,
    when 0 <= i
{
    if i + 2 > s.len() {
        None
    } else if matches_at(s, "]("@, i) {
        Some(i)
    } else if s[i] == '\n' {
        None
    } else {
        find_link_mid(s, i + 1)
    }
}

/// Position of the first `)` at or after `i`, giving up at a newline.
pub open spec fn find_link_end(s: Seq<char>, i: int) -> Option<int>
    decreases s.len() - i,
    when 0 <= i
{
    if i >= s.len() {
        None
    } else if s[i] == ')' {
        Some(i)
    } else if s[i] == '\n' {
        None
    } else {
        find_link_end(s, i + 1)
    }
}

pub proof fn lemma_find_link_mid_bounds(s: Seq<char>, i: int)
    requires
        0 <= i,
    ensures
        find_link_mid(s, i) matches Some(j) ==> i <= j && j + 2 <= s.len(),
    decreases s.len() - i,
{
    if i + 2 > s.len() {
    } else if matches_at(s, "]("@, i) {
        reveal_strlit("](");
    } else if s[i] == '\n' {
    } else {
        lemma_find_link_mid_bounds(s, i + 1);
    }
}

pub proof fn lemma_find_link_end_bounds(s: Seq<char>, i: int)
    requires
        0 <= i,
    ensures
        find_link_end(s, i) matches Some(k) ==> i <= k && k < s.len(),
    decreases s.len() - i,
{
    if i >= s.len() {
    } else if s[i] == ')' {
    } else if s[i] == '\n' {
    } else {
        lemma_find_link_end_bounds(s, i + 1);
    }
}

/// The text and the target of a link opening at `i`, when the bracketed
/// syntax is complete on the line.
pub open spec fn link_parts(s: Seq<char>, i: int) -> Option<(int, int)> {
    match find_link_mid(s, i + 1) {
        None => None,
        Some(j) => match find_link_end(s, j + 2) {
            None => None,
            Some(k) => Some((j, k)),
        },
    }
}

/// Every complete `[text](url)` rewritten left to right: to an anchor tag
/// when `html` holds, to `text (url)` otherwise. Other characters pass
/// through unchanged.
pub open spec fn links_from(s: Seq<char>, i: int, html: bool) -> Seq<char>
    decreases s.len() - i,
    when 0 <= i <= s.len()
    via links_from_dec
{
    if i >= s.len() {
        Seq::empty()
    } else if s[i] == '[' && link_parts(s, i) is Some {
        let jk = link_parts(s, i)->Some_0;
        (if html {
            "<a href=\""@ + s.subrange(jk.0 + 2, jk.1) + "\">"@ + s.subrange(i + 1, jk.0)
                + "</a>"@
        } else {
            s.subrange(i + 1, jk.0) + " ("@ + s.subrange(jk.0 + 2, jk.1) + ")"@
        }) + links_from(s, jk.1 + 1, html)
    } else {
        seq![s[i]] + links_from(s, i + 1, html)
    }
}

#[via_fn]
proof fn links_from_dec(s: Seq<char>, i: int, html: bool) {
    if i < s.len() && s[i] == '[' && link_parts(s, i) is Some {
        lemma_find_link_mid_bounds(s, i + 1);
        let j = find_link_mid(s, i + 1)->Some_0;
        lemma_find_link_end_bounds(s, j + 2);
    }
}

/// Rewrites every complete link, left to right.
pub fn links_rewrite(s: &Vec<char>, html: bool) -> (r: Vec<char>)
    ensures
        r@ == links_from(s@, 0, html),
{
    let mid = crate::text::chars_vec("](");
    let mut out: Vec<char> = Vec::new();
    let mut i: usize = 0;
    while i < s.len()
        invariant
            i <= s@.len(),
            mid@ == "]("@,
            links_from(s@, 0, html) == out@ + links_from(s@, i as int, html),
        decreases s@.len() - i,
    {
        let c = s[i];
        let mut rewritten = false;
        if c == '[' {
            if let Some(j) = find_link_mid_exec(s, &mid, i + 1) {
                proof {
                    lemma_find_link_mid_bounds(s@, i + 1);
                }
                if let Some(k) = find_link_end_exec(s, j + 2) {
                    proof {
                        lemma_find_link_end_bounds(s@, j + 2);
                    }
                    if html {
                        push_str(&mut out, "<a href=\"");
                        push_subrange(&mut out, s, j + 2, k);
                        push_str(&mut out, "\">");
                        push_subrange(&mut out, s, i + 1, j);
                        push_str(&mut out, "</a>");
                    } else {
                        push_subrange(&mut out, s, i + 1, j);
                        push_str(&mut out, " (");
                        push_subrange(&mut out, s, j + 2, k);
                        push_str(&mut out, ")");
                    }
                    i = k + 1;
                    rewritten = true;
                    assert(links_from(s@, 0, html) =~= out@ + links_from(s@, i as int, html));
                }
            }
        }
        if !rewritten {
            push_char(&mut out, c);
            i = i + 1;
            assert(links_from(s@, 0, html) =~= out@ + links_from(s@, i as int, html));
        }
    }
    out
}

/// Finds the first `](` at or after `from`, giving up at a newline.
fn find_link_mid_exec(s: &Vec<char>, mid: &Vec<char>, from: usize) -> (r: Option<usize>)
    requires
        from <= s@.len(),
        mid@ == "]("@,
    ensures
        match r {
            Some(j) => find_link_mid(s@, from as int) == Some(j as int),
            None => find_link_mid(s@, from as int) is None,
        },
{
    proof {
        reveal_strlit("](");
    }
    let mut i: usize = from;
    while s.len() - i >= 2
        invariant
            from <= i <= s@.len(),
            mid@ == "]("@,
            mid@.len() == 2,
            find_link_mid(s@, from as int) == find_link_mid(s@, i as int),
        decreases s@.len() - i,
    {
        if is_match_at(s, mid, i) {
            return Some(i);
        }
        if s[i] == '\n' {
            return None;
        }
        i = i + 1;
    }
    None
}

/// Finds the first `)` at or after `from`, giving up at a newline.
fn find_link_end_exec(s: &Vec<char>, from: usize) -> (r: Option<usize>)
    requires
        from <= s@.len(),
    ensures
        match r {
            Some(k) => find_link_end(s@, from as int) == Some(k as int),
            None => find_link_end(s@, from as int) is None,
        },
{
    let mut i: usize = from;
    while i < s.len()
        invariant
            from <= i <= s@.len(),
            find_link_end(s@, from as int) == find_link_end(s@, i as int),
        decreases s@.len() - i,
    {
        if s[i] == ')' {
            return Some(i);
        }
        if s[i] == '\n' {
            return None;
        }
        i = i + 1;
    }
    None
}

// ---------------------------------------------------------------------------
// Plain text: strip markers per line, then rewrite links
// ---------------------------------------------------------------------------
/// One line of plain text: markers stripped, links rewritten.
pub open spec fn spec_plain_line(line: Seq<char>) -> Seq<char> {
    links_from(strip_md(line), 0, false)
}

/// The plain-text document from `i` on: each newline-terminated line is
/// converted and a newline is appended, the last line whether or not it
/// was terminated.
pub open spec fn spec_plain_from(md: Seq<char>, i: int) -> Seq<char>
    decreases md.len() - i,
    when 0 <= i
    via spec_plain_from_dec
{
    if i >= md.len() {
        Seq::empty()
    } else {
        let j = find_char_from(md, '\n', i);
        spec_plain_line(md.subrange(i, j)) + "\n"@ + if j < md.len() {
            spec_plain_from(md, j + 1)
        } else {
            Seq::empty()
        }
    }
}

#[via_fn]
proof fn spec_plain_from_dec(md: Seq<char>, i: int) {
    if i < md.len() {
        lemma_find_char_from_bounds(md, '\n', i);
    }
}

/// The whole plain-text document.
pub open spec fn spec_plaintext(md: Seq<char>) -> Seq<char> {
    spec_plain_from(md, 0)
}

/// Converts a Markdown document to plain text, line by line.
pub fn plaintext_of(md: &Vec<char>) -> (r: Vec<char>)
    ensures
        r@ == spec_plaintext(md@),
{
    let mut out: Vec<char> = Vec::new();
    let mut i: usize = 0;
    while i < md.len()
        invariant
            i <= md@.len(),
            spec_plaintext(md@) == out@ + spec_plain_from(md@, i as int),
        decreases md@.len() - i,
    {
        let j = find_char_exec(md, '\n', i);
        let mut line: Vec<char> = Vec::new();
        push_subrange(&mut line, md, i, j);
        let stripped = strip_md_exec(&line);
        let rewritten = links_rewrite(&stripped, false);
        push_chars(&mut out, &rewritten);
        push_str(&mut out, "\n");
        proof {
            assert(line@ =~= md@.subrange(i as int, j as int));
        }
        if j < md.len() {
            i = j + 1;
        } else {
            i = j;
        }
        assert(spec_plaintext(md@) =~= out@ + spec_plain_from(md@, i as int));
    }
    out
}

// ---------------------------------------------------------------------------
// HTML: emphasis pairing, list items, list containers
// ---------------------------------------------------------------------------
/// Every second occurrence of the opening tag rewritten to the closing tag,
/// left to right, so that the tags pair up in document order; a final
/// unmatched tag stays an opening one.
pub open spec fn pair_from(
    s: Seq<char>,
    open_tag: Seq<char>,
    close_tag: Seq<char>,
    swap: bool,
    i: int,
) -> Seq<char>
    decreases s.len() - i,
    when 0 <= i && 1 <= open_tag.len()
{
    if i + open_tag.len() > s.len() {
        s.skip(i)
    } else if matches_at(s, open_tag, i) {
        (if swap {
            close_tag
        } else {
            open_tag
        }) + pair_from(s, open_tag, close_tag, !swap, i + open_tag.len())
    } else {
        seq![s[i]] + pair_from(s, open_tag, close_tag, swap, i + 1)
    }
}

/// Pairs emphasis tags up: the first, third, ... occurrence stays an
/// opening tag, the second, fourth, ... becomes the closing tag.
pub fn pair_rewrite(s: &Vec<char>, open_tag: &Vec<char>, close_tag: &Vec<char>) -> (r: Vec<char>)
    requires
        1 <= open_tag@.len(),
    ensures
        r@ == pair_from(s@, open_tag@, close_tag@, false, 0),
{
    let mut out: Vec<char> = Vec::new();
    let mut swap = false;
    let mut i: usize = 0;
    while s.len() - i >= open_tag.len()
        invariant
            i <= s@.len(),
            1 <= open_tag@.len(),
            pair_from(s@, open_tag@, close_tag@, false, 0) == out@ + pair_from(
                s@,
                open_tag@,
                close_tag@,
                swap,
                i as int,
            ),
        decreases s@.len() - i,
    {
        if is_match_at(s, open_tag, i) {
            if swap {
                push_chars(&mut out, close_tag);
            } else {
                push_chars(&mut out, open_tag);
            }
            swap = !swap;
            i = i + open_tag.len();
        } else {
            push_char(&mut out, s[i]);
            i = i + 1;
        }
        assert(pair_from(s@, open_tag@, close_tag@, false, 0) =~= out@ + pair_from(
            s@,
            open_tag@,
            close_tag@,
            swap,
            i as int,
        ));
    }
    while i < s.len()
        invariant
            i <= s@.len(),
            s@.len() - i < open_tag@.len(),
            1 <= open_tag@.len(),
            pair_from(s@, open_tag@, close_tag@, false, 0) == out@ + s@.skip(i as int),
        decreases s@.len() - i,
    {
        push_char(&mut out, s[i]);
        i = i + 1;
        assert(pair_from(s@, open_tag@, close_tag@, false, 0) =~= out@ + s@.skip(i as int));
    }
    proof {
        assert(s@.skip(s@.len() as int) =~= Seq::<char>::empty());
        assert(out@ =~= out@ + s@.skip(s@.len() as int));
    }
    out
}

/// After each `<li>`, a `</li>` is inserted before the line's end.
pub open spec fn li_close_from(s: Seq<char>, i: int) -> Seq<char>
    decreases s.len() - i,
    when 0 <= i <= s.len()
    via li_close_from_dec
{
    if i >= s.len() {
        Seq::empty()
    } else if matches_at(s, "<li>"@, i) {
        let j = find_char_from(s, '\n', i + 4);
        "<li>"@ + s.subrange(i + 4, j) + "</li>"@ + li_close_from(s, j)
    } else {
        seq![s[i]] + li_close_from(s, i + 1)
    }
}

#[via_fn]
proof fn li_close_from_dec(s: Seq<char>, i: int) {
    if i < s.len() && matches_at(s, "<li>"@, i) {
        reveal_strlit("<li>");
        lemma_find_char_from_bounds(s, '\n', i + 4);
    }
}

/// Closes every list item before its line's end.
pub fn li_close_pass(s: &Vec<char>) -> (r: Vec<char>)
    ensures
        r@ == li_close_from(s@, 0),
{
    let li = crate::text::chars_vec("<li>");
    proof {
        reveal_strlit("<li>");
    }
    let mut out: Vec<char> = Vec::new();
    let mut i: usize = 0;
    while i < s.len()
        invariant
            i <= s@.len(),
            li@ == "<li>"@,
            li@.len() == 4,
            li_close_from(s@, 0) == out@ + li_close_from(s@, i as int),
        decreases s@.len() - i,
    {
        if s.len() - i >= 4 && is_match_at(s, &li, i) {
            let j = find_char_exec(s, '\n', i + 4);
            push_str(&mut out, "<li>");
            push_subrange(&mut out, s, i + 4, j);
            push_str(&mut out, "</li>");
            i = j;
        } else {
            push_char(&mut out, s[i]);
            i = i + 1;
        }
        assert(li_close_from(s@, 0) =~= out@ + li_close_from(s@, i as int));
    }
    out
}

/// Position of the first `</li>` at or after `i`, giving up at a newline.
pub open spec fn find_close_li(s: Seq<char>, i: int) -> Option<int>
    decreases s.len() - i,
    when 0 <= i
{
    if i + 5 > s.len() {
        None
    } else if matches_at(s, "</li>"@, i) {
        Some(i)
    } else if s[i] == '\n' {
        None
    } else {
        find_close_li(s, i + 1)
    }
}

pub proof fn lemma_find_close_li_bounds(s: Seq<char>, i: int)
    requires
        0 <= i,
    ensures
        find_close_li(s, i) matches Some(j) ==> i <= j && j + 5 <= s.len(),
    decreases s.len() - i,
{
    if i + 5 > s.len() {
    } else if matches_at(s, "</li>"@, i) {
        reveal_strlit("</li>");
    } else if s[i] == '\n' {
    } else {
        lemma_find_close_li_bounds(s, i + 1);
    }
}

/// A complete list item opens at `i`: the opening tag with its closing tag
/// on the same line.
pub open spec fn is_li_item(s: Seq<char>, i: int) -> bool {
    0 <= i && matches_at(s, "<li>"@, i) && find_close_li(s, i + 4) is Some
}

/// Where the complete item opening at `i` ends (one past its closing tag).
pub open spec fn li_item_end(s: Seq<char>, i: int) -> int {
    find_close_li(s, i + 4)->Some_0 + 5
}

/// Maximal runs of immediately adjacent complete list items wrapped in a
/// list container; everything else passes through.
pub open spec fn ul_from(s: Seq<char>, i: int) -> Seq<char>
    decreases s.len() - i, 1int,
    when 0 <= i <= s.len()
{
    if i >= s.len() {
        Seq::empty()
    } else if is_li_item(s, i) {
        "<ul>"@ + ul_run(s, i)
    } else {
        seq![s[i]] + ul_from(s, i + 1)
    }
}

/// The items of one run, followed by the closing container and the rest of
/// the text.
pub open spec fn ul_run(s: Seq<char>, i: int) -> Seq<char>
    decreases s.len() - i, 0int,
    when 0 <= i <= s.len() && is_li_item(s, i)
    via ul_run_dec
{
    let k = li_item_end(s, i);
    s.subrange(i, k) + if is_li_item(s, k) {
        ul_run(s, k)
    } else {
        "</ul>"@ + ul_from(s, k)
    }
}

#[via_fn]
proof fn ul_run_dec(s: Seq<char>, i: int) {
    if 0 <= i <= s.len() && is_li_item(s, i) {
        lemma_find_close_li_bounds(s, i + 4);
    }
}

/// What remains to be emitted while scanning inside or outside a run.
pub open spec fn ul_cont(s: Seq<char>, i: int) -> Seq<char> {
    if is_li_item(s, i) {
        ul_run(s, i)
    } else {
        "</ul>"@ + ul_from(s, i)
    }
}

/// Tests for a complete list item at `i` and hands back where it ends.
fn li_item_at(s: &Vec<char>, li: &Vec<char>, i: usize) -> (r: Option<usize>)
    requires
        i <= s@.len(),
        li@ == "<li>"@,
    ensures
        match r {
            Some(k) => is_li_item(s@, i as int) && k == li_item_end(s@, i as int) && i < k
                <= s@.len(),
            None => !is_li_item(s@, i as int),
        },
{
    proof {
        reveal_strlit("<li>");
    }
    if s.len() - i >= 4 && is_match_at(s, li, i) {
        match find_close_li_exec(s, i + 4) {
            Some(j) => {
                proof {
                    lemma_find_close_li_bounds(s@, i + 4);
                }
                Some(j + 5)
            },
            None => None,
        }
    } else {
        None
    }
}

/// Finds the first `</li>` at or after `from`, giving up at a newline.
fn find_close_li_exec(s: &Vec<char>, from: usize) -> (r: Option<usize>)
    requires
        from <= s@.len(),
    ensures
        match r {
            Some(j) => find_close_li(s@, from as int) == Some(j as int),
            None => find_close_li(s@, from as int) is None,
        },
{
    let close = crate::text::chars_vec("</li>");
    proof {
        reveal_strlit("</li>");
    }
    let mut i: usize = from;
    while s.len() - i >= 5
        invariant
            from <= i <= s@.len(),
            close@ == "</li>"@,
            close@.len() == 5,
            find_close_li(s@, from as int) == find_close_li(s@, i as int),
        decreases s@.len() - i,
    {
        if is_match_at(s, &close, i) {
            return Some(i);
        }
        if s[i] == '\n' {
            return None;
        }
        i = i + 1;
    }
    None
}

/// Wraps maximal runs of immediately adjacent list items in a container.
pub fn ul_pass(s: &Vec<char>) -> (r: Vec<char>)
    ensures
        r@ == ul_from(s@, 0),
{
    let li = crate::text::chars_vec("<li>");
    proof {
        reveal_strlit("<li>");
    }
    let mut out: Vec<char> = Vec::new();
    let mut in_run = false;
    let mut i: usize = 0;
    while i < s.len() || in_run
        invariant
            i <= s@.len(),
            li@ == "<li>"@,
            ul_from(s@, 0) == out@ + if in_run {
                ul_cont(s@, i as int)
            } else {
                ul_from(s@, i as int)
            },
        decreases s@.len() - i, (if in_run { 1int } else { 0int }),
    {
        if !in_run {
            match li_item_at(s, &li, i) {
                Some(k) => {
                    proof {
                        assert(ul_from(s@, i as int) == "<ul>"@ + ul_run(s@, i as int));
                        assert(ul_run(s@, i as int) == s@.subrange(i as int, k as int) + ul_cont(
                            s@,
                            k as int,
                        ));
                    }
                    push_str(&mut out, "<ul>");
                    push_subrange(&mut out, s, i, k);
                    in_run = true;
                    i = k;
                },
                None => {
                    push_char(&mut out, s[i]);
                    i = i + 1;
                },
            }
        } else {
            let mut advanced = false;
            if i < s.len() {
                if let Some(k) = li_item_at(s, &li, i) {
                    proof {
                        assert(ul_cont(s@, i as int) == ul_run(s@, i as int));
                        assert(ul_run(s@, i as int) == s@.subrange(i as int, k as int) + ul_cont(
                            s@,
                            k as int,
                        ));
                    }
                    push_subrange(&mut out, s, i, k);
                    i = k;
                    advanced = true;
                }
            }
            if !advanced {
                proof {
                    if i >= s@.len() {
                        reveal_strlit("<li>");
                        assert(!is_li_item(s@, i as int));
                    }
                }
                push_str(&mut out, "</ul>");
                in_run = false;
            }
        }
        assert(ul_from(s@, 0) =~= out@ + if in_run {
            ul_cont(s@, i as int)
        } else {
            ul_from(s@, i as int)
        });
    }
    proof {
        assert(ul_from(s@, s@.len() as int) =~= Seq::<char>::empty());
        assert(out@ =~= out@ + ul_from(s@, s@.len() as int));
    }
    out
}

/// Rewriting the links of a marker-free line leaves it marker-free: the
/// inserted characters are not markers and the copied ones come from the
/// line.
pub proof fn lemma_links_from_clean(s: Seq<char>, i: int)
    requires
        0 <= i <= s.len(),
        forall|k: int| 0 <= k < s.len() ==> !is_md_mark(#[trigger] s[k]),
    ensures
        forall|k: int|
            0 <= k < links_from(s, i, false).len() ==> !is_md_mark(
                #[trigger] links_from(s, i, false)[k],
            ),
    decreases s.len() - i,
{
    reveal_strlit(" (");
    reveal_strlit(")");
    if i >= s.len() {
    } else if s[i] == '[' && link_parts(s, i) is Some {
        let jk = link_parts(s, i)->Some_0;
        lemma_find_link_mid_bounds(s, i + 1);
        lemma_find_link_end_bounds(s, jk.0 + 2);
        lemma_links_from_clean(s, jk.1 + 1);
        let t = s.subrange(i + 1, jk.0);
        let u = s.subrange(jk.0 + 2, jk.1);
        let piece = t + " ("@ + u + ")"@;
        let rest = links_from(s, jk.1 + 1, false);
        assert(links_from(s, i, false) == piece + rest);
        assert forall|k: int| 0 <= k < links_from(s, i, false).len() implies !is_md_mark(
            #[trigger] links_from(s, i, false)[k],
        ) by {
            if k < t.len() {
                assert(links_from(s, i, false)[k] == t[k] && t[k] == s[i + 1 + k]);
            } else if k < t.len() + 2 {
                assert(links_from(s, i, false)[k] == " ("@[k - t.len()]);
            } else if k < t.len() + 2 + u.len() {
                assert(links_from(s, i, false)[k] == u[k - t.len() - 2] && u[k - t.len() - 2]
                    == s[jk.0 + 2 + (k - t.len() - 2)]);
            } else if k < piece.len() {
                assert(links_from(s, i, false)[k] == ")"@[0]);
            } else {
                assert(links_from(s, i, false)[k] == rest[k - piece.len()]);
            }
        }
    } else {
        lemma_links_from_clean(s, i + 1);
        let rest = links_from(s, i + 1, false);
        assert forall|k: int| 0 <= k < links_from(s, i, false).len() implies !is_md_mark(
            #[trigger] links_from(s, i, false)[k],
        ) by {
            if k == 0 {
                assert(links_from(s, i, false)[0] == s[i]);
            } else {
                assert(links_from(s, i, false)[k] == rest[k - 1]);
            }
        }
    }
}

/// The plain-text conversion emits no `#`, `*` or `_`.
pub proof fn lemma_plaintext_clean(md: Seq<char>, i: int)
    requires
        0 <= i,
    ensures
        forall|k: int|
            0 <= k < spec_plain_from(md, i).len() ==> !is_md_mark(
                #[trigger] spec_plain_from(md, i)[k],
            ),
    decreases md.len() - i,
{
    reveal_strlit("\n");
    if i < md.len() {
        let j = find_char_from(md, '\n', i);
        lemma_find_char_from_bounds(md, '\n', i);
        let line = md.subrange(i, j);
        lemma_strip_md_clean(line);
        lemma_links_from_clean(strip_md(line), 0);
        if j < md.len() {
            lemma_plaintext_clean(md, j + 1);
        }
        let conv = spec_plain_line(line);
        let rest = if j < md.len() {
            spec_plain_from(md, j + 1)
        } else {
            Seq::<char>::empty()
        };
        assert(spec_plain_from(md, i) == conv + "\n"@ + rest);
        assert forall|k: int| 0 <= k < spec_plain_from(md, i).len() implies !is_md_mark(
            #[trigger] spec_plain_from(md, i)[k],
        ) by {
            if k < conv.len() {
                assert(spec_plain_from(md, i)[k] == conv[k]);
            } else if k < conv.len() + 1 {
                assert(spec_plain_from(md, i)[k] == "\n"@[0]);
            } else {
                assert(spec_plain_from(md, i)[k] == rest[k - conv.len() - 1]);
            }
        }
    }
}

} // verus!
