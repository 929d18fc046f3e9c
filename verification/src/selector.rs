//! Content selector.
//!
//! Scores every element of a parsed HTML fragment by content density —
//! trimmed text length divided by one plus the direct child count — after
//! skipping structural chrome (script, style, header, footer, nav, anchors)
//! and elements with fewer than ten bytes of text.  The element with the
//! strictly highest score wins; ties keep the earliest in document order.
//! Scores are compared exactly, by cross-multiplication.
use vstd::prelude::*;

verus! {

/// Least trimmed text length (in bytes) an element needs to be a candidate.
pub const MIN_TEXT_LEN: usize = 10;

/// Mathematical model of one candidate element.
pub ghost struct CandidateModel {
    /// Lowercased tag name.
    pub tag: Seq<char>,
    /// Byte length of the element's whole descendant text, trimmed.
    pub text_len: int,
    /// Number of immediate child nodes.
    pub child_count: int,
    /// Serialized outer markup.
    pub html: Seq<char>,
}

/// One candidate element of the fragment, as the parser reported it.
pub struct Candidate {
    pub tag: String,
    pub text_len: usize,
    pub child_count: usize,
    pub html: String,
}

impl View for Candidate {
    type V = CandidateModel;

    open spec fn view(&self) -> CandidateModel {
        CandidateModel {
            tag: self.tag@,
            text_len: self.text_len as int,
            child_count: self.child_count as int,
            html: self.html@,
        }
    }
}

/// Tags that never qualify as content, however much text they hold.
pub open spec fn excluded_tag(t: Seq<char>) -> bool {
    ||| t == "script"@
    ||| t == "style"@
    ||| t == "header"@
    ||| t == "footer"@
    ||| t == "nav"@
    ||| t == "a"@
}

/// Whether an element may be selected at all.
pub open spec fn qualifies(c: CandidateModel) -> bool {
    !excluded_tag(c.tag) && c.text_len >= MIN_TEXT_LEN as int
}

/// Whether `a` scores strictly higher than `b`: the densities
/// `text_len / (1 + child_count)` compared exactly by cross-multiplication.
pub open spec fn score_gt(a: CandidateModel, b: CandidateModel) -> bool {
    a.text_len * (1 + b.child_count) > b.text_len * (1 + a.child_count)
}

/// With equal qualifying text, the element that concentrates it in fewer
/// direct children scores strictly higher: the density measure favors prose
/// over aggregation.
pub proof fn lemma_fewer_children_score_higher(a: CandidateModel, b: CandidateModel)
    requires
        a.text_len == b.text_len,
        a.text_len > 0,
        0 <= a.child_count < b.child_count,
    ensures
        score_gt(a, b),
{
    vstd::arithmetic::mul::lemma_mul_strict_inequality(
        1 + a.child_count,
        1 + b.child_count,
        a.text_len,
    );
    assert(a.text_len * (1 + b.child_count) == (1 + b.child_count) * a.text_len);
    assert(b.text_len * (1 + a.child_count) == (1 + a.child_count) * a.text_len);
}

/// Index of the winner among the first `n` candidates: the qualifying
/// element with the strictly highest score, the earliest on ties.
pub open spec fn best_upto(cands: Seq<CandidateModel>, n: int) -> Option<int>
    decreases n,
{
    if n <= 0 {
        None
    } else {
        let prev = best_upto(cands, n - 1);
        let c = cands[n - 1];
        if qualifies(c) && (prev is None || score_gt(c, cands[prev->0])) {
            Some(n - 1)
        } else {
            prev
        }
    }
}

/// The winner over the whole candidate sequence.
pub open spec fn best_candidate(cands: Seq<CandidateModel>) -> Option<int> {
    best_upto(cands, cands.len() as int)
}

/// The winner is a real, qualifying index; in particular it is never one of
/// the excluded tags, whatever text they hold.
pub proof fn lemma_best_qualifies(cands: Seq<CandidateModel>, n: int)
    requires
        0 <= n <= cands.len(),
        best_upto(cands, n) is Some,
    ensures
        0 <= best_upto(cands, n)->0 < n,
        qualifies(cands[best_upto(cands, n)->0]),
        !excluded_tag(cands[best_upto(cands, n)->0].tag),
    decreases n,
{
    if n > 0 {
        if best_upto(cands, n) != best_upto(cands, n - 1) {
        } else {
            lemma_best_qualifies(cands, n - 1);
        }
    }
}

/// A candidate whose counts are sizes: nonnegative.
pub open spec fn cand_wf(c: CandidateModel) -> bool {
    c.text_len >= 0 && c.child_count >= 0
}

/// Density scores order as the fractions do: a candidate strictly above `b`
/// also stands strictly above everything not strictly above `b`.
proof fn lemma_score_order(a: CandidateModel, b: CandidateModel, x: CandidateModel)
    requires
        cand_wf(a),
        cand_wf(b),
        cand_wf(x),
        score_gt(a, b),
        !score_gt(x, b),
    ensures
        score_gt(a, x),
{
    let av = a.text_len;
    let bv = b.text_len;
    let xv = x.text_len;
    let ap = 1 + a.child_count;
    let bp = 1 + b.child_count;
    let xp = 1 + x.child_count;
    assert(av * xp > xv * ap) by (nonlinear_arith)
        requires
            av * bp > bv * ap,
            !(xv * bp > bv * xp),
            av >= 0,
            bv >= 0,
            xv >= 0,
            ap >= 1,
            bp >= 1,
            xp >= 1,
    {
    }
}

/// What winning means: no qualifying candidate scores strictly higher than
/// the winner, and the winner scores strictly higher than every qualifying
/// candidate before it — ties keep the earliest element.
pub proof fn lemma_best_is_max(cands: Seq<CandidateModel>, n: int)
    requires
        0 <= n <= cands.len(),
        forall|j: int| 0 <= j < n ==> cand_wf(#[trigger] cands[j]),
        best_upto(cands, n) is Some,
    ensures
        forall|j: int|
            0 <= j < n && qualifies(#[trigger] cands[j]) ==> !score_gt(
                cands[j],
                cands[best_upto(cands, n)->0],
            ),
        forall|j: int|
            0 <= j < best_upto(cands, n)->0 && qualifies(#[trigger] cands[j]) ==> score_gt(
                cands[best_upto(cands, n)->0],
                cands[j],
            ),
    decreases n,
{
    if n > 0 {
        let c = cands[n - 1];
        let prev = best_upto(cands, n - 1);
        lemma_best_qualifies(cands, n);
        if prev is Some {
            lemma_best_is_max(cands, n - 1);
            lemma_best_qualifies(cands, n - 1);
            let p = prev->0;
            if qualifies(c) && score_gt(c, cands[p]) {
                assert forall|j: int| 0 <= j < n - 1 && qualifies(#[trigger] cands[j]) implies score_gt(
                    c,
                    cands[j],
                ) by {
                    lemma_score_order(c, cands[p], cands[j]);
                }
            }
        } else {
            lemma_no_best_no_qualifier(cands, n - 1);
        }
    }
}

/// And when no one wins, no candidate qualified.
pub proof fn lemma_no_best_no_qualifier(cands: Seq<CandidateModel>, n: int)
    requires
        0 <= n <= cands.len(),
        best_upto(cands, n) is None,
    ensures
        forall|j: int| 0 <= j < n ==> !qualifies(#[trigger] cands[j]),
    decreases n,
{
    if n > 0 {
        lemma_no_best_no_qualifier(cands, n - 1);
    }
}

/// A qualifying candidate that strictly outscores every other qualifying
/// candidate is the one selected.
pub proof fn lemma_strict_winner_selected(cands: Seq<CandidateModel>, a: int)
    requires
        forall|j: int| 0 <= j < cands.len() ==> cand_wf(#[trigger] cands[j]),
        0 <= a < cands.len(),
        qualifies(cands[a]),
        forall|j: int|
            0 <= j < cands.len() && j != a && qualifies(#[trigger] cands[j]) ==> score_gt(
                cands[a],
                cands[j],
            ),
    ensures
        best_candidate(cands) == Some(a),
{
    let n = cands.len() as int;
    if best_upto(cands, n) is None {
        lemma_no_best_no_qualifier(cands, n);
    }
    let i = best_upto(cands, n)->0;
    lemma_best_qualifies(cands, n);
    lemma_best_is_max(cands, n);
    if i != a {
        assert(score_gt(cands[a], cands[i]));
        assert(!score_gt(cands[a], cands[i]));
    }
}

/// Two qualifying candidates carrying the same text, one spreading it over
/// more direct children: the denser one scores strictly higher, and — since
/// ties keep the earliest element — whenever every other qualifying
/// candidate scores strictly below it, it is the one selected.
pub proof fn lemma_denser_sibling_selected(cands: Seq<CandidateModel>, a: int, b: int)
    requires
        forall|j: int| 0 <= j < cands.len() ==> cand_wf(#[trigger] cands[j]),
        0 <= a < cands.len(),
        0 <= b < cands.len(),
        a != b,
        qualifies(cands[a]),
        qualifies(cands[b]),
        cands[a].text_len == cands[b].text_len,
        cands[a].text_len > 0,
        cands[a].child_count < cands[b].child_count,
        forall|j: int|
            0 <= j < cands.len() && j != a && j != b && qualifies(#[trigger] cands[j])
                ==> score_gt(cands[a], cands[j]),
    ensures
        score_gt(cands[a], cands[b]),
        best_candidate(cands) == Some(a),
{
    lemma_fewer_children_score_higher(cands[a], cands[b]);
    lemma_strict_winner_selected(cands, a);
}

/// The models of a candidate sequence.
pub open spec fn cands_model(cands: Seq<Candidate>) -> Seq<CandidateModel> {
    cands.map_values(|c: Candidate| c@)
}

/// Whether the tag is one of the excluded ones.
fn tag_is_excluded(tag: &String) -> (r: bool)
    ensures
        r == excluded_tag(tag@),
{
    let script = String::from_str("script");
    let style = String::from_str("style");
    let header = String::from_str("header");
    let footer = String::from_str("footer");
    let nav = String::from_str("nav");
    let anchor = String::from_str("a");
    tag.eq(&script) || tag.eq(&style) || tag.eq(&header) || tag.eq(&footer) || tag.eq(&nav)
        || tag.eq(&anchor)
}

/// Whether `a` scores strictly higher than `b`, exactly.
fn scores_higher(a: &Candidate, b: &Candidate) -> (r: bool)
    ensures
        r == score_gt(a@, b@),
{
    let al = a.text_len as u128;
    let bl = b.text_len as u128;
    let ac = 1 + (a.child_count as u128);
    let bc = 1 + (b.child_count as u128);
    proof {
        vstd::arithmetic::mul::lemma_mul_upper_bound(
            al as int,
            u64::MAX as int,
            bc as int,
            u64::MAX as int + 1,
        );
        vstd::arithmetic::mul::lemma_mul_upper_bound(
            bl as int,
            u64::MAX as int,
            ac as int,
            u64::MAX as int + 1,
        );
    }
    let left = al * bc;
    let right = bl * ac;
    left > right
}

/// Index of the best candidate: the qualifying element with the strictly
/// highest density score, the earliest on ties; `None` when no element
/// qualifies.
pub fn select_best(cands: &Vec<Candidate>) -> (r: Option<usize>)
    ensures
        match r {
            Some(i) => best_candidate(cands_model(cands@)) == Some(i as int),
            None => best_candidate(cands_model(cands@)) is None,
        },
{
    let ghost m = cands_model(cands@);
    let mut best: Option<usize> = None;
    let mut i: usize = 0;
    while i < cands.len()
        invariant
            0 <= i <= cands.len(),
            m == cands_model(cands@),
            m.len() == cands@.len(),
            match best {
                Some(b) => best_upto(m, i as int) == Some(b as int) && b < i,
                None => best_upto(m, i as int) is None,
            },
        decreases cands.len() - i,
    {
        proof {
            assert(m[i as int] == cands@[i as int]@);
        }
        let c = &cands[i];
        let qual = !tag_is_excluded(&c.tag) && c.text_len >= MIN_TEXT_LEN;
        let take = qual && match best {
            Some(b) => scores_higher(c, &cands[b]),
            None => true,
        };
        if take {
            best = Some(i);
        }
        i = i + 1;
    }
    best
}

/// The candidate elements of the parsed fragment, in document order, with
/// the fields the density heuristic reads; a function of the markup alone.
pub uninterp spec fn candidates_of(html: Seq<char>) -> Seq<CandidateModel>;

/// Relies on scraper's `Html::parse_fragment`, `Html::select` with the
/// universal selector, and `ElementRef`'s `value().name()`, `text()`,
/// `children()` and `html()`: yields every element of the fragment in
/// document order, each with its lowercased tag name, the byte length of its
/// trimmed descendant text, its direct child node count, and its serialized
/// outer markup.
#[verifier::external_body]
fn parse_candidates(html: &str) -> (r: Vec<Candidate>)
    ensures
        cands_model(r@) == candidates_of(html@),
{
    let all = scraper::Selector::parse("*").unwrap();
    let fragment = scraper::Html::parse_fragment(html);
    fragment
        .select(&all)
        .map(|e| Candidate {
            tag: e.value().name().to_lowercase(),
            text_len: e.text().collect::<String>().trim().len(),
            child_count: e.children().count(),
            html: e.html(),
        })
        .collect()
}

/// The serialized outer markup of the fragment's winning element, or `None`
/// when no element qualifies.
pub fn find_best_element_html(html: &str) -> (r: Option<String>)
    ensures
        match r {
            Some(s) => best_candidate(candidates_of(html@)) is Some && s@ == candidates_of(
                html@,
            )[best_candidate(candidates_of(html@))->0].html,
            None => best_candidate(candidates_of(html@)) is None,
        },
{
    let cands = parse_candidates(html);
    let best = select_best(&cands);
    match best {
        Some(i) => {
            proof {
                lemma_best_qualifies(cands_model(cands@), cands_model(cands@).len() as int);
                assert(cands_model(cands@)[i as int] == cands@[i as int]@);
            }
            Some(cands[i].html.clone())
        },
        None => None,
    }
}

/// One heuristic-mode poll round's snapshot: the fragment's winning element,
/// or the raw body markup itself when nothing qualifies.
pub fn choose_snapshot(body_html: &str) -> (r: String)
    ensures
        match best_candidate(candidates_of(body_html@)) {
            Some(i) => r@ == candidates_of(body_html@)[i].html,
            None => r@ == body_html@,
        },
{
    match find_best_element_html(body_html) {
        Some(s) => s,
        None => String::from_str(body_html),
    }
}

} // verus!
