//! Results of policy evaluation: guidance items, their order, and the
//! violation that a failed scenario is reported as.

use crate::error::{KanbusError, KanbusErrorView, PolicyViolationDetails, PolicyViolationDetailsView};
use crate::models::clone_strings;
use crate::order::{
    lemma_lt_asymmetric,
    lemma_lt_irreflexive,
    lemma_lt_transitive,
    precedes,
    text_lt,
};
use crate::text::{
    chars_of, ends_with, ends_with_chars, owned, push_str, same_text, starts_with,
    starts_with_chars, string_of,
};
use vstd::prelude::*;

verus! {

/// Guidance severity level.
#[derive(Debug, Clone, Copy, PartialEq, Eq, Hash, Structural)]
pub enum GuidanceSeverity {
    Warning,
    Suggestion,
}

/// A single guidance item emitted during policy evaluation.
#[derive(Debug)]
pub struct GuidanceItem {
    pub severity: GuidanceSeverity,
    pub message: String,
    pub explanations: Vec<String>,
    pub policy_file: String,
    pub scenario: String,
    pub step: String,
}

/// Mathematical content of [`GuidanceItem`].
pub struct GuidanceView {
    pub severity: GuidanceSeverity,
    pub message: Seq<char>,
    pub explanations: Seq<Seq<char>>,
    pub policy_file: Seq<char>,
    pub scenario: Seq<char>,
    pub step: Seq<char>,
}

impl View for GuidanceItem {
    type V = GuidanceView;

    open spec fn view(&self) -> GuidanceView {
        GuidanceView {
            severity: self.severity,
            message: self.message@,
            explanations: self.explanations.deep_view(),
            policy_file: self.policy_file@,
            scenario: self.scenario@,
            step: self.step@,
        }
    }
}

impl DeepView for GuidanceItem {
    type V = GuidanceView;

    open spec fn deep_view(&self) -> GuidanceView {
        self@
    }
}

impl Clone for GuidanceItem {
    fn clone(&self) -> (out: Self)
        ensures
            out@ == self@,
    {
        GuidanceItem {
            severity: self.severity,
            message: self.message.clone(),
            explanations: clone_strings(&self.explanations),
            policy_file: self.policy_file.clone(),
            scenario: self.scenario.clone(),
            step: self.step.clone(),
        }
    }
}

/// Combined policy evaluation output.
#[derive(Debug)]
pub struct PolicyEvaluationReport {
    pub violations: Vec<KanbusError>,
    pub guidance_items: Vec<GuidanceItem>,
}

impl Default for PolicyEvaluationReport {
    fn default() -> (out: Self)
        ensures
            out.violations.len() == 0,
            out.guidance_items.len() == 0,
    {
        PolicyEvaluationReport { violations: Vec::new(), guidance_items: Vec::new() }
    }
}

/// Policy evaluation mode.
#[derive(Debug, Clone, Copy, PartialEq, Eq, Structural)]
pub enum PolicyEvaluationMode {
    /// Enforce violations as blockers.
    Enforcement,
    /// Collect non-blocking guidance only.
    Guidance,
}

impl Default for PolicyEvaluationMode {
    fn default() -> (out: Self)
        ensures
            out == PolicyEvaluationMode::Enforcement,
    {
        PolicyEvaluationMode::Enforcement
    }
}

/// Options for policy evaluation.
#[derive(Debug, Clone, Copy)]
pub struct PolicyEvaluationOptions {
    /// If true, collect all violations instead of stopping at the first one.
    pub collect_all_violations: bool,
    /// Evaluation mode.
    pub mode: PolicyEvaluationMode,
}

impl Default for PolicyEvaluationOptions {
    fn default() -> (out: Self)
        ensures
            !out.collect_all_violations,
            out.mode == PolicyEvaluationMode::Enforcement,
    {
        PolicyEvaluationOptions {
            collect_all_violations: false,
            mode: PolicyEvaluationMode::Enforcement,
        }
    }
}

/// Whether a step is an explain step: `explain "` … `"`.
pub open spec fn explains(step_text: Seq<char>) -> bool {
    starts_with(step_text, "explain \""@) && ends_with(step_text, "\""@)
}

/// Executable form of [`explains`].
pub fn is_explain_step(step_text: &str) -> (out: bool)
    ensures
        out == explains(step_text@),
{
    let text = chars_of(step_text);
    starts_with_chars(&text, &chars_of("explain \"")) && ends_with_chars(&text, &chars_of("\""))
}

/// Warnings come before suggestions.
pub open spec fn rank(severity: GuidanceSeverity) -> int {
    match severity {
        GuidanceSeverity::Warning => 0,
        GuidanceSeverity::Suggestion => 1,
    }
}

/// Whether the texts of `a` come before those of `b`, compared one after
/// another.
pub open spec fn texts_lt(a: Seq<Seq<char>>, b: Seq<Seq<char>>) -> bool
    decreases a.len(),
{
    if a.len() == 0 || b.len() == 0 {
        false
    } else if a[0] != b[0] {
        text_lt(a[0], b[0])
    } else {
        texts_lt(a.drop_first(), b.drop_first())
    }
}

/// The texts by which guidance is ordered behind its rank.
pub open spec fn order_texts(item: GuidanceView) -> Seq<Seq<char>> {
    seq![item.policy_file, item.scenario, item.step, item.message]
}

/// Whether `a` is ordered strictly before `b`: by rank, then policy file,
/// scenario, step and message.
pub open spec fn guidance_lt(a: GuidanceView, b: GuidanceView) -> bool {
    rank(a.severity) < rank(b.severity) || (rank(a.severity) == rank(b.severity) && texts_lt(
        order_texts(a),
        order_texts(b),
    ))
}

/// `texts_lt` never holds both ways.
pub proof fn lemma_texts_lt_asymmetric(a: Seq<Seq<char>>, b: Seq<Seq<char>>)
    requires
        texts_lt(a, b),
    ensures
        !texts_lt(b, a),
    decreases a.len(),
{
    if a[0] != b[0] {
        lemma_lt_asymmetric(a[0], b[0]);
    } else {
        lemma_texts_lt_asymmetric(a.drop_first(), b.drop_first());
    }
}

/// `texts_lt` is transitive on lists of one length.
pub proof fn lemma_texts_lt_transitive(a: Seq<Seq<char>>, b: Seq<Seq<char>>, c: Seq<Seq<char>>)
    requires
        a.len() == b.len(),
        b.len() == c.len(),
        texts_lt(a, b),
        texts_lt(b, c),
    ensures
        texts_lt(a, c),
    decreases a.len(),
{
    if a[0] != b[0] {
        if b[0] != c[0] {
            lemma_lt_transitive(a[0], b[0], c[0]);
            lemma_lt_irreflexive(a[0]);
        }
    } else if b[0] == c[0] {
        lemma_texts_lt_transitive(a.drop_first(), b.drop_first(), c.drop_first());
    }
}

/// `guidance_lt` is transitive.
pub proof fn lemma_guidance_lt_transitive(a: GuidanceView, b: GuidanceView, c: GuidanceView)
    requires
        guidance_lt(a, b),
        guidance_lt(b, c),
    ensures
        guidance_lt(a, c),
{
    if rank(a.severity) == rank(b.severity) && rank(b.severity) == rank(c.severity) {
        lemma_texts_lt_transitive(order_texts(a), order_texts(b), order_texts(c));
    }
}

/// `guidance_lt` never holds both ways.
pub proof fn lemma_guidance_lt_asymmetric(a: GuidanceView, b: GuidanceView)
    requires
        guidance_lt(a, b),
    ensures
        !guidance_lt(b, a),
{
    if rank(a.severity) == rank(b.severity) {
        lemma_texts_lt_asymmetric(order_texts(a), order_texts(b));
    }
}

/// The place at which `x` goes into the ordered list `sorted`: before the
/// first item that is ordered after it, and so behind every item that is not.
pub open spec fn place_of(sorted: Seq<GuidanceView>, x: GuidanceView) -> int
    decreases sorted.len(),
{
    if sorted.len() == 0 {
        0
    } else if guidance_lt(x, sorted[0]) {
        0
    } else {
        1 + place_of(sorted.drop_first(), x)
    }
}

/// The items of `items`, each once, in order: an item that occurred before is
/// left out, and every other item goes to its place among those before it, so
/// that items which the order does not tell apart stay as they came.
pub open spec fn arranged(items: Seq<GuidanceView>) -> Seq<GuidanceView>
    decreases items.len(),
{
    if items.len() == 0 {
        Seq::empty()
    } else {
        let rest = arranged(items.drop_last());
        if rest.contains(items.last()) {
            rest
        } else {
            rest.insert(place_of(rest, items.last()), items.last())
        }
    }
}

/// Whether no item of `items` is ordered before an item that stands before
/// it.
pub open spec fn in_order(items: Seq<GuidanceView>) -> bool {
    forall|i: int, j: int|
        0 <= i < j < items.len() ==> !guidance_lt(#[trigger] items[j], #[trigger] items[i])
}

/// The place of an item is within the list, everything before it is not
/// ordered after the item, and what stands at it is.
pub proof fn lemma_place_of(sorted: Seq<GuidanceView>, x: GuidanceView)
    ensures
        0 <= place_of(sorted, x) <= sorted.len(),
        forall|i: int| 0 <= i < place_of(sorted, x) ==> !guidance_lt(x, #[trigger] sorted[i]),
        place_of(sorted, x) < sorted.len() ==> guidance_lt(x, sorted[place_of(sorted, x)]),
    decreases sorted.len(),
{
    if sorted.len() > 0 && !guidance_lt(x, sorted[0]) {
        let rest = sorted.drop_first();
        lemma_place_of(rest, x);
        assert forall|i: int| 0 <= i < place_of(sorted, x) implies !guidance_lt(
            x,
            #[trigger] sorted[i],
        ) by {
            if i > 0 {
                assert(sorted[i] == rest[i - 1]);
            }
        }
        if place_of(sorted, x) < sorted.len() {
            assert(sorted[place_of(sorted, x)] == rest[place_of(rest, x)]);
        }
    }
}

/// What `arranged` gives is in order, holds no item twice, and holds exactly
/// the items that were given.
pub proof fn law_arranged(items: Seq<GuidanceView>)
    ensures
        in_order(arranged(items)),
        arranged(items).no_duplicates(),
        forall|x: GuidanceView| arranged(items).contains(x) <==> items.contains(x),
    decreases items.len(),
{
    if items.len() > 0 {
        let before = items.drop_last();
        let last = items.last();
        let rest = arranged(before);
        law_arranged(before);
        let out = arranged(items);
        assert forall|x: GuidanceView| items.contains(x) <==> before.contains(x) || x == last by {
            if before.contains(x) {
                let i = before.index_of(x);
                assert(items[i] == x);
            }
            if items.contains(x) && x != last {
                let i = items.index_of(x);
                assert(before[i] == x);
            }
            assert(items[items.len() - 1] == last);
        }
        if !rest.contains(last) {
            let p = place_of(rest, last);
            lemma_place_of(rest, last);
            assert forall|i: int, j: int| 0 <= i < j < out.len() implies !guidance_lt(
                #[trigger] out[j],
                #[trigger] out[i],
            ) by {
                if j < p {
                    assert(!guidance_lt(rest[j], rest[i]));
                } else if j == p {
                    assert(!guidance_lt(last, rest[i]));
                } else if i < p {
                    assert(!guidance_lt(rest[j - 1], rest[i]));
                } else if i == p {
                    // `last` is before `rest[p]`, which nothing behind it is before.
                    if guidance_lt(rest[j - 1], last) {
                        if j - 1 > p {
                            lemma_guidance_lt_transitive(rest[j - 1], last, rest[p]);
                            assert(!guidance_lt(rest[j - 1], rest[p]));
                        } else {
                            lemma_guidance_lt_asymmetric(rest[j - 1], last);
                        }
                    }
                } else {
                    assert(!guidance_lt(rest[j - 1], rest[i - 1]));
                }
            }
            assert forall|i: int, j: int| 0 <= i < out.len() && 0 <= j < out.len() && i
                != j implies out[i] != out[j] by {
                let a = if i < p {
                    i
                } else {
                    i - 1
                };
                let b = if j < p {
                    j
                } else {
                    j - 1
                };
                if i != p && j != p {
                    assert(rest[a] != rest[b]);
                } else if i == p {
                    assert(rest.contains(rest[b]));
                } else {
                    assert(rest.contains(rest[a]));
                }
            }
            assert forall|x: GuidanceView| out.contains(x) <==> rest.contains(x) || x == last by {
                if rest.contains(x) {
                    let i = rest.index_of(x);
                    if i < p {
                        assert(out[i] == x);
                    } else {
                        assert(out[i + 1] == x);
                    }
                }
                if out.contains(x) && x != last {
                    let i = out.index_of(x);
                    if i < p {
                        assert(rest[i] == x);
                    } else {
                        assert(rest[i - 1] == x);
                    }
                }
                assert(out[p] == last);
            }
        }
    }
}

/// Whether `a` and `b` hold the same explanations.
fn same_strings(a: &Vec<String>, b: &Vec<String>) -> (out: bool)
    ensures
        out == (a.deep_view() == b.deep_view()),
{
    if a.len() != b.len() {
        proof {
            assert(a.deep_view().len() != b.deep_view().len());
        }
        return false;
    }
    let mut i: usize = 0;
    while i < a.len()
        invariant
            i <= a.len(),
            a.len() == b.len(),
            forall|j: int| 0 <= j < i ==> #[trigger] a.deep_view()[j] == b.deep_view()[j],
        decreases a.len() - i,
    {
        if !same_text(a[i].as_str(), b[i].as_str()) {
            proof {
                assert(a.deep_view()[i as int] != b.deep_view()[i as int]);
            }
            return false;
        }
        i += 1;
    }
    proof {
        assert(a.deep_view() =~= b.deep_view());
    }
    true
}

/// Whether two items are the same in every field.
pub fn same_guidance(a: &GuidanceItem, b: &GuidanceItem) -> (out: bool)
    ensures
        out == (a@ == b@),
{
    a.severity == b.severity && same_text(a.message.as_str(), b.message.as_str()) && same_strings(
        &a.explanations,
        &b.explanations,
    ) && same_text(a.policy_file.as_str(), b.policy_file.as_str()) && same_text(
        a.scenario.as_str(),
        b.scenario.as_str(),
    ) && same_text(a.step.as_str(), b.step.as_str())
}

/// Executable form of [`guidance_lt`].
pub fn guidance_before(a: &GuidanceItem, b: &GuidanceItem) -> (out: bool)
    ensures
        out == guidance_lt(a@, b@),
{
    let left: u8 = match a.severity {
        GuidanceSeverity::Warning => 0,
        GuidanceSeverity::Suggestion => 1,
    };
    let right: u8 = match b.severity {
        GuidanceSeverity::Warning => 0,
        GuidanceSeverity::Suggestion => 1,
    };
    if left != right {
        return left < right;
    }
    proof {
        reveal_with_fuel(texts_lt, 5);
        let x = order_texts(a@);
        let y = order_texts(b@);
        assert(x.drop_first() =~= seq![a@.scenario, a@.step, a@.message]);
        assert(y.drop_first() =~= seq![b@.scenario, b@.step, b@.message]);
        assert(x.drop_first().drop_first() =~= seq![a@.step, a@.message]);
        assert(y.drop_first().drop_first() =~= seq![b@.step, b@.message]);
        assert(x.drop_first().drop_first().drop_first() =~= seq![a@.message]);
        assert(y.drop_first().drop_first().drop_first() =~= seq![b@.message]);
        assert(x.drop_first().drop_first().drop_first().drop_first() =~= Seq::<Seq<char>>::empty());
    }
    if !same_text(a.policy_file.as_str(), b.policy_file.as_str()) {
        return precedes(a.policy_file.as_str(), b.policy_file.as_str());
    }
    if !same_text(a.scenario.as_str(), b.scenario.as_str()) {
        return precedes(a.scenario.as_str(), b.scenario.as_str());
    }
    if !same_text(a.step.as_str(), b.step.as_str()) {
        return precedes(a.step.as_str(), b.step.as_str());
    }
    if !same_text(a.message.as_str(), b.message.as_str()) {
        return precedes(a.message.as_str(), b.message.as_str());
    }
    false
}

/// Sort and de-duplicate guidance items with warnings first.
pub fn dedupe_and_sort_guidance(items: &Vec<GuidanceItem>) -> (out: Vec<GuidanceItem>)
    ensures
        out.deep_view() == arranged(items.deep_view()),
{
    let mut out: Vec<GuidanceItem> = Vec::new();
    let mut i: usize = 0;
    proof {
        assert(items.deep_view().take(0) == Seq::<GuidanceView>::empty());
        assert(out.deep_view() =~= Seq::<GuidanceView>::empty());
    }
    while i < items.len()
        invariant
            i <= items.len(),
            out.deep_view() == arranged(items.deep_view().take(i as int)),
        decreases items.len() - i,
    {
        proof {
            let next = items.deep_view().take(i + 1);
            assert(next.drop_last() == items.deep_view().take(i as int));
            assert(next.last() == items@[i as int]@);
        }
        let item = &items[i];
        let ghost sorted = out.deep_view();
        let mut known = false;
        let mut k: usize = 0;
        while k < out.len() && !known
            invariant
                k <= out.len(),
                sorted == out.deep_view(),
                known ==> sorted.contains(item@),
                !known ==> forall|j: int| 0 <= j < k ==> #[trigger] sorted[j] != item@,
            decreases out.len() - k + (if known { 0int } else { 1int }),
        {
            if same_guidance(&out[k], item) {
                proof {
                    assert(sorted[k as int] == item@);
                }
                known = true;
            } else {
                k += 1;
            }
        }
        if !known {
            let mut place: usize = 0;
            proof {
                assert(sorted.skip(0) == sorted);
            }
            while place < out.len() && !guidance_before(item, &out[place])
                invariant
                    place <= out.len(),
                    sorted == out.deep_view(),
                    place_of(sorted, item@) == place + place_of(sorted.skip(place as int), item@),
                decreases out.len() - place,
            {
                proof {
                    let rest = sorted.skip(place as int);
                    assert(rest[0] == out@[place as int]@);
                    assert(rest.drop_first() =~= sorted.skip(place + 1));
                }
                place += 1;
            }
            proof {
                let rest = sorted.skip(place as int);
                if place < out.len() {
                    assert(rest[0] == out@[place as int]@);
                }
            }
            let copy = item.clone();
            out.insert(place, copy);
            proof {
                assert(out.deep_view() =~= sorted.insert(place as int, item@));
            }
        }
        i += 1;
    }
    proof {
        assert(items.deep_view().take(items.len() as int) == items.deep_view());
    }
    out
}

/// The lines by which one guidance item is shown inside a violation.
pub open spec fn guidance_block(item: GuidanceView) -> Seq<Seq<char>> {
    seq![severity_label(item.severity) + ": "@ + item.message] + Seq::new(
        item.explanations.len(),
        |i: int| "Explanation: "@ + item.explanations[i],
    )
}

/// The label under which guidance of a severity is shown.
pub open spec fn severity_label(severity: GuidanceSeverity) -> Seq<char> {
    match severity {
        GuidanceSeverity::Warning => "GUIDANCE WARNING"@,
        GuidanceSeverity::Suggestion => "GUIDANCE SUGGESTION"@,
    }
}

/// The lines of all items, item after item.
pub open spec fn guidance_blocks(items: Seq<GuidanceView>) -> Seq<Seq<char>>
    decreases items.len(),
{
    if items.len() == 0 {
        Seq::empty()
    } else {
        guidance_blocks(items.drop_last()) + guidance_block(items.last())
    }
}

/// The label under which guidance of a severity is shown.
pub fn label_of(severity: GuidanceSeverity) -> (out: &'static str)
    ensures
        out@ == severity_label(severity),
{
    match severity {
        GuidanceSeverity::Warning => "GUIDANCE WARNING",
        GuidanceSeverity::Suggestion => "GUIDANCE SUGGESTION",
    }
}

/// Appends the lines of one guidance item.
fn push_guidance_block(lines: &mut Vec<String>, item: &GuidanceItem)
    ensures
        final(lines).deep_view() == old(lines).deep_view() + guidance_block(item@),
{
    let mut head = chars_of(label_of(item.severity));
    push_str(&mut head, ": ");
    push_str(&mut head, item.message.as_str());
    let ghost start = lines.deep_view();
    let first = string_of(&head);
    lines.push(first);
    proof {
        assert(lines.deep_view() =~= start.push(first@));
    }
    let mut i: usize = 0;
    while i < item.explanations.len()
        invariant
            i <= item.explanations.len(),
            lines.deep_view() == start + guidance_block(item@).take(i + 1),
        decreases item.explanations.len() - i,
    {
        let mut line = chars_of("Explanation: ");
        push_str(&mut line, item.explanations[i].as_str());
        let ghost before = lines.deep_view();
        let text = string_of(&line);
        lines.push(text);
        proof {
            assert(lines.deep_view() =~= before.push(text@));
            assert(guidance_block(item@)[i + 1] == text@);
            assert(guidance_block(item@).take(i + 2) =~= guidance_block(item@).take(i + 1).push(
                text@,
            ));
        }
        i += 1;
    }
    proof {
        assert(guidance_block(item@).take(item.explanations.len() + 1) == guidance_block(item@));
    }
}

/// The violation reported for a failed step: it names policy file,
/// scenario, step and issue, and carries the explanations and the guidance
/// gathered so far, the guidance in order and without repeats.
pub open spec fn violation_view(
    policy_file: Seq<char>,
    scenario: Seq<char>,
    failed_step: Seq<char>,
    message: Seq<char>,
    issue_id: Seq<char>,
    explanations: Seq<Seq<char>>,
    guidance: Seq<GuidanceView>,
) -> KanbusErrorView {
    KanbusErrorView::PolicyViolation {
        policy_file,
        scenario,
        failed_step,
        message,
        issue_id,
        details: PolicyViolationDetailsView {
            explanations,
            guidance: guidance_blocks(arranged(guidance)),
        },
    }
}

/// Builds the violation reported for a failed step.
pub fn policy_violation(
    policy_file: &str,
    scenario: &str,
    failed_step: &str,
    message: &str,
    issue_id: &str,
    explanations: Vec<String>,
    guidance_items: Vec<GuidanceItem>,
) -> (out: KanbusError)
    ensures
        out@ == violation_view(
            policy_file@,
            scenario@,
            failed_step@,
            message@,
            issue_id@,
            explanations.deep_view(),
            guidance_items.deep_view(),
        ),
{
    let sorted = dedupe_and_sort_guidance(&guidance_items);
    let mut guidance: Vec<String> = Vec::new();
    let mut i: usize = 0;
    proof {
        assert(sorted.deep_view().take(0) == Seq::<GuidanceView>::empty());
        assert(guidance.deep_view() =~= Seq::<Seq<char>>::empty());
    }
    while i < sorted.len()
        invariant
            i <= sorted.len(),
            guidance.deep_view() == guidance_blocks(sorted.deep_view().take(i as int)),
        decreases sorted.len() - i,
    {
        proof {
            let next = sorted.deep_view().take(i + 1);
            assert(next.drop_last() == sorted.deep_view().take(i as int));
            assert(next.last() == sorted@[i as int]@);
        }
        push_guidance_block(&mut guidance, &sorted[i]);
        i += 1;
    }
    proof {
        assert(sorted.deep_view().take(sorted.len() as int) == sorted.deep_view());
    }
    KanbusError::PolicyViolation {
        policy_file: owned(policy_file),
        scenario: owned(scenario),
        failed_step: owned(failed_step),
        message: owned(message),
        issue_id: owned(issue_id),
        details: PolicyViolationDetails { explanations, guidance },
    }
}

} // verus!
