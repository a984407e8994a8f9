//! The text-capture provider chain: the provider identities, the first-hit
//! chain rule, the bounded accessibility-tree search, the classic
//! edit-control selection extraction, and the clipboard fallback used by
//! the hotkey path.

use vstd::prelude::*;

verus! {

use crate::text::{
    lemma_non_space_count_le_len, non_space_count, normalize_selection, spec_trim, str_eq_chars,
    MIN_TEXT_LENGTH,
};

/// Ceiling on the depth of the bounded descendant search; the root's direct
/// children sit at depth 1.
pub const UIA_MAX_DESCENDANT_DEPTH: u32 = 3;

/// Ceiling on how many nodes the bounded descendant search may visit before
/// it gives up, so a pathological accessibility tree can never stall the
/// capture worker.
pub const UIA_MAX_DESCENDANT_NODES: usize = 400;

/// The primary capture strategy on Windows: UI Automation text patterns.
pub struct WindowsUIAutomationProvider;

impl WindowsUIAutomationProvider {
    pub fn new() -> (r: Self) {
        Self
    }

    /// The provider's diagnostic name.
    pub fn name(&self) -> (r: &'static str)
        ensures
            r@ == "windows-uia"@,
    {
        "windows-uia"
    }
}

/// The fallback capture strategy on Windows: classic edit controls read
/// through window messages.
pub struct WindowsWin32EditProvider;

impl WindowsWin32EditProvider {
    pub fn new() -> (r: Self) {
        Self
    }

    /// The provider's diagnostic name.
    pub fn name(&self) -> (r: &'static str)
        ensures
            r@ == "windows-win32-edit"@,
    {
        "windows-win32-edit"
    }
}

/// The capture strategy on macOS: the accessibility tree's focused element.
pub struct MacosAccessibilityProvider;

impl MacosAccessibilityProvider {
    pub fn new() -> (r: Self) {
        Self
    }

    /// The provider's diagnostic name.
    pub fn name(&self) -> (r: &'static str)
        ensures
            r@ == "macos-accessibility"@,
    {
        "macos-accessibility"
    }
}

/// Whether a window class is one of the classic edit controls the Win32
/// fallback provider can read.
pub open spec fn spec_supported_class(c: Seq<char>) -> bool {
    ||| c == "Edit"@
    ||| c == "RichEdit20A"@
    ||| c == "RichEdit20W"@
    ||| c == "RichEdit50W"@
    ||| c == "RichEdit41W"@
}

/// The window classes the Win32 edit provider supports.
pub fn supported_classes() -> (r: Vec<&'static str>)
    ensures
        r@.len() == 5,
        forall|i: int| 0 <= i < r@.len() ==> spec_supported_class(r@[i]@),
        r@[0]@ == "Edit"@,
        r@[1]@ == "RichEdit20A"@,
        r@[2]@ == "RichEdit20W"@,
        r@[3]@ == "RichEdit50W"@,
        r@[4]@ == "RichEdit41W"@,
{
    let mut v: Vec<&'static str> = Vec::new();
    v.push("Edit");
    v.push("RichEdit20A");
    v.push("RichEdit20W");
    v.push("RichEdit50W");
    v.push("RichEdit41W");
    v
}

/// Decides whether a window class is a supported classic edit control.
pub fn is_supported_class(class: &str) -> (r: bool)
    ensures
        r == spec_supported_class(class@),
{
    str_eq_chars(class, "Edit") || str_eq_chars(class, "RichEdit20A")
        || str_eq_chars(class, "RichEdit20W") || str_eq_chars(class, "RichEdit50W")
        || str_eq_chars(class, "RichEdit41W")
}

/// An accessibility-tree node as the bounded search sees it: whether the
/// node itself exposes a text-selection pattern, and its children in tree
/// order.
pub struct UiNode {
    pub has_text_pattern: bool,
    pub children: Vec<UiNode>,
}

/// Whether `n` or any node at most `depth` levels below it exposes a text
/// pattern.
pub open spec fn has_pattern_within(n: UiNode, depth: int) -> bool
    decreases n,
{
    ||| n.has_text_pattern
    ||| (depth > 0 && exists|i: int|
        0 <= i < n.children@.len() && has_pattern_within(#[trigger] n.children@[i], depth - 1))
}

/// What the bounded descendant search reports.
#[derive(Clone, Copy, Debug, PartialEq, Eq, Structural)]
pub enum SearchOutcome {
    /// A descendant within the depth ceiling exposes a text pattern.
    Found,
    /// Everything within the depth ceiling was visited; no descendant
    /// exposes a text pattern.
    NotFound,
    /// The node budget ran out before the tree was covered, which can only
    /// happen on a tree holding more than the budget's worth of nodes
    /// within the ceiling; a pattern may still be there, but the search
    /// will not pay to find it.
    BudgetExhausted,
}

/// Whether any node strictly below `n`, at most `depth` levels down,
/// exposes a text pattern.
pub open spec fn children_have_pattern(n: UiNode, depth: int) -> bool {
    depth > 0 && exists|i: int|
        0 <= i < n.children@.len() && has_pattern_within(#[trigger] n.children@[i], depth - 1)
}

/// Number of nodes strictly below `n` within `depth` levels: what a
/// complete search to that depth would have to visit.
pub open spec fn nodes_within(n: UiNode, depth: int) -> int
    decreases n,
{
    if depth <= 0 {
        0
    } else {
        forest_nodes_within(n.children@, depth - 1)
    }
}

/// The nodes of a sibling list themselves, plus everything within `depth`
/// further levels below each of them.
pub open spec fn forest_nodes_within(nodes: Seq<UiNode>, depth: int) -> int
    decreases nodes,
{
    if nodes.len() == 0 {
        0
    } else {
        1 + nodes_within(nodes[0], depth) + forest_nodes_within(nodes.drop_first(), depth)
    }
}

proof fn lemma_nodes_within_nonneg(n: UiNode, depth: int)
    ensures
        nodes_within(n, depth) >= 0,
    decreases n,
{
    if depth > 0 {
        lemma_forest_nodes_nonneg(n.children@, depth - 1);
    }
}

proof fn lemma_forest_nodes_nonneg(nodes: Seq<UiNode>, depth: int)
    ensures
        forest_nodes_within(nodes, depth) >= 0,
    decreases nodes,
{
    if nodes.len() > 0 {
        lemma_nodes_within_nonneg(nodes[0], depth);
        lemma_forest_nodes_nonneg(nodes.drop_first(), depth);
    }
}

/// How many nodes the live queue entries could still lead the search to.
spec fn queue_capacity<'a>(entries: Seq<(&'a UiNode, u32)>, max_depth: int) -> int
    decreases entries.len(),
{
    if entries.len() == 0 {
        0
    } else {
        nodes_within(*entries[0].0, max_depth - entries[0].1) + queue_capacity(
            entries.drop_first(),
            max_depth,
        )
    }
}

proof fn lemma_queue_capacity_nonneg<'a>(entries: Seq<(&'a UiNode, u32)>, max_depth: int)
    ensures
        queue_capacity(entries, max_depth) >= 0,
    decreases entries.len(),
{
    if entries.len() > 0 {
        lemma_nodes_within_nonneg(*entries[0].0, max_depth - entries[0].1);
        lemma_queue_capacity_nonneg(entries.drop_first(), max_depth);
    }
}

proof fn lemma_queue_capacity_push<'a>(
    entries: Seq<(&'a UiNode, u32)>,
    e: (&'a UiNode, u32),
    max_depth: int,
)
    ensures
        queue_capacity(entries.push(e), max_depth) == queue_capacity(entries, max_depth)
            + nodes_within(*e.0, max_depth - e.1),
    decreases entries.len(),
{
    assert(entries.push(e).len() == entries.len() + 1);
    if entries.len() == 0 {
        assert(entries.push(e)[0] == e);
        assert(entries.push(e).drop_first() =~= Seq::<(&'a UiNode, u32)>::empty());
        assert(queue_capacity(Seq::<(&'a UiNode, u32)>::empty(), max_depth) == 0);
    } else {
        assert(entries.push(e)[0] == entries[0]);
        assert(entries.push(e).drop_first() =~= entries.drop_first().push(e));
        lemma_queue_capacity_push(entries.drop_first(), e, max_depth);
    }
}

/// What finding a pattern under one queued node, at its depth, says about
/// the whole search: the root entry stands for its strict descendants, a
/// deeper entry for its own subtree.
spec fn entry_covers(nd: UiNode, dp: int, max_depth: int) -> bool {
    if dp == 0 {
        children_have_pattern(nd, max_depth)
    } else {
        has_pattern_within(nd, max_depth - dp)
    }
}

/// The well-formedness every live queue entry keeps: the root sits at depth
/// zero; every other entry is a strictly shallower-than-ceiling descendant
/// already checked for a pattern of its own, and a pattern within it
/// witnesses a pattern below the root.
spec fn entry_wf(root: UiNode, nd: UiNode, dp: int, max_depth: int) -> bool {
    if dp == 0 {
        nd == root
    } else {
        &&& 0 < dp < max_depth
        &&& !nd.has_text_pattern
        &&& (has_pattern_within(nd, max_depth - dp) ==> children_have_pattern(root, max_depth))
    }
}

/// Breadth-first bounded search below `root` for a node exposing a text
/// pattern, the way the capture provider walks an accessibility tree: at
/// most `max_depth` levels deep and at most `max_nodes` visited nodes, so
/// the cost stays bounded on arbitrarily wide or deep trees. A hit is
/// always a real one, a clean miss is definitive, and the budget is only
/// ever exhausted on a tree that really holds more than `max_nodes` nodes
/// within the depth ceiling.
pub fn search_descendants_for_text_pattern(
    root: &UiNode,
    max_depth: u32,
    max_nodes: usize,
) -> (outcome: SearchOutcome)
    requires
        max_nodes < usize::MAX,
    ensures
        outcome == SearchOutcome::Found ==> children_have_pattern(*root, max_depth as int),
        outcome == SearchOutcome::NotFound ==> !children_have_pattern(*root, max_depth as int),
        outcome == SearchOutcome::BudgetExhausted ==> nodes_within(*root, max_depth as int)
            > max_nodes,
{
    let ghost total = nodes_within(*root, max_depth as int);
    let mut queue: Vec<(&UiNode, u32)> = Vec::new();
    let mut head: usize = 0;
    let mut visited: usize = 0;
    queue.push((root, 0));
    proof {
        assert(*queue@[0].0 == *root && queue@[0].1 == 0);
        if children_have_pattern(*root, max_depth as int) {
            assert(entry_covers(*queue@[0].0, queue@[0].1 as int, max_depth as int));
        }
        assert(queue@.subrange(0, 1).drop_first() =~= Seq::<(&UiNode, u32)>::empty());
        assert(queue@.subrange(0, 1)[0] == queue@[0]);
        assert(queue_capacity(Seq::<(&UiNode, u32)>::empty(), max_depth as int) == 0);
        assert(queue_capacity(queue@.subrange(0, 1), max_depth as int) == nodes_within(
            *root,
            max_depth as int,
        ));
    }
    while head < queue.len()
        invariant
            max_nodes < usize::MAX,
            head <= queue@.len(),
            visited <= max_nodes,
            total == nodes_within(*root, max_depth as int),
            visited + queue_capacity(
                queue@.subrange(head as int, queue@.len() as int),
                max_depth as int,
            ) <= total,
            forall|i: int|
                head <= i < queue@.len() ==> entry_wf(
                    *root,
                    *(#[trigger] queue@[i]).0,
                    queue@[i].1 as int,
                    max_depth as int,
                ),
            children_have_pattern(*root, max_depth as int) ==> exists|i: int|
                head <= i < queue@.len() && entry_covers(
                    *(#[trigger] queue@[i]).0,
                    queue@[i].1 as int,
                    max_depth as int,
                ),
        decreases max_nodes - visited, queue.len() - head,
    {
        let ghost live_at_entry = queue@.subrange(head as int, queue@.len() as int);
        let (current, depth): (&UiNode, u32) = queue[head];
        head = head + 1;
        proof {
            // Popping splits the live capacity into the popped entry's
            // share and the rest.
            assert(live_at_entry.drop_first() =~= queue@.subrange(
                head as int,
                queue@.len() as int,
            ));
            assert(live_at_entry[0] == queue@[head - 1]);
        }
        if depth >= max_depth {
            // Only the root entry can sit at or beyond the ceiling, and only
            // with a zero ceiling, under which nothing is searched at all.
            proof {
                assert(entry_wf(*root, *current, depth as int, max_depth as int));
                assert(!children_have_pattern(*root, max_depth as int));
                assert(nodes_within(*current, max_depth - depth) == 0);
            }
            continue;
        }
        proof {
            assert(entry_wf(*root, *current, depth as int, max_depth as int));
            assert(nodes_within(*current, max_depth - depth) == forest_nodes_within(
                current.children@,
                max_depth - depth - 1,
            ));
            assert(current.children@.skip(0) =~= current.children@);
        }
        let ghost visited_before = visited as int;
        let ghost len_before = queue@.len() as int;
        let ghost head_here = head as int;
        let child_count = current.children.len();
        let mut j: usize = 0;
        while j < child_count
            invariant
                max_nodes < usize::MAX,
                head <= queue@.len(),
                visited <= max_nodes,
                visited_before <= visited,
                head == head_here,
                len_before <= queue@.len(),
                visited == visited_before ==> queue@.len() == len_before,
                j <= child_count,
                child_count == current.children@.len(),
                depth < max_depth,
                total == nodes_within(*root, max_depth as int),
                visited + forest_nodes_within(
                    current.children@.skip(j as int),
                    max_depth - depth - 1,
                ) + queue_capacity(
                    queue@.subrange(head as int, queue@.len() as int),
                    max_depth as int,
                ) <= total,
                entry_wf(*root, *current, depth as int, max_depth as int),
                forall|i: int|
                    head <= i < queue@.len() ==> entry_wf(
                        *root,
                        *(#[trigger] queue@[i]).0,
                        queue@[i].1 as int,
                        max_depth as int,
                    ),
                children_have_pattern(*root, max_depth as int) ==> (exists|i: int|
                    head <= i < queue@.len() && entry_covers(
                        *(#[trigger] queue@[i]).0,
                        queue@[i].1 as int,
                        max_depth as int,
                    )) || (exists|jj: int|
                    j <= jj < child_count && has_pattern_within(
                        #[trigger] current.children@[jj],
                        max_depth - depth - 1,
                    )),
            decreases child_count - j,
        {
            proof {
                // One sibling's share of the budget: itself plus its subtree.
                assert(current.children@.skip(j as int)[0] == current.children@[j as int]);
                assert(current.children@.skip(j as int).drop_first() =~= current.children@.skip(
                    j as int + 1,
                ));
                lemma_nodes_within_nonneg(current.children@[j as int], max_depth - depth - 1);
                lemma_forest_nodes_nonneg(current.children@.skip(j as int + 1), max_depth - depth
                    - 1);
                lemma_queue_capacity_nonneg(
                    queue@.subrange(head as int, queue@.len() as int),
                    max_depth as int,
                );
            }
            visited = visited + 1;
            if visited > max_nodes {
                return SearchOutcome::BudgetExhausted;
            }
            let node: &UiNode = &current.children[j];
            proof {
                if has_pattern_within(*node, max_depth - depth - 1) {
                    if depth == 0 {
                        assert(children_have_pattern(*root, max_depth as int));
                    } else {
                        assert(has_pattern_within(*current, max_depth - depth));
                    }
                }
            }
            if node.has_text_pattern {
                proof {
                    assert(has_pattern_within(*node, max_depth - depth - 1));
                }
                return SearchOutcome::Found;
            }
            let ghost queue_before_push = queue@;
            if depth + 1 < max_depth {
                queue.push((node, depth + 1));
            }
            proof {
                let live_before = queue_before_push.subrange(
                    head as int,
                    queue_before_push.len() as int,
                );
                let live_now = queue@.subrange(head as int, queue@.len() as int);
                if depth + 1 < max_depth {
                    assert(live_now =~= live_before.push((node, (depth + 1) as u32)));
                    lemma_queue_capacity_push(
                        live_before,
                        (node, (depth + 1) as u32),
                        max_depth as int,
                    );
                } else {
                    // The child sits on the ceiling: its subtree counts for
                    // nothing, so nothing is enqueued and nothing is lost.
                    assert(nodes_within(*node, max_depth - depth - 1) == 0);
                    assert(live_now =~= live_before);
                }
                if children_have_pattern(*root, max_depth as int) {
                    if exists|i: int|
                        head <= i < queue_before_push.len() && entry_covers(
                            *(#[trigger] queue_before_push[i]).0,
                            queue_before_push[i].1 as int,
                            max_depth as int,
                        ) {
                        let i = choose|i: int|
                            head <= i < queue_before_push.len() && entry_covers(
                                *(#[trigger] queue_before_push[i]).0,
                                queue_before_push[i].1 as int,
                                max_depth as int,
                            );
                        assert(queue@[i] == queue_before_push[i]);
                    } else {
                        let jj = choose|jj: int|
                            j <= jj < child_count && has_pattern_within(
                                #[trigger] current.children@[jj],
                                max_depth - depth - 1,
                            );
                        if jj == j as int {
                            // This child carries the pattern strictly below
                            // itself (its own pattern was just ruled out),
                            // so it was enqueued and covers it from now on.
                            assert(has_pattern_within(*node, max_depth - depth - 1));
                            assert(max_depth - depth - 1 > 0);
                            assert(queue@[queue@.len() - 1] == ((node, (depth + 1) as u32)));
                            assert(entry_covers(*node, depth as int + 1, max_depth as int));
                        }
                    }
                }
            }
            j = j + 1;
        }
    }
    proof {
        assert(!children_have_pattern(*root, max_depth as int));
    }
    SearchOutcome::NotFound
}

/// Finds a text pattern on the element itself first, then within its
/// descendants under the standard depth and node ceilings, exactly as the
/// UI Automation provider resolves its capture target. A miss is definitive
/// on any tree small enough that the node budget cannot run out.
pub fn obtain_text_pattern(root: &UiNode) -> (found: bool)
    ensures
        found ==> has_pattern_within(*root, UIA_MAX_DESCENDANT_DEPTH as int),
        !found ==> !root.has_text_pattern,
        !found && nodes_within(*root, UIA_MAX_DESCENDANT_DEPTH as int)
            <= UIA_MAX_DESCENDANT_NODES ==> !has_pattern_within(
            *root,
            UIA_MAX_DESCENDANT_DEPTH as int,
        ),
{
    if root.has_text_pattern {
        return true;
    }
    let outcome = search_descendants_for_text_pattern(
        root,
        UIA_MAX_DESCENDANT_DEPTH,
        UIA_MAX_DESCENDANT_NODES,
    );
    proof {
        if nodes_within(*root, UIA_MAX_DESCENDANT_DEPTH as int) <= UIA_MAX_DESCENDANT_NODES {
            assert(outcome != SearchOutcome::BudgetExhausted);
        }
        assert(has_pattern_within(*root, UIA_MAX_DESCENDANT_DEPTH as int) == (
        root.has_text_pattern || children_have_pattern(*root, UIA_MAX_DESCENDANT_DEPTH as int)));
    }
    matches!(outcome, SearchOutcome::Found)
}

/// The capture the provider chain delivers: the first provider, in priority
/// order, that produced a text; later results are not consulted.
pub open spec fn spec_first_capture(rs: Seq<Option<String>>) -> Option<String>
    decreases rs.len(),
{
    if rs.len() == 0 {
        None
    } else if rs[0] is Some {
        rs[0]
    } else {
        spec_first_capture(rs.drop_first())
    }
}

proof fn lemma_first_capture_at(rs: Seq<Option<String>>, i: int)
    requires
        0 <= i < rs.len(),
        forall|j: int| 0 <= j < i ==> rs[j] is None,
        rs[i] is Some,
    ensures
        spec_first_capture(rs) == rs[i],
    decreases i,
{
    if i == 0 {
    } else {
        let t = rs.drop_first();
        assert(forall|j: int| 0 <= j < i - 1 ==> #[trigger] t[j] is None);
        lemma_first_capture_at(t, i - 1);
    }
}

proof fn lemma_first_capture_none(rs: Seq<Option<String>>)
    requires
        forall|j: int| 0 <= j < rs.len() ==> rs[j] is None,
    ensures
        spec_first_capture(rs) is None,
    decreases rs.len(),
{
    if rs.len() > 0 {
        let t = rs.drop_first();
        assert(forall|j: int| 0 <= j < t.len() ==> #[trigger] t[j] is None);
        lemma_first_capture_none(t);
    }
}

/// Law: the chain may stop at the first hit. Once one provider has
/// captured a text and every earlier one came back empty, the chain's
/// result is that text whatever any later, costlier provider would have
/// returned; a caller honouring the priority order may therefore skip
/// running the remaining providers.
pub proof fn lemma_chain_stops_at_first_hit(rs: Seq<Option<String>>, i: int)
    requires
        0 <= i < rs.len(),
        forall|j: int| 0 <= j < i ==> rs[j] is None,
        rs[i] is Some,
    ensures
        spec_first_capture(rs) == rs[i],
        spec_first_capture(rs) == spec_first_capture(rs.take(i + 1)),
{
    lemma_first_capture_at(rs, i);
    assert(forall|j: int| 0 <= j < i ==> #[trigger] rs.take(i + 1)[j] is None);
    assert(rs.take(i + 1)[i] == rs[i]);
    lemma_first_capture_at(rs.take(i + 1), i);
}

/// Applies the chain rule to the providers' raw results, in priority order:
/// the first provider that captured a text wins, a failing provider simply
/// falls through, and no provider is retried. By
/// `lemma_chain_stops_at_first_hit`, handing in only the results up to and
/// including the first success gives the same answer.
pub fn capture_with_providers(results: &Vec<Option<String>>) -> (r: Option<String>)
    ensures
        r == spec_first_capture(results@),
{
    let n = results.len();
    let mut i: usize = 0;
    while i < n
        invariant
            0 <= i <= n,
            n == results@.len(),
            forall|j: int| 0 <= j < i ==> results@[j] is None,
        decreases n - i,
    {
        match &results[i] {
            Some(text) => {
                proof {
                    lemma_first_capture_at(results@, i as int);
                }
                return Some(text.clone());
            },
            None => {},
        }
        i = i + 1;
    }
    proof {
        lemma_first_capture_none(results@);
    }
    None
}

/// The slice of an edit control's text buffer covered by its reported
/// selection, after the clamping the provider applies: the selection end is
/// clamped to what the control actually copied out, the start to the end,
/// and an empty or inverted range is no selection.
pub open spec fn spec_selection_slice(
    buffer: Seq<u16>,
    start: u32,
    end: u32,
    copied: int,
) -> Option<Seq<u16>> {
    let se = if end as int <= copied {
        end as int
    } else {
        copied
    };
    let ss = if start as int <= se {
        start as int
    } else {
        se
    };
    if start >= end || copied == 0 || ss >= se {
        None
    } else {
        Some(buffer.subrange(ss, se))
    }
}

/// Cuts the selected range out of a control's text buffer. `copied` is how
/// many units the control reported copying into the buffer.
pub fn slice_selection(buffer: &Vec<u16>, start: u32, end: u32, copied: usize) -> (r: Option<
    Vec<u16>,
>)
    requires
        copied <= buffer@.len(),
        copied <= u32::MAX as usize,
    ensures
        match r {
            Some(v) => spec_selection_slice(buffer@, start, end, copied as int)
                == Some(v@),
            None => spec_selection_slice(buffer@, start, end, copied as int) is None,
        },
{
    if start >= end || copied == 0 {
        return None;
    }
    let slice_end: usize = if (end as usize) <= copied {
        end as usize
    } else {
        copied
    };
    let slice_start: usize = if (start as usize) <= slice_end {
        start as usize
    } else {
        slice_end
    };
    if slice_start >= slice_end {
        return None;
    }
    let mut out: Vec<u16> = Vec::new();
    let mut i: usize = slice_start;
    while i < slice_end
        invariant
            slice_start <= i <= slice_end,
            slice_end <= buffer@.len(),
            out@ =~= buffer@.subrange(slice_start as int, i as int),
        decreases slice_end - i,
    {
        out.push(buffer[i]);
        proof {
            assert(out@ =~= buffer@.subrange(slice_start as int, i as int + 1));
        }
        i = i + 1;
    }
    Some(out)
}

/// What `String::from_utf16` returns for a unit sequence; `None` where the
/// units are not well-formed UTF-16.
pub uninterp spec fn utf16_decoded(units: Seq<u16>) -> Option<Seq<char>>;

/// Relies on `String::from_utf16`: the decoded text is a function of the
/// code units alone, and decoding fails exactly on ill-formed UTF-16.
#[verifier::external_body]
fn utf16_to_string(units: &Vec<u16>) -> (r: Option<String>)
    ensures
        r is Some <==> utf16_decoded(units@) is Some,
        r matches Some(s) ==> utf16_decoded(units@) == Some(s@),
{
    String::from_utf16(units.as_slice()).ok()
}

/// Extracts the selected text from a classic edit control's buffer, given
/// the selection offsets the control reported: the range is validated and
/// clamped, then decoded from UTF-16.
pub fn extract_selection_from_edit(
    buffer: &Vec<u16>,
    start: u32,
    end: u32,
    copied: usize,
) -> (r: Option<String>)
    requires
        copied <= buffer@.len(),
        copied <= u32::MAX as usize,
    ensures
        r is Some <==> (spec_selection_slice(buffer@, start, end, copied as int) matches Some(u)
            && utf16_decoded(u) is Some),
        r matches Some(s) ==> (spec_selection_slice(buffer@, start, end, copied as int)
            matches Some(u) && utf16_decoded(u) == Some(s@)),
{
    match slice_selection(buffer, start, end, copied) {
        Some(units) => utf16_to_string(&units),
        None => None,
    }
}

/// Relies on `arboard::Clipboard`: reads whatever text the system clipboard
/// currently holds. The result depends on machine state, so nothing is
/// promised of it; the caller validates whatever came back.
#[verifier::external_body]
fn clipboard_text_raw() -> (r: Option<String>) {
    match arboard::Clipboard::new() {
        Ok(mut clipboard) => clipboard.get_text().ok(),
        Err(_) => None,
    }
}

/// Reads the system clipboard and validates the text like any capture:
/// whatever the clipboard held, a delivered text is trimmed and keeps at
/// least `MIN_TEXT_LENGTH` non-white-space characters.
pub fn read_clipboard_text() -> (r: Option<String>)
    ensures
        r matches Some(t) ==> non_space_count(t@) >= MIN_TEXT_LENGTH && t@.len() > 0,
{
    match clipboard_text_raw() {
        Some(raw) => {
            let r = normalize_selection(raw.as_str());
            proof {
                lemma_non_space_count_le_len(spec_trim(raw@));
            }
            r
        },
        None => None,
    }
}

/// The hotkey capture rule: the provider chain's text wins; only when the
/// chain came back empty is the validated clipboard text used, so
/// applications without accessibility support still work after a manual
/// copy.
pub fn capture_text_for_hotkey(chain_result: Option<String>) -> (r: Option<String>)
    ensures
        chain_result is Some ==> r == chain_result,
        chain_result is None ==> (r matches Some(t) ==> non_space_count(t@) >= MIN_TEXT_LENGTH
            && t@.len() > 0),
{
    match chain_result {
        Some(text) => Some(text),
        None => read_clipboard_text(),
    }
}

} // verus!
