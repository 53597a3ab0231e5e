use vstd::prelude::*;

verus! {

/// What the pane count reads of a Zellij pane.
#[derive(Debug, Clone, Copy, PartialEq, Eq)]
pub struct PaneInfo {
    pub is_plugin: bool,
    pub is_suppressed: bool,
}

/// A pane counts when the user works in it: neither a plugin bar nor suppressed.
pub open spec fn is_content_pane(pane: PaneInfo) -> bool {
    !pane.is_suppressed && !pane.is_plugin
}

/// Number of content panes among `panes`.
pub open spec fn content_count(panes: Seq<PaneInfo>) -> nat
    decreases panes.len(),
{
    if panes.len() == 0 {
        0
    } else {
        content_count(panes.drop_last()) + if is_content_pane(panes.last()) {
            1nat
        } else {
            0nat
        }
    }
}

/// Counts only the terminal panes that the user works in: plugin panes (the tab and
/// status bars) and suppressed panes are left out.
pub fn content_pane_count(panes: &[PaneInfo]) -> (n: usize)
    ensures
        n == content_count(panes@),
{
    let mut count: usize = 0;
    let len = panes.len();
    let mut i: usize = 0;
    while i < len
        invariant
            len == panes@.len(),
            i <= len,
            count == content_count(panes@.take(i as int)),
            count <= i,
        decreases len - i,
    {
        proof {
            assert(panes@.take(i + 1).drop_last() =~= panes@.take(i as int));
            assert(panes@.take(i + 1).last() == panes@[i as int]);
        }
        if counts_as_content_pane(&panes[i]) {
            count = count + 1;
        }
        i = i + 1;
    }
    assert(panes@.take(len as int) =~= panes@);
    count
}

fn counts_as_content_pane(pane: &PaneInfo) -> (r: bool)
    ensures
        r == is_content_pane(*pane),
{
    !pane.is_suppressed && !pane.is_plugin
}

/// Counting law: the count never exceeds the number of panes, and adding a pane adds
/// one exactly when that pane is a content pane.
pub proof fn law_content_count_step(panes: Seq<PaneInfo>, pane: PaneInfo)
    ensures
        content_count(panes) <= panes.len(),
        content_count(panes.push(pane)) == content_count(panes) + if is_content_pane(pane) {
            1nat
        } else {
            0nat
        },
    decreases panes.len(),
{
    assert(panes.push(pane).drop_last() =~= panes);
    if panes.len() > 0 {
        law_content_count_step(panes.drop_last(), panes.last());
        assert(panes.drop_last().push(panes.last()) =~= panes);
    }
}

} // verus!
