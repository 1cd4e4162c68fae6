//! What holds of tabs and panes.

use vstd::prelude::*;

use crate::pane_group::{
    GroupView, NodeView, PaneGroupLiteAction, PaneKind, PaneView, SplitDirection, TabView,
    all_sanitized, body_text, law_split_keeps_panes, leaves, node_has,
    node_received, pane_received,
};
use crate::pty::sanitized;
use crate::text::decimal;

verus! {

/// A new tab comes behind all others and is shown. It has a name and a number of its own, and one
/// pane in which a shell runs.
pub proof fn law_new_tabs(group: GroupView, launch: Option<Seq<char>>)
    ensures
        ({
            let after = group.after(PaneGroupLiteAction::NewTab, launch);
            let tab = after.tabs.last();
            &&& after.tabs.drop_last() == group.tabs
            &&& after.active == after.tabs.len() - 1
            &&& tab.id == group.next_tab_id
            &&& tab.title == "shell "@ + decimal(group.next_tab_id as nat)
            &&& tab.root == NodeView::Leaf(
                PaneView {
                    id: group.next_pane_id,
                    kind: PaneKind::Terminal,
                    title: "shell "@ + decimal(group.next_pane_id as nat),
                    launch,
                    output: seq![],
                },
            )
            &&& after.next_tab_id == group.next_tab_id + 1
            &&& after.next_pane_id == group.next_pane_id + 1
        }),
{
    let after = group.after(PaneGroupLiteAction::NewTab, launch);
    assert(after.tabs.drop_last() =~= group.tabs);
}

/// The tab that is closed is the one that is shown. The others stay in their order, the next one is
/// shown, and the last tab cannot be closed.
pub proof fn law_closed_tabs(group: GroupView, launch: Option<Seq<char>>)
    requires
        group.wf(),
    ensures
        ({
            let after = group.after(PaneGroupLiteAction::CloseActiveTab, launch);
            &&& group.tabs.len() == 1 ==> after == group
            &&& group.tabs.len() > 1 ==> {
                &&& after.tabs.len() == group.tabs.len() - 1
                &&& forall|i: int|
                    0 <= i < group.active ==> #[trigger] after.tabs[i] == group.tabs[i]
                &&& forall|i: int|
                    group.active <= i < after.tabs.len() ==> #[trigger] after.tabs[i]
                        == group.tabs[i + 1]
                &&& group.active + 1 < group.tabs.len() ==> after.active == group.active
                &&& group.active + 1 == group.tabs.len() ==> after.active == group.active - 1
                &&& after.next_tab_id == group.next_tab_id
                &&& after.next_pane_id == group.next_pane_id
            }
        }),
{
}

/// Going on shows the tab to the right, and behind the last one the first. Nothing else changes.
pub proof fn law_next_tabs(group: GroupView, launch: Option<Seq<char>>)
    requires
        group.wf(),
    ensures
        group.after(PaneGroupLiteAction::NextTab, launch) == (GroupView {
            active: if group.active + 1 == group.tabs.len() {
                0
            } else {
                group.active + 1
            },
            ..group
        }),
        group.after(PaneGroupLiteAction::PreviousTab, launch) == (GroupView {
            active: if group.active == 0 {
                group.tabs.len() - 1
            } else {
                group.active - 1
            },
            ..group
        }),
{
    let n = group.tabs.len() as int;
    let next = group.active + 1;
    if next < n {
        assert(next % n == next) by (nonlinear_arith)
            requires
                0 <= next < n,
        ;
    } else {
        assert(n % n == 0) by (nonlinear_arith)
            requires
                n > 0,
        ;
    }
}

/// Splitting adds one pane to the tab that is shown, behind the first one: a shell to its right or
/// below it, or an agent to its right. All other panes and tabs stay.
pub proof fn law_splits(
    group: GroupView,
    action: PaneGroupLiteAction,
    launch: Option<Seq<char>>,
    first: PaneView,
)
    requires
        group.wf(),
        action is SplitRight || action is SplitDown || action is NewAgentPane,
    ensures
        ({
            let after = group.after(action, launch);
            let agent = action is NewAgentPane;
            let pane = PaneView {
                id: group.next_pane_id,
                kind: if agent {
                    PaneKind::Agent
                } else {
                    PaneKind::Terminal
                },
                title: (if agent {
                    "agent "@
                } else {
                    "shell "@
                }) + decimal(group.next_pane_id as nat),
                launch: if agent {
                    None
                } else {
                    launch
                },
                output: seq![],
            };
            let before = group.tabs[group.active];
            &&& after.tabs.len() == group.tabs.len()
            &&& after.active == group.active
            &&& after.next_tab_id == group.next_tab_id
            &&& after.next_pane_id == group.next_pane_id + 1
            &&& leaves(after.tabs[group.active].root) == leaves(before.root).insert(1, pane)
            &&& after.tabs[group.active].id == before.id
            &&& after.tabs[group.active].title == before.title
            &&& before.root == NodeView::Leaf(first) ==> after.tabs[group.active].root
                == (NodeView::Split {
                direction: if action is SplitDown {
                    SplitDirection::Column
                } else {
                    SplitDirection::Row
                },
                first: Box::new(NodeView::Leaf(first)),
                second: Box::new(NodeView::Leaf(pane)),
            })
            &&& forall|i: int|
                0 <= i < group.tabs.len() && i != group.active ==> #[trigger] after.tabs[i]
                    == group.tabs[i]
        }),
{
    let agent = action is NewAgentPane;
    let kind = if agent {
        PaneKind::Agent
    } else {
        PaneKind::Terminal
    };
    let direction = if action is SplitDown {
        SplitDirection::Column
    } else {
        SplitDirection::Row
    };
    law_split_keeps_panes(
        group.tabs[group.active].root,
        direction,
        group.next_pane(kind, launch),
    );
}

/// What a program writes comes behind what its pane already shows, as plain text and in order. A
/// pane keeps the end of it where there is too much.
pub proof fn law_output_comes_in_order(pane: PaneView, chunks: Seq<Vec<u8>>, chunk: Vec<u8>)
    ensures
        all_sanitized(chunks.push(chunk)) == all_sanitized(chunks) + sanitized(chunk@),
        all_sanitized(seq![]).len() == 0,
        ({
            let text = pane.output + all_sanitized(chunks);
            let after = pane_received(pane, chunks);
            &&& text.len() <= 60_000 ==> after.output == text
            &&& text.len() > 60_000 ==> after.output.len() == 60_000 && exists|gone: Seq<char>|
                text == #[trigger] (gone + after.output)
            &&& after == (PaneView { output: after.output, ..pane })
        }),
{
    assert(chunks.push(chunk).drop_last() =~= chunks);
    let text = pane.output + all_sanitized(chunks);
    if text.len() > 60_000 {
        let gone = text.take(text.len() - 60_000);
        assert(text =~= gone + pane_received(pane, chunks).output);
    }
}

/// Output reaches the pane that it is for, in whichever tab that is, and no other.
pub proof fn law_output_reaches_its_pane(node: NodeView, id: int, chunks: Seq<Vec<u8>>)
    ensures
        leaves(node_received(node, id, chunks)).len() == leaves(node).len(),
        forall|i: int|
            0 <= i < leaves(node).len() ==> #[trigger] leaves(node_received(node, id, chunks))[i]
                == if leaves(node)[i].id == id {
                pane_received(leaves(node)[i], chunks)
            } else {
                leaves(node)[i]
            },
        node_has(node, id) <==> exists|i: int|
            0 <= i < leaves(node).len() && (#[trigger] leaves(node)[i]).id == id,
    decreases node,
{
    match node {
        NodeView::Leaf(pane) => {
            assert(leaves(node)[0] == pane);
        },
        NodeView::Split { first, second, .. } => {
            law_output_reaches_its_pane(*first, id, chunks);
            law_output_reaches_its_pane(*second, id, chunks);
            let a = leaves(*first);
            let b = leaves(*second);
            let all = leaves(node);
            assert(all == a + b);
            if node_has(*first, id) {
                let i = choose|i: int| 0 <= i < a.len() && (#[trigger] a[i]).id == id;
                assert(all[i] == a[i]);
            }
            if node_has(*second, id) {
                let i = choose|i: int| 0 <= i < b.len() && (#[trigger] b[i]).id == id;
                assert(all[a.len() + i] == b[i]);
            }
            if exists|i: int| 0 <= i < all.len() && (#[trigger] all[i]).id == id {
                let i = choose|i: int| 0 <= i < all.len() && (#[trigger] all[i]).id == id;
                if i < a.len() {
                    assert(a[i].id == id);
                } else {
                    assert(b[i - a.len()].id == id);
                }
            }
        },
    }
}

/// All tabs hear of output, and are otherwise as they were.
pub proof fn law_tabs_hear_of_output(group: GroupView, id: int, chunks: Seq<Vec<u8>>)
    ensures
        ({
            let after = group.received(id, chunks);
            &&& after.tabs.len() == group.tabs.len()
            &&& after.active == group.active
            &&& forall|i: int|
                0 <= i < group.tabs.len() ==> #[trigger] after.tabs[i] == (TabView {
                    root: node_received(group.tabs[i].root, id, chunks),
                    ..group.tabs[i]
                })
        }),
{
}

/// A pane shows what its program wrote, and before that which program is started.
pub proof fn law_panes_show_their_output(pane: PaneView, launch: Seq<char>)
    ensures
        pane.kind is Terminal && pane.output.len() > 0 ==> body_text(pane) == pane.output,
        pane.kind is Terminal && pane.output.len() == 0 && pane.launch == Some(launch) ==> body_text(
            pane,
        ) == "starting "@ + launch,
        pane.kind is Terminal && pane.output.len() == 0 && pane.launch is None ==> body_text(pane)
            == "starting login shell"@,
        pane.kind is Agent ==> body_text(pane) == "local rich input placeholder"@,
{
}

/// The first tab is there from the start, with one shell in it.
pub proof fn law_there_is_a_tab_from_the_start(launch: Option<Seq<char>>)
    ensures
        ({
            let group = GroupView::initial(launch);
            &&& group.tabs.len() == 1
            &&& group.active == 0
            &&& leaves(group.tabs[0].root).len() == 1
            &&& leaves(group.tabs[0].root)[0].launch == launch
            &&& leaves(group.tabs[0].root)[0].kind is Terminal
            &&& group.next_tab_id > group.tabs[0].id
            &&& group.next_pane_id > leaves(group.tabs[0].root)[0].id
        }),
{
}

} // verus!
