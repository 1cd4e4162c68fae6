//! Tabs of split panes.

use vstd::prelude::*;
use vstd::utf8::encode_utf8;

pub mod laws;

use crate::pty::{is_plain_text, sanitize_terminal_bytes, sanitized};
use crate::terminal::cell::Color;
use crate::text::{decimal, opt_text, push_decimal};

verus! {

/// The most text that a pane keeps.
pub const MAX_TERMINAL_TEXT_BYTES: usize = 60_000;

/// What a user can ask of the tabs and panes.
#[derive(Debug, Clone, Copy, PartialEq, Eq, Structural)]
pub enum PaneGroupLiteAction {
    NewTab,
    CloseActiveTab,
    NextTab,
    PreviousTab,
    SplitRight,
    SplitDown,
    NewAgentPane,
}

#[derive(Debug, Clone, Copy, PartialEq, Eq, Structural)]
pub enum PaneKind {
    Terminal,
    Agent,
}

#[derive(Debug, Clone, Copy, PartialEq, Eq, Structural)]
pub enum SplitDirection {
    Row,
    Column,
}

/// A pane. `launch` describes the shell that runs in it, `output` is what the shell printed.
#[derive(Debug)]
pub struct Pane {
    pub id: usize,
    pub kind: PaneKind,
    pub title: String,
    pub launch: Option<String>,
    pub output: String,
}

/// The panes of a tab, as a tree of splits.
#[derive(Debug)]
pub enum PaneNode {
    Leaf(Pane),
    Split { direction: SplitDirection, first: Box<PaneNode>, second: Box<PaneNode> },
}

#[derive(Debug)]
pub struct Tab {
    pub id: usize,
    pub title: String,
    pub root: PaneNode,
}

/// All tabs, and which of them is shown.
#[derive(Debug)]
pub struct PaneGroupLite {
    pub tabs: Vec<Tab>,
    pub active_tab: usize,
    pub next_tab_id: usize,
    pub next_pane_id: usize,
}

/// The mathematical content of a [`Pane`].
#[verifier::ext_equal]
pub struct PaneView {
    pub id: int,
    pub kind: PaneKind,
    pub title: Seq<char>,
    pub launch: Option<Seq<char>>,
    pub output: Seq<char>,
}

/// The mathematical content of a [`PaneNode`].
#[verifier::ext_equal]
pub enum NodeView {
    Leaf(PaneView),
    Split { direction: SplitDirection, first: Box<NodeView>, second: Box<NodeView> },
}

/// The mathematical content of a [`Tab`].
#[verifier::ext_equal]
pub struct TabView {
    pub id: int,
    pub title: Seq<char>,
    pub root: NodeView,
}

/// The mathematical content of a [`PaneGroupLite`].
#[verifier::ext_equal]
pub struct GroupView {
    pub tabs: Seq<TabView>,
    pub active: int,
    pub next_tab_id: int,
    pub next_pane_id: int,
}

impl View for Pane {
    type V = PaneView;

    open spec fn view(&self) -> PaneView {
        PaneView {
            id: self.id as int,
            kind: self.kind,
            title: self.title@,
            launch: opt_text(self.launch),
            output: self.output@,
        }
    }
}

pub open spec fn node_view(node: PaneNode) -> NodeView
    decreases node,
{
    match node {
        PaneNode::Leaf(pane) => NodeView::Leaf(pane@),
        PaneNode::Split { direction, first, second } => NodeView::Split {
            direction,
            first: Box::new(node_view(*first)),
            second: Box::new(node_view(*second)),
        },
    }
}

impl View for PaneNode {
    type V = NodeView;

    open spec fn view(&self) -> NodeView {
        node_view(*self)
    }
}

impl View for Tab {
    type V = TabView;

    open spec fn view(&self) -> TabView {
        TabView { id: self.id as int, title: self.title@, root: self.root@ }
    }
}

impl View for PaneGroupLite {
    type V = GroupView;

    open spec fn view(&self) -> GroupView {
        GroupView {
            tabs: self.tabs@.map_values(|tab: Tab| tab@),
            active: self.active_tab as int,
            next_tab_id: self.next_tab_id as int,
            next_pane_id: self.next_pane_id as int,
        }
    }
}

/// The panes of a tree, from left to right and top to bottom.
pub open spec fn leaves(node: NodeView) -> Seq<PaneView>
    decreases node,
{
    match node {
        NodeView::Leaf(pane) => seq![pane],
        NodeView::Split { first, second, .. } => leaves(*first) + leaves(*second),
    }
}

/// The first pane split in two, the new pane second.
pub open spec fn first_leaf_split(node: NodeView, direction: SplitDirection, pane: PaneView) -> NodeView
    decreases node,
{
    match node {
        NodeView::Leaf(existing) => NodeView::Split {
            direction,
            first: Box::new(NodeView::Leaf(existing)),
            second: Box::new(NodeView::Leaf(pane)),
        },
        NodeView::Split { direction: outer, first, second } => NodeView::Split {
            direction: outer,
            first: Box::new(first_leaf_split(*first, direction, pane)),
            second,
        },
    }
}

/// The plain text of all chunks, one after the other.
pub open spec fn all_sanitized(chunks: Seq<Vec<u8>>) -> Seq<char>
    decreases chunks.len(),
{
    if chunks.len() == 0 {
        seq![]
    } else {
        all_sanitized(chunks.drop_last()) + sanitized(chunks.last()@)
    }
}

/// The end of a text, at most as long as a pane keeps.
pub open spec fn recent(text: Seq<char>) -> Seq<char> {
    if text.len() > MAX_TERMINAL_TEXT_BYTES {
        text.skip(text.len() - MAX_TERMINAL_TEXT_BYTES)
    } else {
        text
    }
}

/// A pane after its shell printed `chunks`.
pub open spec fn pane_received(pane: PaneView, chunks: Seq<Vec<u8>>) -> PaneView {
    PaneView { output: recent(pane.output + all_sanitized(chunks)), ..pane }
}

/// A tree after the shell of the pane `id` printed `chunks`.
pub open spec fn node_received(node: NodeView, id: int, chunks: Seq<Vec<u8>>) -> NodeView
    decreases node,
{
    match node {
        NodeView::Leaf(pane) => if pane.id == id {
            NodeView::Leaf(pane_received(pane, chunks))
        } else {
            node
        },
        NodeView::Split { direction, first, second } => NodeView::Split {
            direction,
            first: Box::new(node_received(*first, id, chunks)),
            second: Box::new(node_received(*second, id, chunks)),
        },
    }
}

/// Whether every pane keeps plain text, and not more of it than it should.
pub open spec fn outputs_bounded(node: NodeView) -> bool
    decreases node,
{
    match node {
        NodeView::Leaf(pane) => {
            &&& is_plain_text(pane.output)
            &&& pane.output.len() <= MAX_TERMINAL_TEXT_BYTES
        },
        NodeView::Split { first, second, .. } => outputs_bounded(*first) && outputs_bounded(*second),
    }
}

pub open spec fn kind_name(kind: PaneKind) -> Seq<char> {
    match kind {
        PaneKind::Terminal => "shell "@,
        PaneKind::Agent => "agent "@,
    }
}

impl GroupView {
    /// There is a tab, the active one exists, and every pane keeps a bounded plain text.
    pub open spec fn wf(self) -> bool {
        &&& 0 <= self.active < self.tabs.len()
        &&& forall|i: int| 0 <= i < self.tabs.len() ==> outputs_bounded((#[trigger] self.tabs[i]).root)
    }

    /// One tab with one shell.
    pub open spec fn initial(launch: Option<Seq<char>>) -> GroupView {
        GroupView {
            tabs: seq![
                TabView {
                    id: 1,
                    title: "shell"@,
                    root: NodeView::Leaf(
                        PaneView {
                            id: 1,
                            kind: PaneKind::Terminal,
                            title: "shell"@,
                            launch,
                            output: seq![],
                        },
                    ),
                },
            ],
            active: 0,
            next_tab_id: 2,
            next_pane_id: 2,
        }
    }

    /// The pane that is made next. Only a terminal pane runs a shell.
    pub open spec fn next_pane(self, kind: PaneKind, launch: Option<Seq<char>>) -> PaneView {
        PaneView {
            id: self.next_pane_id,
            kind,
            title: kind_name(kind) + decimal(self.next_pane_id as nat),
            launch: match kind {
                PaneKind::Terminal => launch,
                PaneKind::Agent => None,
            },
            output: seq![],
        }
    }

    pub open spec fn split(
        self,
        direction: SplitDirection,
        kind: PaneKind,
        launch: Option<Seq<char>>,
    ) -> GroupView {
        let tab = self.tabs[self.active];
        GroupView {
            tabs: self.tabs.update(
                self.active,
                TabView {
                    root: first_leaf_split(tab.root, direction, self.next_pane(kind, launch)),
                    ..tab
                },
            ),
            next_pane_id: self.next_pane_id + 1,
            ..self
        }
    }

    /// The group after an action. The last tab cannot be closed.
    pub open spec fn after(self, action: PaneGroupLiteAction, launch: Option<Seq<char>>) -> GroupView {
        match action {
            PaneGroupLiteAction::NewTab => GroupView {
                tabs: self.tabs.push(
                    TabView {
                        id: self.next_tab_id,
                        title: "shell "@ + decimal(self.next_tab_id as nat),
                        root: NodeView::Leaf(self.next_pane(PaneKind::Terminal, launch)),
                    },
                ),
                active: self.tabs.len() as int,
                next_tab_id: self.next_tab_id + 1,
                next_pane_id: self.next_pane_id + 1,
            },
            PaneGroupLiteAction::CloseActiveTab => if self.tabs.len() > 1 {
                GroupView {
                    tabs: self.tabs.remove(self.active),
                    active: if self.active < self.tabs.len() - 1 {
                        self.active
                    } else {
                        self.tabs.len() - 2
                    },
                    ..self
                }
            } else {
                self
            },
            PaneGroupLiteAction::NextTab => GroupView {
                active: (self.active + 1) % (self.tabs.len() as int),
                ..self
            },
            PaneGroupLiteAction::PreviousTab => GroupView {
                active: if self.active == 0 {
                    self.tabs.len() - 1
                } else {
                    self.active - 1
                },
                ..self
            },
            PaneGroupLiteAction::SplitRight => self.split(
                SplitDirection::Row,
                PaneKind::Terminal,
                launch,
            ),
            PaneGroupLiteAction::SplitDown => self.split(
                SplitDirection::Column,
                PaneKind::Terminal,
                launch,
            ),
            PaneGroupLiteAction::NewAgentPane => self.split(
                SplitDirection::Row,
                PaneKind::Agent,
                launch,
            ),
        }
    }

    /// The group after the shell of the pane `id` printed `chunks`.
    pub open spec fn received(self, id: int, chunks: Seq<Vec<u8>>) -> GroupView {
        GroupView {
            tabs: self.tabs.map_values(
                |tab: TabView| TabView { root: node_received(tab.root, id, chunks), ..tab },
            ),
            ..self
        }
    }

    /// Whether some pane has the given number.
    pub open spec fn has_pane(self, id: int) -> bool {
        exists|i: int| 0 <= i < self.tabs.len() && node_has((#[trigger] self.tabs[i]).root, id)
    }
}

pub open spec fn node_has(node: NodeView, id: int) -> bool
    decreases node,
{
    match node {
        NodeView::Leaf(pane) => pane.id == id,
        NodeView::Split { first, second, .. } => node_has(*first, id) || node_has(*second, id),
    }
}

/// Splitting puts the new pane behind the first one and keeps all others in their order.
pub proof fn law_split_keeps_panes(node: NodeView, direction: SplitDirection, pane: PaneView)
    ensures
        leaves(node).len() > 0,
        leaves(first_leaf_split(node, direction, pane)) == leaves(node).insert(1, pane),
    decreases node,
{
    match node {
        NodeView::Leaf(existing) => {
            reveal_with_fuel(leaves, 2);
            assert(seq![existing] + seq![pane] =~= seq![existing].insert(1, pane));
        },
        NodeView::Split { first, second, .. } => {
            law_split_keeps_panes(*first, direction, pane);
            assert(leaves(*first).insert(1, pane) + leaves(*second) =~= (leaves(*first) + leaves(
                *second,
            )).insert(1, pane));
        },
    }
}

/// Going to the next tab and back, or back and forth, shows the tab that was shown.
pub proof fn law_next_and_previous_undo_each_other(group: GroupView, launch: Option<Seq<char>>)
    requires
        group.wf(),
    ensures
        group.after(PaneGroupLiteAction::NextTab, launch).after(
            PaneGroupLiteAction::PreviousTab,
            launch,
        ) == group,
        group.after(PaneGroupLiteAction::PreviousTab, launch).after(
            PaneGroupLiteAction::NextTab,
            launch,
        ) == group,
{
    let n = group.tabs.len() as int;
    let active = group.active;
    if active + 1 < n {
        assert((active + 1) % n == active + 1) by (nonlinear_arith)
            requires
                0 <= active + 1 < n,
        ;
    } else {
        assert(n % n == 0) by (nonlinear_arith)
            requires
                n > 0,
        ;
    }
    assert((active - 1 + 1) % n == active) by (nonlinear_arith)
        requires
            0 <= active < n,
    ;
    assert((n - 1 + 1) % n == 0) by (nonlinear_arith)
        requires
            n > 0,
    ;
}

/// A new tab that is closed at once leaves the tabs that were there.
pub proof fn law_new_tab_can_be_closed(group: GroupView, launch: Option<Seq<char>>)
    requires
        group.wf(),
    ensures
        group.after(PaneGroupLiteAction::NewTab, launch).after(
            PaneGroupLiteAction::CloseActiveTab,
            launch,
        ).tabs == group.tabs,
{
    assert(group.after(PaneGroupLiteAction::NewTab, launch).tabs.remove(group.tabs.len() as int)
        =~= group.tabs);
}

/// Text that a pane keeps is as many bytes long as it has characters, so the bound is one on bytes.
pub proof fn law_output_bytes_are_bounded(pane: PaneView)
    requires
        outputs_bounded(NodeView::Leaf(pane)),
    ensures
        encode_utf8(pane.output).len() <= MAX_TERMINAL_TEXT_BYTES,
{
    assert forall|i: int| 0 <= i < pane.output.len() implies (#[trigger] pane.output[i] as u32) < 128 by {}
    vstd::utf8::is_ascii_chars_encode_utf8(pane.output);
}

proof fn lemma_all_sanitized_is_plain(chunks: Seq<Vec<u8>>)
    ensures
        is_plain_text(all_sanitized(chunks)),
    decreases chunks.len(),
{
    if chunks.len() > 0 {
        lemma_all_sanitized_is_plain(chunks.drop_last());
        crate::pty::law_sanitized_is_plain(
            encode_utf8(crate::text::utf8_lossy(chunks.last()@)),
        );
    }
}

proof fn lemma_split_bounded(node: NodeView, direction: SplitDirection, pane: PaneView)
    requires
        outputs_bounded(node),
        outputs_bounded(NodeView::Leaf(pane)),
    ensures
        outputs_bounded(first_leaf_split(node, direction, pane)),
    decreases node,
{
    reveal_with_fuel(outputs_bounded, 2);
    match node {
        NodeView::Leaf(existing) => {},
        NodeView::Split { first, .. } => {
            lemma_split_bounded(*first, direction, pane);
        },
    }
}

fn split_first_leaf(node: PaneNode, direction: SplitDirection, new_pane: Pane) -> (out: PaneNode)
    requires
        outputs_bounded(node@),
        outputs_bounded(NodeView::Leaf(new_pane@)),
    ensures
        out@ == first_leaf_split(node@, direction, new_pane@),
        outputs_bounded(out@),
    decreases node,
{
    reveal_with_fuel(node_view, 2);
    proof {
        lemma_split_bounded(node@, direction, new_pane@);
    }
    match node {
        PaneNode::Leaf(existing) => PaneNode::Split {
            direction,
            first: Box::new(PaneNode::Leaf(existing)),
            second: Box::new(PaneNode::Leaf(new_pane)),
        },
        PaneNode::Split { direction: outer, first, second } => {
            let first = split_first_leaf(*first, direction, new_pane);
            PaneNode::Split { direction: outer, first: Box::new(first), second }
        },
    }
}

/// Adds what the pane's shell printed; `true` if there was anything.
fn drain_pane_output(pane: &mut Pane, chunks: &Vec<Vec<u8>>) -> (did_drain: bool)
    requires
        outputs_bounded(NodeView::Leaf(old(pane)@)),
    ensures
        final(pane)@ == pane_received(old(pane)@, chunks@),
        outputs_bounded(NodeView::Leaf(final(pane)@)),
        did_drain == (chunks@.len() > 0),
{
    let ghost before = pane@;
    let mut i: usize = 0;
    assert(chunks@.take(0) =~= Seq::empty());
    assert(before.output + all_sanitized(chunks@.take(0)) =~= before.output);
    while i < chunks.len()
        invariant
            i <= chunks.len(),
            pane@ == (PaneView {
                output: before.output + all_sanitized(chunks@.take(i as int)),
                ..before
            }),
        decreases chunks.len() - i,
    {
        assert(chunks@.take(i + 1).drop_last() =~= chunks@.take(i as int));
        let text = sanitize_terminal_bytes(chunks[i].as_slice());
        pane.output.append(text.as_str());
        i += 1;
        assert(pane.output@ =~= before.output + all_sanitized(chunks@.take(i as int)));
    }
    assert(chunks@.take(chunks@.len() as int) =~= chunks@);
    proof {
        lemma_all_sanitized_is_plain(chunks@);
    }
    assert(is_plain_text(pane.output@));
    let len: usize = pane.output.as_str().unicode_len();
    if len > MAX_TERMINAL_TEXT_BYTES {
        let kept = pane.output.as_str().substring_char(len - MAX_TERMINAL_TEXT_BYTES, len).to_owned();
        pane.output = kept;
        assert(pane.output@ =~= recent(before.output + all_sanitized(chunks@)));
    }
    chunks.len() > 0
}

/// Hands what a shell printed to the pane it runs in; `true` if that pane is here and there was
/// anything.
fn drain_pane_node_output(node: &mut PaneNode, id: usize, chunks: &Vec<Vec<u8>>) -> (did_drain: bool)
    requires
        outputs_bounded(old(node)@),
    ensures
        final(node)@ == node_received(old(node)@, id as int, chunks@),
        outputs_bounded(final(node)@),
        did_drain == (node_has(old(node)@, id as int) && chunks@.len() > 0),
    decreases *old(node),
{
    match node {
        PaneNode::Leaf(pane) => {
            if pane.id == id {
                drain_pane_output(pane, chunks)
            } else {
                false
            }
        },
        PaneNode::Split { first, second, .. } => {
            let in_first: bool = drain_pane_node_output(first, id, chunks);
            let in_second: bool = drain_pane_node_output(second, id, chunks);
            in_first || in_second
        },
    }
}

/// Whether a pane is made by what the user asks for.
pub open spec fn makes_a_pane(action: PaneGroupLiteAction) -> bool {
    action is NewTab || action is SplitRight || action is SplitDown || action is NewAgentPane
}

impl PaneGroupLiteAction {
    /// Whether a pane is made by what the user asks for.
    pub fn makes_pane(&self) -> (yes: bool)
        ensures
            yes == makes_a_pane(*self),
    {
        match self {
            PaneGroupLiteAction::NewTab
            | PaneGroupLiteAction::SplitRight
            | PaneGroupLiteAction::SplitDown
            | PaneGroupLiteAction::NewAgentPane => true,
            _ => false,
        }
    }
}

impl PaneGroupLite {
    /// One tab with one shell, which `launch` describes.
    pub fn new(launch: Option<String>) -> (group: Self)
        ensures
            group@ == GroupView::initial(opt_text(launch)),
            group@.wf(),
    {
        let pane = Pane {
            id: 1,
            kind: PaneKind::Terminal,
            title: "shell".to_owned(),
            launch,
            output: String::new(),
        };
        let tab = Tab { id: 1, title: "shell".to_owned(), root: PaneNode::Leaf(pane) };
        let mut tabs: Vec<Tab> = Vec::new();
        tabs.push(tab);
        let group = PaneGroupLite { tabs, active_tab: 0, next_tab_id: 2, next_pane_id: 2 };
        assert(group@.tabs =~= GroupView::initial(opt_text(launch)).tabs);
        group
    }

    fn new_pane(&mut self, kind: PaneKind, launch: Option<String>) -> (pane: Pane)
        requires
            old(self).next_pane_id < usize::MAX,
        ensures
            pane@ == old(self)@.next_pane(kind, opt_text(launch)),
            final(self).tabs == old(self).tabs,
            final(self).active_tab == old(self).active_tab,
            final(self).next_tab_id == old(self).next_tab_id,
            final(self).next_pane_id == old(self).next_pane_id + 1,
    {
        let id: usize = self.next_pane_id;
        self.next_pane_id = id + 1;
        let mut title = String::new();
        title.append(
            match kind {
                PaneKind::Terminal => "shell ",
                PaneKind::Agent => "agent ",
            },
        );
        push_decimal(&mut title, id as u64);
        assert(title@ =~= kind_name(kind) + decimal(id as nat));
        let launch = match kind {
            PaneKind::Terminal => launch,
            PaneKind::Agent => None,
        };
        Pane { id, kind, title, launch, output: String::new() }
    }

    fn split_active_leaf(
        &mut self,
        direction: SplitDirection,
        kind: PaneKind,
        launch: Option<String>,
    )
        requires
            old(self)@.wf(),
            old(self).next_pane_id < usize::MAX,
        ensures
            final(self)@ == old(self)@.split(direction, kind, opt_text(launch)),
            final(self)@.wf(),
    {
        let ghost before = self@;
        let pane = self.new_pane(kind, launch);
        let active: usize = self.active_tab;
        assert(before.tabs.len() == self.tabs@.len());
        let tab = self.tabs.remove(active);
        assert(tab@ == before.tabs[active as int]);
        let root = split_first_leaf(tab.root, direction, pane);
        self.tabs.insert(active, Tab { id: tab.id, title: tab.title, root });
        assert(self@.tabs =~= before.split(direction, kind, opt_text(launch)).tabs);
    }

    /// Does what the user asked for. `launch` describes the shell of a pane that is made by it.
    pub fn handle_action(&mut self, action: PaneGroupLiteAction, launch: Option<String>)
        requires
            old(self)@.wf(),
            action is NewTab ==> old(self).next_tab_id < usize::MAX,
            makes_a_pane(action) ==> old(self).next_pane_id < usize::MAX,
        ensures
            final(self)@ == old(self)@.after(action, opt_text(launch)),
            final(self)@.wf(),
    {
        let ghost before = self@;
        assert(before.tabs.len() == self.tabs@.len());
        match action {
            PaneGroupLiteAction::NewTab => {
                let id: usize = self.next_tab_id;
                self.next_tab_id = id + 1;
                let pane = self.new_pane(PaneKind::Terminal, launch);
                let mut title = String::new();
                title.append("shell ");
                push_decimal(&mut title, id as u64);
                assert(title@ =~= "shell "@ + decimal(id as nat));
                self.tabs.push(Tab { id, title, root: PaneNode::Leaf(pane) });
                self.active_tab = self.tabs.len() - 1;
                assert(self@.tabs =~= before.after(action, opt_text(launch)).tabs);
            },
            PaneGroupLiteAction::CloseActiveTab => {
                if self.tabs.len() > 1 {
                    let _closed = self.tabs.remove(self.active_tab);
                    if self.active_tab > self.tabs.len() - 1 {
                        self.active_tab = self.tabs.len() - 1;
                    }
                    assert(self@.tabs =~= before.tabs.remove(before.active));
                }
            },
            PaneGroupLiteAction::NextTab => {
                let n: usize = self.tabs.len();
                self.active_tab = (self.active_tab + 1) % n;
            },
            PaneGroupLiteAction::PreviousTab => {
                self.active_tab = if self.active_tab == 0 {
                    self.tabs.len() - 1
                } else {
                    self.active_tab - 1
                };
            },
            PaneGroupLiteAction::SplitRight => {
                self.split_active_leaf(SplitDirection::Row, PaneKind::Terminal, launch);
            },
            PaneGroupLiteAction::SplitDown => {
                self.split_active_leaf(SplitDirection::Column, PaneKind::Terminal, launch);
            },
            PaneGroupLiteAction::NewAgentPane => {
                self.split_active_leaf(SplitDirection::Row, PaneKind::Agent, launch);
            },
        }
    }

    /// Hands what a shell printed to the pane it runs in; `true` if anything changed hands.
    pub fn drain_pty_output(&mut self, id: usize, chunks: &Vec<Vec<u8>>) -> (did_drain: bool)
        requires
            old(self)@.wf(),
        ensures
            final(self)@ == old(self)@.received(id as int, chunks@),
            final(self)@.wf(),
            did_drain == (old(self)@.has_pane(id as int) && chunks@.len() > 0),
    {
        let ghost before = self@;
        let ghost after = before.received(id as int, chunks@);
        let mut did_drain: bool = false;
        let mut i: usize = 0;
        assert(before.tabs.len() == self.tabs@.len());
        while i < self.tabs.len()
            invariant
                before.wf(),
                after == before.received(id as int, chunks@),
                self.tabs@.len() == before.tabs.len(),
                i <= self.tabs@.len(),
                self.active_tab == before.active,
                self.next_tab_id == before.next_tab_id,
                self.next_pane_id == before.next_pane_id,
                forall|j: int| 0 <= j < i ==> (#[trigger] self.tabs@[j])@ == after.tabs[j] && outputs_bounded(after.tabs[j].root),
                forall|j: int| i <= j < before.tabs.len() ==> (#[trigger] self.tabs@[j])@ == before.tabs[j],
                did_drain == (chunks@.len() > 0 && exists|j: int|
                    0 <= j < i && node_has((#[trigger] before.tabs[j]).root, id as int)),
            decreases self.tabs@.len() - i,
        {
            let ghost mid = self.tabs@;
            assert(self.tabs@[i as int]@ == before.tabs[i as int]);
            let drained: bool = drain_pane_node_output(&mut self.tabs[i].root, id, chunks);
            did_drain = did_drain || drained;
            assert(self.tabs@[i as int]@ == after.tabs[i as int]);
            i += 1;
        }
        assert(self@.tabs =~= after.tabs);
        did_drain
    }
}

/// The label of a tab: its title and its number.
pub fn tab_label(tab: &Tab) -> (label: String)
    ensures
        label@ == tab@.title + " "@ + decimal(tab@.id as nat),
{
    let mut label = tab.title.clone();
    label.append(" ");
    push_decimal(&mut label, tab.id as u64);
    assert(label@ =~= tab@.title + " "@ + decimal(tab@.id as nat));
    label
}

/// The background and the text colour of a tab's label.
pub fn tab_colors(is_active: bool) -> (colors: (Color, Color))
    ensures
        is_active ==> colors == (
            (Color { r: 38, g: 38, b: 38, a: 255 }),
            (Color { r: 245, g: 245, b: 245, a: 255 }),
        ),
        !is_active ==> colors == (
            (Color { r: 9, g: 9, b: 9, a: 255 }),
            (Color { r: 150, g: 150, b: 150, a: 255 }),
        ),
{
    if is_active {
        (Color::new(38, 38, 38, 255), Color::new(245, 245, 245, 255))
    } else {
        (Color::new(9, 9, 9, 255), Color::new(150, 150, 150, 255))
    }
}

/// The heading of a pane: its title and its number.
pub fn pane_heading(pane: &Pane) -> (heading: String)
    ensures
        heading@ == pane@.title + " \u{b7} "@ + decimal(pane@.id as nat),
{
    let mut heading = pane.title.clone();
    heading.append(" \u{b7} ");
    push_decimal(&mut heading, pane.id as u64);
    assert(heading@ =~= pane@.title + " \u{b7} "@ + decimal(pane@.id as nat));
    heading
}

/// The text in a pane: what its shell printed, and until then what is being started.
pub open spec fn body_text(pane: PaneView) -> Seq<char> {
    match pane.kind {
        PaneKind::Agent => "local rich input placeholder"@,
        PaneKind::Terminal => if pane.output.len() > 0 {
            pane.output
        } else {
            match pane.launch {
                Some(launch) => "starting "@ + launch,
                None => "starting login shell"@,
            }
        },
    }
}

pub fn pane_body(pane: &Pane) -> (body: String)
    ensures
        body@ == body_text(pane@),
{
    match pane.kind {
        PaneKind::Agent => "local rich input placeholder".to_owned(),
        PaneKind::Terminal => {
            if !pane.output.as_str().is_empty() {
                pane.output.clone()
            } else {
                match &pane.launch {
                    Some(launch) => {
                        let mut body = "starting ".to_owned();
                        body.append(launch.as_str());
                        body
                    },
                    None => "starting login shell".to_owned(),
                }
            }
        },
    }
}

} // verus!
