//! Descriptions of a monocle layout: a one-line text and a container tree.

use vstd::prelude::*;

use crate::layout_state::LayoutState;
use crate::model::LayoutStateView;
use crate::window::WindowId;

verus! {

/// The decimal digit for `d`, below ten.
pub open spec fn digit_char(d: nat) -> char {
    (48 + d) as char
}

/// The decimal notation of `n`, without leading zeros.
pub open spec fn decimal(n: nat) -> Seq<char>
    decreases n,
{
    if n < 10 {
        seq![digit_char(n)]
    } else {
        decimal(n / 10) + seq![digit_char(n % 10)]
    }
}

/// The decimal notation of `x`, with a minus sign when it is negative.
pub open spec fn signed_decimal(x: int) -> Seq<char> {
    if x < 0 {
        seq!['-'] + decimal((-x) as nat)
    } else {
        decimal(x as nat)
    }
}

/// How a window is written: as its `Debug` form shows it.
pub open spec fn window_text(w: WindowId) -> Seq<char> {
    "WindowId { pid: "@ + signed_decimal(w.pid as int) + ", idx: "@ + decimal(w.idx as nat)
        + " }"@
}

/// How a window of the stack is written, starred when it is selected.
pub open spec fn entry_text(w: WindowId, selected: Option<WindowId>) -> Seq<char> {
    if Some(w) == selected {
        " [*"@ + window_text(w) + "]"@
    } else {
        " ["@ + window_text(w) + "]"@
    }
}

/// The windows of a stack written one after the other.
pub open spec fn entries_text(ws: Seq<WindowId>, selected: Option<WindowId>) -> Seq<char>
    decreases ws.len(),
{
    if ws.len() == 0 {
        Seq::empty()
    } else {
        entries_text(ws.drop_last(), selected) + entry_text(ws.last(), selected)
    }
}

/// The one-line description of a monocle layout.
pub open spec fn layout_text(v: LayoutStateView) -> Seq<char> {
    "Monocle:"@ + entries_text(v.windows, v.selected) + "\n"@
}

/// The text of one decimal digit.
fn digit_str(d: u32) -> (s: &'static str)
    requires
        d < 10,
    ensures
        s@ == seq![digit_char(d as nat)],
{
    proof {
        reveal_strlit("0");
        reveal_strlit("1");
        reveal_strlit("2");
        reveal_strlit("3");
        reveal_strlit("4");
        reveal_strlit("5");
        reveal_strlit("6");
        reveal_strlit("7");
        reveal_strlit("8");
        reveal_strlit("9");
    }
    let s = match d {
        0 => "0",
        1 => "1",
        2 => "2",
        3 => "3",
        4 => "4",
        5 => "5",
        6 => "6",
        7 => "7",
        8 => "8",
        _ => "9",
    };
    assert(s@ =~= seq![digit_char(d as nat)]);
    s
}

/// Appends the decimal notation of `n`.
fn push_decimal(out: &mut String, n: u32)
    ensures
        final(out)@ == old(out)@ + decimal(n as nat),
    decreases n,
{
    if n >= 10 {
        push_decimal(out, n / 10);
    }
    out.append(digit_str(n % 10));
    assert(final(out)@ =~= old(out)@ + decimal(n as nat));
}

/// Appends the decimal notation of `x`, with a minus sign when negative.
fn push_signed_decimal(out: &mut String, x: i32)
    ensures
        final(out)@ == old(out)@ + signed_decimal(x as int),
{
    if x < 0 {
        proof {
            reveal_strlit("-");
        }
        out.append("-");
        let magnitude: u32 = (0i64 - x as i64) as u32;
        push_decimal(out, magnitude);
        assert(final(out)@ =~= old(out)@ + signed_decimal(x as int));
    } else {
        push_decimal(out, x as u32);
    }
}

/// Appends how `w` is written.
pub fn push_window_text(out: &mut String, w: WindowId)
    ensures
        final(out)@ == old(out)@ + window_text(w),
{
    out.append("WindowId { pid: ");
    push_signed_decimal(out, w.pid);
    out.append(", idx: ");
    push_decimal(out, w.idx);
    out.append(" }");
    assert(final(out)@ =~= old(out)@ + window_text(w));
}

/// The one-line description of `state`: each window in stack order, the
/// selected one starred.
pub fn describe_layout(state: &LayoutState) -> (text: String)
    ensures
        text@ == layout_text(state@),
{
    let windows = state.windows();
    let selected = state.selected();
    let mut out = String::from_str("Monocle:");
    let mut i: usize = 0;
    while i < windows.len()
        invariant
            0 <= i <= windows@.len(),
            windows@ == state@.windows,
            selected == state@.selected,
            out@ == "Monocle:"@ + entries_text(windows@.subrange(0, i as int), selected),
        decreases windows@.len() - i,
    {
        let w = windows[i];
        let starred = match selected {
            Some(s) => s == w,
            None => false,
        };
        if starred {
            out.append(" [*");
        } else {
            out.append(" [");
        }
        push_window_text(&mut out, w);
        out.append("]");
        proof {
            let pre = windows@.subrange(0, i as int);
            let post = windows@.subrange(0, i + 1);
            assert(post.drop_last() =~= pre);
            assert(post.last() == w);
            assert(out@ =~= "Monocle:"@ + entries_text(post, selected));
        }
        i = i + 1;
    }
    assert(windows@.subrange(0, windows@.len() as int) =~= windows@);
    out.append("\n");
    assert(out@ =~= layout_text(state@));
    out
}

/// What a node of a container tree stands for.
#[derive(Clone, Copy, Debug, PartialEq, Eq, Structural)]
pub enum ContainerNodeType {
    Container,
    Window,
}

/// A node of the container tree that describes a layout.
#[derive(Debug)]
pub struct ContainerTreeNode {
    pub node_type: ContainerNodeType,
    pub window_id: Option<WindowId>,
    pub is_selected: bool,
    pub is_fullscreen: bool,
    pub is_fullscreen_within_gaps: bool,
    pub role: Option<String>,
    pub children: Vec<ContainerTreeNode>,
}

/// `node` is the leaf that describes window `w` of layout `v`.
pub open spec fn describes_window(node: ContainerTreeNode, v: LayoutStateView, w: WindowId) -> bool {
    &&& node.node_type == ContainerNodeType::Window
    &&& node.window_id == Some(w)
    &&& node.is_selected == (v.selected == Some(w))
    &&& node.is_fullscreen == v.fullscreen.contains(w)
    &&& node.is_fullscreen_within_gaps == v.fullscreen_within_gaps.contains(w)
    &&& node.role is None
    &&& node.children@.len() == 0
}

/// `node` is the tree that describes layout `v`: one monocle container
/// whose children are the windows in stack order.
pub open spec fn describes_layout(node: ContainerTreeNode, v: LayoutStateView) -> bool {
    &&& node.node_type == ContainerNodeType::Container
    &&& node.window_id is None
    &&& !node.is_selected
    &&& !node.is_fullscreen
    &&& !node.is_fullscreen_within_gaps
    &&& node.role matches Some(role) && role@ == "monocle"@
    &&& node.children@.len() == v.windows.len()
    &&& forall|i: int|
        0 <= i < v.windows.len() ==> describes_window(#[trigger] node.children@[i], v, v.windows[i])
}

/// The container tree of `state`: one monocle container holding a leaf for
/// each window, in stack order, marked when selected or fullscreen.
pub fn layout_tree(state: &LayoutState) -> (node: ContainerTreeNode)
    ensures
        describes_layout(node, state@),
{
    let windows = state.windows();
    let selected = state.selected();
    let mut children: Vec<ContainerTreeNode> = Vec::new();
    let mut i: usize = 0;
    while i < windows.len()
        invariant
            0 <= i <= windows@.len(),
            windows@ == state@.windows,
            selected == state@.selected,
            children@.len() == i,
            forall|j: int|
                0 <= j < i ==> describes_window(#[trigger] children@[j], state@, windows@[j]),
        decreases windows@.len() - i,
    {
        let w = windows[i];
        let is_selected = match selected {
            Some(s) => s == w,
            None => false,
        };
        children.push(
            ContainerTreeNode {
                node_type: ContainerNodeType::Window,
                window_id: Some(w),
                is_selected,
                is_fullscreen: state.is_fullscreen(w),
                is_fullscreen_within_gaps: state.is_fullscreen_within_gaps(w),
                role: None,
                children: Vec::new(),
            },
        );
        i = i + 1;
    }
    ContainerTreeNode {
        node_type: ContainerNodeType::Container,
        window_id: None,
        is_selected: false,
        is_fullscreen: false,
        is_fullscreen_within_gaps: false,
        role: Some(String::from_str("monocle")),
        children,
    }
}

} // verus!
