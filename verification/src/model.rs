use vstd::prelude::*;
use crate::{Position, Size, MAX_CELL, MAX_CHILDREN};
use crate::style::{Length, StyleSheet, style_wf};
use crate::container::ContainerKind;
use crate::events::{Event, KeyCode, KeyMod, MouseEvent, MouseEventKind};

verus! {

broadcast use vstd::seq::axiom_seq_index_decreases, vstd::std_specs::vec::group_vec_axioms;

/// Model of a `Text` widget: its string as a character sequence.
#[verifier::ext_equal]
pub struct TextV {
    pub text: Seq<char>,
    pub position: Position,
    pub size: Size,
    pub style: StyleSheet,
    pub onclick_message: Option<Seq<char>>,
    pub selected: bool,
}

/// Model of a `Button` widget.
#[verifier::ext_equal]
pub struct ButtonV {
    pub position: Position,
    pub size: Size,
    pub style: StyleSheet,
    pub text: Seq<char>,
    pub onclick_message: Option<Seq<char>>,
    pub selected: bool,
}

/// Model of an `Input` widget.
#[verifier::ext_equal]
pub struct InputV {
    pub position: Position,
    pub size: Size,
    pub style: StyleSheet,
    pub placeholder: Seq<char>,
    pub text: Seq<char>,
    pub selected: bool,
    pub is_password: bool,
    pub block_tab: bool,
    pub cursor: bool,
    pub submit_msg: Option<Seq<char>>,
    pub on_change: Seq<char>,
}

/// Model of a `Container` widget, children modelled in order.
#[verifier::ext_equal]
pub struct ContainerV {
    pub position: Position,
    pub size: Size,
    pub style: StyleSheet,
    pub kind: ContainerKind,
    pub content: Seq<WidgetV>,
    pub borders: Seq<char>,
    pub selected: bool,
    pub selection_index: int,
    pub tab_selector: bool,
    pub always_selected: bool,
}

/// Model of any widget tree node.
#[verifier::ext_equal]
pub enum WidgetV {
    Text(TextV),
    Button(ButtonV),
    Container(ContainerV),
    Input(InputV),
}

/// The view of an optional string.
pub open spec fn opt_view(o: Option<String>) -> Option<Seq<char>> {
    match o {
        Option::Some(s) => Option::Some(s@),
        Option::None => Option::None,
    }
}

pub open spec fn style_of(w: WidgetV) -> StyleSheet {
    match w {
        WidgetV::Text(t) => t.style,
        WidgetV::Button(b) => b.style,
        WidgetV::Container(c) => c.style,
        WidgetV::Input(i) => i.style,
    }
}

pub open spec fn position_of(w: WidgetV) -> Position {
    match w {
        WidgetV::Text(t) => t.position,
        WidgetV::Button(b) => b.position,
        WidgetV::Container(c) => c.position,
        WidgetV::Input(i) => i.position,
    }
}

pub open spec fn size_of(w: WidgetV) -> Size {
    match w {
        WidgetV::Text(t) => t.size,
        WidgetV::Button(b) => b.size,
        WidgetV::Container(c) => c.size,
        WidgetV::Input(i) => i.size,
    }
}

/// What `is_selected` reports: a container also counts as selected
/// when marked always-selected.
pub open spec fn is_selected_of(w: WidgetV) -> bool {
    match w {
        WidgetV::Text(t) => t.selected,
        WidgetV::Button(b) => b.selected,
        WidgetV::Container(c) => c.selected || c.always_selected,
        WidgetV::Input(i) => i.selected,
    }
}

/// A selected tab-selector container: while one is mid-cycle one
/// level down, its parent must not advance its own cursor.
pub open spec fn tab_cycling(w: WidgetV) -> bool {
    match w {
        WidgetV::Container(c) => c.tab_selector && (c.selected || c.always_selected),
        _ => false,
    }
}

pub open spec fn with_position(w: WidgetV, position: Position) -> WidgetV {
    match w {
        WidgetV::Text(t) => WidgetV::Text(TextV { position, ..t }),
        WidgetV::Button(b) => WidgetV::Button(ButtonV { position, ..b }),
        WidgetV::Container(c) => WidgetV::Container(ContainerV { position, ..c }),
        WidgetV::Input(i) => WidgetV::Input(InputV { position, ..i }),
    }
}

pub open spec fn with_size(w: WidgetV, size: Size) -> WidgetV {
    match w {
        WidgetV::Text(t) => WidgetV::Text(TextV { size, ..t }),
        WidgetV::Button(b) => WidgetV::Button(ButtonV { size, ..b }),
        WidgetV::Container(c) => WidgetV::Container(ContainerV { size, ..c }),
        WidgetV::Input(i) => WidgetV::Input(InputV { size, ..i }),
    }
}

pub open spec fn with_style(w: WidgetV, style: StyleSheet) -> WidgetV {
    match w {
        WidgetV::Text(t) => WidgetV::Text(TextV { style, ..t }),
        WidgetV::Button(b) => WidgetV::Button(ButtonV { style, ..b }),
        WidgetV::Container(c) => WidgetV::Container(ContainerV { style, ..c }),
        WidgetV::Input(i) => WidgetV::Input(InputV { style, ..i }),
    }
}

/// Every style in the tree is well-formed and no container holds more
/// than `MAX_CHILDREN` children: what a layout pass needs to stay in
/// machine range.
pub open spec fn styles_ok(w: WidgetV) -> bool
    decreases w, 0int,
{
    &&& style_wf(style_of(w))
    &&& match w {
        WidgetV::Container(c) => styles_ok_children(c.content),
        _ => true,
    }
}

pub open spec fn styles_ok_children(content: Seq<WidgetV>) -> bool
    decreases content, 1int,
{
    &&& content.len() <= MAX_CHILDREN
    &&& forall|i: int| 0 <= i < content.len() ==> styles_ok(#[trigger] content[i])
}

/// Every widget in the tree sits within drawable machine bounds:
/// extents at most `MAX_CELL` and coordinates at most `POS_LIMIT`.
pub open spec fn bounded(w: WidgetV) -> bool
    decreases w, 0int,
{
    &&& size_of(w).x <= MAX_CELL
    &&& size_of(w).y <= MAX_CELL
    &&& position_of(w).x <= crate::POS_LIMIT
    &&& position_of(w).y <= crate::POS_LIMIT
    &&& match w {
        WidgetV::Container(c) => bounded_children(c.content),
        _ => true,
    }
}

pub open spec fn bounded_children(content: Seq<WidgetV>) -> bool
    decreases content, 1int,
{
    forall|i: int| 0 <= i < content.len() ==> bounded(#[trigger] content[i])
}

/// Every tab-selector container has at least one child and a focus
/// cursor in range; key routing relies on this to never fault.
pub open spec fn tab_ok(w: WidgetV) -> bool
    decreases w, 0int,
{
    match w {
        WidgetV::Container(c) => tab_ok_container(c),
        _ => true,
    }
}

pub open spec fn tab_ok_container(c: ContainerV) -> bool
    decreases c, 1int,
{
    &&& (c.tab_selector ==> 1 <= c.content.len() && 0 <= c.selection_index < c.content.len())
    &&& forall|i: int| 0 <= i < c.content.len() ==> tab_ok(#[trigger] c.content[i])
}

// ---------------------------------------------------------------------
// Layout
// ---------------------------------------------------------------------

/// Resolves a requested length: `Absolute` is literal; `Relative`
/// takes its fraction of the space remaining past the cursor, less
/// the end padding.  A resolved extent is never negative.
pub open spec fn resolve_len(l: Length, total: int, cur: int, pad_end: int) -> int {
    match l {
        Length::Absolute(n) => n as int,
        Length::Relative(num, den) => {
            let rem = if total - cur >= 0 { total - cur } else { 0 };
            let q = (rem * num) / (den as int);
            if q - pad_end >= 0 { q - pad_end } else { 0 }
        },
    }
}

/// The rectangle one child receives, and where the cursor goes next.
#[verifier::ext_equal]
pub struct ChildRect {
    pub px: int,
    pub py: int,
    pub w: int,
    pub h: int,
    pub next_x: int,
    pub next_y: int,
}

/// One layout step: advance the cursor by the start padding, resolve
/// both extents against the remaining space, then step past the child
/// on the layout axis and reset the cross axis.
pub open spec fn child_rect(
    kind: ContainerKind,
    total_x: int,
    total_y: int,
    cur_x: int,
    cur_y: int,
    st: StyleSheet,
) -> ChildRect {
    let px = cur_x + st.padding.x_start as int;
    let py = cur_y + st.padding.y_start as int;
    let w = resolve_len(st.width, total_x, px, st.padding.x_end as int);
    let h = resolve_len(st.height, total_y, py, st.padding.y_end as int);
    match kind {
        ContainerKind::Row => ChildRect { px, py, w, h, next_x: px + w, next_y: 0 },
        ContainerKind::Column => ChildRect { px, py, w, h, next_x: 0, next_y: py + h },
    }
}

/// The cursor before child `i`, after children `[0, i)` consumed
/// their share.
pub open spec fn cursor_before(
    kind: ContainerKind,
    total_x: int,
    total_y: int,
    content: Seq<WidgetV>,
    i: int,
) -> (int, int)
    decreases i,
{
    if i <= 0 {
        (0, 0)
    } else {
        let prev = cursor_before(kind, total_x, total_y, content, i - 1);
        let r = child_rect(kind, total_x, total_y, prev.0, prev.1, style_of(content[i - 1]));
        (r.next_x, r.next_y)
    }
}

/// The rectangle child `i` of a container receives.
pub open spec fn rect_of(
    kind: ContainerKind,
    total_x: int,
    total_y: int,
    content: Seq<WidgetV>,
    i: int,
) -> ChildRect {
    let cur = cursor_before(kind, total_x, total_y, content, i);
    child_rect(kind, total_x, total_y, cur.0, cur.1, style_of(content[i]))
}

/// A widget after layout assigned it the given rectangle; a container
/// lays its own children out against its new size.
pub open spec fn layout_widget(w: WidgetV, px: int, py: int, sx: int, sy: int) -> WidgetV
    decreases w, 0int,
{
    let position = Position { x: px as u64, y: py as u64 };
    let size = Size { x: sx as u64, y: sy as u64 };
    match w {
        WidgetV::Text(t) => WidgetV::Text(TextV { position, size, ..t }),
        WidgetV::Button(b) => WidgetV::Button(ButtonV { position, size, ..b }),
        WidgetV::Input(i) => WidgetV::Input(InputV { position, size, ..i }),
        WidgetV::Container(c) => {
            proof {
                assert(decreases_to!(w => c));
                assert(decreases_to!(c => c.content));
                assert(decreases_to!(w => c.content));
            }
            WidgetV::Container(
                ContainerV { position, size, content: layout_children(c.kind, sx, sy, c.content), ..c },
            )
        },
    }
}

/// The first `i` children of a container laid out against extents
/// `(sx, sy)`.
pub open spec fn layout_children_upto(
    kind: ContainerKind,
    sx: int,
    sy: int,
    content: Seq<WidgetV>,
    i: int,
) -> Seq<WidgetV>
    decreases content, i,
{
    if i <= 0 || i > content.len() {
        seq![]
    } else {
        proof {
            assert(decreases_to!(content => content[i - 1]));
        }
        let r = rect_of(kind, sx, sy, content, i - 1);
        layout_children_upto(kind, sx, sy, content, i - 1).push(
            layout_widget(content[i - 1], r.px, r.py, r.w, r.h),
        )
    }
}

/// All children of a container laid out against extents `(sx, sy)`.
pub open spec fn layout_children(
    kind: ContainerKind,
    sx: int,
    sy: int,
    content: Seq<WidgetV>,
) -> Seq<WidgetV>
    decreases content, content.len() + 1,
{
    layout_children_upto(kind, sx, sy, content, content.len() as int)
}

/// `layout_children` assigns child `j` exactly its rectangle.
pub proof fn lemma_layout_children_upto(
    kind: ContainerKind,
    sx: int,
    sy: int,
    content: Seq<WidgetV>,
    i: int,
)
    requires
        0 <= i <= content.len(),
    ensures
        layout_children_upto(kind, sx, sy, content, i).len() == i,
        forall|j: int|
            0 <= j < i ==> layout_children_upto(kind, sx, sy, content, i)[j]
                == layout_widget(
                content[j],
                rect_of(kind, sx, sy, content, j).px,
                rect_of(kind, sx, sy, content, j).py,
                rect_of(kind, sx, sy, content, j).w,
                rect_of(kind, sx, sy, content, j).h,
            ),
    decreases i,
{
    if i > 0 {
        lemma_layout_children_upto(kind, sx, sy, content, i - 1);
    }
}

/// Length and elementwise reading of a laid-out child sequence.
pub proof fn lemma_layout_children(kind: ContainerKind, sx: int, sy: int, content: Seq<WidgetV>)
    ensures
        layout_children(kind, sx, sy, content).len() == content.len(),
        forall|j: int|
            0 <= j < content.len() ==> layout_children(kind, sx, sy, content)[j]
                == layout_widget(
                content[j],
                rect_of(kind, sx, sy, content, j).px,
                rect_of(kind, sx, sy, content, j).py,
                rect_of(kind, sx, sy, content, j).w,
                rect_of(kind, sx, sy, content, j).h,
            ),
{
    lemma_layout_children_upto(kind, sx, sy, content, content.len() as int);
}

/// A resolved extent is non-negative and never exceeds the larger of
/// the absolute cap and the available total.
pub proof fn lemma_resolve_len_bounds(l: Length, total: int, cur: int, pad_end: int)
    requires
        crate::style::length_wf(l),
        0 <= total <= MAX_CELL,
        cur >= 0,
        pad_end >= 0,
    ensures
        0 <= resolve_len(l, total, cur, pad_end) <= MAX_CELL,
{
    match l {
        Length::Absolute(_) => {},
        Length::Relative(num, den) => {
            let rem = if total - cur >= 0 { total - cur } else { 0 };
            let q = (rem * num as int) / (den as int);
            vstd::arithmetic::mul::lemma_mul_nonnegative(rem, num as int);
            vstd::arithmetic::div_mod::lemma_div_pos_is_pos(rem * num as int, den as int);
            vstd::arithmetic::mul::lemma_mul_inequality(num as int, den as int, rem);
            vstd::arithmetic::div_mod::lemma_div_is_ordered(
                rem * num as int,
                rem * den as int,
                den as int,
            );
            vstd::arithmetic::div_mod::lemma_div_multiples_vanish(rem, den as int);
            assert(q <= rem);
        },
    }
}

/// Which widgets a layout pass may be asked to lay out directly:
/// leaves always; a container when its children's styles are
/// well-formed and its own size is within range.
pub open spec fn apply_ok(w: WidgetV) -> bool {
    match w {
        WidgetV::Container(c) => styles_ok_children(c.content) && c.size.x <= MAX_CELL
            && c.size.y <= MAX_CELL,
        _ => true,
    }
}

/// A widget after one layout pass over its own children (a no-op for
/// leaves); positions and sizes of the widget itself are untouched.
pub open spec fn applied(w: WidgetV) -> WidgetV {
    match w {
        WidgetV::Container(c) => WidgetV::Container(
            ContainerV {
                content: layout_children(c.kind, c.size.x as int, c.size.y as int, c.content),
                ..c
            },
        ),
        _ => w,
    }
}

// ---------------------------------------------------------------------
// Selection
// ---------------------------------------------------------------------

/// Setting a widget's selected flag; a container passes the flag on
/// to its first child.
pub open spec fn select_widget(w: WidgetV, sel: bool) -> WidgetV
    decreases w, 0int,
{
    match w {
        WidgetV::Text(t) => WidgetV::Text(TextV { selected: sel, ..t }),
        WidgetV::Button(b) => WidgetV::Button(ButtonV { selected: sel, ..b }),
        WidgetV::Input(i) => WidgetV::Input(InputV { selected: sel, ..i }),
        WidgetV::Container(c) => WidgetV::Container(select_container(c, sel)),
    }
}

pub open spec fn select_container(c: ContainerV, sel: bool) -> ContainerV
    decreases c, 1int,
{
    ContainerV {
        selected: sel,
        content: if c.content.len() > 0 {
            proof {
                assert(decreases_to!(c => c.content));
                assert(decreases_to!(c.content => c.content[0]));
                assert(decreases_to!(c => c.content[0]));
            }
            c.content.update(0, select_widget(c.content[0], sel))
        } else {
            c.content
        },
        ..c
    }
}

// ---------------------------------------------------------------------
// Input routing
// ---------------------------------------------------------------------

/// A text reacts only to mouse-down: it emits its click message if it
/// has one, else (as a debug affordance) sets its own text.
pub open spec fn text_handle(t: TextV, ev: Event) -> (TextV, Seq<Seq<Seq<char>>>) {
    match ev {
        Event::Mouse(me) => match me.kind {
            MouseEventKind::Down(_) => match t.onclick_message {
                Option::Some(m) => (t, seq![seq![m]]),
                Option::None => (
                    TextV {
                        text: "clicked"@,
                        size: crate::text::measured_size("clicked"@),
                        ..t
                    },
                    seq![],
                ),
            },
            _ => (t, seq![]),
        },
        _ => (t, seq![]),
    }
}

/// A button emits its message on mouse-down or Enter; focus gating
/// for keys happens in the parent container.
pub open spec fn button_handle(b: ButtonV, ev: Event) -> (ButtonV, Seq<Seq<Seq<char>>>) {
    match ev {
        Event::Mouse(me) => match me.kind {
            MouseEventKind::Down(_) => match b.onclick_message {
                Option::Some(m) => (b, seq![seq![m]]),
                Option::None => (b, seq![]),
            },
            _ => (b, seq![]),
        },
        Event::Key(_, code) => match code {
            KeyCode::Enter => match b.onclick_message {
                Option::Some(m) => (b, seq![seq![m]]),
                Option::None => (b, seq![]),
            },
            _ => (b, seq![]),
        },
        _ => (b, seq![]),
    }
}

/// An input edits its buffer and reports the full text under its
/// `on_change` name after every insert or erase; Enter emits the
/// submit message if one is set, else appends a newline and still
/// reports; Tab is swallowed entirely when the tab blocker is on.
pub open spec fn input_handle(i: InputV, ev: Event) -> (InputV, Seq<Seq<Seq<char>>>) {
    match ev {
        Event::Key(_, code) => match code {
            KeyCode::Enter => match i.submit_msg {
                Option::Some(m) => (i, seq![seq![m]]),
                Option::None => {
                    let t2 = i.text.push('\n');
                    (InputV { text: t2, ..i }, seq![seq![i.on_change, t2]])
                },
            },
            KeyCode::Tab => {
                if !i.block_tab {
                    let t2 = i.text.push('\t');
                    (InputV { text: t2, ..i }, seq![seq![i.on_change, t2]])
                } else {
                    (i, seq![])
                }
            },
            KeyCode::Char(c) => {
                let t2 = i.text.push(c);
                (InputV { text: t2, ..i }, seq![seq![i.on_change, t2]])
            },
            KeyCode::Backspace => {
                let t2 = if i.text.len() > 0 { i.text.drop_last() } else { i.text };
                (InputV { text: t2, ..i }, seq![seq![i.on_change, t2]])
            },
            _ => (i, seq![]),
        },
        _ => (i, seq![]),
    }
}

/// Does the mouse point land in the widget's rectangle (inclusive on
/// all four bounds)?
pub open spec fn mouse_hit(w: WidgetV, me: MouseEvent) -> bool {
    let p = position_of(w);
    let s = size_of(w);
    &&& p.x <= me.column as int <= p.x + s.x
    &&& p.y <= me.row as int <= p.y + s.y
}

/// The event as the child sees it: in its own coordinate frame.
pub open spec fn translate_mouse(w: WidgetV, me: MouseEvent) -> MouseEvent {
    MouseEvent {
        column: (me.column as int - position_of(w).x as int) as u16,
        row: (me.row as int - position_of(w).y as int) as u16,
        ..me
    }
}

/// Key delivery to the first `i` children: each selected child
/// handles the key; messages accumulate in child order, and the flag
/// records whether some handled child is a tab-cycling container.
pub open spec fn key_phase(
    content: Seq<WidgetV>,
    m: KeyMod,
    k: KeyCode,
    i: int,
) -> (Seq<WidgetV>, Seq<Seq<Seq<char>>>, bool)
    decreases content, i,
{
    if i <= 0 || i > content.len() {
        (seq![], seq![], false)
    } else {
        proof {
            assert(decreases_to!(content => content[i - 1]));
        }
        let prev = key_phase(content, m, k, i - 1);
        let w = content[i - 1];
        if is_selected_of(w) {
            let r = widget_handle(w, Event::Key(m, k));
            (prev.0.push(r.0), prev.1 + r.1, prev.2 || tab_cycling(r.0))
        } else {
            (prev.0.push(w), prev.1, prev.2)
        }
    }
}

/// Mouse delivery to the first `i` children: every child whose
/// rectangle contains the point receives the translated event,
/// selected or not.
pub open spec fn mouse_phase(
    content: Seq<WidgetV>,
    me: MouseEvent,
    i: int,
) -> (Seq<WidgetV>, Seq<Seq<Seq<char>>>)
    decreases content, i,
{
    if i <= 0 || i > content.len() {
        (seq![], seq![])
    } else {
        proof {
            assert(decreases_to!(content => content[i - 1]));
        }
        let prev = mouse_phase(content, me, i - 1);
        let w = content[i - 1];
        if mouse_hit(w, me) {
            let r = widget_handle(w, Event::Mouse(translate_mouse(w, me)));
            (prev.0.push(r.0), prev.1 + r.1)
        } else {
            (prev.0.push(w), prev.1)
        }
    }
}

/// The container after a key pass advanced its focus cursor: the
/// cursor steps once, wrapping to 0 and clearing the container's own
/// selected flag after the last child; then every child is deselected
/// and the child at the new cursor is selected.
pub open spec fn tab_advance(c: ContainerV, content1: Seq<WidgetV>) -> ContainerV {
    let wrapped = c.selection_index + 1 >= content1.len();
    let idx2 = if wrapped { 0 } else { c.selection_index + 1 };
    let sel2 = if wrapped { false } else { c.selected };
    let content2 = if wrapped && content1.len() > 0 {
        content1.update(0, select_widget(content1[0], false))
    } else {
        content1
    };
    let content3 = Seq::new(content2.len(), |j: int| select_widget(content2[j], false));
    let content4 = content3.update(idx2, select_widget(content3[idx2], true));
    ContainerV { selected: sel2, selection_index: idx2, content: content4, ..c }
}

/// A container routing one event, returning its new state and the
/// messages emitted, in order.
pub open spec fn container_handle(c: ContainerV, ev: Event) -> (ContainerV, Seq<Seq<Seq<char>>>)
    decreases c, 0int,
{
    proof {
        assert(decreases_to!(c => c.content));
    }
    match ev {
        Event::Resize(_, _) => (c, seq![]),
        Event::Key(m, k) => {
            let phase = key_phase(c.content, m, k, c.content.len() as int);
            let c1 = ContainerV { content: phase.0, ..c };
            if k == KeyCode::Tab && c.tab_selector && !phase.2 {
                (tab_advance(c1, phase.0), phase.1)
            } else {
                (c1, phase.1)
            }
        },
        Event::Mouse(me) => {
            let phase = mouse_phase(c.content, me, c.content.len() as int);
            (ContainerV { content: phase.0, ..c }, phase.1)
        },
    }
}

/// Any widget routing one event.
pub open spec fn widget_handle(w: WidgetV, ev: Event) -> (WidgetV, Seq<Seq<Seq<char>>>)
    decreases w, 0int,
{
    match w {
        WidgetV::Text(t) => {
            let r = text_handle(t, ev);
            (WidgetV::Text(r.0), r.1)
        },
        WidgetV::Button(b) => {
            let r = button_handle(b, ev);
            (WidgetV::Button(r.0), r.1)
        },
        WidgetV::Input(i) => {
            let r = input_handle(i, ev);
            (WidgetV::Input(r.0), r.1)
        },
        WidgetV::Container(c) => {
            let r = container_handle(c, ev);
            (WidgetV::Container(r.0), r.1)
        },
    }
}

} // verus!
