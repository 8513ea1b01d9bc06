use vstd::prelude::*;
use crate::MAX_CELL;
use crate::container::ContainerKind;
use crate::events::{Event, KeyCode, KeyMod, MouseEvent};
use crate::model::{
    ContainerV, WidgetV, container_handle, cursor_before, input_handle, is_selected_of,
    key_phase, layout_children, mouse_hit, mouse_phase, rect_of, resolve_len, select_widget,
    size_of, style_of, styles_ok_children, tab_ok_container, translate_mouse, widget_handle,
};
use crate::screen::diff_upto;
use crate::style::{Length, style_wf};

verus! {

broadcast use vstd::seq::axiom_seq_index_decreases;

/// The layout cursor never moves before the container's origin.
pub proof fn lemma_cursor_nonneg(
    kind: ContainerKind,
    sx: int,
    sy: int,
    content: Seq<WidgetV>,
    i: int,
)
    requires
        styles_ok_children(content),
        0 <= sx <= MAX_CELL,
        0 <= sy <= MAX_CELL,
        i <= content.len(),
    ensures
        cursor_before(kind, sx, sy, content, i).0 >= 0,
        cursor_before(kind, sx, sy, content, i).1 >= 0,
    decreases i,
{
    if i > 0 {
        lemma_cursor_nonneg(kind, sx, sy, content, i - 1);
        let prev = cursor_before(kind, sx, sy, content, i - 1);
        let st = style_of(content[i - 1]);
        crate::model::lemma_resolve_len_bounds(
            st.width,
            sx,
            prev.0 + st.padding.x_start as int,
            st.padding.x_end as int,
        );
        crate::model::lemma_resolve_len_bounds(
            st.height,
            sy,
            prev.1 + st.padding.y_start as int,
            st.padding.y_end as int,
        );
    }
}

/// Non-negativity: every rectangle the layout pass assigns has
/// extents between zero and `MAX_CELL`, and a position at or past
/// the container's origin.
pub proof fn lemma_layout_extent_bounds(
    kind: ContainerKind,
    sx: int,
    sy: int,
    content: Seq<WidgetV>,
    j: int,
)
    requires
        styles_ok_children(content),
        0 <= sx <= MAX_CELL,
        0 <= sy <= MAX_CELL,
        0 <= j < content.len(),
    ensures
        0 <= rect_of(kind, sx, sy, content, j).w <= MAX_CELL,
        0 <= rect_of(kind, sx, sy, content, j).h <= MAX_CELL,
        rect_of(kind, sx, sy, content, j).px >= 0,
        rect_of(kind, sx, sy, content, j).py >= 0,
        size_of(layout_children(kind, sx, sy, content)[j]).x as int == rect_of(
            kind,
            sx,
            sy,
            content,
            j,
        ).w,
        size_of(layout_children(kind, sx, sy, content)[j]).y as int == rect_of(
            kind,
            sx,
            sy,
            content,
            j,
        ).h,
{
    lemma_cursor_nonneg(kind, sx, sy, content, j);
    let cur = cursor_before(kind, sx, sy, content, j);
    let st = style_of(content[j]);
    crate::model::lemma_resolve_len_bounds(
        st.width,
        sx,
        cur.0 + st.padding.x_start as int,
        st.padding.x_end as int,
    );
    crate::model::lemma_resolve_len_bounds(
        st.height,
        sy,
        cur.1 + st.padding.y_start as int,
        st.padding.y_end as int,
    );
    crate::model::lemma_layout_children(kind, sx, sy, content);
    let r = rect_of(kind, sx, sy, content, j);
    let w = layout_children(kind, sx, sy, content)[j];
    assert(size_of(w).x == r.w as u64 && size_of(w).y == r.h as u64) by {
        assert(w == crate::model::layout_widget(content[j], r.px, r.py, r.w, r.h));
    }
}

/// Layout sum, row axis: when the last child of a Row container asks
/// for the whole remaining width and that much room is left, its
/// resolved position and width fill the container exactly up to its
/// own end padding — so the start paddings and widths of all the
/// children sum to the container's width minus that end padding.
pub proof fn lemma_layout_sum_row(sx: int, sy: int, content: Seq<WidgetV>, num: u64)
    requires
        styles_ok_children(content),
        0 <= sx <= MAX_CELL,
        0 <= sy <= MAX_CELL,
        content.len() >= 1,
        style_of(content.last()).width == Length::Relative(num, num),
        ({
            let cur = cursor_before(ContainerKind::Row, sx, sy, content, content.len() - 1);
            let st = style_of(content.last());
            cur.0 + st.padding.x_start + st.padding.x_end <= sx
        }),
    ensures
        ({
            let r = rect_of(ContainerKind::Row, sx, sy, content, content.len() - 1);
            r.px + r.w + style_of(content.last()).padding.x_end as int == sx
        }),
{
    let i = content.len() - 1;
    let cur = cursor_before(ContainerKind::Row, sx, sy, content, i);
    let st = style_of(content.last());
    assert(crate::model::styles_ok(content[i]));
    assert(style_wf(st));
    lemma_cursor_nonneg(ContainerKind::Row, sx, sy, content, i);
    let px = cur.0 + st.padding.x_start as int;
    let rem = sx - px;
    assert(rem >= st.padding.x_end as int);
    assert(num as int >= 1);
    vstd::arithmetic::div_mod::lemma_div_multiples_vanish(rem, num as int);
    assert((num as int * rem) / (num as int) == rem);
    assert(rem * num as int == num as int * rem);
    assert(resolve_len(st.width, sx, px, st.padding.x_end as int) == rem
        - st.padding.x_end as int);
}

/// Layout sum, column axis: the symmetric law for a Column container
/// whose last child asks for the whole remaining height.
pub proof fn lemma_layout_sum_column(sx: int, sy: int, content: Seq<WidgetV>, num: u64)
    requires
        styles_ok_children(content),
        0 <= sx <= MAX_CELL,
        0 <= sy <= MAX_CELL,
        content.len() >= 1,
        style_of(content.last()).height == Length::Relative(num, num),
        ({
            let cur = cursor_before(ContainerKind::Column, sx, sy, content, content.len() - 1);
            let st = style_of(content.last());
            cur.1 + st.padding.y_start + st.padding.y_end <= sy
        }),
    ensures
        ({
            let r = rect_of(ContainerKind::Column, sx, sy, content, content.len() - 1);
            r.py + r.h + style_of(content.last()).padding.y_end as int == sy
        }),
{
    let i = content.len() - 1;
    let cur = cursor_before(ContainerKind::Column, sx, sy, content, i);
    let st = style_of(content.last());
    assert(crate::model::styles_ok(content[i]));
    assert(style_wf(st));
    lemma_cursor_nonneg(ContainerKind::Column, sx, sy, content, i);
    let py = cur.1 + st.padding.y_start as int;
    let rem = sy - py;
    assert(rem >= st.padding.y_end as int);
    assert(num as int >= 1);
    vstd::arithmetic::div_mod::lemma_div_multiples_vanish(rem, num as int);
    assert((num as int * rem) / (num as int) == rem);
    assert(rem * num as int == num as int * rem);
    assert(resolve_len(st.height, sy, py, st.padding.y_end as int) == rem
        - st.padding.y_end as int);
}

/// Diff minimality: when two consecutive frames differ in exactly one
/// row, the render pass owes exactly one move-and-write pair, for
/// that row.
pub proof fn lemma_diff_single_change(
    lines: Seq<Seq<char>>,
    prev: Seq<Seq<char>>,
    n: int,
    k: int,
)
    requires
        0 <= k < n,
        lines[k] != prev[k],
        forall|j: int| 0 <= j < n && j != k ==> lines[j] == prev[j],
    ensures
        diff_upto(lines, prev, n) == seq![(k, lines[k])],
    decreases n,
{
    if n - 1 > k {
        lemma_diff_single_change(lines, prev, n - 1, k);
    } else {
        lemma_diff_unchanged(lines, prev, n - 1);
        assert(diff_upto(lines, prev, n) =~= seq![(k, lines[k])]);
    }
    assert(diff_upto(lines, prev, n) =~= seq![(k, lines[k])]);
}

/// A frame identical to the previous one owes no writes at all.
pub proof fn lemma_diff_unchanged(lines: Seq<Seq<char>>, prev: Seq<Seq<char>>, n: int)
    requires
        forall|j: int| 0 <= j < n ==> lines[j] == prev[j],
    ensures
        diff_upto(lines, prev, n) == Seq::<(int, Seq<char>)>::empty(),
    decreases n,
{
    if n > 0 {
        lemma_diff_unchanged(lines, prev, n - 1);
    }
    assert(diff_upto(lines, prev, n) =~= Seq::<(int, Seq<char>)>::empty());
}

/// Mouse hit-testing: a mouse pass touches exactly the children whose
/// rectangles contain the point, selected or not; each such child
/// receives the event translated into its own frame, and the others
/// are left exactly as they were.
pub proof fn lemma_mouse_delivery(content: Seq<WidgetV>, me: MouseEvent, i: int)
    requires
        0 <= i <= content.len(),
    ensures
        mouse_phase(content, me, i).0.len() == i,
        forall|j: int|
            0 <= j < i ==> #[trigger] mouse_phase(content, me, i).0[j] == (if mouse_hit(
                content[j],
                me,
            ) {
                widget_handle(content[j], Event::Mouse(translate_mouse(content[j], me))).0
            } else {
                content[j]
            }),
    decreases i,
{
    if i > 0 {
        lemma_mouse_delivery(content, me, i - 1);
    }
}

/// Is the widget one of the three leaf kinds?
pub open spec fn is_leaf(w: WidgetV) -> bool {
    !(w is Container)
}

/// Leaves never change their selected flag while handling a key.
pub proof fn lemma_key_phase_on_leaves(content: Seq<WidgetV>, m: KeyMod, k: KeyCode, i: int)
    requires
        0 <= i <= content.len(),
        forall|j: int| 0 <= j < content.len() ==> is_leaf(#[trigger] content[j]),
    ensures
        key_phase(content, m, k, i).0.len() == i,
        key_phase(content, m, k, i).2 == false,
        forall|j: int|
            0 <= j < i ==> is_leaf(#[trigger] key_phase(content, m, k, i).0[j])
                && is_selected_of(key_phase(content, m, k, i).0[j]) == is_selected_of(content[j]),
    decreases i,
{
    if i > 0 {
        lemma_key_phase_on_leaves(content, m, k, i - 1);
        let w = content[i - 1];
        let prev = key_phase(content, m, k, i - 1);
        let phase = key_phase(content, m, k, i);
        if is_selected_of(w) {
            let r = widget_handle(w, Event::Key(m, k));
            assert(is_leaf(r.0) && is_selected_of(r.0) == is_selected_of(w)) by {
                match w {
                    WidgetV::Text(_) => {},
                    WidgetV::Button(_) => {},
                    WidgetV::Input(_) => {},
                    WidgetV::Container(_) => {},
                }
            }
            assert(!crate::model::tab_cycling(r.0));
            assert(phase.0 == prev.0.push(r.0));
        } else {
            assert(phase.0 == prev.0.push(w));
        }
        assert forall|j: int|
            0 <= j < i implies is_leaf(#[trigger] phase.0[j]) && is_selected_of(phase.0[j])
            == is_selected_of(content[j]) by {
            if j < i - 1 {
                assert(phase.0[j] == prev.0[j]);
            }
        }
    }
}

/// Focus cycling, one step: on a focus-advance key, a tab-selector
/// container of leaf children moves its cursor to the next child and
/// selects it alone; after the last child the cursor wraps to child 0
/// and the container clears its own selected flag, so a parent stops
/// forwarding keys to it.
pub proof fn lemma_focus_cycle_step(c: ContainerV, m: KeyMod)
    requires
        tab_ok_container(c),
        c.tab_selector,
        forall|j: int| 0 <= j < c.content.len() ==> is_leaf(#[trigger] c.content[j]),
    ensures
        ({
            let c2 = container_handle(c, Event::Key(m, KeyCode::Tab)).0;
            let wrapped = c.selection_index + 1 >= c.content.len();
            &&& c2.selection_index == (if wrapped { 0int } else { c.selection_index + 1 })
            &&& c2.selected == (if wrapped { false } else { c.selected })
            &&& c2.content.len() == c.content.len()
            &&& (forall|j: int|
                0 <= j < c2.content.len() ==> is_selected_of(#[trigger] c2.content[j]) == (j
                    == c2.selection_index))
            &&& (forall|j: int| 0 <= j < c2.content.len() ==> is_leaf(#[trigger] c2.content[j]))
            &&& c2.tab_selector
            &&& c2.always_selected == c.always_selected
            &&& c2.kind == c.kind
            &&& tab_ok_container(c2)
        }),
{
    let n = c.content.len() as int;
    lemma_key_phase_on_leaves(c.content, m, KeyCode::Tab, n);
    let phase = key_phase(c.content, m, KeyCode::Tab, n);
    let c1 = ContainerV { content: phase.0, ..c };
    let adv = crate::model::tab_advance(c1, phase.0);
    assert forall|j: int| 0 <= j < adv.content.len() implies is_selected_of(
        #[trigger] adv.content[j],
    ) == (j == adv.selection_index) && is_leaf(adv.content[j]) by {
        let wrapped = c.selection_index + 1 >= n;
        let content2 = if wrapped && phase.0.len() > 0 {
            phase.0.update(0, select_widget(phase.0[0], false))
        } else {
            phase.0
        };
        let content3 = Seq::new(content2.len(), |jj: int| select_widget(content2[jj], false));
        assert(is_leaf(content2[j]));
        assert(is_selected_of(content3[j]) == false);
        assert(adv.content == content3.update(
            adv.selection_index,
            select_widget(content3[adv.selection_index], true),
        ));
    }
}

/// Focus cycling over a whole round: starting from an unselected
/// tab-selector container of `N` leaf children with its cursor at 0,
/// each of the first `N - 1` focus-advance events selects the next
/// child in order, and the `N`-th wraps the cursor back to child 0
/// and clears the container's own selected flag.
pub proof fn lemma_focus_cycle_round(c: ContainerV, m: KeyMod, k: int)
    requires
        tab_ok_container(c),
        c.tab_selector,
        c.selection_index == 0,
        !c.selected,
        forall|j: int| 0 <= j < c.content.len() ==> is_leaf(#[trigger] c.content[j]),
        1 <= k <= c.content.len(),
    ensures
        ({
            let ck = tabs_applied(c, m, k);
            &&& ck.content.len() == c.content.len()
            &&& ck.selection_index == (if k == c.content.len() { 0int } else { k })
            &&& !ck.selected
            &&& (k == c.content.len() ==> ck.selection_index == 0)
            &&& (forall|j: int|
                0 <= j < ck.content.len() ==> is_selected_of(#[trigger] ck.content[j]) == (j
                    == ck.selection_index))
            &&& tab_ok_container(ck)
            &&& ck.tab_selector
            &&& (forall|j: int| 0 <= j < ck.content.len() ==> is_leaf(#[trigger] ck.content[j]))
        }),
    decreases k,
{
    if k == 1 {
        lemma_focus_cycle_step(c, m);
    } else {
        lemma_focus_cycle_round(c, m, k - 1);
        lemma_focus_cycle_step(tabs_applied(c, m, k - 1), m);
    }
}

/// The container after `k` focus-advance key events.
pub open spec fn tabs_applied(c: ContainerV, m: KeyMod, k: int) -> ContainerV
    decreases k,
{
    if k <= 0 {
        c
    } else {
        container_handle(tabs_applied(c, m, k - 1), Event::Key(m, KeyCode::Tab)).0
    }
}

/// Input round-trip, blocker half: an input with the tab blocker on
/// swallows a Tab keystroke whole — no edit and no message.
pub proof fn lemma_tab_blocker_swallows(i: crate::model::InputV, m: KeyMod)
    requires
        i.block_tab,
    ensures
        input_handle(i, Event::Key(m, KeyCode::Tab)).0 == i,
        input_handle(i, Event::Key(m, KeyCode::Tab)).1 == Seq::<Seq<Seq<char>>>::empty(),
{
    assert(input_handle(i, Event::Key(m, KeyCode::Tab)).1 =~= Seq::<Seq<Seq<char>>>::empty());
}

} // verus!
