use vstd::prelude::*;
use crate::{Position, Size};
use crate::style::StyleSheet;
use crate::model::ContainerV;
use crate::events::{Event, KeyCode, MouseEvent};
use crate::widget::{Widgets, widgets_view};

verus! {

broadcast use vstd::seq::axiom_seq_index_decreases, vstd::std_specs::vec::group_vec_axioms;

/// The axis along which a container stacks its children.
#[derive(Copy, Clone, Debug, PartialEq, Eq, Structural)]
pub enum ContainerKind {
    Row,
    Column,
}

/// A composite widget: an ordered sequence of exclusively-owned
/// children laid out along one axis, an optional 12-glyph border set
/// (6 focused + 6 unfocused, each ordered top-left, top-right,
/// bottom-right, bottom-left, horizontal, vertical), and a focus
/// cursor for tab traversal.
#[derive(Debug)]
pub struct Container {
    pub position: Position,
    pub size: Size,

    pub style: StyleSheet,
    pub kind: ContainerKind,

    pub content: Vec<Widgets>,
    pub borders: [char; 12],

    pub selected: bool,
    pub selection_index: usize,
    pub tab_selector: bool,
    pub always_selected: bool,
}

/// The model of a container, with children modelled in turn.
pub open spec fn container_view(c: Container) -> ContainerV
    decreases c, 0int,
{
    proof {
        assert(decreases_to!(c => c.content));
        assert(decreases_to!(c.content => c.content@));
        assert(decreases_to!(c => c.content@));
    }
    ContainerV {
        position: c.position,
        size: c.size,
        style: c.style,
        kind: c.kind,
        content: widgets_view(c.content@),
        borders: c.borders@,
        selected: c.selected,
        selection_index: c.selection_index as int,
        tab_selector: c.tab_selector,
        always_selected: c.always_selected,
    }
}

impl View for Container {
    type V = ContainerV;

    open spec fn view(&self) -> ContainerV {
        container_view(*self)
    }
}

impl Container {
    /// An unselected container at the origin with no size yet, blank
    /// (disabled) borders and the focus cursor on child 0.
    pub fn new(kind: ContainerKind, content: Vec<Widgets>, style: StyleSheet) -> (r: Self)
        ensures
            r@ == (ContainerV {
                position: Position { x: 0, y: 0 },
                size: Size { x: 0, y: 0 },
                style,
                kind,
                content: widgets_view(content@),
                borders: blank_border_set(),
                selected: false,
                selection_index: 0,
                tab_selector: false,
                always_selected: false,
            }),
    {
        Container {
            position: Position { x: 0, y: 0 },
            size: Size { x: 0, y: 0 },
            style,
            kind,
            content,
            borders: [' ', ' ', ' ', ' ', ' ', ' ', ' ', ' ', ' ', ' ', ' ', ' '],
            selected: false,
            selection_index: 0,
            tab_selector: false,
            always_selected: false,
        }
    }

    pub fn push(&mut self, widget: Widgets)
        ensures
            final(self)@ == (ContainerV {
                content: old(self)@.content.push(widget@),
                ..old(self)@
            }),
    {
        self.content.push(widget);
        proof {
            crate::widget::lemma_widgets_view(old(self).content@);
            crate::widget::lemma_widgets_view(self.content@);
            assert(self@.content =~= old(self)@.content.push(widget@));
            assert(self@ =~= (ContainerV {
                content: old(self)@.content.push(widget@),
                ..old(self)@
            }));
        }
    }

    /// Makes the focus-advance key cycle this container's children.
    pub fn with_tab_selector(self) -> (r: Self)
        ensures
            r@ == (ContainerV { tab_selector: true, ..self@ }),
    {
        Container { tab_selector: true, ..self }
    }

    /// Reports this container as selected regardless of explicit
    /// focus; used at the root so key events always flow.
    pub fn always_selected(self) -> (r: Self)
        ensures
            r@ == (ContainerV { always_selected: true, ..self@ }),
    {
        Container { always_selected: true, ..self }
    }

    pub fn with_default_borders(self) -> (r: Self)
        ensures
            r@ == (ContainerV { borders: default_border_set(), ..self@ }),
    {
        Container {
            borders: ['┌', '┐', '┘', '└', '─', '│', '.', '.', '.', '.', '.', ':'],
            ..self
        }
    }

    pub fn with_borders(self, borders: [char; 12]) -> (r: Self)
        ensures
            r@ == (ContainerV { borders: borders@, ..self@ }),
    {
        Container { borders, ..self }
    }

    /// Replaces child `index` by value: the child is moved out,
    /// transformed by `task`, and reinserted in place.
    pub fn modify_element<F: FnOnce(Widgets) -> Widgets>(&mut self, index: usize, task: F)
        requires
            index < old(self).content@.len(),
            call_requires(task, (old(self).content@[index as int],)),
        ensures
            exists|w: Widgets|
                {
                    &&& #[trigger] call_ensures(task, (old(self).content@[index as int],), w)
                    &&& final(self).content@ == old(self).content@.update(index as int, w)
                },
            final(self).position == old(self).position,
            final(self).size == old(self).size,
            final(self).style == old(self).style,
            final(self).kind == old(self).kind,
            final(self).borders == old(self).borders,
            final(self).selected == old(self).selected,
            final(self).selection_index == old(self).selection_index,
            final(self).tab_selector == old(self).tab_selector,
            final(self).always_selected == old(self).always_selected,
    {
        let w = self.content.remove(index);
        let w2 = task(w);
        self.content.insert(index, w2);
        proof {
            assert(self.content@ =~= old(self).content@.update(index as int, w2));
        }
    }

    /// Sets the selected flag, passing it on to the first child.
    pub fn select(&mut self, selected: bool)
        ensures
            final(self)@ == crate::model::select_container(old(self)@, selected),
    {
        self.selected = selected;
        if self.content.len() > 0 {
            let child = self.content.remove(0);
            let child2 = crate::widget::select_widget_exec(child, selected);
            self.content.insert(0, child2);
            proof {
                crate::widget::lemma_widgets_view(old(self).content@);
                crate::widget::lemma_widgets_view(self.content@);
                assert(self.content@ =~= old(self).content@.update(0, child2));
                assert(self@.content =~= crate::model::select_container(old(self)@, selected).content);
                assert(self@ =~= crate::model::select_container(old(self)@, selected));
            }
        } else {
            proof {
                crate::widget::lemma_widgets_view(self.content@);
                assert(self@ =~= crate::model::select_container(old(self)@, selected));
            }
        }
    }

    /// Delivers one normalized event to this container, returning the
    /// messages emitted during the pass, in order.
    pub fn handle_input_event(&mut self, event: Event) -> (r: Vec<Vec<String>>)
        requires
            event is Key ==> crate::model::tab_ok_container(old(self)@),
        ensures
            final(self)@ == crate::model::container_handle(old(self)@, event).0,
            r.deep_view() == crate::model::container_handle(old(self)@, event).1,
    {
        let mut tmp = Container::new(
            ContainerKind::Row,
            Vec::new(),
            StyleSheet {
                width: crate::style::Length::Absolute(0),
                height: crate::style::Length::Absolute(0),
                padding: crate::style::Padding { x_start: 0, x_end: 0, y_start: 0, y_end: 0 },
            },
        );
        core::mem::swap(self, &mut tmp);
        let r = handle_container_exec(tmp, event);
        *self = r.0;
        r.1
    }

    /// Is the border glyph set the all-blank sentinel?
    pub fn borders_are_blank(&self) -> (r: bool)
        ensures
            r == crate::render::borders_blank(self.borders@),
    {
        let r = self.borders[0] == ' ' && self.borders[1] == ' ' && self.borders[2] == ' '
            && self.borders[3] == ' ' && self.borders[4] == ' ' && self.borders[5] == ' '
            && self.borders[6] == ' ' && self.borders[7] == ' ' && self.borders[8] == ' '
            && self.borders[9] == ' ' && self.borders[10] == ' ' && self.borders[11] == ' ';
        proof {
            if r {
                assert(self.borders@ =~= blank_border_set());
            } else {
                assert(self.borders@ != blank_border_set());
            }
        }
        r
    }

    /// Renders to a grid of exactly the container's resolved size:
    /// children composited in order at their positions, clipped at
    /// the bounds, then the border ring unless the glyph set is
    /// blank.  An extent under one cell yields an empty grid.
    pub fn to_char_array(&self) -> (r: Vec<Vec<char>>)
        requires
            self.size.x <= crate::MAX_CELL,
            self.size.y <= crate::MAX_CELL,
            crate::model::bounded_children(self@.content),
        ensures
            r.deep_view() == crate::render::container_grid(self@),
            self.size.x < 1 || self.size.y < 1 ==> r@.len() == 0,
        decreases *self, 1int,
    {
        if self.size.x >= 1 && self.size.y >= 1 {
            let mut g = crate::render::make_blank_grid(
                self.size.x as usize,
                self.size.y as usize,
            );
            proof {
                assert((self.size.x as usize) as int == self.size.x as int);
                assert((self.size.y as usize) as int == self.size.y as int);
                crate::widget::lemma_widgets_view(self.content@);
                assert(g.deep_view() =~~= crate::render::blit_upto(self@, 0));
            }
            let n = self.content.len();
            let mut i: usize = 0;
            while i < n
                invariant
                    n == self.content@.len(),
                    i <= n,
                    self@.content.len() == n,
                    forall|j: int| 0 <= j < n ==> self@.content[j]
                        == crate::widget::widget_view(#[trigger] self.content@[j]),
                    crate::model::bounded_children(self@.content),
                    g.deep_view() == crate::render::blit_upto(self@, i as int),
                decreases n - i,
            {
                proof {
                    assert(crate::model::bounded(self@.content[i as int]));
                }
                let child = &self.content[i];
                proof {
                    assert(decreases_to!(*self => self.content));
                    assert(decreases_to!(self.content => self.content@));
                    assert(decreases_to!(self.content@ => self.content@[i as int]));
                    assert(decreases_to!(*self => *child));
                    assert(child@ == self@.content[i as int]);
                }
                let img = child.to_char_array();
                proof {
                    crate::render::lemma_widget_grid_dims(child@);
                    assert forall|yy: int| 0 <= yy < img@.len() implies #[trigger] img@[yy]@.len()
                        <= crate::MAX_CELL by {
                        assert(img@[yy]@.len() == img.deep_view()[yy].len());
                    }
                }
                let pos = child.get_position();
                crate::render::blit_onto(&mut g, &img, pos.x, pos.y);
                i = i + 1;
                proof {
                    assert(g.deep_view() == crate::render::blit_upto(self@, i as int));
                }
            }
            if self.borders_are_blank() {
                g
            } else {
                proof {
                    crate::render::lemma_blit_upto_dims(self@, n as int);
                    assert(g@.len() == g.deep_view().len());
                    assert forall|yy: int| 0 <= yy < g@.len() implies #[trigger] g@[yy]@.len()
                        == g@[0]@.len() by {
                        assert(g@[yy]@.len() == g.deep_view()[yy].len());
                        assert(g@[0]@.len() == g.deep_view()[0].len());
                    }
                    assert(g@[0]@.len() == g.deep_view()[0].len());
                    assert(g@[0]@.len() >= 1);
                }
                crate::render::apply_border_exec(&mut g, &self.borders, self.is_selected());
                g
            }
        } else {
            let g: Vec<Vec<char>> = Vec::new();
            proof {
                assert(g.deep_view() =~~= crate::render::container_grid(self@));
            }
            g
        }
    }

    pub fn get_position(&self) -> (r: Position)
        ensures
            r == self.position,
    {
        self.position
    }

    pub fn set_position(&mut self, position: Position)
        ensures
            final(self)@ == (ContainerV { position, ..old(self)@ }),
    {
        self.position = position;
    }

    pub fn get_size(&self) -> (r: Size)
        ensures
            r == self.size,
    {
        self.size
    }

    pub fn set_size(&mut self, size: Size)
        ensures
            final(self)@ == (ContainerV { size, ..old(self)@ }),
    {
        self.size = size;
    }

    /// A container counts as selected when focused explicitly or
    /// marked always-selected.
    pub fn is_selected(&self) -> (r: bool)
        ensures
            r == (self.selected || self.always_selected),
    {
        self.selected || self.always_selected
    }

    pub fn get_style(&self) -> (r: StyleSheet)
        ensures
            r == self.style,
    {
        self.style
    }

    pub fn set_style(&mut self, style: StyleSheet)
        ensures
            final(self)@ == (ContainerV { style, ..old(self)@ }),
    {
        self.style = style;
    }

    /// One forward layout pass: walks the children in order behind a
    /// cursor, resolves each child's extents against the remaining
    /// space, assigns its rectangle and recurses into it.  Every
    /// resolved extent is non-negative and within `MAX_CELL`.
    pub fn apply_style(&mut self)
        requires
            crate::model::styles_ok_children(old(self)@.content),
            old(self).size.x <= crate::MAX_CELL,
            old(self).size.y <= crate::MAX_CELL,
        ensures
            final(self)@ == (ContainerV {
                content: crate::model::layout_children(
                    old(self)@.kind,
                    old(self)@.size.x as int,
                    old(self)@.size.y as int,
                    old(self)@.content,
                ),
                ..old(self)@
            }),
            crate::model::bounded_children(final(self)@.content),
    {
        let mut content: Vec<Widgets> = Vec::new();
        core::mem::swap(&mut self.content, &mut content);
        let done = layout_content(self.kind, self.size.x, self.size.y, content);
        self.content = done;
        proof {
            crate::widget::lemma_widgets_view(self.content@);
            assert(self@ =~= (ContainerV {
                content: crate::model::layout_children(
                    old(self)@.kind,
                    old(self)@.size.x as int,
                    old(self)@.size.y as int,
                    old(self)@.content,
                ),
                ..old(self)@
            }));
        }
    }
}

/// Sets a container's selected flag by value, passing it on to its
/// first child; the carrier of the selection recursion.
pub(crate) fn select_container_exec(c: Container, sel: bool) -> (r: Container)
    ensures
        r@ == crate::model::select_container(c@, sel),
    decreases c, 1int,
{
    let mut cc = c;
    cc.selected = sel;
    if cc.content.len() > 0 {
        let child = cc.content.remove(0);
        proof {
            assert(decreases_to!(c => c.content));
            assert(decreases_to!(c.content => c.content@));
            assert(decreases_to!(c.content@ => c.content@[0]));
            assert(decreases_to!(c => child));
        }
        let child2 = crate::widget::select_widget_exec(child, sel);
        cc.content.insert(0, child2);
        proof {
            crate::widget::lemma_widgets_view(c.content@);
            crate::widget::lemma_widgets_view(cc.content@);
            assert(cc.content@ =~= c.content@.update(0, child2));
            assert(container_view(cc).content =~= crate::model::select_container(c@, sel).content);
            assert(container_view(cc) =~= crate::model::select_container(c@, sel));
        }
    } else {
        proof {
            crate::widget::lemma_widgets_view(cc.content@);
            assert(container_view(cc) =~= crate::model::select_container(c@, sel));
        }
    }
    cc
}

/// One widget laid out by value at the given rectangle; a container
/// recursively lays out its own children against its new size.
pub(crate) fn layout_widget_exec(w: Widgets, px: u64, py: u64, sx: u64, sy: u64) -> (r: Widgets)
    requires
        crate::model::styles_ok(w@),
        px <= crate::POS_LIMIT,
        py <= crate::POS_LIMIT,
        sx <= crate::MAX_CELL,
        sy <= crate::MAX_CELL,
    ensures
        r@ == crate::model::layout_widget(w@, px as int, py as int, sx as int, sy as int),
        crate::model::bounded(r@),
    decreases w, 0int,
{
    let position = Position { x: px, y: py };
    let size = Size { x: sx, y: sy };
    match w {
        Widgets::Text(t) => {
            let mut t2 = t;
            t2.position = position;
            t2.size = size;
            Widgets::Text(t2)
        },
        Widgets::Button(b) => {
            let mut b2 = b;
            b2.position = position;
            b2.size = size;
            Widgets::Button(b2)
        },
        Widgets::Input(i) => {
            let mut i2 = i;
            i2.position = position;
            i2.size = size;
            Widgets::Input(i2)
        },
        Widgets::Container(c) => {
            let mut cc = c;
            cc.position = position;
            cc.size = size;
            let mut content: Vec<Widgets> = Vec::new();
            core::mem::swap(&mut cc.content, &mut content);
            proof {
                assert(decreases_to!(w => c));
                assert(decreases_to!(c => c.content));
                assert(decreases_to!(w => c.content));
            }
            let done = layout_content(cc.kind, sx, sy, content);
            cc.content = done;
            proof {
                crate::widget::lemma_widgets_view(c.content@);
                assert(container_view(cc) =~= (ContainerV {
                    position,
                    size,
                    content: crate::model::layout_children(
                        c@.kind,
                        sx as int,
                        sy as int,
                        c@.content,
                    ),
                    ..c@
                }));
            }
            Widgets::Container(cc)
        },
    }
}

/// All children of a container laid out against extents `(sx, sy)`,
/// walking them in order behind a cursor.
pub(crate) fn layout_content(kind: ContainerKind, sx: u64, sy: u64, content: Vec<Widgets>) -> (r:
    Vec<Widgets>)
    requires
        crate::model::styles_ok_children(widgets_view(content@)),
        sx <= crate::MAX_CELL,
        sy <= crate::MAX_CELL,
    ensures
        widgets_view(r@) == crate::model::layout_children(
            kind,
            sx as int,
            sy as int,
            widgets_view(content@),
        ),
        crate::model::bounded_children(widgets_view(r@)),
    decreases content, 1int,
{
    let ghost cviews = widgets_view(content@);
    proof {
        crate::widget::lemma_widgets_view(content@);
    }
    let mut rest = content;
    let mut done: Vec<Widgets> = Vec::new();
    let mut cur_x: u64 = 0;
    let mut cur_y: u64 = 0;
    let ghost mut i: int = 0;
    loop
        invariant
            cviews == widgets_view(content@),
            cviews.len() == content@.len(),
            forall|j: int| 0 <= j < cviews.len() ==> cviews[j] == crate::widget::widget_view(
                content@[j],
            ),
            crate::model::styles_ok_children(cviews),
            sx <= crate::MAX_CELL,
            sy <= crate::MAX_CELL,
            0 <= i <= cviews.len(),
            rest@ == content@.subrange(i, content@.len() as int),
            cur_x as int == crate::model::cursor_before(kind, sx as int, sy as int, cviews, i).0,
            cur_y as int == crate::model::cursor_before(kind, sx as int, sy as int, cviews, i).1,
            cur_x as int <= i * (2 * crate::MAX_CELL as int),
            cur_y as int <= i * (2 * crate::MAX_CELL as int),
            done@.len() == i,
            widgets_view(done@) == crate::model::layout_children_upto(
                kind,
                sx as int,
                sy as int,
                cviews,
                i,
            ),
            crate::model::bounded_children(widgets_view(done@)),
        ensures
            i == cviews.len(),
            widgets_view(done@) == crate::model::layout_children_upto(
                kind,
                sx as int,
                sy as int,
                cviews,
                cviews.len() as int,
            ),
            crate::model::bounded_children(widgets_view(done@)),
        decreases rest@.len(),
    {
        if rest.len() == 0 {
            break;
        }
        proof {
            assert(rest@[0] == content@[i]);
            assert(i < cviews.len());
            assert(crate::model::styles_ok(cviews[i]));
        }
        let child = rest.remove(0);
        let st = child.get_style();
        proof {
            assert(child@ == cviews[i]);
            assert(crate::style::style_wf(st));
            assert(i * (2 * crate::MAX_CELL as int) <= (cviews.len() - 1) * (2
                * crate::MAX_CELL as int)) by {
                vstd::arithmetic::mul::lemma_mul_inequality(
                    i,
                    cviews.len() - 1,
                    2 * crate::MAX_CELL as int,
                );
            }
            assert(cviews.len() <= crate::MAX_CHILDREN);
            vstd::arithmetic::mul::lemma_mul_inequality(
                cviews.len() - 1,
                crate::MAX_CHILDREN as int - 1,
                2 * crate::MAX_CELL as int,
            );
        }
        let px = cur_x + st.padding.x_start;
        let py = cur_y + st.padding.y_start;
        let w_res: u64 = match st.width {
            crate::style::Length::Absolute(n) => n,
            crate::style::Length::Relative(num, den) => {
                let rem = if sx > px { sx - px } else { 0 };
                proof {
                    vstd::arithmetic::mul::lemma_mul_upper_bound(
                        rem as int,
                        crate::MAX_CELL as int,
                        num as int,
                        crate::MAX_CELL as int,
                    );
                }
                let q = rem * num / den;
                proof {
                    crate::model::lemma_resolve_len_bounds(
                        st.width,
                        sx as int,
                        px as int,
                        st.padding.x_end as int,
                    );
                }
                if q >= st.padding.x_end {
                    q - st.padding.x_end
                } else {
                    0
                }
            },
        };
        let h_res: u64 = match st.height {
            crate::style::Length::Absolute(n) => n,
            crate::style::Length::Relative(num, den) => {
                let rem = if sy > py { sy - py } else { 0 };
                proof {
                    vstd::arithmetic::mul::lemma_mul_upper_bound(
                        rem as int,
                        crate::MAX_CELL as int,
                        num as int,
                        crate::MAX_CELL as int,
                    );
                }
                let q = rem * num / den;
                proof {
                    crate::model::lemma_resolve_len_bounds(
                        st.height,
                        sy as int,
                        py as int,
                        st.padding.y_end as int,
                    );
                }
                if q >= st.padding.y_end {
                    q - st.padding.y_end
                } else {
                    0
                }
            },
        };
        proof {
            crate::model::lemma_resolve_len_bounds(
                st.width,
                sx as int,
                px as int,
                st.padding.x_end as int,
            );
            crate::model::lemma_resolve_len_bounds(
                st.height,
                sy as int,
                py as int,
                st.padding.y_end as int,
            );
            let r = crate::model::rect_of(kind, sx as int, sy as int, cviews, i);
            assert(r.px == px as int && r.py == py as int);
            assert(r.w == w_res as int && r.h == h_res as int);
            assert(decreases_to!(content => content@));
            assert(decreases_to!(content@ => content@[i]));
            assert(decreases_to!(content => child));
        }
        let child2 = layout_widget_exec(child, px, py, w_res, h_res);
        let ghost done0 = done@;
        proof {
            crate::widget::lemma_widgets_view(done0);
        }
        done.push(child2);
        match kind {
            ContainerKind::Row => {
                cur_x = px + w_res;
                cur_y = 0;
            },
            ContainerKind::Column => {
                cur_x = 0;
                cur_y = py + h_res;
            },
        }
        proof {
            i = i + 1;
            crate::widget::lemma_widgets_view(done@);
            assert(done@ == done0.push(child2));
            let r0 = crate::model::rect_of(kind, sx as int, sy as int, cviews, i - 1);
            assert(crate::model::layout_children_upto(kind, sx as int, sy as int, cviews, i)
                == crate::model::layout_children_upto(
                kind,
                sx as int,
                sy as int,
                cviews,
                i - 1,
            ).push(crate::model::layout_widget(cviews[i - 1], r0.px, r0.py, r0.w, r0.h)));
            assert(widgets_view(done@) =~= crate::model::layout_children_upto(
                kind,
                sx as int,
                sy as int,
                cviews,
                i,
            ));
            assert(rest@ =~= content@.subrange(i, content@.len() as int));
            vstd::arithmetic::mul::lemma_mul_is_distributive_add_other_way(
                2 * crate::MAX_CELL as int,
                i - 1,
                1,
            );
        }
    }
    proof {
        assert(widgets_view(done@) == crate::model::layout_children(
            kind,
            sx as int,
            sy as int,
            cviews,
        ));
    }
    done
}

/// Routes one event through any widget, by value.
pub(crate) fn handle_widget_exec(w: Widgets, ev: Event) -> (r: (Widgets, Vec<Vec<String>>))
    requires
        ev is Key ==> crate::model::tab_ok(w@),
    ensures
        r.0@ == crate::model::widget_handle(w@, ev).0,
        r.1.deep_view() == crate::model::widget_handle(w@, ev).1,
    decreases w, 0int,
{
    match w {
        Widgets::Text(t) => {
            let mut t2 = t;
            let ms = t2.handle_input_event(ev);
            (Widgets::Text(t2), ms)
        },
        Widgets::Button(b) => {
            let mut b2 = b;
            let ms = b2.handle_input_event(ev);
            (Widgets::Button(b2), ms)
        },
        Widgets::Input(i) => {
            let mut i2 = i;
            let ms = i2.handle_input_event(ev);
            (Widgets::Input(i2), ms)
        },
        Widgets::Container(c) => {
            let r = handle_container_exec(c, ev);
            (Widgets::Container(r.0), r.1)
        },
    }
}

/// Routes one event through a container, by value: keys go to every
/// selected child and may advance the focus cursor; mouse events go,
/// in local coordinates, to every child whose rectangle contains the
/// point.
#[verifier::rlimit(100)]
pub(crate) fn handle_container_exec(c: Container, ev: Event) -> (r: (Container, Vec<Vec<String>>))
    requires
        ev is Key ==> crate::model::tab_ok_container(c@),
    ensures
        r.0@ == crate::model::container_handle(c@, ev).0,
        r.1.deep_view() == crate::model::container_handle(c@, ev).1,
    decreases c, 1int,
{
    let ghost cv = c@;
    let mut cc = c;
    let mut msgs: Vec<Vec<String>> = Vec::new();
    match ev {
        Event::Resize(_, _) => {
            proof {
                assert(msgs.deep_view() =~~= crate::model::container_handle(cv, ev).1);
            }
            (cc, msgs)
        },
        Event::Key(m, k) => {
            let mut flag: bool = false;
            let mut rest: Vec<Widgets> = Vec::new();
            core::mem::swap(&mut cc.content, &mut rest);
            let ghost content0 = rest@;
            let mut done: Vec<Widgets> = Vec::new();
            let ghost mut i: int = 0;
            proof {
                crate::widget::lemma_widgets_view(content0);
                assert(msgs.deep_view() =~~= Seq::<Seq<Seq<char>>>::empty());
                assert(crate::widget::widgets_view(done@) =~= Seq::<
                    crate::model::WidgetV,
                >::empty());
            }
            loop
                invariant
                    cv == c@,
                    crate::model::tab_ok_container(cv),
                    content0 == c.content@,
                    content0.len() == cv.content.len(),
                    forall|j: int| 0 <= j < content0.len() ==> cv.content[j]
                        == crate::widget::widget_view(#[trigger] content0[j]),
                    0 <= i <= content0.len(),
                    rest@ == content0.subrange(i, content0.len() as int),
                    ({
                        let phase = crate::model::key_phase(cv.content, m, k, i);
                        &&& crate::widget::widgets_view(done@) == phase.0
                        &&& msgs.deep_view() == phase.1
                        &&& flag == phase.2
                    }),
                    done@.len() == i,
                ensures
                    i == content0.len(),
                    ({
                        let phase = crate::model::key_phase(cv.content, m, k, i);
                        &&& crate::widget::widgets_view(done@) == phase.0
                        &&& msgs.deep_view() == phase.1
                        &&& flag == phase.2
                    }),
                decreases rest@.len(),
            {
                if rest.len() == 0 {
                    break;
                }
                proof {
                    assert(rest@[0] == content0[i]);
                    assert(crate::model::tab_ok(cv.content[i]));
                }
                let child = rest.remove(0);
                let ghost done0 = done@;
                let ghost msgs0 = msgs.deep_view();
                proof {
                    crate::widget::lemma_widgets_view_upto(content0, i);
                    assert(decreases_to!(c => c.content));
                    assert(decreases_to!(c.content => c.content@));
                    assert(decreases_to!(c.content@ => c.content@[i]));
                    assert(decreases_to!(c => child));
                }
                if child.is_selected() {
                    let cr = handle_widget_exec(child, Event::Key(m, k));
                    let child2 = cr.0;
                    let mut ms = cr.1;
                    let ghost ms_v = ms.deep_view();
                    msgs.append(&mut ms);
                    match &child2 {
                        Widgets::Container(c2) => {
                            if c2.tab_selector && c2.is_selected() {
                                flag = true;
                            }
                        },
                        _ => {},
                    }
                    done.push(child2);
                    proof {
                        i = i + 1;
                        crate::widget::lemma_widgets_view(done0);
                        crate::widget::lemma_widgets_view(done@);
                        assert(crate::widget::widgets_view(done@) =~= crate::model::key_phase(
                            cv.content,
                            m,
                            k,
                            i,
                        ).0);
                        assert(msgs.deep_view() =~~= msgs0 + ms_v);
                        assert(msgs.deep_view() =~~= crate::model::key_phase(
                            cv.content,
                            m,
                            k,
                            i,
                        ).1);
                    }
                } else {
                    done.push(child);
                    proof {
                        i = i + 1;
                        crate::widget::lemma_widgets_view(done0);
                        crate::widget::lemma_widgets_view(done@);
                        assert(crate::widget::widgets_view(done@) =~= crate::model::key_phase(
                            cv.content,
                            m,
                            k,
                            i,
                        ).0);
                        assert(msgs.deep_view() =~~= crate::model::key_phase(
                            cv.content,
                            m,
                            k,
                            i,
                        ).1);
                    }
                }
                proof {
                    assert(rest@ =~= content0.subrange(i, content0.len() as int));
                }
            }
            cc.content = done;
            proof {
                crate::widget::lemma_widgets_view(cc.content@);
            }
            if k == KeyCode::Tab && cc.tab_selector && !flag {
                let ghost c1 = crate::model::ContainerV {
                    content: crate::model::key_phase(
                        cv.content,
                        m,
                        k,
                        cv.content.len() as int,
                    ).0,
                    ..cv
                };
                proof {
                    assert(cc@ =~= c1);
                    assert(c1.content.len() == cv.content.len());
                    assert(cc.selection_index as int == cv.selection_index);
                    assert(cv.selection_index < cv.content.len());
                    assert(cc.content@.len() == cv.content.len());
                }
                let n2 = cc.content.len();
                proof {
                    assert(cc.selection_index < n2);
                }
                cc.selection_index = cc.selection_index + 1;
                if cc.selection_index >= n2 {
                    cc.selection_index = 0;
                    cc.select(false);
                }
                let ghost content2v = cc@.content;
                let ghost sel2v = cc.selected;
                let ghost idx2v = cc.selection_index as int;
                let mut rest2: Vec<Widgets> = Vec::new();
                core::mem::swap(&mut cc.content, &mut rest2);
                let ghost content2 = rest2@;
                let mut done2: Vec<Widgets> = Vec::new();
                let ghost mut j: int = 0;
                proof {
                    crate::widget::lemma_widgets_view(content2);
                }
                loop
                    invariant
                        content2.len() >= 1,
                        0 <= j <= content2.len(),
                        rest2@ == content2.subrange(j, content2.len() as int),
                        done2@.len() == j,
                        forall|jj: int| 0 <= jj < j ==> crate::widget::widget_view(
                            #[trigger] done2@[jj],
                        ) == crate::model::select_widget(
                            crate::widget::widget_view(content2[jj]),
                            false,
                        ),
                    ensures
                        j == content2.len(),
                        done2@.len() == j,
                        forall|jj: int| 0 <= jj < j ==> crate::widget::widget_view(
                            #[trigger] done2@[jj],
                        ) == crate::model::select_widget(
                            crate::widget::widget_view(content2[jj]),
                            false,
                        ),
                    decreases rest2@.len(),
                {
                    if rest2.len() == 0 {
                        break;
                    }
                    proof {
                        assert(rest2@[0] == content2[j]);
                    }
                    let child = rest2.remove(0);
                    let child2 = crate::widget::select_widget_exec(child, false);
                    done2.push(child2);
                    proof {
                        j = j + 1;
                        assert(rest2@ =~= content2.subrange(j, content2.len() as int));
                    }
                }
                cc.content = done2;
                let idx = cc.selection_index;
                proof {
                    crate::widget::lemma_widgets_view(content2);
                    crate::widget::lemma_widgets_view(done2@);
                    assert(crate::widget::widgets_view(content2) =~= content2v);
                    assert(idx < done2@.len());
                }
                let chosen = cc.content.remove(idx);
                let chosen2 = crate::widget::select_widget_exec(chosen, true);
                cc.content.insert(idx, chosen2);
                proof {
                    crate::widget::lemma_widgets_view(cc.content@);
                    crate::widget::lemma_widgets_view(done2@);
                    assert(cc.content@ =~= done2@.update(idx as int, chosen2));
                    let adv = crate::model::tab_advance(c1, c1.content);
                    let content3 = Seq::new(
                        content2v.len(),
                        |jj: int| crate::model::select_widget(content2v[jj], false),
                    );
                    assert(adv.content =~= content3.update(
                        idx2v,
                        crate::model::select_widget(content3[idx2v], true),
                    ));
                    assert forall|jj: int| 0 <= jj < content2v.len() implies crate::widget::widgets_view(
                        done2@,
                    )[jj] == content3[jj] by {
                        assert(crate::widget::widgets_view(done2@)[jj]
                            == crate::widget::widget_view(done2@[jj]));
                        assert(crate::widget::widget_view(done2@[jj])
                            == crate::model::select_widget(
                            crate::widget::widget_view(content2[jj]),
                            false,
                        ));
                        assert(crate::widget::widget_view(content2[jj]) == content2v[jj]);
                    }
                    assert(crate::widget::widgets_view(done2@) =~= content3);
                    assert(cc@.content =~= adv.content);
                    assert(cc@ =~= crate::model::container_handle(cv, ev).0);
                }
            } else {
                proof {
                    assert(cc@ =~= crate::model::container_handle(cv, ev).0);
                }
            }
            proof {
                assert(msgs.deep_view() == crate::model::container_handle(cv, ev).1);
            }
            (cc, msgs)
        },
        Event::Mouse(me) => {
            let mut rest: Vec<Widgets> = Vec::new();
            core::mem::swap(&mut cc.content, &mut rest);
            let ghost content0 = rest@;
            let mut done: Vec<Widgets> = Vec::new();
            let ghost mut i: int = 0;
            proof {
                crate::widget::lemma_widgets_view(content0);
                assert(msgs.deep_view() =~~= Seq::<Seq<Seq<char>>>::empty());
            }
            loop
                invariant
                    cv == c@,
                    content0 == c.content@,
                    content0.len() == cv.content.len(),
                    forall|j: int| 0 <= j < content0.len() ==> cv.content[j]
                        == crate::widget::widget_view(#[trigger] content0[j]),
                    0 <= i <= content0.len(),
                    rest@ == content0.subrange(i, content0.len() as int),
                    ({
                        let phase = crate::model::mouse_phase(cv.content, me, i);
                        &&& crate::widget::widgets_view(done@) == phase.0
                        &&& msgs.deep_view() == phase.1
                    }),
                    done@.len() == i,
                ensures
                    i == content0.len(),
                    ({
                        let phase = crate::model::mouse_phase(cv.content, me, i);
                        &&& crate::widget::widgets_view(done@) == phase.0
                        &&& msgs.deep_view() == phase.1
                    }),
                decreases rest@.len(),
            {
                if rest.len() == 0 {
                    break;
                }
                proof {
                    assert(rest@[0] == content0[i]);
                }
                let child = rest.remove(0);
                let ghost done0 = done@;
                let ghost msgs0 = msgs.deep_view();
                proof {
                    assert(decreases_to!(c => c.content));
                    assert(decreases_to!(c.content => c.content@));
                    assert(decreases_to!(c.content@ => c.content@[i]));
                    assert(decreases_to!(c => child));
                }
                let pos = child.get_position();
                let size = child.get_size();
                let mx = me.column as u64;
                let my = me.row as u64;
                let hit = pos.x <= mx && mx - pos.x <= size.x && pos.y <= my && my - pos.y
                    <= size.y;
                proof {
                    assert(hit == crate::model::mouse_hit(cv.content[i], me));
                }
                if hit {
                    let translated = MouseEvent {
                        column: (mx - pos.x) as u16,
                        row: (my - pos.y) as u16,
                        ..me
                    };
                    proof {
                        assert(translated == crate::model::translate_mouse(cv.content[i], me));
                    }
                    let cr = handle_widget_exec(child, Event::Mouse(translated));
                    let child2 = cr.0;
                    let mut ms = cr.1;
                    let ghost ms_v = ms.deep_view();
                    msgs.append(&mut ms);
                    done.push(child2);
                    proof {
                        i = i + 1;
                        crate::widget::lemma_widgets_view(done0);
                        crate::widget::lemma_widgets_view(done@);
                        assert(crate::widget::widgets_view(done@) =~= crate::model::mouse_phase(
                            cv.content,
                            me,
                            i,
                        ).0);
                        assert(msgs.deep_view() =~~= msgs0 + ms_v);
                        assert(msgs.deep_view() =~~= crate::model::mouse_phase(
                            cv.content,
                            me,
                            i,
                        ).1);
                    }
                } else {
                    done.push(child);
                    proof {
                        i = i + 1;
                        crate::widget::lemma_widgets_view(done0);
                        crate::widget::lemma_widgets_view(done@);
                        assert(crate::widget::widgets_view(done@) =~= crate::model::mouse_phase(
                            cv.content,
                            me,
                            i,
                        ).0);
                        assert(msgs.deep_view() =~~= crate::model::mouse_phase(
                            cv.content,
                            me,
                            i,
                        ).1);
                    }
                }
                proof {
                    assert(rest@ =~= content0.subrange(i, content0.len() as int));
                }
            }
            cc.content = done;
            proof {
                crate::widget::lemma_widgets_view(cc.content@);
                assert(cc@ =~= crate::model::container_handle(cv, ev).0);
                assert(msgs.deep_view() == crate::model::container_handle(cv, ev).1);
            }
            (cc, msgs)
        },
    }
}

/// A structural copy of a container, equal to the original in the
/// model; the carrier of the copy recursion.
pub(crate) fn clone_container_exec(c: &Container) -> (r: Container)
    ensures
        r@ == c@,
    decreases *c, 1int,
{
    let mut content: Vec<Widgets> = Vec::new();
    let n = c.content.len();
    let mut i: usize = 0;
    while i < n
        invariant
            n == c.content@.len(),
            i <= n,
            content@.len() == i,
            forall|j: int| 0 <= j < i ==> crate::widget::widget_view(#[trigger] content@[j])
                == crate::widget::widget_view(c.content@[j]),
        decreases n - i,
    {
        let child = &c.content[i];
        proof {
            assert(decreases_to!(*c => c.content));
            assert(decreases_to!(c.content => c.content@));
            assert(decreases_to!(c.content@ => c.content@[i as int]));
            assert(decreases_to!(*c => *child));
        }
        let child2 = crate::widget::clone_widget_exec(child);
        content.push(child2);
        i = i + 1;
    }
    let r = Container {
        position: c.position,
        size: c.size,
        style: c.style,
        kind: c.kind,
        content,
        borders: c.borders,
        selected: c.selected,
        selection_index: c.selection_index,
        tab_selector: c.tab_selector,
        always_selected: c.always_selected,
    };
    proof {
        crate::widget::lemma_widgets_view(r.content@);
        crate::widget::lemma_widgets_view(c.content@);
        assert(container_view(r).content =~= container_view(*c).content);
        assert(container_view(r) =~= container_view(*c));
    }
    r
}

impl Clone for Container {
    fn clone(&self) -> (r: Self)
        ensures
            r@ == self@,
    {
        clone_container_exec(self)
    }
}

/// The all-blank sentinel: borders disabled.
pub open spec fn blank_border_set() -> Seq<char> {
    seq![' ', ' ', ' ', ' ', ' ', ' ', ' ', ' ', ' ', ' ', ' ', ' ']
}

/// The stock border glyphs: box-drawing when focused, dots otherwise.
pub open spec fn default_border_set() -> Seq<char> {
    seq!['┌', '┐', '┘', '└', '─', '│', '.', '.', '.', '.', '.', ':']
}

} // verus!
