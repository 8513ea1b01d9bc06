use vstd::prelude::*;
use crate::{Position, Size};
use crate::style::StyleSheet;
use crate::button::Button;
use crate::container::{Container, container_view};
use crate::input::Input;
use crate::text::Text;
use crate::events::Event;
use crate::model::{WidgetV, style_of, position_of, size_of, is_selected_of, select_widget};

verus! {

broadcast use vstd::seq::axiom_seq_index_decreases, vstd::std_specs::vec::group_vec_axioms;

/// Cells one tab stop advances the draw cursor.
pub const TAB_WIDTH: usize = 4;

/// Implemented by application message types that are built from one
/// emitted token.
pub trait Msg<M> {
    fn to_msg(field: String) -> M;
}

/// The closed set of drawable, interactive tree nodes.
#[derive(Debug)]
pub enum Widgets {
    Text(Text),
    Button(Button),
    Container(Container),
    Input(Input),
}

/// The model of a widget.
pub open spec fn widget_view(w: Widgets) -> WidgetV
    decreases w, 0int,
{
    match w {
        Widgets::Text(t) => WidgetV::Text(t@),
        Widgets::Button(b) => WidgetV::Button(b@),
        Widgets::Container(c) => WidgetV::Container(container_view(c)),
        Widgets::Input(i) => WidgetV::Input(i@),
    }
}

/// The models of the first `i` widgets, in order.
pub open spec fn widgets_view_upto(s: Seq<Widgets>, i: int) -> Seq<WidgetV>
    decreases s, i,
{
    if i <= 0 || i > s.len() {
        seq![]
    } else {
        proof {
            assert(decreases_to!(s => s[i - 1]));
        }
        widgets_view_upto(s, i - 1).push(widget_view(s[i - 1]))
    }
}

/// The models of a sequence of widgets, in order.
pub open spec fn widgets_view(s: Seq<Widgets>) -> Seq<WidgetV>
    decreases s, s.len() + 1,
{
    widgets_view_upto(s, s.len() as int)
}

/// `widgets_view` maps the sequence elementwise.
pub proof fn lemma_widgets_view_upto(s: Seq<Widgets>, i: int)
    requires
        0 <= i <= s.len(),
    ensures
        widgets_view_upto(s, i).len() == i,
        forall|j: int| 0 <= j < i ==> widgets_view_upto(s, i)[j] == widget_view(s[j]),
    decreases i,
{
    if i > 0 {
        lemma_widgets_view_upto(s, i - 1);
    }
}

/// Length and elementwise reading of a sequence view.
pub proof fn lemma_widgets_view(s: Seq<Widgets>)
    ensures
        widgets_view(s).len() == s.len(),
        forall|j: int| 0 <= j < s.len() ==> widgets_view(s)[j] == widget_view(s[j]),
{
    lemma_widgets_view_upto(s, s.len() as int);
}

impl View for Widgets {
    type V = WidgetV;

    open spec fn view(&self) -> WidgetV {
        widget_view(*self)
    }
}

/// A placeholder widget used only to briefly fill a slot while its
/// real value is being transformed.
fn dummy_widget() -> (r: Widgets) {
    Widgets::Text(
        Text {
            text: String::new(),
            position: Position { x: 0, y: 0 },
            size: Size { x: 0, y: 0 },
            style: StyleSheet {
                width: crate::style::Length::Absolute(0),
                height: crate::style::Length::Absolute(0),
                padding: crate::style::Padding { x_start: 0, x_end: 0, y_start: 0, y_end: 0 },
            },
            onclick_message: Option::None,
            selected: false,
        },
    )
}

/// Moves the widget out of a slot, leaving a placeholder behind; the
/// caller overwrites the slot before returning.
pub(crate) fn take_widget(slot: &mut Widgets) -> (w: Widgets)
    ensures
        w == *old(slot),
{
    let mut tmp = dummy_widget();
    core::mem::swap(slot, &mut tmp);
    tmp
}

/// Sets a widget's selected flag; a container passes the flag on to
/// its first child.
pub(crate) fn select_widget_exec(w: Widgets, sel: bool) -> (r: Widgets)
    ensures
        r@ == select_widget(w@, sel),
    decreases w, 0int,
{
    match w {
        Widgets::Text(t) => {
            let mut t2 = t;
            t2.selected = sel;
            Widgets::Text(t2)
        },
        Widgets::Button(b) => {
            let mut b2 = b;
            b2.selected = sel;
            Widgets::Button(b2)
        },
        Widgets::Input(i) => {
            let mut i2 = i;
            i2.selected = sel;
            Widgets::Input(i2)
        },
        Widgets::Container(c) => Widgets::Container(crate::container::select_container_exec(c, sel)),
    }
}

impl Widgets {
    /// Sets the selected flag, passing it on to a container's first
    /// child.
    pub fn select(&mut self, selected: bool)
        ensures
            final(self)@ == select_widget(old(self)@, selected),
    {
        let w = take_widget(self);
        *self = select_widget_exec(w, selected);
    }

    /// Renders to a grid of exactly the widget's resolved size.
    pub fn to_char_array(&self) -> (r: Vec<Vec<char>>)
        requires
            crate::model::bounded(self@),
        ensures
            r.deep_view() == crate::render::widget_grid(self@),
        decreases *self, 0int,
    {
        match self {
            Widgets::Text(t) => t.to_char_array(),
            Widgets::Button(b) => b.to_char_array(),
            Widgets::Container(c) => c.to_char_array(),
            Widgets::Input(i) => i.to_char_array(),
        }
    }

    /// Delivers one normalized event to this widget, returning the
    /// messages emitted during the pass, in order.
    pub fn handle_input_event(&mut self, event: Event) -> (r: Vec<Vec<String>>)
        requires
            event is Key ==> crate::model::tab_ok(old(self)@),
        ensures
            final(self)@ == crate::model::widget_handle(old(self)@, event).0,
            r.deep_view() == crate::model::widget_handle(old(self)@, event).1,
    {
        let w = take_widget(self);
        let r = crate::container::handle_widget_exec(w, event);
        *self = r.0;
        r.1
    }

    /// One layout pass over this widget's own children; a no-op for
    /// leaves.
    pub fn apply_style(&mut self)
        requires
            crate::model::apply_ok(old(self)@),
        ensures
            final(self)@ == crate::model::applied(old(self)@),
    {
        let w = take_widget(self);
        *self = match w {
            Widgets::Container(c) => {
                let mut cc = c;
                cc.apply_style();
                Widgets::Container(cc)
            },
            other => other,
        };
    }

    pub fn get_position(&self) -> (r: Position)
        ensures
            r == position_of(self@),
    {
        match self {
            Widgets::Text(t) => t.get_position(),
            Widgets::Button(b) => b.get_position(),
            Widgets::Container(c) => c.get_position(),
            Widgets::Input(i) => i.get_position(),
        }
    }

    pub fn get_size(&self) -> (r: Size)
        ensures
            r == size_of(self@),
    {
        match self {
            Widgets::Text(t) => t.get_size(),
            Widgets::Button(b) => b.get_size(),
            Widgets::Container(c) => c.get_size(),
            Widgets::Input(i) => i.get_size(),
        }
    }

    pub fn set_position(&mut self, position: Position)
        ensures
            final(self)@ == crate::model::with_position(old(self)@, position),
    {
        match self {
            Widgets::Text(t) => t.set_position(position),
            Widgets::Button(b) => b.set_position(position),
            Widgets::Container(c) => c.set_position(position),
            Widgets::Input(i) => i.set_position(position),
        }
    }

    pub fn set_size(&mut self, size: Size)
        ensures
            final(self)@ == crate::model::with_size(old(self)@, size),
    {
        match self {
            Widgets::Text(t) => t.set_size(size),
            Widgets::Button(b) => b.set_size(size),
            Widgets::Container(c) => c.set_size(size),
            Widgets::Input(i) => i.set_size(size),
        }
    }

    pub fn is_selected(&self) -> (r: bool)
        ensures
            r == is_selected_of(self@),
    {
        match self {
            Widgets::Text(t) => t.is_selected(),
            Widgets::Button(b) => b.is_selected(),
            Widgets::Container(c) => c.is_selected(),
            Widgets::Input(i) => i.is_selected(),
        }
    }

    pub fn get_style(&self) -> (r: StyleSheet)
        ensures
            r == style_of(self@),
    {
        match self {
            Widgets::Text(t) => t.get_style(),
            Widgets::Button(b) => b.get_style(),
            Widgets::Container(c) => c.get_style(),
            Widgets::Input(i) => i.get_style(),
        }
    }

    pub fn set_style(&mut self, style: StyleSheet)
        ensures
            final(self)@ == crate::model::with_style(old(self)@, style),
    {
        match self {
            Widgets::Text(t) => t.set_style(style),
            Widgets::Button(b) => b.set_style(style),
            Widgets::Container(c) => c.set_style(style),
            Widgets::Input(i) => i.set_style(style),
        }
    }
}

/// A structural copy of a widget, equal to the original in the model.
pub(crate) fn clone_widget_exec(w: &Widgets) -> (r: Widgets)
    ensures
        r@ == w@,
    decreases *w, 0int,
{
    match w {
        Widgets::Text(t) => Widgets::Text(t.clone()),
        Widgets::Button(b) => Widgets::Button(b.clone()),
        Widgets::Input(i) => Widgets::Input(i.clone()),
        Widgets::Container(c) => Widgets::Container(crate::container::clone_container_exec(c)),
    }
}

impl Clone for Widgets {
    fn clone(&self) -> (r: Self)
        ensures
            r@ == self@,
    {
        clone_widget_exec(self)
    }
}

} // verus!
