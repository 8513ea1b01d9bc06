use vstd::prelude::*;
use crate::{Position, Size};
use crate::style::StyleSheet;
use crate::model::ButtonV;
use crate::events::{Event, KeyCode, MouseEventKind};

verus! {

/// A bordered, clickable label; emits its message on mouse-down or on
/// Enter while focused.
#[derive(Debug)]
pub struct Button {
    pub position: Position,
    pub size: Size,

    pub style: StyleSheet,

    pub text: String,
    pub onclick_message: Option<String>,
    pub selected: bool,
}

impl View for Button {
    type V = ButtonV;

    open spec fn view(&self) -> ButtonV {
        ButtonV {
            position: self.position,
            size: self.size,
            style: self.style,
            text: self.text@,
            onclick_message: crate::model::opt_view(self.onclick_message),
            selected: self.selected,
        }
    }
}

impl Button {
    /// A button at the origin with no size yet: layout assigns one.
    pub fn new(text: &str, style: StyleSheet) -> (r: Self)
        ensures
            r@ == (ButtonV {
                position: Position { x: 0, y: 0 },
                size: Size { x: 0, y: 0 },
                style,
                text: text@,
                onclick_message: Option::None,
                selected: false,
            }),
    {
        Button {
            position: Position { x: 0, y: 0 },
            size: Size { x: 0, y: 0 },
            style,
            text: text.to_owned(),
            onclick_message: Option::None,
            selected: false,
        }
    }

    pub fn on_click(self, message: &str) -> (r: Self)
        ensures
            r@ == (ButtonV { onclick_message: Option::Some(message@), ..self@ }),
    {
        Button { onclick_message: Option::Some(message.to_owned()), ..self }
    }

    /// Renders to a grid of exactly the widget's resolved size: a
    /// one-cell ring with the label inset one cell.
    pub fn to_char_array(&self) -> (r: Vec<Vec<char>>)
        requires
            self.size.x <= crate::MAX_CELL,
            self.size.y <= crate::MAX_CELL,
        ensures
            r.deep_view() == crate::render::button_grid(self@),
    {
        let chars = crate::render::chars_of(self.text.as_str());
        let mut g = crate::render::make_button_ring(
            self.size.x as usize,
            self.size.y as usize,
            self.selected,
        );
        let lx: u64 = if self.size.x >= 1 { self.size.x - 1 } else { 0 };
        let ly: u64 = if self.size.y >= 1 { self.size.y - 1 } else { 0 };
        proof {
            assert((self.size.x as usize) as int == self.size.x as int);
            assert((self.size.y as usize) as int == self.size.y as int);
            assert(g@.len() == g.deep_view().len());
            assert forall|yy: int| 0 <= yy < g@.len() implies lx as int <= #[trigger] g@[yy]@.len() by {
                assert(g@[yy]@.len() == g.deep_view()[yy].len());
            }
        }
        let _cursor = crate::render::place_chars(&mut g, &chars, 1, 1, lx, ly, Option::None);
        g
    }

    /// Delivers one event: mouse-down or Enter emits the click message
    /// when one is set; the button itself never changes.
    pub fn handle_input_event(&mut self, event: Event) -> (r: Vec<Vec<String>>)
        ensures
            *final(self) == *old(self),
            r.deep_view() == crate::model::button_handle(old(self)@, event).1,
    {
        let fire: bool = match &event {
            Event::Mouse(me) => match me.kind {
                MouseEventKind::Down(_) => true,
                _ => false,
            },
            Event::Key(_, code) => match code {
                KeyCode::Enter => true,
                _ => false,
            },
            _ => false,
        };
        let mut out: Vec<Vec<String>> = Vec::new();
        if fire {
            match &self.onclick_message {
                Option::Some(m) => {
                    let mut token: Vec<String> = Vec::new();
                    token.push(m.clone());
                    out.push(token);
                },
                Option::None => {},
            }
        }
        proof {
            assert(out.deep_view() =~~= crate::model::button_handle(old(self)@, event).1);
        }
        out
    }

    pub fn get_position(&self) -> (r: Position)
        ensures
            r == self.position,
    {
        self.position
    }

    pub fn set_position(&mut self, position: Position)
        ensures
            final(self)@ == (ButtonV { position, ..old(self)@ }),
    {
        self.position = position;
    }

    pub fn get_size(&self) -> (r: Size)
        ensures
            r == self.size,
    {
        self.size
    }

    pub fn set_size(&mut self, size: Size)
        ensures
            final(self)@ == (ButtonV { size, ..old(self)@ }),
    {
        self.size = size;
    }

    pub fn is_selected(&self) -> (r: bool)
        ensures
            r == self.selected,
    {
        self.selected
    }

    pub fn select(&mut self, selected: bool)
        ensures
            final(self)@ == (ButtonV { selected, ..old(self)@ }),
    {
        self.selected = selected;
    }

    pub fn get_style(&self) -> (r: StyleSheet)
        ensures
            r == self.style,
    {
        self.style
    }

    pub fn set_style(&mut self, style: StyleSheet)
        ensures
            final(self)@ == (ButtonV { style, ..old(self)@ }),
    {
        self.style = style;
    }

    /// Leaves have no children to lay out.
    pub fn apply_style(&mut self)
        ensures
            *final(self) == *old(self),
    {
    }
}

impl Clone for Button {
    fn clone(&self) -> (r: Self)
        ensures
            r@ == self@,
    {
        Button {
            position: self.position,
            size: self.size,
            style: self.style,
            text: self.text.clone(),
            onclick_message: crate::render::clone_opt(&self.onclick_message),
            selected: self.selected,
        }
    }
}

} // verus!
