use vstd::prelude::*;
use crate::{Position, Size};
use crate::style::StyleSheet;
use crate::model::InputV;
use crate::events::{Event, KeyCode};
use crate::text::measured_size;

verus! {

/// A single editable text buffer: characters are appended or erased,
/// and every edit reports the full text through the `on_change`
/// message.
#[derive(Debug)]
pub struct Input {
    pub position: Position,
    pub size: Size,

    pub style: StyleSheet,

    pub placeholder: String,
    pub text: String,

    pub selected: bool,
    pub is_password: bool,
    pub block_tab: bool,
    pub cursor: bool,
    pub submit_msg: Option<String>,
    pub on_change: String,
}

impl View for Input {
    type V = InputV;

    open spec fn view(&self) -> InputV {
        InputV {
            position: self.position,
            size: self.size,
            style: self.style,
            placeholder: self.placeholder@,
            text: self.text@,
            selected: self.selected,
            is_password: self.is_password,
            block_tab: self.block_tab,
            cursor: self.cursor,
            submit_msg: crate::model::opt_view(self.submit_msg),
            on_change: self.on_change@,
        }
    }
}

impl Input {
    /// An empty input showing `placeholder`, reporting edits under the
    /// `message` name.
    pub fn new(placeholder: &str, message: &str, style: StyleSheet) -> (r: Self)
        ensures
            r@ == (InputV {
                position: Position { x: 0, y: 0 },
                size: Size { x: 0, y: 0 },
                style,
                placeholder: placeholder@,
                text: Seq::empty(),
                selected: false,
                is_password: false,
                block_tab: false,
                cursor: true,
                submit_msg: Option::None,
                on_change: message@,
            }),
    {
        Input {
            position: Position { x: 0, y: 0 },
            size: Size { x: 0, y: 0 },
            style,
            placeholder: placeholder.to_owned(),
            text: String::new(),
            selected: false,
            is_password: false,
            block_tab: false,
            cursor: true,
            submit_msg: Option::None,
            on_change: message.to_owned(),
        }
    }

    pub fn on_submit(self, msg: &str) -> (r: Self)
        ensures
            r@ == (InputV { submit_msg: Option::Some(msg@), ..self@ }),
    {
        Input { submit_msg: Option::Some(msg.to_owned()), ..self }
    }

    pub fn with_tab_blocker(self, block: bool) -> (r: Self)
        ensures
            r@ == (InputV { block_tab: block, ..self@ }),
    {
        Input { block_tab: block, ..self }
    }

    /// Whether to draw a cursor block after the text while focused.
    pub fn with_cursor(self, cursor: bool) -> (r: Self)
        ensures
            r@ == (InputV { cursor, ..self@ }),
    {
        Input { cursor, ..self }
    }

    pub fn with_password(self) -> (r: Self)
        ensures
            r@ == (InputV { is_password: true, ..self@ }),
    {
        Input { is_password: true, ..self }
    }

    /// Replaces the buffer and re-measures the size from it.
    pub fn set_text(&mut self, text: &str)
        ensures
            final(self)@ == (InputV { text: text@, size: measured_size(text@), ..old(self)@ }),
    {
        let chars = crate::render::chars_of(text);
        let (w, h) = crate::text::measure_text(&chars);
        self.size = Size { x: w, y: h };
        self.text = text.to_owned();
    }

    /// Renders to a grid of exactly the widget's resolved size: the
    /// buffer (or placeholder while empty), masked in password mode,
    /// with a cursor block after the text while focused.
    pub fn to_char_array(&self) -> (r: Vec<Vec<char>>)
        requires
            self.size.x <= crate::MAX_CELL,
            self.size.y <= crate::MAX_CELL,
        ensures
            r.deep_view() == crate::render::input_grid(self@),
    {
        let tchars = crate::render::chars_of(self.text.as_str());
        let chars = if tchars.len() > 0 {
            tchars
        } else {
            crate::render::chars_of(self.placeholder.as_str())
        };
        let mask = if self.is_password {
            Option::Some('*')
        } else {
            Option::None
        };
        let mut g = crate::render::make_blank_grid(self.size.x as usize, self.size.y as usize);
        proof {
            assert((self.size.x as usize) as int == self.size.x as int);
            assert((self.size.y as usize) as int == self.size.y as int);
            assert(g@.len() == g.deep_view().len());
            assert forall|yy: int| 0 <= yy < g@.len() implies self.size.x as int
                <= #[trigger] g@[yy]@.len() by {
                assert(g@[yy]@.len() == g.deep_view()[yy].len());
            }
        }
        let cursor_pos = crate::render::place_chars(
            &mut g,
            &chars,
            0,
            0,
            self.size.x,
            self.size.y,
            mask,
        );
        if self.selected && self.cursor && (cursor_pos.1 as u64) < self.size.y && (cursor_pos.0
            as u64) < self.size.x {
            proof {
                assert(g@[cursor_pos.1 as int]@.len() == g.deep_view()[cursor_pos.1 as int].len());
            }
            crate::render::grid_write(&mut g, cursor_pos.0, cursor_pos.1, '▉');
        }
        g
    }

    /// Delivers one event: edits the buffer on Char, Tab (unless
    /// blocked), Backspace and Enter-without-submit, reporting the
    /// full text under the `on_change` name after every edit; Enter
    /// with a submit message emits that instead.
    pub fn handle_input_event(&mut self, event: Event) -> (r: Vec<Vec<String>>)
        ensures
            final(self)@ == crate::model::input_handle(old(self)@, event).0,
            r.deep_view() == crate::model::input_handle(old(self)@, event).1,
    {
        let mut out: Vec<Vec<String>> = Vec::new();
        match &event {
            Event::Key(_, code) => {
                match code {
                    KeyCode::Enter => {
                        let submit = match &self.submit_msg {
                            Option::Some(m) => Option::Some(m.clone()),
                            Option::None => Option::None,
                        };
                        match submit {
                            Option::Some(m) => {
                                let mut token: Vec<String> = Vec::new();
                                token.push(m);
                                out.push(token);
                            },
                            Option::None => {
                                crate::render::push_char(&mut self.text, '\n');
                                let mut token: Vec<String> = Vec::new();
                                token.push(self.on_change.clone());
                                token.push(self.text.clone());
                                out.push(token);
                            },
                        }
                    },
                    KeyCode::Tab => {
                        if !self.block_tab {
                            crate::render::push_char(&mut self.text, '\t');
                            let mut token: Vec<String> = Vec::new();
                            token.push(self.on_change.clone());
                            token.push(self.text.clone());
                            out.push(token);
                        }
                    },
                    KeyCode::Char(c) => {
                        crate::render::push_char(&mut self.text, *c);
                        let mut token: Vec<String> = Vec::new();
                        token.push(self.on_change.clone());
                        token.push(self.text.clone());
                        out.push(token);
                    },
                    KeyCode::Backspace => {
                        crate::render::pop_char(&mut self.text);
                        let mut token: Vec<String> = Vec::new();
                        token.push(self.on_change.clone());
                        token.push(self.text.clone());
                        out.push(token);
                    },
                    _ => {},
                }
            },
            _ => {},
        }
        proof {
            assert(final(self)@ =~= crate::model::input_handle(old(self)@, event).0);
            assert(out.deep_view() =~~= crate::model::input_handle(old(self)@, event).1);
        }
        out
    }

    pub fn get_position(&self) -> (r: Position)
        ensures
            r == self.position,
    {
        self.position
    }

    pub fn set_position(&mut self, position: Position)
        ensures
            final(self)@ == (InputV { position, ..old(self)@ }),
    {
        self.position = position;
    }

    pub fn get_size(&self) -> (r: Size)
        ensures
            r == self.size,
    {
        self.size
    }

    pub fn set_size(&mut self, size: Size)
        ensures
            final(self)@ == (InputV { size, ..old(self)@ }),
    {
        self.size = size;
    }

    pub fn is_selected(&self) -> (r: bool)
        ensures
            r == self.selected,
    {
        self.selected
    }

    pub fn select(&mut self, selected: bool)
        ensures
            final(self)@ == (InputV { selected, ..old(self)@ }),
    {
        self.selected = selected;
    }

    pub fn get_style(&self) -> (r: StyleSheet)
        ensures
            r == self.style,
    {
        self.style
    }

    pub fn set_style(&mut self, style: StyleSheet)
        ensures
            final(self)@ == (InputV { style, ..old(self)@ }),
    {
        self.style = style;
    }

    /// Leaves have no children to lay out.
    pub fn apply_style(&mut self)
        ensures
            *final(self) == *old(self),
    {
    }
}

impl Clone for Input {
    fn clone(&self) -> (r: Self)
        ensures
            r@ == self@,
    {
        Input {
            position: self.position,
            size: self.size,
            style: self.style,
            placeholder: self.placeholder.clone(),
            text: self.text.clone(),
            selected: self.selected,
            is_password: self.is_password,
            block_tab: self.block_tab,
            cursor: self.cursor,
            submit_msg: crate::render::clone_opt(&self.submit_msg),
            on_change: self.on_change.clone(),
        }
    }
}

} // verus!
