use vstd::prelude::*;
use crate::{Position, Size};
use crate::style::StyleSheet;
use crate::model::TextV;
use crate::events::{Event, MouseEventKind};

verus! {

/// A block of text; emits an optional click message on mouse-down.
#[derive(Debug)]
pub struct Text {
    pub text: String,

    pub position: Position,
    pub size: Size,

    pub style: StyleSheet,

    pub onclick_message: Option<String>,
    pub selected: bool,
}

impl View for Text {
    type V = TextV;

    open spec fn view(&self) -> TextV {
        TextV {
            text: self.text@,
            position: self.position,
            size: self.size,
            style: self.style,
            onclick_message: crate::model::opt_view(self.onclick_message),
            selected: self.selected,
        }
    }
}

/// Measure of the prefix `s[..i]`: (widest line so far, length of the
/// line in progress, number of lines so far).  The line count
/// saturates at `u64::MAX`; the two widths never exceed `s.len()`.
pub open spec fn measure_upto(s: Seq<char>, i: int) -> (int, int, int)
    decreases i,
{
    if i <= 0 {
        (0, 0, 1)
    } else {
        let m = measure_upto(s, i - 1);
        if s[i - 1] == '\n' {
            (m.0, 0, if m.2 < u64::MAX { m.2 + 1 } else { m.2 })
        } else {
            let cur2 = m.1 + 1;
            (if cur2 > m.0 { cur2 } else { m.0 }, cur2, m.2)
        }
    }
}

/// Width of a text: the length of its longest newline-separated line.
pub open spec fn text_width(s: Seq<char>) -> int {
    measure_upto(s, s.len() as int).0
}

/// Height of a text: one more than its newline count.
pub open spec fn text_height(s: Seq<char>) -> int {
    measure_upto(s, s.len() as int).2
}

/// The size a text assumes from its own content.
pub open spec fn measured_size(s: Seq<char>) -> Size {
    Size { x: text_width(s) as u64, y: text_height(s) as u64 }
}

/// Computes the width and height of a text, one code point per cell.
pub fn measure_text(chars: &Vec<char>) -> (r: (u64, u64))
    ensures
        r.0 as int == text_width(chars@),
        r.1 as int == text_height(chars@),
{
    let n = chars.len();
    let mut wmax: usize = 0;
    let mut cur: usize = 0;
    let mut lines: u64 = 1;
    let mut i: usize = 0;
    while i < n
        invariant
            n == chars@.len(),
            i <= n,
            wmax as int == measure_upto(chars@, i as int).0,
            cur as int == measure_upto(chars@, i as int).1,
            lines as int == measure_upto(chars@, i as int).2,
            wmax <= i,
            cur <= i,
        decreases n - i,
    {
        let c = chars[i];
        if c == '\n' {
            cur = 0;
            if lines < u64::MAX {
                lines = lines + 1;
            }
        } else {
            cur = cur + 1;
            if cur > wmax {
                wmax = cur;
            }
        }
        i = i + 1;
    }
    (wmax as u64, lines)
}

impl Text {
    /// A text sized to its content, at the origin, unselected, with no
    /// click message.
    pub fn new(text: &str, style: StyleSheet) -> (r: Self)
        ensures
            r@ == (TextV {
                text: text@,
                position: Position { x: 0, y: 0 },
                size: measured_size(text@),
                style,
                onclick_message: Option::None,
                selected: false,
            }),
    {
        let chars = crate::render::chars_of(text);
        let (w, h) = measure_text(&chars);
        Text {
            text: text.to_owned(),
            position: Position { x: 0, y: 0 },
            size: Size { x: w, y: h },
            style,
            onclick_message: Option::None,
            selected: false,
        }
    }

    pub fn on_click(self, message: &str) -> (r: Self)
        ensures
            r@ == (TextV { onclick_message: Option::Some(message@), ..self@ }),
    {
        Text { onclick_message: Option::Some(message.to_owned()), ..self }
    }

    /// Replaces the content and re-measures the size from it.
    pub fn set_text(&mut self, text: &str)
        ensures
            final(self)@ == (TextV { text: text@, size: measured_size(text@), ..old(self)@ }),
    {
        let chars = crate::render::chars_of(text);
        let (w, h) = measure_text(&chars);
        self.size = Size { x: w, y: h };
        self.text = text.to_owned();
    }

    /// Renders to a grid of exactly the widget's resolved size; a
    /// dimension under one cell yields no cells on that axis.
    pub fn to_char_array(&self) -> (r: Vec<Vec<char>>)
        requires
            self.size.x <= crate::MAX_CELL,
            self.size.y <= crate::MAX_CELL,
        ensures
            r.deep_view() == crate::render::text_grid(self@),
    {
        let chars = crate::render::chars_of(self.text.as_str());
        let mut g = crate::render::make_blank_grid(self.size.x as usize, self.size.y as usize);
        proof {
            assert((self.size.x as usize) as int == self.size.x as int);
            assert((self.size.y as usize) as int == self.size.y as int);
            assert(g@.len() == g.deep_view().len());
            assert forall|yy: int| 0 <= yy < g@.len() implies self.size.x as int
                <= #[trigger] g@[yy]@.len() by {
                assert(g@[yy]@.len() == g.deep_view()[yy].len());
            }
        }
        let _cursor = crate::render::place_chars(
            &mut g,
            &chars,
            0,
            0,
            self.size.x,
            self.size.y,
            Option::None,
        );
        g
    }

    /// Delivers one event: mouse-down emits the click message when one
    /// is set, else replaces the text as a debug affordance.
    pub fn handle_input_event(&mut self, event: Event) -> (r: Vec<Vec<String>>)
        ensures
            final(self)@ == crate::model::text_handle(old(self)@, event).0,
            r.deep_view() == crate::model::text_handle(old(self)@, event).1,
    {
        match event {
            Event::Mouse(me) => match me.kind {
                MouseEventKind::Down(_) => {
                    let msg = match &self.onclick_message {
                        Option::Some(m) => Option::Some(m.clone()),
                        Option::None => Option::None,
                    };
                    match msg {
                        Option::Some(m) => {
                            let mut token: Vec<String> = Vec::new();
                            token.push(m);
                            let mut out: Vec<Vec<String>> = Vec::new();
                            out.push(token);
                            proof {
                                assert(out.deep_view() =~~= crate::model::text_handle(
                                    old(self)@,
                                    event,
                                ).1);
                            }
                            out
                        },
                        Option::None => {
                            self.set_text("clicked");
                            let out: Vec<Vec<String>> = Vec::new();
                            proof {
                                assert(out.deep_view() =~~= crate::model::text_handle(
                                    old(self)@,
                                    event,
                                ).1);
                            }
                            out
                        },
                    }
                },
                _ => {
                    let out: Vec<Vec<String>> = Vec::new();
                    proof {
                        assert(out.deep_view() =~~= crate::model::text_handle(old(self)@, event).1);
                    }
                    out
                },
            },
            _ => {
                let out: Vec<Vec<String>> = Vec::new();
                proof {
                    assert(out.deep_view() =~~= crate::model::text_handle(old(self)@, event).1);
                }
                out
            },
        }
    }

    pub fn get_text(&self) -> (r: String)
        ensures
            r@ == self@.text,
    {
        self.text.clone()
    }

    pub fn get_position(&self) -> (r: Position)
        ensures
            r == self.position,
    {
        self.position
    }

    pub fn set_position(&mut self, position: Position)
        ensures
            final(self)@ == (TextV { position, ..old(self)@ }),
    {
        self.position = position;
    }

    pub fn get_size(&self) -> (r: Size)
        ensures
            r == self.size,
    {
        self.size
    }

    pub fn set_size(&mut self, size: Size)
        ensures
            final(self)@ == (TextV { size, ..old(self)@ }),
    {
        self.size = size;
    }

    pub fn is_selected(&self) -> (r: bool)
        ensures
            r == self.selected,
    {
        self.selected
    }

    pub fn select(&mut self, selected: bool)
        ensures
            final(self)@ == (TextV { selected, ..old(self)@ }),
    {
        self.selected = selected;
    }

    pub fn get_style(&self) -> (r: StyleSheet)
        ensures
            r == self.style,
    {
        self.style
    }

    pub fn set_style(&mut self, style: StyleSheet)
        ensures
            final(self)@ == (TextV { style, ..old(self)@ }),
    {
        self.style = style;
    }

    /// Leaves have no children to lay out.
    pub fn apply_style(&mut self)
        ensures
            *final(self) == *old(self),
    {
    }
}

impl Clone for Text {
    fn clone(&self) -> (r: Self)
        ensures
            r@ == self@,
    {
        Text {
            text: self.text.clone(),
            position: self.position,
            size: self.size,
            style: self.style,
            onclick_message: crate::render::clone_opt(&self.onclick_message),
            selected: self.selected,
        }
    }
}

} // verus!
