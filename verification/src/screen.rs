use vstd::prelude::*;
use crate::{Position, Size, MAX_CELL};
use crate::container::Container;
use crate::events::Event;
use crate::model::ContainerV;
use crate::render::{blank_grid, blit, make_blank_grid};

verus! {

broadcast use vstd::seq::axiom_seq_index_decreases;

/// The character sequences of a sequence of strings.
pub open spec fn strs_view(s: Seq<String>) -> Seq<Seq<char>> {
    Seq::new(s.len(), |i: int| s[i]@)
}

/// A canvas row as the single line written to the terminal: tab and
/// newline are replaced by one blank cell each.
pub open spec fn line_of_row(row: Seq<char>) -> Seq<char> {
    Seq::new(row.len(), |x: int| if row[x] == '\t' || row[x] == '\n' { ' ' } else { row[x] })
}

/// The cursor-move-and-write pairs owed for a frame: one per row
/// whose line differs from the previous frame's, in row order.
pub open spec fn diff_upto(lines: Seq<Seq<char>>, prev: Seq<Seq<char>>, i: int) -> Seq<
    (int, Seq<char>),
>
    decreases i,
{
    if i <= 0 {
        seq![]
    } else {
        let d = diff_upto(lines, prev, i - 1);
        if lines[i - 1] == prev[i - 1] {
            d
        } else {
            d.push((i - 1, lines[i - 1]))
        }
    }
}

/// The top-level driver: a current canvas, the previous frame's
/// lines for diffing, the root container and the outbound message
/// queue.  The terminal device itself is outside this library: a
/// host hands in the terminal size and performs the writes that
/// `render` computes.
pub struct Screen {
    pub width: usize,
    pub height: usize,
    pub canvas: Vec<Vec<char>>,
    pub container: Container,
    pub messages: Vec<Vec<String>>,
    pub previous_lines: Vec<String>,
}

impl Screen {
    /// The canvas and previous-frame buffers agree with the recorded
    /// terminal size, which stays within `MAX_CELL`.
    pub open spec fn wf(self) -> bool {
        &&& self.canvas@.len() == self.height
        &&& (forall|y: int| 0 <= y < self.height ==> #[trigger] self.canvas@[y]@.len()
            == self.width)
        &&& self.previous_lines@.len() == self.height
        &&& self.width as u64 <= MAX_CELL
        &&& self.height as u64 <= MAX_CELL
    }

    /// Takes ownership of the root container, sizes it to the given
    /// terminal extent, runs the initial layout pass and allocates
    /// blank frame buffers.
    pub fn new(container: Container, cols: u16, rows: u16) -> (r: Self)
        requires
            crate::model::styles_ok_children(container@.content),
        ensures
            r.wf(),
            r.width == cols as usize,
            r.height == rows as usize,
            r.container@ == (ContainerV {
                position: Position { x: 0, y: 0 },
                size: Size { x: cols as u64, y: rows as u64 },
                content: crate::model::layout_children(
                    container@.kind,
                    cols as int,
                    rows as int,
                    container@.content,
                ),
                ..container@
            }),
            crate::model::bounded_children(r.container@.content),
            r.canvas.deep_view() == blank_grid(cols as int, rows as int),
            r.messages@.len() == 0,
            strs_view(r.previous_lines@) == Seq::new(rows as nat, |i: int| Seq::<char>::empty()),
    {
        let mut container = container;
        container.set_size(Size { x: cols as u64, y: rows as u64 });
        container.set_position(Position { x: 0, y: 0 });
        container.apply_style();
        let canvas = make_blank_grid(cols as usize, rows as usize);
        let mut previous_lines: Vec<String> = Vec::new();
        let mut i: usize = 0;
        while i < rows as usize
            invariant
                i <= rows as usize,
                previous_lines@.len() == i,
                forall|j: int| 0 <= j < i ==> #[trigger] previous_lines@[j]@
                    == Seq::<char>::empty(),
            decreases rows as usize - i,
        {
            previous_lines.push(String::new());
            i = i + 1;
        }
        let r = Screen {
            width: cols as usize,
            height: rows as usize,
            canvas,
            container,
            messages: Vec::new(),
            previous_lines,
        };
        proof {
            assert(strs_view(r.previous_lines@) =~= Seq::new(
                rows as nat,
                |i: int| Seq::<char>::empty(),
            ));
            assert(r.canvas@.len() == r.canvas.deep_view().len());
            assert forall|y: int| 0 <= y < r.height implies #[trigger] r.canvas@[y]@.len()
                == r.width by {
                assert(r.canvas@[y]@.len() == r.canvas.deep_view()[y].len());
            }
        }
        r
    }

    /// Replaces the frame buffers with blank ones of the new size and
    /// pushes that size into the root container; the next layout pass
    /// redistributes the children.
    pub fn resize(&mut self, width: usize, height: usize)
        requires
            width as u64 <= MAX_CELL,
            height as u64 <= MAX_CELL,
        ensures
            final(self).wf(),
            final(self).width == width,
            final(self).height == height,
            final(self).canvas.deep_view() == blank_grid(width as int, height as int),
            strs_view(final(self).previous_lines@) == Seq::new(
                height as nat,
                |i: int| Seq::<char>::empty(),
            ),
            final(self).container@ == (ContainerV {
                size: Size { x: width as u64, y: height as u64 },
                ..old(self).container@
            }),
            final(self).messages == old(self).messages,
    {
        self.canvas = make_blank_grid(width, height);
        let mut previous_lines: Vec<String> = Vec::new();
        let mut i: usize = 0;
        while i < height
            invariant
                i <= height,
                previous_lines@.len() == i,
                forall|j: int| 0 <= j < i ==> #[trigger] previous_lines@[j]@
                    == Seq::<char>::empty(),
            decreases height - i,
        {
            previous_lines.push(String::new());
            i = i + 1;
        }
        self.previous_lines = previous_lines;
        self.width = width;
        self.height = height;
        self.container.set_size(Size { x: width as u64, y: height as u64 });
        proof {
            assert(strs_view(self.previous_lines@) =~= Seq::new(
                height as nat,
                |i: int| Seq::<char>::empty(),
            ));
            assert(self.canvas@.len() == self.canvas.deep_view().len());
            assert forall|y: int| 0 <= y < self.height implies #[trigger] self.canvas@[y]@.len()
                == self.width by {
                assert(self.canvas@[y]@.len() == self.canvas.deep_view()[y].len());
            }
        }
    }

    /// Routes one event: Resize reallocates the buffers, a key goes
    /// to the root container only while it reports selected, and a
    /// mouse event is translated into the root's frame and delivered
    /// whenever it lands inside it.  Messages emitted during the pass
    /// are appended to the queue; a copy of the updated root is
    /// returned as the new authoritative snapshot.
    pub fn handle_event(&mut self, event: Event) -> (r: Container)
        requires
            event is Key && (old(self).container.selected || old(self).container.always_selected)
                ==> crate::model::tab_ok_container(old(self).container@),
        ensures
            r@ == final(self).container@,
            match event {
                Event::Resize(x, y) => {
                    &&& final(self).width == x as usize
                    &&& final(self).height == y as usize
                    &&& final(self).canvas.deep_view() == blank_grid(x as int, y as int)
                    &&& final(self).container@ == (ContainerV {
                        size: Size { x: x as u64, y: y as u64 },
                        ..old(self).container@
                    })
                    &&& final(self).messages == old(self).messages
                },
                Event::Key(_, _) => {
                    &&& final(self).width == old(self).width
                    &&& final(self).height == old(self).height
                    &&& final(self).canvas == old(self).canvas
                    &&& final(self).previous_lines == old(self).previous_lines
                    &&& if old(self).container.selected || old(self).container.always_selected {
                        let h = crate::model::container_handle(old(self).container@, event);
                        &&& final(self).container@ == h.0
                        &&& final(self).messages.deep_view() == old(self).messages.deep_view()
                            + h.1
                    } else {
                        &&& final(self).container@ == old(self).container@
                        &&& final(self).messages == old(self).messages
                    }
                },
                Event::Mouse(me) => {
                    &&& final(self).width == old(self).width
                    &&& final(self).height == old(self).height
                    &&& final(self).canvas == old(self).canvas
                    &&& final(self).previous_lines == old(self).previous_lines
                    &&& if crate::model::mouse_hit(
                        crate::model::WidgetV::Container(old(self).container@),
                        me,
                    ) {
                        let h = crate::model::container_handle(
                            old(self).container@,
                            Event::Mouse(
                                crate::model::translate_mouse(
                                    crate::model::WidgetV::Container(old(self).container@),
                                    me,
                                ),
                            ),
                        );
                        &&& final(self).container@ == h.0
                        &&& final(self).messages.deep_view() == old(self).messages.deep_view()
                            + h.1
                    } else {
                        &&& final(self).container@ == old(self).container@
                        &&& final(self).messages == old(self).messages
                    }
                },
            },
    {
        match event {
            Event::Resize(x, y) => {
                self.resize(x as usize, y as usize);
            },
            Event::Key(_, _) => {
                if self.container.is_selected() {
                    let ghost m0 = self.messages.deep_view();
                    let mut msg = self.container.handle_input_event(event);
                    let ghost ms_v = msg.deep_view();
                    self.messages.append(&mut msg);
                    proof {
                        assert(self.messages.deep_view() =~~= m0 + ms_v);
                    }
                }
            },
            Event::Mouse(me) => {
                let pos = self.container.get_position();
                let size = self.container.get_size();
                let mx = me.column as u64;
                let my = me.row as u64;
                let hit = pos.x <= mx && mx - pos.x <= size.x && pos.y <= my && my - pos.y
                    <= size.y;
                proof {
                    assert(hit == crate::model::mouse_hit(
                        crate::model::WidgetV::Container(self.container@),
                        me,
                    ));
                }
                if hit {
                    let translated = crate::events::MouseEvent {
                        column: (mx - pos.x) as u16,
                        row: (my - pos.y) as u16,
                        ..me
                    };
                    proof {
                        assert(translated == crate::model::translate_mouse(
                            crate::model::WidgetV::Container(self.container@),
                            me,
                        ));
                    }
                    let ghost m0 = self.messages.deep_view();
                    let mut msg = self.container.handle_input_event(Event::Mouse(translated));
                    let ghost ms_v = msg.deep_view();
                    self.messages.append(&mut msg);
                    proof {
                        assert(self.messages.deep_view() =~~= m0 + ms_v);
                    }
                }
            },
        }
        self.container.clone()
    }

    /// One layout pass, then the whole tree composited into the
    /// canvas at the root's position, clipped at the canvas bounds.
    pub fn draw(&mut self)
        requires
            old(self).wf(),
            crate::model::styles_ok_children(old(self).container@.content),
            old(self).container.size.x <= MAX_CELL,
            old(self).container.size.y <= MAX_CELL,
            old(self).container.position.x <= crate::POS_LIMIT,
            old(self).container.position.y <= crate::POS_LIMIT,
        ensures
            final(self).wf(),
            final(self).container@ == (ContainerV {
                content: crate::model::layout_children(
                    old(self).container@.kind,
                    old(self).container@.size.x as int,
                    old(self).container@.size.y as int,
                    old(self).container@.content,
                ),
                ..old(self).container@
            }),
            final(self).canvas.deep_view() == blit(
                old(self).canvas.deep_view(),
                crate::render::container_grid(final(self).container@),
                old(self).container.position.x as int,
                old(self).container.position.y as int,
            ),
            final(self).width == old(self).width,
            final(self).height == old(self).height,
            final(self).messages == old(self).messages,
            final(self).previous_lines == old(self).previous_lines,
    {
        self.container.apply_style();
        let buffer = self.container.to_char_array();
        proof {
            crate::render::lemma_widget_grid_dims(
                crate::model::WidgetV::Container(self.container@),
            );
            assert(buffer@.len() == buffer.deep_view().len());
            assert forall|yy: int| 0 <= yy < buffer@.len() implies #[trigger] buffer@[yy]@.len()
                <= MAX_CELL by {
                assert(buffer@[yy]@.len() == buffer.deep_view()[yy].len());
            }
        }
        let pos = self.container.get_position();
        crate::render::blit_onto(&mut self.canvas, &buffer, pos.x, pos.y);
    }

    /// Pops the most recently appended message: newest first.
    pub fn get_message(&mut self) -> (r: Option<Vec<String>>)
        ensures
            old(self).messages@.len() == 0 ==> r is None && final(self).messages@ == old(
                self,
            ).messages@,
            old(self).messages@.len() > 0 ==> {
                &&& r == Option::Some(old(self).messages@.last())
                &&& final(self).messages@ == old(self).messages@.drop_last()
            },
            final(self).width == old(self).width,
            final(self).height == old(self).height,
            final(self).canvas == old(self).canvas,
            final(self).container == old(self).container,
            final(self).previous_lines == old(self).previous_lines,
    {
        self.messages.pop()
    }

    /// Converts each canvas row to a line, then returns exactly one
    /// move-and-write pair for each row whose line changed since the
    /// previous frame, in row order, and remembers the new lines.
    pub fn render(&mut self) -> (writes: Vec<(usize, String)>)
        requires
            old(self).wf(),
        ensures
            final(self).wf(),
            ({
                let lines = Seq::new(
                    old(self).height as nat,
                    |y: int| line_of_row(old(self).canvas.deep_view()[y]),
                );
                let d = diff_upto(
                    lines,
                    strs_view(old(self).previous_lines@),
                    old(self).height as int,
                );
                &&& writes@.len() == d.len()
                &&& (forall|i: int|
                    0 <= i < d.len() ==> (#[trigger] writes@[i]).0 as int == d[i].0 && writes@[
                        i
                    ].1@ == d[i].1)
                &&& strs_view(final(self).previous_lines@) == lines
            }),
            final(self).width == old(self).width,
            final(self).height == old(self).height,
            final(self).canvas == old(self).canvas,
            final(self).container == old(self).container,
            final(self).messages == old(self).messages,
    {
        let ghost lines_spec = Seq::new(
            self.height as nat,
            |y: int| line_of_row(self.canvas.deep_view()[y]),
        );
        let mut lines: Vec<String> = Vec::new();
        let mut y: usize = 0;
        while y < self.height
            invariant
                self.wf(),
                y <= self.height,
                lines@.len() == y,
                lines_spec == Seq::new(
                    self.height as nat,
                    |yy: int| line_of_row(self.canvas.deep_view()[yy]),
                ),
                forall|j: int| 0 <= j < y ==> #[trigger] lines@[j]@ == lines_spec[j],
            decreases self.height - y,
        {
            let row = &self.canvas[y];
            let n = row.len();
            let mut line = String::new();
            let mut x: usize = 0;
            proof {
                assert(self.canvas@[y as int]@.len() == self.canvas.deep_view()[y as int].len());
            }
            while x < n
                invariant
                    y < self.height,
                    self.wf(),
                    n == row@.len(),
                    row == &self.canvas@[y as int],
                    x <= n,
                    line@.len() == x,
                    forall|j: int| 0 <= j < x ==> #[trigger] line@[j] == line_of_row(row@)[j],
                decreases n - x,
            {
                let c = row[x];
                if c == '\t' || c == '\n' {
                    crate::render::push_char(&mut line, ' ');
                } else {
                    crate::render::push_char(&mut line, c);
                }
                x = x + 1;
            }
            proof {
                assert(line@ =~= line_of_row(self.canvas.deep_view()[y as int]));
            }
            lines.push(line);
            y = y + 1;
        }
        let mut writes: Vec<(usize, String)> = Vec::new();
        let ghost prev_spec = strs_view(self.previous_lines@);
        let mut row: usize = 0;
        while row < self.height
            invariant
                self.wf(),
                row <= self.height,
                lines@.len() == self.height,
                forall|j: int| 0 <= j < self.height ==> #[trigger] lines@[j]@ == lines_spec[j],
                prev_spec == strs_view(self.previous_lines@),
                ({
                    let d = diff_upto(lines_spec, prev_spec, row as int);
                    &&& writes@.len() == d.len()
                    &&& (forall|i: int|
                        0 <= i < d.len() ==> (#[trigger] writes@[i]).0 as int == d[i].0
                            && writes@[i].1@ == d[i].1)
                }),
            decreases self.height - row,
        {
            let differs = !strings_equal(&lines[row], &self.previous_lines[row]);
            if differs {
                let copy = lines[row].clone();
                writes.push((row, copy));
            }
            row = row + 1;
        }
        self.previous_lines = lines;
        proof {
            assert(strs_view(self.previous_lines@) =~= lines_spec);
        }
        writes
    }

    /// Resets the canvas to all blanks at the current size.
    pub fn clear(&mut self)
        requires
            old(self).wf(),
        ensures
            final(self).wf(),
            final(self).canvas.deep_view() == blank_grid(
                old(self).width as int,
                old(self).height as int,
            ),
            final(self).width == old(self).width,
            final(self).height == old(self).height,
            final(self).container == old(self).container,
            final(self).messages == old(self).messages,
            final(self).previous_lines == old(self).previous_lines,
    {
        self.canvas = make_blank_grid(self.width, self.height);
        proof {
            assert(self.canvas@.len() == self.canvas.deep_view().len());
            assert forall|y: int| 0 <= y < self.height implies #[trigger] self.canvas@[y]@.len()
                == self.width by {
                assert(self.canvas@[y]@.len() == self.canvas.deep_view()[y].len());
            }
        }
    }
}

/// Do two strings hold the same characters?
fn strings_equal(a: &String, b: &String) -> (r: bool)
    ensures
        r == (a@ == b@),
{
    a.eq(b)
}

} // verus!
