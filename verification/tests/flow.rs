use simple_tui::style::{Length, Padding, StyleSheet};
use simple_tui::text::Text;
use simple_tui::button::Button;
use simple_tui::input::Input;
use simple_tui::container::{Container, ContainerKind};
use simple_tui::widget::Widgets;
use simple_tui::events::{Event, KeyCode, KeyMod, MouseButton, MouseEvent, MouseEventKind};
use simple_tui::screen::Screen;
use simple_tui::{Position, Size};

fn abs_style(w: u64, h: u64) -> StyleSheet {
    StyleSheet {
        width: Length::Absolute(w),
        height: Length::Absolute(h),
        padding: Padding { x_start: 0, x_end: 0, y_start: 0, y_end: 0 },
    }
}

fn fill_style() -> StyleSheet {
    StyleSheet {
        width: Length::Relative(1, 1),
        height: Length::Relative(1, 1),
        padding: Padding { x_start: 0, x_end: 0, y_start: 0, y_end: 0 },
    }
}

fn mouse_down(col: u16, row: u16) -> Event {
    Event::Mouse(MouseEvent {
        kind: MouseEventKind::Down(MouseButton::Left),
        column: col,
        row,
        keymod: KeyMod::Plain,
    })
}

fn tab() -> Event {
    Event::Key(KeyMod::Plain, KeyCode::Tab)
}

/// Layout sum: a trailing full-fraction child fills exactly what is
/// left of the axis, minus its own end padding.
#[test]
fn layout_trailing_relative_fills_remaining_width() {
    let lead = Widgets::Button(Button::new("b", abs_style(6, 3)));
    let trail_style = StyleSheet {
        width: Length::Relative(1, 1),
        height: Length::Absolute(3),
        padding: Padding { x_start: 2, x_end: 1, y_start: 0, y_end: 0 },
    };
    let trail = Widgets::Text(Text::new("t", trail_style));
    let mut row = Container::new(ContainerKind::Row, vec![lead, trail], abs_style(30, 10));
    row.set_size(Size { x: 30, y: 10 });
    row.apply_style();
    let p0 = row.content[0].get_position();
    let s0 = row.content[0].get_size();
    let p1 = row.content[1].get_position();
    let s1 = row.content[1].get_size();
    assert_eq!((p0, s0), (Position { x: 0, y: 0 }, Size { x: 6, y: 3 }));
    assert_eq!(p1, Position { x: 8, y: 0 });
    // 8 + 21 + 1 (end padding) == 30: the row is filled exactly.
    assert_eq!(s1, Size { x: 21, y: 3 });
}

/// Relative lengths split what remains after earlier siblings.
#[test]
fn layout_relative_quarters() {
    let a = Widgets::Button(Button::new("a", StyleSheet {
        width: Length::Relative(1, 2),
        height: Length::Relative(1, 1),
        padding: Padding { x_start: 0, x_end: 0, y_start: 0, y_end: 0 },
    }));
    let b = Widgets::Button(Button::new("b", fill_style()));
    let mut row = Container::new(ContainerKind::Row, vec![a, b], abs_style(20, 4));
    row.set_size(Size { x: 20, y: 4 });
    row.apply_style();
    assert_eq!(row.content[0].get_size(), Size { x: 10, y: 4 });
    assert_eq!(row.content[1].get_position(), Position { x: 10, y: 0 });
    assert_eq!(row.content[1].get_size(), Size { x: 10, y: 4 });
}

/// Non-negativity: an overfull row resolves to zero-width children,
/// never a fault, and a degenerate container renders no cells.
#[test]
fn layout_overfull_clamps_to_zero_and_renders_empty() {
    let big = Widgets::Button(Button::new("b", abs_style(50, 3)));
    let rest = Widgets::Text(Text::new("t", StyleSheet {
        width: Length::Relative(1, 1),
        height: Length::Absolute(1),
        padding: Padding { x_start: 0, x_end: 0, y_start: 0, y_end: 0 },
    }));
    let mut row = Container::new(ContainerKind::Row, vec![big, rest], abs_style(30, 5));
    row.set_size(Size { x: 30, y: 5 });
    row.apply_style();
    assert_eq!(row.content[1].get_size().x, 0);
    let mut flat = Container::new(ContainerKind::Row, vec![], abs_style(0, 0));
    flat.set_size(Size { x: 0, y: 5 });
    assert!(flat.to_char_array().is_empty());
}

/// Container rendering composites children at their rectangles and
/// draws the focused or unfocused border set.
#[test]
fn container_borders_reflect_focus() {
    let mut c = Container::new(ContainerKind::Row, vec![], abs_style(4, 3))
        .with_default_borders();
    c.set_size(Size { x: 4, y: 3 });
    let g = c.to_char_array();
    assert_eq!(g[0], vec!['.', '.', '.', '.']);
    assert_eq!(g[1], vec![':', ' ', ' ', ':']);
    c.select(true);
    let g2 = c.to_char_array();
    assert_eq!(g2[0], vec!['┌', '─', '─', '┐']);
    assert_eq!(g2[2], vec!['└', '─', '─', '┘']);
}

/// Focus cycling: three leaf children, starting unselected; each
/// advance selects the next child, and the wrap clears the
/// container's own selected flag while the cursor returns to 0.
#[test]
fn focus_cycle_over_three_children() {
    let kids = vec![
        Widgets::Button(Button::new("a", abs_style(2, 2))),
        Widgets::Button(Button::new("b", abs_style(2, 2))),
        Widgets::Button(Button::new("c", abs_style(2, 2))),
    ];
    let mut c = Container::new(ContainerKind::Row, kids, abs_style(10, 4)).with_tab_selector();
    c.selected = true;
    let selected_flags = |c: &Container| -> Vec<bool> {
        c.content.iter().map(|w| w.is_selected()).collect()
    };
    c.handle_input_event(tab());
    assert_eq!(c.selection_index, 1);
    assert_eq!(selected_flags(&c), vec![false, true, false]);
    c.handle_input_event(tab());
    assert_eq!(c.selection_index, 2);
    assert_eq!(selected_flags(&c), vec![false, false, true]);
    c.handle_input_event(tab());
    // after the full round the cursor wraps and the container itself
    // reports unselected, so a parent stops forwarding keys to it
    assert_eq!(c.selection_index, 0);
    assert!(!c.selected);
    assert_eq!(selected_flags(&c), vec![true, false, false]);
}

/// A nested tab-selector mid-cycle suppresses the parent's own
/// cursor advance.
#[test]
fn nested_tab_selector_blocks_parent() {
    let inner_kids = vec![
        Widgets::Button(Button::new("x", abs_style(2, 2))),
        Widgets::Button(Button::new("y", abs_style(2, 2))),
    ];
    let mut inner = Container::new(ContainerKind::Row, inner_kids, abs_style(6, 3))
        .with_tab_selector();
    inner.selected = true;
    let outer_kids = vec![
        Widgets::Container(inner),
        Widgets::Button(Button::new("z", abs_style(2, 2))),
    ];
    let mut outer = Container::new(ContainerKind::Column, outer_kids, abs_style(10, 8))
        .with_tab_selector();
    outer.handle_input_event(tab());
    // the inner container is still cycling, so the outer cursor stays
    assert_eq!(outer.selection_index, 0);
}

/// Mouse hit-testing: every child whose rectangle contains the point
/// receives the translated event, selection ignored; messages stack
/// in child order and pop newest-first.
#[test]
fn mouse_reaches_all_overlapping_children() {
    let a = Widgets::Button(Button::new("a", abs_style(4, 4)).on_click("first"));
    let b = Widgets::Button(Button::new("b", abs_style(4, 4)).on_click("second"));
    let mut c = Container::new(ContainerKind::Row, vec![a, b], abs_style(8, 4));
    c.set_size(Size { x: 8, y: 4 });
    // overlap both children over the same rectangle
    for w in c.content.iter_mut() {
        w.set_position(Position { x: 1, y: 0 });
        w.set_size(Size { x: 4, y: 4 });
    }
    let msgs = c.handle_input_event(mouse_down(2, 1));
    assert_eq!(msgs, vec![vec!["first".to_string()], vec!["second".to_string()]]);
    // outside both rectangles nothing is delivered
    let none = c.handle_input_event(mouse_down(7, 3));
    assert!(none.is_empty());
}

/// Input round-trip: Char('a'), Char('b'), Backspace report "a",
/// "ab", "a" in order under the on_change name; a blocked Tab emits
/// nothing at all.
#[test]
fn input_round_trip_and_tab_blocker() {
    let mut i = Input::new("", "x", abs_style(8, 1));
    let m1 = i.handle_input_event(Event::Key(KeyMod::Plain, KeyCode::Char('a')));
    let m2 = i.handle_input_event(Event::Key(KeyMod::Plain, KeyCode::Char('b')));
    let m3 = i.handle_input_event(Event::Key(KeyMod::Plain, KeyCode::Backspace));
    assert_eq!(m1, vec![vec!["x".to_string(), "a".to_string()]]);
    assert_eq!(m2, vec![vec!["x".to_string(), "ab".to_string()]]);
    assert_eq!(m3, vec![vec!["x".to_string(), "a".to_string()]]);
    let mut blocked = Input::new("", "x", abs_style(8, 1)).with_tab_blocker(true);
    let m4 = blocked.handle_input_event(tab());
    assert!(m4.is_empty());
    assert_eq!(blocked.text, "".to_string());
}

/// Enter submits when a submit message is set, else appends a newline
/// and still reports through on_change.
#[test]
fn input_enter_paths() {
    let mut plain = Input::new("", "x", abs_style(8, 2));
    let m = plain.handle_input_event(Event::Key(KeyMod::Plain, KeyCode::Enter));
    assert_eq!(m, vec![vec!["x".to_string(), "\n".to_string()]]);
    let mut submitting = Input::new("", "x", abs_style(8, 2)).on_submit("done");
    let m2 = submitting.handle_input_event(Event::Key(KeyMod::Plain, KeyCode::Enter));
    assert_eq!(m2, vec![vec!["done".to_string()]]);
    assert_eq!(submitting.text, "".to_string());
}

/// Diff minimality: a frame differing in exactly one row issues
/// exactly one move-and-write pair, for that row.
#[test]
fn render_diffs_only_changed_rows() {
    let root = Container::new(ContainerKind::Row, vec![], abs_style(4, 3));
    let mut screen = Screen::new(root, 4, 3);
    screen.clear();
    let first = screen.render();
    // every blank line differs from the initial empty previous lines
    assert_eq!(first.len(), 3);
    let second = screen.render();
    assert!(second.is_empty());
    screen.canvas[1][2] = 'z';
    let third = screen.render();
    assert_eq!(third.len(), 1);
    assert_eq!(third[0].0, 1);
    assert_eq!(third[0].1, "  z ".to_string());
}

/// Tabs and newlines on the canvas are written as single blanks.
#[test]
fn render_substitutes_control_cells() {
    let root = Container::new(ContainerKind::Row, vec![], abs_style(3, 1));
    let mut screen = Screen::new(root, 3, 1);
    screen.clear();
    screen.canvas[0][0] = '\t';
    screen.canvas[0][1] = '\n';
    screen.canvas[0][2] = 'a';
    let writes = screen.render();
    assert_eq!(writes.len(), 1);
    assert_eq!(writes[0].1, "  a".to_string());
}

/// The queue pops the most recently appended message first.
#[test]
fn get_message_is_newest_first() {
    let a = Widgets::Button(Button::new("a", abs_style(4, 4)).on_click("first"));
    let b = Widgets::Button(Button::new("b", abs_style(4, 4)).on_click("second"));
    let root = Container::new(ContainerKind::Row, vec![a, b], fill_style());
    let mut screen = Screen::new(root, 8, 4);
    for w in screen.container.content.iter_mut() {
        w.set_position(Position { x: 0, y: 0 });
        w.set_size(Size { x: 8, y: 4 });
    }
    screen.handle_event(mouse_down(1, 1));
    assert_eq!(screen.get_message(), Some(vec!["second".to_string()]));
    assert_eq!(screen.get_message(), Some(vec!["first".to_string()]));
    assert_eq!(screen.get_message(), None);
}

/// A resize reallocates the buffers and pushes the new size into the
/// root container.
#[test]
fn resize_event_reshapes_screen() {
    let root = Container::new(ContainerKind::Row, vec![], fill_style());
    let mut screen = Screen::new(root, 4, 2);
    screen.handle_event(Event::Resize(6, 5));
    assert_eq!(screen.width, 6);
    assert_eq!(screen.height, 5);
    assert_eq!(screen.canvas.len(), 5);
    assert_eq!(screen.canvas[0].len(), 6);
    assert_eq!(screen.container.get_size(), Size { x: 6, y: 5 });
}

/// Keys reach the tree only while the root reports selected.
#[test]
fn keys_gated_on_root_selection() {
    let i = Widgets::Input(Input::new("", "x", fill_style()));
    let root = Container::new(ContainerKind::Row, vec![i], fill_style());
    let mut screen = Screen::new(root, 8, 2);
    if let Widgets::Input(inp) = &mut screen.container.content[0] {
        inp.select(true);
    }
    screen.handle_event(Event::Key(KeyMod::Plain, KeyCode::Char('q')));
    assert_eq!(screen.get_message(), None);
    screen.container.always_selected = true;
    screen.handle_event(Event::Key(KeyMod::Plain, KeyCode::Char('q')));
    assert_eq!(screen.get_message(), Some(vec!["x".to_string(), "q".to_string()]));
}

/// End-to-end: digit buttons feed a text through an update loop;
/// clicking "7", "+", "3" leaves the text reading "7+3".
#[test]
fn end_to_end_button_presses_feed_text() {
    let labels = ["1", "2", "3", "4", "5", "6", "7", "8", "9", "+"];
    let mut kids: Vec<Widgets> = vec![
        Widgets::Button(Button::new("exit", abs_style(4, 1)).on_click("exit")),
        Widgets::Text(Text::new("", abs_style(10, 1))),
    ];
    for l in labels.iter() {
        kids.push(Widgets::Button(Button::new(l, abs_style(4, 1)).on_click(l)));
    }
    let root = Container::new(ContainerKind::Column, kids, fill_style()).always_selected();
    let mut screen = Screen::new(root, 12, 40);
    // column layout stacks each child one row after the other
    let mut exit = false;
    let mut shown = String::new();
    for press in ["7", "+", "3"] {
        let row = 2 + labels.iter().position(|l| l == &press).unwrap() as u16;
        screen.handle_event(mouse_down(1, row));
        let msg = screen.get_message().unwrap();
        match msg[0].as_str() {
            "exit" => exit = true,
            token => {
                shown.push_str(token);
                screen.container.modify_element(1, |w| match w {
                    Widgets::Text(mut t) => {
                        let mut with = t.get_text();
                        with.push_str(token);
                        t.set_text(&with);
                        Widgets::Text(t)
                    },
                    other => other,
                });
            },
        }
    }
    assert!(!exit);
    assert_eq!(shown, "7+3".to_string());
    if let Widgets::Text(t) = &screen.container.content[1] {
        assert_eq!(t.get_text(), "7+3".to_string());
    } else {
        panic!("child 1 should be the display text");
    }
    // the exit button still works
    screen.handle_event(mouse_down(1, 1));
    assert_eq!(screen.get_message(), Some(vec!["exit".to_string()]));
}

/// A text with a click message emits it; one without mutates itself
/// as the debug affordance.
#[test]
fn text_click_paths() {
    let mut with_msg = Text::new("label", abs_style(5, 1)).on_click("hit");
    let m = with_msg.handle_input_event(mouse_down(0, 0));
    assert_eq!(m, vec![vec!["hit".to_string()]]);
    assert_eq!(with_msg.get_text(), "label".to_string());
    let mut without = Text::new("label", abs_style(5, 1));
    let m2 = without.handle_input_event(mouse_down(0, 0));
    assert!(m2.is_empty());
    assert_eq!(without.get_text(), "clicked".to_string());
}

/// Draw lays the tree out and composites it into the canvas at the
/// children's resolved rectangles.
#[test]
fn draw_composites_tree_into_canvas() {
    let t = Widgets::Text(Text::new("hi", abs_style(2, 1)));
    let root = Container::new(ContainerKind::Row, vec![t], fill_style());
    let mut screen = Screen::new(root, 6, 2);
    screen.clear();
    screen.draw();
    assert_eq!(screen.canvas[0], vec!['h', 'i', ' ', ' ', ' ', ' ']);
    assert_eq!(screen.canvas[1], vec![' ', ' ', ' ', ' ', ' ', ' ']);
}

/// A cloned snapshot is independent of later mutation, as the
/// update/view loop relies on.
#[test]
fn clone_is_an_independent_snapshot() {
    let t = Widgets::Text(Text::new("keep", abs_style(4, 1)));
    let mut c = Container::new(ContainerKind::Row, vec![t], abs_style(8, 2));
    let snapshot = c.clone();
    c.modify_element(0, |w| match w {
        Widgets::Text(mut t) => {
            t.set_text("gone");
            Widgets::Text(t)
        },
        other => other,
    });
    if let (Widgets::Text(orig), Widgets::Text(copy)) = (&c.content[0], &snapshot.content[0]) {
        assert_eq!(orig.get_text(), "gone".to_string());
        assert_eq!(copy.get_text(), "keep".to_string());
    } else {
        panic!("both children should be texts");
    }
}

/// push appends a child at the end of the sequence.
#[test]
fn push_appends_child() {
    let mut c = Container::new(ContainerKind::Row, vec![], abs_style(8, 2));
    assert_eq!(c.content.len(), 0);
    c.push(Widgets::Button(Button::new("b", abs_style(2, 1))));
    assert_eq!(c.content.len(), 1);
}
