use simple_tui::style::{Length, Padding, StyleSheet};
use simple_tui::text::Text;
use simple_tui::button::Button;
use simple_tui::input::Input;
use simple_tui::message::Message;
use simple_tui::{Position, Size};

fn abs_style(w: u64, h: u64) -> StyleSheet {
    StyleSheet {
        width: Length::Absolute(w),
        height: Length::Absolute(h),
        padding: Padding { x_start: 0, x_end: 0, y_start: 0, y_end: 0 },
    }
}

#[test]
fn text_measures_its_content() {
    let t = Text::new("ab\ncdef", abs_style(1, 1));
    assert_eq!(t.get_size(), Size { x: 4, y: 2 });
    let t2 = Text::new("", abs_style(1, 1));
    assert_eq!(t2.get_size(), Size { x: 0, y: 1 });
}

#[test]
fn text_renders_grid_of_its_size() {
    let mut t = Text::new("hi\nyo", abs_style(1, 1));
    t.set_size(Size { x: 3, y: 2 });
    let g = t.to_char_array();
    assert_eq!(g.len(), 2);
    assert_eq!(g[0], vec!['h', 'i', ' ']);
    assert_eq!(g[1], vec!['y', 'o', ' ']);
}

#[test]
fn text_set_text_remeasures() {
    let mut t = Text::new("a", abs_style(1, 1));
    t.set_text("abcd");
    assert_eq!(t.get_text(), "abcd".to_string());
    assert_eq!(t.get_size(), Size { x: 4, y: 1 });
}

#[test]
fn button_ring_unselected_and_selected() {
    let mut b = Button::new("ok", abs_style(4, 3));
    b.set_size(Size { x: 4, y: 3 });
    let g = b.to_char_array();
    assert_eq!(g[0], vec!['+', '+', '+', '+']);
    assert_eq!(g[1], vec!['+', 'o', 'k', '+']);
    assert_eq!(g[2], vec!['+', '+', '+', '+']);
    b.select(true);
    let g2 = b.to_char_array();
    assert_eq!(g2[0], vec!['#', '#', '#', '#']);
    assert_eq!(g2[1], vec!['#', 'o', 'k', '#']);
}

#[test]
fn input_shows_placeholder_then_text_and_password_mask() {
    let mut i = Input::new("type", "change", abs_style(6, 1)).with_cursor(false);
    i.set_size(Size { x: 6, y: 1 });
    let g = i.to_char_array();
    assert_eq!(g[0], vec!['t', 'y', 'p', 'e', ' ', ' ']);
    i.set_text("ab");
    i.set_size(Size { x: 6, y: 1 });
    let g2 = i.to_char_array();
    assert_eq!(g2[0], vec!['a', 'b', ' ', ' ', ' ', ' ']);
    let mut p = Input::new("", "change", abs_style(6, 1)).with_password().with_cursor(false);
    p.set_text("ab");
    p.set_size(Size { x: 6, y: 1 });
    let g3 = p.to_char_array();
    assert_eq!(g3[0], vec!['*', '*', ' ', ' ', ' ', ' ']);
}

#[test]
fn input_cursor_block_when_selected() {
    let mut i = Input::new("", "change", abs_style(6, 1));
    i.set_text("ab");
    i.set_size(Size { x: 6, y: 1 });
    i.select(true);
    let g = i.to_char_array();
    assert_eq!(g[0], vec!['a', 'b', '▉', ' ', ' ', ' ']);
}

#[test]
fn message_get_value_parses_and_rejects() {
    let m = Message::from_strings(vec!["add".to_string(), "42".to_string()]);
    let v: Result<i32, ()> = m.get_value(1);
    assert_eq!(v, Ok(42));
    let s: Result<String, ()> = m.get_value(0);
    assert_eq!(s, Ok("add".to_string()));
    let miss: Result<i32, ()> = m.get_value(5);
    assert_eq!(miss, Err(()));
    let bad: Result<i32, ()> = m.get_value(0);
    assert_eq!(bad, Err(()));
}

#[test]
fn builders_set_their_flags() {
    let t = Text::new("x", abs_style(1, 1)).on_click("hello");
    assert_eq!(t.onclick_message, Some("hello".to_string()));
    let b = Button::new("x", abs_style(1, 1)).on_click("fire");
    assert_eq!(b.onclick_message, Some("fire".to_string()));
    let i = Input::new("p", "m", abs_style(1, 1))
        .on_submit("go")
        .with_tab_blocker(true)
        .with_password();
    assert!(i.block_tab);
    assert!(i.is_password);
    assert_eq!(i.submit_msg, Some("go".to_string()));
    let d = StyleSheet::default();
    assert_eq!(d.width, Length::Relative(1, 4));
    assert_eq!(d.padding.x_start, 1);
    let p = Position { x: 2, y: 3 };
    let mut t2 = Text::new("x", abs_style(1, 1));
    t2.set_position(p);
    assert_eq!(t2.get_position(), p);
}
