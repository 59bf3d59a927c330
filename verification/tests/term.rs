use rush::shell::{Editor, Verdict};
use rush::term::{ArrowDirection, Key};
use rush::term::ansi::{
    cursor_column, cursor_down, cursor_last_line, cursor_left, cursor_move, cursor_next_line,
    cursor_right, cursor_up, effect, erase, erase_line, scroll_down, scroll_up, ClearType, Color,
    Effect,
};
use rush::term::kitty::{reset_underline_color, set_underline, set_underline_color, Underline};
use rush::term::newline;
use rush::term::xterm::{
    query_color, query_x_property, remove_x_property, restore_title, set_icon, set_icon_and_title,
    set_title, set_x_property,
};

#[test]
fn cursor_commands() {
    assert_eq!(cursor_up(3), "\x1b[3A");
    assert_eq!(cursor_down(0), "\x1b[0B");
    assert_eq!(cursor_right(12), "\x1b[12C");
    assert_eq!(cursor_left(1), "\x1b[1D");
    assert_eq!(cursor_next_line(2), "\x1b[2E");
    assert_eq!(cursor_last_line(2), "\x1b[2F");
    assert_eq!(cursor_column(80), "\x1b[80G");
    assert_eq!(cursor_move(10, 205), "\x1b[10;205H");
    assert_eq!(scroll_down(1), "\x1b[1S");
    assert_eq!(scroll_up(1), "\x1b[1T");
    assert_eq!(cursor_up(usize::MAX), format!("\x1b[{}A", usize::MAX));
}

#[test]
fn erase_commands() {
    assert_eq!(erase(ClearType::AfterCursor), "\x1b[0K");
    assert_eq!(erase(ClearType::BeforeCursor), "\x1b[1K");
    assert_eq!(erase_line(ClearType::Everything), "\x1b[2K");
    assert_eq!(erase_line(ClearType::EverthingAndReset), "\x1b[3K");
    assert_eq!(newline(), "\x1b[1S\x1b[1B\x1b[2K\x1b[1G");
}

#[test]
fn effects() {
    assert_eq!(effect(Effect::Reset), "\x1b[0m");
    assert_eq!(effect(Effect::Bold), "\x1b[1m");
    assert_eq!(effect(Effect::StrikeThrough), "\x1b[9m");
    assert_eq!(effect(Effect::UnsetIdeogram), "\x1b[65m");
    assert_eq!(effect(Effect::Background(0)), "\x1b[40m");
    assert_eq!(effect(Effect::Background(7)), "\x1b[47m");
    assert_eq!(effect(Effect::Background(8)), "\x1b[100m");
    assert_eq!(effect(Effect::Background(15)), "\x1b[107m");
    assert_eq!(effect(Effect::Background(16)), "\x1b[48;5;16m");
    assert_eq!(effect(Effect::Foreground(3)), "\x1b[33m");
    assert_eq!(effect(Effect::Foreground(9)), "\x1b[91m");
    assert_eq!(effect(Effect::Foreground(255)), "\x1b[38;5;255m");
    assert_eq!(effect(Effect::BackgroundCustom(1, 20, 255)), "\x1b[48;2;1;20;255m");
    assert_eq!(effect(Effect::ForegroundCustom(0, 0, 0)), "\x1b[38;2;0;0;0m");
    assert_eq!(effect(Effect::Font(0)), "\x1b[11m");
    assert_eq!(effect(Effect::Font(9)), "\x1b[20m");
    assert_eq!(effect(Effect::Font(255)), "\x1b[266m");
    assert_eq!(effect(Effect::DefaultFont), "\x1b[10m");
    assert_eq!(effect(Effect::DefaultBackground), "\x1b[49m");
    assert_eq!(effect(Effect::DefaultForeground), "\x1b[39m");
}

#[test]
fn operating_system_commands() {
    assert_eq!(set_icon_and_title("rush"), "\x1b]0;rush\x1b\\");
    assert_eq!(set_icon("rush"), "\x1b]1;rush\x1b\\");
    assert_eq!(set_title("a title"), "\x1b]2;a title\x1b\\");
    assert_eq!(restore_title(), "\x1b]2;\x1b\\");
    assert_eq!(set_x_property("KEY", "value"), "\x1b]3;KEY=value\x1b\\");
    assert_eq!(remove_x_property("KEY"), "\x1b]3;KEY\x1b\\");
    assert_eq!(query_x_property("KEY"), "\x1b]3;?KEY\x1b\\");
    assert_eq!(query_color(12), "\x1b]4;?;12\x1b\\");
}

#[test]
fn underlines() {
    assert_eq!(set_underline(Underline::Off), "\x1b[4:0m");
    assert_eq!(set_underline(Underline::Straight), "\x1b[4:1m");
    assert_eq!(set_underline(Underline::Double), "\x1b[4:2m");
    assert_eq!(set_underline(Underline::Curly), "\x1b[4:3m");
    assert_eq!(set_underline(Underline::Dotted), "\x1b[4:4m");
    assert_eq!(set_underline(Underline::Dashed), "\x1b[4:5m");
    assert_eq!(set_underline_color(Color::from(9)), "\x1b[58;5;9m");
    assert_eq!(set_underline_color(Color::from((1, 2, 3))), "\x1b[58;2;1;2;3m");
    assert_eq!(reset_underline_color(), "\x1b[59m");
}

fn type_in(editor: &mut Editor, text: &str) {
    for c in text.chars() {
        assert_eq!(editor.press(Key::Ascii(c)), Verdict::Editing);
    }
}

#[test]
fn editor_edits_at_the_cursor() {
    let mut editor = Editor::new();
    editor.begin();
    type_in(&mut editor, "helo");
    editor.press(Key::Arrow(ArrowDirection::Left));
    type_in(&mut editor, "l");
    assert_eq!(editor.line(), "hello");
    assert_eq!(editor.offset(), 1);
    editor.press(Key::Delete);
    assert_eq!(editor.line(), "helo");
    for _ in 0..10 {
        editor.press(Key::Arrow(ArrowDirection::Left));
    }
    assert_eq!(editor.offset(), 4);
    editor.press(Key::Delete);
    assert_eq!(editor.line(), "helo");
    type_in(&mut editor, ">");
    assert_eq!(editor.line(), ">helo");
    for _ in 0..10 {
        editor.press(Key::Arrow(ArrowDirection::Right));
    }
    assert_eq!(editor.offset(), 0);
    editor.press(Key::Escape);
    assert_eq!(editor.line(), ">helo^[");
    assert_eq!(editor.press(Key::Invalid(200)), Verdict::Editing);
    assert_eq!(editor.press(Key::Newline), Verdict::Submit);
    assert_eq!(editor.line(), ">helo^[");
}

#[test]
fn editor_goes_through_the_history() {
    let mut editor = Editor::new();
    editor.remember("first");
    editor.remember("second");
    editor.begin();
    type_in(&mut editor, "new");
    editor.press(Key::Arrow(ArrowDirection::Left));
    editor.press(Key::Arrow(ArrowDirection::Up));
    assert_eq!(editor.line(), "second");
    assert_eq!(editor.offset(), 0);
    editor.press(Key::Arrow(ArrowDirection::Up));
    assert_eq!(editor.line(), "first");
    editor.press(Key::Arrow(ArrowDirection::Up));
    assert_eq!(editor.line(), "first");
    editor.press(Key::Arrow(ArrowDirection::Down));
    assert_eq!(editor.line(), "second");
    editor.press(Key::Arrow(ArrowDirection::Down));
    assert_eq!(editor.line(), "second");
}

#[test]
fn editor_ends_and_interrupts() {
    let mut editor = Editor::new();
    editor.begin();
    assert_eq!(editor.press(Key::Control('D')), Verdict::Exit);
    type_in(&mut editor, "x");
    assert_eq!(editor.press(Key::Control('D')), Verdict::Editing);
    assert_eq!(editor.press(Key::Control('A')), Verdict::Editing);
    assert_eq!(editor.line(), "x");
    assert_eq!(editor.press(Key::Control('C')), Verdict::Interrupt);
    assert_eq!(editor.line(), "");
}
