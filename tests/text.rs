use termgrid::color::{black, blue, green, red, rgb, white, yellow};
use termgrid::text::{styled_text, StyledText, TextStyle};
use termgrid::width::char_cols;

#[test]
fn widths_count_display_columns() {
    let t = styled_text("ab\n中文x");
    assert_eq!(t.width_chars(), 5);
    assert_eq!(t.height_lines(), 2);
}

#[test]
fn wrap_rows_are_ceiling_of_width_over_limit() {
    let t = styled_text("abcdefg");
    assert_eq!(t.wrapped_height_lines(3), 3);
    assert_eq!(t.wrapped_height_lines(7), 1);
    assert_eq!(t.wrapped_height_lines(1), 7);
    assert_eq!(t.wrapped_width_chars(3), 3);
    assert_eq!(t.wrapped_width_chars(0), 7);
}

#[test]
fn wide_glyphs_wrap_whole() {
    let t = styled_text("中中中");
    assert_eq!(t.wrapped_height_lines(3), 3);
    assert_eq!(t.wrapped_height_lines(4), 2);
}

#[test]
fn runs_join_across_boundaries() {
    let t = StyledText::empty().push_plain("ab").push_run("c\nd", TextStyle::new().bold());
    assert_eq!(t.width_chars(), 3);
    assert_eq!(t.height_lines(), 2);
    assert!(t.runs[1].style.bold);
}

#[test]
fn char_columns() {
    assert_eq!(char_cols('a'), 1);
    assert_eq!(char_cols('中'), 2);
    assert_eq!(char_cols('\n'), 0);
}

#[test]
fn named_colors() {
    assert_eq!(rgb(0x102030).g, 0x20);
    assert_eq!(red().r, 255);
    assert_eq!(green().g, 255);
    assert_eq!(blue().b, 255);
    assert_eq!(yellow().g, 255);
    assert_eq!(black().r, 0);
    assert_eq!(white().b, 255);
}
