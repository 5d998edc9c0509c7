use bevy_doryen::color::{Color, DEFAULT_FORE};
use bevy_doryen::console::{Console, DEFAULT_BACK, DEFAULT_GLYPH};
use bevy_doryen::text::TextAlign;

const RED: Color = (255, 92, 92, 255);
const BLUE: Color = (192, 192, 255, 255);
const GREEN: Color = (0, 255, 0, 255);

fn row(con: &Console, y: i32) -> String {
    (0..con.get_width() as i32)
        .map(|x| char::from_u32(con.get_cell(x, y).unwrap().glyph as u32).unwrap())
        .collect()
}

fn console() -> Console {
    let mut con = Console::new(0, 0, 20, 3);
    con.register_color("red", RED);
    con.register_color("blue", BLUE);
    con
}

#[test]
fn tagged_glyphs_take_tag_colors_and_keep_background() {
    let mut con = console();
    con.back(3, 1, GREEN);
    con.print_color(3, 1, "#[red]A#[]B", TextAlign::Left, None);
    let a = con.get_cell(3, 1).unwrap();
    let b = con.get_cell(4, 1).unwrap();
    assert_eq!((a.glyph, a.fore, a.back), ('A' as u16, RED, GREEN));
    assert_eq!((b.glyph, b.fore, b.back), ('B' as u16, DEFAULT_FORE, DEFAULT_BACK));
    assert_eq!(con.get_cell(5, 1).unwrap().glyph, DEFAULT_GLYPH);
}

#[test]
fn center_ignores_tags_before_text() {
    let mut plain = console();
    plain.print_color(10, 0, "abcde", TextAlign::Center, None);
    let mut tagged = console();
    tagged.print_color(10, 0, "#[red]#[blue]abcde", TextAlign::Center, None);
    assert_eq!(row(&plain, 0), "        abcde       ");
    assert_eq!(row(&tagged, 0), row(&plain, 0));
    assert_eq!(tagged.get_cell(8, 0).unwrap().fore, BLUE);
    let mut even = console();
    even.print_color(10, 0, "#[red]ab#[]cd", TextAlign::Center, None);
    assert_eq!(row(&even, 0), "        abcd        ");
}

#[test]
fn right_alignment_ends_at_column() {
    let mut con = console();
    con.print_color(5, 0, "#[red]abc", TextAlign::Right, None);
    assert_eq!(row(&con, 0), "   abc              ");
}

#[test]
fn max_width_truncates_without_ellipsis() {
    let mut con = console();
    con.print_color(0, 0, "#[red]abc#[blue]def", TextAlign::Left, Some(4));
    assert_eq!(row(&con, 0), "abcd                ");
    assert_eq!(con.get_cell(3, 0).unwrap().fore, BLUE);
    con.print_color(0, 1, "ab", TextAlign::Left, Some(10));
    assert_eq!(row(&con, 1), "ab                  ");
}

#[test]
fn text_is_clipped_not_shifted() {
    let mut con = console();
    con.print_color(-2, 0, "abcdef", TextAlign::Left, None);
    assert_eq!(row(&con, 0), "cdef                ");
    con.print_color(18, 1, "xyz", TextAlign::Left, None);
    assert_eq!(row(&con, 1), "                  xy");
}

#[test]
fn unknown_color_falls_back_to_default() {
    let mut con = console();
    con.print_color(0, 0, "#[red]a#[pink]b", TextAlign::Left, None);
    assert_eq!(con.get_cell(0, 0).unwrap().fore, RED);
    assert_eq!(con.get_cell(1, 0).unwrap().fore, DEFAULT_FORE);
}

#[test]
fn unterminated_tag_is_literal_text() {
    let mut con = console();
    con.print_color(0, 0, "#[red]ab#[blue", TextAlign::Left, None);
    assert_eq!(row(&con, 0), "ab#[blue            ");
    assert_eq!(con.get_cell(2, 0).unwrap().fore, RED);
    assert_eq!(con.text_color_len("#[red]ab#[blue"), 8);
}

#[test]
fn text_color_len_strips_tags() {
    let con = console();
    assert_eq!(con.text_color_len("#[red]red text with a #[blue]blue#[] word"), 25);
    assert_eq!(con.text_color_len("normal string"), 13);
    assert_eq!(con.text_color_len(""), 0);
}

#[test]
fn color_spans_give_each_glyph_its_color() {
    let con = console();
    let spans = con.color_spans("x#[blue]y#[]z");
    assert_eq!(spans, vec![('x', DEFAULT_FORE), ('y', BLUE), ('z', DEFAULT_FORE)]);
}
