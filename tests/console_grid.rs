use bevy_doryen::color::{Color, DEFAULT_FORE};
use bevy_doryen::console::{Cell, Console, DEFAULT_BACK, DEFAULT_GLYPH};

fn all_cells(con: &Console) -> Vec<Cell> {
    let mut out = Vec::new();
    for y in 0..con.get_height() as i32 {
        for x in 0..con.get_width() as i32 {
            out.push(con.get_cell(x, y).unwrap());
        }
    }
    out
}

const RED: Color = (255, 0, 0, 255);
const BLUE: Color = (0, 0, 255, 255);

#[test]
fn new_console_is_blank() {
    let con = Console::new(0, 0, 4, 3);
    assert_eq!(con.get_width(), 4);
    assert_eq!(con.get_height(), 3);
    let blank = Cell { glyph: DEFAULT_GLYPH, fore: DEFAULT_FORE, back: DEFAULT_BACK };
    assert!(all_cells(&con).iter().all(|c| *c == blank));
    assert_eq!(con.get_cell(4, 0), None);
    assert_eq!(con.get_cell(0, -1), None);
}

#[test]
fn set_cell_changes_only_given_fields() {
    let mut con = Console::new(0, 0, 4, 3);
    con.set_cell(1, 2, Some(65), None, Some(BLUE));
    let c = con.get_cell(1, 2).unwrap();
    assert_eq!(c, Cell { glyph: 65, fore: DEFAULT_FORE, back: BLUE });
    con.fore(1, 2, RED);
    con.ascii(1, 2, 66);
    con.back(1, 2, RED);
    assert_eq!(con.get_cell(1, 2).unwrap(), Cell { glyph: 66, fore: RED, back: RED });
}

#[test]
fn writes_outside_the_grid_change_nothing() {
    let mut con = Console::new(0, 0, 5, 4);
    con.area(1, 1, 2, 2, Some(RED), Some(BLUE), Some(35));
    let before = all_cells(&con);
    con.set_cell(-1, 0, Some(1), Some(RED), Some(RED));
    con.set_cell(5, 0, Some(1), Some(RED), Some(RED));
    con.set_cell(0, 4, Some(1), Some(RED), Some(RED));
    con.ascii(0, -3, 7);
    con.fore(100, 100, BLUE);
    con.back(i32::MIN, i32::MAX, BLUE);
    con.area(5, 0, 3, 3, Some(BLUE), Some(BLUE), Some(9));
    con.area(-3, -3, 3, 3, Some(BLUE), Some(BLUE), Some(9));
    con.rectangle(0, 4, 5, 2, Some(BLUE), Some(BLUE), Some(9));
    con.print_color(0, 4, "hello", bevy_doryen::text::TextAlign::Left, None);
    con.print_color(0, -1, "hello", bevy_doryen::text::TextAlign::Left, None);
    assert_eq!(all_cells(&con), before);
}

#[test]
fn area_is_clipped_to_the_grid() {
    let mut con = Console::new(0, 0, 4, 4);
    con.area(-1, 2, 3, 5, None, Some(RED), None);
    for y in 0..4 {
        for x in 0..4 {
            let c = con.get_cell(x, y).unwrap();
            let inside = x < 2 && y >= 2;
            assert_eq!(c.back, if inside { RED } else { DEFAULT_BACK });
            assert_eq!(c.glyph, DEFAULT_GLYPH);
            assert_eq!(c.fore, DEFAULT_FORE);
        }
    }
}

#[test]
fn rectangle_paints_only_the_border() {
    let mut con = Console::new(0, 0, 6, 6);
    con.rectangle(1, 1, 4, 3, Some(RED), None, Some(46));
    for y in 0..6 {
        for x in 0..6 {
            let c = con.get_cell(x, y).unwrap();
            let inside = (1..5).contains(&x) && (1..4).contains(&y);
            let border = inside && (x == 1 || x == 4 || y == 1 || y == 3);
            if border {
                assert_eq!((c.glyph, c.fore, c.back), (46, RED, DEFAULT_BACK));
            } else {
                assert_eq!((c.glyph, c.fore, c.back), (DEFAULT_GLYPH, DEFAULT_FORE, DEFAULT_BACK));
            }
        }
    }
}

#[test]
fn area_then_rectangle_last_write_wins_on_border() {
    let mut con = Console::new(0, 0, 8, 8);
    con.area(1, 1, 5, 4, Some(RED), Some(BLUE), Some(38));
    con.rectangle(1, 1, 5, 4, Some(BLUE), Some(RED), Some(46));
    for y in 0..8 {
        for x in 0..8 {
            let c = con.get_cell(x, y).unwrap();
            let inside = (1..6).contains(&x) && (1..5).contains(&y);
            let border = inside && (x == 1 || x == 5 || y == 1 || y == 4);
            let expected = if border {
                Cell { glyph: 46, fore: BLUE, back: RED }
            } else if inside {
                Cell { glyph: 38, fore: RED, back: BLUE }
            } else {
                Cell { glyph: DEFAULT_GLYPH, fore: DEFAULT_FORE, back: DEFAULT_BACK }
            };
            assert_eq!(c, expected, "cell {} {}", x, y);
        }
    }
}

#[test]
fn overlapping_writes_apply_in_call_order() {
    let mut con = Console::new(0, 0, 3, 3);
    con.area(0, 0, 2, 2, Some(RED), None, None);
    con.area(1, 1, 2, 2, Some(BLUE), None, None);
    assert_eq!(con.get_cell(0, 0).unwrap().fore, RED);
    assert_eq!(con.get_cell(1, 1).unwrap().fore, BLUE);
    assert_eq!(con.get_cell(2, 2).unwrap().fore, BLUE);
}

#[test]
fn register_color_overwrites() {
    let mut con = Console::new(0, 0, 2, 2);
    assert_eq!(con.lookup_color("red"), None);
    con.register_color("red", RED);
    con.register_color("blue", BLUE);
    assert_eq!(con.lookup_color("red"), Some(RED));
    con.register_color("red", (1, 2, 3, 4));
    assert_eq!(con.lookup_color("red"), Some((1, 2, 3, 4)));
    assert_eq!(con.lookup_color("blue"), Some(BLUE));
    assert_eq!(con.lookup_color("re"), None);
}

#[test]
fn pixel_to_pos_scales_linearly() {
    let con = Console::new(0, 0, 80, 45);
    let (x, y) = con.pixel_to_pos(0, 0, 100, 100);
    assert_eq!((x.trunc(), y.trunc()), (0, 0));
    assert_eq!((x.num, y.num), (0, 0));
    let (x, y) = con.pixel_to_pos(100, 100, 100, 100);
    assert_eq!((x.trunc(), y.trunc()), (80, 45));
    let (x, y) = con.pixel_to_pos(50, 10, 100, 100);
    assert_eq!((x.num, x.den), (4000, 100));
    assert_eq!((y.num, y.den), (450, 100));
    assert_eq!((x.trunc(), y.trunc()), (40, 4));
}
