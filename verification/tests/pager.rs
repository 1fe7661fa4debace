use pager::blend::{blend_weight, MAX_WEIGHT};
use pager::color::{ink, parchment, shadow, Background, Cell, Rgb};
use pager::geom::Point;
use pager::layout::{first_line, wrap_lines};
use pager::viewport::{Action, App, Input};

fn doc(lines: &[&str]) -> App {
    App::new(lines.iter().map(|s| s.to_string()).collect())
}

fn text(grid: &[Cell]) -> String {
    grid.iter().map(|c| c.ch).collect()
}

fn chars(lines: &[&str]) -> Vec<Vec<char>> {
    lines.iter().map(|s| s.chars().collect()).collect()
}

fn wrapped(lines: &[&str], skip: usize, w: u16, h: u16) -> String {
    wrap_lines(&chars(lines), skip, w, h).into_iter().collect()
}

#[test]
fn palette_values() {
    assert_eq!(ink(), Rgb { r: 0, g: 0, b: 0 });
    assert_eq!(parchment(), Rgb { r: 0xF0, g: 0xE6, b: 0x8C });
    assert_eq!(shadow(), Rgb { r: 0x33, g: 0x33, b: 0x33 });
}

#[test]
fn new_starts_at_the_end() {
    let app = doc(&["a", "b", "c"]);
    assert_eq!(app.pos(), 3);
    assert_eq!(app.line_count(), 3);
    assert!(!app.enabled());
    assert_eq!(app.pointer(), Point { x: 0, y: 0 });
    assert_eq!(Point::origin(), Point::new(0, 0));
}

#[test]
fn new_keeps_every_character() {
    let app = doc(&["héllo", "", "wörld!"]);
    let grid = app.draw_ui(6, 3);
    assert_eq!(text(&grid), "héllo       wörld!");
}

#[test]
fn scroll_up_saturates_at_zero() {
    let mut app = doc(&["a", "b", "c"]);
    app.scroll_up(1);
    assert_eq!(app.pos(), 2);
    app.scroll_up(5);
    assert_eq!(app.pos(), 0);
    app.scroll_up(usize::MAX);
    assert_eq!(app.pos(), 0);
}

#[test]
fn scroll_down_saturates_at_line_count() {
    let mut app = doc(&["a", "b", "c"]);
    app.scroll_up(3);
    app.scroll_down(2);
    assert_eq!(app.pos(), 2);
    app.scroll_down(2);
    assert_eq!(app.pos(), 3);
    app.scroll_down(usize::MAX);
    assert_eq!(app.pos(), 3);
}

#[test]
fn scroll_down_then_up_round_trips() {
    let mut app = doc(&["a", "b", "c", "d", "e"]);
    app.scroll_up(4);
    assert_eq!(app.pos(), 1);
    app.scroll_down(3);
    assert_eq!(app.pos(), 4);
    app.scroll_up(3);
    assert_eq!(app.pos(), 1);
}

#[test]
fn scroll_round_trip_fails_across_the_end() {
    let mut app = doc(&["a", "b", "c", "d", "e"]);
    app.scroll_up(1);
    app.scroll_down(3);
    app.scroll_up(3);
    assert_eq!(app.pos(), 2);
}

#[test]
fn scrolls_stay_in_bounds() {
    let mut app = doc(&["a", "b", "c", "d"]);
    let steps: [(bool, usize); 8] = [
        (true, 1),
        (false, 9),
        (true, 100),
        (true, 0),
        (false, 2),
        (false, usize::MAX),
        (true, 3),
        (true, usize::MAX),
    ];
    for (up, delta) in steps {
        if up {
            app.scroll_up(delta);
        } else {
            app.scroll_down(delta);
        }
        assert!(app.pos() <= app.line_count());
    }
    assert_eq!(app.pos(), 0);
}

#[test]
fn toggle_twice_gives_the_same_grid() {
    let mut app = doc(&["hello", "spot", "light"]);
    app.set_pointer(Point::new(2, 1));
    app.scroll_up(1);
    let before = app.draw_ui(4, 5);
    app.toggle_spotlight();
    assert!(app.enabled());
    let lit = app.draw_ui(4, 5);
    assert_ne!(before, lit);
    app.toggle_spotlight();
    assert!(!app.enabled());
    assert_eq!(app.draw_ui(4, 5), before);
}

#[test]
fn empty_document_is_all_filler() {
    let mut app = App::new(Vec::new());
    assert_eq!(app.pos(), 0);
    let grid = app.draw_ui(3, 2);
    assert_eq!(grid.len(), 6);
    for cell in &grid {
        assert_eq!(*cell, Cell { ch: ' ', fg: ink(), bg: Background::Plain(parchment()) });
    }
    app.toggle_spotlight();
    let grid = app.draw_ui(3, 2);
    assert_eq!(grid.len(), 6);
    for cell in &grid {
        assert_eq!(
            *cell,
            Cell {
                ch: ' ',
                fg: ink(),
                bg: Background::Mixed { base: parchment(), toward: shadow(), hundredths: 25 },
            }
        );
    }
}

#[test]
fn line_of_grid_width_takes_one_row() {
    assert_eq!(wrapped(&["abcd", "ef"], 0, 4, 3), "abcdef      ");
}

#[test]
fn line_one_over_grid_width_takes_two_rows() {
    assert_eq!(wrapped(&["abcde", "fg"], 0, 4, 3), "abcde   fg  ");
}

#[test]
fn line_of_twice_grid_width_takes_two_rows() {
    assert_eq!(wrapped(&["abcdefgh", "ij"], 0, 4, 3), "abcdefghij  ");
}

#[test]
fn empty_line_takes_one_row() {
    assert_eq!(wrapped(&["ab", "", "cd"], 0, 3, 3), "ab    cd ");
}

#[test]
fn hello_world_scenario() {
    let mut app = doc(&["hello", "world"]);
    assert_eq!(app.pos(), 2);
    assert_eq!(first_line(2, 2, 2), 0);
    let grid = app.draw_ui(5, 2);
    assert_eq!(grid.len(), 10);
    assert_eq!(text(&grid[0..5]), "hello");
    assert_eq!(text(&grid[5..10]), "world");

    app.scroll_up(1);
    assert_eq!(app.pos(), 1);
    assert_eq!(first_line(2, 1, 2), 0);
    let grid = app.draw_ui(5, 2);
    assert_eq!(text(&grid[0..5]), "hello");
    assert_eq!(text(&grid[5..10]), "world");

    app.scroll_up(1);
    assert_eq!(app.pos(), 0);
    assert_eq!(first_line(2, 0, 2), 1);
    let grid = app.draw_ui(5, 2);
    assert_eq!(text(&grid), "world     ");
}

#[test]
fn first_line_formula() {
    assert_eq!(first_line(10, 10, 4), 0);
    assert_eq!(first_line(10, 9, 4), 1);
    assert_eq!(first_line(10, 8, 4), 2);
    assert_eq!(first_line(10, 7, 4), 0);
    assert_eq!(first_line(10, 6, 4), 1);
    assert_eq!(first_line(10, 0, 4), 7);
    assert_eq!(first_line(10, 3, 0), 7);
    assert_eq!(first_line(10, 3, 1), 7);
    assert_eq!(first_line(0, 0, 5), 0);
}

#[test]
fn asymmetric_clamp_shows_in_the_grid() {
    let mut app = doc(&["l0", "l1", "l2", "l3", "l4"]);
    assert_eq!(text(&app.draw_ui(2, 3)), "l0l1l2");
    app.scroll_up(1);
    assert_eq!(text(&app.draw_ui(2, 3)), "l1l2l3");
    app.scroll_up(1);
    assert_eq!(text(&app.draw_ui(2, 3)), "l0l1l2");
    app.scroll_up(3);
    assert_eq!(app.pos(), 0);
    assert_eq!(text(&app.draw_ui(2, 3)), "l3l4  ");
}

#[test]
fn grid_cuts_what_does_not_fit() {
    assert_eq!(wrapped(&["abcdefghijkl", "mn"], 0, 3, 2), "abcdef");
    assert_eq!(wrapped(&["ab", "cd", "ef", "gh"], 1, 2, 2), "cdef");
    assert_eq!(wrapped(&["ab", "cd"], 2, 2, 2), "    ");
}

#[test]
fn zero_sized_grid_has_no_cells() {
    let app = doc(&["hello", "world"]);
    assert_eq!(app.draw_ui(0, 4).len(), 0);
    assert_eq!(app.draw_ui(4, 0).len(), 0);
    assert_eq!(app.draw_ui(0, 0).len(), 0);
}

#[test]
fn grid_is_row_major_and_complete() {
    let app = doc(&["abc", "d"]);
    let grid = app.draw_ui(2, 4);
    assert_eq!(grid.len(), 8);
    assert_eq!(text(&grid), "abc d   ");
}

#[test]
fn normal_mode_is_ink_on_parchment() {
    let app = doc(&["x"]);
    let cell = app.maybe_blend(Point::new(7, 9), 'x');
    assert_eq!(cell, Cell { ch: 'x', fg: ink(), bg: Background::Plain(parchment()) });
}

#[test]
fn far_pointer_gives_the_maximal_blend() {
    let mut app = doc(&["ab", "cd"]);
    app.toggle_spotlight();
    app.set_pointer(Point::new(1000, 1000));
    let grid = app.draw_ui(2, 2);
    assert_eq!(text(&grid), "abcd");
    for cell in &grid {
        assert_eq!(cell.fg, ink());
        assert_eq!(
            cell.bg,
            Background::Mixed { base: parchment(), toward: shadow(), hundredths: 25 }
        );
    }
}

#[test]
fn blend_weight_is_maximal_everywhere() {
    assert_eq!(MAX_WEIGHT, 25);
    assert_eq!(blend_weight(Point::new(0, 0), Point::new(0, 0)), 25);
    assert_eq!(blend_weight(Point::new(1, 0), Point::new(0, 0)), 25);
    assert_eq!(blend_weight(Point::new(3, 4), Point::new(1000, 1000)), 25);
    assert_eq!(blend_weight(Point::new(65535, 65535), Point::new(0, 0)), 25);
}

#[test]
fn handle_keys() {
    let mut app = doc(&["a", "b", "c", "d", "e", "f", "g", "h", "i", "j"]);
    assert_eq!(app.handle(Input::Down, 2), Action::Repaint);
    assert_eq!(app.pos(), 9);
    assert_eq!(app.handle(Input::PageDown, 2), Action::Repaint);
    assert_eq!(app.pos(), 5);
    assert_eq!(app.handle(Input::Up, 2), Action::Repaint);
    assert_eq!(app.pos(), 6);
    assert_eq!(app.handle(Input::PageUp, 1), Action::Repaint);
    assert_eq!(app.pos(), 8);
    assert_eq!(app.handle(Input::PageUp, 2), Action::Repaint);
    assert_eq!(app.pos(), 10);
    assert_eq!(app.handle(Input::Space, 2), Action::Repaint);
    assert!(app.enabled());
    assert_eq!(app.handle(Input::Space, 2), Action::Repaint);
    assert!(!app.enabled());
}

#[test]
fn handle_mouse() {
    let mut app = doc(&["a", "b", "c", "d", "e", "f", "g", "h", "i", "j"]);
    let at = Point::new(4, 2);
    assert_eq!(app.handle(Input::Mouse { at, wheel: None }, 2), Action::Repaint);
    assert_eq!(app.pointer(), at);
    assert_eq!(app.pos(), 10);
    assert_eq!(app.handle(Input::Mouse { at, wheel: Some(-1) }, 2), Action::Repaint);
    assert_eq!(app.pos(), 7);
    assert_eq!(app.handle(Input::Mouse { at, wheel: Some(-7) }, 2), Action::Repaint);
    assert_eq!(app.pos(), 4);
    let there = Point::new(1, 1);
    assert_eq!(app.handle(Input::Mouse { at: there, wheel: Some(1) }, 2), Action::Repaint);
    assert_eq!(app.pos(), 7);
    assert_eq!(app.pointer(), there);
    assert_eq!(app.handle(Input::Mouse { at, wheel: Some(0) }, 2), Action::Repaint);
    assert_eq!(app.pos(), 10);
}

#[test]
fn handle_quit_and_other_change_nothing() {
    let mut app = doc(&["a", "b"]);
    app.scroll_up(1);
    app.set_pointer(Point::new(3, 3));
    assert_eq!(app.handle(Input::Other, 5), Action::Ignore);
    assert_eq!(app.handle(Input::Quit, 5), Action::Quit);
    assert_eq!(app.pos(), 1);
    assert!(!app.enabled());
    assert_eq!(app.pointer(), Point::new(3, 3));
}

#[test]
fn rgb_codes() {
    assert_eq!(Rgb::from_u32(0xF0E68C), parchment());
    assert_eq!(Rgb::from_u32(0x333333), shadow());
    assert_eq!(Rgb::from_u32(0x000000), ink());
    assert_eq!(parchment().to_u32(), 0xF0E68C);
    assert_eq!(Rgb { r: 1, g: 2, b: 3 }.to_u32(), 0x010203);
    assert_eq!(Rgb::from_u32(0xFF010203), Rgb { r: 1, g: 2, b: 3 });
}

#[test]
fn skip_past_the_end_shows_nothing() {
    assert_eq!(wrapped(&["ab", "cd"], 7, 2, 2), "    ");
}
