use matrix_rain::glyphs::char_set;
use matrix_rain::palette::{CellStyle, Ink};
use matrix_rain::terminal::menu::{
    menu_bounds, menu_hint, menu_layout, menu_title, value_padding, Action, Key, Settings,
};
use matrix_rain::terminal::screen::{drawn_positions, stale_positions, Screen};
use matrix_rain::terminal::stream::RainStream;

fn open_menu() -> Settings {
    let mut s = Settings::new();
    assert_eq!(s.handle_key(Key::Esc), Action::OpenMenu);
    s
}

#[test]
fn settings_start_at_normal_presets() {
    let s = Settings::new();
    assert_eq!(s.theme_idx, 0);
    assert_eq!(s.speed_idx, 1);
    assert_eq!(s.density_idx, 1);
    assert!(!s.menu_open);
    assert_eq!(s.frame_millis(), 28);
    assert_eq!(s.poll_millis(), 28);
    assert_eq!(s.density(), 55);
}

#[test]
fn quit_keys_with_menu_closed() {
    let mut s = Settings::new();
    assert_eq!(s.handle_key(Key::Char('q', false)), Action::Quit);
    assert_eq!(s.handle_key(Key::Char('Q', false)), Action::Quit);
    assert_eq!(s.handle_key(Key::Char('c', true)), Action::Quit);
    assert_eq!(s.handle_key(Key::Char('c', false)), Action::Frame);
    assert_eq!(s.handle_key(Key::Up), Action::Frame);
    assert_eq!(s, Settings::new());
}

#[test]
fn quit_keys_with_menu_open() {
    let mut s = open_menu();
    assert_eq!(s.handle_key(Key::Char('q', false)), Action::Quit);
    assert_eq!(s.handle_key(Key::Char('Q', false)), Action::Quit);
    assert_eq!(s.handle_key(Key::Char('x', false)), Action::Frame);
    assert!(s.menu_open);
    assert_eq!(s.menu_sel, 0);
}

#[test]
fn escape_opens_menu_on_first_item() {
    let mut s = Settings::new();
    s.menu_sel = 3;
    assert_eq!(s.handle_key(Key::Esc), Action::OpenMenu);
    assert!(s.menu_open);
    assert_eq!(s.menu_sel, 0);
    assert_eq!(s.poll_millis(), 50);
}

#[test]
fn menu_navigation_wraps() {
    let mut s = open_menu();
    assert_eq!(s.handle_key(Key::Up), Action::Frame);
    assert_eq!(s.menu_sel, 4);
    assert_eq!(s.handle_key(Key::Down), Action::Frame);
    assert_eq!(s.menu_sel, 0);
    for _ in 0..5 {
        s.handle_key(Key::Down);
    }
    assert_eq!(s.menu_sel, 0);
}

#[test]
fn left_right_cycle_options() {
    let mut s = open_menu();
    assert_eq!(s.handle_key(Key::Left), Action::Frame);
    assert_eq!(s.theme_idx, 7);
    assert_eq!(s.handle_key(Key::Right), Action::Frame);
    assert_eq!(s.theme_idx, 0);
    s.handle_key(Key::Down);
    assert_eq!(s.handle_key(Key::Right), Action::Frame);
    assert_eq!(s.speed_idx, 2);
    assert_eq!(s.frame_millis(), 14);
    s.handle_key(Key::Down);
    assert_eq!(s.handle_key(Key::Right), Action::Respawn);
    assert_eq!(s.density_idx, 2);
    assert_eq!(s.density(), 92);
    assert_eq!(s.handle_key(Key::Right), Action::Respawn);
    assert_eq!(s.density(), 184);
    assert_eq!(s.handle_key(Key::Right), Action::Respawn);
    assert_eq!(s.density(), 20);
    s.handle_key(Key::Down);
    assert_eq!(s.handle_key(Key::Left), Action::Frame);
    assert_eq!(s.theme_idx, 0);
}

#[test]
fn enter_resumes_or_quits() {
    let mut s = open_menu();
    assert_eq!(s.handle_key(Key::Enter), Action::Frame);
    assert!(s.menu_open);
    s.handle_key(Key::Up);
    assert_eq!(s.handle_key(Key::Enter), Action::Quit);
    s.handle_key(Key::Up);
    assert_eq!(s.handle_key(Key::Enter), Action::Resume);
    assert!(!s.menu_open);
    let mut t = open_menu();
    assert_eq!(t.handle_key(Key::Esc), Action::Resume);
    assert!(!t.menu_open);
}

#[test]
fn highlighted_quit_row_shows_only_its_label() {
    let mut s = open_menu();
    s.handle_key(Key::Up);
    let l = menu_layout(24, 80).unwrap();
    let rows = s.menu_rows(l);
    assert!(rows[4].selected);
    let text: String = rows[4].text.iter().collect();
    assert_eq!(text, format!("{:<47}", "  ▸ Quit"));
}

#[test]
fn menu_box_geometry() {
    assert_eq!(menu_hint().chars().count(), 43);
    assert_eq!(menu_title().chars().count(), 9);
    assert_eq!(menu_bounds(24, 80), Some((5, 15, 17, 63)));
    assert_eq!(menu_bounds(13, 49), Some((0, 0, 12, 48)));
    assert_eq!(menu_bounds(12, 80), None);
    assert_eq!(menu_bounds(24, 48), None);
    let l = menu_layout(24, 80).unwrap();
    assert_eq!((l.top, l.left, l.box_w, l.box_h, l.inner_w), (5, 15, 49, 13, 47));
    assert_eq!(l.title_x(), 35);
    assert_eq!(l.hint_x(), 18);
    assert_eq!(l.hint_y(), 16);
}

#[test]
fn menu_rows_text() {
    let mut s = open_menu();
    s.handle_key(Key::Down);
    let l = menu_layout(24, 80).unwrap();
    let rows = s.menu_rows(l);
    assert_eq!(rows.len(), 5);
    assert_eq!(rows[0].label, "Color Theme");
    assert_eq!(rows[0].value, "Green");
    assert!(!rows[0].selected);
    assert!(rows[1].selected);
    assert_eq!(rows[1].value, "Normal");
    assert_eq!(rows[1].padding, 47 - (5 + 5 + 6 + 4));
    assert_eq!(rows[0].padding, 47 - (11 + 5 + 5 + 4));
    assert_eq!(rows[3].label, "Resume");
    assert_eq!(rows[3].value, "");
    assert_eq!((rows[4].x, rows[4].y), (16, 13));
    let text = |i: usize| rows[i].text.iter().collect::<String>();
    assert_eq!(text(0), format!("{:<47}", "    Color Theme:  Green"));
    assert_eq!(text(1), format!("  ▸ Speed:{}◂ Normal ▸", " ".repeat(27)));
    assert_eq!(text(3), format!("{:<47}", "    Resume"));
    for row in &rows {
        assert_eq!(row.text.len(), 47);
    }
    assert_eq!(value_padding(10, 20, 5), 0);
    assert_eq!(value_padding(30, 5, 6), 10);
}

fn test_stream(y: i32, chars: &str) -> RainStream {
    let cs: Vec<char> = chars.chars().collect();
    let n = cs.len();
    RainStream {
        col: 7,
        height: 24,
        max_len: 23,
        min_len: 5,
        length: 10,
        y,
        speed: 3,
        chars: cs,
        glitch_ttl: vec![0; n],
        counter: 0,
        glitch_rate: 2500,
        charset: char_set(),
    }
}

#[test]
fn fresh_stream_bounds() {
    let cs = char_set();
    for _ in 0..200 {
        let s = RainStream::new(3, 24, cs.clone());
        assert_eq!(s.col, 3);
        assert_eq!(s.min_len, 5);
        assert_eq!(s.max_len, 23);
        assert!(5 <= s.length && s.length <= 23);
        assert!(-(s.length as i32) - 5 <= s.y && s.y <= -1);
        assert!(1 <= s.speed && s.speed <= 8);
        assert!(!s.chars.is_empty() && s.chars.len() <= (s.length / 2).max(1));
        assert_eq!(s.glitch_ttl.len(), s.chars.len());
        assert!(s.glitch_ttl.iter().all(|t| *t == 0));
        assert!(s.chars.iter().all(|c| cs.contains(c)));
        assert!(2500 <= s.glitch_rate && s.glitch_rate < 10000);
        assert_eq!(s.counter, 0);
    }
}

#[test]
fn tiny_screen_stream_length() {
    let s = RainStream::new(0, 1, char_set());
    assert_eq!(s.min_len, 3);
    assert_eq!(s.max_len, 3);
    assert_eq!(s.length, 3);
    let t = RainStream::new(0, 200, char_set());
    assert_eq!(t.max_len, 42);
}

#[test]
fn stream_waits_for_its_speed() {
    let mut s = test_stream(4, "abc");
    s.update();
    assert_eq!(s.counter, 1);
    assert_eq!(s.y, 4);
    assert_eq!(s.chars.len(), 3);
    s.update();
    assert_eq!(s.y, 4);
    s.update();
    assert_eq!(s.y, 5);
    assert_eq!(s.counter, 0);
    assert_eq!(s.chars.len(), 4);
    assert_eq!(s.glitch_ttl.len(), 4);
}

#[test]
fn stream_tail_is_cut_to_length() {
    let mut s = test_stream(4, "abcdefghij");
    s.counter = 2;
    s.update();
    assert_eq!(s.y, 5);
    assert_eq!(s.chars.len(), 10);
}

#[test]
fn stream_resets_past_the_bottom() {
    let mut s = test_stream(24 + 10 + 1, "abc");
    s.counter = 2;
    s.update();
    assert!(s.y < 0);
    assert_eq!(s.counter, 0);
    assert!(s.glitch_ttl.iter().all(|t| *t == 0));
    assert!(5 <= s.length && s.length <= 23);
}

#[test]
fn glitching_glyphs_count_down() {
    let mut s = test_stream(4, "abc");
    s.glitch_ttl = vec![5, 1, 0];
    s.update();
    assert_eq!(s.glitch_ttl[0], 4);
    assert_eq!(s.chars[0], 'a');
    assert_eq!(s.glitch_ttl[1], 0);
}

#[test]
fn plan_cells_rows_and_styles() {
    let s = test_stream(5, "abc");
    let cells = s.plan_cells(None);
    assert_eq!(cells.len(), 3);
    assert_eq!((cells[0].row, cells[0].col, cells[0].ch), (5, 7, 'a'));
    assert_eq!(cells[0].style, CellStyle { ink: Ink::White, bold: true });
    assert_eq!((cells[2].row, cells[2].ch), (3, 'c'));
    for c in &cells[1..] {
        let sparkle = CellStyle { ink: Ink::White, bold: true };
        assert!(c.style == sparkle || c.style.ink != Ink::White);
    }
    assert!(cells[1].style == CellStyle { ink: Ink::Theme(0), bold: true } || cells[1].style.ink == Ink::White);
}

#[test]
fn plan_cells_skip_offscreen_and_excluded() {
    let s = test_stream(1, "abc");
    let cells = s.plan_cells(None);
    assert_eq!(cells.iter().map(|c| c.row).collect::<Vec<_>>(), vec![1, 0]);
    let t = test_stream(5, "abc");
    let cells = t.plan_cells(Some((4, 0, 4, 10)));
    assert_eq!(cells.iter().map(|c| c.row).collect::<Vec<_>>(), vec![5, 3]);
    let cells = t.plan_cells(Some((0, 8, 30, 10)));
    assert_eq!(cells.len(), 3);
    let below = test_stream(30, "abc");
    assert!(below.plan_cells(None).is_empty());
}

#[test]
fn screen_density_over_one_fills_every_column() {
    let s = Screen::new(80, 24, 184, char_set());
    assert_eq!(s.streams.len(), 80);
    for (k, st) in s.streams.iter().enumerate() {
        assert_eq!(st.col as usize, k);
        assert_eq!(st.height, 24);
    }
    assert!(s.free_columns().is_empty());
}

#[test]
fn tiny_screens_have_no_streams() {
    assert!(Screen::new(80, 2, 184, char_set()).streams.is_empty());
    assert!(Screen::new(0, 24, 184, char_set()).streams.is_empty());
}

#[test]
fn screen_columns_are_distinct() {
    let mut s = Screen::new(60, 20, 55, char_set());
    for _ in 0..300 {
        s.frame(None);
        s.spawn_burst();
        s.retain_on_screen();
        let mut cols: Vec<u16> = s.streams.iter().map(|t| t.col).collect();
        let n = cols.len();
        cols.sort();
        cols.dedup();
        assert_eq!(cols.len(), n);
        assert!(cols.iter().all(|c| *c < 60));
    }
}

#[test]
fn free_columns_of_an_empty_screen() {
    let s = Screen::new(5, 20, 0, char_set());
    assert!(s.streams.is_empty());
    assert_eq!(s.free_columns(), vec![0, 1, 2, 3, 4]);
}

#[test]
fn resize_respawns_only_on_change() {
    let mut s = Screen::new(30, 20, 184, char_set());
    assert!(!s.resize(30, 20, 184));
    assert_eq!(s.streams.len(), 30);
    assert!(s.resize(40, 25, 184));
    assert_eq!(s.streams.len(), 40);
    assert!(s.streams.iter().all(|t| t.height == 25));
    assert!(s.resize(40, 2, 184));
    assert!(s.streams.is_empty());
}

#[test]
fn frame_plans_one_list_per_stream() {
    let mut s = Screen::new(10, 30, 184, char_set());
    for _ in 0..50 {
        let plans = s.frame(Some((0, 0, 29, 4)));
        assert_eq!(plans.len(), s.streams.len());
        for (p, st) in plans.iter().zip(s.streams.iter()) {
            for c in p {
                assert_eq!(c.col, st.col);
                assert!(c.row < 30);
                assert!(c.col > 4);
            }
        }
        let pos = drawn_positions(&plans);
        assert_eq!(pos.len(), plans.iter().map(|p| p.len()).sum::<usize>());
    }
}

#[test]
fn stale_positions_skip_redrawn_and_excluded() {
    let prev = vec![(1, 1), (2, 2), (3, 3), (4, 4)];
    let cur = vec![(2, 2)];
    assert_eq!(stale_positions(&prev, &cur, None), vec![(1, 1), (3, 3), (4, 4)]);
    assert_eq!(stale_positions(&prev, &cur, Some((3, 3, 5, 5))), vec![(1, 1)]);
    assert!(stale_positions(&Vec::new(), &cur, None).is_empty());
}

#[test]
fn picked_columns_follow_the_free_list() {
    let mut s = Screen::new(5, 20, 0, char_set());
    s.spawn_picked(&vec![1, 0]);
    assert_eq!(s.streams.iter().map(|t| t.col).collect::<Vec<_>>(), vec![1, 0]);
    assert_eq!(s.free_columns(), vec![2, 3, 4]);
    s.spawn_picked(&vec![2]);
    assert_eq!(s.streams.iter().map(|t| t.col).collect::<Vec<_>>(), vec![1, 0, 4]);
    // after taking index 0 of [2, 3], the last column moves into its place
    s.spawn_picked(&vec![0, 0]);
    assert_eq!(s.streams.iter().map(|t| t.col).collect::<Vec<_>>(), vec![1, 0, 4, 2, 3]);
    assert!(s.streams.iter().all(|t| t.height == 20 && t.counter == 0));
}

#[test]
fn stream_lengths_fit_the_screen() {
    let mut s = Screen::new(12, 40, 184, char_set());
    assert!(s.resize(12, 10, 184));
    assert_eq!(s.streams.len(), 12);
    for t in &s.streams {
        assert_eq!(t.max_len, 9);
        assert_eq!(t.min_len, 5);
        assert!(t.length <= 9);
    }
    assert!(s.resize(12, 10 + 1, 0));
    assert!(s.streams.is_empty());
}
