//! The options of the terminal renderer: the key handling of the options
//! menu, the speed and density presets, and where the menu box is drawn.

use crate::palette::{theme_name, theme_name_spec, THEME_COUNT};
use vstd::arithmetic::div_mod::{lemma_mod_add_multiples_vanish, lemma_mod_self_0, lemma_small_mod};
use vstd::prelude::*;

verus! {

pub const SPEED_PRESET_COUNT: usize = 4;
pub const DENSITY_PRESET_COUNT: usize = 4;
/// Theme, speed, density, resume, quit.
pub const MENU_ITEM_COUNT: usize = 5;
/// How long the loop waits for a key while the menu is open, in milliseconds.
pub const MENU_POLL_MILLIS: u64 = 50;

/// The frame delay of speed preset `i`, in milliseconds.
pub open spec fn speed_millis_spec(i: int) -> u64 {
    if i == 0 { 56 } else if i == 1 { 28 } else if i == 2 { 14 } else { 7 }
}

/// The chance per column that a stream is spawned at density preset `i`, in
/// hundredths (a value of 100 or more spawns one in every column).
pub open spec fn density_percent_spec(i: int) -> u32 {
    if i == 0 { 20 } else if i == 1 { 55 } else if i == 2 { 92 } else { 184 }
}

pub open spec fn speed_name_spec(i: int) -> Seq<char> {
    if i == 0 { "Slow"@ } else if i == 1 { "Normal"@ } else if i == 2 { "Fast"@ } else { "Ludicrous"@ }
}

pub open spec fn density_name_spec(i: int) -> Seq<char> {
    if i == 0 { "Sparse"@ } else if i == 1 { "Normal"@ } else if i == 2 { "Dense"@ } else { "Downpour"@ }
}

pub fn speed_millis(i: usize) -> (ms: u64)
    requires
        i < SPEED_PRESET_COUNT,
    ensures
        ms == speed_millis_spec(i as int),
{
    if i == 0 { 56 } else if i == 1 { 28 } else if i == 2 { 14 } else { 7 }
}

pub fn density_percent(i: usize) -> (p: u32)
    requires
        i < DENSITY_PRESET_COUNT,
    ensures
        p == density_percent_spec(i as int),
{
    if i == 0 { 20 } else if i == 1 { 55 } else if i == 2 { 92 } else { 184 }
}

pub fn speed_name(i: usize) -> (s: &'static str)
    requires
        i < SPEED_PRESET_COUNT,
    ensures
        s@ == speed_name_spec(i as int),
{
    if i == 0 { "Slow" } else if i == 1 { "Normal" } else if i == 2 { "Fast" } else { "Ludicrous" }
}

pub fn density_name(i: usize) -> (s: &'static str)
    requires
        i < DENSITY_PRESET_COUNT,
    ensures
        s@ == density_name_spec(i as int),
{
    if i == 0 { "Sparse" } else if i == 1 { "Normal" } else if i == 2 { "Dense" } else { "Downpour" }
}

/// A key press, as the rain loop sees it.
#[derive(Clone, Copy, Debug, PartialEq, Eq, Structural)]
pub enum Key {
    Esc,
    Enter,
    Up,
    Down,
    Left,
    Right,
    /// A character key, and whether Control was held.
    Char(char, bool),
    Other,
}

/// What the rain loop does after a key press.
#[derive(Clone, Copy, Debug, PartialEq, Eq, Structural)]
pub enum Action {
    /// Leave the loop.
    Quit,
    /// The menu was closed: clear the screen, forget the drawn cells and
    /// start the next iteration without drawing a frame.
    Resume,
    /// The menu was opened: start the next iteration without drawing a frame.
    OpenMenu,
    /// The density changed: spawn the streams anew, clear the screen and
    /// forget the drawn cells, then draw the frame.
    Respawn,
    /// Draw the frame.
    Frame,
}

/// The options and the state of the options menu.
#[derive(Clone, Copy, Debug, PartialEq, Eq, Structural)]
pub struct Settings {
    pub theme_idx: usize,
    pub speed_idx: usize,
    pub density_idx: usize,
    pub menu_open: bool,
    /// The highlighted menu item: theme, speed, density, resume or quit.
    pub menu_sel: usize,
}

/// Index `i` moved one step back (`forward` false) or forward in a ring of `n`.
pub open spec fn cycle(i: usize, n: usize, forward: bool) -> usize {
    if forward { ((i + 1) % (n as int)) as usize } else { ((i + n - 1) % (n as int)) as usize }
}

/// The settings after key `k`.
pub open spec fn next_settings(s: Settings, k: Key) -> Settings {
    if s.menu_open {
        match k {
            Key::Esc => Settings { menu_open: false, ..s },
            Key::Enter => if s.menu_sel == 3 { Settings { menu_open: false, ..s } } else { s },
            Key::Up => Settings { menu_sel: cycle(s.menu_sel, MENU_ITEM_COUNT, false), ..s },
            Key::Down => Settings { menu_sel: cycle(s.menu_sel, MENU_ITEM_COUNT, true), ..s },
            Key::Left | Key::Right => {
                let fwd = k == Key::Right;
                if s.menu_sel == 0 {
                    Settings { theme_idx: cycle(s.theme_idx, THEME_COUNT, fwd), ..s }
                } else if s.menu_sel == 1 {
                    Settings { speed_idx: cycle(s.speed_idx, SPEED_PRESET_COUNT, fwd), ..s }
                } else if s.menu_sel == 2 {
                    Settings { density_idx: cycle(s.density_idx, DENSITY_PRESET_COUNT, fwd), ..s }
                } else {
                    s
                }
            },
            _ => s,
        }
    } else {
        match k {
            Key::Esc => Settings { menu_open: true, menu_sel: 0, ..s },
            _ => s,
        }
    }
}

/// What the rain loop does after key `k`.
pub open spec fn key_action(s: Settings, k: Key) -> Action {
    if s.menu_open {
        match k {
            Key::Esc => Action::Resume,
            Key::Enter => if s.menu_sel == 3 {
                Action::Resume
            } else if s.menu_sel == 4 {
                Action::Quit
            } else {
                Action::Frame
            },
            Key::Left | Key::Right => if s.menu_sel == 2 { Action::Respawn } else { Action::Frame },
            Key::Char(c, _) => if c == 'q' || c == 'Q' { Action::Quit } else { Action::Frame },
            _ => Action::Frame,
        }
    } else {
        match k {
            Key::Char(c, ctrl) => if c == 'q' || c == 'Q' || (c == 'c' && ctrl) {
                Action::Quit
            } else {
                Action::Frame
            },
            Key::Esc => Action::OpenMenu,
            _ => Action::Frame,
        }
    }
}

impl Settings {
    pub open spec fn wf(&self) -> bool {
        &&& self.theme_idx < THEME_COUNT
        &&& self.speed_idx < SPEED_PRESET_COUNT
        &&& self.density_idx < DENSITY_PRESET_COUNT
        &&& self.menu_sel < MENU_ITEM_COUNT
    }

    /// The first theme, normal speed and normal density, menu closed.
    pub fn new() -> (s: Settings)
        ensures
            s.wf(),
            s == (Settings { theme_idx: 0, speed_idx: 1, density_idx: 1, menu_open: false, menu_sel: 0 }),
    {
        Settings { theme_idx: 0, speed_idx: 1, density_idx: 1, menu_open: false, menu_sel: 0 }
    }

    /// Applies key `k`: `q` or `Q` quits whether the menu is open or not.
    /// With the menu open, Esc (or Enter on "Resume") closes it, Enter on
    /// "Quit" quits, Up and Down move the highlight round the five items,
    /// Left and Right step the highlighted option round its presets; with the
    /// menu closed, Control-`c` quits too and Esc opens the menu on its first
    /// item.
    pub fn handle_key(&mut self, k: Key) -> (a: Action)
        requires
            old(self).wf(),
        ensures
            final(self).wf(),
            *final(self) == next_settings(*old(self), k),
            a == key_action(*old(self), k),
    {
        if self.menu_open {
            match k {
                Key::Esc => {
                    self.menu_open = false;
                    Action::Resume
                },
                Key::Enter => {
                    if self.menu_sel == 3 {
                        self.menu_open = false;
                        Action::Resume
                    } else if self.menu_sel == 4 {
                        Action::Quit
                    } else {
                        Action::Frame
                    }
                },
                Key::Up => {
                    self.menu_sel = (self.menu_sel + MENU_ITEM_COUNT - 1) % MENU_ITEM_COUNT;
                    Action::Frame
                },
                Key::Down => {
                    self.menu_sel = (self.menu_sel + 1) % MENU_ITEM_COUNT;
                    Action::Frame
                },
                Key::Left | Key::Right => {
                    let fwd = match k {
                        Key::Right => true,
                        _ => false,
                    };
                    if self.menu_sel == 0 {
                        self.theme_idx = step(self.theme_idx, THEME_COUNT, fwd);
                        Action::Frame
                    } else if self.menu_sel == 1 {
                        self.speed_idx = step(self.speed_idx, SPEED_PRESET_COUNT, fwd);
                        Action::Frame
                    } else if self.menu_sel == 2 {
                        self.density_idx = step(self.density_idx, DENSITY_PRESET_COUNT, fwd);
                        Action::Respawn
                    } else {
                        Action::Frame
                    }
                },
                Key::Char(c, _) => {
                    if c == 'q' || c == 'Q' {
                        Action::Quit
                    } else {
                        Action::Frame
                    }
                },
                _ => Action::Frame,
            }
        } else {
            match k {
                Key::Char(c, ctrl) => {
                    if c == 'q' || c == 'Q' || (c == 'c' && ctrl) {
                        Action::Quit
                    } else {
                        Action::Frame
                    }
                },
                Key::Esc => {
                    self.menu_open = true;
                    self.menu_sel = 0;
                    Action::OpenMenu
                },
                _ => Action::Frame,
            }
        }
    }

    /// How long the loop waits for a key before the next frame, in
    /// milliseconds: the speed preset's delay, or a short wait while the menu
    /// is open.
    pub fn poll_millis(&self) -> (ms: u64)
        requires
            self.wf(),
        ensures
            ms == (if self.menu_open { MENU_POLL_MILLIS } else { speed_millis_spec(self.speed_idx as int) }),
    {
        if self.menu_open { MENU_POLL_MILLIS } else { speed_millis(self.speed_idx) }
    }

    /// The delay between frames of the speed preset, in milliseconds.
    pub fn frame_millis(&self) -> (ms: u64)
        requires
            self.wf(),
        ensures
            ms == speed_millis_spec(self.speed_idx as int),
    {
        speed_millis(self.speed_idx)
    }

    /// The spawn chance of the density preset, in hundredths.
    pub fn density(&self) -> (p: u32)
        requires
            self.wf(),
        ensures
            p == density_percent_spec(self.density_idx as int),
    {
        density_percent(self.density_idx)
    }
}

/// `i` one step back or forward in a ring of `n`.
pub fn step(i: usize, n: usize, forward: bool) -> (j: usize)
    requires
        i < n,
    ensures
        j == cycle(i, n, forward),
        j < n,
{
    if forward {
        let j = if i + 1 == n { 0 } else { i + 1 };
        proof {
            if i + 1 == n {
                lemma_mod_self_0(n as int);
            } else {
                lemma_small_mod((i + 1) as nat, n as nat);
            }
        }
        j
    } else {
        let j = if i == 0 { n - 1 } else { i - 1 };
        proof {
            if i == 0 {
                lemma_small_mod((n - 1) as nat, n as nat);
            } else {
                lemma_mod_add_multiples_vanish((i - 1) as int, n as int);
                lemma_small_mod((i - 1) as nat, n as nat);
            }
        }
        j
    }
}

/// The hint line at the bottom of the menu box.
pub fn menu_hint() -> (s: &'static str)
    ensures
        s@.len() == MENU_HINT_WIDTH,
{
    let s = "↑↓ navigate  ←→ change  ⏎ select  esc close";
    proof {
        reveal_strlit("↑↓ navigate  ←→ change  ⏎ select  esc close");
    }
    s
}

/// The title on the first row inside the menu box.
pub fn menu_title() -> (s: &'static str)
    ensures
        s@.len() == MENU_TITLE_WIDTH,
{
    let s = " OPTIONS ";
    proof {
        reveal_strlit(" OPTIONS ");
    }
    s
}

/// How many characters the hint line has.
pub const MENU_HINT_WIDTH: usize = 43;
/// How many characters the title has.
pub const MENU_TITLE_WIDTH: usize = 9;
/// The narrowest the inside of the menu box gets.
pub const MENU_MIN_INNER_WIDTH: usize = 36;
/// Rows of the menu box besides its items: borders, title, divider, blank
/// rows and the hint.
pub const MENU_CHROME_ROWS: usize = 8;

/// Where the menu box goes: its top row, left column, outer width and height,
/// and the width inside its side borders.
#[derive(Clone, Copy, Debug, PartialEq, Eq, Structural)]
pub struct MenuLayout {
    pub top: usize,
    pub left: usize,
    pub box_w: usize,
    pub box_h: usize,
    pub inner_w: usize,
}

/// The width inside the menu box: room for the hint and two spaces on each
/// side, at least `MENU_MIN_INNER_WIDTH`.
pub open spec fn menu_inner_width() -> int {
    let w = MENU_HINT_WIDTH + 4;
    if w > MENU_MIN_INNER_WIDTH { w as int } else { MENU_MIN_INNER_WIDTH as int }
}

/// The menu box centred on a screen `height` rows by `width` columns, or
/// `None` where it does not fit.
pub open spec fn menu_layout_spec(height: int, width: int) -> Option<MenuLayout> {
    let inner_w = menu_inner_width();
    let box_w = inner_w + 2;
    let box_h = MENU_ITEM_COUNT + MENU_CHROME_ROWS;
    let top = (if height >= box_h { height - box_h } else { 0 }) / 2;
    let left = (if width >= box_w { width - box_w } else { 0 }) / 2;
    if top + box_h > height || left + box_w > width {
        None
    } else {
        Some(
            MenuLayout {
                top: top as usize,
                left: left as usize,
                box_w: box_w as usize,
                box_h: box_h as usize,
                inner_w: inner_w as usize,
            },
        )
    }
}

impl MenuLayout {
    /// A box of the menu's size that fits a terminal screen.
    pub open spec fn wf(&self) -> bool {
        &&& self.inner_w == menu_inner_width()
        &&& self.box_w == self.inner_w + 2
        &&& self.box_h == MENU_ITEM_COUNT + MENU_CHROME_ROWS
        &&& self.top + self.box_h <= u16::MAX
        &&& self.left + self.box_w <= u16::MAX
    }

    /// The column where the title starts: centred inside the box.
    pub fn title_x(&self) -> (x: usize)
        requires
            self.wf(),
        ensures
            x == self.left + 1 + (self.inner_w - MENU_TITLE_WIDTH) / 2,
            self.left + 1 <= x,
            x + MENU_TITLE_WIDTH <= self.left + 1 + self.inner_w,
    {
        self.left + 1 + (self.inner_w - menu_title().unicode_len()) / 2
    }

    /// The column where the hint starts: centred inside the box.
    pub fn hint_x(&self) -> (x: usize)
        requires
            self.wf(),
        ensures
            x == self.left + 1 + (self.inner_w - MENU_HINT_WIDTH) / 2,
            self.left + 1 <= x,
            x + MENU_HINT_WIDTH <= self.left + 1 + self.inner_w,
    {
        self.left + 1 + (self.inner_w - menu_hint().unicode_len()) / 2
    }

    /// The row of the hint: just above the bottom border.
    pub fn hint_y(&self) -> (y: usize)
        requires
            self.wf(),
        ensures
            y == self.top + self.box_h - 2,
    {
        self.top + self.box_h - 2
    }
}

/// The rectangle (top, left, bottom, right) a layout covers, borders included.
pub open spec fn layout_rect(l: MenuLayout) -> (u16, u16, u16, u16) {
    (l.top as u16, l.left as u16, (l.top + l.box_h - 1) as u16, (l.left + l.box_w - 1) as u16)
}

/// Where the menu box goes on a screen `height` rows by `width` columns.
pub fn menu_layout(height: u16, width: u16) -> (r: Option<MenuLayout>)
    ensures
        r == menu_layout_spec(height as int, width as int),
        r matches Some(l) ==> l.wf() && l.top + l.box_h <= height && l.left + l.box_w <= width,
{
    let hint_w = menu_hint().unicode_len();
    let inner_w: usize = if hint_w + 4 > MENU_MIN_INNER_WIDTH { hint_w + 4 } else { MENU_MIN_INNER_WIDTH };
    let box_w: usize = inner_w + 2;
    let box_h: usize = MENU_ITEM_COUNT + MENU_CHROME_ROWS;
    let h = height as usize;
    let w = width as usize;
    let top: usize = (if h >= box_h { h - box_h } else { 0 }) / 2;
    let left: usize = (if w >= box_w { w - box_w } else { 0 }) / 2;
    if top + box_h > h || left + box_w > w {
        None
    } else {
        Some(MenuLayout { top, left, box_w, box_h, inner_w })
    }
}

/// The rectangle (top, left, bottom, right) the menu box covers, borders
/// included, or `None` where it does not fit.
pub fn menu_bounds(height: u16, width: u16) -> (r: Option<(u16, u16, u16, u16)>)
    ensures
        r == (match menu_layout_spec(height as int, width as int) {
            Some(l) => Some(layout_rect(l)),
            None => None,
        }),
{
    match menu_layout(height, width) {
        Some(l) => Some(
            (l.top as u16, l.left as u16, (l.top + l.box_h - 1) as u16, (l.left + l.box_w - 1) as u16),
        ),
        None => None,
    }
}

/// One item row of the open menu: where its text starts, whether it is
/// highlighted, its label and value (empty for "Resume" and "Quit"), how
/// many spaces separate label and value on a highlighted row, and the
/// characters the row shows.
#[derive(Debug)]
pub struct MenuRow {
    pub x: usize,
    pub y: usize,
    pub selected: bool,
    pub label: &'static str,
    pub value: &'static str,
    pub padding: usize,
    pub text: Vec<char>,
}

pub open spec fn item_label_spec(i: int) -> Seq<char> {
    if i == 0 {
        "Color Theme"@
    } else if i == 1 {
        "Speed"@
    } else if i == 2 {
        "Density"@
    } else if i == 3 {
        "Resume"@
    } else {
        "Quit"@
    }
}

/// The value item `i` shows under settings `s`.
pub open spec fn item_value_spec(s: Settings, i: int) -> Seq<char> {
    if i == 0 {
        theme_name_spec(s.theme_idx as int)
    } else if i == 1 {
        speed_name_spec(s.speed_idx as int)
    } else if i == 2 {
        density_name_spec(s.density_idx as int)
    } else {
        ""@
    }
}

/// The spaces between the label part (`"  ▸ "`, the label, a colon) and the
/// value part (`"◂ "`, the value, `" ▸"`) of a highlighted row, so that the
/// row fills the inner width; none when the two parts already fill it.
pub open spec fn value_padding_spec(inner_w: int, label_len: int, value_len: int) -> int {
    let used = label_len + 5 + value_len + 4;
    if inner_w > used { inner_w - used } else { 0 }
}

/// `n` spaces.
pub open spec fn spaces(n: int) -> Seq<char> {
    Seq::new(n as nat, |j: int| ' ')
}

/// `t` followed by spaces up to `w` characters; `t` itself where it is as
/// long already.
pub open spec fn pad_to(t: Seq<char>, w: int) -> Seq<char> {
    if t.len() < w { t + spaces(w - t.len()) } else { t }
}

/// What item row `i` of a menu box `inner_w` wide shows under settings `s`:
/// a highlighted row reads `"  ▸ label:"`, the padding, then `"◂ value ▸"`;
/// another reads `"    label:  value"`; "Resume" and "Quit" show only the
/// label. The row is filled with spaces to the inner width.
pub open spec fn row_text_spec(s: Settings, i: int, inner_w: int) -> Seq<char> {
    let label = item_label_spec(i);
    let value = item_value_spec(s, i);
    let body = if i == s.menu_sel {
        if value.len() > 0 {
            "  ▸ "@ + label + ":"@ + spaces(value_padding_spec(inner_w, label.len() as int, value.len() as int))
                + "◂ "@ + value + " ▸"@
        } else {
            "  ▸ "@ + label
        }
    } else {
        if value.len() > 0 {
            "    "@ + label + ":  "@ + value
        } else {
            "    "@ + label
        }
    };
    pad_to(body, inner_w)
}

/// Appends the characters of `t` to `out`.
fn push_str(out: &mut Vec<char>, t: &str)
    ensures
        final(out)@ == old(out)@ + t@,
{
    let ghost start = out@;
    let n = t.unicode_len();
    let mut i: usize = 0;
    while i < n
        invariant
            n == t@.len(),
            i <= n,
            out@ == start + t@.subrange(0, i as int),
        decreases n - i,
    {
        let c = t.get_char(i);
        out.push(c);
        i = i + 1;
        assert(t@.subrange(0, i as int) =~= t@.subrange(0, i - 1 as int).push(c));
    }
    assert(t@.subrange(0, n as int) =~= t@);
}

/// Appends `n` spaces to `out`.
fn push_spaces(out: &mut Vec<char>, n: usize)
    ensures
        final(out)@ == old(out)@ + spaces(n as int),
{
    let ghost start = out@;
    let mut i: usize = 0;
    while i < n
        invariant
            i <= n,
            out@ == start + spaces(i as int),
        decreases n - i,
    {
        out.push(' ');
        i = i + 1;
        assert(spaces(i as int) =~= spaces(i - 1 as int).push(' '));
    }
}

/// Every label has at most 11 characters and every value at most 9.
proof fn lemma_item_text_lengths(s: Settings, i: int)
    requires
        s.wf(),
        0 <= i < MENU_ITEM_COUNT,
    ensures
        item_label_spec(i).len() <= 11,
        item_value_spec(s, i).len() <= 9,
{
    reveal_strlit("Color Theme");
    reveal_strlit("Speed");
    reveal_strlit("Density");
    reveal_strlit("Resume");
    reveal_strlit("Quit");
    reveal_strlit("");
    reveal_strlit("Slow");
    reveal_strlit("Normal");
    reveal_strlit("Fast");
    reveal_strlit("Ludicrous");
    reveal_strlit("Sparse");
    reveal_strlit("Dense");
    reveal_strlit("Downpour");
    reveal_strlit("Green");
    reveal_strlit("Amber");
    reveal_strlit("Cyan");
    reveal_strlit("Red");
    reveal_strlit("Blue");
    reveal_strlit("Purple");
    reveal_strlit("Pink");
    reveal_strlit("White");
}

/// Every item row of the menu box fills its inner width exactly: it starts
/// just inside the left border and ends just inside the right one.
pub proof fn lemma_row_text_fills_box(s: Settings, i: int)
    requires
        s.wf(),
        0 <= i < MENU_ITEM_COUNT,
    ensures
        row_text_spec(s, i, menu_inner_width()).len() == menu_inner_width(),
{
    lemma_item_text_lengths(s, i);
    reveal_strlit("  ▸ ");
    reveal_strlit(":");
    reveal_strlit("◂ ");
    reveal_strlit(" ▸");
    reveal_strlit("    ");
    reveal_strlit(":  ");
    reveal_strlit("↑↓ navigate  ←→ change  ⏎ select  esc close");
    assert(menu_inner_width() == 47);
}

pub fn value_padding(inner_w: usize, label_len: usize, value_len: usize) -> (p: usize)
    ensures
        p == value_padding_spec(inner_w as int, label_len as int, value_len as int),
{
    if label_len >= inner_w {
        0
    } else {
        let rest = inner_w - label_len;
        if rest <= 9 {
            0
        } else if rest - 9 > value_len {
            rest - 9 - value_len
        } else {
            0
        }
    }
}

/// The characters of a menu row with `label` and `value`, highlighted or
/// not, filled with spaces to `inner_w`.
fn row_text(label: &str, value: &str, selected: bool, padding: usize, inner_w: usize) -> (t: Vec<char>)
    ensures
        t@ == pad_to(
            if selected {
                if value@.len() > 0 {
                    "  ▸ "@ + label@ + ":"@ + spaces(padding as int) + "◂ "@ + value@ + " ▸"@
                } else {
                    "  ▸ "@ + label@
                }
            } else {
                if value@.len() > 0 {
                    "    "@ + label@ + ":  "@ + value@
                } else {
                    "    "@ + label@
                }
            },
            inner_w as int,
        ),
{
    let mut t: Vec<char> = Vec::new();
    let has_value = value.unicode_len() > 0;
    if selected {
        push_str(&mut t, "  ▸ ");
        push_str(&mut t, label);
        if has_value {
            push_str(&mut t, ":");
            push_spaces(&mut t, padding);
            push_str(&mut t, "◂ ");
            push_str(&mut t, value);
            push_str(&mut t, " ▸");
        }
    } else {
        push_str(&mut t, "    ");
        push_str(&mut t, label);
        if has_value {
            push_str(&mut t, ":  ");
            push_str(&mut t, value);
        }
    }
    if t.len() < inner_w {
        let n = inner_w - t.len();
        push_spaces(&mut t, n);
    }
    t
}

impl Settings {
    /// The label of menu item `i`.
    pub fn item_label(i: usize) -> (s: &'static str)
        requires
            i < MENU_ITEM_COUNT,
        ensures
            s@ == item_label_spec(i as int),
    {
        if i == 0 {
            "Color Theme"
        } else if i == 1 {
            "Speed"
        } else if i == 2 {
            "Density"
        } else if i == 3 {
            "Resume"
        } else {
            "Quit"
        }
    }

    /// The value menu item `i` shows.
    pub fn item_value(&self, i: usize) -> (s: &'static str)
        requires
            self.wf(),
            i < MENU_ITEM_COUNT,
        ensures
            s@ == item_value_spec(*self, i as int),
    {
        if i == 0 {
            theme_name(self.theme_idx)
        } else if i == 1 {
            speed_name(self.speed_idx)
        } else if i == 2 {
            density_name(self.density_idx)
        } else {
            ""
        }
    }

    /// The item rows of the menu box `l`: row `i` starts inside the left
    /// border, four rows below the top, and is highlighted when it is the
    /// selected item.
    pub fn menu_rows(&self, l: MenuLayout) -> (rows: Vec<MenuRow>)
        requires
            self.wf(),
            l.wf(),
        ensures
            rows@.len() == MENU_ITEM_COUNT,
            forall|i: int| #![trigger rows@[i]] 0 <= i < MENU_ITEM_COUNT ==> {
                &&& rows@[i].x == l.left + 1
                &&& rows@[i].y == l.top + 4 + i
                &&& rows@[i].selected == (i == self.menu_sel)
                &&& rows@[i].label@ == item_label_spec(i)
                &&& rows@[i].value@ == item_value_spec(*self, i)
                &&& rows@[i].padding == value_padding_spec(
                    l.inner_w as int,
                    item_label_spec(i).len() as int,
                    item_value_spec(*self, i).len() as int,
                )
                &&& rows@[i].text@ == row_text_spec(*self, i, l.inner_w as int)
                &&& rows@[i].text@.len() == l.inner_w
            },
    {
        let mut rows: Vec<MenuRow> = Vec::new();
        let mut i: usize = 0;
        while i < MENU_ITEM_COUNT
            invariant
                self.wf(),
                l.wf(),
                i <= MENU_ITEM_COUNT,
                rows@.len() == i,
                forall|j: int| #![trigger rows@[j]] 0 <= j < i ==> {
                    &&& rows@[j].x == l.left + 1
                    &&& rows@[j].y == l.top + 4 + j
                    &&& rows@[j].selected == (j == self.menu_sel)
                    &&& rows@[j].label@ == item_label_spec(j)
                    &&& rows@[j].value@ == item_value_spec(*self, j)
                    &&& rows@[j].padding == value_padding_spec(
                        l.inner_w as int,
                        item_label_spec(j).len() as int,
                        item_value_spec(*self, j).len() as int,
                    )
                    &&& rows@[j].text@ == row_text_spec(*self, j, l.inner_w as int)
                    &&& rows@[j].text@.len() == l.inner_w
                },
            decreases MENU_ITEM_COUNT - i,
        {
            let label = Settings::item_label(i);
            let value = self.item_value(i);
            let label_len = label.unicode_len();
            let value_len = value.unicode_len();
            let padding = value_padding(l.inner_w, label_len, value_len);
            let selected = i == self.menu_sel;
            let text = row_text(label, value, selected, padding, l.inner_w);
            proof {
                lemma_row_text_fills_box(*self, i as int);
            }
            rows.push(MenuRow { x: l.left + 1, y: l.top + 4 + i, selected, label, value, padding, text });
            i = i + 1;
        }
        rows
    }
}

/// Up then Down, with the menu open, leaves the settings as they were.
pub proof fn lemma_up_down_restores(s: Settings)
    requires
        s.wf(),
        s.menu_open,
    ensures
        next_settings(next_settings(s, Key::Up), Key::Down) == s,
{
}

/// Down then Up, with the menu open, leaves the settings as they were.
pub proof fn lemma_down_up_restores(s: Settings)
    requires
        s.wf(),
        s.menu_open,
    ensures
        next_settings(next_settings(s, Key::Down), Key::Up) == s,
{
}

/// Left then Right, with the menu open, leaves the settings as they were.
pub proof fn lemma_left_right_restores(s: Settings)
    requires
        s.wf(),
        s.menu_open,
    ensures
        next_settings(next_settings(s, Key::Left), Key::Right) == s,
        next_settings(next_settings(s, Key::Right), Key::Left) == s,
{
}

/// Five presses of Down, with the menu open, bring the highlight back.
pub proof fn lemma_down_five_times(s: Settings)
    requires
        s.wf(),
        s.menu_open,
    ensures
        next_settings(next_settings(next_settings(next_settings(next_settings(s, Key::Down), Key::Down), Key::Down), Key::Down), Key::Down) == s,
{
}

/// Every key keeps the settings valid.
pub proof fn lemma_keys_keep_valid(s: Settings, k: Key)
    requires
        s.wf(),
    ensures
        next_settings(s, k).wf(),
{
}

/// The loop quits exactly on `q` or `Q`, menu open or not, on Enter with
/// "Quit" highlighted in the open menu, or on Control-`c` with the menu
/// closed.
pub proof fn lemma_quit_keys(s: Settings, k: Key)
    requires
        s.wf(),
    ensures
        key_action(s, k) == Action::Quit <==> (
            (k matches Key::Char(c, _) && (c == 'q' || c == 'Q'))
            || (s.menu_open && k == Key::Enter && s.menu_sel == 4)
            || (!s.menu_open && k == Key::Char('c', true))
        ),
{
}

/// Closing the menu, by Esc or by Enter on "Resume", keeps every option.
pub proof fn lemma_resume_keeps_options(s: Settings, k: Key)
    requires
        s.wf(),
        key_action(s, k) == Action::Resume,
    ensures
        !next_settings(s, k).menu_open,
        next_settings(s, k).theme_idx == s.theme_idx,
        next_settings(s, k).speed_idx == s.speed_idx,
        next_settings(s, k).density_idx == s.density_idx,
{
}

/// With the menu open, Enter does nothing to the settings unless "Resume"
/// is highlighted, and then it only closes the menu: Enter never changes
/// the theme, speed, density or highlight.
pub proof fn lemma_enter_changes_only_resume(s: Settings)
    requires
        s.wf(),
        s.menu_open,
    ensures
        s.menu_sel != 3 ==> next_settings(s, Key::Enter) == s,
        s.menu_sel == 3 ==> next_settings(s, Key::Enter) == (Settings { menu_open: false, ..s }),
        next_settings(s, Key::Enter).theme_idx == s.theme_idx,
        next_settings(s, Key::Enter).speed_idx == s.speed_idx,
        next_settings(s, Key::Enter).density_idx == s.density_idx,
        next_settings(s, Key::Enter).menu_sel == s.menu_sel,
{
}

/// Only Left and Right, with the menu open, change the theme, the speed or
/// the density, and each changes at most the one option that is
/// highlighted.
pub proof fn lemma_only_left_right_change_options(s: Settings, k: Key)
    requires
        s.wf(),
    ensures
        !(s.menu_open && (k == Key::Left || k == Key::Right)) ==> {
            &&& next_settings(s, k).theme_idx == s.theme_idx
            &&& next_settings(s, k).speed_idx == s.speed_idx
            &&& next_settings(s, k).density_idx == s.density_idx
        },
        next_settings(s, k).theme_idx != s.theme_idx ==> s.menu_open && s.menu_sel == 0,
        next_settings(s, k).speed_idx != s.speed_idx ==> s.menu_open && s.menu_sel == 1,
        next_settings(s, k).density_idx != s.density_idx ==> s.menu_open && s.menu_sel == 2,
{
}
} // verus!
