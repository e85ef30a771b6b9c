//! The decisions behind a terminal-window screenshot: colours and title of the
//! window chrome, the prompt that stands in for `$ `, the styled lines of
//! text, and the integer geometry of the frame.
use vstd::prelude::*;
use crate::ansi::{ansi_runs, parse_ansi_line, runs_view, Rgb, StyledRun, RunView};
use crate::text::{
    chars_of, split_char, split_str, starts_with, str_eq, string_of, trim_end_char,
    trim_end_matches_char,
};

verus! {

/// The look of the window frame.
#[derive(Clone, Copy, Debug, PartialEq, Eq, Structural)]
pub enum WindowStyle {
    Windows,
    Macos,
    Linux,
}

impl Default for WindowStyle {
    fn default() -> (s: WindowStyle)
        ensures
            s == WindowStyle::Windows,
    {
        WindowStyle::Windows
    }
}

/// Options of a terminal screenshot (the font size, a float, is held by the
/// renderer).
pub struct TermGenOptions {
    pub title: String,
    pub theme: String,
    pub prompt: String,
    pub no_prompt_highlight: bool,
    pub padding: i32,
    pub style: WindowStyle,
    pub username: String,
    pub hostname: String,
    pub cwd: String,
}

impl Default for TermGenOptions {
    fn default() -> (o: TermGenOptions)
        ensures
            o.title@ == "bash"@,
            o.theme@ == "dark"@,
            o.prompt@ == "$ "@,
            !o.no_prompt_highlight,
            o.padding == 28,
            o.style == WindowStyle::Windows,
            o.username@ == "local"@,
            o.hostname@ == "host"@,
            o.cwd@ == "~"@,
    {
        TermGenOptions {
            title: String::from_str("bash"),
            theme: String::from_str("dark"),
            prompt: String::from_str("$ "),
            no_prompt_highlight: false,
            padding: 28,
            style: WindowStyle::Windows,
            username: String::from_str("local"),
            hostname: String::from_str("host"),
            cwd: String::from_str("~"),
        }
    }
}

// ---------------------------------------------------------------------------
// Colours and title
// ---------------------------------------------------------------------------

pub open spec fn is_light(theme: Seq<char>) -> bool {
    theme == "light"@
}

/// The colours of the window: body, title bar, and default text.
pub struct WindowColors {
    pub bg: Rgb,
    pub title_bg: Rgb,
    pub default_fg: Rgb,
    pub border: Rgb,
    pub title_text: Rgb,
}

pub open spec fn window_colors_spec(style: WindowStyle, theme: Seq<char>) -> WindowColors {
    let light = is_light(theme);
    let bg = if light {
        Rgb(255, 255, 255)
    } else if style == WindowStyle::Windows {
        Rgb(12, 12, 12)
    } else if style == WindowStyle::Macos {
        Rgb(0, 0, 0)
    } else {
        Rgb(30, 30, 30)
    };
    let title_bg = if light {
        Rgb(235, 235, 235)
    } else if style == WindowStyle::Macos {
        Rgb(38, 38, 38)
    } else {
        Rgb(45, 45, 45)
    };
    let default_fg = if light {
        Rgb(0, 0, 0)
    } else {
        Rgb(242, 242, 242)
    };
    let border = if light {
        Rgb(200, 200, 200)
    } else {
        Rgb(51, 51, 51)
    };
    let title_text = match style {
        WindowStyle::Macos => if light {
            Rgb(0x55, 0x55, 0x55)
        } else {
            Rgb(0xbb, 0xbb, 0xbb)
        },
        WindowStyle::Windows => if light {
            Rgb(0x11, 0x11, 0x11)
        } else {
            Rgb(0xdd, 0xdd, 0xdd)
        },
        WindowStyle::Linux => if light {
            Rgb(0x22, 0x22, 0x22)
        } else {
            Rgb(0xee, 0xee, 0xee)
        },
    };
    WindowColors { bg, title_bg, default_fg, border, title_text }
}

/// The colours of the window for a style and theme (`light`, or dark for
/// anything else).
pub fn window_colors(style: WindowStyle, theme: &str) -> (c: WindowColors)
    ensures
        c == window_colors_spec(style, theme@),
{
    let light = str_eq(theme, "light");
    let (mut bg, mut title_bg, default_fg) = if light {
        (Rgb(255, 255, 255), Rgb(235, 235, 235), Rgb(0, 0, 0))
    } else {
        (Rgb(30, 30, 30), Rgb(45, 45, 45), Rgb(242, 242, 242))
    };
    if style == WindowStyle::Windows && !light {
        bg = Rgb(12, 12, 12);
        title_bg = Rgb(45, 45, 45);
    }
    if style == WindowStyle::Macos && !light {
        bg = Rgb(0, 0, 0);
        title_bg = Rgb(38, 38, 38);
    }
    let border = if light {
        Rgb(200, 200, 200)
    } else {
        Rgb(51, 51, 51)
    };
    let title_text = match style {
        WindowStyle::Macos => if light {
            Rgb(0x55, 0x55, 0x55)
        } else {
            Rgb(0xbb, 0xbb, 0xbb)
        },
        WindowStyle::Windows => if light {
            Rgb(0x11, 0x11, 0x11)
        } else {
            Rgb(0xdd, 0xdd, 0xdd)
        },
        WindowStyle::Linux => if light {
            Rgb(0x22, 0x22, 0x22)
        } else {
            Rgb(0xee, 0xee, 0xee)
        },
    };
    WindowColors { bg, title_bg, default_fg, border, title_text }
}

/// The title drawn in the title bar: the default title `bash` is shown as
/// the name of the platform's usual shell window.
pub open spec fn display_title_spec(style: WindowStyle, title: Seq<char>) -> Seq<char> {
    if title == "bash"@ {
        match style {
            WindowStyle::Macos => "zsh"@,
            WindowStyle::Windows => "Windows PowerShell"@,
            WindowStyle::Linux => "Terminal"@,
        }
    } else {
        title
    }
}

pub fn display_title(style: WindowStyle, title: &str) -> (t: String)
    ensures
        t@ == display_title_spec(style, title@),
{
    if str_eq(title, "bash") {
        match style {
            WindowStyle::Macos => String::from_str("zsh"),
            WindowStyle::Windows => String::from_str("Windows PowerShell"),
            WindowStyle::Linux => String::from_str("Terminal"),
        }
    } else {
        String::from_str(title)
    }
}

/// Height in pixels of the title bar.
pub open spec fn title_bar_height_spec(style: WindowStyle) -> i32 {
    match style {
        WindowStyle::Windows => 42,
        _ => 40,
    }
}

pub fn title_bar_height(style: WindowStyle) -> (h: i32)
    ensures
        h == title_bar_height_spec(style),
{
    match style {
        WindowStyle::Windows => 42,
        _ => 40,
    }
}

// ---------------------------------------------------------------------------
// The prompt
// ---------------------------------------------------------------------------

/// The working directory shown in the prompt: `~` reads as the user's home
/// folder on the Windows style.
pub open spec fn cwd_display_spec(style: WindowStyle, cwd: Seq<char>, username: Seq<char>) -> Seq<
    char,
> {
    if style == WindowStyle::Windows && cwd == "~"@ {
        "C:\\Users\\"@ + username
    } else {
        cwd
    }
}

/// The coloured prompt of the window's platform, with escape sequences.
pub open spec fn prompt_ansi_spec(
    style: WindowStyle,
    username: Seq<char>,
    hostname: Seq<char>,
    cwd: Seq<char>,
) -> Seq<char> {
    let dir = cwd_display_spec(style, cwd, username);
    match style {
        WindowStyle::Macos => "\x1b[36m"@ + username + "@"@ + hostname + "\x1b[0m \x1b[34m"@ + dir
            + "\x1b[0m % "@,
        WindowStyle::Windows => "\x1b[93mPS "@ + dir + ">\x1b[0m "@,
        WindowStyle::Linux => "\x1b[32m"@ + username + "@"@ + hostname + "\x1b[0m:\x1b[34m"@
            + dir + "\x1b[0m$ "@,
    }
}

pub fn prompt_ansi(opts: &TermGenOptions) -> (p: String)
    ensures
        p@ == prompt_ansi_spec(opts.style, opts.username@, opts.hostname@, opts.cwd@),
{
    let mut dir = String::new();
    if opts.style == WindowStyle::Windows && str_eq(opts.cwd.as_str(), "~") {
        dir.append("C:\\Users\\");
        dir.append(opts.username.as_str());
    } else {
        dir.append(opts.cwd.as_str());
    }
    let mut p = String::new();
    match opts.style {
        WindowStyle::Macos => {
            p.append("\x1b[36m");
            p.append(opts.username.as_str());
            p.append("@");
            p.append(opts.hostname.as_str());
            p.append("\x1b[0m \x1b[34m");
            p.append(dir.as_str());
            p.append("\x1b[0m % ");
        },
        WindowStyle::Windows => {
            p.append("\x1b[93mPS ");
            p.append(dir.as_str());
            p.append(">\x1b[0m ");
        },
        WindowStyle::Linux => {
            p.append("\x1b[32m");
            p.append(opts.username.as_str());
            p.append("@");
            p.append(opts.hostname.as_str());
            p.append("\x1b[0m:\x1b[34m");
            p.append(dir.as_str());
            p.append("\x1b[0m$ ");
        },
    }
    p
}

/// The prompt shows the configured working directory as it is, except that
/// `~` on the Windows style reads as the user's folder `C:\Users\<user>`.
pub proof fn law_prompt_shows_cwd(style: WindowStyle, username: Seq<char>, hostname: Seq<char>, cwd: Seq<char>)
    ensures
        style != WindowStyle::Windows || cwd != "~"@ ==> prompt_ansi_spec(style, username, hostname, cwd)
            == match style {
            WindowStyle::Macos => "\x1b[36m"@ + username + "@"@ + hostname + "\x1b[0m \x1b[34m"@ + cwd
                + "\x1b[0m % "@,
            WindowStyle::Windows => "\x1b[93mPS "@ + cwd + ">\x1b[0m "@,
            WindowStyle::Linux => "\x1b[32m"@ + username + "@"@ + hostname + "\x1b[0m:\x1b[34m"@ + cwd
                + "\x1b[0m$ "@,
        },
        style == WindowStyle::Windows && cwd == "~"@ ==> prompt_ansi_spec(style, username, hostname, cwd)
            == "\x1b[93mPS "@ + ("C:\\Users\\"@ + username) + ">\x1b[0m "@,
{
}

// ---------------------------------------------------------------------------
// Lines of text
// ---------------------------------------------------------------------------

/// The prompt of `opts` is highlighted on this line.
pub open spec fn highlights_prompt(line: Seq<char>, prompt: Seq<char>, no_highlight: bool) -> bool {
    !no_highlight && prompt.len() > 0 && starts_with(line, prompt)
}

/// The runs of one line: a line that starts with the prompt has it replaced by
/// the platform's coloured prompt.
pub open spec fn line_runs_spec(line: Seq<char>, opts: TermGenOptions, default_fg: Rgb) -> Seq<
    RunView,
> {
    if highlights_prompt(line, opts.prompt@, opts.no_prompt_highlight) {
        ansi_runs(
            prompt_ansi_spec(opts.style, opts.username@, opts.hostname@, opts.cwd@),
            default_fg,
        ) + ansi_runs(line.skip(opts.prompt@.len() as int), default_fg)
    } else {
        ansi_runs(line, default_fg)
    }
}

/// The lines of the screenshot: trailing newlines dropped, then one line per
/// piece between newlines.
pub open spec fn screen_lines_spec(raw: Seq<char>) -> Seq<Seq<char>> {
    split_char(trim_end_char(raw, '\n'), '\n')
}

fn line_runs(line: &str, opts: &TermGenOptions, default_fg: Rgb) -> (runs: Vec<StyledRun>)
    ensures
        runs_view(runs@) == line_runs_spec(line@, *opts, default_fg),
{
    let v = chars_of(line);
    let pv = chars_of(opts.prompt.as_str());
    if !opts.no_prompt_highlight && pv.len() > 0 && crate::text::matches_at(&v, &pv, 0) {
        proof {
            assert(v@.take(pv@.len() as int) == v@.subrange(0, pv@.len() as int));
        }
        let rest = string_of(&v, pv.len(), v.len());
        let prompt = prompt_ansi(opts);
        let mut runs = parse_ansi_line(prompt.as_str(), default_fg);
        let mut more = parse_ansi_line(rest.as_str(), default_fg);
        let ghost a = runs@;
        let ghost b = more@;
        runs.append(&mut more);
        proof {
            assert(v@.skip(pv@.len() as int) =~= v@.subrange(pv@.len() as int, v@.len() as int));
            assert(runs_view(runs@) =~= runs_view(a) + runs_view(b));
        }
        runs
    } else {
        proof {
            if highlights_prompt(line@, opts.prompt@, opts.no_prompt_highlight) {
                assert(v@.subrange(0, pv@.len() as int) == v@.take(pv@.len() as int));
            }
        }
        parse_ansi_line(line, default_fg)
    }
}

/// The styled lines of a screenshot of `raw_text`.
pub fn screen_lines(raw_text: &str, opts: &TermGenOptions, default_fg: Rgb) -> (lines: Vec<
    Vec<StyledRun>,
>)
    ensures
        lines@.len() == screen_lines_spec(raw_text@).len(),
        forall|k: int|
            0 <= k < lines@.len() ==> runs_view(#[trigger] lines@[k]@) == line_runs_spec(
                screen_lines_spec(raw_text@)[k],
                *opts,
                default_fg,
            ),
{
    let raw = trim_end_matches_char(raw_text, '\n');
    let parts = split_str(raw.as_str(), '\n');
    let mut lines: Vec<Vec<StyledRun>> = Vec::new();
    let mut i: usize = 0;
    while i < parts.len()
        invariant
            raw@ == trim_end_char(raw_text@, '\n'),
            parts@.len() == split_char(raw@, '\n').len(),
            forall|k: int| 0 <= k < parts@.len() ==> #[trigger] parts@[k]@ == split_char(raw@, '\n')[k],
            i <= parts@.len(),
            lines@.len() == i,
            forall|k: int|
                0 <= k < i ==> runs_view(#[trigger] lines@[k]@) == line_runs_spec(
                    screen_lines_spec(raw_text@)[k],
                    *opts,
                    default_fg,
                ),
        decreases parts@.len() - i,
    {
        let runs = line_runs(parts[i].as_str(), opts, default_fg);
        lines.push(runs);
        i += 1;
    }
    lines
}

// ---------------------------------------------------------------------------
// Geometry
// ---------------------------------------------------------------------------

/// Radius of the rounded window corners on the macOS and Linux styles.
pub open spec fn corner_radius() -> int {
    10
}

/// Distance past the rounded-corner band along one axis.
pub open spec fn corner_offset(p: int, size: int) -> int {
    let r = corner_radius();
    if p < r {
        r - p
    } else if p >= size - r {
        p - (size - r) + 1
    } else {
        0
    }
}

/// Pixel `(x, y)` of a `w` by `h` window lies outside its rounded corners.
pub open spec fn outside_corner(x: int, y: int, w: int, h: int) -> bool {
    let dx = corner_offset(x, w);
    let dy = corner_offset(y, h);
    dx * dx + dy * dy > corner_radius() * corner_radius()
}

fn offset(p: i32, size: i32) -> (d: i32)
    requires
        0 <= p < size,
    ensures
        d == corner_offset(p as int, size as int),
        0 <= d <= 10,
{
    let r: i32 = 10;
    if p < r {
        r - p
    } else if p >= size - r {
        p - (size - r) + 1
    } else {
        0
    }
}

/// Whether pixel `(x, y)` is cut away to round the window's corners.
pub fn corner_transparent(x: i32, y: i32, w: i32, h: i32) -> (t: bool)
    requires
        0 <= x < w,
        0 <= y < h,
    ensures
        t == outside_corner(x as int, y as int, w as int, h as int),
{
    let dx = offset(x, w);
    let dy = offset(y, h);
    proof {
        assert(0 <= dx * dx <= 100) by (nonlinear_arith)
            requires
                0 <= dx <= 10,
        ;
        assert(0 <= dy * dy <= 100) by (nonlinear_arith)
            requires
                0 <= dy <= 10,
        ;
    }
    dx * dx + dy * dy > 100
}

/// The rounded corners are the same on all four sides: mirroring a pixel
/// left to right or top to bottom does not change whether it is cut away
/// (for windows at least twice the corner radius in each direction).
pub proof fn law_corners_symmetric(x: int, y: int, w: int, h: int)
    requires
        0 <= x < w,
        0 <= y < h,
        w >= 2 * corner_radius(),
        h >= 2 * corner_radius(),
    ensures
        outside_corner(x, y, w, h) == outside_corner(w - 1 - x, y, w, h),
        outside_corner(x, y, w, h) == outside_corner(x, h - 1 - y, w, h),
{
    assert(corner_offset(x, w) == corner_offset(w - 1 - x, w));
    assert(corner_offset(y, h) == corner_offset(h - 1 - y, h));
}

/// Pixels away from the corners are never cut away.
pub proof fn law_corners_only(x: int, y: int, w: int, h: int)
    requires
        corner_radius() <= x < w - corner_radius() || corner_radius() <= y < h - corner_radius(),
        0 <= x < w,
        0 <= y < h,
    ensures
        !outside_corner(x, y, w, h),
{
    let dx = corner_offset(x, w);
    let dy = corner_offset(y, h);
    assert(0 <= dx <= 10);
    assert(0 <= dy <= 10);
    if corner_radius() <= x < w - corner_radius() {
        assert(dx == 0);
        assert(dy * dy <= 100) by (nonlinear_arith)
            requires
                0 <= dy <= 10,
        ;
    } else {
        assert(dy == 0);
        assert(dx * dx <= 100) by (nonlinear_arith)
            requires
                0 <= dx <= 10,
        ;
    }
}

/// Width of the active tab of the Windows style.
pub fn windows_tab_width(img_w: i32) -> (t: i32)
    requires
        img_w >= i32::MIN + 150,
    ensures
        t == (if 240 <= img_w - 150 {
            240
        } else {
            img_w - 150
        }),
{
    if 240 <= img_w - 150 {
        240
    } else {
        img_w - 150
    }
}

/// A shape of the window frame, in image coordinates.
#[derive(Clone, Copy, Debug, PartialEq, Eq, Structural)]
pub enum Shape {
    /// A filled rectangle.
    FillRect { x: i32, y: i32, w: i32, h: i32, color: Rgb },
    /// A rectangle outline.
    HollowRect { x: i32, y: i32, w: i32, h: i32, color: Rgb },
    /// A filled circle.
    FillCircle { cx: i32, cy: i32, r: i32, color: Rgb },
    /// A line segment.
    Line { x1: i32, y1: i32, x2: i32, y2: i32, color: Rgb },
    /// The window title, its top-left corner at `(x, y)`, in the title font.
    Title { x: i32, y: i32, color: Rgb },
}

/// The font of the window title: bold or regular, and its size in percent of
/// the text size.
#[derive(Clone, Copy, Debug, PartialEq, Eq, Structural)]
pub struct TitleFont {
    pub bold: bool,
    pub percent: u32,
}

pub open spec fn title_font_spec(style: WindowStyle) -> TitleFont {
    match style {
        WindowStyle::Windows => TitleFont { bold: false, percent: 75 },
        _ => TitleFont { bold: true, percent: 85 },
    }
}

/// The font that the title is drawn in: the Windows tab uses the regular
/// font at three quarters of the text size, the others the bold font at 85%.
pub fn title_font(style: WindowStyle) -> (f: TitleFont)
    ensures
        f == title_font_spec(style),
{
    match style {
        WindowStyle::Windows => TitleFont { bold: false, percent: 75 },
        _ => TitleFont { bold: true, percent: 85 },
    }
}

/// Half of `a`, rounded toward zero as integer division does.
pub open spec fn half(a: int) -> int {
    if a >= 0 {
        a / 2
    } else {
        -((-a) / 2)
    }
}

/// Picks the light or the dark variant of a colour.
pub open spec fn shade(light: bool, on_light: Rgb, on_dark: Rgb) -> Rgb {
    if light {
        on_light
    } else {
        on_dark
    }
}

/// The frame of a `w` by `h` window whose title is `title_w` pixels wide and
/// `title_h` pixels high in the title font: title bar, its controls and
/// title, then the border.
pub open spec fn chrome_spec(
    style: WindowStyle,
    theme: Seq<char>,
    w: int,
    h: int,
    title_w: int,
    title_h: int,
) -> Seq<Shape> {
    let light = is_light(theme);
    let colors = window_colors_spec(style, theme);
    let bar = title_bar_height_spec(style) as int;
    let border = Shape::HollowRect {
        x: 0,
        y: 0,
        w: (w - 1) as i32,
        h: (h - 1) as i32,
        color: colors.border,
    };
    let frame = match style {
        WindowStyle::Macos => seq![
            Shape::FillRect { x: 0, y: 0, w: w as i32, h: bar as i32, color: colors.title_bg },
            Shape::FillCircle { cx: 20, cy: (bar / 2) as i32, r: 6, color: Rgb(0xff, 0x5f, 0x56) },
            Shape::FillCircle { cx: 40, cy: (bar / 2) as i32, r: 6, color: Rgb(0xff, 0xbd, 0x2e) },
            Shape::FillCircle { cx: 60, cy: (bar / 2) as i32, r: 6, color: Rgb(0x27, 0xc9, 0x3f) },
            Shape::Title {
                x: half(w - title_w) as i32,
                y: half(bar - title_h) as i32,
                color: colors.title_text,
            },
        ],
        WindowStyle::Windows => {
            let tab_bg = shade(light, Rgb(243, 243, 243), Rgb(28, 28, 28));
            let active = shade(light, Rgb(255, 255, 255), Rgb(16, 16, 16));
            let tab_w = if 240 <= w - 150 {
                240
            } else {
                w - 150
            };
            let close_col = shade(light, Rgb(100, 100, 100), Rgb(150, 150, 150));
            let tcx = 10 + tab_w - 20;
            let tcy = 8 + (bar - 8) / 2;
            let icon = shade(light, Rgb(0, 0, 0), Rgb(255, 255, 255));
            let mid = bar / 2;
            let ccx = w - 46 + 23;
            seq![
                Shape::FillRect { x: 0, y: 0, w: w as i32, h: bar as i32, color: tab_bg },
                Shape::FillRect { x: 10, y: 8, w: tab_w as i32, h: (bar - 8) as i32, color: active },
                Shape::FillRect { x: 10, y: 8, w: 2, h: 2, color: tab_bg },
                Shape::FillRect { x: (10 + tab_w - 2) as i32, y: 8, w: 2, h: 2, color: tab_bg },
                Shape::FillRect { x: 11, y: 9, w: 1, h: 1, color: active },
                Shape::FillRect { x: (10 + tab_w - 2) as i32, y: 9, w: 1, h: 1, color: active },
                Shape::Title {
                    x: 32,
                    y: (8 + half(bar - 8 - title_h)) as i32,
                    color: colors.title_text,
                },
                Shape::Line {
                    x1: (tcx - 4) as i32,
                    y1: (tcy - 4) as i32,
                    x2: (tcx + 4) as i32,
                    y2: (tcy + 4) as i32,
                    color: close_col,
                },
                Shape::Line {
                    x1: (tcx - 4) as i32,
                    y1: (tcy + 4) as i32,
                    x2: (tcx + 4) as i32,
                    y2: (tcy - 4) as i32,
                    color: close_col,
                },
                Shape::Line {
                    x1: (w - 46 * 3 + 18) as i32,
                    y1: mid as i32,
                    x2: (w - 46 * 2 - 18) as i32,
                    y2: mid as i32,
                    color: icon,
                },
                Shape::HollowRect { x: (w - 46 * 2 + 18) as i32, y: (mid - 5) as i32, w: 10, h: 10, color: icon },
                Shape::Line {
                    x1: (ccx - 5) as i32,
                    y1: (mid - 5) as i32,
                    x2: (ccx + 5) as i32,
                    y2: (mid + 5) as i32,
                    color: icon,
                },
                Shape::Line {
                    x1: (ccx - 5) as i32,
                    y1: (mid + 5) as i32,
                    x2: (ccx + 5) as i32,
                    y2: (mid - 5) as i32,
                    color: icon,
                },
            ]
        },
        WindowStyle::Linux => {
            let cx = w - 24;
            let cy = bar / 2;
            let icon = shade(light, Rgb(50, 50, 50), Rgb(200, 200, 200));
            seq![
                Shape::FillRect {
                    x: 0,
                    y: 0,
                    w: w as i32,
                    h: bar as i32,
                    color: shade(light, Rgb(235, 235, 235), Rgb(36, 36, 36)),
                },
                Shape::Title {
                    x: half(w - title_w) as i32,
                    y: half(bar - title_h) as i32,
                    color: colors.title_text,
                },
                Shape::FillCircle {
                    cx: cx as i32,
                    cy: cy as i32,
                    r: 12,
                    color: shade(light, Rgb(210, 210, 210), Rgb(60, 60, 60)),
                },
                Shape::Line {
                    x1: (cx - 4) as i32,
                    y1: (cy - 4) as i32,
                    x2: (cx + 4) as i32,
                    y2: (cy + 4) as i32,
                    color: icon,
                },
                Shape::Line {
                    x1: (cx - 4) as i32,
                    y1: (cy + 4) as i32,
                    x2: (cx + 4) as i32,
                    y2: (cy - 4) as i32,
                    color: icon,
                },
            ]
        },
    };
    frame.push(border)
}

/// The shapes of the window frame (see [`chrome_spec`]).
pub fn chrome_shapes(style: WindowStyle, theme: &str, w: i32, h: i32, title_w: i32, title_h: i32) -> (shapes: Vec<Shape>)
    requires
        w >= i32::MIN + 200,
        h >= i32::MIN + 1,
        i32::MIN <= w - title_w <= i32::MAX,
        title_h >= i32::MIN + 50,
    ensures
        shapes@ == chrome_spec(style, theme@, w as int, h as int, title_w as int, title_h as int),
{
    let light = str_eq(theme, "light");
    let colors = window_colors(style, theme);
    let bar = title_bar_height(style);
    let mut shapes: Vec<Shape> = Vec::new();
    match style {
        WindowStyle::Macos => {
            shapes.push(Shape::FillRect { x: 0, y: 0, w, h: bar, color: colors.title_bg });
            shapes.push(Shape::FillCircle { cx: 20, cy: bar / 2, r: 6, color: Rgb(0xff, 0x5f, 0x56) });
            shapes.push(Shape::FillCircle { cx: 40, cy: bar / 2, r: 6, color: Rgb(0xff, 0xbd, 0x2e) });
            shapes.push(Shape::FillCircle { cx: 60, cy: bar / 2, r: 6, color: Rgb(0x27, 0xc9, 0x3f) });
            shapes.push(Shape::Title { x: (w - title_w) / 2, y: (bar - title_h) / 2, color: colors.title_text });
        },
        WindowStyle::Windows => {
            let tab_bg = if light { Rgb(243, 243, 243) } else { Rgb(28, 28, 28) };
            let active = if light { Rgb(255, 255, 255) } else { Rgb(16, 16, 16) };
            let tab_w = windows_tab_width(w);
            shapes.push(Shape::FillRect { x: 0, y: 0, w, h: bar, color: tab_bg });
            shapes.push(Shape::FillRect { x: 10, y: 8, w: tab_w, h: bar - 8, color: active });
            shapes.push(Shape::FillRect { x: 10, y: 8, w: 2, h: 2, color: tab_bg });
            shapes.push(Shape::FillRect { x: 10 + tab_w - 2, y: 8, w: 2, h: 2, color: tab_bg });
            shapes.push(Shape::FillRect { x: 11, y: 9, w: 1, h: 1, color: active });
            shapes.push(Shape::FillRect { x: 10 + tab_w - 2, y: 9, w: 1, h: 1, color: active });
            shapes.push(Shape::Title { x: 32, y: 8 + (bar - 8 - title_h) / 2, color: colors.title_text });
            let close_col = if light { Rgb(100, 100, 100) } else { Rgb(150, 150, 150) };
            let tcx = 10 + tab_w - 20;
            let tcy = 8 + (bar - 8) / 2;
            shapes.push(Shape::Line { x1: tcx - 4, y1: tcy - 4, x2: tcx + 4, y2: tcy + 4, color: close_col });
            shapes.push(Shape::Line { x1: tcx - 4, y1: tcy + 4, x2: tcx + 4, y2: tcy - 4, color: close_col });
            let ctrl_w: i32 = 46;
            let icon = if light { Rgb(0, 0, 0) } else { Rgb(255, 255, 255) };
            let mid = bar / 2;
            shapes.push(Shape::Line { x1: w - ctrl_w * 3 + 18, y1: mid, x2: w - ctrl_w * 2 - 18, y2: mid, color: icon });
            shapes.push(Shape::HollowRect { x: w - ctrl_w * 2 + 18, y: mid - 5, w: 10, h: 10, color: icon });
            let ccx = w - ctrl_w + 23;
            shapes.push(Shape::Line { x1: ccx - 5, y1: mid - 5, x2: ccx + 5, y2: mid + 5, color: icon });
            shapes.push(Shape::Line { x1: ccx - 5, y1: mid + 5, x2: ccx + 5, y2: mid - 5, color: icon });
        },
        WindowStyle::Linux => {
            let hb_bg = if light { Rgb(235, 235, 235) } else { Rgb(36, 36, 36) };
            shapes.push(Shape::FillRect { x: 0, y: 0, w, h: bar, color: hb_bg });
            shapes.push(Shape::Title { x: (w - title_w) / 2, y: (bar - title_h) / 2, color: colors.title_text });
            let cx = w - 24;
            let cy = bar / 2;
            let btn_bg = if light { Rgb(210, 210, 210) } else { Rgb(60, 60, 60) };
            let icon = if light { Rgb(50, 50, 50) } else { Rgb(200, 200, 200) };
            shapes.push(Shape::FillCircle { cx, cy, r: 12, color: btn_bg });
            shapes.push(Shape::Line { x1: cx - 4, y1: cy - 4, x2: cx + 4, y2: cy + 4, color: icon });
            shapes.push(Shape::Line { x1: cx - 4, y1: cy + 4, x2: cx + 4, y2: cy - 4, color: icon });
        },
    }
    shapes.push(Shape::HollowRect { x: 0, y: 0, w: w - 1, h: h - 1, color: colors.border });
    proof {
        assert(shapes@ =~= chrome_spec(style, theme@, w as int, h as int, title_w as int, title_h as int));
    }
    shapes
}

/// Size of the whole image: the text block widened by the padding on each
/// side, and the title bar, padding, and at least one line of height.
pub open spec fn canvas_size_spec(
    content_w: int,
    padding: int,
    title_bar_h: int,
    n_lines: int,
    line_h: int,
) -> (int, int) {
    let text_h = if n_lines * line_h >= line_h {
        n_lines * line_h
    } else {
        line_h
    };
    (content_w + padding * 2, title_bar_h + padding * 2 + text_h)
}

pub fn canvas_size(content_w: i32, padding: i32, title_bar_h: i32, n_lines: i32, line_h: i32) -> (r: (
    i32,
    i32,
))
    requires
        i32::MIN <= padding * 2 <= i32::MAX,
        i32::MIN <= content_w + padding * 2 <= i32::MAX,
        i32::MIN <= title_bar_h + padding * 2 <= i32::MAX,
        i32::MIN <= n_lines * line_h <= i32::MAX,
        i32::MIN <= canvas_size_spec(
            content_w as int,
            padding as int,
            title_bar_h as int,
            n_lines as int,
            line_h as int,
        ).1 <= i32::MAX,
    ensures
        (r.0 as int, r.1 as int) == canvas_size_spec(
            content_w as int,
            padding as int,
            title_bar_h as int,
            n_lines as int,
            line_h as int,
        ),
{
    let block = n_lines * line_h;
    let text_h = if block >= line_h {
        block
    } else {
        line_h
    };
    (content_w + padding * 2, title_bar_h + padding * 2 + text_h)
}

} // verus!
