use savecodex::ansi::Rgb;
use savecodex::term::{
    canvas_size, chrome_shapes, corner_transparent, display_title, prompt_ansi, screen_lines, title_bar_height,
    title_font, window_colors, windows_tab_width, Shape, TermGenOptions, TitleFont, WindowStyle,
};

#[test]
fn default_options() {
    let o = TermGenOptions::default();
    assert_eq!(o.title, "bash");
    assert_eq!(o.theme, "dark");
    assert_eq!(o.prompt, "$ ");
    assert!(!o.no_prompt_highlight);
    assert_eq!(o.padding, 28);
    assert_eq!(o.style, WindowStyle::Windows);
    assert_eq!(o.username, "local");
    assert_eq!(o.hostname, "host");
    assert_eq!(o.cwd, "~");
    assert_eq!(WindowStyle::default(), WindowStyle::Windows);
}

#[test]
fn colours_by_style_and_theme() {
    let c = window_colors(WindowStyle::Windows, "dark");
    assert_eq!((c.bg, c.title_bg, c.default_fg), (Rgb(12, 12, 12), Rgb(45, 45, 45), Rgb(242, 242, 242)));
    assert_eq!(c.border, Rgb(51, 51, 51));
    let c = window_colors(WindowStyle::Macos, "dark");
    assert_eq!((c.bg, c.title_bg), (Rgb(0, 0, 0), Rgb(38, 38, 38)));
    let c = window_colors(WindowStyle::Linux, "solarized");
    assert_eq!((c.bg, c.title_bg, c.title_text), (Rgb(30, 30, 30), Rgb(45, 45, 45), Rgb(0xee, 0xee, 0xee)));
    let c = window_colors(WindowStyle::Macos, "light");
    assert_eq!((c.bg, c.title_bg, c.default_fg, c.border), (Rgb(255, 255, 255), Rgb(235, 235, 235), Rgb(0, 0, 0), Rgb(200, 200, 200)));
    assert_eq!(c.title_text, Rgb(0x55, 0x55, 0x55));
}

#[test]
fn titles() {
    assert_eq!(display_title(WindowStyle::Macos, "bash"), "zsh");
    assert_eq!(display_title(WindowStyle::Windows, "bash"), "Windows PowerShell");
    assert_eq!(display_title(WindowStyle::Linux, "bash"), "Terminal");
    assert_eq!(display_title(WindowStyle::Linux, "my run"), "my run");
    assert_eq!(title_bar_height(WindowStyle::Windows), 42);
    assert_eq!(title_bar_height(WindowStyle::Macos), 40);
}

#[test]
fn platform_prompts() {
    let mut o = TermGenOptions::default();
    assert_eq!(prompt_ansi(&o), "\x1b[93mPS C:\\Users\\local>\x1b[0m ");
    o.style = WindowStyle::Macos;
    assert_eq!(prompt_ansi(&o), "\x1b[36mlocal@host\x1b[0m \x1b[34m~\x1b[0m % ");
    o.style = WindowStyle::Linux;
    o.cwd = "/tmp/x".to_string();
    assert_eq!(prompt_ansi(&o), "\x1b[32mlocal@host\x1b[0m:\x1b[34m/tmp/x\x1b[0m$ ");
}

#[test]
fn screen_lines_highlight_the_prompt() {
    let mut o = TermGenOptions::default();
    o.style = WindowStyle::Linux;
    let fg = Rgb(242, 242, 242);
    let lines = screen_lines("$ run a.py\nhello\n\n", &o, fg);
    assert_eq!(lines.len(), 2);
    let texts: Vec<&str> = lines[0].iter().map(|r| r.text.as_str()).collect();
    assert_eq!(texts, vec!["local@host", ":", "~", "$ ", "run a.py"]);
    assert_eq!(lines[0][0].color, Rgb(0x4e, 0x9a, 0x06));
    assert_eq!(lines[1].len(), 1);
    assert_eq!(lines[1][0].text, "hello");
    o.no_prompt_highlight = true;
    let lines = screen_lines("$ run a.py", &o, fg);
    assert_eq!(lines[0].len(), 1);
    assert_eq!(lines[0][0].text, "$ run a.py");
    let lines = screen_lines("", &o, fg);
    assert_eq!(lines.len(), 1);
    assert!(lines[0].is_empty());
}

#[test]
fn rounded_corners() {
    assert!(corner_transparent(0, 0, 100, 50));
    assert!(!corner_transparent(10, 10, 100, 50));
    assert!(!corner_transparent(50, 0, 100, 50));
    assert!(corner_transparent(99, 49, 100, 50));
    for (x, y) in [(0, 0), (1, 2), (3, 9), (9, 3), (5, 5)] {
        assert_eq!(corner_transparent(x, y, 100, 50), corner_transparent(99 - x, y, 100, 50));
        assert_eq!(corner_transparent(x, y, 100, 50), corner_transparent(x, 49 - y, 100, 50));
    }
}

#[test]
fn geometry() {
    assert_eq!(windows_tab_width(1000), 240);
    assert_eq!(windows_tab_width(300), 150);
    assert_eq!(canvas_size(400, 28, 42, 3, 24), (456, 42 + 56 + 72));
    assert_eq!(canvas_size(400, 28, 40, 0, 24), (456, 40 + 56 + 24));
}

#[test]
fn macos_frame_shapes() {
    let shapes = chrome_shapes(WindowStyle::Macos, "dark", 400, 200, 100, 15);
    assert_eq!(shapes, vec![
        Shape::FillRect { x: 0, y: 0, w: 400, h: 40, color: Rgb(38, 38, 38) },
        Shape::FillCircle { cx: 20, cy: 20, r: 6, color: Rgb(0xff, 0x5f, 0x56) },
        Shape::FillCircle { cx: 40, cy: 20, r: 6, color: Rgb(0xff, 0xbd, 0x2e) },
        Shape::FillCircle { cx: 60, cy: 20, r: 6, color: Rgb(0x27, 0xc9, 0x3f) },
        Shape::Title { x: 150, y: 12, color: Rgb(0xbb, 0xbb, 0xbb) },
        Shape::HollowRect { x: 0, y: 0, w: 399, h: 199, color: Rgb(51, 51, 51) },
    ]);
}

#[test]
fn windows_frame_shapes_on_a_narrow_light_window() {
    let shapes = chrome_shapes(WindowStyle::Windows, "light", 300, 100, 80, 13);
    assert_eq!(shapes.len(), 14);
    assert_eq!(shapes[0], Shape::FillRect { x: 0, y: 0, w: 300, h: 42, color: Rgb(243, 243, 243) });
    // The tab is 150 pixels wide: the window is narrower than 240 + 150.
    assert_eq!(shapes[1], Shape::FillRect { x: 10, y: 8, w: 150, h: 34, color: Rgb(255, 255, 255) });
    assert_eq!(shapes[3], Shape::FillRect { x: 158, y: 8, w: 2, h: 2, color: Rgb(243, 243, 243) });
    assert_eq!(shapes[6], Shape::Title { x: 32, y: 18, color: Rgb(0x11, 0x11, 0x11) });
    assert_eq!(shapes[7], Shape::Line { x1: 136, y1: 21, x2: 144, y2: 29, color: Rgb(100, 100, 100) });
    assert_eq!(shapes[9], Shape::Line { x1: 180, y1: 21, x2: 190, y2: 21, color: Rgb(0, 0, 0) });
    assert_eq!(shapes[10], Shape::HollowRect { x: 226, y: 16, w: 10, h: 10, color: Rgb(0, 0, 0) });
    assert_eq!(shapes[11], Shape::Line { x1: 272, y1: 16, x2: 282, y2: 26, color: Rgb(0, 0, 0) });
    assert_eq!(shapes[13], Shape::HollowRect { x: 0, y: 0, w: 299, h: 99, color: Rgb(200, 200, 200) });
}

#[test]
fn linux_title_wider_than_window_rounds_toward_zero() {
    let shapes = chrome_shapes(WindowStyle::Linux, "dark", 100, 80, 151, 15);
    assert_eq!(shapes[1], Shape::Title { x: -25, y: 12, color: Rgb(0xee, 0xee, 0xee) });
    assert_eq!(shapes[2], Shape::FillCircle { cx: 76, cy: 20, r: 12, color: Rgb(60, 60, 60) });
}

#[test]
fn title_fonts_by_style() {
    assert_eq!(title_font(WindowStyle::Windows), TitleFont { bold: false, percent: 75 });
    assert_eq!(title_font(WindowStyle::Macos), TitleFont { bold: true, percent: 85 });
    assert_eq!(title_font(WindowStyle::Linux), TitleFont { bold: true, percent: 85 });
}
