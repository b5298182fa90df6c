//! Themes and settings.

use wf::theme::{Color, Config, Setting, Style, Theme};

#[test]
fn themes_by_name() {
    assert_eq!(Theme::resolve("nord").name, "nord");
    assert_eq!(Theme::resolve("High-Contrast").name, "high-contrast");
    assert_eq!(Theme::resolve("MONO").name, "mono");
    assert_eq!(Theme::resolve("dark").name, "dark");
    assert_eq!(Theme::resolve("pink").name, "dark");
    for t in Theme::all() {
        assert_eq!(Theme::resolve(t.name).name, t.name);
    }
}

#[test]
fn themes_go_round() {
    let mut t = Theme::dark();
    let mut seen = vec![];
    for _ in 0..5 {
        seen.push(t.name);
        t = t.next();
    }
    assert_eq!(seen, vec!["dark", "nord", "high-contrast", "mono", "dark"]);
    let stray = Theme { name: "stray", ..Theme::nord() };
    assert_eq!(stray.next().name, "dark");
}

#[test]
fn roles() {
    let d = Theme::dark();
    let of = |c: Color, bold: bool| Style { fg: Some(c), bg: None, bold };
    assert_eq!(d.heading(), of(Color::Cyan, false));
    assert_eq!(d.label(), of(Color::Blue, false));
    assert_eq!(d.value(), of(Color::Gray, false));
    assert_eq!(d.good(), of(Color::Green, false));
    assert_eq!(d.warn(), of(Color::Yellow, false));
    assert_eq!(d.bad(), of(Color::Red, false));
    assert_eq!(d.accent(), of(Color::Magenta, false));
    assert_eq!(d.muted(), of(Color::DarkGray, false));
    assert_eq!(d.border(), of(Color::Cyan, false));
    let h = Theme::high_contrast();
    assert_eq!(h.good(), of(Color::LightGreen, true));
    assert_eq!(h.label(), of(Color::LightBlue, false));
    assert_eq!(
        Theme::nord().selected(),
        Style { fg: Some(Color::Black), bg: Some(Color::Rgb(180, 142, 173)), bold: true }
    );
}

#[test]
fn settings_come_back() {
    for theme in Theme::all() {
        for verbose in [false, true] {
            let saved = Config { theme, verbose }.save();
            let read = Config::load(Some(&saved));
            assert_eq!(read.theme.name, theme.name);
            assert_eq!(read.theme.heading, theme.heading);
            assert_eq!(read.verbose, verbose);
        }
    }
}

#[test]
fn settings_as_written() {
    assert_eq!(
        Config::default().save(),
        "# wf TUI settings\n# theme: dark | nord | high-contrast | mono\ntheme = \"dark\"\n# \
         verbose: explain technical headings (per-section captions)\nverbose = false\n"
    );
}

#[test]
fn missing_settings_are_defaults() {
    for text in [
        None,
        Some(""),
        Some("theme = "),
        Some("theme = 3\nverbose = \"yes\""),
        Some("[other]\ntheme = \"nord\"\nverbose = true"),
    ] {
        let c = Config::load(text);
        assert_eq!(c.theme.name, "dark", "{text:?}");
        assert!(!c.verbose, "{text:?}");
    }
    let c = Config::load(Some("verbose = true"));
    assert_eq!((c.theme.name, c.verbose), ("dark", true));
    let c = Config::load(Some("theme = 'NORD'"));
    assert_eq!((c.theme.name, c.verbose), ("nord", false));
}

#[test]
fn settings_by_hand() {
    let c = Config::from_settings(&vec![
        ("theme".into(), Setting::Text("mono".into())),
        ("verbose".into(), Setting::Flag(true)),
    ]);
    assert_eq!((c.theme.name, c.verbose), ("mono", true));
}

#[test]
fn places_of_settings() {
    let p = Config::path(true, true);
    assert_eq!((p.below_home, p.file), (true, ".config/wf/config.toml"));
    let p = Config::path(true, false);
    assert_eq!((p.below_home, p.file), (true, ".wf.toml"));
    let p = Config::path(false, true);
    assert_eq!((p.below_home, p.file), (false, ".wf.toml"));
}
