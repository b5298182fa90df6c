//! Themes, and the settings that persist.
//!
//! A panel asks for a role, such as a heading, and the theme says what that
//! looks like; so palettes can be swapped while the program runs.

use vstd::prelude::*;
use crate::text::{ascii_lowered, chars_of, lower_ascii, same};

verus! {

broadcast use vstd::string::group_string_axioms;

/// A colour of the terminal.
#[derive(Debug, Clone, Copy, PartialEq, Eq, Structural)]
pub enum Color {
    Reset,
    Black,
    Red,
    Green,
    Yellow,
    Blue,
    Magenta,
    Cyan,
    Gray,
    DarkGray,
    LightRed,
    LightGreen,
    LightYellow,
    LightBlue,
    LightMagenta,
    LightCyan,
    White,
    Rgb(u8, u8, u8),
}

/// How text looks: its colours, where they are set, and whether it is bold.
#[derive(Debug, Clone, Copy, PartialEq, Eq, Structural)]
pub struct Style {
    pub fg: Option<Color>,
    pub bg: Option<Color>,
    pub bold: bool,
}

/// The colours of the roles that text has on the screen.
#[derive(Debug, Clone, Copy)]
pub struct Theme {
    pub name: &'static str,
    /// Section titles, tab labels, table headers.
    pub heading: Color,
    /// Names of fields and columns.
    pub label: Color,
    /// Ordinary data.
    pub value: Color,
    /// Running, clean, healthy.
    pub good: Color,
    /// Dirty, ahead or behind, caution.
    pub warn: Color,
    /// Stopped, errors, secrets.
    pub bad: Color,
    /// The active tab and the selection.
    pub accent: Color,
    /// Units, differences, time stamps, hints.
    pub muted: Color,
    /// Borders.
    pub border: Color,
    /// Whether headings and accents are bold.
    pub bold: bool,
}

/// The default palette.
pub open spec fn dark_theme() -> Theme {
    Theme {
        name: "dark",
        heading: Color::Cyan,
        label: Color::Blue,
        value: Color::Gray,
        good: Color::Green,
        warn: Color::Yellow,
        bad: Color::Red,
        accent: Color::Magenta,
        muted: Color::DarkGray,
        border: Color::Cyan,
        bold: false,
    }
}

/// The Nord palette.
pub open spec fn nord_theme() -> Theme {
    Theme {
        name: "nord",
        heading: Color::Rgb(129, 161, 193),
        label: Color::Rgb(136, 192, 208),
        value: Color::Rgb(216, 222, 233),
        good: Color::Rgb(163, 190, 140),
        warn: Color::Rgb(235, 203, 139),
        bad: Color::Rgb(191, 97, 106),
        accent: Color::Rgb(180, 142, 173),
        muted: Color::Rgb(94, 109, 131),
        border: Color::Rgb(76, 86, 106),
        bold: false,
    }
}

/// The palette of strong contrasts.
pub open spec fn high_contrast_theme() -> Theme {
    Theme {
        name: "high-contrast",
        heading: Color::LightCyan,
        label: Color::LightBlue,
        value: Color::White,
        good: Color::LightGreen,
        warn: Color::LightYellow,
        bad: Color::LightRed,
        accent: Color::LightMagenta,
        muted: Color::DarkGray,
        border: Color::White,
        bold: true,
    }
}

/// The palette without colours.
pub open spec fn mono_theme() -> Theme {
    Theme {
        name: "mono",
        heading: Color::Reset,
        label: Color::Reset,
        value: Color::Reset,
        good: Color::Reset,
        warn: Color::Reset,
        bad: Color::Reset,
        accent: Color::Reset,
        muted: Color::Reset,
        border: Color::Reset,
        bold: false,
    }
}

/// The built-in themes, in the order in which they are cycled.
pub open spec fn built_in() -> Seq<Theme> {
    seq![dark_theme(), nord_theme(), high_contrast_theme(), mono_theme()]
}

/// The theme with a name; the default for any other name.
pub open spec fn theme_named(name: Seq<char>) -> Theme {
    if name == "nord"@ {
        nord_theme()
    } else if name == "high-contrast"@ {
        high_contrast_theme()
    } else if name == "mono"@ {
        mono_theme()
    } else {
        dark_theme()
    }
}

/// The theme after the one with a name; the default after the last, and after
/// any name that is none of theirs.
pub open spec fn theme_after(name: Seq<char>) -> Theme {
    if name == "dark"@ {
        nord_theme()
    } else if name == "nord"@ {
        high_contrast_theme()
    } else if name == "high-contrast"@ {
        mono_theme()
    } else {
        dark_theme()
    }
}

/// A style of one colour.
pub open spec fn in_color(c: Color, bold: bool) -> Style {
    Style { fg: Some(c), bg: None, bold }
}

impl Theme {
    /// The default palette.
    pub fn dark() -> (r: Theme)
        ensures
            r == dark_theme(),
    {
        Theme {
            name: "dark",
            heading: Color::Cyan,
            label: Color::Blue,
            value: Color::Gray,
            good: Color::Green,
            warn: Color::Yellow,
            bad: Color::Red,
            accent: Color::Magenta,
            muted: Color::DarkGray,
            border: Color::Cyan,
            bold: false,
        }
    }

    /// The Nord palette.
    pub fn nord() -> (r: Theme)
        ensures
            r == nord_theme(),
    {
        Theme {
            name: "nord",
            heading: Color::Rgb(129, 161, 193),
            label: Color::Rgb(136, 192, 208),
            value: Color::Rgb(216, 222, 233),
            good: Color::Rgb(163, 190, 140),
            warn: Color::Rgb(235, 203, 139),
            bad: Color::Rgb(191, 97, 106),
            accent: Color::Rgb(180, 142, 173),
            muted: Color::Rgb(94, 109, 131),
            border: Color::Rgb(76, 86, 106),
            bold: false,
        }
    }

    /// The palette of strong contrasts.
    pub fn high_contrast() -> (r: Theme)
        ensures
            r == high_contrast_theme(),
    {
        Theme {
            name: "high-contrast",
            heading: Color::LightCyan,
            label: Color::LightBlue,
            value: Color::White,
            good: Color::LightGreen,
            warn: Color::LightYellow,
            bad: Color::LightRed,
            accent: Color::LightMagenta,
            muted: Color::DarkGray,
            border: Color::White,
            bold: true,
        }
    }

    /// The palette without colours.
    pub fn mono() -> (r: Theme)
        ensures
            r == mono_theme(),
    {
        Theme {
            name: "mono",
            heading: Color::Reset,
            label: Color::Reset,
            value: Color::Reset,
            good: Color::Reset,
            warn: Color::Reset,
            bad: Color::Reset,
            accent: Color::Reset,
            muted: Color::Reset,
            border: Color::Reset,
            bold: false,
        }
    }

    /// The built-in themes, in the order in which they are cycled.
    pub fn all() -> (r: Vec<Theme>)
        ensures
            r@ == built_in(),
    {
        let r = vec![Theme::dark(), Theme::nord(), Theme::high_contrast(), Theme::mono()];
        assert(r@ =~= built_in());
        r
    }

    /// The theme with a name, whatever its case; the default for any other name.
    pub fn resolve(name: &str) -> (r: Theme)
        ensures
            r == theme_named(ascii_lowered(name@)),
    {
        let n = lower_ascii(&chars_of(name));
        if same(&n, "nord") {
            Theme::nord()
        } else if same(&n, "high-contrast") {
            Theme::high_contrast()
        } else if same(&n, "mono") {
            Theme::mono()
        } else {
            Theme::dark()
        }
    }

    /// The next theme in the cycle.
    pub fn next(&self) -> (r: Theme)
        ensures
            r == theme_after(self.name@),
    {
        let n = chars_of(self.name);
        if same(&n, "dark") {
            Theme::nord()
        } else if same(&n, "nord") {
            Theme::high_contrast()
        } else if same(&n, "high-contrast") {
            Theme::mono()
        } else {
            Theme::dark()
        }
    }

    /// A style of one colour.
    fn styled(&self, c: Color, bold: bool) -> (r: Style)
        ensures
            r == in_color(c, bold),
    {
        Style { fg: Some(c), bg: None, bold }
    }

    pub fn heading(&self) -> (r: Style)
        ensures
            r == in_color(self.heading, self.bold),
    {
        self.styled(self.heading, self.bold)
    }

    pub fn label(&self) -> (r: Style)
        ensures
            r == in_color(self.label, false),
    {
        self.styled(self.label, false)
    }

    pub fn value(&self) -> (r: Style)
        ensures
            r == in_color(self.value, false),
    {
        self.styled(self.value, false)
    }

    pub fn good(&self) -> (r: Style)
        ensures
            r == in_color(self.good, self.bold),
    {
        self.styled(self.good, self.bold)
    }

    pub fn warn(&self) -> (r: Style)
        ensures
            r == in_color(self.warn, self.bold),
    {
        self.styled(self.warn, self.bold)
    }

    pub fn bad(&self) -> (r: Style)
        ensures
            r == in_color(self.bad, self.bold),
    {
        self.styled(self.bad, self.bold)
    }

    pub fn accent(&self) -> (r: Style)
        ensures
            r == in_color(self.accent, self.bold),
    {
        self.styled(self.accent, self.bold)
    }

    pub fn muted(&self) -> (r: Style)
        ensures
            r == in_color(self.muted, false),
    {
        self.styled(self.muted, false)
    }

    pub fn border(&self) -> (r: Style)
        ensures
            r == in_color(self.border, false),
    {
        self.styled(self.border, false)
    }

    /// The highlight of the active tab and the selection: the accent behind
    /// black, bold.
    pub fn selected(&self) -> (r: Style)
        ensures
            r == (Style { fg: Some(Color::Black), bg: Some(self.accent), bold: true }),
    {
        Style { fg: Some(Color::Black), bg: Some(self.accent), bold: true }
    }
}

/// The settings that persist.
#[derive(Debug, Clone, Copy)]
pub struct Config {
    pub theme: Theme,
    pub verbose: bool,
}

/// The settings of a fresh start.
pub open spec fn default_config() -> Config {
    Config { theme: dark_theme(), verbose: false }
}

impl Default for Config {
    fn default() -> (r: Config)
        ensures
            r == default_config(),
    {
        Config { theme: Theme::dark(), verbose: false }
    }
}

/// A value in a settings file, as far as settings are read.
#[derive(Debug)]
pub enum Setting {
    Text(String),
    Flag(bool),
    Other,
}

/// What a setting holds.
pub enum SettingView {
    Text(Seq<char>),
    Flag(bool),
    Other,
}

impl View for Setting {
    type V = SettingView;

    open spec fn view(&self) -> SettingView {
        match self {
            Setting::Text(s) => SettingView::Text(s@),
            Setting::Flag(b) => SettingView::Flag(*b),
            Setting::Other => SettingView::Other,
        }
    }
}

/// What named settings hold.
pub open spec fn settings(v: Seq<(String, Setting)>) -> Seq<(Seq<char>, SettingView)> {
    v.map_values(|s: (String, Setting)| (s.0@, s.1@))
}

/// The first setting with a name.
pub open spec fn setting_named(s: Seq<(Seq<char>, SettingView)>, key: Seq<char>) -> Option<
    SettingView,
>
    decreases s.len(),
{
    if s.len() == 0 {
        None
    } else if s.first().0 == key {
        Some(s.first().1)
    } else {
        setting_named(s.drop_first(), key)
    }
}

/// The configuration that settings ask for; what is missing or of another kind
/// is the default.
pub open spec fn config_of(s: Seq<(Seq<char>, SettingView)>) -> Config {
    Config {
        theme: match setting_named(s, "theme"@) {
            Some(SettingView::Text(name)) => theme_named(ascii_lowered(name)),
            _ => theme_named(ascii_lowered("dark"@)),
        },
        verbose: match setting_named(s, "verbose"@) {
            Some(SettingView::Flag(b)) => b,
            _ => false,
        },
    }
}

/// The top-level settings that toml reads in a text; nothing if it is no TOML
/// document.
pub uninterp spec fn toml_settings(text: Seq<char>) -> Option<Seq<(Seq<char>, SettingView)>>;

/// Whether a text is made of lower-case ASCII letters and hyphens alone.
pub open spec fn hyphenated(s: Seq<char>) -> bool {
    forall|i: int| 0 <= i < s.len() ==> 'a' <= #[trigger] s[i] <= 'z' || s[i] == '-'
}

/// The settings file of a theme and a verbosity.
pub open spec fn config_text(name: Seq<char>, verbose: bool) -> Seq<char> {
    "# wf TUI settings\n# theme: dark | nord | high-contrast | mono\ntheme = \""@ + name
        + "\"\n# verbose: explain technical headings (per-section captions)\nverbose = "@ + (if verbose {
        "true"@
    } else {
        "false"@
    }) + "\n"@
}

/// `toml::Value` read from a text (its `FromStr`): the top-level table of a TOML
/// document, or nothing where the text is none. What is read in a text depends
/// on the text alone. Of a settings file it is the two settings that the file
/// writes, given that the name needs no escapes.
#[verifier::external_body]
fn parse_settings(text: &str) -> (r: Option<Vec<(String, Setting)>>)
    ensures
        match r {
            Some(v) => toml_settings(text@) == Some(settings(v@)),
            None => toml_settings(text@) is None,
        },
        forall|name: Seq<char>, verbose: bool|
            text@ == #[trigger] config_text(name, verbose) && hyphenated(name) ==> r is Some
                && settings(r->0@) == seq![
                ("theme"@, SettingView::Text(name)),
                ("verbose"@, SettingView::Flag(verbose)),
            ],
{
    match text.parse::<toml::Value>() {
        Ok(toml::Value::Table(t)) => Some(t.into_iter().map(|s| match s.1 {
            toml::Value::String(x) => (s.0, Setting::Text(x)),
            toml::Value::Boolean(b) => (s.0, Setting::Flag(b)),
            _ => (s.0, Setting::Other),
        }).collect()),
        Ok(_) => Some(Vec::new()),
        Err(_) => None,
    }
}

/// The first setting with a name.
fn find_setting<'a>(s: &'a Vec<(String, Setting)>, key: &str) -> (r: Option<&'a Setting>)
    ensures
        match r {
            Some(v) => setting_named(settings(s@), key@) == Some(v@),
            None => setting_named(settings(s@), key@) is None,
        },
{
    let ghost all = settings(s@);
    let mut i: usize = 0;
    assert(all.skip(0) =~= all);
    while i < s.len()
        invariant
            i <= s@.len(),
            all == settings(s@),
            setting_named(all, key@) == setting_named(all.skip(i as int), key@),
        decreases s@.len() - i,
    {
        assert(all.skip(i as int).first() == (s@[i as int].0@, s@[i as int].1@));
        if same(&chars_of(s[i].0.as_str()), key) {
            return Some(&s[i].1);
        }
        assert(all.skip(i as int).drop_first() =~= all.skip(i + 1));
        i += 1;
    }
    None
}

/// Where the settings are kept: a file, below the home directory or not.
pub struct ConfigPath {
    pub below_home: bool,
    pub file: &'static str,
}

impl Config {
    /// Where the settings are kept: `.config/wf/config.toml` below the home
    /// directory if that directory is there, else `.wf.toml` below the home
    /// directory, or here if there is no home.
    pub fn path(has_home: bool, has_config_dir: bool) -> (r: ConfigPath)
        ensures
            r.below_home == has_home,
            r.file@ == (if has_home && has_config_dir {
                ".config/wf/config.toml"@
            } else {
                ".wf.toml"@
            }),
    {
        if has_home && has_config_dir {
            ConfigPath { below_home: true, file: ".config/wf/config.toml" }
        } else {
            ConfigPath { below_home: has_home, file: ".wf.toml" }
        }
    }

    /// The configuration that settings ask for.
    pub fn from_settings(s: &Vec<(String, Setting)>) -> (r: Config)
        ensures
            r == config_of(settings(s@)),
    {
        let theme = match find_setting(s, "theme") {
            Some(Setting::Text(name)) => Theme::resolve(name.as_str()),
            _ => Theme::resolve("dark"),
        };
        let verbose = match find_setting(s, "verbose") {
            Some(Setting::Flag(b)) => *b,
            _ => false,
        };
        Config { theme, verbose }
    }

    /// The configuration that a settings file asks for: the default if the file
    /// cannot be read or is no TOML. What `save` wrote of a built-in theme is
    /// read back.
    pub fn load(text: Option<&str>) -> (r: Config)
        ensures
            r == (match text {
                Some(t) => match toml_settings(t@) {
                    Some(s) => config_of(s),
                    None => default_config(),
                },
                None => default_config(),
            }),
            forall|saved: Config|
                built_in().contains(saved.theme) && text is Some && text->0@
                    == #[trigger] config_text(saved.theme.name@, saved.verbose) ==> r == saved,
    {
        let text = match text {
            Some(t) => t,
            None => {
                return Config::default();
            },
        };
        match parse_settings(text) {
            Some(s) => {
                proof {
                    assert forall|saved: Config|
                        built_in().contains(saved.theme) && text@ == #[trigger] config_text(
                            saved.theme.name@,
                            saved.verbose,
                        ) implies config_of(settings(s@)) == saved by {
                        lemma_settings_ask_for(saved);
                    }
                }
                Config::from_settings(&s)
            },
            None => {
                proof {
                    assert forall|saved: Config|
                        built_in().contains(saved.theme) implies text@ != #[trigger] config_text(
                        saved.theme.name@,
                        saved.verbose,
                    ) by {
                        lemma_settings_ask_for(saved);
                    }
                }
                Config::default()
            },
        }
    }

    /// The settings file of the configuration.
    pub fn save(&self) -> (r: String)
        ensures
            r@ == config_text(self.theme.name@, self.verbose),
    {
        let mut out =
            "# wf TUI settings\n# theme: dark | nord | high-contrast | mono\ntheme = \"".to_owned();
        out.append(self.theme.name);
        out.append(
            "\"\n# verbose: explain technical headings (per-section captions)\nverbose = ",
        );
        if self.verbose {
            out.append("true");
        } else {
            out.append("false");
        }
        out.append("\n");
        out
    }
}

/// The settings of a built-in theme ask for what they were made of.
proof fn lemma_settings_ask_for(saved: Config)
    requires
        built_in().contains(saved.theme),
    ensures
        hyphenated(saved.theme.name@),
        config_of(
            seq![
                ("theme"@, SettingView::Text(saved.theme.name@)),
                ("verbose"@, SettingView::Flag(saved.verbose)),
            ],
        ) == saved,
{
    names_resolve(saved.theme);
    let s = seq![
        ("theme"@, SettingView::Text(saved.theme.name@)),
        ("verbose"@, SettingView::Flag(saved.verbose)),
    ];
    reveal_strlit("theme");
    reveal_strlit("verbose");
    assert("theme"@ != "verbose"@) by {
        assert("theme"@.len() != "verbose"@.len());
    }
    assert(s.drop_first().first() == s[1]);
    reveal_with_fuel(setting_named, 3);
}

/// The name of a built-in theme is made of lower-case letters and hyphens, and
/// names that theme.
pub proof fn names_resolve(t: Theme)
    requires
        built_in().contains(t),
    ensures
        hyphenated(t.name@),
        theme_named(ascii_lowered(t.name@)) == t,
{
    reveal_strlit("dark");
    reveal_strlit("nord");
    reveal_strlit("high-contrast");
    reveal_strlit("mono");
    assert(hyphenated(t.name@));
    assert(ascii_lowered(t.name@) =~= t.name@);
    assert("dark"@[0] == 'd' && "nord"@[0] == 'n' && "mono"@[0] == 'm' && "high-contrast"@[0]
        == 'h');
}

/// The case of a theme's name does not matter.
pub proof fn case_does_not_matter(name: Seq<char>)
    ensures
        theme_named(ascii_lowered(ascii_lowered(name))) == theme_named(ascii_lowered(name)),
{
    assert(ascii_lowered(ascii_lowered(name)) =~= ascii_lowered(name));
}

/// Each built-in theme is followed by the next in the list, the last by the
/// first: going round the cycle comes back.
pub proof fn themes_cycle(i: int)
    requires
        0 <= i < built_in().len(),
    ensures
        theme_after(built_in()[i].name@) == built_in()[(i + 1) % built_in().len() as int],
{
    reveal_strlit("dark");
    reveal_strlit("nord");
    reveal_strlit("high-contrast");
    reveal_strlit("mono");
    assert("dark"@[0] == 'd' && "nord"@[0] == 'n' && "mono"@[0] == 'm' && "high-contrast"@[0]
        == 'h');
    assert(built_in().len() == 4);
    if i == 0 {
    } else if i == 1 {
    } else if i == 2 {
    } else {
        assert(i == 3);
    }
}

} // verus!
