use vstd::prelude::*;

use crate::action::{ColorSchemeId, ColorSchemeKind};
use crate::text::{owned, push_char, text_eq, texts};

verus! {

/// The application theme setting.
#[derive(Clone, Copy, Debug, PartialEq, Eq, Structural)]
pub enum AppTheme {
    Dark,
    Light,
    System,
}

/// Position of a theme in the theme choice list ("match desktop", "dark",
/// "light").
pub open spec fn app_theme_position(t: AppTheme) -> usize {
    match t {
        AppTheme::System => 0,
        AppTheme::Dark => 1,
        AppTheme::Light => 2,
    }
}

/// Position of the theme setting in the theme choice list.
pub fn app_theme_index(t: AppTheme) -> (r: usize)
    ensures
        r == app_theme_position(t),
{
    match t {
        AppTheme::Dark => 1,
        AppTheme::Light => 2,
        AppTheme::System => 0,
    }
}

/// The theme chosen at a position of the theme choice list; any position
/// other than "dark" and "light" means "match desktop".
pub open spec fn app_theme_for_position(index: usize) -> AppTheme {
    if index == 1 {
        AppTheme::Dark
    } else if index == 2 {
        AppTheme::Light
    } else {
        AppTheme::System
    }
}

/// The theme chosen at a position of the theme choice list.
pub fn app_theme_at(index: usize) -> (r: AppTheme)
    ensures
        r == app_theme_for_position(index),
{
    match index {
        1 => AppTheme::Dark,
        2 => AppTheme::Light,
        _ => AppTheme::System,
    }
}

/// Choosing the theme shown as selected keeps the setting.
pub proof fn lemma_app_theme_round_trip(t: AppTheme)
    ensures
        app_theme_for_position(app_theme_position(t)) == t,
{
}

/// The opacity setting, in percent: at most 100.
pub fn opacity_setting(opacity: u8) -> (r: u8)
    ensures
        r == (if opacity < 100 {
            opacity
        } else {
            100
        }),
        r <= 100,
{
    if opacity < 100 {
        opacity
    } else {
        100
    }
}

/// Position of the first entry with the given text.
pub fn position_of_text(v: &Vec<String>, x: &str) -> (r: Option<usize>)
    ensures
        match r {
            Some(i) => i < v@.len() && v@[i as int]@ == x@ && forall|k: int|
                0 <= k < i ==> (#[trigger] v@[k])@ != x@,
            None => forall|k: int| 0 <= k < v@.len() ==> (#[trigger] v@[k])@ != x@,
        },
{
    let mut i: usize = 0;
    while i < v.len()
        invariant
            i <= v@.len(),
            forall|k: int| 0 <= k < i ==> (#[trigger] v@[k])@ != x@,
        decreases v@.len() - i,
    {
        if text_eq(v[i].as_str(), x) {
            return Some(i);
        }
        i = i + 1;
    }
    None
}

/// Position of the first entry equal to `x`.
pub fn position_of_u16(v: &Vec<u16>, x: u16) -> (r: Option<usize>)
    ensures
        match r {
            Some(i) => i < v@.len() && v@[i as int] == x && forall|k: int| 0 <= k < i ==> v@[k] != x,
            None => forall|k: int| 0 <= k < v@.len() ==> v@[k] != x,
        },
{
    let mut i: usize = 0;
    while i < v.len()
        invariant
            i <= v@.len(),
            forall|k: int| 0 <= k < i ==> v@[k] != x,
        decreases v@.len() - i,
    {
        if v[i] == x {
            return Some(i);
        }
        i = i + 1;
    }
    None
}

/// Decimal digits of a number.
pub open spec fn decimal(n: nat) -> Seq<char>
    decreases n,
{
    if n < 10 {
        seq![digit_char(n)]
    } else {
        decimal(n / 10).push(digit_char(n % 10))
    }
}

pub open spec fn digit_char(d: nat) -> char {
    if d == 0 {
        '0'
    } else if d == 1 {
        '1'
    } else if d == 2 {
        '2'
    } else if d == 3 {
        '3'
    } else if d == 4 {
        '4'
    } else if d == 5 {
        '5'
    } else if d == 6 {
        '6'
    } else if d == 7 {
        '7'
    } else if d == 8 {
        '8'
    } else {
        '9'
    }
}

fn digit(d: u32) -> (r: char)
    requires
        d < 10,
    ensures
        r == digit_char(d as nat),
{
    if d == 0 {
        '0'
    } else if d == 1 {
        '1'
    } else if d == 2 {
        '2'
    } else if d == 3 {
        '3'
    } else if d == 4 {
        '4'
    } else if d == 5 {
        '5'
    } else if d == 6 {
        '6'
    } else if d == 7 {
        '7'
    } else if d == 8 {
        '8'
    } else {
        '9'
    }
}

/// A number in decimal.
pub fn decimal_text(n: u32) -> (r: String)
    ensures
        r@ == decimal(n as nat),
    decreases n,
{
    if n < 10 {
        let mut s = String::new();
        push_char(&mut s, digit(n));
        assert(s@ =~= seq![digit_char(n as nat)]);
        s
    } else {
        let mut s = decimal_text(n / 10);
        push_char(&mut s, digit(n % 10));
        s
    }
}

/// The font sizes offered, 4 to 32 pixels, with their labels such as
/// `12px`.
pub fn font_size_choices() -> (r: (Vec<String>, Vec<u16>))
    ensures
        r.1@.len() == 29,
        r.0@.len() == 29,
        forall|i: int| 0 <= i < 29 ==> #[trigger] r.1@[i] == i + 4,
        forall|i: int| 0 <= i < 29 ==> (#[trigger] r.0@[i])@ == decimal((i + 4) as nat) + "px"@,
{
    let mut names: Vec<String> = Vec::new();
    let mut sizes: Vec<u16> = Vec::new();
    let mut size: u16 = 4;
    while size <= 32
        invariant
            4 <= size <= 33,
            sizes@.len() == size - 4,
            names@.len() == size - 4,
            forall|i: int| 0 <= i < size - 4 ==> #[trigger] sizes@[i] == i + 4,
            forall|i: int| 0 <= i < size - 4 ==> (#[trigger] names@[i])@ == decimal((i + 4) as nat) + "px"@,
        decreases 33 - size,
    {
        let mut label = decimal_text(size as u32);
        label.append("px");
        names.push(label);
        sizes.push(size);
        size = size + 1;
    }
    (names, sizes)
}

/// The zoom steps offered, in hundredths of a pixel.
pub fn zoom_step_choices() -> (r: Vec<u16>)
    ensures
        r@ == seq![25u16, 50, 75, 100, 150, 200],
{
    let mut r = Vec::new();
    r.push(25);
    r.push(50);
    r.push(75);
    r.push(100);
    r.push(150);
    r.push(200);
    assert(r@ =~= seq![25u16, 50, 75, 100, 150, 200]);
    r
}

/// The header title and the window title for the active tab: the tab's
/// title, and the tab's title followed by ` — ` and the application name;
/// without a tab title, no header title and the application name alone.
pub fn window_titles(tab_title: Option<&str>, app_name: &str) -> (r: (String, String))
    ensures
        match tab_title {
            Some(t) => r.0@ == t@ && r.1@ == t@ + " — "@ + app_name@,
            None => r.0@.len() == 0 && r.1@ == app_name@,
        },
{
    match tab_title {
        Some(t) => {
            let mut w = owned(t);
            w.append(" — ");
            w.append(app_name);
            (owned(t), w)
        },
        None => (String::new(), owned(app_name)),
    }
}

/// The first seven characters of a commit hash, as shown in the about page.
pub fn short_commit_hash(hash: &str) -> (r: String)
    ensures
        r@ == hash@.take(if hash@.len() < 7 {
            hash@.len() as int
        } else {
            7
        }),
{
    let n = hash.unicode_len();
    let end = if n < 7 {
        n
    } else {
        7
    };
    let part = hash.substring_char(0, end);
    owned(part)
}

/// The address of a commit in the repository.
pub fn commit_url(repository: &str, hash: &str) -> (r: String)
    ensures
        r@ == repository@ + "/commits/"@ + hash@,
{
    let mut r = owned(repository);
    r.append("/commits/");
    r.append(hash);
    r
}

/// Name under which the built-in color scheme of a kind is listed and
/// exported.
pub open spec fn builtin_scheme_label(kind: ColorSchemeKind) -> Seq<char> {
    match kind {
        ColorSchemeKind::Dark => "COSMIC Dark"@,
        ColorSchemeKind::Light => "COSMIC Light"@,
    }
}

/// Name of the built-in color scheme of a kind.
pub fn builtin_scheme_name(kind: ColorSchemeKind) -> (r: String)
    ensures
        r@ == builtin_scheme_label(kind),
{
    match kind {
        ColorSchemeKind::Dark => owned("COSMIC Dark"),
        ColorSchemeKind::Light => owned("COSMIC Light"),
    }
}

/// File name proposed when exporting a color scheme.
pub fn export_file_name(scheme_name: &str) -> (r: String)
    ensures
        r@ == scheme_name@ + ".ron"@,
{
    let mut r = owned(scheme_name);
    r.append(".ron");
    r
}

/// The theme at a position of the list of theme names of one kind.
pub fn theme_name_at(
    dark: &Vec<String>,
    light: &Vec<String>,
    kind: ColorSchemeKind,
    index: usize,
) -> (r: Option<String>)
    ensures
        match r {
            Some(n) => match kind {
                ColorSchemeKind::Dark => index < dark@.len() && n@ == dark@[index as int]@,
                ColorSchemeKind::Light => index < light@.len() && n@ == light@[index as int]@,
            },
            None => match kind {
                ColorSchemeKind::Dark => index >= dark@.len(),
                ColorSchemeKind::Light => index >= light@.len(),
            },
        },
{
    let names = match kind {
        ColorSchemeKind::Dark => dark,
        ColorSchemeKind::Light => light,
    };
    if index < names.len() {
        Some(names[index].clone())
    } else {
        None
    }
}

/// The state of the color scheme page: which entry's menu is open, which
/// custom scheme is being renamed (with the name typed so far), and the
/// errors of the last import.
pub struct ColorSchemePage {
    pub expanded: Option<(ColorSchemeKind, Option<ColorSchemeId>)>,
    pub renaming: Option<(ColorSchemeKind, ColorSchemeId, String)>,
    pub errors: Vec<String>,
}

impl ColorSchemePage {
    /// Nothing open, nothing being renamed, no errors.
    pub fn new() -> (r: Self)
        ensures
            r.expanded is None,
            r.renaming is None,
            r.errors@.len() == 0,
    {
        ColorSchemePage { expanded: None, renaming: None, errors: Vec::new() }
    }

    /// The page is shown afresh.
    pub fn reset(&mut self)
        ensures
            final(self).expanded is None,
            final(self).renaming is None,
            final(self).errors@.len() == 0,
    {
        self.expanded = None;
        self.renaming = None;
        self.errors = Vec::new();
    }

    /// Opens the menu of an entry (`None`: the built-in scheme).
    pub fn expand(&mut self, kind: ColorSchemeKind, id: Option<ColorSchemeId>)
        ensures
            final(self).expanded == Some((kind, id)),
            final(self).renaming == old(self).renaming,
            final(self).errors == old(self).errors,
    {
        self.expanded = Some((kind, id));
    }

    /// Closes the open menu.
    pub fn collapse(&mut self)
        ensures
            final(self).expanded is None,
            final(self).renaming == old(self).renaming,
            final(self).errors == old(self).errors,
    {
        self.expanded = None;
    }

    /// Records the name typed for a scheme being renamed, closing the menu.
    /// Returns whether renaming just started, so that the name field is to
    /// be focused.
    pub fn rename(&mut self, kind: ColorSchemeKind, id: ColorSchemeId, name: String) -> (focus: bool)
        ensures
            focus == old(self).renaming is None,
            final(self).expanded is None,
            final(self).renaming matches Some((k, i, n)) && k == kind && i == id && n@ == name@,
            final(self).errors == old(self).errors,
    {
        self.expanded = None;
        let focus = self.renaming.is_none();
        self.renaming = Some((kind, id, name));
        focus
    }

    /// Ends renaming, giving the scheme and the new name to store.
    pub fn take_rename(&mut self) -> (r: Option<(ColorSchemeKind, ColorSchemeId, String)>)
        ensures
            r == old(self).renaming,
            final(self).renaming is None,
            final(self).expanded == old(self).expanded,
            final(self).errors == old(self).errors,
    {
        let r = self.renaming.take();
        r
    }
}

/// The window background as the terminal renderer stores it: opaque, with
/// red, green and blue in the low three bytes (red highest).
pub fn window_background_word(red: u8, green: u8, blue: u8) -> (r: u32)
    ensures
        r == 0xFF00_0000 + red as u32 * 0x1_0000 + green as u32 * 0x100 + blue as u32,
{
    let r = (blue as u32) | ((green as u32) << 8) | ((red as u32) << 16) | 0xFF00_0000u32;
    assert(r == 0xFF00_0000 + red as u32 * 0x1_0000 + green as u32 * 0x100 + blue as u32) by (bit_vector)
        requires
            r == (blue as u32) | ((green as u32) << 8) | ((red as u32) << 16) | 0xFF00_0000u32,
    ;
    r
}

/// The zoom adjustment of the active terminal after zooming in (one step
/// more) or out (one step less), saturating at the bounds of `i8`.
pub fn zoom_adjusted(current: i8, zoom_in: bool) -> (r: i8)
    ensures
        zoom_in ==> r == (if current == i8::MAX {
            i8::MAX
        } else {
            (current + 1) as i8
        }),
        !zoom_in ==> r == (if current == i8::MIN {
            i8::MIN
        } else {
            (current - 1) as i8
        }),
{
    if zoom_in {
        if current == i8::MAX {
            i8::MAX
        } else {
            current + 1
        }
    } else {
        if current == i8::MIN {
            i8::MIN
        } else {
            current - 1
        }
    }
}

/// The configuration entry that holds the custom color schemes of a kind.
pub fn color_schemes_config_key(kind: ColorSchemeKind) -> (r: &'static str)
    ensures
        r@ == (match kind {
            ColorSchemeKind::Dark => "color_schemes_dark"@,
            ColorSchemeKind::Light => "color_schemes_light"@,
        }),
{
    match kind {
        ColorSchemeKind::Dark => "color_schemes_dark",
        ColorSchemeKind::Light => "color_schemes_light",
    }
}

/// The title a tab takes when its terminal resets its title: the profile's
/// title override when there is one, or else the default title.
pub fn title_after_reset(tab_title_override: Option<&str>, default_title: &str) -> (r: String)
    ensures
        r@ == (match tab_title_override {
            Some(t) => t@,
            None => default_title@,
        }),
{
    match tab_title_override {
        Some(t) => owned(t),
        None => owned(default_title),
    }
}

/// The title a tab takes when its terminal sets a title: that title, unless
/// the profile overrides the tab title (then nothing changes).
pub fn title_after_change(has_override: bool, title: String) -> (r: Option<String>)
    ensures
        has_override ==> r is None,
        !has_override ==> (r matches Some(t) && t@ == title@),
{
    if has_override {
        None
    } else {
        Some(title)
    }
}

/// The widget that takes the keyboard focus.
#[derive(Clone, Copy, Debug, PartialEq, Eq, Structural)]
pub enum FocusTarget {
    /// The search field, while the search bar is shown.
    Search,
    /// The terminal of the focused pane.
    Terminal,
    /// Nothing.
    Nothing,
}

/// Where the keyboard focus goes: the search field while searching, else the
/// focused pane's terminal when it has one.
pub fn focus_target(find: bool, pane_has_terminal: bool) -> (r: FocusTarget)
    ensures
        find ==> r == FocusTarget::Search,
        !find && pane_has_terminal ==> r == FocusTarget::Terminal,
        !find && !pane_has_terminal ==> r == FocusTarget::Nothing,
{
    if find {
        FocusTarget::Search
    } else if pane_has_terminal {
        FocusTarget::Terminal
    } else {
        FocusTarget::Nothing
    }
}

/// The entry chosen at a position of a list of font settings choices (font,
/// size, stretch, weight, zoom step), if the position exists.
pub fn choice_at(v: &Vec<u16>, index: usize) -> (r: Option<u16>)
    ensures
        r == (if index < v@.len() {
            Some(v@[index as int])
        } else {
            None
        }),
{
    if index < v.len() {
        Some(v[index])
    } else {
        None
    }
}

/// The font chosen at a position of the font list, when it exists and is
/// not already the font in use.
pub fn font_change_at(names: &Vec<String>, index: usize, current: &str) -> (r: Option<String>)
    ensures
        r matches Some(n) ==> index < names@.len() && n@ == names@[index as int]@ && n@ != current@,
        r is None ==> index >= names@.len() || names@[index as int]@ == current@,
{
    if index < names.len() {
        if text_eq(names[index].as_str(), current) {
            None
        } else {
            Some(names[index].clone())
        }
    } else {
        None
    }
}

} // verus!
