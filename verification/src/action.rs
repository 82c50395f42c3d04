use vstd::prelude::*;

verus! {

/// Whether a color scheme is for dark or for light themes.
#[derive(Clone, Copy, Debug, PartialEq, Eq, Hash, PartialOrd, Ord, Structural)]
pub enum ColorSchemeKind {
    Dark,
    Light,
}

/// Identifier of a terminal profile.
#[derive(Clone, Copy, Debug, PartialEq, Eq, Hash, PartialOrd, Ord, Structural)]
pub struct ProfileId(pub u64);

/// Identifier of a custom color scheme.
#[derive(Clone, Copy, Debug, PartialEq, Eq, Hash, PartialOrd, Ord, Structural)]
pub struct ColorSchemeId(pub u64);

/// Identifier of a tab within a pane.
#[derive(Clone, Copy, Debug, PartialEq, Eq, Hash, Structural)]
pub struct TabEntity(pub u64);

/// Direction in which to move the focus to a neighbouring pane.
#[derive(Clone, Copy, Debug, PartialEq, Eq, Structural)]
pub enum Direction {
    Up,
    Down,
    Left,
    Right,
}

/// Axis along which a pane is split.
#[derive(Clone, Copy, Debug, PartialEq, Eq, Structural)]
pub enum Axis {
    Horizontal,
    Vertical,
}

/// The page shown in the context drawer.
#[derive(Clone, Copy, Debug, Eq, PartialEq, Structural)]
pub enum ContextPage {
    About,
    ColorSchemes(ColorSchemeKind),
    Profiles,
    Settings,
    Keybinds,
}

/// Something the user can ask for from a menu, a context menu or a
/// keyboard shortcut.
#[derive(Clone, Copy, Debug, Eq, PartialEq, Hash, Structural)]
pub enum Action {
    About,
    ClearScrollback,
    ColorSchemes(ColorSchemeKind),
    Copy,
    CopyOrSigint,
    CopyPrimary,
    Find,
    Keybinds,
    PaneFocusDown,
    PaneFocusLeft,
    PaneFocusRight,
    PaneFocusUp,
    PaneSplitHorizontal,
    PaneSplitVertical,
    PaneToggleMaximized,
    Paste,
    PastePrimary,
    ProfileOpen(ProfileId),
    Profiles,
    SaveKeyBindings,
    SelectAll,
    Settings,
    ShowHeaderBar(bool),
    TabActivate0,
    TabActivate1,
    TabActivate2,
    TabActivate3,
    TabActivate4,
    TabActivate5,
    TabActivate6,
    TabActivate7,
    TabActivate8,
    TabClose,
    TabNew,
    TabNewNoProfile,
    TabNext,
    TabPrev,
    WindowClose,
    WindowNew,
    ZoomIn,
    ZoomOut,
    ZoomReset,
}

/// The request an action dispatches to the application. Requests that act
/// on a tab carry the tab they were invoked for, if any (without one they act
/// on the active tab).
#[derive(Clone, Copy, Debug, Eq, PartialEq, Structural)]
pub enum Message {
    ToggleContextPage(ContextPage),
    ClearScrollback(Option<TabEntity>),
    Copy(Option<TabEntity>),
    CopyOrSigint(Option<TabEntity>),
    CopyPrimary(Option<TabEntity>),
    Find(bool),
    PaneFocusAdjacent(Direction),
    PaneSplit(Axis),
    PaneToggleMaximized,
    Paste(Option<TabEntity>),
    PastePrimary(Option<TabEntity>),
    ProfileOpen(ProfileId),
    SaveKeyBindings,
    SelectAll(Option<TabEntity>),
    ShowHeaderBar(bool),
    TabActivateJump(usize),
    TabClose(Option<TabEntity>),
    TabNew,
    TabNewNoProfile,
    TabNext,
    TabPrev,
    WindowClose,
    WindowNew,
    ZoomIn,
    ZoomOut,
    ZoomReset,
}

/// The request an action dispatches, for the tab it was invoked on.
pub open spec fn action_message(a: Action, tab: Option<TabEntity>) -> Message {
    match a {
        Action::About => Message::ToggleContextPage(ContextPage::About),
        Action::ClearScrollback => Message::ClearScrollback(tab),
        Action::ColorSchemes(kind) => Message::ToggleContextPage(ContextPage::ColorSchemes(kind)),
        Action::Copy => Message::Copy(tab),
        Action::CopyOrSigint => Message::CopyOrSigint(tab),
        Action::CopyPrimary => Message::CopyPrimary(tab),
        Action::Find => Message::Find(true),
        Action::Keybinds => Message::ToggleContextPage(ContextPage::Keybinds),
        Action::PaneFocusDown => Message::PaneFocusAdjacent(Direction::Down),
        Action::PaneFocusLeft => Message::PaneFocusAdjacent(Direction::Left),
        Action::PaneFocusRight => Message::PaneFocusAdjacent(Direction::Right),
        Action::PaneFocusUp => Message::PaneFocusAdjacent(Direction::Up),
        Action::PaneSplitHorizontal => Message::PaneSplit(Axis::Horizontal),
        Action::PaneSplitVertical => Message::PaneSplit(Axis::Vertical),
        Action::PaneToggleMaximized => Message::PaneToggleMaximized,
        Action::Paste => Message::Paste(tab),
        Action::PastePrimary => Message::PastePrimary(tab),
        Action::ProfileOpen(id) => Message::ProfileOpen(id),
        Action::Profiles => Message::ToggleContextPage(ContextPage::Profiles),
        Action::SaveKeyBindings => Message::SaveKeyBindings,
        Action::SelectAll => Message::SelectAll(tab),
        Action::Settings => Message::ToggleContextPage(ContextPage::Settings),
        Action::ShowHeaderBar(show) => Message::ShowHeaderBar(show),
        Action::TabActivate0 => Message::TabActivateJump(0),
        Action::TabActivate1 => Message::TabActivateJump(1),
        Action::TabActivate2 => Message::TabActivateJump(2),
        Action::TabActivate3 => Message::TabActivateJump(3),
        Action::TabActivate4 => Message::TabActivateJump(4),
        Action::TabActivate5 => Message::TabActivateJump(5),
        Action::TabActivate6 => Message::TabActivateJump(6),
        Action::TabActivate7 => Message::TabActivateJump(7),
        Action::TabActivate8 => Message::TabActivateJump(8),
        Action::TabClose => Message::TabClose(tab),
        Action::TabNew => Message::TabNew,
        Action::TabNewNoProfile => Message::TabNewNoProfile,
        Action::TabNext => Message::TabNext,
        Action::TabPrev => Message::TabPrev,
        Action::WindowClose => Message::WindowClose,
        Action::WindowNew => Message::WindowNew,
        Action::ZoomIn => Message::ZoomIn,
        Action::ZoomOut => Message::ZoomOut,
        Action::ZoomReset => Message::ZoomReset,
    }
}

/// The identifier of the translated text that names an action.
pub open spec fn action_fluent_id(a: Action) -> Seq<char> {
    match a {
        Action::About => "action-name-about"@,
        Action::ClearScrollback => "action-name-clear-scrollback"@,
        Action::ColorSchemes(_) => "action-name-color-schemes"@,
        Action::Copy => "action-name-copy"@,
        Action::CopyOrSigint => "action-name-copy-or-sigint"@,
        Action::CopyPrimary => "action-name-copy-primary"@,
        Action::Find => "action-name-find"@,
        Action::Keybinds => "action-name-keybinds"@,
        Action::PaneFocusDown => "action-name-pane-focus-down"@,
        Action::PaneFocusLeft => "action-name-pane-focus-left"@,
        Action::PaneFocusRight => "action-name-pane-focus-right"@,
        Action::PaneFocusUp => "action-name-pane-focus-up"@,
        Action::PaneSplitHorizontal => "action-name-pane-split-horizontal"@,
        Action::PaneSplitVertical => "action-name-pane-split-vertical"@,
        Action::PaneToggleMaximized => "action-name-pane-toggle-maximized"@,
        Action::Paste => "action-name-paste"@,
        Action::PastePrimary => "action-name-paste-primary"@,
        Action::ProfileOpen(_) => "action-name-profile-open"@,
        Action::Profiles => "action-name-profiles"@,
        Action::SaveKeyBindings => "action-name-save-keybindings"@,
        Action::SelectAll => "action-name-select-all"@,
        Action::Settings => "action-name-settings"@,
        Action::ShowHeaderBar(_) => "action-name-show-headerbar"@,
        Action::TabActivate0 => "action-name-tab-activate0"@,
        Action::TabActivate1 => "action-name-tab-activate1"@,
        Action::TabActivate2 => "action-name-tab-activate2"@,
        Action::TabActivate3 => "action-name-tab-activate3"@,
        Action::TabActivate4 => "action-name-tab-activate4"@,
        Action::TabActivate5 => "action-name-tab-activate5"@,
        Action::TabActivate6 => "action-name-tab-activate6"@,
        Action::TabActivate7 => "action-name-tab-activate7"@,
        Action::TabActivate8 => "action-name-tab-activate8"@,
        Action::TabClose => "action-name-tab-close"@,
        Action::TabNew => "action-name-tab-new"@,
        Action::TabNewNoProfile => "action-name-tab-new-no-profile"@,
        Action::TabNext => "action-name-tab-next"@,
        Action::TabPrev => "action-name-tab-prev"@,
        Action::WindowClose => "action-name-window-close"@,
        Action::WindowNew => "action-name-window-new"@,
        Action::ZoomIn => "action-name-zoom-in"@,
        Action::ZoomOut => "action-name-zoom-out"@,
        Action::ZoomReset => "action-name-zoom-reset"@,
    }
}

/// The position of an action's kind in the list of actions; actions that
/// differ only in what they carry have the same position.
pub open spec fn action_variant(a: Action) -> int {
    match a {
        Action::About => 0,
        Action::ClearScrollback => 1,
        Action::ColorSchemes(_) => 2,
        Action::Copy => 3,
        Action::CopyOrSigint => 4,
        Action::CopyPrimary => 5,
        Action::Find => 6,
        Action::Keybinds => 7,
        Action::PaneFocusDown => 8,
        Action::PaneFocusLeft => 9,
        Action::PaneFocusRight => 10,
        Action::PaneFocusUp => 11,
        Action::PaneSplitHorizontal => 12,
        Action::PaneSplitVertical => 13,
        Action::PaneToggleMaximized => 14,
        Action::Paste => 15,
        Action::PastePrimary => 16,
        Action::ProfileOpen(_) => 17,
        Action::Profiles => 18,
        Action::SaveKeyBindings => 19,
        Action::SelectAll => 20,
        Action::Settings => 21,
        Action::ShowHeaderBar(_) => 22,
        Action::TabActivate0 => 23,
        Action::TabActivate1 => 24,
        Action::TabActivate2 => 25,
        Action::TabActivate3 => 26,
        Action::TabActivate4 => 27,
        Action::TabActivate5 => 28,
        Action::TabActivate6 => 29,
        Action::TabActivate7 => 30,
        Action::TabActivate8 => 31,
        Action::TabClose => 32,
        Action::TabNew => 33,
        Action::TabNewNoProfile => 34,
        Action::TabNext => 35,
        Action::TabPrev => 36,
        Action::WindowClose => 37,
        Action::WindowNew => 38,
        Action::ZoomIn => 39,
        Action::ZoomOut => 40,
        Action::ZoomReset => 41,
    }
}

/// The position of the action variant whose text identifier is `s` (-1
/// for a text that is no action's identifier), read off its length and a
/// few of its characters.
pub open spec fn fluent_id_position(s: Seq<char>) -> int {
    if s.len() == 16 {
        if s[12] == 'c' {
            3
        } else if s[12] == 'f' {
            6
        } else {
            -1
        }
    } else if s.len() == 17 {
        if s[12] == 'a' {
            0
        } else if s[12] == 'p' {
            15
        } else {
            -1
        }
    } else if s.len() == 19 {
        if s[12] == 't' {
            33
        } else if s[12] == 'z' {
            39
        } else {
            -1
        }
    } else if s.len() == 20 {
        if s[12] == 'k' {
            7
        } else if s[12] == 'p' {
            18
        } else if s[12] == 's' {
            21
        } else if s[12] == 't' {
            if s[16] == 'n' {
                35
            } else if s[16] == 'p' {
                36
            } else {
                -1
            }
        } else if s[12] == 'z' {
            40
        } else {
            -1
        }
    } else if s.len() == 21 {
        32
    } else if s.len() == 22 {
        if s[12] == 's' {
            20
        } else if s[12] == 'w' {
            38
        } else if s[12] == 'z' {
            41
        } else {
            -1
        }
    } else if s.len() == 24 {
        if s[12] == 'c' {
            5
        } else if s[12] == 'p' {
            17
        } else if s[12] == 'w' {
            37
        } else {
            -1
        }
    } else if s.len() == 25 {
        if s[24] == '0' {
            23
        } else if s[24] == '1' {
            24
        } else if s[24] == '2' {
            25
        } else if s[24] == '3' {
            26
        } else if s[24] == '4' {
            27
        } else if s[24] == '5' {
            28
        } else if s[24] == '6' {
            29
        } else if s[24] == '7' {
            30
        } else if s[24] == '8' {
            31
        } else if s[24] == 'p' {
            11
        } else if s[24] == 's' {
            2
        } else if s[24] == 'y' {
            16
        } else {
            -1
        }
    } else if s.len() == 26 {
        if s[12] == 'c' {
            4
        } else if s[12] == 's' {
            22
        } else {
            -1
        }
    } else if s.len() == 27 {
        if s[23] == 'd' {
            8
        } else if s[23] == 'l' {
            9
        } else {
            -1
        }
    } else if s.len() == 28 {
        if s[12] == 'c' {
            1
        } else if s[12] == 'p' {
            10
        } else if s[12] == 's' {
            19
        } else {
            -1
        }
    } else if s.len() == 30 {
        34
    } else if s.len() == 31 {
        13
    } else if s.len() == 33 {
        if s[17] == 's' {
            12
        } else if s[17] == 't' {
            14
        } else {
            -1
        }
    } else {
        -1
    }
}

proof fn lemma_fluent_id_position(a: Action)
    ensures
        fluent_id_position(action_fluent_id(a)) == action_variant(a),
{
    match a {
        Action::About => {
            reveal_strlit("action-name-about");
        },
        Action::ClearScrollback => {
            reveal_strlit("action-name-clear-scrollback");
        },
        Action::ColorSchemes(_) => {
            reveal_strlit("action-name-color-schemes");
        },
        Action::Copy => {
            reveal_strlit("action-name-copy");
        },
        Action::CopyOrSigint => {
            reveal_strlit("action-name-copy-or-sigint");
        },
        Action::CopyPrimary => {
            reveal_strlit("action-name-copy-primary");
        },
        Action::Find => {
            reveal_strlit("action-name-find");
        },
        Action::Keybinds => {
            reveal_strlit("action-name-keybinds");
        },
        Action::PaneFocusDown => {
            reveal_strlit("action-name-pane-focus-down");
        },
        Action::PaneFocusLeft => {
            reveal_strlit("action-name-pane-focus-left");
        },
        Action::PaneFocusRight => {
            reveal_strlit("action-name-pane-focus-right");
        },
        Action::PaneFocusUp => {
            reveal_strlit("action-name-pane-focus-up");
        },
        Action::PaneSplitHorizontal => {
            reveal_strlit("action-name-pane-split-horizontal");
        },
        Action::PaneSplitVertical => {
            reveal_strlit("action-name-pane-split-vertical");
        },
        Action::PaneToggleMaximized => {
            reveal_strlit("action-name-pane-toggle-maximized");
        },
        Action::Paste => {
            reveal_strlit("action-name-paste");
        },
        Action::PastePrimary => {
            reveal_strlit("action-name-paste-primary");
        },
        Action::ProfileOpen(_) => {
            reveal_strlit("action-name-profile-open");
        },
        Action::Profiles => {
            reveal_strlit("action-name-profiles");
        },
        Action::SaveKeyBindings => {
            reveal_strlit("action-name-save-keybindings");
        },
        Action::SelectAll => {
            reveal_strlit("action-name-select-all");
        },
        Action::Settings => {
            reveal_strlit("action-name-settings");
        },
        Action::ShowHeaderBar(_) => {
            reveal_strlit("action-name-show-headerbar");
        },
        Action::TabActivate0 => {
            reveal_strlit("action-name-tab-activate0");
        },
        Action::TabActivate1 => {
            reveal_strlit("action-name-tab-activate1");
        },
        Action::TabActivate2 => {
            reveal_strlit("action-name-tab-activate2");
        },
        Action::TabActivate3 => {
            reveal_strlit("action-name-tab-activate3");
        },
        Action::TabActivate4 => {
            reveal_strlit("action-name-tab-activate4");
        },
        Action::TabActivate5 => {
            reveal_strlit("action-name-tab-activate5");
        },
        Action::TabActivate6 => {
            reveal_strlit("action-name-tab-activate6");
        },
        Action::TabActivate7 => {
            reveal_strlit("action-name-tab-activate7");
        },
        Action::TabActivate8 => {
            reveal_strlit("action-name-tab-activate8");
        },
        Action::TabClose => {
            reveal_strlit("action-name-tab-close");
        },
        Action::TabNew => {
            reveal_strlit("action-name-tab-new");
        },
        Action::TabNewNoProfile => {
            reveal_strlit("action-name-tab-new-no-profile");
        },
        Action::TabNext => {
            reveal_strlit("action-name-tab-next");
        },
        Action::TabPrev => {
            reveal_strlit("action-name-tab-prev");
        },
        Action::WindowClose => {
            reveal_strlit("action-name-window-close");
        },
        Action::WindowNew => {
            reveal_strlit("action-name-window-new");
        },
        Action::ZoomIn => {
            reveal_strlit("action-name-zoom-in");
        },
        Action::ZoomOut => {
            reveal_strlit("action-name-zoom-out");
        },
        Action::ZoomReset => {
            reveal_strlit("action-name-zoom-reset");
        },
    }
}

/// Two actions have the same text identifier exactly when they are of the
/// same kind: what an action carries (a color scheme kind, a profile, a
/// flag) does not change its identifier, and no two kinds share one.
pub proof fn lemma_fluent_ids_name_kinds(a: Action, b: Action)
    ensures
        action_fluent_id(a) == action_fluent_id(b) <==> action_variant(a) == action_variant(b),
{
    lemma_fluent_id_position(a);
    lemma_fluent_id_position(b);
}

/// Whether `r` is the name shown for `a`: what `localize` gives for the text
/// identifier of `a`.
pub open spec fn is_display_name<F: Fn(&str) -> String>(localize: F, a: Action, r: String) -> bool {
    exists|id: &str| id@ == action_fluent_id(a) && #[trigger] localize.ensures((id,), r)
}

/// With a translation that gives one text for one identifier, the name shown
/// for an action depends on its kind alone: two names shown, for actions of
/// the same kind whatever they carry (or for the same action twice), are the
/// same.
pub proof fn lemma_display_name_by_kind<F: Fn(&str) -> String>(
    localize: F,
    a: Action,
    b: Action,
    ra: String,
    rb: String,
)
    requires
        forall|i: &str, j: &str, s: String, t: String|
            #![trigger localize.ensures((i,), s), localize.ensures((j,), t)]
            i@ == j@ && localize.ensures((i,), s) && localize.ensures((j,), t) ==> s@ == t@,
        is_display_name(localize, a, ra),
        is_display_name(localize, b, rb),
        action_variant(a) == action_variant(b),
    ensures
        ra@ == rb@,
{
    lemma_fluent_ids_name_kinds(a, b);
    let ia = choose|id: &str| id@ == action_fluent_id(a) && #[trigger] localize.ensures((id,), ra);
    let ib = choose|id: &str| id@ == action_fluent_id(b) && #[trigger] localize.ensures((id,), rb);
    assert(localize.ensures((ia,), ra) && localize.ensures((ib,), rb));
}

/// With a translation that gives different texts for different identifiers,
/// actions of different kinds are shown under different names.
pub proof fn lemma_display_names_distinct<F: Fn(&str) -> String>(
    localize: F,
    a: Action,
    b: Action,
    ra: String,
    rb: String,
)
    requires
        forall|i: &str, j: &str, s: String, t: String|
            #![trigger localize.ensures((i,), s), localize.ensures((j,), t)]
            i@ != j@ && localize.ensures((i,), s) && localize.ensures((j,), t) ==> s@ != t@,
        is_display_name(localize, a, ra),
        is_display_name(localize, b, rb),
        action_variant(a) != action_variant(b),
    ensures
        ra@ != rb@,
{
    lemma_fluent_ids_name_kinds(a, b);
    let ia = choose|id: &str| id@ == action_fluent_id(a) && #[trigger] localize.ensures((id,), ra);
    let ib = choose|id: &str| id@ == action_fluent_id(b) && #[trigger] localize.ensures((id,), rb);
    assert(localize.ensures((ia,), ra) && localize.ensures((ib,), rb));
}

/// Whether an action acts on one tab (the one it was invoked on, or else the
/// active one).
pub open spec fn acts_on_tab(a: Action) -> bool {
    match a {
        Action::ClearScrollback | Action::Copy | Action::CopyOrSigint | Action::CopyPrimary
        | Action::Paste | Action::PastePrimary | Action::SelectAll | Action::TabClose => true,
        _ => false,
    }
}

/// The tab a request names, if it names one.
pub open spec fn message_tab(m: Message) -> Option<TabEntity> {
    match m {
        Message::ClearScrollback(t) => t,
        Message::Copy(t) => t,
        Message::CopyOrSigint(t) => t,
        Message::CopyPrimary(t) => t,
        Message::Paste(t) => t,
        Message::PastePrimary(t) => t,
        Message::SelectAll(t) => t,
        Message::TabClose(t) => t,
        _ => None,
    }
}

impl Action {
    /// The request this action dispatches when invoked on `entity_opt`
    /// (`None`: from the menu bar or a shortcut, acting on the active tab).
    pub fn message(&self, entity_opt: Option<TabEntity>) -> (r: Message)
        ensures
            r == action_message(*self, entity_opt),
    {
        match self {
            Self::About => Message::ToggleContextPage(ContextPage::About),
            Self::ClearScrollback => Message::ClearScrollback(entity_opt),
            Self::ColorSchemes(color_scheme_kind) => {
                Message::ToggleContextPage(ContextPage::ColorSchemes(*color_scheme_kind))
            },
            Self::Copy => Message::Copy(entity_opt),
            Self::CopyOrSigint => Message::CopyOrSigint(entity_opt),
            Self::CopyPrimary => Message::CopyPrimary(entity_opt),
            Self::Find => Message::Find(true),
            Self::Keybinds => Message::ToggleContextPage(ContextPage::Keybinds),
            Self::PaneFocusDown => Message::PaneFocusAdjacent(Direction::Down),
            Self::PaneFocusLeft => Message::PaneFocusAdjacent(Direction::Left),
            Self::PaneFocusRight => Message::PaneFocusAdjacent(Direction::Right),
            Self::PaneFocusUp => Message::PaneFocusAdjacent(Direction::Up),
            Self::PaneSplitHorizontal => Message::PaneSplit(Axis::Horizontal),
            Self::PaneSplitVertical => Message::PaneSplit(Axis::Vertical),
            Self::PaneToggleMaximized => Message::PaneToggleMaximized,
            Self::Paste => Message::Paste(entity_opt),
            Self::PastePrimary => Message::PastePrimary(entity_opt),
            Self::ProfileOpen(profile_id) => Message::ProfileOpen(*profile_id),
            Self::Profiles => Message::ToggleContextPage(ContextPage::Profiles),
            Self::SaveKeyBindings => Message::SaveKeyBindings,
            Self::SelectAll => Message::SelectAll(entity_opt),
            Self::Settings => Message::ToggleContextPage(ContextPage::Settings),
            Self::ShowHeaderBar(show_headerbar) => Message::ShowHeaderBar(*show_headerbar),
            Self::TabActivate0 => Message::TabActivateJump(0),
            Self::TabActivate1 => Message::TabActivateJump(1),
            Self::TabActivate2 => Message::TabActivateJump(2),
            Self::TabActivate3 => Message::TabActivateJump(3),
            Self::TabActivate4 => Message::TabActivateJump(4),
            Self::TabActivate5 => Message::TabActivateJump(5),
            Self::TabActivate6 => Message::TabActivateJump(6),
            Self::TabActivate7 => Message::TabActivateJump(7),
            Self::TabActivate8 => Message::TabActivateJump(8),
            Self::TabClose => Message::TabClose(entity_opt),
            Self::TabNew => Message::TabNew,
            Self::TabNewNoProfile => Message::TabNewNoProfile,
            Self::TabNext => Message::TabNext,
            Self::TabPrev => Message::TabPrev,
            Self::WindowClose => Message::WindowClose,
            Self::WindowNew => Message::WindowNew,
            Self::ZoomIn => Message::ZoomIn,
            Self::ZoomOut => Message::ZoomOut,
            Self::ZoomReset => Message::ZoomReset,
        }
    }

    /// The request dispatched when the action is chosen from the menu bar:
    /// the one for no particular tab.
    pub fn menu_message(&self) -> (r: Message)
        ensures
            r == action_message(*self, None),
    {
        self.message(None)
    }

    /// The identifier of the translated text that names this action.
    pub fn fluent_id(&self) -> (r: &'static str)
        ensures
            r@ == action_fluent_id(*self),
    {
        match self {
            Action::About => "action-name-about",
            Action::ClearScrollback => "action-name-clear-scrollback",
            Action::ColorSchemes(_) => "action-name-color-schemes",
            Action::Copy => "action-name-copy",
            Action::CopyOrSigint => "action-name-copy-or-sigint",
            Action::CopyPrimary => "action-name-copy-primary",
            Action::Find => "action-name-find",
            Action::Keybinds => "action-name-keybinds",
            Action::PaneFocusDown => "action-name-pane-focus-down",
            Action::PaneFocusLeft => "action-name-pane-focus-left",
            Action::PaneFocusRight => "action-name-pane-focus-right",
            Action::PaneFocusUp => "action-name-pane-focus-up",
            Action::PaneSplitHorizontal => "action-name-pane-split-horizontal",
            Action::PaneSplitVertical => "action-name-pane-split-vertical",
            Action::PaneToggleMaximized => "action-name-pane-toggle-maximized",
            Action::Paste => "action-name-paste",
            Action::PastePrimary => "action-name-paste-primary",
            Action::ProfileOpen(_) => "action-name-profile-open",
            Action::Profiles => "action-name-profiles",
            Action::SaveKeyBindings => "action-name-save-keybindings",
            Action::SelectAll => "action-name-select-all",
            Action::Settings => "action-name-settings",
            Action::ShowHeaderBar(_) => "action-name-show-headerbar",
            Action::TabActivate0 => "action-name-tab-activate0",
            Action::TabActivate1 => "action-name-tab-activate1",
            Action::TabActivate2 => "action-name-tab-activate2",
            Action::TabActivate3 => "action-name-tab-activate3",
            Action::TabActivate4 => "action-name-tab-activate4",
            Action::TabActivate5 => "action-name-tab-activate5",
            Action::TabActivate6 => "action-name-tab-activate6",
            Action::TabActivate7 => "action-name-tab-activate7",
            Action::TabActivate8 => "action-name-tab-activate8",
            Action::TabClose => "action-name-tab-close",
            Action::TabNew => "action-name-tab-new",
            Action::TabNewNoProfile => "action-name-tab-new-no-profile",
            Action::TabNext => "action-name-tab-next",
            Action::TabPrev => "action-name-tab-prev",
            Action::WindowClose => "action-name-window-close",
            Action::WindowNew => "action-name-window-new",
            Action::ZoomIn => "action-name-zoom-in",
            Action::ZoomOut => "action-name-zoom-out",
            Action::ZoomReset => "action-name-zoom-reset",
        }
    }

    /// The name of the action shown to the user: the translation, by
    /// `localize`, of the action's text identifier.
    pub fn display_name<F: Fn(&str) -> String>(&self, localize: F) -> (r: String)
        requires
            forall|id: &str| #[trigger] localize.requires((id,)),
        ensures
            is_display_name(localize, *self, r),
    {
        let id = self.fluent_id();
        localize(id)
    }
}

/// An action invoked on a tab passes that tab on exactly when it acts on a
/// tab; every other action dispatches the same request as from the menu bar.
pub proof fn lemma_message_tab(a: Action, tab: TabEntity)
    ensures
        acts_on_tab(a) ==> message_tab(action_message(a, Some(tab))) == Some(tab),
        !acts_on_tab(a) ==> action_message(a, Some(tab)) == action_message(a, None),
{
}

/// Each pane action acts in its own direction, whatever tab it was invoked
/// on: the four focus actions move the focus up, down, left and right, and
/// the two split actions split along the horizontal and the vertical axis,
/// so no two of them send the same request.
pub proof fn lemma_pane_actions_directions(t: Option<TabEntity>)
    ensures
        action_message(Action::PaneFocusUp, t) == Message::PaneFocusAdjacent(Direction::Up),
        action_message(Action::PaneFocusDown, t) == Message::PaneFocusAdjacent(Direction::Down),
        action_message(Action::PaneFocusLeft, t) == Message::PaneFocusAdjacent(Direction::Left),
        action_message(Action::PaneFocusRight, t) == Message::PaneFocusAdjacent(Direction::Right),
        action_message(Action::PaneSplitHorizontal, t) == Message::PaneSplit(Axis::Horizontal),
        action_message(Action::PaneSplitVertical, t) == Message::PaneSplit(Axis::Vertical),
{
}

} // verus!
