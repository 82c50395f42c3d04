use vstd::prelude::*;

use crate::action::{ColorSchemeKind, ProfileId};
use crate::idmap::IdMap;
use crate::text::texts;

verus! {

/// A terminal profile: how new tabs opened with it start.
#[derive(Clone, Debug, PartialEq, Eq)]
pub struct Profile {
    pub name: String,
    pub command: String,
    pub working_directory: String,
    pub hold: bool,
    pub syntax_theme_dark: String,
    pub syntax_theme_light: String,
    pub tab_title: String,
}

/// A profile, by its texts.
pub struct ProfileView {
    pub name: Seq<char>,
    pub command: Seq<char>,
    pub working_directory: Seq<char>,
    pub hold: bool,
    pub syntax_theme_dark: Seq<char>,
    pub syntax_theme_light: Seq<char>,
    pub tab_title: Seq<char>,
}

impl View for Profile {
    type V = ProfileView;

    open spec fn view(&self) -> ProfileView {
        ProfileView {
            name: self.name@,
            command: self.command@,
            working_directory: self.working_directory@,
            hold: self.hold,
            syntax_theme_dark: self.syntax_theme_dark@,
            syntax_theme_light: self.syntax_theme_light@,
            tab_title: self.tab_title@,
        }
    }
}

/// The profiles by identifier, by their texts.
pub open spec fn profiles_view(m: Map<u64, Profile>) -> Map<u64, ProfileView> {
    m.map_values(|p: Profile| p@)
}

/// A change the settings page makes to one profile.
#[derive(Clone, Debug)]
pub enum ProfileEdit {
    Name(String),
    Command(String),
    WorkingDirectory(String),
    Hold(bool),
    TabTitle(String),
    SyntaxTheme(ColorSchemeKind, String),
}

/// The profile after the change.
pub open spec fn edited(p: ProfileView, e: ProfileEdit) -> ProfileView {
    match e {
        ProfileEdit::Name(t) => ProfileView { name: t@, ..p },
        ProfileEdit::Command(t) => ProfileView { command: t@, ..p },
        ProfileEdit::WorkingDirectory(t) => ProfileView { working_directory: t@, ..p },
        ProfileEdit::Hold(h) => ProfileView { hold: h, ..p },
        ProfileEdit::TabTitle(t) => ProfileView { tab_title: t@, ..p },
        ProfileEdit::SyntaxTheme(ColorSchemeKind::Dark, t) => ProfileView { syntax_theme_dark: t@, ..p },
        ProfileEdit::SyntaxTheme(ColorSchemeKind::Light, t) => ProfileView { syntax_theme_light: t@, ..p },
    }
}

/// Each change sets the one setting it names to the given value and leaves
/// every other setting of the profile as it was; in particular setting the
/// syntax theme of one kind leaves the theme of the other kind alone.
pub proof fn lemma_edit_sets_one_setting(p: ProfileView, t: String, h: bool, kind: ColorSchemeKind)
    ensures
        ({
            let q = edited(p, ProfileEdit::SyntaxTheme(kind, t));
            &&& q.name == p.name && q.command == p.command
            &&& q.working_directory == p.working_directory && q.hold == p.hold
            &&& q.tab_title == p.tab_title
            &&& kind == ColorSchemeKind::Dark ==> q.syntax_theme_dark == t@
                && q.syntax_theme_light == p.syntax_theme_light
            &&& kind == ColorSchemeKind::Light ==> q.syntax_theme_light == t@
                && q.syntax_theme_dark == p.syntax_theme_dark
        }),
        edited(p, ProfileEdit::Name(t)) == (ProfileView { name: t@, ..p }),
        edited(p, ProfileEdit::Command(t)) == (ProfileView { command: t@, ..p }),
        edited(p, ProfileEdit::WorkingDirectory(t)) == (ProfileView { working_directory: t@, ..p }),
        edited(p, ProfileEdit::TabTitle(t)) == (ProfileView { tab_title: t@, ..p }),
        edited(p, ProfileEdit::Hold(h)) == (ProfileView { hold: h, ..p }),
{
}

/// A copy of a profile.
pub fn copy_profile(p: &Profile) -> (r: Profile)
    ensures
        r@ == p@,
{
    Profile {
        name: p.name.clone(),
        command: p.command.clone(),
        working_directory: p.working_directory.clone(),
        hold: p.hold,
        syntax_theme_dark: p.syntax_theme_dark.clone(),
        syntax_theme_light: p.syntax_theme_light.clone(),
        tab_title: p.tab_title.clone(),
    }
}

/// Applies a change to a profile, when it exists; returns whether it did
/// (the profiles are then to be saved).
pub fn edit_profile(profiles: &mut IdMap<Profile>, id: ProfileId, edit: ProfileEdit) -> (r: bool)
    ensures
        r == old(profiles)@.contains_key(id.0),
        r ==> final(profiles)@.dom() == old(profiles)@.dom()
            && profiles_view(final(profiles)@) == profiles_view(old(profiles)@).insert(
            id.0,
            edited(old(profiles)@[id.0]@, edit),
        ),
        !r ==> final(profiles)@ == old(profiles)@,
{
    let current = match profiles.get(id.0) {
        Some(p) => copy_profile(p),
        None => {
            return false;
        },
    };
    let ghost before = profiles@;
    let mut p = current;
    match edit {
        ProfileEdit::Name(t) => p.name = t,
        ProfileEdit::Command(t) => p.command = t,
        ProfileEdit::WorkingDirectory(t) => p.working_directory = t,
        ProfileEdit::Hold(h) => p.hold = h,
        ProfileEdit::TabTitle(t) => p.tab_title = t,
        ProfileEdit::SyntaxTheme(ColorSchemeKind::Dark, t) => p.syntax_theme_dark = t,
        ProfileEdit::SyntaxTheme(ColorSchemeKind::Light, t) => p.syntax_theme_light = t,
    }
    let ghost pv = p@;
    profiles.insert(id.0, p);
    proof {
        assert(before.insert(id.0, profiles@[id.0]).dom() =~= before.dom());
        assert(profiles_view(profiles@) =~= profiles_view(before).insert(id.0, pv));
    }
    true
}

/// Adds a profile under a new identifier, one past the largest in use (0
/// for the first), and returns that identifier.
pub fn add_profile(profiles: &mut IdMap<Profile>, profile: Profile) -> (r: ProfileId)
    requires
        forall|k: u64| #[trigger] old(profiles)@.contains_key(k) ==> k < u64::MAX,
    ensures
        !old(profiles)@.contains_key(r.0),
        forall|k: u64| #[trigger] old(profiles)@.contains_key(k) ==> k < r.0,
        old(profiles)@.dom() == Set::<u64>::empty() ==> r.0 == 0,
        old(profiles)@.dom() != Set::<u64>::empty() ==> old(profiles)@.contains_key((r.0 - 1) as u64),
        final(profiles)@ == old(profiles)@.insert(r.0, profile),
{
    ProfileId(profiles.insert_next(profile))
}

/// Removes a profile. When it was the default profile, there is no default
/// profile any more; returns whether that happened (the setting is then to
/// be saved).
pub fn remove_profile(
    profiles: &mut IdMap<Profile>,
    default_profile: &mut Option<ProfileId>,
    id: ProfileId,
) -> (default_cleared: bool)
    ensures
        final(profiles)@ == old(profiles)@.remove(id.0),
        default_cleared == (*old(default_profile) == Some(id)),
        *final(default_profile) == (if default_cleared {
            None
        } else {
            *old(default_profile)
        }),
{
    let cleared = *default_profile == Some(id);
    if cleared {
        *default_profile = None;
    }
    profiles.remove(id.0);
    cleared
}

/// Removing a profile that was just added, under the identifier it was
/// given, leaves the profiles as they were.
pub proof fn lemma_remove_undoes_add(before: Map<u64, Profile>, id: ProfileId, profile: Profile)
    requires
        !before.contains_key(id.0),
    ensures
        before.insert(id.0, profile).remove(id.0) == before,
{
    assert(before.insert(id.0, profile).remove(id.0) =~= before);
}

/// The default profile after its toggle on a profile is switched: that
/// profile when switched on, none when switched off.
pub fn default_profile_choice(is_default: bool, id: ProfileId) -> (r: Option<ProfileId>)
    ensures
        r == (if is_default {
            Some(id)
        } else {
            None
        }),
{
    if is_default {
        Some(id)
    } else {
        None
    }
}

/// What `shlex::split` gives for a command line: its words, or `None` when
/// the quoting is not closed properly.
pub uninterp spec fn shell_words(s: Seq<char>) -> Option<Seq<Seq<char>>>;

/// `shlex::split`: splits a command line into words the way a POSIX shell
/// does. The contract names the result as a function of the text alone and
/// claims nothing more of it.
#[verifier::external_body]
fn shell_split(s: &str) -> (r: Option<Vec<String>>)
    ensures
        match r {
            Some(v) => shell_words(s@) == Some(texts(v@)),
            None => shell_words(s@) is None,
        },
{
    shlex::split(s)
}

/// How a new terminal opened with a profile starts.
pub struct LaunchOptions {
    /// The program and its arguments, or `None` for the user's shell.
    pub shell: Option<(String, Vec<String>)>,
    pub working_directory: Option<String>,
    pub hold: bool,
    pub tab_title_override: Option<String>,
}

/// The program of a profile's command line: its first word with the rest as
/// arguments, when the command line splits into at least one word.
pub open spec fn launch_program(command: Seq<char>) -> Option<(Seq<char>, Seq<Seq<char>>)> {
    match shell_words(command) {
        Some(words) => if words.len() > 0 {
            Some((words[0], words.drop_first()))
        } else {
            None
        },
        None => None,
    }
}

/// The program and its arguments from the words of a command line: the
/// first word and the rest; nothing for no words, or for a command line that
/// could not be split (`None`).
pub fn program_and_args(words: Option<Vec<String>>) -> (r: Option<(String, Vec<String>)>)
    ensures
        match words {
            Some(w) => if w@.len() > 0 {
                r matches Some((program, args)) && program@ == w@[0]@ && texts(args@) == texts(
                    w@,
                ).drop_first()
            } else {
                r is None
            },
            None => r is None,
        },
{
    match words {
        Some(mut args) => {
            if args.len() > 0 {
                let ghost all = texts(args@);
                let command = args.remove(0);
                assert(texts(args@) =~= all.drop_first());
                Some((command, args))
            } else {
                None
            }
        },
        None => None,
    }
}

/// The options of a new terminal opened with a profile: its command line
/// as program and arguments, its working directory and tab title when not
/// empty, and whether to keep the tab open after the program exits.
pub fn launch_options(profile: &Profile) -> (r: LaunchOptions)
    ensures
        match r.shell {
            Some((program, args)) => launch_program(profile.command@) == Some((program@, texts(args@))),
            None => launch_program(profile.command@) is None,
        },
        match r.working_directory {
            Some(d) => profile.working_directory@.len() > 0 && d@ == profile.working_directory@,
            None => profile.working_directory@.len() == 0,
        },
        r.hold == profile.hold,
        match r.tab_title_override {
            Some(t) => profile.tab_title@.len() > 0 && t@ == profile.tab_title@,
            None => profile.tab_title@.len() == 0,
        },
{
    let shell = program_and_args(shell_split(profile.command.as_str()));
    let working_directory = if profile.working_directory.as_str().unicode_len() > 0 {
        Some(profile.working_directory.clone())
    } else {
        None
    };
    let tab_title_override = if profile.tab_title.as_str().unicode_len() == 0 {
        None
    } else {
        Some(profile.tab_title.clone())
    };
    LaunchOptions { shell, working_directory, hold: profile.hold, tab_title_override }
}

} // verus!
