use vstd::prelude::*;

use crate::keybinds::{ConfigKeyBinding, ConfigKeyBindingView, bindings_view};
use crate::keys::{
    is_just_modifier_key, is_modifier_key, modifier_labels, modifiers_to_strings,
    named_key_to_string, Key, KeyView, Modifiers,
};
use crate::text::{
    char_is_control, eq_ignore_ascii_case, is_control, join, joined, lowercased, nonempty, owned, sort_texts,
    split_nonempty, split_on, lemma_nonempty_all, lemma_split_nonempty, lemma_split_join, ascii_lower, texts, texts_sorted, to_lowercase, to_uppercase, uppercased,
};

verus! {

/// The state of keyboard shortcut editing: the dialog in which a new key
/// combination is entered for one configured binding, and the recording of
/// a combination captured for a binding.
pub struct KeyBindingEditor {
    /// The configured binding the dialog edits, while it is open.
    pub keybind_dialog_open_for_index: Option<usize>,
    /// Labels of the modifiers entered so far, such as `Ctrl` or `Shift`.
    pub keybind_dialog_current_modifiers_text: Vec<String>,
    /// Label of the key entered so far.
    pub keybind_dialog_current_key_text: Option<String>,
    /// Set once a key has been entered: later modifier changes are then
    /// ignored until the keys are cleared.
    pub keybind_dialog_current_modifiers_lock: bool,
    /// The configured binding a key combination is being recorded for.
    pub currently_recording_binding_index: Option<usize>,
}

/// The text of an optional string.
pub open spec fn opt_text(o: Option<String>) -> Option<Seq<char>> {
    match o {
        Some(s) => Some(s@),
        None => None,
    }
}

/// What pressing a key did to the dialog.
#[derive(Clone, Copy, Debug, PartialEq, Eq, Structural)]
pub enum DialogKeyOutcome {
    /// The dialog is not open: the key is a plain key press.
    NotOpen,
    /// Enter saved the entered combination into the binding and closed the
    /// dialog.
    Saved,
    /// Enter was pressed without a key and at least one modifier entered;
    /// nothing changed.
    SaveRefused,
    /// Escape closed the dialog without saving.
    Cancelled,
    /// Any other key: entered as the key of the combination when at least one
    /// modifier is entered and the key is not itself a modifier key.
    Entered,
}

/// What storing a captured key combination did.
#[derive(Clone, Copy, Debug, PartialEq, Eq, Structural)]
pub enum CaptureOutcome {
    /// The binding now holds the captured combination; the shortcut table is
    /// to be rebuilt and the bindings saved.
    Updated,
    /// The key could not be identified: the binding, if it exists, was
    /// marked as holding an unknown key; the bindings are to be saved.
    UnknownKey,
    /// There is no binding at that index; nothing was stored.
    NoSuchBinding,
}

/// The text of a named key shown in the dialog, or of the character a key
/// produces in upper case; nothing for an empty or control character text or
/// an unidentified key.
pub open spec fn dialog_key_label(k: KeyView) -> Option<Seq<char>> {
    match k {
        KeyView::Named(n) => Some(n),
        KeyView::Character(s) => if s.len() == 0 || exists|i: int|
            0 <= i < s.len() && is_control(#[trigger] s[i]) {
            None
        } else {
            Some(uppercased(s))
        },
        KeyView::Unidentified => None,
    }
}

/// The label the dialog shows for a pressed key.
pub fn dialog_key_text(key: &Key) -> (r: Option<String>)
    ensures
        opt_text(r) == dialog_key_label(key@),
{
    match key {
        Key::Named(nk) => named_key_to_string(nk),
        Key::Character(s) => {
            let t = s.as_str();
            let n = t.unicode_len();
            let mut i: usize = 0;
            let mut control = false;
            while i < n
                invariant
                    n == t@.len(),
                    i <= n,
                    control == exists|k: int| 0 <= k < i && is_control(#[trigger] t@[k]),
                decreases n - i,
            {
                let c = t.get_char(i);
                if char_is_control(c) {
                    control = true;
                }
                i = i + 1;
            }
            if control || n == 0 {
                None
            } else {
                Some(to_uppercase(t))
            }
        },
        Key::Unidentified => None,
    }
}

/// The key name stored for a captured key: a character key in lower case,
/// a named key by its name; nothing for an unidentified key.
pub open spec fn captured_key_label(k: KeyView) -> Option<Seq<char>> {
    match k {
        KeyView::Character(s) => Some(lowercased(s)),
        KeyView::Named(n) => Some(n),
        KeyView::Unidentified => None,
    }
}

/// The key name stored for a captured key.
pub fn captured_key_text(key: &Key) -> (r: Option<String>)
    ensures
        opt_text(r) == captured_key_label(key@),
{
    match key {
        Key::Character(s) => Some(to_lowercase(s.as_str())),
        Key::Named(n) => Some(n.clone()),
        Key::Unidentified => None,
    }
}

/// The names of the held modifiers stored for a captured combination, in
/// the order Control, Alt, Shift, Super.
pub open spec fn captured_modifier_names(m: Modifiers) -> Seq<Seq<char>> {
    let s0 = Seq::<Seq<char>>::empty();
    let s1 = if m.control { s0.push("Control"@) } else { s0 };
    let s2 = if m.alt { s1.push("Alt"@) } else { s1 };
    let s3 = if m.shift { s2.push("Shift"@) } else { s2 };
    if m.logo { s3.push("Super"@) } else { s3 }
}

/// The modifier list stored for a captured combination: the names of the
/// held modifiers joined with `|`.
pub fn captured_modifiers_text(m: Modifiers) -> (r: String)
    ensures
        r@ == joined(captured_modifier_names(m), "|"@),
{
    let mut names: Vec<String> = Vec::new();
    if m.control {
        names.push(owned("Control"));
    }
    if m.alt {
        names.push(owned("Alt"));
    }
    if m.shift {
        names.push(owned("Shift"));
    }
    if m.logo {
        names.push(owned("Super"));
    }
    assert(texts(names@) =~= captured_modifier_names(m));
    join(&names, "|")
}

/// The key combination of a configured binding as a list of shortcut rows
/// shows it: the non-empty modifier names joined with ` + `, then ` + ` and
/// the key when there is both.
pub open spec fn binding_label(b: ConfigKeyBindingView) -> Seq<char> {
    let mods = if b.mods.len() == 0 {
        Seq::<char>::empty()
    } else {
        joined(nonempty(split_on(b.mods, '|')), " + "@)
    };
    if mods.len() == 0 {
        b.key
    } else if b.key.len() == 0 {
        mods
    } else {
        mods + " + "@ + b.key
    }
}

/// The key combination of a configured binding as shown in the list of
/// shortcuts.
pub fn binding_display(binding: &ConfigKeyBinding) -> (r: String)
    ensures
        r@ == binding_label(binding@),
{
    let mods_display = if binding.mods.as_str().unicode_len() == 0 {
        String::new()
    } else {
        let parts = split_nonempty(binding.mods.as_str(), '|');
        join(&parts, " + ")
    };
    if mods_display.as_str().unicode_len() == 0 {
        binding.key.clone()
    } else if binding.key.as_str().unicode_len() == 0 {
        mods_display
    } else {
        let mut r = mods_display;
        r.append(" + ");
        r.append(binding.key.as_str());
        r
    }
}

/// The combination entered so far as the dialog shows it: the modifier
/// labels and then the key, joined with ` + `; with modifiers but no key yet,
/// the modifier labels followed by ` + <Key>`; a prompt when nothing is
/// entered.
pub open spec fn entered_label(mods: Seq<Seq<char>>, key: Option<Seq<char>>) -> Seq<char> {
    let parts0 = if mods.len() > 0 {
        seq![joined(mods, " + "@)]
    } else {
        Seq::<Seq<char>>::empty()
    };
    let parts = match key {
        Some(k) => parts0.push(k),
        None => parts0,
    };
    if parts.len() == 0 {
        "<Press key combination>"@
    } else if key is None {
        joined(mods, " + "@) + " + <Key>"@
    } else {
        joined(parts, " + "@)
    }
}

impl KeyBindingEditor {
    /// The labels of the modifiers entered so far.
    pub open spec fn mods_text(&self) -> Seq<Seq<char>> {
        texts(self.keybind_dialog_current_modifiers_text@)
    }

    /// The label of the key entered so far.
    pub open spec fn key_text(&self) -> Option<Seq<char>> {
        opt_text(self.keybind_dialog_current_key_text)
    }

    /// Whether the dialog is closed with nothing entered and unlocked.
    pub open spec fn is_closed_and_clear(&self) -> bool {
        &&& self.keybind_dialog_open_for_index is None
        &&& self.mods_text().len() == 0
        &&& self.key_text() is None
        &&& !self.keybind_dialog_current_modifiers_lock
    }

    /// Closed dialog, nothing recorded.
    pub fn new() -> (r: Self)
        ensures
            r.is_closed_and_clear(),
            r.currently_recording_binding_index is None,
    {
        let r = KeyBindingEditor {
            keybind_dialog_open_for_index: None,
            keybind_dialog_current_modifiers_text: Vec::new(),
            keybind_dialog_current_key_text: None,
            keybind_dialog_current_modifiers_lock: false,
            currently_recording_binding_index: None,
        };
        assert(r.mods_text() =~= Seq::<Seq<char>>::empty());
        r
    }

    /// The combination entered so far, as the dialog shows it.
    pub fn entered_display(&self) -> (r: String)
        ensures
            r@ == entered_label(self.mods_text(), self.key_text()),
    {
        let mut parts: Vec<String> = Vec::new();
        if self.keybind_dialog_current_modifiers_text.len() > 0 {
            parts.push(join(&self.keybind_dialog_current_modifiers_text, " + "));
        }
        match &self.keybind_dialog_current_key_text {
            Some(k) => parts.push(k.clone()),
            None => {},
        }
        proof {
            let parts0 = if self.mods_text().len() > 0 {
                seq![joined(self.mods_text(), " + "@)]
            } else {
                Seq::<Seq<char>>::empty()
            };
            let expected = match self.key_text() {
                Some(k) => parts0.push(k),
                None => parts0,
            };
            assert(texts(parts@) =~= expected);
        }
        if parts.len() == 0 {
            owned("<Press key combination>")
        } else if self.keybind_dialog_current_key_text.is_none() {
            let mut r = join(&self.keybind_dialog_current_modifiers_text, " + ");
            r.append(" + <Key>");
            r
        } else {
            join(&parts, " + ")
        }
    }

    /// Opens the dialog for the binding at `index`, showing its current
    /// combination; does nothing while the dialog is already open.
    pub fn open(&mut self, index: usize, bindings: &Vec<ConfigKeyBinding>)
        requires
            old(self).keybind_dialog_open_for_index is Some || index < bindings@.len(),
        ensures
            old(self).keybind_dialog_open_for_index is Some ==> *final(self) == *old(self),
            old(self).keybind_dialog_open_for_index is None ==> {
                &&& final(self).keybind_dialog_open_for_index == Some(index)
                &&& !final(self).keybind_dialog_current_modifiers_lock
                &&& final(self).mods_text() == nonempty(split_on(bindings@[index as int].mods@, '|'))
                &&& final(self).key_text() == (if bindings@[index as int].key@.len() == 0 {
                    None
                } else {
                    Some(bindings@[index as int].key@)
                })
                &&& final(self).currently_recording_binding_index
                    == old(self).currently_recording_binding_index
            },
    {
        if self.keybind_dialog_open_for_index.is_none() {
            self.keybind_dialog_current_modifiers_lock = false;
            self.keybind_dialog_open_for_index = Some(index);
            let binding = &bindings[index];
            self.keybind_dialog_current_modifiers_text = split_nonempty(binding.mods.as_str(), '|');
            self.keybind_dialog_current_key_text = if binding.key.as_str().unicode_len() == 0 {
                None
            } else {
                Some(binding.key.clone())
            };
        }
    }

    /// Closes the dialog without saving, clearing what was entered.
    pub fn close_without_saving(&mut self)
        ensures
            final(self).is_closed_and_clear(),
            final(self).currently_recording_binding_index
                == old(self).currently_recording_binding_index,
    {
        self.keybind_dialog_open_for_index = None;
        self.keybind_dialog_current_modifiers_text = Vec::new();
        self.keybind_dialog_current_modifiers_lock = false;
        self.keybind_dialog_current_key_text = None;
        assert(self.mods_text() =~= Seq::<Seq<char>>::empty());
    }

    /// Clears what was entered, while the dialog is open.
    pub fn clear_keys(&mut self)
        ensures
            old(self).keybind_dialog_open_for_index is None ==> *final(self) == *old(self),
            old(self).keybind_dialog_open_for_index is Some ==> {
                &&& final(self).keybind_dialog_open_for_index
                    == old(self).keybind_dialog_open_for_index
                &&& final(self).mods_text().len() == 0
                &&& final(self).key_text() is None
                &&& !final(self).keybind_dialog_current_modifiers_lock
                &&& final(self).currently_recording_binding_index
                    == old(self).currently_recording_binding_index
            },
    {
        if self.keybind_dialog_open_for_index.is_some() {
            self.keybind_dialog_current_modifiers_text = Vec::new();
            self.keybind_dialog_current_key_text = None;
            self.keybind_dialog_current_modifiers_lock = false;
        }
    }

    /// Shows the default combination of the edited binding's action, with
    /// the modifier names sorted, while the dialog is open.
    pub fn set_to_default(&mut self, default_binding: &ConfigKeyBinding)
        ensures
            old(self).keybind_dialog_open_for_index is None ==> *final(self) == *old(self),
            old(self).keybind_dialog_open_for_index is Some ==> {
                &&& final(self).keybind_dialog_open_for_index
                    == old(self).keybind_dialog_open_for_index
                &&& !final(self).keybind_dialog_current_modifiers_lock
                &&& texts_sorted(final(self).mods_text())
                &&& final(self).mods_text().to_multiset() == nonempty(
                    split_on(default_binding.mods@, '|'),
                ).to_multiset()
                &&& final(self).key_text() == (if default_binding.key@.len() == 0 {
                    None
                } else {
                    Some(default_binding.key@)
                })
                &&& final(self).currently_recording_binding_index
                    == old(self).currently_recording_binding_index
            },
    {
        if self.keybind_dialog_open_for_index.is_some() {
            self.keybind_dialog_current_modifiers_lock = false;
            let parts = split_nonempty(default_binding.mods.as_str(), '|');
            self.keybind_dialog_current_modifiers_text = sort_texts(parts);
            self.keybind_dialog_current_key_text = if default_binding.key.as_str().unicode_len()
                == 0 {
                None
            } else {
                Some(default_binding.key.clone())
            };
        }
    }

    /// Follows the held modifiers while the dialog is open and no key has
    /// been entered yet.
    pub fn modifiers_changed(&mut self, modifiers: Modifiers)
        ensures
            (old(self).keybind_dialog_open_for_index is Some
                && !old(self).keybind_dialog_current_modifiers_lock) ==> {
                &&& final(self).mods_text() == modifier_labels(modifiers)
                &&& final(self).keybind_dialog_open_for_index
                    == old(self).keybind_dialog_open_for_index
                &&& final(self).keybind_dialog_current_key_text
                    == old(self).keybind_dialog_current_key_text
                &&& final(self).keybind_dialog_current_modifiers_lock
                    == old(self).keybind_dialog_current_modifiers_lock
                &&& final(self).currently_recording_binding_index
                    == old(self).currently_recording_binding_index
            },
            !(old(self).keybind_dialog_open_for_index is Some
                && !old(self).keybind_dialog_current_modifiers_lock) ==> *final(self) == *old(
                self,
            ),
    {
        if self.keybind_dialog_open_for_index.is_some()
            && !self.keybind_dialog_current_modifiers_lock {
            self.keybind_dialog_current_modifiers_text = modifiers_to_strings(modifiers);
        }
    }

    /// Saves the entered combination into the edited binding and closes the
    /// dialog, when a key and at least one modifier are entered; returns
    /// whether it did. Otherwise nothing changes.
    pub fn close_and_save(&mut self, bindings: &mut Vec<ConfigKeyBinding>) -> (saved: bool)
        requires
            old(self).keybind_dialog_open_for_index matches Some(i) ==> i < old(bindings)@.len(),
        ensures
            saved == (old(self).keybind_dialog_open_for_index is Some && old(self).key_text() is Some
                && old(self).mods_text().len() > 0),
            !saved ==> *final(self) == *old(self) && final(bindings)@ == old(bindings)@,
            saved ==> {
                let i = old(self).keybind_dialog_open_for_index->0 as int;
                &&& final(self).is_closed_and_clear()
                &&& final(self).currently_recording_binding_index
                    == old(self).currently_recording_binding_index
                &&& final(bindings)@.len() == old(bindings)@.len()
                &&& bindings_view(final(bindings)@) == bindings_view(old(bindings)@).update(
                    i,
                    ConfigKeyBindingView {
                        action: old(bindings)@[i].action,
                        key: old(self).key_text()->0,
                        mods: joined(old(self).mods_text(), "|"@),
                    },
                )
            },
    {
        match self.keybind_dialog_open_for_index {
            Some(index) => {
                if self.keybind_dialog_current_key_text.is_some()
                    && self.keybind_dialog_current_modifiers_text.len() > 0 {
                    self.keybind_dialog_current_modifiers_lock = false;
                    let new_mods = join(&self.keybind_dialog_current_modifiers_text, "|");
                    let new_key = match &self.keybind_dialog_current_key_text {
                        Some(k) => k.clone(),
                        None => String::new(),
                    };
                    let action = bindings[index].action;
                    let ghost before = bindings@;
                    bindings.set(index, ConfigKeyBinding { action, key: new_key, mods: new_mods });
                    proof {
                        assert(bindings_view(bindings@) =~= bindings_view(before).update(
                            index as int,
                            ConfigKeyBindingView {
                                action: before[index as int].action,
                                key: old(self).key_text()->0,
                                mods: joined(old(self).mods_text(), "|"@),
                            },
                        ));
                    }
                    self.keybind_dialog_open_for_index = None;
                    self.keybind_dialog_current_modifiers_text = Vec::new();
                    self.keybind_dialog_current_key_text = None;
                    assert(self.mods_text() =~= Seq::<Seq<char>>::empty());
                    true
                } else {
                    false
                }
            },
            None => false,
        }
    }

    /// Handles a key press while the dialog may be open: Enter saves (when
    /// possible), Escape cancels, and any other key that is not a modifier key
    /// becomes the entered key once a modifier is entered, which locks the
    /// modifiers.
    pub fn key_pressed(&mut self, key: &Key, bindings: &mut Vec<ConfigKeyBinding>) -> (r:
        DialogKeyOutcome)
        requires
            old(self).keybind_dialog_open_for_index matches Some(i) ==> i < old(bindings)@.len(),
        ensures
            old(self).keybind_dialog_open_for_index is None <==> r == DialogKeyOutcome::NotOpen,
            r == DialogKeyOutcome::NotOpen ==> *final(self) == *old(self) && final(bindings)@
                == old(bindings)@,
            old(self).keybind_dialog_open_for_index is Some && key@ == KeyView::Named("Enter"@) ==> (
            r == DialogKeyOutcome::Saved || r == DialogKeyOutcome::SaveRefused),
            old(self).keybind_dialog_open_for_index is Some && key@ == KeyView::Named("Enter"@) ==> (
            r == DialogKeyOutcome::Saved <==> (old(self).key_text() is Some && old(self).mods_text().len()
                > 0)),
            old(self).keybind_dialog_open_for_index is Some && key@ == KeyView::Named("Escape"@) ==> r
                == DialogKeyOutcome::Cancelled,
            r == DialogKeyOutcome::Saved ==> key@ == KeyView::Named("Enter"@)
                && final(self).is_closed_and_clear(),
            r == DialogKeyOutcome::Saved ==> {
                let i = old(self).keybind_dialog_open_for_index->0 as int;
                &&& final(self).currently_recording_binding_index
                    == old(self).currently_recording_binding_index
                &&& final(bindings)@.len() == old(bindings)@.len()
                &&& bindings_view(final(bindings)@) == bindings_view(old(bindings)@).update(
                    i,
                    ConfigKeyBindingView {
                        action: old(bindings)@[i].action,
                        key: old(self).key_text()->0,
                        mods: joined(old(self).mods_text(), "|"@),
                    },
                )
            },
            r == DialogKeyOutcome::SaveRefused ==> key@ == KeyView::Named("Enter"@) && *final(self)
                == *old(self) && final(bindings)@ == old(bindings)@,
            r == DialogKeyOutcome::Cancelled ==> key@ == KeyView::Named("Escape"@)
                && final(self).is_closed_and_clear() && final(bindings)@ == old(bindings)@,
            r == DialogKeyOutcome::Entered ==> {
                &&& key@ != KeyView::Named("Enter"@)
                &&& key@ != KeyView::Named("Escape"@)
                &&& final(bindings)@ == old(bindings)@
                &&& final(self).keybind_dialog_open_for_index
                    == old(self).keybind_dialog_open_for_index
                &&& final(self).keybind_dialog_current_modifiers_text
                    == old(self).keybind_dialog_current_modifiers_text
                &&& final(self).currently_recording_binding_index
                    == old(self).currently_recording_binding_index
                &&& if old(self).mods_text().len() > 0 && !is_modifier_key(key@) {
                    &&& final(self).keybind_dialog_current_modifiers_lock
                    &&& final(self).key_text() == dialog_key_label(key@)
                } else {
                    *final(self) == *old(self)
                }
            },
    {
        if self.keybind_dialog_open_for_index.is_none() {
            return DialogKeyOutcome::NotOpen;
        }
        proof {
            reveal_strlit("Enter");
            reveal_strlit("Escape");
            assert("Enter"@.len() != "Escape"@.len());
        }
        let (is_enter, is_escape) = match key {
            Key::Named(n) => (
                crate::text::text_eq(n.as_str(), "Enter"),
                crate::text::text_eq(n.as_str(), "Escape"),
            ),
            _ => (false, false),
        };
        if is_enter {
            if self.close_and_save(bindings) {
                DialogKeyOutcome::Saved
            } else {
                DialogKeyOutcome::SaveRefused
            }
        } else if is_escape {
            self.close_without_saving();
            DialogKeyOutcome::Cancelled
        } else {
            if self.keybind_dialog_current_modifiers_text.len() > 0 {
                if !is_just_modifier_key(key) {
                    self.keybind_dialog_current_modifiers_lock = true;
                    self.keybind_dialog_current_key_text = dialog_key_text(key);
                }
            }
            DialogKeyOutcome::Entered
        }
    }

    /// Starts recording a key combination for the binding at `index`.
    pub fn start_recording(&mut self, index: usize)
        ensures
            final(self).currently_recording_binding_index == Some(index),
            final(self).keybind_dialog_open_for_index == old(self).keybind_dialog_open_for_index,
            final(self).keybind_dialog_current_modifiers_text
                == old(self).keybind_dialog_current_modifiers_text,
            final(self).keybind_dialog_current_key_text
                == old(self).keybind_dialog_current_key_text,
            final(self).keybind_dialog_current_modifiers_lock
                == old(self).keybind_dialog_current_modifiers_lock,
    {
        self.currently_recording_binding_index = Some(index);
    }

    /// Stops recording, whichever binding was being recorded for.
    pub fn cancel_recording(&mut self, index: usize)
        ensures
            final(self).currently_recording_binding_index is None,
            final(self).keybind_dialog_open_for_index == old(self).keybind_dialog_open_for_index,
            final(self).keybind_dialog_current_modifiers_text
                == old(self).keybind_dialog_current_modifiers_text,
            final(self).keybind_dialog_current_key_text
                == old(self).keybind_dialog_current_key_text,
            final(self).keybind_dialog_current_modifiers_lock
                == old(self).keybind_dialog_current_modifiers_lock,
    {
        if self.currently_recording_binding_index == Some(index)
            || self.currently_recording_binding_index.is_some() {
            self.currently_recording_binding_index = None;
        }
    }

    /// Stores a captured key combination into the binding at `index`, ending
    /// the recording.
    pub fn store_captured(
        &mut self,
        bindings: &mut Vec<ConfigKeyBinding>,
        index: usize,
        key: &Key,
        modifiers: Modifiers,
    ) -> (r: CaptureOutcome)
        ensures
            final(self).currently_recording_binding_index is None,
            final(self).keybind_dialog_open_for_index == old(self).keybind_dialog_open_for_index,
            final(self).keybind_dialog_current_modifiers_text
                == old(self).keybind_dialog_current_modifiers_text,
            final(self).keybind_dialog_current_key_text
                == old(self).keybind_dialog_current_key_text,
            final(self).keybind_dialog_current_modifiers_lock
                == old(self).keybind_dialog_current_modifiers_lock,
            final(bindings)@.len() == old(bindings)@.len(),
            r == (match captured_key_label(key@) {
                None => CaptureOutcome::UnknownKey,
                Some(_) => if index < old(bindings)@.len() {
                    CaptureOutcome::Updated
                } else {
                    CaptureOutcome::NoSuchBinding
                },
            }),
            index >= old(bindings)@.len() ==> final(bindings)@ == old(bindings)@,
            index < old(bindings)@.len() ==> bindings_view(final(bindings)@) == bindings_view(
                old(bindings)@,
            ).update(
                index as int,
                match captured_key_label(key@) {
                    Some(k) => ConfigKeyBindingView {
                        action: old(bindings)@[index as int].action,
                        key: k,
                        mods: joined(captured_modifier_names(modifiers), "|"@),
                    },
                    None => ConfigKeyBindingView {
                        action: old(bindings)@[index as int].action,
                        key: "unknown_captured_key"@,
                        mods: Seq::<char>::empty(),
                    },
                },
            ),
            r == CaptureOutcome::Updated && readable_key(key@) ==> (crate::keybinds::configured_keybind(
                bindings_view(final(bindings)@)[index as int],
            ) matches Some(kb) && crate::keys::keybind_matches(kb, modifiers, key@)),
    {
        self.currently_recording_binding_index = None;
        let ghost before = bindings@;
        match captured_key_text(key) {
            None => {
                if index < bindings.len() {
                    let action = bindings[index].action;
                    bindings.set(
                        index,
                        ConfigKeyBinding {
                            action,
                            key: owned("unknown_captured_key"),
                            mods: String::new(),
                        },
                    );
                    assert(bindings_view(bindings@) =~= bindings_view(before).update(
                        index as int,
                        ConfigKeyBindingView {
                            action: before[index as int].action,
                            key: "unknown_captured_key"@,
                            mods: Seq::<char>::empty(),
                        },
                    ));
                }
                CaptureOutcome::UnknownKey
            },
            Some(new_key) => {
                let new_mods = captured_modifiers_text(modifiers);
                if index < bindings.len() {
                    let action = bindings[index].action;
                    let ghost k = new_key@;
                    bindings.set(index, ConfigKeyBinding { action, key: new_key, mods: new_mods });
                    assert(bindings_view(bindings@) =~= bindings_view(before).update(
                        index as int,
                        ConfigKeyBindingView {
                            action: before[index as int].action,
                            key: k,
                            mods: joined(captured_modifier_names(modifiers), "|"@),
                        },
                    ));
                    proof {
                        if readable_key(key@) {
                            lemma_recorded_combination_triggers(key@, modifiers, action);
                        }
                    }
                    CaptureOutcome::Updated
                } else {
                    CaptureOutcome::NoSuchBinding
                }
            },
        }
    }
}

/// Opening the dialog on a binding and saving at once leaves the binding as
/// it was, when it has a key and its modifier list has no empty parts.
pub proof fn lemma_reopen_and_save_keeps_binding(b: ConfigKeyBindingView)
    requires
        b.key.len() > 0,
        forall|k: int|
            0 <= k < split_on(b.mods, '|').len() ==> (#[trigger] split_on(b.mods, '|')[k]).len()
                > 0,
    ensures
        nonempty(split_on(b.mods, '|')).len() > 0,
        (ConfigKeyBindingView {
            action: b.action,
            key: b.key,
            mods: joined(nonempty(split_on(b.mods, '|')), "|"@),
        }) == b,
{
    lemma_nonempty_all(split_on(b.mods, '|'));
    lemma_split_nonempty(b.mods, '|');
    lemma_split_join(b.mods, '|');
    reveal_strlit("|");
    assert("|"@ =~= seq!['|']);
}

/// Named keys that the configuration parser reads back from their name:
/// those it knows, except Control, which is a modifier key.
pub open spec fn readable_named_key(n: Seq<char>) -> bool {
    n == "Enter"@ || n == "Tab"@ || n == "Backspace"@ || n == "Escape"@ || n == "Delete"@ || n == "Home"@ || n == "End"@ || n == "PageUp"@ || n == "PageDown"@ || n == "ArrowLeft"@ || n == "ArrowRight"@ || n == "ArrowUp"@ || n == "ArrowDown"@ || n == "F1"@ || n == "F2"@
}

/// Keys whose stored name the configuration parser reads back as the same
/// key: one ASCII character, or a readable named key.
pub open spec fn readable_key(k: KeyView) -> bool {
    match k {
        KeyView::Character(s) => s.len() == 1 && vstd::utf8::is_ascii_chars(s),
        KeyView::Named(n) => readable_named_key(n),
        KeyView::Unidentified => false,
    }
}

proof fn lemma_named_key_reads(n: Seq<char>)
    requires
        readable_named_key(n),
    ensures
        n.len() > 1,
        vstd::utf8::is_ascii_chars(n),
        crate::keys::named_key_for(ascii_lower(n)) == Some(n),
{
    reveal_strlit("Enter");
    reveal_strlit("Tab");
    reveal_strlit("Backspace");
    reveal_strlit("Escape");
    reveal_strlit("Delete");
    reveal_strlit("Home");
    reveal_strlit("End");
    reveal_strlit("PageUp");
    reveal_strlit("PageDown");
    reveal_strlit("ArrowLeft");
    reveal_strlit("ArrowRight");
    reveal_strlit("ArrowUp");
    reveal_strlit("ArrowDown");
    reveal_strlit("F1");
    reveal_strlit("F2");
    reveal_strlit("enter");
    reveal_strlit("tab");
    reveal_strlit("backspace");
    reveal_strlit("escape");
    reveal_strlit("delete");
    reveal_strlit("home");
    reveal_strlit("end");
    reveal_strlit("pageup");
    reveal_strlit("pagedown");
    reveal_strlit("arrowleft");
    reveal_strlit("arrowright");
    reveal_strlit("arrowup");
    reveal_strlit("arrowdown");
    reveal_strlit("ctrl");
    reveal_strlit("f1");
    reveal_strlit("f2");
    assert("tab"@[0] != "end"@[0]);
    assert("backspace"@[0] != "arrowleft"@[0]);
    assert("backspace"@[0] != "arrowdown"@[0]);
    assert("escape"@[0] != "delete"@[0]);
    assert("escape"@[0] != "pageup"@[0]);
    assert("delete"@[0] != "pageup"@[0]);
    assert("home"@[0] != "ctrl"@[0]);
    assert("arrowleft"@[5] != "arrowdown"@[5]);
    assert("f1"@[1] != "f2"@[1]);
    if n == "Enter"@ {
        assert(ascii_lower(n) =~= "enter"@);
    } else if n == "Tab"@ {
        assert(ascii_lower(n) =~= "tab"@);
    } else if n == "Backspace"@ {
        assert(ascii_lower(n) =~= "backspace"@);
    } else if n == "Escape"@ {
        assert(ascii_lower(n) =~= "escape"@);
    } else if n == "Delete"@ {
        assert(ascii_lower(n) =~= "delete"@);
    } else if n == "Home"@ {
        assert(ascii_lower(n) =~= "home"@);
    } else if n == "End"@ {
        assert(ascii_lower(n) =~= "end"@);
    } else if n == "PageUp"@ {
        assert(ascii_lower(n) =~= "pageup"@);
    } else if n == "PageDown"@ {
        assert(ascii_lower(n) =~= "pagedown"@);
    } else if n == "ArrowLeft"@ {
        assert(ascii_lower(n) =~= "arrowleft"@);
    } else if n == "ArrowRight"@ {
        assert(ascii_lower(n) =~= "arrowright"@);
    } else if n == "ArrowUp"@ {
        assert(ascii_lower(n) =~= "arrowup"@);
    } else if n == "ArrowDown"@ {
        assert(ascii_lower(n) =~= "arrowdown"@);
    } else if n == "F1"@ {
        assert(ascii_lower(n) =~= "f1"@);
    } else if n == "F2"@ {
        assert(ascii_lower(n) =~= "f2"@);
    }
}

/// The modifiers the parser reads from a stored recorded combination:
/// Ctrl, Alt, Shift and Super, as held.
pub open spec fn modifiers_read_back(m: Modifiers) -> Seq<crate::keys::Modifier> {
    let s0 = Seq::<crate::keys::Modifier>::empty();
    let s1 = if m.control { s0.push(crate::keys::Modifier::Ctrl) } else { s0 };
    let s2 = if m.alt { s1.push(crate::keys::Modifier::Alt) } else { s1 };
    let s3 = if m.shift { s2.push(crate::keys::Modifier::Shift) } else { s2 };
    if m.logo { s3.push(crate::keys::Modifier::Super) } else { s3 }
}

proof fn lemma_modifier_words_read()
    ensures
        crate::keys::modifier_named("Alt"@) == Some(crate::keys::Modifier::Alt),
        crate::keys::modifier_named("Shift"@) == Some(crate::keys::Modifier::Shift),
        crate::keys::modifier_named("Super"@) == Some(crate::keys::Modifier::Super),
        crate::keys::modifier_named("Ctrl"@) == Some(crate::keys::Modifier::Ctrl),
        crate::keys::modifier_named("Control"@) == Some(crate::keys::Modifier::Ctrl),
        crate::keys::modifier_named(Seq::<char>::empty()) is None,
{
    reveal_strlit("Ctrl");
    reveal_strlit("Control");
    reveal_strlit("control");
    reveal_strlit("Alt");
    reveal_strlit("Shift");
    reveal_strlit("Super");
    reveal_strlit("alt");
    reveal_strlit("shift");
    reveal_strlit("super");
    reveal_strlit("ctrl");
    reveal_strlit("logo");
    let a = "Alt"@;
    let sh = "Shift"@;
    let su = "Super"@;
    assert(crate::text::trim_start(a) == a);
    assert(crate::text::trim_end(a) == a);
    assert(vstd::utf8::is_ascii_chars(a));
    assert(ascii_lower(a) =~= "alt"@);
    assert(crate::text::trim_start(sh) == sh);
    assert(crate::text::trim_end(sh) == sh);
    assert(vstd::utf8::is_ascii_chars(sh));
    assert(ascii_lower(sh) =~= "shift"@);
    assert(crate::text::trim_start(su) == su);
    assert(crate::text::trim_end(su) == su);
    assert(vstd::utf8::is_ascii_chars(su));
    assert(ascii_lower(su) =~= "super"@);
    assert("super"@[1] != "shift"@[1]);
    let ct = "Ctrl"@;
    assert(crate::text::trim_start(ct) == ct);
    assert(crate::text::trim_end(ct) == ct);
    assert(vstd::utf8::is_ascii_chars(ct));
    assert(ascii_lower(ct) =~= "ctrl"@);
    let co = "Control"@;
    assert(crate::text::trim_start(co) == co);
    assert(crate::text::trim_end(co) == co);
    assert(vstd::utf8::is_ascii_chars(co));
    assert(ascii_lower(co) =~= "control"@);
    let e = Seq::<char>::empty();
    assert(crate::text::trim_start(e) == e);
    assert(crate::text::trim_end(e) == e);
    assert(vstd::utf8::is_ascii_chars(e));
    assert(ascii_lower(e) =~= e);
}

proof fn lemma_read_back_contains(m: Modifiers)
    ensures
        modifiers_read_back(m).contains(crate::keys::Modifier::Ctrl) == m.control,
        modifiers_read_back(m).contains(crate::keys::Modifier::Alt) == m.alt,
        modifiers_read_back(m).contains(crate::keys::Modifier::Shift) == m.shift,
        modifiers_read_back(m).contains(crate::keys::Modifier::Super) == m.logo,
{
    let r = modifiers_read_back(m);
    let r0 = Seq::<crate::keys::Modifier>::empty();
    let r1 = if m.control { r0.push(crate::keys::Modifier::Ctrl) } else { r0 };
    let r2 = if m.alt { r1.push(crate::keys::Modifier::Alt) } else { r1 };
    let r3 = if m.shift { r2.push(crate::keys::Modifier::Shift) } else { r2 };
    if m.control {
        assert(r[0] == crate::keys::Modifier::Ctrl);
    } else {
        assert(forall|i: int| 0 <= i < r.len() ==> r[i] != crate::keys::Modifier::Ctrl);
    }
    if m.alt {
        assert(r[r1.len() as int] == crate::keys::Modifier::Alt);
    } else {
        assert(forall|i: int| 0 <= i < r.len() ==> r[i] != crate::keys::Modifier::Alt);
    }
    if m.shift {
        assert(r[r2.len() as int] == crate::keys::Modifier::Shift);
    } else {
        assert(forall|i: int| 0 <= i < r.len() ==> r[i] != crate::keys::Modifier::Shift);
    }
    if m.logo {
        assert(r[r3.len() as int] == crate::keys::Modifier::Super);
    } else {
        assert(forall|i: int| 0 <= i < r.len() ==> r[i] != crate::keys::Modifier::Super);
    }
}

/// A recorded combination is read back by the parser as the modifiers that
/// were held.
proof fn lemma_captured_modifiers_read_back(m: Modifiers)
    ensures
        crate::keys::parsed_modifiers(joined(captured_modifier_names(m), "|"@))
            == modifiers_read_back(m),
{
    lemma_modifier_words_read();
    reveal_strlit("|");
    reveal_strlit("Control");
    reveal_strlit("Alt");
    reveal_strlit("Shift");
    reveal_strlit("Super");
    assert("|"@ =~= seq!['|']);
    let names = captured_modifier_names(m);
    let s0 = Seq::<Seq<char>>::empty();
    let s1 = if m.control { s0.push("Control"@) } else { s0 };
    let s2 = if m.alt { s1.push("Alt"@) } else { s1 };
    let s3 = if m.shift { s2.push("Shift"@) } else { s2 };
    assert(names == (if m.logo { s3.push("Super"@) } else { s3 }));
    if names.len() == 0 {
        assert(joined(names, "|"@) =~= Seq::<char>::empty());
        assert(split_on(Seq::<char>::empty(), '|') =~= seq![Seq::<char>::empty()]);
        assert(seq![Seq::<char>::empty()].drop_last() =~= Seq::<Seq<char>>::empty());
        assert(seq![Seq::<char>::empty()].last() == Seq::<char>::empty());
        assert(crate::keys::modifiers_of_words(Seq::<Seq<char>>::empty()) =~= Seq::<crate::keys::Modifier>::empty());
        assert(crate::keys::modifiers_of_words(seq![Seq::<char>::empty()]) =~= Seq::<crate::keys::Modifier>::empty());
        assert(crate::keys::parsed_modifiers(joined(names, "|"@)) =~= Seq::<crate::keys::Modifier>::empty());
        assert(!m.control && !m.alt && !m.shift && !m.logo);
        assert(modifiers_read_back(m) =~= Seq::<crate::keys::Modifier>::empty());
    } else {
        assert forall|k: int| 0 <= k < names.len() implies !(#[trigger] names[k]).contains('|') by {
            if names[k].contains('|') {
                let c = choose|c: int| 0 <= c < names[k].len() && names[k][c] == '|';
            }
        }
        crate::text::lemma_join_split(names, '|');
        let r0 = Seq::<crate::keys::Modifier>::empty();
        let r1 = if m.control { r0.push(crate::keys::Modifier::Ctrl) } else { r0 };
        let r2 = if m.alt { r1.push(crate::keys::Modifier::Alt) } else { r1 };
        let r3 = if m.shift { r2.push(crate::keys::Modifier::Shift) } else { r2 };
        assert(crate::keys::modifiers_of_words(s0) == r0);
        if m.control {
            assert(s1.drop_last() =~= s0);
        }
        assert(crate::keys::modifiers_of_words(s1) == r1);
        if m.alt {
            assert(s2.drop_last() =~= s1);
        }
        assert(crate::keys::modifiers_of_words(s2) == r2);
        if m.shift {
            assert(s3.drop_last() =~= s2);
        }
        assert(crate::keys::modifiers_of_words(s3) == r3);
        if m.logo {
            assert(s3.push("Super"@).drop_last() =~= s3);
            assert(crate::keys::modifiers_of_words(s3.push("Super"@)) == r3.push(crate::keys::Modifier::Super));
        }
        assert(crate::keys::modifiers_of_words(names) == modifiers_read_back(m));
        assert(split_on(joined(names, "|"@), '|') == names);
    }
}

/// A key combination recorded for a binding, stored and read back by the
/// configuration parser, triggers that binding when the same combination is
/// pressed again, provided the key is one whose stored name the parser reads
/// back.
pub proof fn lemma_recorded_combination_triggers(
    key: KeyView,
    mods: Modifiers,
    action: crate::action::Action,
)
    requires
        readable_key(key),
    ensures
        captured_key_label(key) is Some,
        crate::keybinds::configured_keybind(
            ConfigKeyBindingView {
                action,
                key: captured_key_label(key)->0,
                mods: joined(captured_modifier_names(mods), "|"@),
            },
        ) matches Some(kb) && crate::keys::keybind_matches(kb, mods, key),
{
    lemma_captured_modifiers_read_back(mods);
    lemma_read_back_contains(mods);
    let stored_mods = joined(captured_modifier_names(mods), "|"@);
    match key {
        KeyView::Character(s) => {
            let k = ascii_lower(s);
            assert(captured_key_label(key) == Some(k));
            assert(k.len() == 1);
            assert(vstd::utf8::is_ascii_chars(k)) by {
                assert(k[0] == crate::text::ascii_lower_char(s[0]));
            }
            assert(crate::keys::parsed_key(k) == KeyView::Character(k));
            assert(eq_ignore_ascii_case(s, k)) by {
                assert(k[0] == crate::text::ascii_lower_char(s[0]));
            }
        },
        KeyView::Named(n) => {
            lemma_named_key_reads(n);
            assert(captured_key_label(key) == Some(n));
            assert(crate::keys::parsed_key(n) == KeyView::Named(n));
        },
        KeyView::Unidentified => {},
    }
}

/// The modifiers the parser reads from the labels the dialog enters for the
/// held modifiers: Alt, Ctrl, Shift and Super, as held.
pub open spec fn modifiers_entered_read(m: Modifiers) -> Seq<crate::keys::Modifier> {
    let s0 = Seq::<crate::keys::Modifier>::empty();
    let s1 = if m.alt { s0.push(crate::keys::Modifier::Alt) } else { s0 };
    let s2 = if m.control { s1.push(crate::keys::Modifier::Ctrl) } else { s1 };
    let s3 = if m.shift { s2.push(crate::keys::Modifier::Shift) } else { s2 };
    if m.logo { s3.push(crate::keys::Modifier::Super) } else { s3 }
}

proof fn lemma_entered_modifiers_read_back(m: Modifiers)
    requires
        modifier_labels(m).len() > 0,
    ensures
        crate::keys::parsed_modifiers(joined(modifier_labels(m), "|"@)) == modifiers_entered_read(m),
        modifiers_entered_read(m).contains(crate::keys::Modifier::Alt) == m.alt,
        modifiers_entered_read(m).contains(crate::keys::Modifier::Ctrl) == m.control,
        modifiers_entered_read(m).contains(crate::keys::Modifier::Shift) == m.shift,
        modifiers_entered_read(m).contains(crate::keys::Modifier::Super) == m.logo,
{
    lemma_modifier_words_read();
    reveal_strlit("|");
    reveal_strlit("Alt");
    reveal_strlit("Ctrl");
    reveal_strlit("Shift");
    reveal_strlit("Super");
    assert("|"@ =~= seq!['|']);
    let names = modifier_labels(m);
    let s0 = Seq::<Seq<char>>::empty();
    let s1 = if m.alt { s0.push("Alt"@) } else { s0 };
    let s2 = if m.control { s1.push("Ctrl"@) } else { s1 };
    let s3 = if m.shift { s2.push("Shift"@) } else { s2 };
    assert(names == (if m.logo { s3.push("Super"@) } else { s3 }));
    assert forall|k: int| 0 <= k < names.len() implies !(#[trigger] names[k]).contains('|') by {
        if names[k].contains('|') {
            let c = choose|c: int| 0 <= c < names[k].len() && names[k][c] == '|';
        }
    }
    crate::text::lemma_join_split(names, '|');
    let r0 = Seq::<crate::keys::Modifier>::empty();
    let r1 = if m.alt { r0.push(crate::keys::Modifier::Alt) } else { r0 };
    let r2 = if m.control { r1.push(crate::keys::Modifier::Ctrl) } else { r1 };
    let r3 = if m.shift { r2.push(crate::keys::Modifier::Shift) } else { r2 };
    assert(crate::keys::modifiers_of_words(s0) == r0);
    if m.alt {
        assert(s1.drop_last() =~= s0);
    }
    assert(crate::keys::modifiers_of_words(s1) == r1);
    if m.control {
        assert(s2.drop_last() =~= s1);
    }
    assert(crate::keys::modifiers_of_words(s2) == r2);
    if m.shift {
        assert(s3.drop_last() =~= s2);
    }
    assert(crate::keys::modifiers_of_words(s3) == r3);
    if m.logo {
        assert(s3.push("Super"@).drop_last() =~= s3);
        assert(crate::keys::modifiers_of_words(s3.push("Super"@)) == r3.push(crate::keys::Modifier::Super));
    }
    assert(crate::keys::modifiers_of_words(names) == modifiers_entered_read(m));
    assert(split_on(joined(names, "|"@), '|') == names);
    let r = modifiers_entered_read(m);
    if m.alt {
        assert(r[0] == crate::keys::Modifier::Alt);
    } else {
        assert(forall|i: int| 0 <= i < r.len() ==> r[i] != crate::keys::Modifier::Alt);
    }
    if m.control {
        assert(r[r1.len() as int] == crate::keys::Modifier::Ctrl);
    } else {
        assert(forall|i: int| 0 <= i < r.len() ==> r[i] != crate::keys::Modifier::Ctrl);
    }
    if m.shift {
        assert(r[r2.len() as int] == crate::keys::Modifier::Shift);
    } else {
        assert(forall|i: int| 0 <= i < r.len() ==> r[i] != crate::keys::Modifier::Shift);
    }
    if m.logo {
        assert(r[r3.len() as int] == crate::keys::Modifier::Super);
    } else {
        assert(forall|i: int| 0 <= i < r.len() ==> r[i] != crate::keys::Modifier::Super);
    }
}

/// A key combination entered in the shortcut dialog (the labels of the held
/// modifiers and the label of the pressed key) and saved into a binding
/// triggers that binding when the same combination is pressed again,
/// provided at least one modifier is held and the key is one whose label the
/// configuration parser reads back (a character key that is no control
/// character, or a readable named key).
pub proof fn lemma_entered_combination_triggers(
    key: KeyView,
    mods: Modifiers,
    action: crate::action::Action,
)
    requires
        modifier_labels(mods).len() > 0,
        readable_key(key),
        key matches KeyView::Character(s) ==> !is_control(s[0]),
    ensures
        dialog_key_label(key) is Some,
        crate::keybinds::configured_keybind(
            ConfigKeyBindingView {
                action,
                key: dialog_key_label(key)->0,
                mods: joined(modifier_labels(mods), "|"@),
            },
        ) matches Some(kb) && crate::keys::keybind_matches(kb, mods, key),
{
    lemma_entered_modifiers_read_back(mods);
    match key {
        KeyView::Character(s) => {
            assert(!(exists|i: int| 0 <= i < s.len() && is_control(#[trigger] s[i]))) by {
                if exists|i: int| 0 <= i < s.len() && is_control(#[trigger] s[i]) {
                    let i = choose|i: int| 0 <= i < s.len() && is_control(#[trigger] s[i]);
                    assert(i == 0);
                }
            }
            let k = crate::text::ascii_upper(s);
            assert(dialog_key_label(key) == Some(k));
            assert(k.len() == 1);
            assert(vstd::utf8::is_ascii_chars(k)) by {
                assert(k[0] == crate::text::ascii_upper_char(s[0]));
            }
            assert(crate::keys::parsed_key(k) == KeyView::Character(k));
            assert(eq_ignore_ascii_case(s, k)) by {
                assert(k[0] == crate::text::ascii_upper_char(s[0]));
            }
        },
        KeyView::Named(n) => {
            lemma_named_key_reads(n);
            assert(dialog_key_label(key) == Some(n));
            assert(crate::keys::parsed_key(n) == KeyView::Named(n));
        },
        KeyView::Unidentified => {},
    }
}

} // verus!
