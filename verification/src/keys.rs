use vstd::prelude::*;

use crate::text::{
    eq_ignore_ascii_case, lowercased, owned, split, split_on, text_eq,
    text_eq_ignore_ascii_case, text_lt, texts, texts_sorted, to_lowercase, trim, trimmed,
};

verus! {

/// A modifier key that a shortcut can require.
#[derive(Clone, Copy, Debug, PartialEq, Eq, Hash, Structural)]
pub enum Modifier {
    Super,
    Ctrl,
    Alt,
    Shift,
}

/// The modifier keys held down while a key is pressed.
#[derive(Clone, Copy, Debug, PartialEq, Eq, Structural)]
pub struct Modifiers {
    pub control: bool,
    pub alt: bool,
    pub shift: bool,
    pub logo: bool,
}

/// A key as the keyboard reports it: a named key (by the name of its
/// variant, such as `Enter` or `ArrowUp`), the text a character key
/// produces, or a key that could not be identified.
#[derive(Clone, Debug, PartialEq, Eq, Hash)]
pub enum Key {
    Named(String),
    Character(String),
    Unidentified,
}

/// A key, by its text.
pub enum KeyView {
    Named(Seq<char>),
    Character(Seq<char>),
    Unidentified,
}

impl View for Key {
    type V = KeyView;

    open spec fn view(&self) -> KeyView {
        match self {
            Key::Named(n) => KeyView::Named(n@),
            Key::Character(c) => KeyView::Character(c@),
            Key::Unidentified => KeyView::Unidentified,
        }
    }
}

/// A keyboard shortcut: a key together with the modifiers it requires.
#[derive(Clone, Debug, PartialEq, Eq, Hash)]
pub struct KeyBind {
    pub modifiers: Vec<Modifier>,
    pub key: Key,
}

/// A keyboard shortcut, by value.
pub struct KeyBindView {
    pub modifiers: Seq<Modifier>,
    pub key: KeyView,
}

impl View for KeyBind {
    type V = KeyBindView;

    open spec fn view(&self) -> KeyBindView {
        KeyBindView { modifiers: self.modifiers@, key: self.key@ }
    }
}

/// A named key.
pub fn named(name: &str) -> (r: Key)
    ensures
        r@ == KeyView::Named(name@),
{
    Key::Named(owned(name))
}

/// A copy of a key.
pub fn copy_key(k: &Key) -> (r: Key)
    ensures
        r@ == k@,
{
    match k {
        Key::Named(n) => Key::Named(n.clone()),
        Key::Character(c) => Key::Character(c.clone()),
        Key::Unidentified => Key::Unidentified,
    }
}

/// A copy of a list of modifiers.
pub fn copy_modifiers(v: &Vec<Modifier>) -> (r: Vec<Modifier>)
    ensures
        r@ == v@,
{
    let mut r: Vec<Modifier> = Vec::new();
    let mut i: usize = 0;
    while i < v.len()
        invariant
            i <= v@.len(),
            r@ == v@.subrange(0, i as int),
        decreases v@.len() - i,
    {
        r.push(v[i]);
        i = i + 1;
    }
    assert(v@.subrange(0, v@.len() as int) =~= v@);
    r
}

/// A copy of a shortcut.
pub fn copy_keybind(kb: &KeyBind) -> (r: KeyBind)
    ensures
        r@ == kb@,
{
    KeyBind { modifiers: copy_modifiers(&kb.modifiers), key: copy_key(&kb.key) }
}

/// Whether two keys are the same key.
pub fn key_eq(a: &Key, b: &Key) -> (r: bool)
    ensures
        r == (a@ == b@),
{
    match (a, b) {
        (Key::Named(x), Key::Named(y)) => text_eq(x.as_str(), y.as_str()),
        (Key::Character(x), Key::Character(y)) => text_eq(x.as_str(), y.as_str()),
        (Key::Unidentified, Key::Unidentified) => true,
        _ => false,
    }
}

/// Whether two lists of modifiers are the same, in the same order.
pub fn modifiers_eq(a: &Vec<Modifier>, b: &Vec<Modifier>) -> (r: bool)
    ensures
        r == (a@ == b@),
{
    if a.len() != b.len() {
        return false;
    }
    let mut i: usize = 0;
    while i < a.len()
        invariant
            a@.len() == b@.len(),
            i <= a@.len(),
            forall|k: int| 0 <= k < i ==> a@[k] == b@[k],
        decreases a@.len() - i,
    {
        if a[i] != b[i] {
            return false;
        }
        i = i + 1;
    }
    assert(a@ =~= b@);
    true
}

/// Whether two shortcuts are the same shortcut.
pub fn keybind_eq(a: &KeyBind, b: &KeyBind) -> (r: bool)
    ensures
        r == (a@ == b@),
{
    key_eq(&a.key, &b.key) && modifiers_eq(&a.modifiers, &b.modifiers)
}

/// The named key that a lowercase key name in the configuration stands for.
pub open spec fn named_key_for(lower: Seq<char>) -> Option<Seq<char>> {
    if lower == "enter"@ {
        Some("Enter"@)
    } else if lower == "tab"@ {
        Some("Tab"@)
    } else if lower == "backspace"@ {
        Some("Backspace"@)
    } else if lower == "escape"@ {
        Some("Escape"@)
    } else if lower == "delete"@ {
        Some("Delete"@)
    } else if lower == "home"@ {
        Some("Home"@)
    } else if lower == "end"@ {
        Some("End"@)
    } else if lower == "pageup"@ {
        Some("PageUp"@)
    } else if lower == "pagedown"@ {
        Some("PageDown"@)
    } else if lower == "arrowleft"@ {
        Some("ArrowLeft"@)
    } else if lower == "arrowright"@ {
        Some("ArrowRight"@)
    } else if lower == "arrowup"@ {
        Some("ArrowUp"@)
    } else if lower == "arrowdown"@ {
        Some("ArrowDown"@)
    } else if lower == "ctrl"@ {
        Some("Control"@)
    } else if lower == "f1"@ {
        Some("F1"@)
    } else if lower == "f2"@ {
        Some("F2"@)
    } else {
        None
    }
}

/// The key a configured key name stands for: a text of one character is
/// that character; otherwise the name is looked up without regard to case
/// among the supported named keys, and anything else is an unidentified key.
pub open spec fn parsed_key(s: Seq<char>) -> KeyView {
    if s.len() == 1 {
        KeyView::Character(s)
    } else {
        match named_key_for(lowercased(s)) {
            Some(n) => KeyView::Named(n),
            None => KeyView::Unidentified,
        }
    }
}

/// Parses the key of a configured shortcut.
pub fn parse_key_string(key_str: &str) -> (r: Key)
    ensures
        r@ == parsed_key(key_str@),
{
    if key_str.unicode_len() == 1 {
        return Key::Character(owned(key_str));
    }
    let lower = to_lowercase(key_str);
    named_key_from_lowercase(lower.as_str())
}

/// The key a lowercase key name stands for: one of the supported named keys,
/// or an unidentified key.
pub fn named_key_from_lowercase(l: &str) -> (r: Key)
    ensures
        r@ == (match named_key_for(l@) {
            Some(n) => KeyView::Named(n),
            None => KeyView::Unidentified,
        }),
{
    if text_eq(l, "enter") {
        named("Enter")
    } else if text_eq(l, "tab") {
        named("Tab")
    } else if text_eq(l, "backspace") {
        named("Backspace")
    } else if text_eq(l, "escape") {
        named("Escape")
    } else if text_eq(l, "delete") {
        named("Delete")
    } else if text_eq(l, "home") {
        named("Home")
    } else if text_eq(l, "end") {
        named("End")
    } else if text_eq(l, "pageup") {
        named("PageUp")
    } else if text_eq(l, "pagedown") {
        named("PageDown")
    } else if text_eq(l, "arrowleft") {
        named("ArrowLeft")
    } else if text_eq(l, "arrowright") {
        named("ArrowRight")
    } else if text_eq(l, "arrowup") {
        named("ArrowUp")
    } else if text_eq(l, "arrowdown") {
        named("ArrowDown")
    } else if text_eq(l, "ctrl") {
        named("Control")
    } else if text_eq(l, "f1") {
        named("F1")
    } else if text_eq(l, "f2") {
        named("F2")
    } else {
        Key::Unidentified
    }
}

/// The modifier that one `|`-separated word of a configured modifier list
/// names, compared without surrounding whitespace and without regard to case.
pub open spec fn modifier_named(word: Seq<char>) -> Option<Modifier> {
    let l = lowercased(trimmed(word));
    if l == "ctrl"@ || l == "control"@ {
        Some(Modifier::Ctrl)
    } else if l == "shift"@ {
        Some(Modifier::Shift)
    } else if l == "alt"@ {
        Some(Modifier::Alt)
    } else if l == "super"@ || l == "logo"@ {
        Some(Modifier::Super)
    } else {
        None
    }
}

/// The modifiers named by a list of words, in order; words that name no
/// modifier are left out.
pub open spec fn modifiers_of_words(words: Seq<Seq<char>>) -> Seq<Modifier>
    decreases words.len(),
{
    if words.len() == 0 {
        Seq::<Modifier>::empty()
    } else {
        let m = modifiers_of_words(words.drop_last());
        match modifier_named(words.last()) {
            Some(x) => m.push(x),
            None => m,
        }
    }
}

/// The modifiers of a configured modifier list such as `"Ctrl|Shift"` or
/// `"Control|Shift"`.
pub open spec fn parsed_modifiers(s: Seq<char>) -> Seq<Modifier> {
    modifiers_of_words(split_on(s, '|'))
}

fn modifier_of_word(word: &str) -> (r: Option<Modifier>)
    ensures
        r == modifier_named(word@),
{
    let t = trim(word);
    let lower = to_lowercase(t.as_str());
    modifier_from_lowercase(lower.as_str())
}

/// The modifier a lowercase modifier name stands for.
pub fn modifier_from_lowercase(l: &str) -> (r: Option<Modifier>)
    ensures
        r == (if l@ == "ctrl"@ || l@ == "control"@ {
            Some(Modifier::Ctrl)
        } else if l@ == "shift"@ {
            Some(Modifier::Shift)
        } else if l@ == "alt"@ {
            Some(Modifier::Alt)
        } else if l@ == "super"@ || l@ == "logo"@ {
            Some(Modifier::Super)
        } else {
            None
        }),
{
    if text_eq(l, "ctrl") || text_eq(l, "control") {
        Some(Modifier::Ctrl)
    } else if text_eq(l, "shift") {
        Some(Modifier::Shift)
    } else if text_eq(l, "alt") {
        Some(Modifier::Alt)
    } else if text_eq(l, "super") || text_eq(l, "logo") {
        Some(Modifier::Super)
    } else {
        None
    }
}

/// Parses the modifiers of a configured shortcut: the `|`-separated words
/// that name a modifier, in order (repeats kept); other words are ignored.
pub fn parse_modifier_string(mods_str: &str) -> (r: Vec<Modifier>)
    ensures
        r@ == parsed_modifiers(mods_str@),
{
    let parts = split(mods_str, '|');
    let ghost words = split_on(mods_str@, '|');
    let mut r: Vec<Modifier> = Vec::new();
    let mut i: usize = 0;
    while i < parts.len()
        invariant
            parts@.len() == words.len(),
            words == split_on(mods_str@, '|'),
            forall|k: int| 0 <= k < parts@.len() ==> #[trigger] parts@[k]@ == words[k],
            i <= parts@.len(),
            r@ == modifiers_of_words(words.subrange(0, i as int)),
        decreases parts@.len() - i,
    {
        assert(words.subrange(0, i + 1).drop_last() =~= words.subrange(0, i as int));
        match modifier_of_word(parts[i].as_str()) {
            Some(m) => r.push(m),
            None => {},
        }
        i = i + 1;
    }
    assert(words.subrange(0, parts@.len() as int) =~= words);
    r
}

/// Whether a pressed key is the key a shortcut is bound to: character keys
/// compare without regard to ASCII case (Caps Lock and Shift change it),
/// other keys must be the same key.
pub open spec fn key_matches(pressed: KeyView, bound: KeyView) -> bool {
    match (pressed, bound) {
        (KeyView::Character(a), KeyView::Character(b)) => eq_ignore_ascii_case(a, b),
        _ => pressed == bound,
    }
}

/// Whether a key press triggers a shortcut: the key matches and each of the
/// four modifiers is held exactly when the shortcut lists it.
pub open spec fn keybind_matches(kb: KeyBindView, mods: Modifiers, pressed: KeyView) -> bool {
    &&& key_matches(pressed, kb.key)
    &&& mods.logo == kb.modifiers.contains(Modifier::Super)
    &&& mods.control == kb.modifiers.contains(Modifier::Ctrl)
    &&& mods.alt == kb.modifiers.contains(Modifier::Alt)
    &&& mods.shift == kb.modifiers.contains(Modifier::Shift)
}

/// Whether the list holds the modifier.
pub fn has_modifier(v: &Vec<Modifier>, m: Modifier) -> (r: bool)
    ensures
        r == v@.contains(m),
{
    let mut i: usize = 0;
    while i < v.len()
        invariant
            i <= v@.len(),
            forall|k: int| 0 <= k < i ==> v@[k] != m,
        decreases v@.len() - i,
    {
        if v[i] == m {
            return true;
        }
        i = i + 1;
    }
    false
}

impl KeyBind {
    /// Whether pressing `key` with `modifiers` held triggers this shortcut.
    pub fn matches(&self, modifiers: Modifiers, key: &Key) -> (r: bool)
        ensures
            r == keybind_matches(self@, modifiers, key@),
    {
        let key_eq = match (key, &self.key) {
            (Key::Character(a), Key::Character(b)) => text_eq_ignore_ascii_case(
                a.as_str(),
                b.as_str(),
            ),
            _ => key_eq(key, &self.key),
        };
        key_eq && modifiers.logo == has_modifier(&self.modifiers, Modifier::Super)
            && modifiers.control == has_modifier(&self.modifiers, Modifier::Ctrl)
            && modifiers.alt == has_modifier(&self.modifiers, Modifier::Alt)
            && modifiers.shift == has_modifier(&self.modifiers, Modifier::Shift)
    }
}

/// Whether the key is itself a modifier key (Alt, Control, Shift or Super).
pub open spec fn is_modifier_key(k: KeyView) -> bool {
    match k {
        KeyView::Named(n) => n == "Alt"@ || n == "Control"@ || n == "Shift"@ || n == "Super"@,
        _ => false,
    }
}

/// Whether the key is itself a modifier key (Alt, Control, Shift or Super).
pub fn is_just_modifier_key(key: &Key) -> (r: bool)
    ensures
        r == is_modifier_key(key@),
{
    match key {
        Key::Named(n) => {
            let s = n.as_str();
            text_eq(s, "Alt") || text_eq(s, "Control") || text_eq(s, "Shift") || text_eq(s, "Super")
        },
        _ => false,
    }
}

/// The text shown for a named key: the key's name.
pub fn named_key_to_string(named: &String) -> (r: Option<String>)
    ensures
        r matches Some(s) && s@ == named@,
{
    Some(named.clone())
}

/// The labels of the held modifiers, in alphabetical order.
pub open spec fn modifier_labels(m: Modifiers) -> Seq<Seq<char>> {
    let s0 = Seq::<Seq<char>>::empty();
    let s1 = if m.alt { s0.push("Alt"@) } else { s0 };
    let s2 = if m.control { s1.push("Ctrl"@) } else { s1 };
    let s3 = if m.shift { s2.push("Shift"@) } else { s2 };
    if m.logo { s3.push("Super"@) } else { s3 }
}

/// The labels of the held modifiers (`Alt`, `Ctrl`, `Shift`, `Super`),
/// sorted.
pub fn modifiers_to_strings(mods: Modifiers) -> (r: Vec<String>)
    ensures
        texts(r@) == modifier_labels(mods),
        texts_sorted(texts(r@)),
{
    let mut strings: Vec<String> = Vec::new();
    if mods.alt {
        strings.push(owned("Alt"));
    }
    if mods.control {
        strings.push(owned("Ctrl"));
    }
    if mods.shift {
        strings.push(owned("Shift"));
    }
    if mods.logo {
        strings.push(owned("Super"));
    }
    assert(texts(strings@) =~= modifier_labels(mods));
    proof {
        lemma_modifier_labels_sorted(mods);
    }
    strings
}

/// The modifier labels come out in sorted order.
pub proof fn lemma_modifier_labels_sorted(m: Modifiers)
    ensures
        texts_sorted(modifier_labels(m)),
{
    reveal_strlit("Alt");
    reveal_strlit("Ctrl");
    reveal_strlit("Shift");
    reveal_strlit("Super");
    let a = "Alt"@;
    let c = "Ctrl"@;
    let sh = "Shift"@;
    let su = "Super"@;
    assert(text_lt(a, c));
    assert(text_lt(c, sh));
    reveal_strlit("hift");
    reveal_strlit("uper");
    assert(sh.drop_first() =~= "hift"@);
    assert(su.drop_first() =~= "uper"@);
    assert(text_lt("hift"@, "uper"@));
    assert(!text_lt("uper"@, "hift"@));
    assert(text_lt(sh, su));
    assert(text_lt(a, sh));
    assert(text_lt(a, su));
    assert(text_lt(c, su));
    assert(!text_lt(c, a));
    assert(!text_lt(sh, a));
    assert(!text_lt(su, a));
    assert(!text_lt(sh, c));
    assert(!text_lt(su, c));
    assert(!text_lt(su, sh));
}

/// A key press triggers a shortcut only when each of the four modifiers
/// (Super, Ctrl, Alt, Shift) is held exactly when the shortcut lists it, and
/// the key is the shortcut's key: the same character up to ASCII case, or
/// the same named key. With the key matching, the modifiers decide.
pub proof fn lemma_match_needs_exact_modifiers(kb: KeyBindView, mods: Modifiers, pressed: KeyView)
    ensures
        keybind_matches(kb, mods, pressed) ==> {
            &&& mods.logo == kb.modifiers.contains(Modifier::Super)
            &&& mods.control == kb.modifiers.contains(Modifier::Ctrl)
            &&& mods.alt == kb.modifiers.contains(Modifier::Alt)
            &&& mods.shift == kb.modifiers.contains(Modifier::Shift)
            &&& pressed matches KeyView::Character(a) ==> (kb.key matches KeyView::Character(b)
                && eq_ignore_ascii_case(a, b))
            &&& !(pressed is Character) ==> pressed == kb.key
        },
        pressed == kb.key ==> (keybind_matches(kb, mods, pressed) <==> (
        mods.logo == kb.modifiers.contains(Modifier::Super) && mods.control
            == kb.modifiers.contains(Modifier::Ctrl) && mods.alt == kb.modifiers.contains(
            Modifier::Alt,
        ) && mods.shift == kb.modifiers.contains(Modifier::Shift))),
{
    if pressed == kb.key {
        if let KeyView::Character(a) = pressed {
            assert(eq_ignore_ascii_case(a, a));
        }
    }
}

/// The modifier keys are exactly the named keys Alt, Control, Shift and
/// Super: each of the four is one, and no character key, unidentified key
/// or other named key is.
pub proof fn lemma_modifier_keys(k: KeyView)
    ensures
        is_modifier_key(KeyView::Named("Alt"@)),
        is_modifier_key(KeyView::Named("Control"@)),
        is_modifier_key(KeyView::Named("Shift"@)),
        is_modifier_key(KeyView::Named("Super"@)),
        is_modifier_key(k) ==> (k matches KeyView::Named(n) && (n == "Alt"@ || n == "Control"@
            || n == "Shift"@ || n == "Super"@)),
{
}

} // verus!
