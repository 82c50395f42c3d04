use vstd::prelude::*;

use crate::action::Action;
use crate::keys::{
    copy_keybind, keybind_matches, keybind_eq, parse_key_string, parse_modifier_string,
    parsed_key, parsed_modifiers, Key, KeyBind, KeyBindView, KeyView, Modifiers,
};

verus! {

/// A shortcut as the configuration stores it: the action, the key's name and
/// the `|`-separated names of the modifiers.
#[derive(Clone, Debug, PartialEq, Eq)]
pub struct ConfigKeyBinding {
    pub action: Action,
    pub key: String,
    pub mods: String,
}

pub struct ConfigKeyBindingView {
    pub action: Action,
    pub key: Seq<char>,
    pub mods: Seq<char>,
}

impl View for ConfigKeyBinding {
    type V = ConfigKeyBindingView;

    open spec fn view(&self) -> ConfigKeyBindingView {
        ConfigKeyBindingView { action: self.action, key: self.key@, mods: self.mods@ }
    }
}

/// The views of a list of configured shortcuts.
pub open spec fn bindings_view(v: Seq<ConfigKeyBinding>) -> Seq<ConfigKeyBindingView> {
    v.map_values(|b: ConfigKeyBinding| b@)
}

/// The shortcut a configured binding stands for, or `None` when its key is
/// not empty yet names no key this application knows (such a binding is
/// skipped).
pub open spec fn configured_keybind(b: ConfigKeyBindingView) -> Option<KeyBindView> {
    let key = parsed_key(b.key);
    if key == KeyView::Unidentified && b.key.len() > 0 {
        None
    } else {
        Some(KeyBindView { key, modifiers: parsed_modifiers(b.mods) })
    }
}

/// The shortcut table after the configured bindings are applied, in order,
/// on top of `base`: each usable binding sets the action of its shortcut.
pub open spec fn keybinds_after(
    base: Map<KeyBindView, Action>,
    bindings: Seq<ConfigKeyBindingView>,
) -> Map<KeyBindView, Action>
    decreases bindings.len(),
{
    if bindings.len() == 0 {
        base
    } else {
        let m = keybinds_after(base, bindings.drop_last());
        match configured_keybind(bindings.last()) {
            Some(kb) => m.insert(kb, bindings.last().action),
            None => m,
        }
    }
}

/// The table of keyboard shortcuts: each shortcut is bound to one action.
pub struct KeyBindMap {
    entries: Vec<(KeyBind, Action)>,
}

/// No shortcut occurs twice among the entries.
pub closed spec fn entries_distinct(e: Seq<(KeyBind, Action)>) -> bool {
    forall|i: int, j: int| 0 <= i < j < e.len() ==> #[trigger] e[i].0@ != #[trigger] e[j].0@
}

/// The shortcut table the entries describe.
pub closed spec fn entries_map(e: Seq<(KeyBind, Action)>) -> Map<KeyBindView, Action> {
    Map::new(
        |kb: KeyBindView| exists|i: int| 0 <= i < e.len() && #[trigger] e[i].0@ == kb,
        |kb: KeyBindView| e[choose|i: int| 0 <= i < e.len() && #[trigger] e[i].0@ == kb].1,
    )
}

proof fn lemma_entries_lookup(e: Seq<(KeyBind, Action)>, i: int)
    requires
        entries_distinct(e),
        0 <= i < e.len(),
    ensures
        entries_map(e).contains_key(e[i].0@),
        entries_map(e)[e[i].0@] == e[i].1,
{
    let kb = e[i].0@;
    assert(entries_map(e).dom().contains(kb));
    let k = choose|k: int| 0 <= k < e.len() && #[trigger] e[k].0@ == kb;
    assert(k == i);
}

impl View for KeyBindMap {
    type V = Map<KeyBindView, Action>;

    closed spec fn view(&self) -> Map<KeyBindView, Action> {
        entries_map(self.entries@)
    }
}

impl KeyBindMap {
    #[verifier::type_invariant]
    closed spec fn distinct(&self) -> bool {
        entries_distinct(self.entries@)
    }

    /// An empty table.
    pub fn new() -> (r: Self)
        ensures
            r@ == Map::<KeyBindView, Action>::empty(),
    {
        let r = KeyBindMap { entries: Vec::new() };
        assert(r@ =~= Map::<KeyBindView, Action>::empty());
        r
    }

    /// Number of shortcuts.
    pub fn len(&self) -> (r: usize)
        ensures
            r == self@.len(),
    {
        proof {
            use_type_invariant(self);
            self.lemma_len();
        }
        self.entries.len()
    }

    proof fn lemma_len(&self)
        requires
            entries_distinct(self.entries@),
        ensures
            self@.len() == self.entries@.len(),
            self@.dom().finite(),
        decreases self.entries@.len(),
    {
        let keys = self.entries@.map_values(|e: (KeyBind, Action)| e.0@);
        assert forall|i: int, j: int| 0 <= i < j < keys.len() implies keys[i] != keys[j] by {
            assert(keys[i] == self.entries@[i].0@);
            assert(keys[j] == self.entries@[j].0@);
        }
        assert(keys.no_duplicates());
        keys.unique_seq_to_set();
        assert(self@.dom() =~= keys.to_set()) by {
            assert forall|kb: KeyBindView| self@.dom().contains(kb) implies keys.to_set().contains(kb) by {
                let k = choose|k: int| 0 <= k < self.entries@.len() && #[trigger] self.entries@[k].0@ == kb;
                assert(keys[k] == kb);
            }
            assert forall|kb: KeyBindView| keys.to_set().contains(kb) implies self@.dom().contains(kb) by {
                let k = choose|k: int| 0 <= k < keys.len() && keys[k] == kb;
                assert(self.entries@[k].0@ == kb);
            }
        }
    }

    /// The action bound to a shortcut.
    pub fn get(&self, kb: &KeyBind) -> (r: Option<Action>)
        ensures
            r == (if self@.contains_key(kb@) {
                Some(self@[kb@])
            } else {
                None
            }),
    {
        proof {
            use_type_invariant(self);
        }
        let mut i: usize = 0;
        while i < self.entries.len()
            invariant
                entries_distinct(self.entries@),
                i <= self.entries@.len(),
                forall|k: int| 0 <= k < i ==> self.entries@[k].0@ != kb@,
            decreases self.entries@.len() - i,
        {
            if keybind_eq(&self.entries[i].0, kb) {
                proof {
                    lemma_entries_lookup(self.entries@, i as int);
                }
                return Some(self.entries[i].1);
            }
            i = i + 1;
        }
        None
    }

    /// Binds a shortcut to an action, replacing the action it was bound to,
    /// which is returned.
    pub fn insert(&mut self, kb: KeyBind, action: Action) -> (r: Option<Action>)
        ensures
            final(self)@ == old(self)@.insert(kb@, action),
            r == (if old(self)@.contains_key(kb@) {
                Some(old(self)@[kb@])
            } else {
                None
            }),
    {
        proof {
            use_type_invariant(&*self);
        }
        let ghost old_map = self@;
        let mut i: usize = 0;
        while i < self.entries.len()
            invariant
                entries_distinct(self.entries@),
                self@ == old_map,
                old(self)@ == old_map,
                i <= self.entries@.len(),
                forall|k: int| 0 <= k < i ==> self.entries@[k].0@ != kb@,
            decreases self.entries@.len() - i,
        {
            if keybind_eq(&self.entries[i].0, &kb) {
                proof {
                    lemma_entries_lookup(self.entries@, i as int);
                }
                let previous = self.entries[i].1;
                let ghost old_entries = self.entries@;
                let mut entries = Vec::new();
                std::mem::swap(&mut entries, &mut self.entries);
                entries.set(i, (kb, action));
                self.entries = entries;
                proof {
                    assert forall|a: int, b: int|
                        0 <= a < b < self.entries@.len() implies #[trigger] self.entries@[a].0@
                        != #[trigger] self.entries@[b].0@ by {
                        assert(old_entries[a].0@ != old_entries[b].0@);
                    }
                    assert(self@ =~= old_map.insert(kb@, action)) by {
                        assert forall|x: KeyBindView| #[trigger] self@.contains_key(x) == old_map.insert(kb@, action).contains_key(x) by {
                            if old_map.contains_key(x) {
                                let k = choose|k: int| 0 <= k < old_entries.len() && #[trigger] old_entries[k].0@ == x;
                                assert(self.entries@[k].0@ == x || k == i);
                            }
                            if x == kb@ {
                                assert(self.entries@[i as int].0@ == x);
                            }
                            if self@.contains_key(x) {
                                let k = choose|k: int| 0 <= k < self.entries@.len() && #[trigger] self.entries@[k].0@ == x;
                                if k != i {
                                    assert(old_entries[k].0@ == x);
                                }
                            }
                        }
                        assert forall|x: KeyBindView| #[trigger] self@.contains_key(x) implies self@[x] == old_map.insert(kb@, action)[x] by {
                            let k = choose|k: int| 0 <= k < self.entries@.len() && #[trigger] self.entries@[k].0@ == x;
                            lemma_entries_lookup(self.entries@, k);
                            if k != i {
                                assert(old_entries[k].0@ == x);
                                lemma_entries_lookup(old_entries, k);
                            }
                        }
                    }
                }
                return Some(previous);
            }
            i = i + 1;
        }
        let ghost old_entries = self.entries@;
        let mut entries = Vec::new();
        std::mem::swap(&mut entries, &mut self.entries);
        entries.push((kb, action));
        self.entries = entries;
        proof {
            let n = old_entries.len();
            assert forall|a: int, b: int|
                0 <= a < b < self.entries@.len() implies #[trigger] self.entries@[a].0@
                != #[trigger] self.entries@[b].0@ by {
                if b < n {
                    assert(old_entries[a].0@ != old_entries[b].0@);
                }
            }
            assert(self@ =~= old_map.insert(kb@, action)) by {
                assert forall|x: KeyBindView| #[trigger] self@.contains_key(x) == old_map.insert(kb@, action).contains_key(x) by {
                    if old_map.contains_key(x) {
                        let k = choose|k: int| 0 <= k < old_entries.len() && #[trigger] old_entries[k].0@ == x;
                        assert(self.entries@[k].0@ == x);
                    }
                    if x == kb@ {
                        assert(self.entries@[n as int].0@ == x);
                    }
                    if self@.contains_key(x) {
                        let k = choose|k: int| 0 <= k < self.entries@.len() && #[trigger] self.entries@[k].0@ == x;
                        if k < n {
                            assert(old_entries[k].0@ == x);
                        }
                    }
                }
                assert forall|x: KeyBindView| #[trigger] self@.contains_key(x) implies self@[x] == old_map.insert(kb@, action)[x] by {
                    let k = choose|k: int| 0 <= k < self.entries@.len() && #[trigger] self.entries@[k].0@ == x;
                    lemma_entries_lookup(self.entries@, k);
                    if k < n {
                        assert(old_entries[k].0@ == x);
                        lemma_entries_lookup(old_entries, k);
                    }
                }
            }
        }
        None
    }
}


impl KeyBindMap {
    /// A copy of the table.
    pub fn copy(&self) -> (r: Self)
        ensures
            r@ == self@,
    {
        proof {
            use_type_invariant(self);
        }
        let mut entries: Vec<(KeyBind, Action)> = Vec::new();
        let mut i: usize = 0;
        while i < self.entries.len()
            invariant
                entries_distinct(self.entries@),
                i <= self.entries@.len(),
                entries@.len() == i,
                forall|k: int| 0 <= k < i ==> (#[trigger] entries@[k]).0@ == self.entries@[k].0@
                    && entries@[k].1 == self.entries@[k].1,
            decreases self.entries@.len() - i,
        {
            let kb = copy_keybind(&self.entries[i].0);
            entries.push((kb, self.entries[i].1));
            i = i + 1;
        }
        let r = KeyBindMap { entries };
        proof {
            assert forall|a: int, b: int| 0 <= a < b < r.entries@.len() implies #[trigger] r.entries@[a].0@
                != #[trigger] r.entries@[b].0@ by {
                assert(self.entries@[a].0@ != self.entries@[b].0@);
            }
            assert forall|x: KeyBindView| #[trigger] r@.contains_key(x) == self@.contains_key(x) by {
                if r@.contains_key(x) {
                    let k = choose|k: int| 0 <= k < r.entries@.len() && #[trigger] r.entries@[k].0@ == x;
                    assert(self.entries@[k].0@ == x);
                }
                if self@.contains_key(x) {
                    let k = choose|k: int| 0 <= k < self.entries@.len() && #[trigger] self.entries@[k].0@ == x;
                    assert(r.entries@[k].0@ == x);
                }
            }
            assert forall|x: KeyBindView| #[trigger] r@.contains_key(x) implies r@[x] == self@[x] by {
                let k = choose|k: int| 0 <= k < r.entries@.len() && #[trigger] r.entries@[k].0@ == x;
                lemma_entries_lookup(r.entries@, k);
                lemma_entries_lookup(self.entries@, k);
            }
            assert(r@ =~= self@);
        }
        r
    }

    /// The shortcuts with their actions, each shortcut once.
    pub fn entries(&self) -> (r: &Vec<(KeyBind, Action)>)
        ensures
            r@.len() == self@.len(),
            forall|i: int|
                0 <= i < r@.len() ==> self@.contains_key(#[trigger] r@[i].0@) && self@[r@[i].0@]
                    == r@[i].1,
            forall|kb: KeyBindView|
                #[trigger] self@.contains_key(kb) ==> exists|i: int| 0 <= i < r@.len() && r@[i].0@ == kb,
    {
        proof {
            use_type_invariant(self);
            self.lemma_len();
            assert forall|i: int| 0 <= i < self.entries@.len() implies self@.contains_key(
                #[trigger] self.entries@[i].0@,
            ) && self@[self.entries@[i].0@] == self.entries@[i].1 by {
                lemma_entries_lookup(self.entries@, i);
            }
        }
        &self.entries
    }

    /// The action of a shortcut that the key press triggers, if any. When
    /// several shortcuts match, any of them may be the one taken.
    pub fn find_match(&self, modifiers: Modifiers, key: &Key) -> (r: Option<Action>)
        ensures
            r matches Some(a) ==> exists|kb: KeyBindView|
                #[trigger] self@.contains_key(kb) && self@[kb] == a && keybind_matches(kb, modifiers, key@),
            r is None ==> forall|kb: KeyBindView|
                #[trigger] self@.contains_key(kb) ==> !keybind_matches(kb, modifiers, key@),
    {
        proof {
            use_type_invariant(self);
        }
        let mut i: usize = 0;
        while i < self.entries.len()
            invariant
                entries_distinct(self.entries@),
                i <= self.entries@.len(),
                forall|k: int| 0 <= k < i ==> !keybind_matches(#[trigger] self.entries@[k].0@, modifiers, key@),
            decreases self.entries@.len() - i,
        {
            if self.entries[i].0.matches(modifiers, key) {
                proof {
                    lemma_entries_lookup(self.entries@, i as int);
                    let kb = self.entries@[i as int].0@;
                    assert(self@.contains_key(kb) && self@[kb] == self.entries@[i as int].1
                        && keybind_matches(kb, modifiers, key@));
                }
                return Some(self.entries[i].1);
            }
            i = i + 1;
        }
        proof {
            assert forall|kb: KeyBindView| #[trigger] self@.contains_key(kb) implies !keybind_matches(kb, modifiers, key@) by {
                let k = choose|k: int| 0 <= k < self.entries@.len() && #[trigger] self.entries@[k].0@ == kb;
            }
        }
        None
    }
}

/// The shortcut table in use: the default shortcuts with the configured
/// bindings applied in order, each usable binding overriding what its
/// shortcut was bound to.
pub fn update_keybinds(defaults: &KeyBindMap, bindings: &Vec<ConfigKeyBinding>) -> (r: KeyBindMap)
    ensures
        r@ == keybinds_after(defaults@, bindings_view(bindings@)),
{
    let mut key_binds = defaults.copy();
    let mut i: usize = 0;
    while i < bindings.len()
        invariant
            i <= bindings@.len(),
            key_binds@ == keybinds_after(defaults@, bindings_view(bindings@.subrange(0, i as int))),
        decreases bindings@.len() - i,
    {
        let b = &bindings[i];
        proof {
            assert(bindings_view(bindings@.subrange(0, i + 1)).drop_last() =~= bindings_view(
                bindings@.subrange(0, i as int),
            ));
            assert(bindings_view(bindings@.subrange(0, i + 1)).last() == b@);
        }
        let key = parse_key_string(b.key.as_str());
        let modifiers = parse_modifier_string(b.mods.as_str());
        let unknown = match key {
            Key::Unidentified => true,
            _ => false,
        };
        if !(unknown && b.key.as_str().unicode_len() > 0) {
            key_binds.insert(KeyBind { key, modifiers }, b.action);
        }
        i = i + 1;
    }
    assert(bindings@.subrange(0, bindings@.len() as int) =~= bindings@);
    key_binds
}

/// A usable configured binding determines the action of its shortcut,
/// unless a later binding sets the same shortcut again.
pub proof fn lemma_last_binding_wins(
    base: Map<KeyBindView, Action>,
    bindings: Seq<ConfigKeyBindingView>,
    i: int,
    kb: KeyBindView,
)
    requires
        0 <= i < bindings.len(),
        configured_keybind(bindings[i]) == Some(kb),
        forall|j: int| i < j < bindings.len() ==> configured_keybind(#[trigger] bindings[j]) != Some(kb),
    ensures
        keybinds_after(base, bindings).contains_key(kb),
        keybinds_after(base, bindings)[kb] == bindings[i].action,
    decreases bindings.len(),
{
    if i < bindings.len() - 1 {
        lemma_last_binding_wins(base, bindings.drop_last(), i, kb);
        assert(configured_keybind(bindings[bindings.len() - 1]) != Some(kb));
    }
}

/// A default shortcut that no usable binding sets keeps its default action.
pub proof fn lemma_default_kept(
    base: Map<KeyBindView, Action>,
    bindings: Seq<ConfigKeyBindingView>,
    kb: KeyBindView,
)
    requires
        base.contains_key(kb),
        forall|j: int| 0 <= j < bindings.len() ==> configured_keybind(#[trigger] bindings[j]) != Some(kb),
    ensures
        keybinds_after(base, bindings).contains_key(kb),
        keybinds_after(base, bindings)[kb] == base[kb],
    decreases bindings.len(),
{
    if bindings.len() > 0 {
        lemma_default_kept(base, bindings.drop_last(), kb);
        assert(configured_keybind(bindings[bindings.len() - 1]) != Some(kb));
    }
}

/// Every shortcut in the table is a default one or comes from a usable
/// configured binding.
pub proof fn lemma_keybinds_origin(
    base: Map<KeyBindView, Action>,
    bindings: Seq<ConfigKeyBindingView>,
    kb: KeyBindView,
)
    requires
        keybinds_after(base, bindings).contains_key(kb),
    ensures
        base.contains_key(kb) || exists|j: int|
            0 <= j < bindings.len() && configured_keybind(#[trigger] bindings[j]) == Some(kb),
    decreases bindings.len(),
{
    if bindings.len() > 0 {
        let last = bindings.len() - 1;
        if configured_keybind(bindings[last]) == Some(kb) {
        } else {
            lemma_keybinds_origin(base, bindings.drop_last(), kb);
            if !base.contains_key(kb) {
                let j = choose|j: int|
                    0 <= j < bindings.drop_last().len() && configured_keybind(
                        #[trigger] bindings.drop_last()[j],
                    ) == Some(kb);
                assert(bindings[j] == bindings.drop_last()[j]);
            }
        }
    }
}
/// A configured binding whose key names no key (a non-empty key name that
/// parses as an unidentified key) leaves the shortcut table as it was.
pub proof fn lemma_unknown_key_ignored(
    base: Map<KeyBindView, Action>,
    bindings: Seq<ConfigKeyBindingView>,
    b: ConfigKeyBindingView,
)
    requires
        crate::keys::parsed_key(b.key) == KeyView::Unidentified,
        b.key.len() > 0,
    ensures
        keybinds_after(base, bindings.push(b)) == keybinds_after(base, bindings),
{
    assert(bindings.push(b).drop_last() =~= bindings);
}

} // verus!
