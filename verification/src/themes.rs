use vstd::prelude::*;

use crate::action::ColorSchemeKind;
use crate::text::text_eq;

verus! {

/// A terminal color scheme's key: its name and kind.
pub open spec fn theme_key(t: (String, ColorSchemeKind)) -> (Seq<char>, ColorSchemeKind) {
    (t.0@, t.1)
}

/// The keys of a list of color schemes.
pub open spec fn theme_keys(v: Seq<(String, ColorSchemeKind)>) -> Set<(Seq<char>, ColorSchemeKind)> {
    Set::new(|k: (Seq<char>, ColorSchemeKind)| exists|i: int| 0 <= i < v.len() && #[trigger] theme_key(v[i]) == k)
}

/// The custom schemes whose key is already taken, by a built-in scheme or an
/// earlier custom one: they replace it.
pub open spec fn replacing(
    builtin: Seq<(String, ColorSchemeKind)>,
    custom: Seq<(String, ColorSchemeKind)>,
) -> Seq<(Seq<char>, ColorSchemeKind)>
    decreases custom.len(),
{
    if custom.len() == 0 {
        Seq::empty()
    } else {
        let earlier = custom.drop_last();
        let r = replacing(builtin, earlier);
        let k = theme_key(custom.last());
        if theme_keys(builtin + earlier).contains(k) {
            r.push(k)
        } else {
            r
        }
    }
}

/// The names of the color schemes of each kind, and the custom schemes that
/// replace another scheme of the same name and kind.
pub struct ThemeNames {
    pub dark: Vec<String>,
    pub light: Vec<String>,
    pub replaced: Vec<(String, ColorSchemeKind)>,
}

/// No text occurs twice.
pub open spec fn distinct_texts(v: Seq<String>) -> bool {
    forall|i: int, j: int| 0 <= i < j < v.len() ==> (#[trigger] v[i])@ != (#[trigger] v[j])@
}

/// The names of one kind among the keys.
pub open spec fn names_of_kind(keys: Set<(Seq<char>, ColorSchemeKind)>, kind: ColorSchemeKind) -> Set<Seq<char>> {
    Set::new(|n: Seq<char>| keys.contains((n, kind)))
}

pub open spec fn text_set(v: Seq<String>) -> Set<Seq<char>> {
    Set::new(|n: Seq<char>| exists|i: int| 0 <= i < v.len() && (#[trigger] v[i])@ == n)
}

fn has_text(v: &Vec<String>, x: &String) -> (r: bool)
    ensures
        r == text_set(v@).contains(x@),
{
    let mut i: usize = 0;
    while i < v.len()
        invariant
            i <= v@.len(),
            forall|k: int| 0 <= k < i ==> (#[trigger] v@[k])@ != x@,
        decreases v@.len() - i,
    {
        if text_eq(v[i].as_str(), x.as_str()) {
            assert(v@[i as int]@ == x@);
            return true;
        }
        i = i + 1;
    }
    false
}

fn has_key(v: &Vec<(String, ColorSchemeKind)>, end: usize, k: &(String, ColorSchemeKind)) -> (r: bool)
    requires
        end <= v@.len(),
    ensures
        r == theme_keys(v@.take(end as int)).contains(theme_key(*k)),
{
    let mut i: usize = 0;
    while i < end
        invariant
            end <= v@.len(),
            i <= end,
            forall|j: int| 0 <= j < i ==> #[trigger] theme_key(v@[j]) != theme_key(*k),
        decreases end - i,
    {
        if v[i].1 == k.1 && text_eq(v[i].0.as_str(), k.0.as_str()) {
            assert(theme_key(v@.take(end as int)[i as int]) == theme_key(*k));
            return true;
        }
        i = i + 1;
    }
    proof {
        if theme_keys(v@.take(end as int)).contains(theme_key(*k)) {
            let j = choose|j: int| 0 <= j < end && #[trigger] theme_key(v@.take(end as int)[j]) == theme_key(*k);
            assert(v@.take(end as int)[j] == v@[j]);
        }
    }
    false
}

/// The color scheme names of each kind, each name once, from the built-in
/// schemes and the custom ones (a custom scheme with the name and kind of
/// another replaces it); and the custom schemes that replace another.
pub fn merge_theme_names(
    builtin: &Vec<(String, ColorSchemeKind)>,
    custom: &Vec<(String, ColorSchemeKind)>,
) -> (r: ThemeNames)
    ensures
        distinct_texts(r.dark@),
        distinct_texts(r.light@),
        text_set(r.dark@) == names_of_kind(theme_keys(builtin@ + custom@), ColorSchemeKind::Dark),
        text_set(r.light@) == names_of_kind(theme_keys(builtin@ + custom@), ColorSchemeKind::Light),
        r.replaced@.map_values(|t: (String, ColorSchemeKind)| theme_key(t)) == replacing(builtin@, custom@),
{
    let mut all: Vec<(String, ColorSchemeKind)> = Vec::new();
    let mut replaced: Vec<(String, ColorSchemeKind)> = Vec::new();
    let mut i: usize = 0;
    while i < builtin.len()
        invariant
            i <= builtin@.len(),
            all@.len() == i,
            forall|k: int| 0 <= k < i ==> #[trigger] theme_key(all@[k]) == theme_key(builtin@[k]),
        decreases builtin@.len() - i,
    {
        all.push((builtin[i].0.clone(), builtin[i].1));
        i = i + 1;
    }
    let nb = all.len();
    let mut j: usize = 0;
    assert(replaced@.map_values(|t: (String, ColorSchemeKind)| theme_key(t)) =~= replacing(builtin@, custom@.take(0)));
    while j < custom.len()
        invariant
            nb == builtin@.len(),
            j <= custom@.len(),
            all@.len() == nb + j,
            forall|k: int| 0 <= k < nb ==> #[trigger] theme_key(all@[k]) == theme_key(builtin@[k]),
            forall|k: int| 0 <= k < j ==> #[trigger] theme_key(all@[nb + k]) == theme_key(custom@[k]),
            replaced@.map_values(|t: (String, ColorSchemeKind)| theme_key(t)) == replacing(builtin@, custom@.take(j as int)),
        decreases custom@.len() - j,
    {
        let c = (custom[j].0.clone(), custom[j].1);
        let end = all.len();
        let taken = has_key(&all, end, &c);
        proof {
            let ks = all@.take((nb + j) as int);
            let ref_ = builtin@ + custom@.take(j as int);
            assert(theme_keys(ks) =~= theme_keys(ref_)) by {
                assert forall|x| theme_keys(ks).contains(x) == theme_keys(ref_).contains(x) by {
                    if theme_keys(ks).contains(x) {
                        let q = choose|q: int| 0 <= q < ks.len() && #[trigger] theme_key(ks[q]) == x;
                        if q < nb {
                            assert(theme_key(ref_[q]) == x);
                        } else {
                            assert(theme_key(ref_[q]) == theme_key(custom@[q - nb]));
                            assert(theme_key(all@[nb + (q - nb)]) == theme_key(custom@[q - nb]));
                        }
                    }
                    if theme_keys(ref_).contains(x) {
                        let q = choose|q: int| 0 <= q < ref_.len() && #[trigger] theme_key(ref_[q]) == x;
                        if q < nb {
                            assert(theme_key(ks[q]) == x);
                        } else {
                            assert(theme_key(all@[nb + (q - nb)]) == theme_key(custom@[q - nb]));
                            assert(theme_key(ks[q]) == x);
                        }
                    }
                }
            }
            assert(custom@.take(j + 1).drop_last() =~= custom@.take(j as int));
            assert(custom@.take(j + 1).last() == custom@[j as int]);
        }
        if taken {
            replaced.push((custom[j].0.clone(), custom[j].1));
            proof {
                let before = replacing(builtin@, custom@.take(j as int));
                assert(replaced@.map_values(|t: (String, ColorSchemeKind)| theme_key(t)) =~= before.push(theme_key(custom@[j as int])));
            }
        }
        all.push(c);
        j = j + 1;
    }
    proof {
        assert(custom@.take(custom@.len() as int) =~= custom@);
    }
    let mut dark: Vec<String> = Vec::new();
    let mut light: Vec<String> = Vec::new();
    let ghost want = theme_keys(builtin@ + custom@);
    let mut k: usize = 0;
    while k < all.len()
        invariant
            all@.len() == builtin@.len() + custom@.len(),
            forall|q: int| 0 <= q < builtin@.len() ==> #[trigger] theme_key(all@[q]) == theme_key(builtin@[q]),
            forall|q: int| 0 <= q < custom@.len() ==> #[trigger] theme_key(all@[builtin@.len() + q]) == theme_key(custom@[q]),
            want == theme_keys(builtin@ + custom@),
            k <= all@.len(),
            distinct_texts(dark@),
            distinct_texts(light@),
            text_set(dark@) == names_of_kind(theme_keys(all@.take(k as int)), ColorSchemeKind::Dark),
            text_set(light@) == names_of_kind(theme_keys(all@.take(k as int)), ColorSchemeKind::Light),
        decreases all@.len() - k,
    {
        let name = all[k].0.clone();
        let ghost prev = all@.take(k as int);
        let ghost next = all@.take(k + 1);
        proof {
            assert(next =~= prev.push(all@[k as int]));
            assert forall|x| #[trigger] theme_keys(next).contains(x) == (theme_keys(prev).contains(x) || x == theme_key(all@[k as int])) by {
                if theme_keys(next).contains(x) {
                    let q = choose|q: int| 0 <= q < next.len() && #[trigger] theme_key(next[q]) == x;
                    if q < k {
                        assert(theme_key(prev[q]) == x);
                    }
                }
                if theme_keys(prev).contains(x) {
                    let q = choose|q: int| 0 <= q < prev.len() && #[trigger] theme_key(prev[q]) == x;
                    assert(theme_key(next[q]) == x);
                }
                if x == theme_key(all@[k as int]) {
                    assert(theme_key(next[k as int]) == x);
                }
            }
        }
        match all[k].1 {
            ColorSchemeKind::Dark => {
                if !has_text(&dark, &name) {
                    let ghost before = dark@;
                    dark.push(name);
                    proof {
                        assert forall|a: int, b: int| 0 <= a < b < dark@.len() implies (#[trigger] dark@[a])@ != (#[trigger] dark@[b])@ by {
                            if b == before.len() {
                                assert(text_set(before).contains(dark@[a]@));
                            }
                        }
                        assert(text_set(dark@) =~= text_set(before).insert(dark@[before.len() as int]@)) by {
                            assert forall|n| text_set(dark@).contains(n) == text_set(before).insert(dark@[before.len() as int]@).contains(n) by {
                                if text_set(dark@).contains(n) {
                                    let q = choose|q: int| 0 <= q < dark@.len() && (#[trigger] dark@[q])@ == n;
                                    if q < before.len() {
                                        assert(before[q]@ == n);
                                    }
                                }
                                if text_set(before).contains(n) {
                                    let q = choose|q: int| 0 <= q < before.len() && (#[trigger] before[q])@ == n;
                                    assert(dark@[q]@ == n);
                                }
                            }
                        }
                    }
                }
                assert(text_set(dark@) =~= names_of_kind(theme_keys(next), ColorSchemeKind::Dark));
                assert(text_set(light@) =~= names_of_kind(theme_keys(next), ColorSchemeKind::Light));
            },
            ColorSchemeKind::Light => {
                if !has_text(&light, &name) {
                    let ghost before = light@;
                    light.push(name);
                    proof {
                        assert forall|a: int, b: int| 0 <= a < b < light@.len() implies (#[trigger] light@[a])@ != (#[trigger] light@[b])@ by {
                            if b == before.len() {
                                assert(text_set(before).contains(light@[a]@));
                            }
                        }
                        assert(text_set(light@) =~= text_set(before).insert(light@[before.len() as int]@)) by {
                            assert forall|n| text_set(light@).contains(n) == text_set(before).insert(light@[before.len() as int]@).contains(n) by {
                                if text_set(light@).contains(n) {
                                    let q = choose|q: int| 0 <= q < light@.len() && (#[trigger] light@[q])@ == n;
                                    if q < before.len() {
                                        assert(before[q]@ == n);
                                    }
                                }
                                if text_set(before).contains(n) {
                                    let q = choose|q: int| 0 <= q < before.len() && (#[trigger] before[q])@ == n;
                                    assert(light@[q]@ == n);
                                }
                            }
                        }
                    }
                }
                assert(text_set(dark@) =~= names_of_kind(theme_keys(next), ColorSchemeKind::Dark));
                assert(text_set(light@) =~= names_of_kind(theme_keys(next), ColorSchemeKind::Light));
            },
        }
        k = k + 1;
    }
    proof {
        assert(all@.take(all@.len() as int) =~= all@);
        assert(theme_keys(all@) =~= want) by {
            let ref_ = builtin@ + custom@;
            assert forall|x| theme_keys(all@).contains(x) == theme_keys(ref_).contains(x) by {
                if theme_keys(all@).contains(x) {
                    let q = choose|q: int| 0 <= q < all@.len() && #[trigger] theme_key(all@[q]) == x;
                    if q < builtin@.len() {
                        assert(theme_key(ref_[q]) == x);
                    } else {
                        assert(theme_key(all@[builtin@.len() + (q - builtin@.len())]) == theme_key(custom@[q - builtin@.len()]));
                        assert(theme_key(ref_[q]) == x);
                    }
                }
                if theme_keys(ref_).contains(x) {
                    let q = choose|q: int| 0 <= q < ref_.len() && #[trigger] theme_key(ref_[q]) == x;
                    if q < builtin@.len() {
                        assert(theme_key(all@[q]) == x);
                    } else {
                        assert(theme_key(all@[builtin@.len() + (q - builtin@.len())]) == theme_key(custom@[q - builtin@.len()]));
                        assert(theme_key(all@[q]) == x);
                    }
                }
            }
        }
    }
    ThemeNames { dark, light, replaced }
}

} // verus!
