use vstd::prelude::*;

use crate::text::{
    lemma_text_lt_irreflexive, lemma_text_lt_total, lemma_text_lt_transitive, owned, text_eq,
    text_less, text_lt,
};

verus! {

/// Weight of a regular face.
pub const WEIGHT_NORMAL: u16 = 400;

/// Weight of a bold face.
pub const WEIGHT_BOLD: u16 = 700;

/// Number of the normal (neither condensed nor expanded) stretch.
pub const STRETCH_NORMAL: u16 = 5;

/// A font face installed on the system, as the font database describes it.
/// `stretch` is the width class, from 1 (ultra-condensed) to 9
/// (ultra-expanded).
#[derive(Clone, Debug)]
pub struct FontFace {
    pub family: Option<String>,
    pub post_script_name: String,
    pub monospaced: bool,
    pub weight: u16,
    pub stretch: u16,
}

/// The weight and stretch of a face.
#[derive(Clone, Copy, Debug, PartialEq, Eq, Structural)]
pub struct FaceStyle {
    pub weight: u16,
    pub stretch: u16,
}

/// The name a face is listed under: its first family name, or else its
/// PostScript name.
pub open spec fn face_name(f: FontFace) -> Seq<char> {
    match f.family {
        Some(n) => n@,
        None => f.post_script_name@,
    }
}

/// Faces offered for terminal text: monospaced, with a weight that is one
/// of the named weights, a multiple of 100 from 100 (thin) to 900 (black).
pub open spec fn eligible(f: FontFace) -> bool {
    &&& f.monospaced
    &&& 1 <= f.weight / 100 <= 9
    &&& f.weight % 100 == 0
}

/// The styles of the eligible faces, grouped by name, in the order of the
/// faces.
pub open spec fn font_groups(faces: Seq<FontFace>) -> Map<Seq<char>, Seq<FaceStyle>>
    decreases faces.len(),
{
    if faces.len() == 0 {
        Map::empty()
    } else {
        let m = font_groups(faces.drop_last());
        let f = faces.last();
        if eligible(f) {
            let name = face_name(f);
            let styles = if m.contains_key(name) {
                m[name]
            } else {
                Seq::<FaceStyle>::empty()
            };
            m.insert(name, styles.push(FaceStyle { weight: f.weight, stretch: f.stretch }))
        } else {
            m
        }
    }
}

/// A font can serve as a fallback when it has a regular and a bold face of
/// normal stretch.
pub open spec fn has_fallback_faces(styles: Seq<FaceStyle>) -> bool {
    &&& styles.contains(FaceStyle { weight: WEIGHT_NORMAL, stretch: STRETCH_NORMAL })
    &&& styles.contains(FaceStyle { weight: WEIGHT_BOLD, stretch: STRETCH_NORMAL })
}

/// The fonts offered: the groups of eligible faces that can serve as a
/// fallback.
pub open spec fn offered_fonts(faces: Seq<FontFace>) -> Map<Seq<char>, Seq<FaceStyle>> {
    let g = font_groups(faces);
    g.restrict(Set::new(|n: Seq<char>| g.contains_key(n) && has_fallback_faces(g[n])))
}

/// The offered fonts, ordered by name, each with the styles of its faces.
pub struct FontMap {
    entries: Vec<(String, Vec<FaceStyle>)>,
}

/// Names strictly increase along the entries.
pub closed spec fn names_increasing(e: Seq<(String, Vec<FaceStyle>)>) -> bool {
    forall|i: int, j: int| 0 <= i < j < e.len() ==> text_lt(#[trigger] e[i].0@, #[trigger] e[j].0@)
}

/// A style the font database can report for an offered face.
pub open spec fn style_valid(st: FaceStyle) -> bool {
    &&& 1 <= st.stretch <= 9
    &&& 100 <= st.weight <= 900
    &&& st.weight % 100 == 0
}

pub closed spec fn styles_valid(e: Seq<(String, Vec<FaceStyle>)>) -> bool {
    forall|i: int, k: int| 0 <= i < e.len() && 0 <= k < e[i].1@.len() ==> style_valid(#[trigger] e[i].1@[k])
}

pub closed spec fn fonts_valid(e: Seq<(String, Vec<FaceStyle>)>) -> bool {
    &&& styles_valid(e)
    &&& forall|i: int| 0 <= i < e.len() ==> has_fallback_faces(#[trigger] e[i].1@)
}

spec fn font_index(e: Seq<(String, Vec<FaceStyle>)>, n: Seq<char>) -> int {
    choose|i: int| 0 <= i < e.len() && #[trigger] e[i].0@ == n
}

pub closed spec fn entries_fonts(e: Seq<(String, Vec<FaceStyle>)>) -> Map<Seq<char>, Seq<FaceStyle>> {
    Map::new(
        |n: Seq<char>| exists|i: int| 0 <= i < e.len() && #[trigger] e[i].0@ == n,
        |n: Seq<char>| e[font_index(e, n)].1@,
    )
}

proof fn lemma_names_distinct(e: Seq<(String, Vec<FaceStyle>)>, i: int, j: int)
    requires
        names_increasing(e),
        0 <= i < e.len(),
        0 <= j < e.len(),
        i != j,
    ensures
        e[i].0@ != e[j].0@,
{
    if i < j {
        assert(text_lt(e[i].0@, e[j].0@));
    } else {
        assert(text_lt(e[j].0@, e[i].0@));
    }
    lemma_text_lt_irreflexive(e[i].0@);
}

proof fn lemma_font_lookup(e: Seq<(String, Vec<FaceStyle>)>, i: int)
    requires
        names_increasing(e),
        0 <= i < e.len(),
    ensures
        entries_fonts(e).contains_key(e[i].0@),
        entries_fonts(e)[e[i].0@] == e[i].1@,
{
    let n = e[i].0@;
    assert(entries_fonts(e).dom().contains(n));
    let k = font_index(e, n);
    if k != i {
        lemma_names_distinct(e, i, k);
    }
    assert(k == i);
    assert(entries_fonts(e)[n] == e[k].1@);
}

impl View for FontMap {
    type V = Map<Seq<char>, Seq<FaceStyle>>;

    closed spec fn view(&self) -> Map<Seq<char>, Seq<FaceStyle>> {
        entries_fonts(self.entries@)
    }
}

impl FontMap {
    #[verifier::type_invariant]
    closed spec fn ordered(&self) -> bool {
        &&& names_increasing(self.entries@)
        &&& fonts_valid(self.entries@)
    }

    /// The font names in increasing order, each font once.
    pub fn font_names(&self) -> (r: Vec<String>)
        ensures
            forall|i: int, j: int|
                0 <= i < j < r@.len() ==> text_lt(#[trigger] r@[i]@, #[trigger] r@[j]@),
            forall|n: Seq<char>| #[trigger] self@.contains_key(n) <==> exists|i: int| 0 <= i < r@.len() && r@[i]@ == n,
            r@.len() == self@.dom().len(),
    {
        proof {
            use_type_invariant(self);
        }
        let mut r: Vec<String> = Vec::new();
        let mut i: usize = 0;
        while i < self.entries.len()
            invariant
                names_increasing(self.entries@),
                i <= self.entries@.len(),
                r@.len() == i,
                forall|k: int| 0 <= k < i ==> (#[trigger] r@[k])@ == self.entries@[k].0@,
            decreases self.entries@.len() - i,
        {
            r.push(self.entries[i].0.clone());
            i = i + 1;
        }
        proof {
            assert forall|a: int, b: int| 0 <= a < b < r@.len() implies text_lt(#[trigger] r@[a]@, #[trigger] r@[b]@) by {
                assert(r@[a]@ == self.entries@[a].0@);
            }
            assert forall|n: Seq<char>| #[trigger] self@.contains_key(n) <==> exists|i: int| 0 <= i < r@.len() && r@[i]@ == n by {
                if self@.contains_key(n) {
                    let k = choose|k: int| 0 <= k < self.entries@.len() && #[trigger] self.entries@[k].0@ == n;
                    assert(r@[k]@ == n);
                }
                if exists|i: int| 0 <= i < r@.len() && r@[i]@ == n {
                    let k = choose|k: int| 0 <= k < r@.len() && r@[k]@ == n;
                    assert(self.entries@[k].0@ == n);
                }
            }
            let names = r@.map_values(|s: String| s@);
            assert forall|a: int, b: int| 0 <= a < b < names.len() implies names[a] != names[b] by {
                lemma_names_distinct(self.entries@, a, b);
            }
            names.unique_seq_to_set();
            assert(self@.dom() =~= names.to_set()) by {
                assert forall|n: Seq<char>| self@.dom().contains(n) implies names.to_set().contains(n) by {
                    let k = choose|k: int| 0 <= k < self.entries@.len() && #[trigger] self.entries@[k].0@ == n;
                    assert(names[k] == n);
                }
                assert forall|n: Seq<char>| names.to_set().contains(n) implies self@.dom().contains(n) by {
                    let k = choose|k: int| 0 <= k < names.len() && names[k] == n;
                    assert(self.entries@[k].0@ == n);
                }
            }
        }
        r
    }
}

fn copy_styles(v: &Vec<FaceStyle>) -> (r: Vec<FaceStyle>)
    ensures
        r@ == v@,
{
    let mut r: Vec<FaceStyle> = Vec::new();
    let mut i: usize = 0;
    while i < v.len()
        invariant
            i <= v@.len(),
            r@ == v@.subrange(0, i as int),
        decreases v@.len() - i,
    {
        r.push(v[i]);
        i = i + 1;
    }
    assert(v@.subrange(0, v@.len() as int) =~= v@);
    r
}

fn has_style(v: &Vec<FaceStyle>, s: FaceStyle) -> (r: bool)
    ensures
        r == v@.contains(s),
{
    let mut i: usize = 0;
    while i < v.len()
        invariant
            i <= v@.len(),
            forall|k: int| 0 <= k < i ==> v@[k] != s,
        decreases v@.len() - i,
    {
        if v[i] == s {
            return true;
        }
        i = i + 1;
    }
    false
}

fn name_of(f: &FontFace) -> (r: String)
    ensures
        r@ == face_name(*f),
{
    match &f.family {
        Some(n) => n.clone(),
        None => f.post_script_name.clone(),
    }
}

fn is_eligible(f: &FontFace) -> (r: bool)
    ensures
        r == eligible(*f),
{
    let w = f.weight / 100;
    f.monospaced && 1 <= w && w <= 9 && f.weight % 100 == 0
}

/// Adds a style to the group of `name` in name-ordered entries.
fn add_to_group(entries: &mut Vec<(String, Vec<FaceStyle>)>, name: String, style: FaceStyle)
    requires
        names_increasing(old(entries)@),
        styles_valid(old(entries)@),
        style_valid(style),
    ensures
        names_increasing(final(entries)@),
        styles_valid(final(entries)@),
        entries_fonts(final(entries)@) == entries_fonts(old(entries)@).insert(
            name@,
            (if entries_fonts(old(entries)@).contains_key(name@) {
                entries_fonts(old(entries)@)[name@]
            } else {
                Seq::<FaceStyle>::empty()
            }).push(style),
        ),
{
    let ghost e = entries@;
    let ghost old_map = entries_fonts(e);
    let mut p: usize = 0;
    while p < entries.len() && text_less(entries[p].0.as_str(), name.as_str())
        invariant
            entries@ == e,
            p <= e.len(),
            forall|k: int| 0 <= k < p ==> text_lt(#[trigger] e[k].0@, name@),
        decreases e.len() - p,
    {
        p = p + 1;
    }
    if p < entries.len() && text_eq(entries[p].0.as_str(), name.as_str()) {
        proof {
            lemma_font_lookup(e, p as int);
        }
        let mut styles = copy_styles(&entries[p].1);
        styles.push(style);
        let ghost new_styles = styles@;
        entries.set(p, (name, styles));
        proof {
            let e2 = entries@;
            assert forall|a: int, k: int| 0 <= a < e2.len() && 0 <= k < e2[a].1@.len() implies style_valid(
                #[trigger] e2[a].1@[k],
            ) by {
                if a != p && k < e[a].1@.len() {
                    assert(style_valid(e[a].1@[k]));
                } else if a == p && k < e[a].1@.len() {
                    assert(e2[a].1@[k] == e[a].1@[k]);
                    assert(style_valid(e[a].1@[k]));
                }
            }
            assert forall|a: int, b: int| 0 <= a < b < e2.len() implies text_lt(
                #[trigger] e2[a].0@,
                #[trigger] e2[b].0@,
            ) by {
                assert(text_lt(e[a].0@, e[b].0@));
            }
            assert forall|n: Seq<char>| #[trigger] entries_fonts(e2).contains_key(n)
                == old_map.insert(name@, new_styles).contains_key(n) by {
                if old_map.contains_key(n) {
                    let k = font_index(e, n);
                    assert(e2[k].0@ == n);
                }
                if entries_fonts(e2).contains_key(n) {
                    let k = font_index(e2, n);
                    assert(e[k].0@ == n);
                }
            }
            assert forall|n: Seq<char>| #[trigger] entries_fonts(e2).contains_key(n) implies entries_fonts(
                e2,
            )[n] == old_map.insert(name@, new_styles)[n] by {
                let k = font_index(e2, n);
                lemma_font_lookup(e2, k);
                if k != p {
                    lemma_font_lookup(e, k);
                    lemma_names_distinct(e, k, p as int);
                }
            }
            assert(entries_fonts(e2) =~= old_map.insert(name@, new_styles));
        }
    } else {
        proof {
            if p < e.len() {
                lemma_text_lt_total(e[p as int].0@, name@);
            }
            assert forall|k: int| 0 <= k < e.len() implies e[k].0@ != name@ by {
                if k < p {
                    lemma_text_lt_irreflexive(name@);
                } else {
                    if k > p {
                        assert(text_lt(e[p as int].0@, e[k].0@));
                        lemma_text_lt_transitive(name@, e[p as int].0@, e[k].0@);
                    }
                    lemma_text_lt_irreflexive(name@);
                }
            }
            assert(!old_map.contains_key(name@));
        }
        let mut styles: Vec<FaceStyle> = Vec::new();
        styles.push(style);
        let ghost new_styles = styles@;
        let ghost nm = name@;
        entries.insert(p, (name, styles));
        proof {
            let e2 = entries@;
            assert(e2 =~= e.insert(p as int, e2[p as int]));
            assert forall|a: int, k: int| 0 <= a < e2.len() && 0 <= k < e2[a].1@.len() implies style_valid(
                #[trigger] e2[a].1@[k],
            ) by {
                if a < p {
                    assert(style_valid(e[a].1@[k]));
                } else if a > p {
                    assert(e2[a] == e[a - 1]);
                    assert(style_valid(e[a - 1].1@[k]));
                }
            }
            assert(new_styles =~= Seq::<FaceStyle>::empty().push(style));
            assert forall|a: int, b: int| 0 <= a < b < e2.len() implies text_lt(
                #[trigger] e2[a].0@,
                #[trigger] e2[b].0@,
            ) by {
                if b < p {
                    assert(text_lt(e[a].0@, e[b].0@));
                } else if b == p {
                } else if a < p {
                    assert(e2[b] == e[b - 1]);
                    lemma_text_lt_total(e[p as int].0@, nm);
                    if b - 1 > p {
                        assert(text_lt(e[p as int].0@, e[b - 1].0@));
                        lemma_text_lt_transitive(nm, e[p as int].0@, e[b - 1].0@);
                    }
                    lemma_text_lt_transitive(e[a].0@, nm, e[b - 1].0@);
                } else if a == p {
                    assert(e2[b] == e[b - 1]);
                    if b - 1 > p {
                        assert(text_lt(e[p as int].0@, e[b - 1].0@));
                        lemma_text_lt_transitive(nm, e[p as int].0@, e[b - 1].0@);
                    }
                } else {
                    assert(e2[b] == e[b - 1]);
                    assert(e2[a] == e[a - 1]);
                    assert(text_lt(e[a - 1].0@, e[b - 1].0@));
                }
            }
            assert forall|n: Seq<char>| #[trigger] entries_fonts(e2).contains_key(n)
                == old_map.insert(nm, new_styles).contains_key(n) by {
                if old_map.contains_key(n) {
                    let k = font_index(e, n);
                    if k < p {
                        assert(e2[k].0@ == n);
                    } else {
                        assert(e2[k + 1].0@ == n);
                    }
                }
                if n == nm {
                    assert(e2[p as int].0@ == n);
                }
                if entries_fonts(e2).contains_key(n) {
                    let k = font_index(e2, n);
                    if k < p {
                        assert(e[k].0@ == n);
                    } else if k > p {
                        assert(e[k - 1].0@ == n);
                    }
                }
            }
            assert forall|n: Seq<char>| #[trigger] entries_fonts(e2).contains_key(n) implies entries_fonts(
                e2,
            )[n] == old_map.insert(nm, new_styles)[n] by {
                let k = font_index(e2, n);
                lemma_font_lookup(e2, k);
                if k < p {
                    lemma_font_lookup(e, k);
                    assert(e[k].0@ != nm);
                } else if k > p {
                    lemma_font_lookup(e, k - 1);
                    assert(e[k - 1].0@ != nm);
                }
            }
            assert(entries_fonts(e2) =~= old_map.insert(nm, new_styles));
        }
    }
}

impl FontMap {
    /// The offered fonts among the installed faces: eligible faces grouped by
    /// name, keeping the fonts that have a regular and a bold face of normal
    /// stretch.
    pub fn from_faces(faces: &Vec<FontFace>) -> (r: FontMap)
        requires
            forall|i: int| 0 <= i < faces@.len() ==> 1 <= #[trigger] faces@[i].stretch <= 9,
        ensures
            r@ == offered_fonts(faces@),
    {
        let mut entries: Vec<(String, Vec<FaceStyle>)> = Vec::new();
        let mut i: usize = 0;
        assert(entries_fonts(entries@) =~= Map::<Seq<char>, Seq<FaceStyle>>::empty());
        assert(faces@.subrange(0, 0) =~= Seq::<FontFace>::empty());
        while i < faces.len()
            invariant
                forall|i: int| 0 <= i < faces@.len() ==> 1 <= #[trigger] faces@[i].stretch <= 9,
                i <= faces@.len(),
                names_increasing(entries@),
                styles_valid(entries@),
                entries_fonts(entries@) == font_groups(faces@.subrange(0, i as int)),
            decreases faces@.len() - i,
        {
            let f = &faces[i];
            assert(faces@.subrange(0, i + 1).drop_last() =~= faces@.subrange(0, i as int));
            assert(faces@.subrange(0, i + 1).last() == *f);
            if is_eligible(f) {
                add_to_group(&mut entries, name_of(f), FaceStyle { weight: f.weight, stretch: f.stretch });
            }
            i = i + 1;
        }
        assert(faces@.subrange(0, faces@.len() as int) =~= faces@);
        let ghost g = font_groups(faces@);
        let mut kept: Vec<(String, Vec<FaceStyle>)> = Vec::new();
        let ghost mut idx: Seq<int> = Seq::empty();
        let mut j: usize = 0;
        while j < entries.len()
            invariant
                names_increasing(entries@),
                styles_valid(entries@),
                entries_fonts(entries@) == g,
                j <= entries@.len(),
                idx.len() == kept@.len(),
                forall|k: int| 0 <= k < idx.len() ==> 0 <= #[trigger] idx[k] < j,
                forall|a: int, b: int| 0 <= a < b < idx.len() ==> #[trigger] idx[a] < #[trigger] idx[b],
                forall|k: int|
                    0 <= k < idx.len() ==> (#[trigger] kept@[k]).0@ == entries@[idx[k]].0@
                        && kept@[k].1@ == entries@[idx[k]].1@ && has_fallback_faces(
                        entries@[idx[k]].1@,
                    ),
                forall|m: int|
                    0 <= m < j && has_fallback_faces(#[trigger] entries@[m].1@) ==> exists|k: int|
                        0 <= k < idx.len() && idx[k] == m,
            decreases entries@.len() - j,
        {
            let ghost old_idx = idx;
            let ghost old_kept = kept@;
            let normal = FaceStyle { weight: WEIGHT_NORMAL, stretch: STRETCH_NORMAL };
            let bold = FaceStyle { weight: WEIGHT_BOLD, stretch: STRETCH_NORMAL };
            let has_normal = has_style(&entries[j].1, normal);
            let has_bold = has_style(&entries[j].1, bold);
            let keep = has_normal && has_bold;
            assert(keep == has_fallback_faces(entries@[j as int].1@));
            if keep {
                let name = entries[j].0.clone();
                let styles = copy_styles(&entries[j].1);
                kept.push((name, styles));
                proof {
                    idx = idx.push(j as int);
                    assert(kept@[idx.len() - 1].0@ == entries@[j as int].0@);
                }
            }
            proof {
                assert forall|m: int| 0 <= m < j + 1 && has_fallback_faces(#[trigger] entries@[m].1@)
                    implies exists|k: int| 0 <= k < idx.len() && idx[k] == m by {
                    if m < j {
                        let k = choose|k: int| 0 <= k < old_idx.len() && old_idx[k] == m;
                        assert(idx[k] == m);
                    } else {
                        assert(idx[idx.len() - 1] == m);
                    }
                }
                assert forall|k: int| 0 <= k < idx.len() implies (#[trigger] kept@[k]).0@
                    == entries@[idx[k]].0@ && kept@[k].1@ == entries@[idx[k]].1@
                    && has_fallback_faces(entries@[idx[k]].1@) by {
                    if k < old_idx.len() {
                        assert(kept@[k] == old_kept[k]);
                        assert(idx[k] == old_idx[k]);
                    }
                }
            }
            j = j + 1;
        }
        proof {
            let e = entries@;
            let kp = kept@;
            assert forall|a: int, b: int| 0 <= a < b < kp.len() implies text_lt(
                #[trigger] kp[a].0@,
                #[trigger] kp[b].0@,
            ) by {
                assert(idx[a] < idx[b]);
                assert(text_lt(e[idx[a]].0@, e[idx[b]].0@));
            }
            let want = offered_fonts(faces@);
            assert forall|n: Seq<char>| #[trigger] entries_fonts(kp).contains_key(n) == want.contains_key(n) by {
                if entries_fonts(kp).contains_key(n) {
                    let k = font_index(kp, n);
                    lemma_font_lookup(e, idx[k]);
                }
                if want.contains_key(n) {
                    let m = font_index(e, n);
                    lemma_font_lookup(e, m);
                    let k = choose|k: int| 0 <= k < idx.len() && idx[k] == m;
                    assert(kp[k].0@ == n);
                }
            }
            assert forall|n: Seq<char>| #[trigger] entries_fonts(kp).contains_key(n) implies entries_fonts(kp)[n]
                == want[n] by {
                let k = font_index(kp, n);
                lemma_font_lookup(kp, k);
                lemma_font_lookup(e, idx[k]);
            }
            assert(entries_fonts(kp) =~= want);
            assert forall|a: int, k: int| 0 <= a < kp.len() && 0 <= k < kp[a].1@.len() implies style_valid(
                #[trigger] kp[a].1@[k],
            ) by {
                assert(kp[a].1@ == e[idx[a]].1@);
                assert(style_valid(e[idx[a]].1@[k]));
            }
            assert forall|a: int| 0 <= a < kp.len() implies has_fallback_faces(#[trigger] kp[a].1@) by {
                assert(kp[a].1@ == e[idx[a]].1@);
            }
        }
        FontMap { entries: kept }
    }
}

/// Name of a font stretch, by its number.
pub open spec fn stretch_label(n: u16) -> Seq<char> {
    if n == 1 {
        "UltraCondensed"@
    } else if n == 2 {
        "ExtraCondensed"@
    } else if n == 3 {
        "Condensed"@
    } else if n == 4 {
        "SemiCondensed"@
    } else if n == 5 {
        "Normal"@
    } else if n == 6 {
        "SemiExpanded"@
    } else if n == 7 {
        "Expanded"@
    } else if n == 8 {
        "ExtraExpanded"@
    } else if n == 9 {
        "UltraExpanded"@
    } else {
        Seq::<char>::empty()
    }
}

/// Name of a font weight.
pub open spec fn weight_label(w: u16) -> Seq<char> {
    if w == 100 {
        "Thin"@
    } else if w == 200 {
        "ExtraLight"@
    } else if w == 300 {
        "Light"@
    } else if w == 400 {
        "Normal"@
    } else if w == 500 {
        "Medium"@
    } else if w == 600 {
        "Semibold"@
    } else if w == 700 {
        "Bold"@
    } else if w == 800 {
        "ExtraBold"@
    } else if w == 900 {
        "Black"@
    } else {
        Seq::<char>::empty()
    }
}

/// Name of a font stretch, by its number.
pub fn stretch_name(n: u16) -> (r: String)
    ensures
        r@ == stretch_label(n),
{
    if n == 1 {
        owned("UltraCondensed")
    } else if n == 2 {
        owned("ExtraCondensed")
    } else if n == 3 {
        owned("Condensed")
    } else if n == 4 {
        owned("SemiCondensed")
    } else if n == 5 {
        owned("Normal")
    } else if n == 6 {
        owned("SemiExpanded")
    } else if n == 7 {
        owned("Expanded")
    } else if n == 8 {
        owned("ExtraExpanded")
    } else if n == 9 {
        owned("UltraExpanded")
    } else {
        String::new()
    }
}

/// Name of a font weight.
pub fn weight_name(w: u16) -> (r: String)
    ensures
        r@ == weight_label(w),
{
    if w == 100 {
        owned("Thin")
    } else if w == 200 {
        owned("ExtraLight")
    } else if w == 300 {
        owned("Light")
    } else if w == 400 {
        owned("Normal")
    } else if w == 500 {
        owned("Medium")
    } else if w == 600 {
        owned("Semibold")
    } else if w == 700 {
        owned("Bold")
    } else if w == 800 {
        owned("ExtraBold")
    } else if w == 900 {
        owned("Black")
    } else {
        String::new()
    }
}

/// Each value is smaller than the next: sorted, without repeats.
pub open spec fn strictly_increasing(v: Seq<u16>) -> bool {
    forall|i: int, j: int| 0 <= i < j < v.len() ==> #[trigger] v[i] < #[trigger] v[j]
}

/// The stretches of the faces.
pub open spec fn stretches_of(styles: Seq<FaceStyle>) -> Set<u16> {
    Set::new(|x: u16| exists|i: int| 0 <= i < styles.len() && #[trigger] styles[i].stretch == x)
}

/// The weights of the faces of one stretch.
pub open spec fn weights_at(styles: Seq<FaceStyle>, stretch: u16) -> Set<u16> {
    Set::new(
        |w: u16|
            exists|i: int|
                0 <= i < styles.len() && #[trigger] styles[i].stretch == stretch && styles[i].weight
                    == w,
    )
}

/// Adds a value to a sorted list without repeats.
fn insert_sorted(v: &mut Vec<u16>, x: u16)
    requires
        strictly_increasing(old(v)@),
    ensures
        strictly_increasing(final(v)@),
        final(v)@.to_set() == old(v)@.to_set().insert(x),
{
    let ghost before = v@;
    let mut p: usize = 0;
    while p < v.len() && v[p] < x
        invariant
            v@ == before,
            p <= before.len(),
            forall|k: int| 0 <= k < p ==> #[trigger] before[k] < x,
        decreases before.len() - p,
    {
        p = p + 1;
    }
    if p < v.len() && v[p] == x {
        assert(before.to_set() =~= before.to_set().insert(x)) by {
            assert(before.to_set().contains(x)) by {
                assert(before[p as int] == x);
            }
        }
        return;
    }
    v.insert(p, x);
    proof {
        let after = v@;
        assert(after =~= before.insert(p as int, x));
        assert forall|a: int, b: int| 0 <= a < b < after.len() implies #[trigger] after[a] < #[trigger] after[b] by {
            if b < p {
            } else if b == p {
            } else if a < p {
                assert(after[b] == before[b - 1]);
                if b - 1 > p {
                    assert(before[p as int] < before[b - 1]);
                }
            } else if a == p {
                assert(after[b] == before[b - 1]);
                if b - 1 > p {
                    assert(before[p as int] < before[b - 1]);
                }
            } else {
                assert(after[a] == before[a - 1]);
                assert(after[b] == before[b - 1]);
            }
        }
        assert forall|y: u16| after.to_set().contains(y) == before.to_set().insert(x).contains(y) by {
            if after.to_set().contains(y) {
                let k = choose|k: int| 0 <= k < after.len() && after[k] == y;
                if k < p {
                    assert(before[k] == y);
                } else if k > p {
                    assert(before[k - 1] == y);
                }
            }
            if before.to_set().contains(y) {
                let k = choose|k: int| 0 <= k < before.len() && before[k] == y;
                if k < p {
                    assert(after[k] == y);
                } else {
                    assert(after[k + 1] == y);
                }
            }
            if y == x {
                assert(after[p as int] == y);
            }
        }
        assert(after.to_set() =~= before.to_set().insert(x));
    }
}

/// The stretches of the faces, sorted, each once.
pub fn font_stretches(styles: &Vec<FaceStyle>) -> (r: Vec<u16>)
    ensures
        strictly_increasing(r@),
        r@.to_set() == stretches_of(styles@),
{
    let mut r: Vec<u16> = Vec::new();
    let mut i: usize = 0;
    assert(r@.to_set() =~= Set::<u16>::empty());
    while i < styles.len()
        invariant
            i <= styles@.len(),
            strictly_increasing(r@),
            r@.to_set() == stretches_of(styles@.subrange(0, i as int)),
        decreases styles@.len() - i,
    {
        insert_sorted(&mut r, styles[i].stretch);
        proof {
            let prev = styles@.subrange(0, i as int);
            let next = styles@.subrange(0, i + 1);
            assert(stretches_of(next) =~= stretches_of(prev).insert(styles@[i as int].stretch)) by {
                assert forall|x: u16| stretches_of(next).contains(x) == stretches_of(prev).insert(styles@[i as int].stretch).contains(x) by {
                    if stretches_of(next).contains(x) {
                        let k = choose|k: int| 0 <= k < next.len() && #[trigger] next[k].stretch == x;
                        if k < i {
                            assert(prev[k].stretch == x);
                        }
                    }
                    if stretches_of(prev).contains(x) {
                        let k = choose|k: int| 0 <= k < prev.len() && #[trigger] prev[k].stretch == x;
                        assert(next[k].stretch == x);
                    }
                    if x == styles@[i as int].stretch {
                        assert(next[i as int].stretch == x);
                    }
                }
            }
        }
        i = i + 1;
    }
    assert(styles@.subrange(0, styles@.len() as int) =~= styles@);
    r
}

/// The weights of the faces of one stretch, sorted, each once.
pub fn font_weights(styles: &Vec<FaceStyle>, stretch: u16) -> (r: Vec<u16>)
    ensures
        strictly_increasing(r@),
        r@.to_set() == weights_at(styles@, stretch),
{
    let mut r: Vec<u16> = Vec::new();
    let mut i: usize = 0;
    assert(r@.to_set() =~= Set::<u16>::empty());
    assert(weights_at(styles@.subrange(0, 0), stretch) =~= Set::<u16>::empty());
    while i < styles.len()
        invariant
            i <= styles@.len(),
            strictly_increasing(r@),
            r@.to_set() == weights_at(styles@.subrange(0, i as int), stretch),
        decreases styles@.len() - i,
    {
        let ghost before = r@.to_set();
        if styles[i].stretch == stretch {
            insert_sorted(&mut r, styles[i].weight);
        }
        proof {
            let prev = styles@.subrange(0, i as int);
            let next = styles@.subrange(0, i + 1);
            let st = styles@[i as int];
            assert forall|w: u16| #[trigger] weights_at(next, stretch).contains(w) == (weights_at(prev, stretch).contains(w)
                || (st.stretch == stretch && st.weight == w)) by {
                if weights_at(next, stretch).contains(w) {
                    let k = choose|k: int| 0 <= k < next.len() && #[trigger] next[k].stretch == stretch && next[k].weight == w;
                    if k < i {
                        assert(prev[k].stretch == stretch);
                    }
                }
                if weights_at(prev, stretch).contains(w) {
                    let k = choose|k: int| 0 <= k < prev.len() && #[trigger] prev[k].stretch == stretch && prev[k].weight == w;
                    assert(next[k].stretch == stretch);
                }
                if st.stretch == stretch && st.weight == w {
                    assert(next[i as int].stretch == stretch);
                }
            }
            assert(r@.to_set() =~= weights_at(next, stretch));
        }
        i = i + 1;
    }
    assert(styles@.subrange(0, styles@.len() as int) =~= styles@);
    r
}

fn contains_u16(v: &Vec<u16>, x: u16) -> (r: bool)
    ensures
        r == v@.contains(x),
{
    let mut i: usize = 0;
    while i < v.len()
        invariant
            i <= v@.len(),
            forall|k: int| 0 <= k < i ==> v@[k] != x,
        decreases v@.len() - i,
    {
        if v[i] == x {
            return true;
        }
        i = i + 1;
    }
    false
}

/// The font settings in effect, and the choices offered for them.
pub struct FontSelection {
    /// The font in use.
    pub font_name: String,
    /// Whether the configured font is not offered, so that the first offered
    /// font replaced it.
    pub font_name_replaced: bool,
    /// The stretches the font offers, sorted.
    pub stretches: Vec<u16>,
    pub stretch_names: Vec<String>,
    /// The weights the font offers at the stretch in use, sorted.
    pub weights: Vec<u16>,
    pub weight_names: Vec<String>,
    pub font_stretch: u16,
    pub font_weight: u16,
    pub dim_font_weight: u16,
    pub bold_font_weight: u16,
}

fn stretch_names_of(v: &Vec<u16>) -> (r: Vec<String>)
    ensures
        r@.len() == v@.len(),
        forall|i: int| 0 <= i < v@.len() ==> (#[trigger] r@[i])@ == stretch_label(v@[i]),
{
    let mut r: Vec<String> = Vec::new();
    let mut i: usize = 0;
    while i < v.len()
        invariant
            i <= v@.len(),
            r@.len() == i,
            forall|k: int| 0 <= k < i ==> (#[trigger] r@[k])@ == stretch_label(v@[k]),
        decreases v@.len() - i,
    {
        r.push(stretch_name(v[i]));
        i = i + 1;
    }
    r
}

fn weight_names_of(v: &Vec<u16>) -> (r: Vec<String>)
    ensures
        r@.len() == v@.len(),
        forall|i: int| 0 <= i < v@.len() ==> (#[trigger] r@[i])@ == weight_label(v@[i]),
{
    let mut r: Vec<String> = Vec::new();
    let mut i: usize = 0;
    while i < v.len()
        invariant
            i <= v@.len(),
            r@.len() == i,
            forall|k: int| 0 <= k < i ==> (#[trigger] r@[k])@ == weight_label(v@[k]),
        decreases v@.len() - i,
    {
        r.push(weight_name(v[i]));
        i = i + 1;
    }
    r
}

/// The stretch in effect: the configured one when the font offers it, the
/// normal stretch otherwise.
pub open spec fn effective_stretch(styles: Seq<FaceStyle>, typed_stretch: u16) -> u16 {
    if stretches_of(styles).contains(typed_stretch) {
        typed_stretch
    } else {
        STRETCH_NORMAL
    }
}

/// A configured weight as settled for a font: kept when the font has a face
/// of that weight at the stretch in effect, `fallback` otherwise.
pub open spec fn settled_weight(styles: Seq<FaceStyle>, typed_stretch: u16, w: u16, fallback: u16) -> u16 {
    if weights_at(styles, effective_stretch(styles, typed_stretch)).contains(w) {
        w
    } else {
        fallback
    }
}

/// The font settings `(font, stretch, weight, dim weight, bold weight)` that
/// settling the configured ones (`name`, `font_stretch` read as the stretch
/// `typed_stretch`, `w`, `d`, `b`) against the offered fonts `m` gives: the
/// configured font when offered, else the first offered font in name order;
/// the configured stretch when the font has it, else the normal stretch; each
/// weight when the font has it at the stretch in effect, else regular (bold
/// for the bold weight).
pub open spec fn settles_to(
    m: Map<Seq<char>, Seq<FaceStyle>>,
    name: Seq<char>,
    font_stretch: u16,
    typed_stretch: u16,
    w: u16,
    d: u16,
    b: u16,
    out: (Seq<char>, u16, u16, u16, u16),
) -> bool {
    let styles = m[out.0];
    &&& m.contains_key(out.0)
    &&& m.contains_key(name) ==> out.0 == name
    &&& !m.contains_key(name) ==> forall|n: Seq<char>| #[trigger] m.contains_key(n) ==> !text_lt(n, out.0)
    &&& out.1 == (if stretches_of(styles).contains(typed_stretch) { font_stretch } else { STRETCH_NORMAL })
    &&& out.2 == settled_weight(styles, typed_stretch, w, WEIGHT_NORMAL)
    &&& out.3 == settled_weight(styles, typed_stretch, d, WEIGHT_NORMAL)
    &&& out.4 == settled_weight(styles, typed_stretch, b, WEIGHT_BOLD)
}

/// Settling the font settings twice changes nothing: the settled settings,
/// settled again against the same offered fonts, stay as they are. Here
/// `typed_of` is how a stored stretch number is read as a stretch; it must
/// read the configured stretch as `typed_stretch` and the normal stretch as
/// itself. The fonts offered all have a regular and a bold face of normal
/// stretch, as every `FontMap` does.
pub proof fn lemma_settling_twice(
    m: Map<Seq<char>, Seq<FaceStyle>>,
    name: Seq<char>,
    font_stretch: u16,
    typed_stretch: u16,
    w: u16,
    d: u16,
    b: u16,
    out: (Seq<char>, u16, u16, u16, u16),
    typed_of: spec_fn(u16) -> u16,
)
    requires
        forall|n: Seq<char>| #[trigger] m.contains_key(n) ==> has_fallback_faces(m[n]),
        settles_to(m, name, font_stretch, typed_stretch, w, d, b, out),
        typed_of(font_stretch) == typed_stretch,
        typed_of(STRETCH_NORMAL) == STRETCH_NORMAL,
    ensures
        settles_to(m, out.0, out.1, typed_of(out.1), out.2, out.3, out.4, out),
{
    let styles = m[out.0];
    assert(has_fallback_faces(styles));
    let normal = FaceStyle { weight: WEIGHT_NORMAL, stretch: STRETCH_NORMAL };
    let kn = choose|k: int| 0 <= k < styles.len() && styles[k] == normal;
    assert(styles[kn].stretch == STRETCH_NORMAL);
    assert(stretches_of(styles).contains(STRETCH_NORMAL));
    assert(typed_of(out.1) == effective_stretch(styles, typed_stretch));
    assert(effective_stretch(styles, typed_of(out.1)) == effective_stretch(styles, typed_stretch));
}

impl FontMap {
    /// Whether the map has no font.
    pub fn is_empty(&self) -> (r: bool)
        ensures
            r == (self@.dom() == Set::<Seq<char>>::empty()),
    {
        proof {
            use_type_invariant(self);
            if self.entries@.len() > 0 {
                lemma_font_lookup(self.entries@, 0);
            } else {
                assert(self@.dom() =~= Set::<Seq<char>>::empty());
            }
        }
        self.entries.len() == 0
    }

    /// Settles the font settings against the offered fonts: the configured
    /// font, or the first offered one when it is not offered; its stretches;
    /// the configured stretch, or normal when the font lacks it; the weights
    /// at that stretch; and each configured weight, or regular (bold for the
    /// bold weight) when it is not among them.
    pub fn select(
        &self,
        font_name: &String,
        font_stretch: u16,
        typed_stretch: u16,
        font_weight: u16,
        dim_font_weight: u16,
        bold_font_weight: u16,
    ) -> (r: FontSelection)
        requires
            self@.dom() != Set::<Seq<char>>::empty(),
        ensures
            r.font_name_replaced == !self@.contains_key(font_name@),
            self@.contains_key(r.font_name@),
            !r.font_name_replaced ==> r.font_name@ == font_name@,
            r.font_name_replaced ==> forall|n: Seq<char>| #[trigger] self@.contains_key(n) ==> !text_lt(n, r.font_name@),
            strictly_increasing(r.stretches@),
            r.stretches@.to_set() == stretches_of(self@[r.font_name@]),
            r.stretch_names@.len() == r.stretches@.len(),
            forall|i: int| 0 <= i < r.stretches@.len() ==> (#[trigger] r.stretch_names@[i])@ == stretch_label(r.stretches@[i]),
            r.font_stretch == (if stretches_of(self@[r.font_name@]).contains(typed_stretch) {
                font_stretch
            } else {
                STRETCH_NORMAL
            }),
            strictly_increasing(r.weights@),
            r.weights@.to_set() == weights_at(self@[r.font_name@], effective_stretch(self@[r.font_name@], typed_stretch)),
            r.weights@.len() > 0,
            r.weight_names@.len() == r.weights@.len(),
            forall|i: int| 0 <= i < r.weights@.len() ==> (#[trigger] r.weight_names@[i])@ == weight_label(r.weights@[i]),
            r.font_weight == (if r.weights@.contains(font_weight) { font_weight } else { WEIGHT_NORMAL }),
            r.dim_font_weight == (if r.weights@.contains(dim_font_weight) { dim_font_weight } else { WEIGHT_NORMAL }),
            r.bold_font_weight == (if r.weights@.contains(bold_font_weight) { bold_font_weight } else { WEIGHT_BOLD }),
            settles_to(
                self@,
                font_name@,
                font_stretch,
                typed_stretch,
                font_weight,
                dim_font_weight,
                bold_font_weight,
                (r.font_name@, r.font_stretch, r.font_weight, r.dim_font_weight, r.bold_font_weight),
            ),
            forall|n: Seq<char>| #[trigger] self@.contains_key(n) ==> has_fallback_faces(self@[n]),
            stretches_of(self@[r.font_name@]).contains(STRETCH_NORMAL),
            r.stretches@.contains(STRETCH_NORMAL),
            weights_at(self@[r.font_name@], STRETCH_NORMAL).contains(WEIGHT_NORMAL),
            weights_at(self@[r.font_name@], STRETCH_NORMAL).contains(WEIGHT_BOLD),
    {
        proof {
            use_type_invariant(self);
        }
        let e = &self.entries;
        let mut idx: usize = 0;
        let mut found = false;
        while idx < e.len() && !found
            invariant
                names_increasing(e@),
                idx <= e@.len(),
                found ==> idx < e@.len() && e@[idx as int].0@ == font_name@,
                !found ==> forall|k: int| 0 <= k < idx ==> e@[k].0@ != font_name@,
            decreases e@.len() - idx + (if found { 0int } else { 1int }),
        {
            if text_eq(e[idx].0.as_str(), font_name.as_str()) {
                found = true;
            } else {
                idx = idx + 1;
            }
        }
        if !found {
            proof {
                assert(!self@.contains_key(font_name@)) by {
                    if self@.contains_key(font_name@) {
                        let k = font_index(e@, font_name@);
                    }
                }
                if e@.len() == 0 {
                    assert(self@.dom() =~= Set::<Seq<char>>::empty());
                }
            }
            idx = 0;
        } else {
            proof {
                lemma_font_lookup(e@, idx as int);
            }
        }
        let name = e[idx].0.clone();
        let styles = &e[idx].1;
        proof {
            lemma_font_lookup(e@, idx as int);
            if !found {
                assert forall|n: Seq<char>| #[trigger] self@.contains_key(n) implies !text_lt(n, name@) by {
                    let k = font_index(e@, n);
                    if k > 0 {
                        assert(text_lt(e@[0].0@, e@[k].0@));
                        if text_lt(n, name@) {
                            lemma_text_lt_transitive(e@[0].0@, n, name@);
                            lemma_text_lt_irreflexive(name@);
                        }
                    } else {
                        lemma_text_lt_irreflexive(name@);
                    }
                }
            }
        }
        let stretches = font_stretches(styles);
        let stretch_names = stretch_names_of(&stretches);
        proof {
            assert(has_fallback_faces(styles@));
            let normal = FaceStyle { weight: WEIGHT_NORMAL, stretch: STRETCH_NORMAL };
            let bold = FaceStyle { weight: WEIGHT_BOLD, stretch: STRETCH_NORMAL };
            let kn = choose|k: int| 0 <= k < styles@.len() && styles@[k] == normal;
            let kb = choose|k: int| 0 <= k < styles@.len() && styles@[k] == bold;
            assert(styles@[kn].stretch == STRETCH_NORMAL && styles@[kn].weight == WEIGHT_NORMAL);
            assert(styles@[kb].stretch == STRETCH_NORMAL && styles@[kb].weight == WEIGHT_BOLD);
            assert(stretches_of(styles@).contains(STRETCH_NORMAL));
            assert(stretches@.to_set().contains(STRETCH_NORMAL));
            assert(weights_at(styles@, STRETCH_NORMAL).contains(WEIGHT_NORMAL));
            assert(weights_at(styles@, STRETCH_NORMAL).contains(WEIGHT_BOLD));
        }
        let mut font_stretch = font_stretch;
        let mut stretch = typed_stretch;
        if !contains_u16(&stretches, typed_stretch) {
            font_stretch = STRETCH_NORMAL;
            stretch = STRETCH_NORMAL;
        }
        let mut weights = font_weights(styles, stretch);
        proof {
            assert(has_fallback_faces(styles@));
            let normal = FaceStyle { weight: WEIGHT_NORMAL, stretch: STRETCH_NORMAL };
            if stretch == typed_stretch && stretches@.contains(typed_stretch) {
                assert(stretches@.to_set().contains(typed_stretch));
                let k = choose|k: int| 0 <= k < styles@.len() && #[trigger] styles@[k].stretch == typed_stretch;
                assert(weights_at(styles@, stretch).contains(styles@[k].weight));
            } else {
                let k = choose|k: int| 0 <= k < styles@.len() && styles@[k] == normal;
                assert(weights_at(styles@, stretch).contains(styles@[k].weight));
            }
            if weights@.len() == 0 {
                assert(weights@.to_set() =~= Set::<u16>::empty());
            }
            assert(stretches@.contains(typed_stretch) == stretches_of(styles@).contains(typed_stretch)) by {
                if stretches_of(styles@).contains(typed_stretch) {
                    assert(stretches@.to_set().contains(typed_stretch));
                }
            }
        }
        if weights.len() == 0 {
            font_stretch = STRETCH_NORMAL;
            weights = font_weights(styles, STRETCH_NORMAL);
        }
        let weight_names = weight_names_of(&weights);
        let font_weight = if contains_u16(&weights, font_weight) {
            font_weight
        } else {
            WEIGHT_NORMAL
        };
        let dim_font_weight = if contains_u16(&weights, dim_font_weight) {
            dim_font_weight
        } else {
            WEIGHT_NORMAL
        };
        let bold_font_weight = if contains_u16(&weights, bold_font_weight) {
            bold_font_weight
        } else {
            WEIGHT_BOLD
        };
        FontSelection {
            font_name: name,
            font_name_replaced: !found,
            stretches,
            stretch_names,
            weights,
            weight_names,
            font_stretch,
            font_weight,
            dim_font_weight,
            bold_font_weight,
        }
    }
}

/// Every offered font has the normal stretch with the regular and the bold
/// weight, so falling back to those never picks a style the font lacks.
pub proof fn lemma_offered_fonts_have_fallbacks(faces: Seq<FontFace>, name: Seq<char>)
    requires
        offered_fonts(faces).contains_key(name),
    ensures
        stretches_of(offered_fonts(faces)[name]).contains(STRETCH_NORMAL),
        weights_at(offered_fonts(faces)[name], STRETCH_NORMAL).contains(WEIGHT_NORMAL),
        weights_at(offered_fonts(faces)[name], STRETCH_NORMAL).contains(WEIGHT_BOLD),
{
    let styles = offered_fonts(faces)[name];
    assert(has_fallback_faces(styles));
    let n = choose|k: int| 0 <= k < styles.len() && styles[k] == FaceStyle { weight: WEIGHT_NORMAL, stretch: STRETCH_NORMAL };
    let b = choose|k: int| 0 <= k < styles.len() && styles[k] == FaceStyle { weight: WEIGHT_BOLD, stretch: STRETCH_NORMAL };
    assert(styles[n].stretch == STRETCH_NORMAL);
    assert(styles[b].stretch == STRETCH_NORMAL && styles[b].weight == WEIGHT_BOLD);
}

/// The faces offered for terminal text are exactly the monospaced faces of a
/// named weight: a multiple of 100 from 100 (thin) to 900 (black).
pub proof fn lemma_eligible_weights(f: FontFace)
    ensures
        eligible(f) <==> (f.monospaced && f.weight % 100 == 0 && 100 <= f.weight <= 900),
{
}

proof fn lemma_groups_hold_face(faces: Seq<FontFace>, i: int)
    requires
        0 <= i < faces.len(),
        eligible(faces[i]),
    ensures
        font_groups(faces).contains_key(face_name(faces[i])),
        font_groups(faces)[face_name(faces[i])].contains(
            FaceStyle { weight: faces[i].weight, stretch: faces[i].stretch },
        ),
    decreases faces.len(),
{
    let f = faces[i];
    let st = FaceStyle { weight: f.weight, stretch: f.stretch };
    let prev = faces.drop_last();
    let m = font_groups(prev);
    if i == faces.len() - 1 {
        let styles = if m.contains_key(face_name(f)) {
            m[face_name(f)]
        } else {
            Seq::<FaceStyle>::empty()
        };
        assert(styles.push(st)[styles.len() as int] == st);
    } else {
        assert(prev[i] == f);
        lemma_groups_hold_face(prev, i);
        let g = faces.last();
        if eligible(g) && face_name(g) == face_name(f) {
            let styles = m[face_name(f)];
            let k = choose|k: int| 0 <= k < styles.len() && styles[k] == st;
            assert(styles.push(FaceStyle { weight: g.weight, stretch: g.stretch })[k] == st);
        }
    }
}

/// Every monospaced face of a named weight (100 to 900) belonging to an
/// offered font is among that font's faces: its weight is offered at its
/// stretch, so a thin or a black face is offered like any other.
pub proof fn lemma_offered_font_lists_its_faces(faces: Seq<FontFace>, i: int)
    requires
        0 <= i < faces.len(),
        faces[i].monospaced,
        faces[i].weight % 100 == 0,
        100 <= faces[i].weight <= 900,
        offered_fonts(faces).contains_key(face_name(faces[i])),
    ensures
        weights_at(offered_fonts(faces)[face_name(faces[i])], faces[i].stretch).contains(
            faces[i].weight,
        ),
{
    lemma_eligible_weights(faces[i]);
    lemma_groups_hold_face(faces, i);
    let styles = offered_fonts(faces)[face_name(faces[i])];
    let st = FaceStyle { weight: faces[i].weight, stretch: faces[i].stretch };
    assert(styles == font_groups(faces)[face_name(faces[i])]);
    let k = choose|k: int| 0 <= k < styles.len() && styles[k] == st;
    assert(styles[k].stretch == faces[i].stretch && styles[k].weight == faces[i].weight);
}

} // verus!
