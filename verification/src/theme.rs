//! The theme model: a named mapping from style-key strings (dot-namespaced,
//! such as `editor.background`) to colors, a pairwise theme interpolation,
//! and the construction of a theme from flattened key/hex-text pairs.
//!
//! A theme's mathematical value is a `Map<Seq<char>, Color>`; the entries
//! are held in a vector with pairwise distinct keys.

use vstd::prelude::*;

use crate::color::{
    channel_between, lemma_lerp_between, lerp_color, spec_clamp, spec_lerp_color,
    spec_parse_color, valid_hex_color, Color, ColorParseError,
};

verus! {

/// The style-key-to-color mapping of a theme. Keys are unique; insertion
/// order carries no meaning — the value of the mapping is its [`View`].
pub struct InterpolatableTheme {
    pub entries: Vec<(String, Color)>,
}

/// A theme as the consumer sees it: the mapping plus a display name (the
/// name is not used by the scheduling logic).
pub struct Theme {
    pub name: String,
    pub interpolatable_theme: InterpolatableTheme,
}

/// The mapping an entry list stands for: later entries win.
pub open spec fn entries_map(s: Seq<(String, Color)>) -> Map<Seq<char>, Color>
    decreases s.len(),
{
    if s.len() == 0 {
        Map::empty()
    } else {
        entries_map(s.drop_last()).insert(s.last().0@, s.last().1)
    }
}

pub open spec fn unique_keys(s: Seq<(String, Color)>) -> bool {
    forall|i: int, j: int| 0 <= i < j < s.len() ==> s[i].0@ != s[j].0@
}

impl View for InterpolatableTheme {
    type V = Map<Seq<char>, Color>;

    open spec fn view(&self) -> Map<Seq<char>, Color> {
        entries_map(self.entries@)
    }
}

impl InterpolatableTheme {
    /// Well-formedness: keys pairwise distinct, every color well-formed.
    pub open spec fn wf(self) -> bool {
        &&& unique_keys(self.entries@)
        &&& forall|i: int|
            0 <= i < self.entries@.len() ==> (#[trigger] self.entries@[i]).1.wf()
    }

    /// An empty mapping.
    pub fn new() -> (t: InterpolatableTheme)
        ensures
            t.wf(),
            t@ == Map::<Seq<char>, Color>::empty(),
            t.entries@.len() == 0,
    {
        InterpolatableTheme { entries: Vec::new() }
    }
}

/// A key of the entry list is a key of its mapping, and the other way
/// round.
pub proof fn lemma_entries_map_contains(s: Seq<(String, Color)>, k: Seq<char>)
    ensures
        entries_map(s).contains_key(k) <==> exists|i: int|
            0 <= i < s.len() && (#[trigger] s[i]).0@ == k,
    decreases s.len(),
{
    if s.len() > 0 {
        lemma_entries_map_contains(s.drop_last(), k);
        if s.last().0@ == k {
            assert(s[s.len() - 1].0@ == k);
        } else if entries_map(s).contains_key(k) {
            let i = choose|i: int| 0 <= i < s.drop_last().len() && (#[trigger] s.drop_last()[i]).0@
                == k;
            assert(s[i].0@ == k);
        } else if exists|i: int| 0 <= i < s.len() && (#[trigger] s[i]).0@ == k {
            let i = choose|i: int| 0 <= i < s.len() && (#[trigger] s[i]).0@ == k;
            assert(s.drop_last()[i].0@ == k);
        }
    }
}

/// With unique keys, the mapping sends each entry's key to that entry's
/// color.
pub proof fn lemma_entries_map_index(s: Seq<(String, Color)>, i: int)
    requires
        unique_keys(s),
        0 <= i < s.len(),
    ensures
        entries_map(s).contains_key(s[i].0@),
        entries_map(s)[s[i].0@] == s[i].1,
    decreases s.len(),
{
    if i == s.len() - 1 {
    } else {
        lemma_entries_map_index(s.drop_last(), i);
        assert(s.drop_last()[i] == s[i]);
        assert(s.last().0@ != s[i].0@);
    }
}

/// Entry lists equal key-by-key and color-by-color stand for the same
/// mapping.
proof fn lemma_entries_map_congruent(s1: Seq<(String, Color)>, s2: Seq<(String, Color)>)
    requires
        s1.len() == s2.len(),
        forall|i: int|
            0 <= i < s1.len() ==> (#[trigger] s1[i]).0@ == s2[i].0@ && s1[i].1 == s2[i].1,
    ensures
        entries_map(s1) == entries_map(s2),
    decreases s1.len(),
{
    if s1.len() > 0 {
        lemma_entries_map_congruent(s1.drop_last(), s2.drop_last());
        assert(entries_map(s1) =~= entries_map(s2));
    }
}

impl InterpolatableTheme {
    /// Look a style key up; `None` exactly when the key is absent.
    pub fn get(&self, key: &String) -> (r: Option<Color>)
        requires
            self.wf(),
        ensures
            r is Some <==> self@.contains_key(key@),
            self@.contains_key(key@) ==> r == Some(self@[key@]),
    {
        proof {
            lemma_entries_map_contains(self.entries@, key@);
        }
        let n = self.entries.len();
        let mut idx: usize = 0;
        while idx < n
            invariant
                0 <= idx <= n,
                n == self.entries@.len(),
                self.wf(),
                forall|j: int| 0 <= j < idx ==> (#[trigger] self.entries@[j]).0@ != key@,
            decreases n - idx,
        {
            if self.entries[idx].0 == *key {
                proof {
                    lemma_entries_map_index(self.entries@, idx as int);
                }
                return Some(self.entries[idx].1);
            }
            idx = idx + 1;
        }
        proof {
            lemma_entries_map_contains(self.entries@, key@);
        }
        None
    }

    /// Insert a color under a style key, replacing any earlier color held
    /// under the same key.
    pub fn insert(&mut self, key: String, color: Color)
        requires
            old(self).wf(),
            color.wf(),
        ensures
            final(self).wf(),
            final(self)@ == old(self)@.insert(key@, color),
    {
        let ghost s0 = self.entries@;
        proof {
            lemma_entries_map_contains(s0, key@);
        }
        let n = self.entries.len();
        let mut idx: usize = 0;
        while idx < n
            invariant
                0 <= idx <= n,
                n == self.entries@.len(),
                self.entries@ == s0,
                unique_keys(s0),
                old(self)@ == entries_map(s0),
                color.wf(),
                forall|i: int| 0 <= i < s0.len() ==> (#[trigger] s0[i]).1.wf(),
                forall|j: int| 0 <= j < idx ==> (#[trigger] s0[j]).0@ != key@,
            decreases n - idx,
        {
            if self.entries[idx].0 == key {
                let _old_entry = self.entries.remove(idx);
                self.entries.push((key, color));
                proof {
                    let s2 = self.entries@;
                    s0.remove_ensures(idx as int);
                    assert(s2.drop_last() =~= s0.remove(idx as int));
                    lemma_insert_after_remove(s0, idx as int, s2, color);
                    assert forall|i: int| 0 <= i < s2.len() implies (#[trigger] s2[i]).1.wf() by {
                        if i < idx {
                            assert(s2[i] == s0[i]);
                        } else if i < s2.len() - 1 {
                            assert(s2[i] == s0[i + 1]);
                        }
                    }
                }
                return ;
            }
            idx = idx + 1;
        }
        self.entries.push((key, color));
        proof {
            assert(self.entries@.drop_last() =~= s0);
            assert forall|i: int, j: int|
                0 <= i < j < self.entries@.len() implies (#[trigger] self.entries@[i]).0@ != (
            #[trigger] self.entries@[j]).0@ by {
                if j == self.entries@.len() - 1 {
                    assert(s0[i].0@ != key@);
                }
            }
        }
    }
}

/// Removing the one entry that held a key and appending a fresh entry for
/// it is, on mappings, a plain insert.
proof fn lemma_insert_after_remove(
    s0: Seq<(String, Color)>,
    idx: int,
    s2: Seq<(String, Color)>,
    color: Color,
)
    requires
        unique_keys(s0),
        0 <= idx < s0.len(),
        s2.len() == s0.len(),
        s2.drop_last() =~= s0.remove(idx),
        s2.last().0@ == s0[idx].0@,
        s2.last().1 == color,
    ensures
        unique_keys(s2),
        entries_map(s2) == entries_map(s0).insert(s0[idx].0@, color),
{
    let k = s0[idx].0@;
    let s1 = s0.remove(idx);
    s0.remove_ensures(idx);
    // Keys of the shortened list, and their uniqueness.
    assert forall|i: int| 0 <= i < s1.len() implies (#[trigger] s1[i]).0@ != k && exists|j: int|
        0 <= j < s0.len() && j != idx && s1[i].0@ == (#[trigger] s0[j]).0@ by {
        if i < idx {
            assert(s1[i] == s0[i]);
        } else {
            assert(s1[i] == s0[i + 1]);
        }
    }
    assert forall|i: int, j: int| 0 <= i < j < s1.len() implies (#[trigger] s1[i]).0@ != (
    #[trigger] s1[j]).0@ by {
        if j < idx {
        } else if i < idx {
            assert(s1[i] == s0[i] && s1[j] == s0[j + 1]);
        } else {
            assert(s1[i] == s0[i + 1] && s1[j] == s0[j + 1]);
        }
    }
    assert(unique_keys(s2)) by {
        assert forall|i: int, j: int| 0 <= i < j < s2.len() implies (#[trigger] s2[i]).0@ != (
        #[trigger] s2[j]).0@ by {
            if j < s2.len() - 1 {
                assert(s2[i] == s1[i] && s2[j] == s1[j]);
            } else {
                assert(s2[i] == s1[i]);
            }
        }
    }
    // The mapping: both sides agree on every key.
    lemma_entries_map_remove_absent(s0, idx);
    assert(entries_map(s2) =~= entries_map(s0).insert(k, color)) by {
        assert(entries_map(s2) == entries_map(s1).insert(k, color));
        lemma_entries_map_agree_outside(s0, s1, k);
    }
}

/// The mapping of `s.remove(idx)` agrees with the mapping of `s` on every
/// key other than `s[idx]`'s, and does not hold that key.
proof fn lemma_entries_map_remove_absent(s: Seq<(String, Color)>, idx: int)
    requires
        unique_keys(s),
        0 <= idx < s.len(),
    ensures
        !entries_map(s.remove(idx)).contains_key(s[idx].0@),
{
    let s1 = s.remove(idx);
    s.remove_ensures(idx);
    lemma_entries_map_contains(s1, s[idx].0@);
    assert forall|i: int| 0 <= i < s1.len() implies (#[trigger] s1[i]).0@ != s[idx].0@ by {
        if i < idx {
            assert(s1[i] == s[i]);
        } else {
            assert(s1[i] == s[i + 1]);
        }
    }
}

/// On every key other than `k`, the mappings of `s` and of `s.remove(idx)`
/// agree, where `k` is the removed entry's key.
proof fn lemma_entries_map_agree_outside(s: Seq<(String, Color)>, s1: Seq<(String, Color)>, k: Seq<char>)
    requires
        unique_keys(s),
        exists|idx: int| 0 <= idx < s.len() && (#[trigger] s[idx]).0@ == k && s1 =~= s.remove(idx),
    ensures
        forall|q: Seq<char>|
            q != k ==> #[trigger] entries_map(s1).contains_key(q) == entries_map(s).contains_key(
                q,
            ),
        forall|q: Seq<char>|
            q != k && entries_map(s).contains_key(q) ==> #[trigger] entries_map(s1)[q]
                == entries_map(s)[q],
{
    let idx = choose|idx: int|
        0 <= idx < s.len() && (#[trigger] s[idx]).0@ == k && s1 =~= s.remove(idx);
    s.remove_ensures(idx);
    assert forall|q: Seq<char>| q != k implies #[trigger] entries_map(s1).contains_key(q)
        == entries_map(s).contains_key(q) by {
        lemma_entries_map_contains(s1, q);
        lemma_entries_map_contains(s, q);
        if entries_map(s).contains_key(q) {
            let i = choose|i: int| 0 <= i < s.len() && (#[trigger] s[i]).0@ == q;
            if i < idx {
                assert(s1[i] == s[i]);
            } else {
                assert(s1[i - 1] == s[i]);
            }
        }
        if entries_map(s1).contains_key(q) {
            let i = choose|i: int| 0 <= i < s1.len() && (#[trigger] s1[i]).0@ == q;
            if i < idx {
                assert(s1[i] == s[i]);
            } else {
                assert(s1[i] == s[i + 1]);
            }
        }
    }
    assert forall|q: Seq<char>|
        q != k && entries_map(s).contains_key(q) implies #[trigger] entries_map(s1)[q]
        == entries_map(s)[q] by {
        lemma_entries_map_contains(s, q);
        let i = choose|i: int| 0 <= i < s.len() && (#[trigger] s[i]).0@ == q;
        lemma_entries_map_index(s, i);
        if i < idx {
            assert(s1[i] == s[i]);
            assert(unique_keys(s1)) by {
                lemma_remove_keeps_unique(s, idx);
            }
            lemma_entries_map_index(s1, i);
        } else {
            assert(s1[i - 1] == s[i]);
            assert(unique_keys(s1)) by {
                lemma_remove_keeps_unique(s, idx);
            }
            lemma_entries_map_index(s1, i - 1);
        }
    }
}

proof fn lemma_remove_keeps_unique(s: Seq<(String, Color)>, idx: int)
    requires
        unique_keys(s),
        0 <= idx < s.len(),
    ensures
        unique_keys(s.remove(idx)),
{
    let s1 = s.remove(idx);
    s.remove_ensures(idx);
    assert forall|i: int, j: int| 0 <= i < j < s1.len() implies (#[trigger] s1[i]).0@ != (
    #[trigger] s1[j]).0@ by {
        if j < idx {
        } else if i < idx {
            assert(s1[i] == s[i] && s1[j] == s[j + 1]);
        } else {
            assert(s1[i] == s[i + 1] && s1[j] == s[j + 1]);
        }
    }
}

/// Every color a well-formed theme holds is itself well-formed.
pub proof fn lemma_theme_colors_wf(t: InterpolatableTheme, k: Seq<char>)
    requires
        t.wf(),
        t@.contains_key(k),
    ensures
        t@[k].wf(),
{
    lemma_entries_map_contains(t.entries@, k);
    let i = choose|i: int| 0 <= i < t.entries@.len() && (#[trigger] t.entries@[i]).0@ == k;
    lemma_entries_map_index(t.entries@, i);
}

/// What one entry of the first theme becomes: interpolated against the
/// second theme's color when the key is shared, copied unchanged when not.
pub open spec fn spec_entry_color(e: (String, Color), b: Map<Seq<char>, Color>, t: int) -> Color {
    if b.contains_key(e.0@) {
        spec_lerp_color(e.1, b[e.0@], t)
    } else {
        e.1
    }
}

/// Theme interpolation on mappings: for every key of `a`, the color is
/// interpolated when `b` shares the key and copied unchanged when not.
/// Keys present only in `b` are not added to the result.
pub open spec fn spec_lerp_theme(
    a: Map<Seq<char>, Color>,
    b: Map<Seq<char>, Color>,
    t: int,
) -> Map<Seq<char>, Color> {
    Map::new(
        |k: Seq<char>| a.contains_key(k),
        |k: Seq<char>|
            if b.contains_key(k) {
                spec_lerp_color(a[k], b[k], t)
            } else {
                a[k]
            },
    )
}

/// Theme interpolation never introduces a key absent from the first theme,
/// and every key of the first theme is present in the result.
pub proof fn lemma_lerp_theme_keys(a: Map<Seq<char>, Color>, b: Map<Seq<char>, Color>, t: int)
    ensures
        spec_lerp_theme(a, b, t).dom() == a.dom(),
        forall|k: Seq<char>| #[trigger]
            spec_lerp_theme(a, b, t).contains_key(k) <==> a.contains_key(k),
{
    assert(spec_lerp_theme(a, b, t).dom() =~= a.dom());
}

/// On every key the two themes share, each hue, saturation, lightness and
/// alpha channel of the interpolated color lies between the two themes'
/// channels for that key.
pub proof fn lemma_lerp_theme_between(
    a: Map<Seq<char>, Color>,
    b: Map<Seq<char>, Color>,
    t: int,
    k: Seq<char>,
)
    requires
        a.contains_key(k),
        b.contains_key(k),
        a[k].wf(),
        b[k].wf(),
    ensures
        ({
            let r = spec_lerp_theme(a, b, t)[k];
            &&& channel_between(a[k].hsla.h as int, b[k].hsla.h as int, r.hsla.h as int)
            &&& channel_between(a[k].hsla.s as int, b[k].hsla.s as int, r.hsla.s as int)
            &&& channel_between(a[k].hsla.l as int, b[k].hsla.l as int, r.hsla.l as int)
            &&& channel_between(a[k].hsla.a as int, b[k].hsla.a as int, r.hsla.a as int)
        }),
{
    let tc = spec_clamp(t);
    lemma_lerp_between(a[k].hsla.h as int, b[k].hsla.h as int, tc);
    lemma_lerp_between(a[k].hsla.s as int, b[k].hsla.s as int, tc);
    lemma_lerp_between(a[k].hsla.l as int, b[k].hsla.l as int, tc);
    lemma_lerp_between(a[k].hsla.a as int, b[k].hsla.a as int, tc);
}

proof fn lemma_lerp_entries_map(
    sa: Seq<(String, Color)>,
    mb: Map<Seq<char>, Color>,
    sr: Seq<(String, Color)>,
    t: int,
)
    requires
        unique_keys(sa),
        sr.len() == sa.len(),
        forall|j: int| 0 <= j < sr.len() ==> (#[trigger] sr[j]).0@ == sa[j].0@,
        forall|j: int| 0 <= j < sr.len() ==> (#[trigger] sr[j]).1 == spec_entry_color(sa[j], mb, t),
    ensures
        unique_keys(sr),
        entries_map(sr) == spec_lerp_theme(entries_map(sa), mb, t),
{
    assert forall|i: int, j: int| 0 <= i < j < sr.len() implies (#[trigger] sr[i]).0@ != (
    #[trigger] sr[j]).0@ by {
        assert(sa[i].0@ != sa[j].0@);
    }
    let lhs = entries_map(sr);
    let rhs = spec_lerp_theme(entries_map(sa), mb, t);
    assert forall|k: Seq<char>| #[trigger] lhs.contains_key(k) == rhs.contains_key(k) by {
        lemma_entries_map_contains(sr, k);
        lemma_entries_map_contains(sa, k);
        if exists|i: int| 0 <= i < sr.len() && (#[trigger] sr[i]).0@ == k {
            let i = choose|i: int| 0 <= i < sr.len() && (#[trigger] sr[i]).0@ == k;
            assert(sa[i].0@ == k);
        }
        if exists|i: int| 0 <= i < sa.len() && (#[trigger] sa[i]).0@ == k {
            let i = choose|i: int| 0 <= i < sa.len() && (#[trigger] sa[i]).0@ == k;
            assert(sr[i].0@ == k);
        }
    }
    assert forall|k: Seq<char>| lhs.contains_key(k) implies #[trigger] lhs[k] == rhs[k] by {
        lemma_entries_map_contains(sr, k);
        let i = choose|i: int| 0 <= i < sr.len() && (#[trigger] sr[i]).0@ == k;
        lemma_entries_map_index(sr, i);
        lemma_entries_map_index(sa, i);
    }
    assert(lhs =~= rhs);
}

/// Interpolate two themes position-by-position: for every key of `a`, if
/// the same key exists in `b`, the colors are interpolated at (clamped) `t`;
/// if absent in `b`, `a`'s color is copied unchanged. Keys present only in
/// `b` are not added to the result.
pub fn lerp_theme(a: &InterpolatableTheme, b: &InterpolatableTheme, t: i64) -> (r:
    InterpolatableTheme)
    requires
        a.wf(),
        b.wf(),
    ensures
        r.wf(),
        r@ == spec_lerp_theme(a@, b@, t as int),
{
    let mut entries: Vec<(String, Color)> = Vec::new();
    let n = a.entries.len();
    let mut i: usize = 0;
    while i < n
        invariant
            0 <= i <= n,
            n == a.entries@.len(),
            a.wf(),
            b.wf(),
            entries@.len() == i,
            forall|j: int| 0 <= j < i ==> (#[trigger] entries@[j]).0@ == a.entries@[j].0@,
            forall|j: int|
                0 <= j < i ==> (#[trigger] entries@[j]).1 == spec_entry_color(
                    a.entries@[j],
                    b@,
                    t as int,
                ),
            forall|j: int| 0 <= j < i ==> (#[trigger] entries@[j]).1.wf(),
        decreases n - i,
    {
        let key = &a.entries[i].0;
        let ca = a.entries[i].1;
        let c = match b.get(key) {
            Some(cb) => {
                proof {
                    lemma_theme_colors_wf(*b, key@);
                }
                lerp_color(ca, cb, t)
            },
            None => ca,
        };
        entries.push((key.clone(), c));
        i = i + 1;
    }
    let r = InterpolatableTheme { entries };
    proof {
        lemma_lerp_entries_map(a.entries@, b@, r.entries@, t as int);
    }
    r
}

impl Clone for InterpolatableTheme {
    /// Cloning keeps the mapping exactly.
    fn clone(&self) -> (r: Self)
        ensures
            r@ == self@,
            r.entries@.len() == self.entries@.len(),
            self.wf() ==> r.wf(),
    {
        let mut entries: Vec<(String, Color)> = Vec::new();
        let n = self.entries.len();
        let mut i: usize = 0;
        while i < n
            invariant
                0 <= i <= n,
                n == self.entries@.len(),
                entries@.len() == i,
                forall|j: int| 0 <= j < i ==> (#[trigger] entries@[j]).0@ == self.entries@[j].0@,
                forall|j: int| 0 <= j < i ==> (#[trigger] entries@[j]).1 == self.entries@[j].1,
            decreases n - i,
        {
            entries.push((self.entries[i].0.clone(), self.entries[i].1));
            i = i + 1;
        }
        let r = InterpolatableTheme { entries };
        proof {
            lemma_entries_map_congruent(r.entries@, self.entries@);
        }
        r
    }
}

impl Theme {
    pub open spec fn wf(self) -> bool {
        self.interpolatable_theme.wf()
    }
}

impl Clone for Theme {
    /// Cloning keeps the name and the mapping exactly.
    fn clone(&self) -> (r: Self)
        ensures
            r.name@ == self.name@,
            r.interpolatable_theme@ == self.interpolatable_theme@,
            self.wf() ==> r.wf(),
    {
        Theme { name: self.name.clone(), interpolatable_theme: self.interpolatable_theme.clone() }
    }
}

/// The mapping after inserting, in order, every pair whose text is a valid
/// hexadecimal color; a pair whose text is not is skipped, and the theme
/// proceeds without that key.
pub open spec fn spec_insert_hex_colors(
    m: Map<Seq<char>, Color>,
    pairs: Seq<(String, String)>,
) -> Map<Seq<char>, Color>
    decreases pairs.len(),
{
    if pairs.len() == 0 {
        m
    } else {
        let rest = spec_insert_hex_colors(m, pairs.drop_last());
        if valid_hex_color(pairs.last().1@) {
            rest.insert(pairs.last().0@, spec_parse_color(pairs.last().1@))
        } else {
            rest
        }
    }
}

/// Fill a theme from flattened (style key, hexadecimal text) pairs: each
/// valid color text is parsed and inserted under its key; malformed color
/// text is recovered from locally by skipping that key alone, never by
/// failing the whole load.
pub fn insert_hex_colors(theme: &mut InterpolatableTheme, pairs: &Vec<(String, String)>)
    requires
        old(theme).wf(),
    ensures
        final(theme).wf(),
        final(theme)@ == spec_insert_hex_colors(old(theme)@, pairs@),
{
    let n = pairs.len();
    let mut i: usize = 0;
    while i < n
        invariant
            0 <= i <= n,
            n == pairs@.len(),
            theme.wf(),
            theme@ == spec_insert_hex_colors(old(theme)@, pairs@.take(i as int)),
        decreases n - i,
    {
        proof {
            assert(pairs@.take(i + 1).drop_last() =~= pairs@.take(i as int));
            assert(pairs@.take(i + 1).last() == pairs@[i as int]);
        }
        match Color::from_str(pairs[i].1.as_str()) {
            Ok(c) => {
                theme.insert(pairs[i].0.clone(), c);
            },
            Err(_e) => {
            },
        }
        i = i + 1;
    }
    proof {
        assert(pairs@.take(n as int) =~= pairs@);
    }
}

} // verus!
