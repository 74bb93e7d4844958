//! Conversion profiles and the ordered map that holds them by identifier.
//!
//! The map keeps its entries sorted by identifier, in the lexicographic order
//! of the identifiers' characters (the order of `String`'s `Ord`), and never
//! holds an identifier twice.
use vstd::prelude::*;
use crate::text::{chars_eq, chars_of, copy_strings};

verus! {

/// An accelerated video encoder family.
#[derive(Clone, Copy, Debug, PartialEq, Eq, Structural)]
pub enum HardwareBackend {
    Vaapi,
    Nvenc,
}

pub open spec fn backend_label(b: HardwareBackend) -> Seq<char> {
    match b {
        HardwareBackend::Vaapi => "VAAPI"@,
        HardwareBackend::Nvenc => "NVENC"@,
    }
}

impl HardwareBackend {
    /// The name under which the backend is reported.
    pub fn label(&self) -> (r: &'static str)
        ensures
            r@ == backend_label(*self),
    {
        match self {
            HardwareBackend::Vaapi => "VAAPI",
            HardwareBackend::Nvenc => "NVENC",
        }
    }
}

/// One conversion recipe.
#[derive(Debug)]
pub struct Profile {
    pub label: String,
    pub category: String,
    pub engine: String,
    pub extension: String,
    pub suffix: String,
    pub args: Vec<String>,
    pub target_size_mb: Option<u64>,
    pub target_audio_bitrate_kbps: u32,
    pub hardware: Option<HardwareBackend>,
    pub fallback_args: Vec<String>,
}

pub struct ProfileView {
    pub label: Seq<char>,
    pub category: Seq<char>,
    pub engine: Seq<char>,
    pub extension: Seq<char>,
    pub suffix: Seq<char>,
    pub args: Seq<Seq<char>>,
    pub target_size_mb: Option<u64>,
    pub target_audio_bitrate_kbps: u32,
    pub hardware: Option<HardwareBackend>,
    pub fallback_args: Seq<Seq<char>>,
}

impl View for Profile {
    type V = ProfileView;

    open spec fn view(&self) -> ProfileView {
        ProfileView {
            label: self.label@,
            category: self.category@,
            engine: self.engine@,
            extension: self.extension@,
            suffix: self.suffix@,
            args: self.args.deep_view(),
            target_size_mb: self.target_size_mb,
            target_audio_bitrate_kbps: self.target_audio_bitrate_kbps,
            hardware: self.hardware,
            fallback_args: self.fallback_args.deep_view(),
        }
    }
}

impl Profile {
    /// A field-by-field copy.
    pub fn copied(&self) -> (r: Profile)
        ensures
            r@ == self@,
    {
        Profile {
            label: self.label.clone(),
            category: self.category.clone(),
            engine: self.engine.clone(),
            extension: self.extension.clone(),
            suffix: self.suffix.clone(),
            args: copy_strings(&self.args),
            target_size_mb: self.target_size_mb,
            target_audio_bitrate_kbps: self.target_audio_bitrate_kbps,
            hardware: self.hardware,
            fallback_args: copy_strings(&self.fallback_args),
        }
    }
}

/// Strict lexicographic order of character sequences, by code point.
pub open spec fn key_lt(a: Seq<char>, b: Seq<char>) -> bool
    decreases a.len(),
{
    if a.len() == 0 {
        b.len() > 0
    } else if b.len() == 0 {
        false
    } else if a[0] != b[0] {
        (a[0] as u32) < (b[0] as u32)
    } else {
        key_lt(a.drop_first(), b.drop_first())
    }
}

pub proof fn lemma_key_lt_irreflexive(a: Seq<char>)
    ensures
        !key_lt(a, a),
    decreases a.len(),
{
    if a.len() > 0 {
        lemma_key_lt_irreflexive(a.drop_first());
    }
}

pub proof fn lemma_key_lt_transitive(a: Seq<char>, b: Seq<char>, c: Seq<char>)
    requires
        key_lt(a, b),
        key_lt(b, c),
    ensures
        key_lt(a, c),
    decreases a.len(),
{
    if a.len() > 0 && b.len() > 0 && c.len() > 0 && a[0] == b[0] && b[0] == c[0] {
        lemma_key_lt_transitive(a.drop_first(), b.drop_first(), c.drop_first());
    }
}

pub proof fn lemma_key_lt_total(a: Seq<char>, b: Seq<char>)
    ensures
        a == b || key_lt(a, b) || key_lt(b, a),
    decreases a.len(),
{
    if a.len() > 0 && b.len() > 0 {
        if a[0] == b[0] {
            lemma_key_lt_total(a.drop_first(), b.drop_first());
            if a.drop_first() == b.drop_first() {
                assert(a =~= seq![a[0]] + a.drop_first());
                assert(b =~= seq![b[0]] + b.drop_first());
            }
        } else {
            let x = a[0] as u32;
            let y = b[0] as u32;
            assert(x != y) by {
                if x == y {
                    vstd::utf8::char_u32_cast(a[0], x);
                    vstd::utf8::char_u32_cast(b[0], y);
                }
            }
        }
    } else if a.len() == 0 && b.len() == 0 {
        assert(a =~= b);
    }
}

/// The identifiers of an entry sequence, in order.
pub open spec fn entry_keys(e: Seq<(Seq<char>, ProfileView)>) -> Seq<Seq<char>> {
    e.map_values(|x: (Seq<char>, ProfileView)| x.0)
}

/// Entries in strictly increasing identifier order (so no identifier twice).
pub open spec fn sorted_entries(e: Seq<(Seq<char>, ProfileView)>) -> bool {
    forall|i: int, j: int| 0 <= i < j < e.len() ==> key_lt(#[trigger] e[i].0, #[trigger] e[j].0)
}

pub open spec fn has_key(e: Seq<(Seq<char>, ProfileView)>, k: Seq<char>) -> bool {
    exists|i: int| 0 <= i < e.len() && #[trigger] e[i].0 == k
}

/// The map from identifier to profile that an entry sequence holds.
pub open spec fn entries_map(e: Seq<(Seq<char>, ProfileView)>) -> Map<Seq<char>, ProfileView> {
    Map::new(|k: Seq<char>| has_key(e, k), |k: Seq<char>| e[index_of_key(e, k)].1)
}

/// An index at which the identifier occurs (any, where it occurs twice).
pub open spec fn index_of_key(e: Seq<(Seq<char>, ProfileView)>, k: Seq<char>) -> int {
    choose|i: int| 0 <= i < e.len() && #[trigger] e[i].0 == k
}

pub proof fn lemma_sorted_unique(e: Seq<(Seq<char>, ProfileView)>, i: int, j: int)
    requires
        sorted_entries(e),
        0 <= i < e.len(),
        0 <= j < e.len(),
        e[i].0 == e[j].0,
    ensures
        i == j,
{
    if i < j {
        lemma_key_lt_irreflexive(e[i].0);
    } else if j < i {
        lemma_key_lt_irreflexive(e[i].0);
    }
}

/// In sorted entries, the map sends the identifier of an entry to its profile.
pub proof fn lemma_entries_map_at(e: Seq<(Seq<char>, ProfileView)>, i: int)
    requires
        sorted_entries(e),
        0 <= i < e.len(),
    ensures
        entries_map(e).contains_key(e[i].0),
        entries_map(e)[e[i].0] == e[i].1,
{
    let k = e[i].0;
    assert(has_key(e, k));
    let j = index_of_key(e, k);
    lemma_sorted_unique(e, i, j);
    assert(entries_map(e).dom().contains(k));
}

/// Profiles by identifier, kept sorted by identifier.
#[derive(Debug)]
pub struct ProfileMap {
    entries: Vec<(String, Profile)>,
}

pub open spec fn entry_view(e: (String, Profile)) -> (Seq<char>, ProfileView) {
    (e.0@, e.1@)
}

impl View for ProfileMap {
    type V = Seq<(Seq<char>, ProfileView)>;

    closed spec fn view(&self) -> Seq<(Seq<char>, ProfileView)> {
        self.entries@.map_values(|e: (String, Profile)| entry_view(e))
    }
}

impl ProfileMap {
    #[verifier::type_invariant]
    pub open spec fn sorted(self) -> bool {
        sorted_entries(self@)
    }

    /// The profiles as a map from identifier.
    pub open spec fn map(self) -> Map<Seq<char>, ProfileView> {
        entries_map(self@)
    }

    /// An empty map.
    pub fn new() -> (m: ProfileMap)
        ensures
            m@ == Seq::<(Seq<char>, ProfileView)>::empty(),
    {
        let m = ProfileMap { entries: Vec::new() };
        assert(m@ =~= Seq::<(Seq<char>, ProfileView)>::empty());
        m
    }

    pub fn len(&self) -> (n: usize)
        ensures
            n == self@.len(),
    {
        self.entries.len()
    }

    /// The identifier of the entry at `i` (in identifier order).
    pub fn key_at(&self, i: usize) -> (k: &String)
        requires
            i < self@.len(),
        ensures
            k@ == self@[i as int].0,
    {
        &self.entries[i].0
    }

    /// The profile of the entry at `i` (in identifier order).
    pub fn profile_at(&self, i: usize) -> (p: &Profile)
        requires
            i < self@.len(),
        ensures
            p@ == self@[i as int].1,
    {
        &self.entries[i].1
    }

    /// All identifiers, in order.
    pub fn ids(&self) -> (out: Vec<String>)
        ensures
            out.deep_view() == entry_keys(self@),
    {
        let mut out: Vec<String> = Vec::new();
        let mut i: usize = 0;
        while i < self.entries.len()
            invariant
                i <= self@.len(),
                self@.len() == self.entries@.len(),
                self@ == self.entries@.map_values(|e: (String, Profile)| entry_view(e)),
                out@.len() == i,
                forall|j: int| 0 <= j < i ==> (#[trigger] out@[j])@ == self@[j].0,
            decreases self.entries.len() - i,
        {
            let k = self.entries[i].0.clone();
            assert(k@ == self@[i as int].0);
            out.push(k);
            i = i + 1;
        }
        assert(out.deep_view() =~= entry_keys(self@));
        out
    }

    /// The first index whose identifier is not below `key`, and whether it equals `key`.
    fn position(&self, key: &Vec<char>) -> (r: (bool, usize))
        ensures
            r.1 <= self@.len(),
            forall|j: int| 0 <= j < r.1 ==> key_lt(#[trigger] self@[j].0, key@),
            forall|j: int| r.1 <= j < self@.len() ==> #[trigger] self@[j].0 == key@ || key_lt(
                key@,
                self@[j].0,
            ),
            r.0 == (r.1 < self@.len() && self@[r.1 as int].0 == key@),
            r.0 == has_key(self@, key@),
    {
        proof {
            use_type_invariant(self);
        }
        let mut i: usize = 0;
        while i < self.entries.len()
            invariant
                i <= self@.len(),
                self@.len() == self.entries@.len(),
                sorted_entries(self@),
                forall|j: int| 0 <= j < i ==> key_lt(#[trigger] self@[j].0, key@),
            decreases self.entries.len() - i,
        {
            let k = chars_of(self.entries[i].0.as_str());
            assert(k@ == self@[i as int].0);
            if !key_less(&k, key) {
                proof {
                    lemma_key_lt_total(k@, key@);
                    assert forall|j: int| i <= j < self@.len() implies #[trigger] self@[j].0
                        == key@ || key_lt(key@, self@[j].0) by {
                        if j > i {
                            if k@ == key@ {
                                assert(key_lt(self@[i as int].0, self@[j].0));
                            } else {
                                lemma_key_lt_transitive(key@, k@, self@[j].0);
                            }
                        }
                    }
                    if !(k@ == key@) {
                        assert forall|j: int| 0 <= j < self@.len() implies #[trigger] self@[j].0
                            != key@ by {
                            if j < i {
                                lemma_key_lt_irreflexive(key@);
                            } else if j > i {
                                lemma_key_lt_transitive(key@, k@, self@[j].0);
                                lemma_key_lt_irreflexive(key@);
                            } else {
                            }
                        }
                    } else {
                        assert(self@[i as int].0 == key@);
                    }
                }
                let eq = chars_eq(&k, key);
                return (eq, i);
            }
            i = i + 1;
        }
        proof {
            assert forall|j: int| 0 <= j < self@.len() implies #[trigger] self@[j].0 != key@ by {
                lemma_key_lt_irreflexive(key@);
            }
        }
        (false, i)
    }

    /// Whether a profile has this identifier.
    pub fn contains_key(&self, key: &str) -> (r: bool)
        ensures
            r == self.map().contains_key(key@),
    {
        let k = chars_of(key);
        let (found, _) = self.position(&k);
        found
    }

    /// The profile with this identifier.
    pub fn get(&self, key: &str) -> (r: Option<&Profile>)
        ensures
            match r {
                Some(p) => self.map().contains_key(key@) && p@ == self.map()[key@],
                None => !self.map().contains_key(key@),
            },
    {
        proof {
            use_type_invariant(self);
        }
        let k = chars_of(key);
        let (found, i) = self.position(&k);
        if found {
            proof {
                lemma_entries_map_at(self@, i as int);
            }
            Some(&self.entries[i].1)
        } else {
            None
        }
    }

    /// Sets the profile of an identifier, in place of any earlier one.
    pub fn insert(&mut self, key: String, profile: Profile)
        ensures
            final(self).map() == old(self).map().insert(key@, profile@),
    {
        proof {
            use_type_invariant(&*self);
        }
        let k = chars_of(key.as_str());
        let (found, i) = self.position(&k);
        let ghost old_view = self@;
        let mut entries: Vec<(String, Profile)> = Vec::new();
        std::mem::swap(&mut entries, &mut self.entries);
        assert(entries@.map_values(|e: (String, Profile)| entry_view(e)) == old_view);
        let ghost kv = key@;
        let ghost pv = profile@;
        if found {
            entries.set(i, (key, profile));
        } else {
            entries.insert(i, (key, profile));
        }
        let ghost nv = entries@.map_values(|e: (String, Profile)| entry_view(e));
        proof {
            if found {
                assert(nv =~= old_view.update(i as int, (kv, pv)));
            } else {
                assert(nv =~= old_view.insert(i as int, (kv, pv)));
            }
            assert forall|a: int, b: int| 0 <= a < b < nv.len() implies key_lt(
                #[trigger] nv[a].0,
                #[trigger] nv[b].0,
            ) by {
                if found {
                    if a == i {
                        lemma_key_lt_total(kv, old_view[b].0);
                    }
                } else {
                    if b < i {
                    } else if a < i && b == i {
                    } else if a < i && b > i {
                        assert(nv[b] == old_view[b - 1]);
                    } else if a == i {
                        assert(nv[b] == old_view[b - 1]);
                        if b - 1 > i {
                            assert(old_view[i as int].0 == kv || key_lt(kv, old_view[i as int].0));
                        }
                    } else {
                        assert(nv[a] == old_view[a - 1]);
                        assert(nv[b] == old_view[b - 1]);
                    }
                }
            }
            assert(sorted_entries(nv));
            assert(entries_map(nv) =~= entries_map(old_view).insert(kv, pv)) by {
                assert forall|q: Seq<char>| #[trigger] has_key(nv, q) == (has_key(old_view, q)
                    || q == kv) by {
                    if has_key(nv, q) {
                        let j = choose|j: int| 0 <= j < nv.len() && #[trigger] nv[j].0 == q;
                        if q != kv {
                            if found {
                                assert(old_view[j].0 == q);
                            } else if j < i {
                                assert(old_view[j].0 == q);
                            } else {
                                assert(old_view[j - 1].0 == q);
                            }
                        }
                    }
                    if q == kv {
                        assert(nv[i as int].0 == kv);
                    }
                    if has_key(old_view, q) {
                        let j = choose|j: int| 0 <= j < old_view.len() && #[trigger] old_view[j].0
                            == q;
                        if found || j < i {
                            if !(found && j == i) {
                                assert(nv[j].0 == q);
                            } else {
                                assert(nv[i as int].0 == kv);
                            }
                        } else {
                            assert(nv[j + 1].0 == q);
                        }
                    }
                }
                assert forall|q: Seq<char>| #[trigger] entries_map(nv).contains_key(q) implies
                    entries_map(nv)[q] == entries_map(old_view).insert(kv, pv)[q] by {
                    let j = choose|j: int| 0 <= j < nv.len() && #[trigger] nv[j].0 == q;
                    lemma_entries_map_at(nv, j);
                    if q == kv {
                        lemma_sorted_unique(nv, j, i as int);
                    } else {
                        let oj = if found || j < i { j } else { j - 1 };
                        assert(old_view[oj] == nv[j]);
                        lemma_entries_map_at(old_view, oj);
                    }
                }
            }
        }
        self.entries = entries;
    }

    /// Adds the profile only where no profile has that identifier yet.
    pub fn insert_if_absent(&mut self, key: String, profile: Profile)
        ensures
            final(self).map() == (if old(self).map().contains_key(key@) {
                old(self).map()
            } else {
                old(self).map().insert(key@, profile@)
            }),
    {
        if !self.contains_key(key.as_str()) {
            self.insert(key, profile);
        }
    }
}

/// Strict lexicographic comparison of two identifiers.
pub fn key_less(a: &Vec<char>, b: &Vec<char>) -> (r: bool)
    ensures
        r == key_lt(a@, b@),
{
    let mut i: usize = 0;
    assert(a@.skip(0) =~= a@);
    assert(b@.skip(0) =~= b@);
    while i < a.len() && i < b.len() && a[i] == b[i]
        invariant
            i <= a.len(),
            i <= b.len(),
            key_lt(a@, b@) == key_lt(a@.skip(i as int), b@.skip(i as int)),
        decreases a.len() - i,
    {
        assert(a@.skip(i as int).drop_first() =~= a@.skip(i + 1));
        assert(b@.skip(i as int).drop_first() =~= b@.skip(i + 1));
        i = i + 1;
    }
    if i == a.len() {
        i < b.len()
    } else if i == b.len() {
        false
    } else {
        assert(a@.skip(i as int)[0] == a@[i as int]);
        assert(b@.skip(i as int)[0] == b@[i as int]);
        (a[i] as u32) < (b[i] as u32)
    }
}

/// What `insert` then `get` give: the inserted profile under its
/// identifier, and every other identifier as it was.
pub proof fn get_after_insert(before: Map<Seq<char>, ProfileView>, k: Seq<char>, p: ProfileView)
    ensures
        before.insert(k, p).contains_key(k),
        before.insert(k, p)[k] == p,
        forall|o: Seq<char>| o != k ==> (#[trigger] before.insert(k, p).contains_key(o)
            == before.contains_key(o)),
        forall|o: Seq<char>| o != k && before.contains_key(o) ==> #[trigger] before.insert(k, p)[o]
            == before[o],
{
}

} // verus!
