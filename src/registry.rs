//! The index of installed packages and the registry that owns it: lookup,
//! listing, search, and the updates that discovery, installation and
//! removal make to it.
use vstd::map::*;
use vstd::prelude::*;

use crate::error::TalonError;
use crate::manifest::{TalonInfo, TalonManifest};
use crate::text::{copy_option, contains_seq, lower_of, matches_folded, str_eq, to_lower};

verus! {

/// The summary of an installed package that the index keeps.
#[derive(Debug, Clone, PartialEq, Eq)]
pub struct TalonEntry {
    pub name: String,
    pub version: String,
    pub description: String,
    pub author: Option<String>,
    pub license: Option<String>,
    pub path: String,
    pub tags: Vec<String>,
}

/// No two entries share a name.
pub open spec fn names_unique(s: Seq<TalonEntry>) -> bool {
    forall|i: int, j: int|
        0 <= i < s.len() && 0 <= j < s.len() && i != j ==> s[i].name@ != s[j].name@
}

/// Whether some entry of `s` is named `k`.
pub open spec fn has_name(s: Seq<TalonEntry>, k: Seq<char>) -> bool {
    exists|i: int| 0 <= i < s.len() && s[i].name@ == k
}

/// The position of an entry named `k` in `s`.
pub open spec fn index_of(s: Seq<TalonEntry>, k: Seq<char>) -> int {
    choose|i: int| 0 <= i < s.len() && s[i].name@ == k
}

/// The entries of `s` as a map from name to entry.
pub open spec fn entries_map(s: Seq<TalonEntry>) -> Map<Seq<char>, TalonEntry> {
    Map::new(|k: Seq<char>| has_name(s, k), |k: Seq<char>| s[index_of(s, k)])
}

/// The index entry that describes manifest `m` installed at `path`.
pub open spec fn entry_from(m: TalonManifest, path: String) -> TalonEntry {
    TalonEntry {
        name: m.name,
        version: m.version,
        description: m.description,
        author: m.author,
        license: m.license,
        path: path,
        tags: m.tags,
    }
}

/// Whether an entry matches an already folded query: the query occurs in
/// the folded name, the folded description or some folded tag.
pub open spec fn entry_matches(q: Seq<char>, e: TalonEntry) -> bool {
    contains_seq(lower_of(e.name@), q) || contains_seq(lower_of(e.description@), q) || exists|
        t: int,
    |
        0 <= t < e.tags@.len() && contains_seq(lower_of(#[trigger] e.tags@[t]@), q)
}

/// The entries of `s` that match the folded query `q`, in order.
pub open spec fn matching(s: Seq<TalonEntry>, q: Seq<char>) -> Seq<TalonEntry>
    decreases s.len(),
{
    if s.len() == 0 {
        Seq::empty()
    } else if entry_matches(q, s.last()) {
        matching(s.drop_last(), q).push(s.last())
    } else {
        matching(s.drop_last(), q)
    }
}

/// In a sequence with unique names, the entry named after position `i`
/// sits at position `i`.
proof fn lemma_index_of(s: Seq<TalonEntry>, i: int)
    requires
        names_unique(s),
        0 <= i < s.len(),
    ensures
        has_name(s, s[i].name@),
        index_of(s, s[i].name@) == i,
        entries_map(s).contains_key(s[i].name@),
        entries_map(s)[s[i].name@] == s[i],
{
    assert(has_name(s, s[i].name@));
}

/// Putting entry `e` at position `i` of `t`, where `t` otherwise keeps the
/// entries of `s` in place (and `s` has at most a same-named entry at `i`),
/// updates the map at `e`'s name.
proof fn lemma_map_put(s: Seq<TalonEntry>, t: Seq<TalonEntry>, i: int, e: TalonEntry)
    requires
        names_unique(s),
        names_unique(t),
        0 <= i < t.len(),
        t[i] == e,
        t.len() == s.len() || t.len() == s.len() + 1,
        t.len() == s.len() + 1 ==> i == s.len(),
        i < s.len() ==> s[i].name@ == e.name@,
        forall|j: int| 0 <= j < s.len() && j != i ==> t[j] == s[j],
    ensures
        entries_map(t) == entries_map(s).insert(e.name@, e),
{
    lemma_index_of(t, i);
    assert_maps_equal!(entries_map(t), entries_map(s).insert(e.name@, e), k => {
        if k != e.name@ {
            if has_name(t, k) {
                let j = index_of(t, k);
                lemma_index_of(t, j);
                lemma_index_of(s, j);
            }
            if has_name(s, k) {
                let j = index_of(s, k);
                lemma_index_of(s, j);
                lemma_index_of(t, j);
            }
        }
    });
}

/// Overwriting the entry of the same name updates the map at that name.
proof fn lemma_map_update(s: Seq<TalonEntry>, i: int, e: TalonEntry)
    requires
        names_unique(s),
        0 <= i < s.len(),
        s[i].name@ == e.name@,
    ensures
        names_unique(s.update(i, e)),
        entries_map(s.update(i, e)) == entries_map(s).insert(e.name@, e),
{
    assert(names_unique(s.update(i, e)));
    lemma_map_put(s, s.update(i, e), i, e);
}

/// Appending an entry under a new name adds that name to the map.
proof fn lemma_map_push(s: Seq<TalonEntry>, e: TalonEntry)
    requires
        names_unique(s),
        !has_name(s, e.name@),
    ensures
        names_unique(s.push(e)),
        entries_map(s.push(e)) == entries_map(s).insert(e.name@, e),
{
    assert(names_unique(s.push(e)));
    lemma_map_put(s, s.push(e), s.len() as int, e);
}

/// Taking out the entry at position `i` removes its name from the map.
proof fn lemma_map_remove(s: Seq<TalonEntry>, i: int)
    requires
        names_unique(s),
        0 <= i < s.len(),
    ensures
        names_unique(s.remove(i)),
        entries_map(s.remove(i)) == entries_map(s).remove(s[i].name@),
{
    let t = s.remove(i);
    let n = s[i].name@;
    assert(names_unique(t)) by {
        assert forall|a: int, b: int|
            0 <= a < t.len() && 0 <= b < t.len() && a != b implies t[a].name@ != t[b].name@ by {
            let sa = if a < i { a } else { a + 1 };
            let sb = if b < i { b } else { b + 1 };
            assert(t[a] == s[sa]);
            assert(t[b] == s[sb]);
        }
    }
    assert_maps_equal!(entries_map(t), entries_map(s).remove(n), k => {
        if has_name(t, k) {
            let j = index_of(t, k);
            lemma_index_of(t, j);
            let sj = if j < i { j } else { j + 1 };
            assert(t[j] == s[sj]);
            lemma_index_of(s, sj);
        }
        if has_name(s, k) && k != n {
            let j = index_of(s, k);
            lemma_index_of(s, j);
            let tj = if j < i { j } else { j - 1 };
            assert(t[tj] == s[j]);
            lemma_index_of(t, tj);
        }
    });
}

/// The persisted collection of installed packages: entries with unique
/// names, in the order they were first recorded, and a format version.
#[derive(Debug, Clone)]
pub struct TalonIndex {
    talons: Vec<TalonEntry>,
    version: String,
}

impl View for TalonIndex {
    type V = Seq<TalonEntry>;

    closed spec fn view(&self) -> Seq<TalonEntry> {
        self.talons@
    }
}

impl TalonIndex {
    /// The format version the index carries.
    pub closed spec fn spec_version(&self) -> Seq<char> {
        self.version@
    }

    /// The index is well formed: no two entries share a name.
    pub open spec fn wf(&self) -> bool {
        names_unique(self@)
    }

    /// The index as a map from package name to entry.
    pub open spec fn map(&self) -> Map<Seq<char>, TalonEntry> {
        entries_map(self@)
    }

    /// An empty index with format version `"1.0"`.
    pub fn new() -> (r: TalonIndex)
        ensures
            r.wf(),
            r@ == Seq::<TalonEntry>::empty(),
            r.spec_version() == "1.0"@,
    {
        TalonIndex { talons: Vec::new(), version: "1.0".to_owned() }
    }

    /// An empty index with the given format version.
    pub fn with_version(version: String) -> (r: TalonIndex)
        ensures
            r.wf(),
            r@ == Seq::<TalonEntry>::empty(),
            r.spec_version() == version@,
    {
        TalonIndex { talons: Vec::new(), version }
    }

    /// The format version.
    pub fn version(&self) -> (r: &String)
        ensures
            r@ == self.spec_version(),
    {
        &self.version
    }

    /// All entries, in the order they were first recorded.
    pub fn entries(&self) -> (r: &Vec<TalonEntry>)
        ensures
            r@ == self@,
    {
        &self.talons
    }

    /// The position of the entry named `name`, if any.
    fn position(&self, name: &str) -> (r: Option<usize>)
        requires
            self.wf(),
        ensures
            r is Some == has_name(self@, name@),
            r is Some ==> r->Some_0 < self@.len() && self@[r->Some_0 as int].name@ == name@,
    {
        let mut i: usize = 0;
        while i < self.talons.len()
            invariant
                i <= self.talons@.len(),
                forall|j: int| 0 <= j < i ==> self.talons@[j].name@ != name@,
            decreases self.talons@.len() - i,
        {
            if str_eq(self.talons[i].name.as_str(), name) {
                return Some(i);
            }
            i += 1;
        }
        None
    }

    /// The entry named `name`, if any.
    pub fn get(&self, name: &str) -> (r: Option<&TalonEntry>)
        requires
            self.wf(),
        ensures
            r is Some == self.map().contains_key(name@),
            r is Some ==> *r->Some_0 == self.map()[name@],
    {
        match self.position(name) {
            Some(i) => {
                proof {
                    lemma_index_of(self@, i as int);
                }
                Some(&self.talons[i])
            },
            None => None,
        }
    }

    /// Records `entry` under its name, replacing any entry of that name in
    /// place; a new name is appended.
    pub fn insert(&mut self, entry: TalonEntry)
        requires
            old(self).wf(),
        ensures
            final(self).wf(),
            final(self).map() == old(self).map().insert(entry.name@, entry),
            final(self).spec_version() == old(self).spec_version(),
    {
        match self.position(entry.name.as_str()) {
            Some(i) => {
                proof {
                    lemma_map_update(self@, i as int, entry);
                }
                self.talons.set(i, entry);
            },
            None => {
                proof {
                    lemma_map_push(self@, entry);
                }
                self.talons.push(entry);
            },
        }
    }

    /// Takes out the entry named `name`, returning it; absent names leave
    /// the index unchanged.
    pub fn remove(&mut self, name: &str) -> (r: Option<TalonEntry>)
        requires
            old(self).wf(),
        ensures
            final(self).wf(),
            final(self).map() == old(self).map().remove(name@),
            r is Some == old(self).map().contains_key(name@),
            r is Some ==> r->Some_0 == old(self).map()[name@],
            final(self).spec_version() == old(self).spec_version(),
    {
        match self.position(name) {
            Some(i) => {
                proof {
                    lemma_index_of(self@, i as int);
                    lemma_map_remove(self@, i as int);
                }
                let e = self.talons.remove(i);
                Some(e)
            },
            None => {
                assert(self.map().remove(name@) =~= self.map());
                None
            },
        }
    }
}

} // verus!

verus! {

/// `rel` joined onto directory `base` as a path: an absolute `rel`
/// replaces `base`; otherwise a `/` separates the two, unless `base` is
/// empty or already ends in one.
pub open spec fn path_join(base: Seq<char>, rel: Seq<char>) -> Seq<char> {
    if rel.len() > 0 && rel[0] == '/' {
        rel
    } else if base.len() == 0 || base.last() == '/' {
        base + rel
    } else {
        base + seq!['/'] + rel
    }
}

/// Whether `name` can stand as a single path component: it is not empty,
/// not `.` or `..`, and holds no `/` and no NUL character.
pub open spec fn plain_name(name: Seq<char>) -> bool {
    &&& name.len() > 0
    &&& name != seq!['.']
    &&& name != seq!['.', '.']
    &&& forall|i: int| 0 <= i < name.len() ==> name[i] != '/' && name[i] != '\0'
}

/// Whether `name` can stand as a single path component.
pub fn is_plain_name(name: &str) -> (r: bool)
    ensures
        r == plain_name(name@),
{
    let n = name.unicode_len();
    if n == 0 {
        return false;
    }
    if n <= 2 && name.get_char(0) == '.' && name.get_char(n - 1) == '.' {
        assert(n == 1 ==> name@ =~= seq!['.']);
        assert(n == 2 ==> name@ =~= seq!['.', '.']);
        return false;
    }
    let mut i: usize = 0;
    while i < n
        invariant
            n == name@.len(),
            i <= n,
            forall|k: int| 0 <= k < i ==> name@[k] != '/' && name@[k] != '\0',
        decreases n - i,
    {
        let c = name.get_char(i);
        if c == '/' || c == '\0' {
            return false;
        }
        i += 1;
    }
    assert(name@ != seq!['.']) by {
        if name@ == seq!['.'] {
            assert(name@[0] == '.');
        }
    }
    assert(name@ != seq!['.', '.']) by {
        if name@ == seq!['.', '.'] {
            assert(name@[0] == '.' && name@[1] == '.');
        }
    }
    true
}

/// Joins `rel` onto directory `base` as a path.
fn join_path(base: &str, rel: &str) -> (r: String)
    ensures
        r@ == path_join(base@, rel@),
{
    let nb = base.unicode_len();
    let nr = rel.unicode_len();
    if nr > 0 && rel.get_char(0) == '/' {
        return rel.to_owned();
    }
    let mut out = base.to_owned();
    if nb > 0 && base.get_char(nb - 1) != '/' {
        out.append("/");
        proof {
            reveal_strlit("/");
        }
        assert("/"@ =~= seq!['/']);
    }
    out.append(rel);
    out
}

/// What discovery found: for each manifest file, its package directory and
/// the outcome of parsing it.
pub type Found = (String, Result<TalonManifest, TalonError>);

/// The successfully parsed manifests of `found`, each with its directory,
/// in the order found.
pub open spec fn discovered(found: Seq<Found>) -> Seq<(TalonManifest, String)>
    decreases found.len(),
{
    if found.len() == 0 {
        Seq::empty()
    } else {
        let prev = discovered(found.drop_last());
        match found.last().1 {
            Ok(m) => prev.push((m, found.last().0)),
            Err(_) => prev,
        }
    }
}

/// The index map after recording, in order, an entry for every successfully
/// parsed manifest of `found`: a later manifest of the same name wins.
pub open spec fn upsert_all(idx: Map<Seq<char>, TalonEntry>, found: Seq<Found>) -> Map<
    Seq<char>,
    TalonEntry,
>
    decreases found.len(),
{
    if found.len() == 0 {
        idx
    } else {
        let prev = upsert_all(idx, found.drop_last());
        match found.last().1 {
            Ok(m) => prev.insert(m.name@, entry_from(m, found.last().0)),
            Err(_) => prev,
        }
    }
}

/// `info` reports manifest `m` as installed at `path`; its tag list holds
/// the same tags as the manifest's.
pub open spec fn reports(info: TalonInfo, m: TalonManifest, path: String) -> bool {
    &&& info.path == path
    &&& info.installed
    &&& info.manifest.name == m.name
    &&& info.manifest.version == m.version
    &&& info.manifest.description == m.description
    &&& info.manifest.author == m.author
    &&& info.manifest.license == m.license
    &&& info.manifest.tags@ == m.tags@
    &&& info.manifest.repository == m.repository
    &&& info.manifest.homepage == m.homepage
    &&& info.manifest.runtime == m.runtime
    &&& info.manifest.permissions == m.permissions
    &&& info.manifest.environment == m.environment
    &&& info.manifest.commands == m.commands
}

fn copy_strings(v: &Vec<String>) -> (r: Vec<String>)
    ensures
        r@ == v@,
{
    let mut out: Vec<String> = Vec::new();
    let mut i: usize = 0;
    while i < v.len()
        invariant
            i <= v@.len(),
            out@ == v@.take(i as int),
        decreases v@.len() - i,
    {
        out.push(v[i].clone());
        i += 1;
        assert(out@ =~= v@.take(i as int));
    }
    assert(v@.take(v@.len() as int) =~= v@);
    out
}

/// Whether entry `e` matches the folded query `q`.
fn entry_matches_exec(q: &str, e: &TalonEntry) -> (r: bool)
    ensures
        r == entry_matches(q@, *e),
{
    let name = to_lower(e.name.as_str());
    if matches_folded(q, name.as_str()) {
        return true;
    }
    let description = to_lower(e.description.as_str());
    if matches_folded(q, description.as_str()) {
        return true;
    }
    let mut t: usize = 0;
    while t < e.tags.len()
        invariant
            t <= e.tags@.len(),
            forall|j: int| 0 <= j < t ==> !contains_seq(lower_of(#[trigger] e.tags@[j]@), q@),
        decreases e.tags@.len() - t,
    {
        let tag = to_lower(e.tags[t].as_str());
        if matches_folded(q, tag.as_str()) {
            return true;
        }
        t += 1;
    }
    false
}

/// A registry bound to a directory, owning the index of the packages
/// installed there.
pub struct TalonRegistry {
    pub talons_dir: String,
    pub index: TalonIndex,
}

impl TalonRegistry {
    /// The registry's index is well formed.
    pub open spec fn wf(&self) -> bool {
        self.index.wf()
    }

    /// A registry bound to `talons_dir` holding `index`.
    pub fn from_index(talons_dir: String, index: TalonIndex) -> (r: TalonRegistry)
        requires
            index.wf(),
        ensures
            r.wf(),
            r.talons_dir == talons_dir,
            r.index == index,
    {
        TalonRegistry { talons_dir, index }
    }

    /// The index, for persisting it.
    pub fn index(&self) -> (r: &TalonIndex)
        ensures
            *r == self.index,
    {
        &self.index
    }

    /// All entries of the index.
    pub fn list_talons(&self) -> (r: Vec<&TalonEntry>)
        ensures
            r@.len() == self.index@.len(),
            forall|i: int| 0 <= i < r@.len() ==> *r@[i] == self.index@[i],
    {
        let mut out: Vec<&TalonEntry> = Vec::new();
        let mut i: usize = 0;
        while i < self.index.talons.len()
            invariant
                i <= self.index@.len(),
                out@.len() == i,
                forall|j: int| 0 <= j < i ==> *out@[j] == self.index@[j],
            decreases self.index@.len() - i,
        {
            out.push(&self.index.talons[i]);
            i += 1;
        }
        out
    }

    /// The entry named `name`, if one is installed.
    pub fn get_talon(&self, name: &str) -> (r: Option<&TalonEntry>)
        requires
            self.wf(),
        ensures
            r is Some == self.index.map().contains_key(name@),
            r is Some ==> *r->Some_0 == self.index.map()[name@],
    {
        self.index.get(name)
    }

    /// The entries whose name, description or some tag holds `query`,
    /// ignoring case; in index order.
    pub fn search_talons(&self, query: &str) -> (r: Vec<&TalonEntry>)
        ensures
            r@.len() == matching(self.index@, lower_of(query@)).len(),
            forall|i: int|
                0 <= i < r@.len() ==> *r@[i] == matching(self.index@, lower_of(query@))[i],
    {
        let q = to_lower(query);
        let ghost s = self.index@;
        let mut out: Vec<&TalonEntry> = Vec::new();
        let mut i: usize = 0;
        while i < self.index.talons.len()
            invariant
                s == self.index@,
                i <= s.len(),
                out@.len() == matching(s.take(i as int), q@).len(),
                forall|j: int| 0 <= j < out@.len() ==> *out@[j] == matching(s.take(i as int), q@)[j],
            decreases s.len() - i,
        {
            let e = &self.index.talons[i];
            assert(s.take(i + 1).drop_last() =~= s.take(i as int));
            if entry_matches_exec(q.as_str(), e) {
                out.push(e);
            }
            i += 1;
        }
        assert(s.take(s.len() as int) =~= s);
        out
    }

    /// The directory a package named `name` is installed into: `name` inside
    /// the bound directory. Fails with `InvalidName` when `name` is not a
    /// plain path component, since it would then lead elsewhere.
    pub fn destination(&self, name: &str) -> (r: Result<String, TalonError>)
        ensures
            r is Ok == plain_name(name@),
            r is Ok ==> r->Ok_0@ == path_join(self.talons_dir@, name@),
            r is Err ==> (match r->Err_0 {
                TalonError::InvalidName(n) => n@ == name@,
                _ => false,
            }),
    {
        if is_plain_name(name) {
            Ok(join_path(self.talons_dir.as_str(), name))
        } else {
            Err(TalonError::InvalidName(name.to_owned()))
        }
    }

    /// Records every successfully parsed manifest of `found` in the index,
    /// in order, under its name and with its directory; manifests that failed
    /// to parse are skipped. Returns the parsed packages as installed.
    pub fn discover_talons(&mut self, found: Vec<Found>) -> (r: Vec<TalonInfo>)
        requires
            old(self).wf(),
        ensures
            final(self).wf(),
            final(self).talons_dir == old(self).talons_dir,
            final(self).index.map() == upsert_all(old(self).index.map(), found@),
            final(self).index.spec_version() == old(self).index.spec_version(),
            r@.len() == discovered(found@).len(),
            forall|i: int|
                0 <= i < r@.len() ==> reports(
                    #[trigger] r@[i],
                    discovered(found@)[i].0,
                    discovered(found@)[i].1,
                ),
    {
        let ghost all = found@;
        let ghost start = self.index.map();
        let total = found.len();
        let mut rest = found;
        let mut out: Vec<TalonInfo> = Vec::new();
        let mut k: usize = 0;
        while rest.len() > 0
            invariant
                k <= all.len(),
                total == all.len(),
                rest@ == all.subrange(k as int, all.len() as int),
                self.wf(),
                self.talons_dir == old(self).talons_dir,
                self.index.map() == upsert_all(start, all.take(k as int)),
                self.index.spec_version() == old(self).index.spec_version(),
                out@.len() == discovered(all.take(k as int)).len(),
                forall|i: int|
                    0 <= i < out@.len() ==> reports(
                        #[trigger] out@[i],
                        discovered(all.take(k as int))[i].0,
                        discovered(all.take(k as int))[i].1,
                    ),
            decreases rest@.len(),
        {
            let item = rest.remove(0);
            assert(item == all[k as int]);
            assert(all.take(k + 1).drop_last() =~= all.take(k as int));
            let (path, parsed) = item;
            match parsed {
                Ok(m) => {
                    let mut manifest = m;
                    let mut tags = copy_strings(&manifest.tags);
                    std::mem::swap(&mut manifest.tags, &mut tags);
                    let entry = TalonEntry {
                        name: manifest.name.clone(),
                        version: manifest.version.clone(),
                        description: manifest.description.clone(),
                        author: copy_option(&manifest.author),
                        license: copy_option(&manifest.license),
                        path: path.clone(),
                        tags,
                    };
                    assert(entry == entry_from(m, path));
                    self.index.insert(entry);
                    out.push(TalonInfo { manifest, path, installed: true });
                },
                Err(_) => {},
            }
            k += 1;
        }
        assert(all.take(all.len() as int) =~= all);
        out
    }

    /// Records `manifest` as installed in its destination directory,
    /// replacing any entry of the same name, and returns the package name.
    /// Fails with `InvalidName`, changing nothing, when the name is not a
    /// plain path component.
    pub fn add_talon(&mut self, manifest: TalonManifest) -> (r: Result<String, TalonError>)
        requires
            old(self).wf(),
        ensures
            final(self).wf(),
            final(self).talons_dir == old(self).talons_dir,
            final(self).index.spec_version() == old(self).index.spec_version(),
            r is Ok == plain_name(manifest.name@),
            r is Ok ==> r->Ok_0 == manifest.name,
            r is Ok ==> final(self).index.map() == old(self).index.map().insert(
                manifest.name@,
                entry_from(manifest, final(self).index.map()[manifest.name@].path),
            ),
            r is Ok ==> final(self).index.map()[manifest.name@].path@ == path_join(
                old(self).talons_dir@,
                manifest.name@,
            ),
            r is Err ==> final(self).index == old(self).index,
            r is Err ==> (match r->Err_0 {
                TalonError::InvalidName(n) => n@ == manifest.name@,
                _ => false,
            }),
    {
        let name = manifest.name.clone();
        let dest = match self.destination(name.as_str()) {
            Ok(d) => d,
            Err(e) => return Err(e),
        };
        let ghost d = dest;
        let entry = TalonEntry {
            name: manifest.name,
            version: manifest.version,
            description: manifest.description,
            author: manifest.author,
            license: manifest.license,
            path: dest,
            tags: manifest.tags,
        };
        self.index.insert(entry);
        assert(self.index.map()[manifest.name@] == entry_from(manifest, d));
        Ok(name)
    }

    /// Takes the entry named `name` out of the index and returns it, so that
    /// its directory can be deleted; an absent name changes nothing.
    pub fn remove_talon(&mut self, name: &str) -> (r: Option<TalonEntry>)
        requires
            old(self).wf(),
        ensures
            final(self).wf(),
            final(self).talons_dir == old(self).talons_dir,
            final(self).index.map() == old(self).index.map().remove(name@),
            r is Some == old(self).index.map().contains_key(name@),
            r is Some ==> r->Some_0 == old(self).index.map()[name@],
            final(self).index.spec_version() == old(self).index.spec_version(),
    {
        self.index.remove(name)
    }
}

} // verus!

verus! {

/// Recording discovered manifests over an index is the same as laying the
/// entries recorded over an empty index on top of it.
proof fn lemma_upsert_all_overlay(idx: Map<Seq<char>, TalonEntry>, found: Seq<Found>)
    ensures
        upsert_all(idx, found) == idx.union_prefer_right(upsert_all(Map::empty(), found)),
    decreases found.len(),
{
    if found.len() > 0 {
        lemma_upsert_all_overlay(idx, found.drop_last());
        match found.last().1 {
            Ok(m) => {
                assert(upsert_all(idx, found) =~= idx.union_prefer_right(
                    upsert_all(Map::empty(), found),
                ));
            },
            Err(_) => {},
        }
    } else {
        assert(idx.union_prefer_right(Map::empty()) =~= idx);
    }
}

/// Discovery is idempotent: recording the same discovered manifests a second
/// time leaves the index map as the first time left it. (The returned list
/// depends on `found` alone, so it is the same too.)
pub proof fn discover_idempotent(idx: Map<Seq<char>, TalonEntry>, found: Seq<Found>)
    ensures
        upsert_all(upsert_all(idx, found), found) == upsert_all(idx, found),
{
    let e = upsert_all(Map::empty(), found);
    lemma_upsert_all_overlay(idx, found);
    lemma_upsert_all_overlay(upsert_all(idx, found), found);
    assert(idx.union_prefer_right(e).union_prefer_right(e) =~= idx.union_prefer_right(e));
}

/// After installing manifest `m` into `path`, its name maps to an entry
/// describing `m` at `path`; after then removing that name, the name is
/// absent and every other name maps to what it did before installing.
pub proof fn add_remove_inverse(
    before: Map<Seq<char>, TalonEntry>,
    m: TalonManifest,
    path: String,
)
    ensures
        ({
            let added = before.insert(m.name@, entry_from(m, path));
            &&& added.contains_key(m.name@)
            &&& added[m.name@] == entry_from(m, path)
            &&& added[m.name@].path == path
            &&& !added.remove(m.name@).contains_key(m.name@)
            &&& added.remove(m.name@) == before.remove(m.name@)
        }),
{
    let added = before.insert(m.name@, entry_from(m, path));
    assert(added.remove(m.name@) =~= before.remove(m.name@));
}

/// Installing two manifests of the same name one after the other leaves
/// exactly one entry of that name in a well-formed index, and it describes
/// the second.
pub proof fn add_overwrite(
    before: Map<Seq<char>, TalonEntry>,
    after: TalonIndex,
    first: TalonManifest,
    first_path: String,
    second: TalonManifest,
    second_path: String,
)
    requires
        after.wf(),
        first.name@ == second.name@,
        after.map() == before.insert(first.name@, entry_from(first, first_path)).insert(
            second.name@,
            entry_from(second, second_path),
        ),
    ensures
        after.map()[second.name@] == entry_from(second, second_path),
        after.map() == before.insert(second.name@, entry_from(second, second_path)),
        exists|i: int|
            0 <= i < after@.len() && after@[i] == entry_from(second, second_path) && forall|j: int|
                0 <= j < after@.len() && after@[j].name@ == second.name@ ==> j == i,
{
    let n = second.name@;
    assert(before.insert(first.name@, entry_from(first, first_path)).insert(n, entry_from(second, second_path)) =~= before.insert(
        n,
        entry_from(second, second_path),
    ));
    assert(after.map().contains_key(n));
    assert(has_name(after@, n));
    let i = index_of(after@, n);
    lemma_index_of(after@, i);
    assert(after@[i] == entry_from(second, second_path));
    assert forall|j: int| 0 <= j < after@.len() && after@[j].name@ == n implies j == i by {}
}

} // verus!
