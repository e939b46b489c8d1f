//! The toolset: a precedence-merged mapping from plugin name to the
//! versions requested for it, tagged with the configuration source it
//! came from.
//!
//! Merging is left-biased: the nearer source's non-empty version list
//! wins, while farther sources may still supply plugins the nearer
//! ones left unresolved.

use vstd::prelude::*;

verus! {

/// How a version was requested; only plain version strings are in scope.
#[derive(Debug)]
pub enum ToolVersionType {
    Version(String),
}

/// One requested version of one plugin's tool.
#[derive(Debug)]
pub struct ToolVersion {
    pub plugin: String,
    pub vtype: ToolVersionType,
}

/// Provenance of a toolset: which kind of configuration supplied it.
#[derive(Debug)]
pub enum ToolSource {
    LegacyVersionFile(String),
    ConfigFile(String),
    EnvVar,
    Argument,
    Default,
}

/// The ordered versions requested for one plugin; empty means
/// "no preference".
#[derive(Debug)]
pub struct ToolVersionList {
    pub versions: Vec<ToolVersion>,
}

/// Mapping from plugin name to requested versions, in insertion order,
/// carrying its own provenance.
#[derive(Debug)]
pub struct Toolset {
    pub source: ToolSource,
    pub versions: Vec<(String, ToolVersionList)>,
}

/// Mathematical image of a `ToolVersion`.
pub struct ToolVersionV {
    pub plugin: Seq<char>,
    pub version: Seq<char>,
}

/// Mathematical image of a `ToolSource`.
pub enum ToolSourceV {
    LegacyVersionFile(Seq<char>),
    ConfigFile(Seq<char>),
    EnvVar,
    Argument,
    Default,
}

/// One toolset entry at the view level: a plugin name and its list.
pub type TsEntryV = (Seq<char>, Seq<ToolVersionV>);

/// Mathematical image of a `Toolset`.
pub struct ToolsetV {
    pub source: ToolSourceV,
    pub versions: Seq<TsEntryV>,
}

impl View for ToolVersionType {
    type V = Seq<char>;

    open spec fn view(&self) -> Seq<char> {
        match self {
            ToolVersionType::Version(v) => v@,
        }
    }
}

impl View for ToolVersion {
    type V = ToolVersionV;

    open spec fn view(&self) -> ToolVersionV {
        ToolVersionV { plugin: self.plugin@, version: self.vtype@ }
    }
}

impl View for ToolSource {
    type V = ToolSourceV;

    open spec fn view(&self) -> ToolSourceV {
        match self {
            ToolSource::LegacyVersionFile(p) => ToolSourceV::LegacyVersionFile(p@),
            ToolSource::ConfigFile(p) => ToolSourceV::ConfigFile(p@),
            ToolSource::EnvVar => ToolSourceV::EnvVar,
            ToolSource::Argument => ToolSourceV::Argument,
            ToolSource::Default => ToolSourceV::Default,
        }
    }
}

impl View for ToolVersionList {
    type V = Seq<ToolVersionV>;

    open spec fn view(&self) -> Seq<ToolVersionV> {
        self.versions@.map_values(|tv: ToolVersion| tv@)
    }
}

impl View for Toolset {
    type V = ToolsetV;

    open spec fn view(&self) -> ToolsetV {
        ToolsetV {
            source: self.source@,
            versions: self.versions@.map_values(|e: (String, ToolVersionList)| (e.0@, e.1@)),
        }
    }
}

/// The version list for plugin `p`: the first entry whose name is `p`.
pub open spec fn entries_get(entries: Seq<TsEntryV>, p: Seq<char>) -> Option<Seq<ToolVersionV>>
    decreases entries.len(),
{
    if entries.len() == 0 {
        None
    } else if entries[0].0 == p {
        Some(entries[0].1)
    } else {
        entries_get(entries.drop_first(), p)
    }
}

/// The version list the toolset requests for plugin `p`.
pub open spec fn ts_get(t: ToolsetV, p: Seq<char>) -> Option<Seq<ToolVersionV>> {
    entries_get(t.versions, p)
}

/// Recording one requested version: appended to its plugin's list, or
/// opening a new entry at the end.
pub open spec fn spec_add_version(entries: Seq<TsEntryV>, tv: ToolVersionV) -> Seq<TsEntryV>
    decreases entries.len(),
{
    if entries.len() == 0 {
        seq![(tv.plugin, seq![tv])]
    } else if entries[0].0 == tv.plugin {
        seq![(entries[0].0, entries[0].1.push(tv))] + entries.drop_first()
    } else {
        seq![entries[0]] + spec_add_version(entries.drop_first(), tv)
    }
}

/// Folding one farther-source entry into nearer entries `a`: adopted
/// only where `a` has no entry, or an empty (unresolved) one.
pub open spec fn spec_merge_one(a: Seq<TsEntryV>, e: TsEntryV) -> Seq<TsEntryV>
    decreases a.len(),
{
    if a.len() == 0 {
        seq![e]
    } else if a[0].0 == e.0 {
        if a[0].1.len() == 0 && e.1.len() > 0 {
            seq![(a[0].0, e.1)] + a.drop_first()
        } else {
            a
        }
    } else {
        seq![a[0]] + spec_merge_one(a.drop_first(), e)
    }
}

/// Folding a whole farther source into nearer entries `a`, entry by
/// entry in order.
pub open spec fn spec_merge_entries(a: Seq<TsEntryV>, b: Seq<TsEntryV>) -> Seq<TsEntryV>
    decreases b.len(),
{
    if b.len() == 0 {
        a
    } else {
        spec_merge_one(spec_merge_entries(a, b.drop_last()), b.last())
    }
}

/// Assembling a toolset from sources ordered nearest-first, starting
/// from nothing and folding each source in turn.
pub open spec fn spec_sources_entries(ss: Seq<ToolsetV>) -> Seq<TsEntryV>
    decreases ss.len(),
{
    if ss.len() == 0 {
        Seq::<TsEntryV>::empty()
    } else {
        spec_merge_entries(spec_sources_entries(ss.drop_last()), ss.last().versions)
    }
}

proof fn lemma_add_version_found(entries: Seq<TsEntryV>, tv: ToolVersionV, i: int)
    requires
        0 <= i < entries.len(),
        entries[i].0 == tv.plugin,
        forall|k: int| 0 <= k < i ==> entries[k].0 != tv.plugin,
    ensures
        spec_add_version(entries, tv) == entries.update(
            i,
            (entries[i].0, entries[i].1.push(tv)),
        ),
    decreases i,
{
    if i == 0 {
        assert(seq![(entries[0].0, entries[0].1.push(tv))] + entries.drop_first() =~= entries.update(
            0,
            (entries[0].0, entries[0].1.push(tv)),
        ));
    } else {
        let d = entries.drop_first();
        assert(forall|k: int| 0 <= k < i - 1 ==> d[k].0 != tv.plugin);
        lemma_add_version_found(d, tv, i - 1);
        assert(seq![entries[0]] + d.update(i - 1, (d[i - 1].0, d[i - 1].1.push(tv)))
            =~= entries.update(i, (entries[i].0, entries[i].1.push(tv))));
    }
}

proof fn lemma_add_version_absent(entries: Seq<TsEntryV>, tv: ToolVersionV)
    requires
        forall|k: int| 0 <= k < entries.len() ==> entries[k].0 != tv.plugin,
    ensures
        spec_add_version(entries, tv) == entries.push((tv.plugin, seq![tv])),
    decreases entries.len(),
{
    if entries.len() == 0 {
        assert(seq![(tv.plugin, seq![tv])] =~= entries.push((tv.plugin, seq![tv])));
    } else {
        let d = entries.drop_first();
        assert(forall|k: int| 0 <= k < d.len() ==> d[k].0 != tv.plugin);
        lemma_add_version_absent(d, tv);
        assert(seq![entries[0]] + d.push((tv.plugin, seq![tv])) =~= entries.push(
            (tv.plugin, seq![tv]),
        ));
    }
}

proof fn lemma_merge_one_found(a: Seq<TsEntryV>, e: TsEntryV, i: int)
    requires
        0 <= i < a.len(),
        a[i].0 == e.0,
        forall|k: int| 0 <= k < i ==> a[k].0 != e.0,
    ensures
        spec_merge_one(a, e) == (if a[i].1.len() == 0 && e.1.len() > 0 {
            a.update(i, (a[i].0, e.1))
        } else {
            a
        }),
    decreases i,
{
    if i == 0 {
        if a[0].1.len() == 0 && e.1.len() > 0 {
            assert(seq![(a[0].0, e.1)] + a.drop_first() =~= a.update(0, (a[0].0, e.1)));
        }
    } else {
        let d = a.drop_first();
        assert(forall|k: int| 0 <= k < i - 1 ==> d[k].0 != e.0);
        lemma_merge_one_found(d, e, i - 1);
        if a[i].1.len() == 0 && e.1.len() > 0 {
            assert(seq![a[0]] + d.update(i - 1, (d[i - 1].0, e.1)) =~= a.update(
                i,
                (a[i].0, e.1),
            ));
        } else {
            assert(seq![a[0]] + d =~= a);
        }
    }
}

proof fn lemma_merge_one_absent(a: Seq<TsEntryV>, e: TsEntryV)
    requires
        forall|k: int| 0 <= k < a.len() ==> a[k].0 != e.0,
    ensures
        spec_merge_one(a, e) == a.push(e),
    decreases a.len(),
{
    if a.len() == 0 {
        assert(seq![e] =~= a.push(e));
    } else {
        let d = a.drop_first();
        assert(forall|k: int| 0 <= k < d.len() ==> d[k].0 != e.0);
        lemma_merge_one_absent(d, e);
        assert(seq![a[0]] + d.push(e) =~= a.push(e));
    }
}

/// Folding in one farther entry never disturbs a plugin the nearer
/// entries already resolve to a non-empty list.
proof fn lemma_merge_one_keeps_nonempty(a: Seq<TsEntryV>, e: TsEntryV, p: Seq<char>)
    requires
        entries_get(a, p) matches Some(l) && l.len() > 0,
    ensures
        entries_get(spec_merge_one(a, e), p) == entries_get(a, p),
    decreases a.len(),
{
    if a.len() == 0 {
    } else if a[0].0 == e.0 {
        if a[0].1.len() == 0 && e.1.len() > 0 {
            let m = seq![(a[0].0, e.1)] + a.drop_first();
            assert(m[0] == (a[0].0, e.1));
            assert(m.drop_first() =~= a.drop_first());
        }
    } else {
        let m = seq![a[0]] + spec_merge_one(a.drop_first(), e);
        assert(m[0] == a[0]);
        assert(m.drop_first() =~= spec_merge_one(a.drop_first(), e));
        if a[0].0 != p {
            lemma_merge_one_keeps_nonempty(a.drop_first(), e, p);
        }
    }
}

/// Precedence: whatever the farther source holds, a plugin that the
/// nearer entries resolve to a non-empty list keeps exactly that list
/// across a merge.
pub proof fn lemma_merge_precedence(a: Seq<TsEntryV>, b: Seq<TsEntryV>, p: Seq<char>)
    requires
        entries_get(a, p) matches Some(l) && l.len() > 0,
    ensures
        entries_get(spec_merge_entries(a, b), p) == entries_get(a, p),
    decreases b.len(),
{
    if b.len() > 0 {
        lemma_merge_precedence(a, b.drop_last(), p);
        lemma_merge_one_keeps_nonempty(spec_merge_entries(a, b.drop_last()), b.last(), p);
    }
}

proof fn lemma_merge_one_other_key(a: Seq<TsEntryV>, e: TsEntryV, p: Seq<char>)
    requires
        e.0 != p,
    ensures
        entries_get(spec_merge_one(a, e), p) == entries_get(a, p),
    decreases a.len(),
{
    if a.len() == 0 {
        reveal_with_fuel(entries_get, 2);
        assert(seq![e][0] == e);
        assert(seq![e].drop_first() =~= Seq::<TsEntryV>::empty());
    } else if a[0].0 == e.0 {
        if a[0].1.len() == 0 && e.1.len() > 0 {
            let m = seq![(a[0].0, e.1)] + a.drop_first();
            assert(m[0] == (a[0].0, e.1));
            assert(m.drop_first() =~= a.drop_first());
        }
    } else {
        let m = seq![a[0]] + spec_merge_one(a.drop_first(), e);
        assert(m[0] == a[0]);
        assert(m.drop_first() =~= spec_merge_one(a.drop_first(), e));
        if a[0].0 != p {
            lemma_merge_one_other_key(a.drop_first(), e, p);
        }
    }
}

proof fn lemma_merge_one_same_key(a: Seq<TsEntryV>, e: TsEntryV)
    ensures
        entries_get(spec_merge_one(a, e), e.0) == (match entries_get(a, e.0) {
            Some(l) => if l.len() == 0 && e.1.len() > 0 {
                Some(e.1)
            } else {
                Some(l)
            },
            None => Some(e.1),
        }),
    decreases a.len(),
{
    if a.len() == 0 {
        reveal_with_fuel(entries_get, 2);
        assert(seq![e][0] == e);
    } else if a[0].0 == e.0 {
        if a[0].1.len() == 0 && e.1.len() > 0 {
            let m = seq![(a[0].0, e.1)] + a.drop_first();
            assert(m[0] == (a[0].0, e.1));
        }
    } else {
        let m = seq![a[0]] + spec_merge_one(a.drop_first(), e);
        assert(m[0] == a[0]);
        assert(m.drop_first() =~= spec_merge_one(a.drop_first(), e));
        lemma_merge_one_same_key(a.drop_first(), e);
    }
}

proof fn lemma_merge_no_key(a: Seq<TsEntryV>, b: Seq<TsEntryV>, p: Seq<char>)
    requires
        forall|k: int| 0 <= k < b.len() ==> b[k].0 != p,
    ensures
        entries_get(spec_merge_entries(a, b), p) == entries_get(a, p),
    decreases b.len(),
{
    if b.len() > 0 {
        let d = b.drop_last();
        assert(forall|k: int| 0 <= k < d.len() ==> d[k].0 != p);
        lemma_merge_no_key(a, d, p);
        lemma_merge_one_other_key(spec_merge_entries(a, d), b.last(), p);
    }
}

proof fn lemma_entries_get_drop_last(s: Seq<TsEntryV>, p: Seq<char>)
    requires
        s.len() > 0,
    ensures
        entries_get(s, p) == (match entries_get(s.drop_last(), p) {
            Some(l) => Some(l),
            None => if s.last().0 == p {
                Some(s.last().1)
            } else {
                None
            },
        }),
    decreases s.len(),
{
    if s.len() == 1 {
        reveal_with_fuel(entries_get, 2);
        assert(s.drop_last() =~= Seq::<TsEntryV>::empty());
    } else {
        assert(s.drop_last()[0] == s[0]);
        if s[0].0 != p {
            assert(s.drop_first().drop_last() =~= s.drop_last().drop_first());
            assert(s.drop_first().last() == s.last());
            lemma_entries_get_drop_last(s.drop_first(), p);
        }
    }
}

proof fn lemma_entries_get_covers(s: Seq<TsEntryV>, p: Seq<char>, k: int)
    requires
        0 <= k < s.len(),
        s[k].0 == p,
    ensures
        entries_get(s, p) is Some,
    decreases k,
{
    if s[0].0 != p {
        assert(s.drop_first()[k - 1] == s[k]);
        lemma_entries_get_covers(s.drop_first(), p, k - 1);
    }
}

/// A farther source still supplies a plugin the nearer entries leave
/// unresolved: where `a` has no entry for `p`, or an empty one, and `b`
/// requests the non-empty list `lb` for `p`, the merge resolves `p` to
/// exactly `lb`.
pub proof fn lemma_merge_supplies_unresolved(
    a: Seq<TsEntryV>,
    b: Seq<TsEntryV>,
    p: Seq<char>,
    lb: Seq<ToolVersionV>,
)
    requires
        match entries_get(a, p) {
            Some(l) => l.len() == 0,
            None => true,
        },
        entries_get(b, p) == Some(lb),
        lb.len() > 0,
    ensures
        entries_get(spec_merge_entries(a, b), p) == Some(lb),
    decreases b.len(),
{
    let d = b.drop_last();
    let e = b.last();
    let m = spec_merge_entries(a, d);
    lemma_entries_get_drop_last(b, p);
    match entries_get(d, p) {
        Some(_) => {
            lemma_merge_supplies_unresolved(a, d, p, lb);
            lemma_merge_one_keeps_nonempty(m, e, p);
        },
        None => {
            assert(e.0 == p && e.1 == lb);
            assert forall|k: int| 0 <= k < d.len() implies d[k].0 != p by {
                if d[k].0 == p {
                    lemma_entries_get_covers(d, p, k);
                }
            }
            lemma_merge_no_key(a, d, p);
            lemma_merge_one_same_key(m, e);
        },
    }
}

fn clone_string(s: &String) -> (r: String)
    ensures
        r@ == s@,
{
    s.clone()
}

fn clone_tool_version(tv: &ToolVersion) -> (r: ToolVersion)
    ensures
        r@ == tv@,
{
    let vtype = match &tv.vtype {
        ToolVersionType::Version(v) => ToolVersionType::Version(v.clone()),
    };
    ToolVersion { plugin: tv.plugin.clone(), vtype }
}

fn clone_tool_version_list(l: &ToolVersionList) -> (r: ToolVersionList)
    ensures
        r@ == l@,
{
    let mut versions: Vec<ToolVersion> = Vec::new();
    let mut i: usize = 0;
    while i < l.versions.len()
        invariant
            versions@.len() == i,
            0 <= i <= l.versions@.len(),
            forall|k: int| 0 <= k < i ==> versions@[k]@ == l.versions@[k]@,
        decreases l.versions@.len() - i,
    {
        versions.push(clone_tool_version(&l.versions[i]));
        i += 1;
    }
    let r = ToolVersionList { versions };
    proof {
        assert forall|k: int| 0 <= k < r@.len() implies r@[k] == #[trigger] l@[k] by {
            assert(r@[k] == r.versions@[k]@);
            assert(l@[k] == l.versions@[k]@);
        }
        assert(r@ =~= l@);
    }
    r
}

impl ToolVersion {
    /// A request of `version` for `plugin`.
    pub fn new(plugin: String, vtype: ToolVersionType) -> (r: ToolVersion)
        ensures
            r.plugin == plugin,
            r.vtype == vtype,
    {
        ToolVersion { plugin, vtype }
    }
}

impl Toolset {
    /// An empty toolset tagged with its provenance.
    pub fn new(source: ToolSource) -> (r: Toolset)
        ensures
            r@.source == source@,
            r@.versions =~= Seq::<TsEntryV>::empty(),
    {
        let r = Toolset { source, versions: Vec::new() };
        proof {
            assert(r@.versions =~= Seq::<TsEntryV>::empty());
        }
        r
    }

    fn index_of(&self, plugin: &str) -> (r: Option<usize>)
        ensures
            match r {
                Some(i) => 0 <= i < self@.versions.len() && self@.versions[i as int].0 == plugin@
                    && forall|k: int| 0 <= k < i ==> self@.versions[k].0 != plugin@,
                None => forall|k: int|
                    0 <= k < self@.versions.len() ==> self@.versions[k].0 != plugin@,
            },
    {
        let mut i: usize = 0;
        while i < self.versions.len()
            invariant
                0 <= i <= self.versions@.len(),
                forall|k: int| 0 <= k < i ==> self@.versions[k].0 != plugin@,
            decreases self.versions@.len() - i,
        {
            if crate::strutil::str_eq(self.versions[i].0.as_str(), plugin) {
                return Some(i);
            }
            i += 1;
        }
        None
    }

    /// The version list requested for `plugin`, if any entry holds one.
    pub fn get(&self, plugin: &str) -> (r: Option<&ToolVersionList>)
        ensures
            match r {
                Some(l) => ts_get(self@, plugin@) == Some(l@),
                None => ts_get(self@, plugin@) is None,
            },
    {
        match self.index_of(plugin) {
            Some(i) => {
                proof {
                    lemma_entries_get_first(self@.versions, plugin@, i as int);
                }
                Some(&self.versions[i].1)
            },
            None => {
                proof {
                    lemma_entries_get_none(self@.versions, plugin@);
                }
                None
            },
        }
    }

    /// Record one requested version, per `spec_add_version`.
    pub fn add_version(&mut self, tv: ToolVersion)
        ensures
            final(self)@.source == old(self)@.source,
            final(self)@.versions == spec_add_version(old(self)@.versions, tv@),
    {
        let ghost tvv = tv@;
        match self.index_of(tv.plugin.as_str()) {
            Some(i) => {
                proof {
                    lemma_add_version_found(self@.versions, tvv, i as int);
                }
                let (k, mut l) = self.versions.remove(i);
                l.versions.push(tv);
                self.versions.insert(i, (k, l));
                proof {
                    assert(self@.versions =~~= spec_add_version(old(self)@.versions, tvv));
                }
            },
            None => {
                proof {
                    lemma_add_version_absent(self@.versions, tvv);
                }
                let plugin = tv.plugin.clone();
                let mut versions: Vec<ToolVersion> = Vec::new();
                versions.push(tv);
                self.versions.push((plugin, ToolVersionList { versions }));
                proof {
                    assert(self@.versions =~~= spec_add_version(old(self)@.versions, tvv));
                }
            },
        }
    }

    /// Fold a farther source into this one, per `spec_merge_entries`:
    /// this toolset is the nearer side and its non-empty lists win.
    pub fn merge(&mut self, other: &Toolset)
        ensures
            final(self)@.source == old(self)@.source,
            final(self)@.versions == spec_merge_entries(old(self)@.versions, other@.versions),
    {
        let ghost a0 = self@.versions;
        let ghost bv = other@.versions;
        let mut j: usize = 0;
        while j < other.versions.len()
            invariant
                0 <= j <= other.versions@.len(),
                bv == other@.versions,
                self@.source == old(self)@.source,
                self@.versions == spec_merge_entries(a0, bv.subrange(0, j as int)),
            decreases other.versions@.len() - j,
        {
            let ghost before = self@.versions;
            let e = &other.versions[j];
            let ghost ev = (e.0@, e.1@);
            assert(ev == bv[j as int]);
            match self.index_of(e.0.as_str()) {
                Some(i) => {
                    proof {
                        lemma_merge_one_found(before, ev, i as int);
                    }
                    if self.versions[i].1.versions.len() == 0 && e.1.versions.len() > 0 {
                        assert(before[i as int].1.len() == 0 && ev.1.len() > 0);
                        let (k, _old_l) = self.versions.remove(i);
                        self.versions.insert(i, (k, clone_tool_version_list(&e.1)));
                        proof {
                            assert(self@.versions =~~= before.update(i as int, (before[i as int].0, ev.1)));
                        }
                    } else {
                        assert(!(before[i as int].1.len() == 0 && ev.1.len() > 0));
                    }
                },
                None => {
                    proof {
                        lemma_merge_one_absent(before, ev);
                    }
                    self.versions.push((clone_string(&e.0), clone_tool_version_list(&e.1)));
                    proof {
                        assert(self@.versions =~~= before.push(ev));
                    }
                },
            }
            proof {
                assert(self@.versions == spec_merge_one(before, ev));
                assert(bv.subrange(0, j + 1).drop_last() =~= bv.subrange(0, j as int));
                assert(bv.subrange(0, j + 1).last() == ev);
            }
            j += 1;
        }
        proof {
            assert(bv.subrange(0, bv.len() as int) =~= bv);
        }
    }
}

proof fn lemma_entries_get_first(entries: Seq<TsEntryV>, p: Seq<char>, i: int)
    requires
        0 <= i < entries.len(),
        entries[i].0 == p,
        forall|k: int| 0 <= k < i ==> entries[k].0 != p,
    ensures
        entries_get(entries, p) == Some(entries[i].1),
    decreases i,
{
    if i > 0 {
        let d = entries.drop_first();
        assert(forall|k: int| 0 <= k < i - 1 ==> d[k].0 != p);
        lemma_entries_get_first(d, p, i - 1);
    }
}

proof fn lemma_entries_get_none(entries: Seq<TsEntryV>, p: Seq<char>)
    requires
        forall|k: int| 0 <= k < entries.len() ==> entries[k].0 != p,
    ensures
        entries_get(entries, p) is None,
    decreases entries.len(),
{
    if entries.len() > 0 {
        let d = entries.drop_first();
        assert(forall|k: int| 0 <= k < d.len() ==> d[k].0 != p);
        lemma_entries_get_none(d, p);
    }
}

/// Assemble a toolset from config sources ordered nearest-first, per
/// `spec_sources_entries`: each source is folded in behind the ones
/// before it, so the nearest non-empty list for a plugin wins.
pub fn build_from_sources(source: ToolSource, nearest_first: &Vec<Toolset>) -> (r: Toolset)
    ensures
        r@.source == source@,
        r@.versions == spec_sources_entries(
            nearest_first@.map_values(|t: Toolset| t@),
        ),
{
    let ghost ss = nearest_first@.map_values(|t: Toolset| t@);
    let mut r = Toolset::new(source);
    let mut j: usize = 0;
    while j < nearest_first.len()
        invariant
            0 <= j <= nearest_first@.len(),
            ss == nearest_first@.map_values(|t: Toolset| t@),
            r@.source == source@,
            r@.versions == spec_sources_entries(ss.subrange(0, j as int)),
        decreases nearest_first@.len() - j,
    {
        r.merge(&nearest_first[j]);
        proof {
            assert(ss.subrange(0, j + 1).drop_last() =~= ss.subrange(0, j as int));
            assert(ss.subrange(0, j + 1).last() == ss[j as int]);
        }
        j += 1;
    }
    proof {
        assert(ss.subrange(0, ss.len() as int) =~= ss);
    }
    r
}

} // verus!
