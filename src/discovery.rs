//! The discovery engine: deduplicating project detection over a depth-first walk.
//!
//! The caller walks the filesystem and hands each directory entry to `Discovery::consider`,
//! which says whether the entry is a project not reported before, and whether to descend
//! into it. Projects are keyed by canonical path, so a project reached through several
//! symlinks is reported once; a directory is descended into at most once per canonical
//! path, so symlink cycles end.
use vstd::prelude::*;
use crate::text::text_eq;
use vstd::string::*;

verus! {

/// What the walk knows of one directory entry.
#[derive(Debug)]
pub struct EntryInfo {
    /// The entry's file name.
    pub name: String,
    /// Whether it is a directory (following symlinks).
    pub is_dir: bool,
    /// Whether it holds a manifest file in its manifest directory.
    pub has_manifest: bool,
    /// Its canonical path, when that could be resolved.
    pub canonical: Option<String>,
}

/// An `EntryInfo` with its text as character sequences.
pub struct EntryView {
    pub name: Seq<char>,
    pub is_dir: bool,
    pub has_manifest: bool,
    pub canonical: Option<Seq<char>>,
}

impl View for EntryInfo {
    type V = EntryView;

    open spec fn view(&self) -> EntryView {
        EntryView {
            name: self.name@,
            is_dir: self.is_dir,
            has_manifest: self.has_manifest,
            canonical: match self.canonical {
                Some(c) => Some(c@),
                None => None,
            },
        }
    }
}

/// How a walk treats entries.
#[derive(Debug, Clone, Copy)]
pub struct ScanPolicy {
    /// Descend into subdirectories at all.
    pub recursive: bool,
    /// Ignore entries whose name starts with `.`.
    pub skip_hidden: bool,
    /// Descend into a directory that is itself a project.
    pub descend_into_projects: bool,
}

/// The policy of `scan`: every directory is descended into when recursive.
pub open spec fn scan_policy_spec(recursive: bool) -> ScanPolicy {
    ScanPolicy { recursive, skip_hidden: false, descend_into_projects: true }
}

/// The policy of `list`: hidden entries are ignored; every other directory is descended into.
pub open spec fn list_policy_spec() -> ScanPolicy {
    ScanPolicy { recursive: true, skip_hidden: true, descend_into_projects: true }
}

/// The policy used by the `scan` command.
pub fn scan_policy(recursive: bool) -> (r: ScanPolicy)
    ensures
        r == scan_policy_spec(recursive),
{
    ScanPolicy { recursive, skip_hidden: false, descend_into_projects: true }
}

/// The policy used by the `list` command.
pub fn list_policy() -> (r: ScanPolicy)
    ensures
        r == list_policy_spec(),
{
    ScanPolicy { recursive: true, skip_hidden: true, descend_into_projects: true }
}

/// A name that starts with `.`.
pub open spec fn is_hidden(name: Seq<char>) -> bool {
    name.len() > 0 && name[0] == '.'
}

/// The entry is ignored under the policy.
pub open spec fn is_skipped(e: EntryView, p: ScanPolicy) -> bool {
    p.skip_hidden && is_hidden(e.name)
}

/// The entry is a project directory with a known canonical path.
pub open spec fn is_project(e: EntryView, p: ScanPolicy) -> bool {
    !is_skipped(e, p) && e.is_dir && e.has_manifest && e.canonical is Some
}

/// The projects found after `e`, when `found` were found before it.
pub open spec fn after_entry(found: Seq<Seq<char>>, e: EntryView, p: ScanPolicy) -> Seq<Seq<char>> {
    if is_project(e, p) && !found.contains(e.canonical->Some_0) {
        found.push(e.canonical->Some_0)
    } else {
        found
    }
}

/// The projects reported, in order, for the entries `h` considered in order.
pub open spec fn discover_spec(h: Seq<EntryView>, p: ScanPolicy) -> Seq<Seq<char>>
    decreases h.len(),
{
    if h.len() == 0 {
        seq![]
    } else {
        after_entry(discover_spec(h.drop_last(), p), h.last(), p)
    }
}

/// The canonical paths of all project entries among `h`.
pub open spec fn project_paths(h: Seq<EntryView>, p: ScanPolicy) -> Set<Seq<char>> {
    Set::new(|c: Seq<char>| exists|i: int| 0 <= i < h.len() && is_project(h[i], p) && h[i].canonical == Some(c))
}

/// Whether the walk descends into `e`, when the directories in `visited` were entered before.
pub open spec fn descends(e: EntryView, visited: Seq<Seq<char>>, p: ScanPolicy) -> bool {
    &&& p.recursive
    &&& !is_skipped(e, p)
    &&& e.is_dir
    &&& (p.descend_into_projects || !e.has_manifest)
    &&& e.canonical is Some
    &&& !visited.contains(e.canonical->Some_0)
}

/// What `consider` says of one entry.
#[derive(Debug, Clone, Copy, PartialEq, Eq, Structural)]
pub struct Decision {
    /// The entry is a project not reported before.
    pub report: bool,
    /// The caller should walk into the entry next.
    pub descend: bool,
}

/// The accumulated state of a walk over one or more roots.
pub struct Discovery {
    policy: ScanPolicy,
    found: Vec<String>,
    visited: Vec<String>,
    history: Ghost<Seq<EntryView>>,
}

/// The views of a vector of strings.
pub open spec fn views(v: Seq<String>) -> Seq<Seq<char>> {
    v.map_values(|s: String| s@)
}

/// Whether `s` is among `v`.
fn contains_text(v: &Vec<String>, s: &str) -> (r: bool)
    ensures
        r == views(v@).contains(s@),
{
    let mut i: usize = 0;
    while i < v.len()
        invariant
            i <= v@.len(),
            forall|j: int| 0 <= j < i ==> v@[j]@ != s@,
        decreases v@.len() - i,
    {
        if text_eq(v[i].as_str(), s) {
            assert(views(v@)[i as int] == s@);
            return true;
        }
        i = i + 1;
    }
    assert forall|j: int| 0 <= j < views(v@).len() implies views(v@)[j] != s@ by {
        assert(views(v@)[j] == v@[j]@);
    }
    false
}

impl Discovery {
    /// The projects reported so far, by canonical path.
    pub closed spec fn found_view(&self) -> Seq<Seq<char>> {
        views(self.found@)
    }

    /// The entries considered so far, in order.
    pub closed spec fn history_view(&self) -> Seq<EntryView> {
        self.history@
    }

    /// The canonical paths of the directories descended into so far.
    pub closed spec fn visited_view(&self) -> Seq<Seq<char>> {
        views(self.visited@)
    }

    /// The policy of this walk.
    pub closed spec fn policy_view(&self) -> ScanPolicy {
        self.policy
    }

    /// The reported projects are exactly those that the considered entries determine, and
    /// no directory has been descended into twice.
    pub closed spec fn wf(&self) -> bool {
        &&& views(self.found@) == discover_spec(self.history@, self.policy)
        &&& views(self.visited@).no_duplicates()
    }

    /// A walk under `policy` that has considered nothing yet.
    pub fn new(policy: ScanPolicy) -> (r: Discovery)
        ensures
            r.wf(),
            r.policy_view() == policy,
            r.history_view() == Seq::<EntryView>::empty(),
            r.found_view() == Seq::<Seq<char>>::empty(),
            r.visited_view() == Seq::<Seq<char>>::empty(),
            r.found_view() == discover_spec(r.history_view(), r.policy_view()),
    {
        let r = Discovery { policy, found: Vec::new(), visited: Vec::new(), history: Ghost(Seq::empty()) };
        assert(views(r.found@) =~= Seq::<Seq<char>>::empty());
        assert(views(r.visited@) =~= Seq::<Seq<char>>::empty());
        r
    }

    /// Considers the next entry of the walk.
    pub fn consider(&mut self, e: &EntryInfo) -> (d: Decision)
        requires
            old(self).wf(),
        ensures
            final(self).wf(),
            final(self).policy_view() == old(self).policy_view(),
            final(self).history_view() == old(self).history_view().push(e@),
            final(self).found_view() == after_entry(old(self).found_view(), e@, old(self).policy_view()),
            final(self).found_view() == discover_spec(final(self).history_view(), final(self).policy_view()),
            d.report == (final(self).found_view() != old(self).found_view()),
            d.report ==> final(self).found_view() == old(self).found_view().push(e@.canonical->Some_0),
            d.descend == descends(e@, old(self).visited_view(), old(self).policy_view()),
            final(self).visited_view().no_duplicates(),
            final(self).visited_view() == (if d.descend {
                old(self).visited_view().push(e@.canonical->Some_0)
            } else {
                old(self).visited_view()
            }),
    {
        let p = self.policy;
        let ghost old_found = views(self.found@);
        let ghost old_visited = views(self.visited@);
        let ghost h = self.history@.push(e@);
        proof {
            assert(h.drop_last() =~= self.history@);
            assert(h.last() == e@);
        }
        let name = e.name.as_str();
        let hidden = p.skip_hidden && name.unicode_len() > 0 && name.get_char(0) == '.';
        assert(hidden == is_skipped(e@, p));
        let mut report = false;
        let mut descend = false;
        match &e.canonical {
            Some(c) => {
                if !hidden && e.is_dir && e.has_manifest && !contains_text(&self.found, c.as_str()) {
                    self.found.push(c.clone());
                    report = true;
                    assert(views(self.found@) =~= old_found.push(c@));
                }
                if p.recursive && !hidden && e.is_dir && (p.descend_into_projects || !e.has_manifest)
                    && !contains_text(&self.visited, c.as_str()) {
                    self.visited.push(c.clone());
                    descend = true;
                    assert(views(self.visited@) =~= old_visited.push(c@));
                    assert(views(self.visited@).no_duplicates()) by {
                        let v = old_visited.push(c@);
                        assert forall|i: int, j: int| 0 <= i < v.len() && 0 <= j < v.len() && i != j
                            implies v[i] != v[j] by {
                            if i == old_visited.len() {
                                assert(old_visited.contains(old_visited[j]));
                            } else if j == old_visited.len() {
                                assert(old_visited.contains(old_visited[i]));
                            }
                        }
                    }
                }
            },
            None => {},
        }
        self.history = Ghost(h);
        proof {
            if report {
                assert(old_found.push(e@.canonical->Some_0).len() == old_found.len() + 1);
            }
        }
        Decision { report, descend }
    }

    /// The canonical paths of the projects reported so far, in order.
    pub fn found(&self) -> (r: &Vec<String>)
        ensures
            views(r@) == self.found_view(),
    {
        &self.found
    }
}

/// No project is reported twice, and the reported projects are exactly the distinct
/// canonical paths of the project entries met, however many times each was met.
pub proof fn lemma_discovery_exact(h: Seq<EntryView>, p: ScanPolicy)
    ensures
        discover_spec(h, p).no_duplicates(),
        discover_spec(h, p).to_set() == project_paths(h, p),
        discover_spec(h, p).len() == project_paths(h, p).len(),
    decreases h.len(),
{
    if h.len() == 0 {
        assert(discover_spec(h, p).to_set() =~= project_paths(h, p));
        discover_spec(h, p).lemma_cardinality_of_empty_set_is_0();
    } else {
        let prev = h.drop_last();
        let e = h.last();
        lemma_discovery_exact(prev, p);
        let f = discover_spec(prev, p);
        assert forall|c: Seq<char>| #[trigger] project_paths(h, p).contains(c) <==>
            (project_paths(prev, p).contains(c) || (is_project(e, p) && e.canonical == Some(c))) by {
            if project_paths(h, p).contains(c) {
                let i = choose|i: int| 0 <= i < h.len() && is_project(h[i], p) && h[i].canonical == Some(c);
                if i < h.len() - 1 {
                    assert(prev[i] == h[i]);
                }
            }
            if project_paths(prev, p).contains(c) {
                let i = choose|i: int| 0 <= i < prev.len() && is_project(prev[i], p) && prev[i].canonical == Some(c);
                assert(h[i] == prev[i]);
            }
            if is_project(e, p) && e.canonical == Some(c) {
                assert(h[h.len() - 1] == e);
            }
        }
        if is_project(e, p) && !f.contains(e.canonical->Some_0) {
            let c = e.canonical->Some_0;
            f.lemma_push_to_set_commute(c);
            assert(project_paths(h, p) =~= project_paths(prev, p).insert(c));
            assert(f.push(c).no_duplicates()) by {
                assert forall|i: int, j: int| 0 <= i < f.push(c).len() && 0 <= j < f.push(c).len() && i != j
                    implies f.push(c)[i] != f.push(c)[j] by {
                    if i == f.len() {
                        assert(f.contains(f[j]));
                    } else if j == f.len() {
                        assert(f.contains(f[i]));
                    }
                }
            }
            f.unique_seq_to_set();
            f.push(c).unique_seq_to_set();
        } else {
            if is_project(e, p) {
                assert(f.to_set().contains(e.canonical->Some_0));
            }
            assert(project_paths(h, p) =~= project_paths(prev, p));
        }
        discover_spec(h, p).unique_seq_to_set();
    }
}

} // verus!
