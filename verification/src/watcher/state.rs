//! The watcher's state and decisions: which directories are watched, whether
//! the watcher runs, and what an event asks of the index.
use vstd::prelude::*;

use crate::error::GlintIndexError;
use crate::paths::{components_of, components_view, path_components, same_components, same_path};
use crate::preview::encoding::{lossy_utf8, utf8_lossy};
use crate::scanner::ignore::IgnoreRules;
use crate::scanner::parser::{is_likely_binary, looks_binary};
use crate::text::owned;
use crate::watcher::events::{event_path, WatchEvent};

verus! {

/// The texts of `v`.
pub open spec fn texts(v: Seq<String>) -> Seq<Seq<char>> {
    v.map_values(|s: String| s@)
}

/// A directory of `dirs` is the same path as `dir`.
pub open spec fn watches(dirs: Seq<Seq<char>>, dir: Seq<char>) -> bool {
    exists|k: int| 0 <= k < dirs.len() && same_path(#[trigger] dirs[k], dir)
}

/// No two directories of `dirs` are the same path.
pub open spec fn distinct_dirs(dirs: Seq<Seq<char>>) -> bool {
    forall|a: int, b: int|
        0 <= a < b < dirs.len() ==> !same_path(#[trigger] dirs[a], #[trigger] dirs[b])
}

/// The watch list after adding `dir`: a directory already watched, under
/// this or another spelling of its path, is not added again.
pub open spec fn with_dir(dirs: Seq<Seq<char>>, dir: Seq<char>) -> Seq<Seq<char>> {
    if watches(dirs, dir) {
        dirs
    } else {
        dirs.push(dir)
    }
}

/// Holds of the directories that are not the same path as `dir`.
pub open spec fn differs_from(dir: Seq<char>) -> spec_fn(Seq<char>) -> bool {
    |d: Seq<char>| !same_path(d, dir)
}

/// The watch list after removing `dir`.
pub open spec fn without_dir(dirs: Seq<Seq<char>>, dir: Seq<char>) -> Seq<Seq<char>> {
    dirs.filter(differs_from(dir))
}

/// Whether a directory named by a normal component of `path` is in `ignored`.
pub open spec fn in_ignored_dir(path: Seq<char>, ignored: Set<Seq<char>>) -> bool {
    exists|k: int|
        0 <= k < path_components(path).len() && (#[trigger] path_components(path)[k]).0
            && ignored.contains(path_components(path)[k].1)
}

/// Law: a path with an ignored directory name among its normal components
/// lies in an ignored directory, however deep that component is; and a
/// path outside every ignored directory has no such component at all.
pub proof fn law_ignored_component_anywhere(path: Seq<char>, ignored: Set<Seq<char>>, k: int)
    ensures
        0 <= k < path_components(path).len() && path_components(path)[k].0 && ignored.contains(
            path_components(path)[k].1,
        ) ==> in_ignored_dir(path, ignored),
        !in_ignored_dir(path, ignored) ==> !(0 <= k < path_components(path).len()
            && path_components(path)[k].0 && ignored.contains(path_components(path)[k].1)),
{
}

/// What an event asks of the index.
#[derive(Debug, Clone, PartialEq, Eq)]
pub enum WatchAction {
    /// Nothing: the path lies in an ignored directory.
    Skip,
    /// Index the file at the path (added, or updated if already indexed).
    Index(String),
    /// Remove the document of the path from the index.
    Remove(String),
}

/// The watcher's state: whether it runs, the watched directories and the
/// ignore rules applied to the paths of events.
pub struct WatcherState {
    running: bool,
    watched_dirs: Vec<String>,
    ignore_rules: IgnoreRules,
}

impl WatcherState {
    /// Whether the watcher runs.
    pub closed spec fn spec_running(&self) -> bool {
        self.running
    }

    /// The watched directories, in the order they were added.
    pub closed spec fn dirs(&self) -> Seq<Seq<char>> {
        texts(self.watched_dirs@)
    }

    /// The ignored directory names.
    pub closed spec fn ignored(&self) -> Set<Seq<char>> {
        self.ignore_rules@
    }

    /// No directory is watched twice, under any spelling of its path.
    pub open spec fn wf(&self) -> bool {
        distinct_dirs(self.dirs())
    }

    /// A stopped watcher with no watched directories and the default ignore
    /// rules.
    pub fn new() -> (r: Self)
        ensures
            r.wf(),
            !r.spec_running(),
            r.dirs() == Seq::<Seq<char>>::empty(),
            r.ignored() == crate::scanner::ignore::default_ignored_dirs(),
    {
        let r = WatcherState { running: false, watched_dirs: Vec::new(), ignore_rules: IgnoreRules::new() };
        assert(r.dirs() =~= Seq::<Seq<char>>::empty());
        r
    }

    /// A stopped watcher with no watched directories whose ignore rules
    /// merge `custom` into the defaults.
    pub fn with_custom_ignores(custom: &[String]) -> (r: Self)
        ensures
            r.wf(),
            !r.spec_running(),
            r.dirs() == Seq::<Seq<char>>::empty(),
            r.ignored() == IgnoreRules::with_custom_spec(custom@),
    {
        let r = WatcherState {
            running: false,
            watched_dirs: Vec::new(),
            ignore_rules: IgnoreRules::with_custom(custom),
        };
        assert(r.dirs() =~= Seq::<Seq<char>>::empty());
        r
    }

    /// Returns `true` if the watcher is currently running.
    pub fn is_running(&self) -> (r: bool)
        ensures
            r == self.spec_running(),
    {
        self.running
    }

    /// Records that the watcher started or stopped.
    pub fn set_running(&mut self, running: bool)
        ensures
            final(self).spec_running() == running,
            final(self).dirs() == old(self).dirs(),
            final(self).ignored() == old(self).ignored(),
    {
        self.running = running;
    }

    /// Returns the list of currently watched directories.
    pub fn watched_dirs(&self) -> (r: &[String])
        ensures
            texts(r@) == self.dirs(),
    {
        self.watched_dirs.as_slice()
    }

    /// Adds a directory to the watch list unless it is already there.
    pub fn watch_dir(&mut self, dir: &str)
        requires
            old(self).wf(),
        ensures
            final(self).wf(),
            final(self).dirs() == with_dir(old(self).dirs(), dir@),
            final(self).spec_running() == old(self).spec_running(),
            final(self).ignored() == old(self).ignored(),
    {
        let ghost before = self.dirs();
        let comps = components_of(dir);
        let mut i: usize = 0;
        while i < self.watched_dirs.len()
            invariant
                i <= self.watched_dirs@.len(),
                before == texts(self.watched_dirs@),
                distinct_dirs(before),
                components_view(comps@) == path_components(dir@),
                forall|k: int| 0 <= k < i ==> !same_path(#[trigger] before[k], dir@),
            decreases self.watched_dirs.len() - i,
        {
            let other = components_of(self.watched_dirs[i].as_str());
            assert(self.watched_dirs@[i as int]@ == before[i as int]);
            if same_components(&other, &comps) {
                assert(same_path(before[i as int], dir@));
                assert(watches(before, dir@));
                return;
            }
            i += 1;
        }
        assert(!watches(before, dir@));
        self.watched_dirs.push(owned(dir));
        assert(self.dirs() =~= before.push(dir@));
        assert forall|a: int, b: int| 0 <= a < b < self.dirs().len() implies !same_path(
            #[trigger] self.dirs()[a],
            #[trigger] self.dirs()[b],
        ) by {
            if b == before.len() {
                assert(self.dirs()[a] == before[a]);
                assert(self.dirs()[b] == dir@);
            } else {
                assert(self.dirs()[a] == before[a]);
                assert(self.dirs()[b] == before[b]);
            }
        }
    }

    /// Removes a directory from the watch list.
    pub fn unwatch_dir(&mut self, dir: &str)
        requires
            old(self).wf(),
        ensures
            final(self).wf(),
            final(self).dirs() == without_dir(old(self).dirs(), dir@),
            final(self).spec_running() == old(self).spec_running(),
            final(self).ignored() == old(self).ignored(),
    {
        let ghost before = self.dirs();
        let comps = components_of(dir);
        let mut kept: Vec<String> = Vec::new();
        let mut i: usize = 0;
        while i < self.watched_dirs.len()
            invariant
                i <= self.watched_dirs@.len(),
                before == texts(self.watched_dirs@),
                distinct_dirs(before),
                components_view(comps@) == path_components(dir@),
                texts(kept@) == before.take(i as int).filter(differs_from(dir@)),
            decreases self.watched_dirs.len() - i,
        {
            proof {
                reveal(Seq::filter);
                assert(before.take(i + 1).drop_last() =~= before.take(i as int));
                assert(before.take(i + 1).last() == before[i as int]);
                assert(before.take(i + 1).filter(differs_from(dir@)) == if differs_from(dir@)(before[i as int]) {
                    before.take(i as int).filter(differs_from(dir@)).push(before[i as int])
                } else {
                    before.take(i as int).filter(differs_from(dir@))
                });
            }
            assert(self.watched_dirs@[i as int]@ == before[i as int]);
            let other = components_of(self.watched_dirs[i].as_str());
            if !same_components(&other, &comps) {
                let d = self.watched_dirs[i].clone();
                let ghost prev = kept@;
                kept.push(d);
                assert(differs_from(dir@)(before[i as int]));
                assert(texts(kept@) =~= texts(prev).push(before[i as int]));
                assert(texts(kept@) == before.take(i + 1).filter(differs_from(dir@)));
            } else {
                assert(!differs_from(dir@)(before[i as int]));
                assert(texts(kept@) == before.take(i + 1).filter(differs_from(dir@)));
            }
            i += 1;
        }
        proof {
            assert(before.take(i as int) =~= before);
            lemma_filter_keeps_distinct(before, differs_from(dir@));
        }
        self.watched_dirs = kept;
    }

    /// Whether `path` lies in an ignored directory: a normal component of it
    /// is an ignored name.
    pub fn should_ignore_path(&self, path: &str) -> (r: bool)
        ensures
            r == in_ignored_dir(path@, self.ignored()),
            forall|k: int|
                0 <= k < path_components(path@).len() && (#[trigger] path_components(path@)[k]).0
                    && self.ignored().contains(path_components(path@)[k].1) ==> r,
    {
        let comps = components_of(path);
        let ghost names = path_components(path@);
        let mut i: usize = 0;
        while i < comps.len()
            invariant
                i <= comps@.len(),
                names == path_components(path@),
                components_view(comps@) == names,
                forall|k: int|
                    0 <= k < i ==> !((#[trigger] names[k]).0 && self.ignored().contains(names[k].1)),
            decreases comps.len() - i,
        {
            assert(names[i as int] == (comps@[i as int].0, comps@[i as int].1@));
            if comps[i].0 && self.ignore_rules.should_ignore_dir(comps[i].1.as_str()) {
                assert(path_components(path@)[i as int] == names[i as int]);
                return true;
            }
            i += 1;
        }
        assert(!in_ignored_dir(path@, self.ignored())) by {
            assert(names.len() == comps@.len());
        }
        false
    }

    /// What `event` asks of the index: nothing when its path lies in an
    /// ignored directory, else indexing the file for a creation or a
    /// modification and removing its document for a deletion.
    pub fn action_for(&self, event: &WatchEvent) -> (r: WatchAction)
        ensures
            in_ignored_dir(event_path(*event), self.ignored()) ==> r == WatchAction::Skip,
            forall|k: int|
                0 <= k < path_components(event_path(*event)).len() && (#[trigger] path_components(
                    event_path(*event),
                )[k]).0 && self.ignored().contains(path_components(event_path(*event))[k].1) ==> r
                    == WatchAction::Skip,
            !in_ignored_dir(event_path(*event), self.ignored()) ==> match *event {
                WatchEvent::Created(p) => (r matches WatchAction::Index(q) && q@ == p@),
                WatchEvent::Modified(p) => (r matches WatchAction::Index(q) && q@ == p@),
                WatchEvent::Deleted(p) => (r matches WatchAction::Remove(q) && q@ == p@),
            },
    {
        if self.should_ignore_path(event.path()) {
            return WatchAction::Skip;
        }
        match event {
            WatchEvent::Created(p) => WatchAction::Index(p.clone()),
            WatchEvent::Modified(p) => WatchAction::Index(p.clone()),
            WatchEvent::Deleted(p) => WatchAction::Remove(p.clone()),
        }
    }
}

proof fn lemma_filter_keeps_distinct(s: Seq<Seq<char>>, p: spec_fn(Seq<char>) -> bool)
    requires
        distinct_dirs(s),
    ensures
        distinct_dirs(s.filter(p)),
    decreases s.len(),
{
    reveal(Seq::filter);
    if s.len() > 0 {
        let init = s.drop_last();
        assert(distinct_dirs(init)) by {
            assert forall|a: int, b: int| 0 <= a < b < init.len() implies !same_path(
                #[trigger] init[a],
                #[trigger] init[b],
            ) by {
                assert(init[a] == s[a] && init[b] == s[b]);
            }
        }
        lemma_filter_keeps_distinct(init, p);
        if p(s.last()) {
            let f = init.filter(p);
            let g = f.push(s.last());
            assert forall|a: int, b: int| 0 <= a < b < g.len() implies !same_path(
                #[trigger] g[a],
                #[trigger] g[b],
            ) by {
                if b == f.len() {
                    assert(f.contains(g[a]));
                    init.lemma_filter_contains_rev(p, g[a]);
                    let m = choose|m: int| 0 <= m < init.len() && init[m] == g[a];
                    assert(s[m] == g[a]);
                    assert(g[b] == s[s.len() - 1]);
                } else {
                    assert(g[a] == f[a] && g[b] == f[b]);
                }
            }
        }
    }
}

/// Watching a directory a second time changes nothing, whichever spelling
/// of its path is used the second time.
pub proof fn law_watch_is_idempotent(dirs: Seq<Seq<char>>, dir: Seq<char>, again: Seq<char>)
    requires
        same_path(dir, again),
    ensures
        with_dir(with_dir(dirs, dir), again) == with_dir(dirs, dir),
{
    if !watches(dirs, dir) {
        let pushed = dirs.push(dir);
        assert(same_path(pushed[dirs.len() as int], again));
        assert(watches(pushed, again));
    } else {
        let k = choose|k: int| 0 <= k < dirs.len() && same_path(#[trigger] dirs[k], dir);
        assert(same_path(dirs[k], again));
    }
}

/// After a directory is unwatched, no spelling of its path is watched, and
/// every directory that is another path stays as watched as it was.
pub proof fn law_unwatch_removes_only_dir(dirs: Seq<Seq<char>>, dir: Seq<char>, other: Seq<char>)
    requires
        !same_path(other, dir),
    ensures
        !watches(without_dir(dirs, dir), dir),
        without_dir(dirs, dir).contains(other) == dirs.contains(other),
{
    broadcast use vstd::seq_lib::group_filter_ensures;

    let w = without_dir(dirs, dir);
    if watches(w, dir) {
        let k = choose|k: int| 0 <= k < w.len() && same_path(#[trigger] w[k], dir);
        dirs.lemma_filter_pred(differs_from(dir), k);
    }
    if dirs.contains(other) {
        let k = choose|k: int| 0 <= k < dirs.len() && dirs[k] == other;
        assert(differs_from(dir)(dirs[k]));
        assert(w.contains(dirs[k]));
    }
    if w.contains(other) {
        dirs.lemma_filter_contains_rev(differs_from(dir), other);
    }
}

/// Unwatching a directory that was just added to a watch list without it
/// gives back that watch list.
pub proof fn law_unwatch_undoes_watch(dirs: Seq<Seq<char>>, dir: Seq<char>)
    requires
        !watches(dirs, dir),
    ensures
        without_dir(with_dir(dirs, dir), dir) == dirs,
{
    reveal(Seq::filter);
    assert(dirs.push(dir).drop_last() =~= dirs);
    assert(!differs_from(dir)(dir));
    lemma_filter_keeps_all(dirs, dir);
}

proof fn lemma_filter_keeps_all(dirs: Seq<Seq<char>>, dir: Seq<char>)
    requires
        !watches(dirs, dir),
    ensures
        dirs.filter(differs_from(dir)) == dirs,
    decreases dirs.len(),
{
    reveal(Seq::filter);
    if dirs.len() > 0 {
        assert(!watches(dirs.drop_last(), dir)) by {
            if watches(dirs.drop_last(), dir) {
                let k = choose|k: int| 0 <= k < dirs.drop_last().len() && same_path(
                    #[trigger] dirs.drop_last()[k],
                    dir,
                );
                assert(dirs[k] == dirs.drop_last()[k]);
                assert(same_path(dirs[k], dir));
            }
        }
        lemma_filter_keeps_all(dirs.drop_last(), dir);
        assert(!same_path(dirs[dirs.len() - 1], dir));
        assert(differs_from(dir)(dirs.last()));
        assert(dirs.drop_last().push(dirs.last()) =~= dirs);
    }
}

/// The text to index for a file whose content is `bytes`: content that
/// looks binary is refused, other content is decoded as UTF-8 with invalid
/// sequences replaced.
pub fn document_text(bytes: &[u8]) -> (r: Result<String, GlintIndexError>)
    ensures
        looks_binary(bytes@) ==> (r matches Err(GlintIndexError::Other(m)) && m@
            == "binary file detected"@),
        !looks_binary(bytes@) ==> (r matches Ok(t) && t@ == utf8_lossy(bytes@)),
{
    if is_likely_binary(bytes) {
        Err(GlintIndexError::Other(owned("binary file detected")))
    } else {
        Ok(lossy_utf8(bytes))
    }
}

/// The error for a file whose type is not indexed.
pub fn unsupported_file_type() -> (r: GlintIndexError)
    ensures
        r matches GlintIndexError::Other(m) && m@ == "unsupported file type"@,
{
    GlintIndexError::Other(owned("unsupported file type"))
}

} // verus!
