//! Application-level filesystem events.
use vstd::prelude::*;

verus! {

/// Application-level filesystem event abstraction.
///
/// Represents a detected change to a file in a watched directory,
/// decoupled from any filesystem notification library.
#[derive(Debug, Clone, PartialEq, Eq)]
pub enum WatchEvent {
    /// A new file was created or appeared in a watched directory.
    Created(String),
    /// An existing file was modified.
    Modified(String),
    /// A file was deleted or moved out of a watched directory.
    Deleted(String),
}

/// The path a watch event is about.
pub open spec fn event_path(e: WatchEvent) -> Seq<char> {
    match e {
        WatchEvent::Created(p) => p@,
        WatchEvent::Modified(p) => p@,
        WatchEvent::Deleted(p) => p@,
    }
}

/// The human-readable kind of a watch event.
pub open spec fn event_kind(e: WatchEvent) -> Seq<char> {
    match e {
        WatchEvent::Created(_) => "created"@,
        WatchEvent::Modified(_) => "modified"@,
        WatchEvent::Deleted(_) => "deleted"@,
    }
}

impl WatchEvent {
    /// Returns the path of the affected file.
    pub fn path(&self) -> (r: &str)
        ensures
            r@ == event_path(*self),
    {
        match self {
            WatchEvent::Created(p) => p.as_str(),
            WatchEvent::Modified(p) => p.as_str(),
            WatchEvent::Deleted(p) => p.as_str(),
        }
    }

    /// Returns a human-readable description of the event type.
    pub fn kind(&self) -> (r: &'static str)
        ensures
            r@ == event_kind(*self),
    {
        match self {
            WatchEvent::Created(_) => "created",
            WatchEvent::Modified(_) => "modified",
            WatchEvent::Deleted(_) => "deleted",
        }
    }
}

/// The kind of a change that the filesystem notifier reports.
#[derive(Debug, Clone, Copy, PartialEq, Eq)]
pub enum ChangeKind {
    /// Something was created.
    Create,
    /// Something was modified.
    Modify,
    /// Something was removed.
    Remove,
    /// Access and other kinds of notification.
    Other,
}

/// The kind and path of a watch event.
pub open spec fn event_view(e: WatchEvent) -> (ChangeKind, Seq<char>) {
    match e {
        WatchEvent::Created(p) => (ChangeKind::Create, p@),
        WatchEvent::Modified(p) => (ChangeKind::Modify, p@),
        WatchEvent::Deleted(p) => (ChangeKind::Remove, p@),
    }
}

/// Converts a notification of a change of `kind` to the paths `paths` into
/// watch events, one per path in order; other kinds of notification give
/// none.
pub fn events_for(kind: ChangeKind, paths: &[String]) -> (r: Vec<WatchEvent>)
    ensures
        kind == ChangeKind::Other ==> r@.len() == 0,
        kind != ChangeKind::Other ==> r@.map_values(|e: WatchEvent| event_view(e)) == paths@.map_values(
            |p: String| (kind, p@),
        ),
{
    let mut out: Vec<WatchEvent> = Vec::new();
    if let ChangeKind::Other = kind {
        return out;
    }
    let mut i: usize = 0;
    while i < paths.len()
        invariant
            kind != ChangeKind::Other,
            i <= paths@.len(),
            out@.len() == i,
            forall|k: int| 0 <= k < i ==> event_view(#[trigger] out@[k]) == (kind, paths@[k]@),
        decreases paths.len() - i,
    {
        let p = paths[i].clone();
        let e = match kind {
            ChangeKind::Create => WatchEvent::Created(p),
            ChangeKind::Modify => WatchEvent::Modified(p),
            _ => WatchEvent::Deleted(p),
        };
        out.push(e);
        i += 1;
    }
    assert(out@.map_values(|e: WatchEvent| event_view(e)) =~= paths@.map_values(|p: String| (kind, p@)));
    out
}

/// Declares `notify`'s `Event`, a filesystem notification; Verus sees
/// nothing inside it.
#[verifier::external_type_specification]
#[verifier::external_body]
pub struct ExNotifyEvent(notify::Event);

/// Names the kind of a `notify` event (its `kind` field) as a change kind:
/// creation, modification, removal, or another kind.
pub uninterp spec fn notification_kind_of(event: notify::Event) -> ChangeKind;

/// Names the paths of a `notify` event (its `paths` field), in order, each
/// as text.
pub uninterp spec fn notification_paths_of(event: notify::Event) -> Seq<Seq<char>>;

/// Tells apart the kinds of a `notify` event (its `kind` field): creation,
/// modification and removal, and the other kinds (access, `Any`, `Other`).
/// The result is the event's kind, named by [`notification_kind_of`]; which
/// variant maps to which kind is not stated, as `EventKind` is opaque here.
#[verifier::external_body]
fn notification_kind(event: &notify::Event) -> (r: ChangeKind)
    ensures
        r == notification_kind_of(*event),
{
    match event.kind {
        notify::EventKind::Create(_) => ChangeKind::Create,
        notify::EventKind::Modify(_) => ChangeKind::Modify,
        notify::EventKind::Remove(_) => ChangeKind::Remove,
        notify::EventKind::Access(_) => ChangeKind::Other,
        notify::EventKind::Any => ChangeKind::Other,
        notify::EventKind::Other => ChangeKind::Other,
    }
}

/// The paths of a `notify` event (its `paths` field), in order, each as
/// text; a name that is not UTF-8 has its invalid parts replaced. The
/// result is the event's paths, named by [`notification_paths_of`].
#[verifier::external_body]
fn notification_paths(event: &notify::Event) -> (r: Vec<String>)
    ensures
        r@.map_values(|p: String| p@) == notification_paths_of(*event),
{
    event.paths.iter().map(|p| p.to_string_lossy().into_owned()).collect()
}

/// The events all have the same kind: all creations, all modifications or
/// all deletions.
pub open spec fn one_kind(events: Seq<WatchEvent>) -> bool {
    forall|i: int, j: int|
        0 <= i < events.len() && 0 <= j < events.len() ==> (#[trigger] event_view(events[i])).0
            == (#[trigger] event_view(events[j])).0
}

/// The watch events a notification of change kind `kind` to `paths` asks
/// for: one per path, in order, with that kind; none for other kinds.
pub open spec fn notified_events(kind: ChangeKind, paths: Seq<Seq<char>>) -> Seq<(ChangeKind, Seq<char>)> {
    if kind == ChangeKind::Other {
        Seq::empty()
    } else {
        paths.map_values(|p: Seq<char>| (kind, p))
    }
}

/// Converts a filesystem notification into watch events: one per path of
/// a creation, modification or removal, in order, none for other
/// notifications.
pub fn events_of_notification(event: &notify::Event) -> (r: Vec<WatchEvent>)
    ensures
        r@.map_values(|e: WatchEvent| event_view(e)) == notified_events(
            notification_kind_of(*event),
            notification_paths_of(*event),
        ),
        one_kind(r@),
{
    let kind = notification_kind(event);
    let paths = notification_paths(event);
    let r = events_for(kind, paths.as_slice());
    let ghost views = r@.map_values(|e: WatchEvent| event_view(e));
    proof {
        if kind == ChangeKind::Other {
            assert(views =~= notified_events(kind, notification_paths_of(*event)));
        } else {
            let texts = paths@.map_values(|p: String| p@);
            assert(paths@.map_values(|p: String| (kind, p@)) =~= texts.map_values(
                |p: Seq<char>| (kind, p),
            ));
        }
    }
    assert forall|i: int, j: int| 0 <= i < r@.len() && 0 <= j < r@.len() implies (#[trigger] event_view(
        r@[i],
    )).0 == (#[trigger] event_view(r@[j])).0 by {
        assert(views[i] == event_view(r@[i]));
        assert(views[j] == event_view(r@[j]));
        assert(views[i].0 == kind && views[j].0 == kind);
    }
    r
}

} // verus!
