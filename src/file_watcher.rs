//! The state of a watched directory and the changes between two scans of it.

use vstd::prelude::*;
use vstd::string::*;
use crate::text::same_text;

verus! {

/// What a scan records of a file: its modification time in nanoseconds
/// since the Unix epoch, and its size in bytes.
#[derive(Clone, Copy, Debug, PartialEq, Eq, Structural)]
pub struct FileState {
    pub modified_time: u64,
    pub size: u64,
}

#[derive(Clone, Copy, Debug, PartialEq, Eq, Structural)]
pub enum FileChangeType {
    Added,
    Modified,
    Deleted,
}

/// A file that appeared, changed or disappeared between two scans.
#[derive(Clone, Debug)]
pub struct FileChangeEvent {
    pub file_path: String,
    pub change_type: FileChangeType,
    pub timestamp: u64,
    pub file_size: u64,
}

/// An event as plain values.
pub struct EventView {
    pub path: Seq<char>,
    pub kind: FileChangeType,
    pub timestamp: int,
    pub size: int,
}

pub open spec fn event_views(v: Seq<FileChangeEvent>) -> Seq<EventView> {
    v.map_values(
        |e: FileChangeEvent|
            EventView {
                path: e.file_path@,
                kind: e.change_type,
                timestamp: e.timestamp as int,
                size: e.file_size as int,
            },
    )
}

/// No two entries of a scan share a path.
pub open spec fn distinct_paths(s: Seq<(String, FileState)>) -> bool {
    forall|i: int, j: int| 0 <= i < j < s.len() ==> s[i].0@ != s[j].0@
}

/// The state recorded for `path` in a scan, if any.
pub open spec fn state_of(s: Seq<(String, FileState)>, path: Seq<char>) -> Option<FileState>
    decreases s.len(),
{
    if s.len() == 0 {
        None
    } else if s.last().0@ == path {
        Some(s.last().1)
    } else {
        state_of(s.drop_last(), path)
    }
}

pub const NANOS_PER_SECOND: u64 = 1_000_000_000;

/// Files of the new scan that are new, or newer or of another size than
/// before, in the order of the new scan.
pub open spec fn added_or_modified(old: Seq<(String, FileState)>, cur: Seq<(String, FileState)>) -> Seq<
    EventView,
>
    decreases cur.len(),
{
    if cur.len() == 0 {
        Seq::empty()
    } else {
        let prev = added_or_modified(old, cur.drop_last());
        let (p, st) = cur.last();
        let ev = |k: FileChangeType|
            EventView {
                path: p@,
                kind: k,
                timestamp: st.modified_time as int / NANOS_PER_SECOND as int,
                size: st.size as int,
            };
        match state_of(old, p@) {
            None => prev.push(ev(FileChangeType::Added)),
            Some(o) => if st.modified_time > o.modified_time || st.size != o.size {
                prev.push(ev(FileChangeType::Modified))
            } else {
                prev
            },
        }
    }
}

/// Files of the old scan missing from the new one, in the order of the old
/// scan, stamped with `now` (seconds).
pub open spec fn deleted(old: Seq<(String, FileState)>, cur: Seq<(String, FileState)>, now: int) -> Seq<
    EventView,
>
    decreases old.len(),
{
    if old.len() == 0 {
        Seq::empty()
    } else {
        let prev = deleted(old.drop_last(), cur, now);
        let p = old.last().0;
        if state_of(cur, p@) is None {
            prev.push(EventView { path: p@, kind: FileChangeType::Deleted, timestamp: now, size: 0 })
        } else {
            prev
        }
    }
}

/// The state of a watched directory as of its last scan.
#[derive(Debug)]
pub struct FileWatcher {
    watch_directory: String,
    file_states: Vec<(String, FileState)>,
    check_interval_seconds: u64,
    enabled: bool,
}

fn lookup(s: &Vec<(String, FileState)>, path: &str) -> (r: Option<FileState>)
    ensures
        r == state_of(s@, path@),
{
    let mut j: usize = s.len();
    assert(s@.take(j as int) =~= s@);
    while j > 0
        invariant
            j <= s@.len(),
            state_of(s@, path@) == state_of(s@.take(j as int), path@),
        decreases j,
    {
        assert(s@.take(j as int).drop_last() =~= s@.take(j - 1));
        assert(s@.take(j as int).last() == s@[j - 1]);
        if same_text(s[j - 1].0.as_str(), path) {
            return Some(s[j - 1].1);
        }
        j = j - 1;
    }
    None
}

impl FileWatcher {
    /// The scan holds each path once.
    pub closed spec fn wf(&self) -> bool {
        distinct_paths(self.file_states@)
    }

    /// The recorded scan.
    pub closed spec fn states(&self) -> Seq<(String, FileState)> {
        self.file_states@
    }

    pub closed spec fn enabled_spec(&self) -> bool {
        self.enabled
    }

    pub closed spec fn directory(&self) -> Seq<char> {
        self.watch_directory@
    }

    pub closed spec fn interval(&self) -> u64 {
        self.check_interval_seconds
    }

    /// A watcher of `watch_directory` whose first scan found `initial`.
    pub fn new(
        watch_directory: String,
        initial: Vec<(String, FileState)>,
        check_interval_seconds: u64,
        enabled: bool,
    ) -> (r: Self)
        requires
            distinct_paths(initial@),
        ensures
            r.wf(),
            r.states() == initial@,
            r.enabled_spec() == enabled,
            r.directory() == watch_directory@,
            r.interval() == check_interval_seconds,
    {
        FileWatcher { watch_directory, file_states: initial, check_interval_seconds, enabled }
    }

    pub fn watch_directory(&self) -> (r: &str)
        ensures
            r@ == self.directory(),
    {
        self.watch_directory.as_str()
    }

    pub fn check_interval_seconds(&self) -> (r: u64)
        ensures
            r == self.interval(),
    {
        self.check_interval_seconds
    }

    /// Records the scan `current` and returns what changed since the last
    /// one: additions and modifications in the order of `current`, then
    /// deletions, stamped with `now` seconds, in the order of the old scan.
    pub fn apply_scan(&mut self, current: Vec<(String, FileState)>, now: u64) -> (r: Vec<
        FileChangeEvent,
    >)
        requires
            old(self).wf(),
            distinct_paths(current@),
        ensures
            final(self).wf(),
            final(self).states() == current@,
            final(self).enabled_spec() == old(self).enabled_spec(),
            event_views(r@) == added_or_modified(old(self).states(), current@) + deleted(
                old(self).states(),
                current@,
                now as int,
            ),
    {
        let ghost old_states = self.file_states@;
        let mut changes: Vec<FileChangeEvent> = Vec::new();
        let mut i: usize = 0;
        assert(event_views(changes@) =~= added_or_modified(old_states, current@.take(0)));
        while i < current.len()
            invariant
                i <= current@.len(),
                old_states == self.file_states@,
                event_views(changes@) == added_or_modified(old_states, current@.take(i as int)),
            decreases current@.len() - i,
        {
            assert(current@.take(i + 1).drop_last() =~= current@.take(i as int));
            assert(current@.take(i + 1).last() == current@[i as int]);
            let (path, st) = (&current[i].0, current[i].1);
            let ghost before = event_views(changes@);
            match lookup(&self.file_states, path.as_str()) {
                None => {
                    changes.push(
                        FileChangeEvent {
                            file_path: path.clone(),
                            change_type: FileChangeType::Added,
                            timestamp: st.modified_time / NANOS_PER_SECOND,
                            file_size: st.size,
                        },
                    );
                    assert(event_views(changes@) =~= added_or_modified(
                        old_states,
                        current@.take(i + 1),
                    ));
                },
                Some(o) => {
                    if st.modified_time > o.modified_time || st.size != o.size {
                        changes.push(
                            FileChangeEvent {
                                file_path: path.clone(),
                                change_type: FileChangeType::Modified,
                                timestamp: st.modified_time / NANOS_PER_SECOND,
                                file_size: st.size,
                            },
                        );
                        assert(event_views(changes@) =~= added_or_modified(
                            old_states,
                            current@.take(i + 1),
                        ));
                    }
                },
            }
            i = i + 1;
        }
        assert(current@.take(i as int) =~= current@);
        let ghost first = event_views(changes@);
        let mut k: usize = 0;
        assert(event_views(changes@) =~= first + deleted(old_states.take(0), current@, now as int));
        while k < self.file_states.len()
            invariant
                k <= old_states.len(),
                old_states == self.file_states@,
                event_views(changes@) == first + deleted(
                    old_states.take(k as int),
                    current@,
                    now as int,
                ),
            decreases old_states.len() - k,
        {
            assert(old_states.take(k + 1).drop_last() =~= old_states.take(k as int));
            assert(old_states.take(k + 1).last() == old_states[k as int]);
            let path = &self.file_states[k].0;
            if lookup(&current, path.as_str()).is_none() {
                let ghost before = event_views(changes@);
                changes.push(
                    FileChangeEvent {
                        file_path: path.clone(),
                        change_type: FileChangeType::Deleted,
                        timestamp: now,
                        file_size: 0,
                    },
                );
                assert(event_views(changes@) =~= before.push(
                    EventView { path: path@, kind: FileChangeType::Deleted, timestamp: now as int, size: 0 },
                ));
            }
            k = k + 1;
        }
        assert(old_states.take(k as int) =~= old_states);
        self.file_states = current;
        changes
    }

    /// The paths of the monitored files, in scan order.
    pub fn get_monitored_files(&self) -> (r: Vec<String>)
        ensures
            r@.len() == self.states().len(),
            forall|k: int| 0 <= k < r@.len() ==> (#[trigger] r@[k])@ == self.states()[k].0@,
    {
        let mut out: Vec<String> = Vec::new();
        let mut k: usize = 0;
        while k < self.file_states.len()
            invariant
                k <= self.file_states@.len(),
                out@.len() == k,
                forall|j: int| 0 <= j < k ==> (#[trigger] out@[j])@ == self.file_states@[j].0@,
            decreases self.file_states@.len() - k,
        {
            out.push(self.file_states[k].0.clone());
            k = k + 1;
        }
        out
    }

    pub fn get_file_count(&self) -> (r: usize)
        ensures
            r == self.states().len(),
    {
        self.file_states.len()
    }

    pub fn is_enabled(&self) -> (r: bool)
        ensures
            r == self.enabled_spec(),
    {
        self.enabled
    }
}

} // verus!
