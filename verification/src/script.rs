use vstd::prelude::*;

verus! {

/// Where the request-handling script was found: the path given on the
/// command line (or the working directory), or the user's data directory.
#[derive(Clone, Copy, Debug, PartialEq, Eq, Structural)]
pub enum ScriptLocation {
    Local,
    Global,
}

/// The script to run: the local one when it exists, else the global one
/// when that exists, else none.
pub fn select_script(local_exists: bool, global_exists: bool) -> (chosen: Option<ScriptLocation>)
    ensures
        chosen == if local_exists {
            Some(ScriptLocation::Local)
        } else if global_exists {
            Some(ScriptLocation::Global)
        } else {
            None
        },
{
    if local_exists {
        Some(ScriptLocation::Local)
    } else if global_exists {
        Some(ScriptLocation::Global)
    } else {
        None
    }
}

/// What the cache answers for the script at `location` last modified at
/// `modified`, when it holds `entry`.
pub open spec fn cache_answer<T>(entry: Option<(ScriptLocation, i128, T)>, location: ScriptLocation, modified: i128) -> Option<T> {
    match entry {
        Some((l, m, t)) => if l == location && m == modified {
            Some(t)
        } else {
            None
        },
        None => None,
    }
}

/// The last compiled script, with where it came from and when that file was
/// last modified (in nanoseconds from the Unix epoch).
pub struct ScriptCache<T> {
    entry: Option<(ScriptLocation, i128, T)>,
}

impl<T> View for ScriptCache<T> {
    type V = Option<(ScriptLocation, i128, T)>;

    closed spec fn view(&self) -> Option<(ScriptLocation, i128, T)> {
        self.entry
    }
}

impl<T> ScriptCache<T> {
    /// A cache that holds nothing.
    pub fn new() -> (cache: Self)
        ensures
            cache@ is None,
    {
        ScriptCache { entry: None }
    }

    /// The compiled script, if the one held was compiled from the file at
    /// `location` as last modified at `modified`.
    pub fn lookup(&self, location: ScriptLocation, modified: i128) -> (hit: Option<&T>)
        ensures
            match hit {
                Some(t) => cache_answer(self@, location, modified) == Some(*t),
                None => cache_answer(self@, location, modified) is None,
            },
    {
        match &self.entry {
            Some((l, m, t)) => {
                if *l == location && *m == modified {
                    Some(t)
                } else {
                    None
                }
            },
            None => None,
        }
    }

    /// Keeps `compiled` as the script compiled from the file at `location`
    /// as last modified at `modified`, in place of what was held.
    pub fn store(&mut self, location: ScriptLocation, modified: i128, compiled: T)
        ensures
            final(self)@ == Some((location, modified, compiled)),
    {
        self.entry = Some((location, modified, compiled));
    }

    /// Forgets the held script, so that the next request compiles anew.
    pub fn invalidate(&mut self)
        ensures
            final(self)@ is None,
    {
        self.entry = None;
    }
}

/// The kinds of file-system events that the script watcher receives.
#[derive(Clone, Copy, Debug, PartialEq, Eq, Structural)]
pub enum ChangeKind {
    Create,
    Modify,
    Remove,
    Other,
}

/// Whether an event drops the cached script: it creates, modifies or removes
/// a file, and one of its paths (`touches[i]` tells whether the `i`-th is) is
/// the local or the global script.
pub fn change_invalidates(kind: ChangeKind, touches: &[bool]) -> (stale: bool)
    ensures
        stale == (kind != ChangeKind::Other && exists|i: int| 0 <= i < touches@.len() && touches@[i]),
{
    if kind == ChangeKind::Other {
        return false;
    }
    let mut i: usize = 0;
    while i < touches.len()
        invariant
            0 <= i <= touches@.len(),
            kind != ChangeKind::Other,
            forall|j: int| 0 <= j < i ==> !touches@[j],
        decreases touches@.len() - i,
    {
        if touches[i] {
            assert(touches@[i as int]);
            return true;
        }
        i = i + 1;
    }
    false
}

/// A script stored for a file version is what a lookup for that version finds.
pub proof fn law_lookup_after_store<T>(location: ScriptLocation, modified: i128, compiled: T)
    ensures
        cache_answer(Some((location, modified, compiled)), location, modified) == Some(compiled),
{
}

/// A modified or different file never reuses the script held for another.
pub proof fn law_stale_entry_misses<T>(
    held: (ScriptLocation, i128, T),
    location: ScriptLocation,
    modified: i128,
)
    requires
        held.0 != location || held.1 != modified,
    ensures
        cache_answer(Some(held), location, modified) is None,
{
}

/// After invalidation every lookup misses.
pub proof fn law_invalidated_cache_misses<T>(location: ScriptLocation, modified: i128)
    ensures
        cache_answer(None::<(ScriptLocation, i128, T)>, location, modified) is None,
{
}

} // verus!
