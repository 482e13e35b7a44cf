//! The watcher's settings: where builds run, what is watched, and how long
//! changes are debounced.

use vstd::prelude::*;
use crate::aggregator::{is_watched, paths_of, ChangeAggregator};

verus! {

/// The parent directory of a path, as `std::path::Path::parent` gives it.
pub uninterp spec fn parent_of(p: Seq<char>) -> Option<Seq<char>>;

/// Relies on `std::path::Path::parent`: the path without its last
/// component, or nothing for a root or an empty path.
#[verifier::external_body]
fn parent_dir(p: &String) -> (r: Option<String>)
    ensures
        r matches Some(d) ==> parent_of(p@) == Some(d@),
        r is None ==> parent_of(p@) is None,
{
    std::path::Path::new(p.as_str()).parent().map(|d| d.to_string_lossy().into_owned())
}

/// The directories to watch for `files`: the parent of each, once.
pub open spec fn dirs_of(files: Seq<Seq<char>>) -> Set<Seq<char>> {
    Set::new(|d: Seq<char>| exists|i: int| 0 <= i < files.len() && parent_of(#[trigger] files[i]) == Some(d))
}

/// Watches a set of files and rebuilds the project when they change.
pub struct GrimoireWatcher {
    /// Directory in which the build command runs.
    base_dir: String,
    /// Files whose changes call for a rebuild.
    files_to_watch: Vec<String>,
    /// Debounce window, in milliseconds.
    debounce_ms: u64,
}

impl GrimoireWatcher {
    /// The build directory, as characters.
    pub closed spec fn base_dir_spec(&self) -> Seq<char> {
        self.base_dir@
    }

    /// The watched files, as characters.
    pub closed spec fn files_spec(&self) -> Seq<Seq<char>> {
        paths_of(self.files_to_watch@)
    }

    /// The debounce window, in milliseconds.
    pub closed spec fn debounce_spec(&self) -> u64 {
        self.debounce_ms
    }

    /// Creates a watcher for the given files.
    pub fn new(base_dir: String, files_to_watch: Vec<String>, debounce_ms: u64) -> (r: Self)
        ensures
            r.base_dir_spec() == base_dir@,
            r.files_spec() == paths_of(files_to_watch@),
            r.debounce_spec() == debounce_ms,
    {
        GrimoireWatcher { base_dir, files_to_watch, debounce_ms }
    }

    /// The directory in which the build command runs.
    pub fn base_dir(&self) -> (r: &String)
        ensures
            r@ == self.base_dir_spec(),
    {
        &self.base_dir
    }

    /// The watched files.
    pub fn files_to_watch(&self) -> (r: &Vec<String>)
        ensures
            paths_of(r@) == self.files_spec(),
    {
        &self.files_to_watch
    }

    /// The debounce window, in milliseconds.
    pub fn debounce_ms(&self) -> (r: u64)
        ensures
            r == self.debounce_spec(),
    {
        self.debounce_ms
    }

    /// The directories to watch: the parent of each watched file, each once.
    /// Watching parents sees a file that is replaced, not only one edited in place.
    pub fn watch_dirs(&self) -> (r: Vec<String>)
        ensures
            paths_of(r@).no_duplicates(),
            paths_of(r@).to_set() == dirs_of(self.files_spec()),
    {
        let mut out: Vec<String> = Vec::new();
        let ghost files = self.files_spec();
        let mut i: usize = 0;
        while i < self.files_to_watch.len()
            invariant
                0 <= i <= self.files_to_watch.len(),
                files == paths_of(self.files_to_watch@),
                paths_of(out@).no_duplicates(),
                paths_of(out@).to_set() == dirs_of(files.subrange(0, i as int)),
            decreases self.files_to_watch.len() - i,
        {
            let ghost before = dirs_of(files.subrange(0, i as int));
            let ghost after = dirs_of(files.subrange(0, i + 1));
            assert(files[i as int] == self.files_to_watch@[i as int]@);
            match parent_dir(&self.files_to_watch[i]) {
                Some(d) => {
                    if !is_watched(&out, &d) {
                        let ghost prev = paths_of(out@);
                        out.push(d);
                        assert(paths_of(out@) =~= prev.push(d@));
                        assert(prev.push(d@).to_set() =~= prev.to_set().insert(d@)) by {
                            assert forall|x: Seq<char>| prev.push(d@).contains(x) implies prev.to_set().insert(d@).contains(x) by {
                                let k = choose|k: int| 0 <= k < prev.push(d@).len() && prev.push(d@)[k] == x;
                                if k < prev.len() {
                                    assert(prev[k] == x);
                                }
                            }
                            assert forall|x: Seq<char>| prev.to_set().insert(d@).contains(x) implies prev.push(d@).contains(x) by {
                                if x == d@ {
                                    assert(prev.push(d@)[prev.len() as int] == x);
                                } else {
                                    let k = choose|k: int| 0 <= k < prev.len() && prev[k] == x;
                                    assert(prev.push(d@)[k] == x);
                                }
                            }
                        }
                    }
                    assert(after =~= before.insert(d@)) by {
                        assert(files.subrange(0, i + 1)[i as int] == files[i as int]);
                        assert forall|x: Seq<char>| after.contains(x) implies before.insert(d@).contains(x) by {
                            let k = choose|k: int| 0 <= k < i + 1 && parent_of(#[trigger] files.subrange(0, i + 1)[k]) == Some(x);
                            if k < i {
                                assert(files.subrange(0, i as int)[k] == files.subrange(0, i + 1)[k]);
                            }
                        }
                        assert forall|x: Seq<char>| before.contains(x) implies after.contains(x) by {
                            let k = choose|k: int| 0 <= k < i && parent_of(#[trigger] files.subrange(0, i as int)[k]) == Some(x);
                            assert(files.subrange(0, i as int)[k] == files.subrange(0, i + 1)[k]);
                        }
                    }
                },
                None => {
                    assert(after =~= before) by {
                        assert forall|x: Seq<char>| after.contains(x) implies before.contains(x) by {
                            let k = choose|k: int| 0 <= k < i + 1 && parent_of(#[trigger] files.subrange(0, i + 1)[k]) == Some(x);
                            assert(files.subrange(0, i + 1)[i as int] == files[i as int]);
                            assert(k != i);
                            assert(files.subrange(0, i as int)[k] == files.subrange(0, i + 1)[k]);
                        }
                        assert forall|x: Seq<char>| before.contains(x) implies after.contains(x) by {
                            let k = choose|k: int| 0 <= k < i && parent_of(#[trigger] files.subrange(0, i as int)[k]) == Some(x);
                            assert(files.subrange(0, i as int)[k] == files.subrange(0, i + 1)[k]);
                        }
                    }
                },
            }
            i += 1;
        }
        assert(files.subrange(0, i as int) =~= files);
        out
    }

    /// A change aggregator over the watched files with this watcher's window;
    /// the window must be positive.
    pub fn aggregator(&self) -> (r: ChangeAggregator)
        requires
            self.debounce_spec() > 0,
        ensures
            r@.window == self.debounce_spec() as int,
            r@.watched == self.files_spec(),
            !r@.pending,
    {
        ChangeAggregator::new(self.debounce_ms, self.files_to_watch.clone())
    }
}

} // verus!
