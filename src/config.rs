//! The configuration's projects and patterns, and the watch set built from
//! what the patterns matched.

use vstd::prelude::*;
use crate::aggregator::{is_watched, paths_of};

verus! {

/// One project: the patterns of its input files.
pub struct Project {
    pub input_paths: Vec<String>,
}

/// The configuration: its projects.
pub struct Config {
    pub projects: Vec<Project>,
}

/// One path that a pattern matched.
#[derive(Clone, Debug)]
pub enum GlobEntry {
    /// An existing regular file.
    File { path: String },
    /// A path that is not a regular file.
    NotAFile,
    /// A path that could not be read.
    Unreadable,
}

/// What one pattern resolved to.
#[derive(Clone, Debug)]
pub enum PatternMatches {
    /// The pattern is not a valid glob pattern.
    Invalid,
    /// The paths it matched, in the order they came.
    Matched { entries: Vec<GlobEntry> },
}

/// The patterns of a list of projects, in order.
pub open spec fn patterns_of(projects: Seq<Project>) -> Seq<Seq<char>>
    decreases projects.len(),
{
    if projects.len() == 0 {
        Seq::empty()
    } else {
        patterns_of(projects.drop_last()) + paths_of(projects.last().input_paths@)
    }
}

/// Whether entry `e` is the file `p`.
pub open spec fn entry_is(e: GlobEntry, p: Seq<char>) -> bool {
    e matches GlobEntry::File { path } && path@ == p
}

/// Whether one of the first `n` entries of `m` is the file `p`.
pub open spec fn matched_within(m: PatternMatches, n: int, p: Seq<char>) -> bool {
    m matches PatternMatches::Matched { entries } && exists|j: int|
        0 <= j < n && j < entries@.len() && entry_is(#[trigger] entries@[j], p)
}

/// The files that `m` matched.
pub open spec fn files_of(m: PatternMatches) -> Set<Seq<char>> {
    Set::new(|p: Seq<char>| matched_within(m, m->entries@.len() as int, p))
}

/// The files that the first `n` patterns matched.
pub open spec fn files_within(rs: Seq<PatternMatches>, n: int) -> Set<Seq<char>> {
    Set::new(|p: Seq<char>| exists|i: int| 0 <= i < n && #[trigger] files_of(rs[i]).contains(p))
}

/// The watch set: every file that a pattern matched, and the configuration file.
pub open spec fn watch_set_of(rs: Seq<PatternMatches>, config_path: Seq<char>) -> Set<Seq<char>> {
    files_within(rs, rs.len() as int).insert(config_path)
}

/// Adds `p` to `out` unless it is there already.
fn insert_unique(out: &mut Vec<String>, p: &String)
    requires
        paths_of(old(out)@).no_duplicates(),
    ensures
        paths_of(final(out)@).no_duplicates(),
        paths_of(final(out)@).to_set() == paths_of(old(out)@).to_set().insert(p@),
{
    if is_watched(out, p) {
        assert(paths_of(out@).to_set() =~= paths_of(out@).to_set().insert(p@));
    } else {
        let ghost before = paths_of(out@);
        out.push(p.clone());
        assert(paths_of(out@) =~= before.push(p@));
        assert(paths_of(out@).to_set() =~= before.to_set().insert(p@)) by {
            assert forall|x: Seq<char>| paths_of(out@).contains(x) implies before.to_set().insert(p@).contains(x) by {
                let k = choose|k: int| 0 <= k < paths_of(out@).len() && paths_of(out@)[k] == x;
                if k < before.len() {
                    assert(before[k] == x);
                }
            }
            assert forall|x: Seq<char>| before.to_set().insert(p@).contains(x) implies paths_of(out@).contains(x) by {
                if x != p@ {
                    let k = choose|k: int| 0 <= k < before.len() && before[k] == x;
                    assert(paths_of(out@)[k] == x);
                }
                else {
                    assert(paths_of(out@)[before.len() as int] == x);
                }
            }
        }
    }
}

/// The watch set as a list without repeats: every file that the patterns
/// matched, then the configuration file, in whatever order they came.
fn watch_set(resolved: &Vec<PatternMatches>, config_path: &String) -> (r: Vec<String>)
    ensures
        paths_of(r@).no_duplicates(),
        paths_of(r@).to_set() == watch_set_of(resolved@, config_path@),
{
    let mut out: Vec<String> = Vec::new();
    assert(paths_of(out@).to_set() =~= files_within(resolved@, 0));
    let mut i: usize = 0;
    while i < resolved.len()
        invariant
            0 <= i <= resolved.len(),
            paths_of(out@).no_duplicates(),
            paths_of(out@).to_set() == files_within(resolved@, i as int),
        decreases resolved.len() - i,
    {
        let m = &resolved[i];
        match m {
            PatternMatches::Invalid => {
                assert(files_within(resolved@, i + 1) =~= files_within(resolved@, i as int)) by {
                    assert(files_of(resolved@[i as int]) =~= Set::empty());
                }
            },
            PatternMatches::Matched { entries } => {
                let mut j: usize = 0;
                while j < entries.len()
                    invariant
                        0 <= j <= entries.len(),
                        i < resolved.len(),
                        resolved@[i as int] == (PatternMatches::Matched { entries: *entries }),
                        paths_of(out@).no_duplicates(),
                        paths_of(out@).to_set() == files_within(resolved@, i as int).union(
                            Set::new(|p: Seq<char>| matched_within(resolved@[i as int], j as int, p)),
                        ),
                    decreases entries.len() - j,
                {
                    let ghost m = resolved@[i as int];
                    let ghost old_part = Set::new(|p: Seq<char>| matched_within(m, j as int, p));
                    let ghost new_part = Set::new(|p: Seq<char>| matched_within(m, j + 1, p));
                    match &entries[j] {
                        GlobEntry::File { path } => {
                            insert_unique(&mut out, path);
                            assert(new_part =~= old_part.insert(path@)) by {
                                assert(entry_is(entries@[j as int], path@));
                                assert forall|p: Seq<char>| new_part.contains(p) implies old_part.insert(path@).contains(p) by {
                                    let k = choose|k: int| 0 <= k < j + 1 && k < entries@.len() && entry_is(#[trigger] entries@[k], p);
                                    if k < j {
                                        assert(matched_within(m, j as int, p));
                                    }
                                }
                            }
                        },
                        _ => {
                            assert(new_part =~= old_part) by {
                                assert forall|p: Seq<char>| new_part.contains(p) implies old_part.contains(p) by {
                                    let k = choose|k: int| 0 <= k < j + 1 && k < entries@.len() && entry_is(#[trigger] entries@[k], p);
                                    assert(k != j);
                                }
                            }
                        },
                    }
                    assert(paths_of(out@).to_set() =~= files_within(resolved@, i as int).union(new_part));
                    j += 1;
                }
                assert(files_within(resolved@, i + 1) =~= files_within(resolved@, i as int).union(
                    files_of(resolved@[i as int]),
                )) by {
                    assert forall|p: Seq<char>| files_within(resolved@, i + 1).contains(p) implies
                        files_within(resolved@, i as int).union(files_of(resolved@[i as int])).contains(p) by {
                        let k = choose|k: int| 0 <= k < i + 1 && #[trigger] files_of(resolved@[k]).contains(p);
                        if k < i {
                            assert(files_within(resolved@, i as int).contains(p));
                        }
                    }
                }
                assert(paths_of(out@).to_set() =~= files_within(resolved@, i + 1));
            },
        }
        i += 1;
    }
    insert_unique(&mut out, config_path);
    out
}

impl Config {
    /// Every pattern of every project, in order.
    pub fn patterns(&self) -> (r: Vec<String>)
        ensures
            paths_of(r@) == patterns_of(self.projects@),
    {
        let mut out: Vec<String> = Vec::new();
        let mut i: usize = 0;
        while i < self.projects.len()
            invariant
                0 <= i <= self.projects.len(),
                paths_of(out@) == patterns_of(self.projects@.subrange(0, i as int)),
            decreases self.projects.len() - i,
        {
            let project = &self.projects[i];
            let ghost before = out@;
            let mut j: usize = 0;
            while j < project.input_paths.len()
                invariant
                    0 <= j <= project.input_paths.len(),
                    paths_of(out@) == paths_of(before) + paths_of(project.input_paths@.subrange(0, j as int)),
                decreases project.input_paths.len() - j,
            {
                let ghost mid = out@;
                out.push(project.input_paths[j].clone());
                assert(paths_of(out@) =~= paths_of(mid).push(project.input_paths@[j as int]@));
                assert(paths_of(project.input_paths@.subrange(0, j + 1)) =~= paths_of(
                    project.input_paths@.subrange(0, j as int),
                ).push(project.input_paths@[j as int]@));
                j += 1;
            }
            assert(project.input_paths@.subrange(0, j as int) =~= project.input_paths@);
            let ghost next = self.projects@.subrange(0, i + 1);
            assert(next.drop_last() =~= self.projects@.subrange(0, i as int));
            i += 1;
        }
        assert(self.projects@.subrange(0, i as int) =~= self.projects@);
        out
    }

    /// The watch set, from what the patterns of `self.patterns()` resolved
    /// to: every file matched and the configuration file, each once.
    pub fn get_files_to_watch(&self, config_path: &String, resolved: &Vec<PatternMatches>) -> (r: Vec<String>)
        ensures
            paths_of(r@).no_duplicates(),
            paths_of(r@).to_set() == watch_set_of(resolved@, config_path@),
    {
        watch_set(resolved, config_path)
    }
}

/// Idempotent path set: two resolutions of the same configuration whose
/// patterns matched the same files, in whatever order the matches came,
/// give the same watch set.
pub proof fn lemma_watch_set_order_independent(
    rs1: Seq<PatternMatches>,
    rs2: Seq<PatternMatches>,
    config_path: Seq<char>,
)
    requires
        rs1.len() == rs2.len(),
        forall|i: int| 0 <= i < rs1.len() ==> files_of(#[trigger] rs1[i]) == files_of(rs2[i]),
    ensures
        watch_set_of(rs1, config_path) == watch_set_of(rs2, config_path),
{
    assert(files_within(rs1, rs1.len() as int) =~= files_within(rs2, rs2.len() as int)) by {
        assert forall|p: Seq<char>| files_within(rs1, rs1.len() as int).contains(p) implies files_within(rs2, rs2.len() as int).contains(p) by {
            let k = choose|k: int| 0 <= k < rs1.len() && #[trigger] files_of(rs1[k]).contains(p);
            assert(files_of(rs2[k]).contains(p));
        }
        assert forall|p: Seq<char>| files_within(rs2, rs2.len() as int).contains(p) implies files_within(rs1, rs1.len() as int).contains(p) by {
            let k = choose|k: int| 0 <= k < rs2.len() && #[trigger] files_of(rs2[k]).contains(p);
            assert(files_of(rs1[k]) == files_of(rs2[k]));
            assert(files_of(rs1[k]).contains(p));
        }
    }
}

} // verus!
