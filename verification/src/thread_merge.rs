//! Completing the App Server's thread list with what Codex keeps on disk: the
//! session index (names and times of last change) and the session files
//! themselves (threads the App Server does not list, and where each one's
//! log lies). The caller reads the files; these functions merge.
use vstd::prelude::*;
use crate::codex::ThreadMetadata;
use crate::json::opt_string_view;
use crate::pricing::{lemma_text_lt_asymmetric, lemma_text_lt_transitive, text_less, text_lt};
use crate::ranked::{sort_ranked, Ranked};
use crate::text::str_eq;

verus! {

broadcast use vstd::string::group_string_axioms;

/// What the session index says of a thread.
#[derive(Debug)]
pub struct LocalSessionIndexEntry {
    pub name: Option<String>,
    pub updated_at: Option<i64>,
}

/// What a session file's `session_meta` line says of its thread.
#[derive(Debug)]
pub struct LocalSessionMetadata {
    pub id: String,
    pub cwd: String,
    pub source: String,
    pub created_at: i64,
    pub parent_thread_id: Option<String>,
}

/// The index entry of a thread among the first `n` lines: the last one for its ID.
pub open spec fn index_entry(index: Seq<(String, LocalSessionIndexEntry)>, id: Seq<char>, n: nat) -> Option<LocalSessionIndexEntry>
    decreases n,
{
    if n == 0 {
        None
    } else if index[n - 1].0@ == id {
        Some(index[n - 1].1)
    } else {
        index_entry(index, id, (n - 1) as nat)
    }
}

pub open spec fn lookup(index: Seq<(String, LocalSessionIndexEntry)>, id: Seq<char>) -> Option<LocalSessionIndexEntry> {
    index_entry(index, id, index.len())
}

/// The position of the last thread with `id` among the first `n`.
pub open spec fn position_of(threads: Seq<ThreadMetadata>, id: Seq<char>, n: nat) -> Option<int>
    decreases n,
{
    if n == 0 {
        None
    } else if threads[n - 1].id@ == id {
        Some(n - 1)
    } else {
        position_of(threads, id, (n - 1) as nat)
    }
}

pub open spec fn known(threads: Seq<ThreadMetadata>, id: Seq<char>) -> Option<int> {
    position_of(threads, id, threads.len())
}

/// A thread after the index entry for it is taken in: a name it lacks is
/// filled in, and a later time of last change wins.
pub open spec fn indexed_thread(t: ThreadMetadata, entry: Option<LocalSessionIndexEntry>) -> ThreadMetadata {
    match entry {
        None => t,
        Some(e) => ThreadMetadata {
            name: if t.name is None {
                e.name
            } else {
                t.name
            },
            updated_at: match e.updated_at {
                Some(u) => if u > t.updated_at {
                    u
                } else {
                    t.updated_at
                },
                None => t.updated_at,
            },
            ..t
        },
    }
}

fn find_entry<'a>(index: &'a Vec<(String, LocalSessionIndexEntry)>, id: &str) -> (r: Option<&'a LocalSessionIndexEntry>)
    ensures
        match r {
            Some(e) => lookup(index@, id@) == Some(*e),
            None => lookup(index@, id@) is None,
        },
{
    let mut n: usize = index.len();
    while n > 0
        invariant
            n <= index@.len(),
            lookup(index@, id@) == index_entry(index@, id@, n as nat),
        decreases n,
    {
        if str_eq(index[n - 1].0.as_str(), id) {
            return Some(&index[n - 1].1);
        }
        n = n - 1;
    }
    None
}

fn find_thread(threads: &Vec<ThreadMetadata>, id: &str) -> (r: Option<usize>)
    ensures
        match r {
            Some(i) => known(threads@, id@) == Some(i as int) && i < threads@.len(),
            None => known(threads@, id@) is None,
        },
{
    let mut n: usize = threads.len();
    while n > 0
        invariant
            n <= threads@.len(),
            known(threads@, id@) == position_of(threads@, id@, n as nat),
        decreases n,
    {
        if str_eq(threads[n - 1].id.as_str(), id) {
            return Some(n - 1);
        }
        n = n - 1;
    }
    None
}

fn copy_opt(v: &Option<String>) -> (r: Option<String>)
    ensures
        r == *v,
{
    match v {
        Some(s) => Some(s.clone()),
        None => None,
    }
}

/// Takes the session index in: each listed thread gets the name it lacks and
/// the later of its two times of last change. `index` holds the index's lines
/// in order; the last line for a thread counts.
pub fn apply_session_index(threads: &mut Vec<ThreadMetadata>, index: &Vec<(String, LocalSessionIndexEntry)>)
    ensures
        final(threads)@.len() == old(threads)@.len(),
        forall|i: int|
            0 <= i < old(threads)@.len() ==> #[trigger] final(threads)@[i] == indexed_thread(
                old(threads)@[i],
                lookup(index@, old(threads)@[i].id@),
            ),
{
    let ghost start = threads@;
    let mut i: usize = 0;
    while i < threads.len()
        invariant
            i <= threads@.len(),
            threads@.len() == start.len(),
            forall|q: int| 0 <= q < i ==> #[trigger] threads@[q] == indexed_thread(start[q], lookup(index@, start[q].id@)),
            forall|q: int| i <= q < threads@.len() ==> #[trigger] threads@[q] == start[q],
        decreases threads@.len() - i,
    {
        match find_entry(index, threads[i].id.as_str()) {
            None => {},
            Some(entry) => {
                let ghost before = threads@;
                let mut t = threads.remove(i);
                if t.name.is_none() {
                    t.name = copy_opt(&entry.name);
                }
                match entry.updated_at {
                    Some(u) => if u > t.updated_at {
                        t.updated_at = u;
                    },
                    None => {},
                }
                threads.insert(i, t);
                assert(threads@ == before.update(i as int, t));
            },
        }
        i = i + 1;
    }
}

/// `n` is `o` with the thread at `i` given `path` as its log path, unless it
/// had one.
pub open spec fn path_attached(n: Seq<ThreadMetadata>, o: Seq<ThreadMetadata>, i: int, path: Seq<char>) -> bool {
    &&& n.len() == o.len()
    &&& forall|q: int| 0 <= q < o.len() && q != i ==> #[trigger] n[q] == o[q]
    &&& (o[i].path is Some ==> n[i] == o[i])
    &&& (o[i].path is None ==> n[i] == ThreadMetadata { path: n[i].path, ..o[i] } && opt_string_view(n[i].path) == Some(path))
}

/// A session file whose name carries the ID of a thread already listed gives
/// that thread its log path, if it has none, and needs no further reading
/// (`false`). Any other file must be read for its metadata (`true`).
pub fn attach_session_path(threads: &mut Vec<ThreadMetadata>, path: &str, session_id: Option<&str>) -> (r: bool)
    ensures
        match session_id {
            Some(id) => match known(old(threads)@, id@) {
                Some(i) => !r && 0 <= i < old(threads)@.len() && path_attached(final(threads)@, old(threads)@, i, path@),
                None => r && final(threads)@ == old(threads)@,
            },
            None => r && final(threads)@ == old(threads)@,
        },
{
    let id = match session_id {
        Some(id) => id,
        None => {
            return true;
        },
    };
    match find_thread(threads, id) {
        Some(i) => {
            set_path_if_missing(threads, i, path);
            false
        },
        None => true,
    }
}

fn set_path_if_missing(threads: &mut Vec<ThreadMetadata>, i: usize, path: &str)
    requires
        i < old(threads)@.len(),
    ensures
        path_attached(final(threads)@, old(threads)@, i as int, path@),
{
    if threads[i].path.is_none() {
        let ghost before = threads@;
        let mut t = threads.remove(i);
        t.path = Some(path.to_owned());
        threads.insert(i, t);
        assert(threads@ =~= before.update(i as int, t));
    }
}

/// The thread a session file adds: its index entry gives it a name, and the
/// later of the index's time of last change and the file's own time of last
/// change (`modified_at`) counts, else the time the session was created.
pub open spec fn new_thread_fits(
    t: ThreadMetadata,
    local: LocalSessionMetadata,
    entry: Option<LocalSessionIndexEntry>,
    path: Seq<char>,
    modified_at: Option<i64>,
) -> bool {
    let indexed_at = match entry {
        Some(e) => e.updated_at,
        None => None,
    };
    &&& t.id == local.id
    &&& t.name == match entry {
        Some(e) => e.name,
        None => None,
    }
    &&& t.cwd == local.cwd
    &&& t.status is None
    &&& opt_string_view(t.path) == Some(path)
    &&& t.created_at == local.created_at
    &&& t.parent_thread_id == local.parent_thread_id
    &&& t.updated_at == match (indexed_at, modified_at) {
        (Some(a), Some(b)) => if a > b {
            a
        } else {
            b
        },
        (Some(a), None) => a,
        (None, Some(b)) => b,
        (None, None) => local.created_at,
    }
}

/// Takes in a session file's metadata. Only sessions started from the CLI or
/// VS Code are listed; one already listed only gets its log path, if it has
/// none; any other is added at the end (`true`).
pub fn add_local_session(
    threads: &mut Vec<ThreadMetadata>,
    path: &str,
    local: LocalSessionMetadata,
    index: &Vec<(String, LocalSessionIndexEntry)>,
    modified_at: Option<i64>,
) -> (r: bool)
    ensures
        !(local.source@ == "cli"@ || local.source@ == "vscode"@) ==> !r && final(threads)@ == old(threads)@,
        (local.source@ == "cli"@ || local.source@ == "vscode"@) ==> match known(old(threads)@, local.id@) {
            Some(i) => !r && 0 <= i < old(threads)@.len() && path_attached(final(threads)@, old(threads)@, i, path@),
            None => r && final(threads)@.len() == old(threads)@.len() + 1 && final(threads)@.drop_last()
                == old(threads)@ && new_thread_fits(final(threads)@.last(), local, lookup(index@, local.id@), path@, modified_at),
        },
{
    let source = local.source.as_str();
    if !(str_eq(source, "cli") || str_eq(source, "vscode")) {
        return false;
    }
    match find_thread(threads, local.id.as_str()) {
        Some(i) => {
            set_path_if_missing(threads, i, path);
            false
        },
        None => {
            let entry = find_entry(index, local.id.as_str());
            let indexed_at: Option<i64> = match entry {
                Some(e) => e.updated_at,
                None => None,
            };
            let updated_at: i64 = match (indexed_at, modified_at) {
                (Some(a), Some(b)) => if a > b {
                    a
                } else {
                    b
                },
                (Some(a), None) => a,
                (None, Some(b)) => b,
                (None, None) => local.created_at,
            };
            let name = match entry {
                Some(e) => copy_opt(&e.name),
                None => None,
            };
            let LocalSessionMetadata { id, cwd, source: _, created_at, parent_thread_id } = local;
            let ghost before = threads@;
            let t = ThreadMetadata {
                id,
                name,
                cwd,
                status: None,
                path: Some(path.to_owned()),
                created_at,
                updated_at,
                parent_thread_id,
            };
            threads.push(t);
            assert(threads@.drop_last() == before);
            true
        },
    }
}

impl Ranked for ThreadMetadata {
    /// Later change first; equal times by ID.
    open spec fn before(self, other: Self) -> bool {
        self.updated_at > other.updated_at || (self.updated_at == other.updated_at && text_lt(self.id@, other.id@))
    }

    proof fn lemma_before(a: Self, b: Self, c: Self) {
        lemma_text_lt_asymmetric(a.id@, b.id@);
        if text_lt(a.id@, b.id@) && text_lt(b.id@, c.id@) {
            lemma_text_lt_transitive(a.id@, b.id@, c.id@);
        }
    }

    fn comes_before(&self, other: &Self) -> (r: bool) {
        self.updated_at > other.updated_at || (self.updated_at == other.updated_at && text_less(
            self.id.as_str(),
            other.id.as_str(),
        ))
    }
}

/// The thread list in the order the UI shows it: most recently changed
/// first, equal times by ID; threads equal in both keep their order.
pub fn sort_threads(threads: Vec<ThreadMetadata>) -> (r: Vec<ThreadMetadata>)
    ensures
        crate::ranked::ranked_sorted(r@),
        r@.to_multiset() == threads@.to_multiset(),
        r@ == crate::ranked::ranked_order(threads@, threads@.len()),
{
    sort_ranked(threads)
}

} // verus!
