//! Putting the usage index back together from its three tables: session
//! files, their turns and their token events, each row naming its file by ID.
use vstd::prelude::*;
use crate::assoc::{has_key, keys_ascending, lemma_key_unique, locate};
use crate::pricing::{lemma_text_lt_asymmetric, text_lt};
use crate::storage::{UsageIndexEvent, UsageIndexFile, UsageIndexTurn};

verus! {

broadcast use vstd::string::group_string_axioms;

/// The path of the last file row with ID `id`.
pub open spec fn id_path(rows: Seq<(i64, UsageIndexFile)>, id: i64) -> Option<Seq<char>>
    decreases rows.len(),
{
    if rows.len() == 0 {
        None
    } else if rows.last().0 == id {
        Some(rows.last().1.path@)
    } else {
        id_path(rows.drop_last(), id)
    }
}

/// The last file row with path `path`.
pub open spec fn last_row(rows: Seq<(i64, UsageIndexFile)>, path: Seq<char>) -> Option<int>
    decreases rows.len(),
{
    if rows.len() == 0 {
        None
    } else if rows.last().1.path@ == path {
        Some(rows.len() - 1)
    } else {
        last_row(rows.drop_last(), path)
    }
}

/// The first `n` turn rows whose ID names the file at `path`.
pub open spec fn turns_for(
    rows: Seq<(i64, UsageIndexFile)>,
    turns: Seq<(i64, UsageIndexTurn)>,
    path: Seq<char>,
    n: nat,
) -> Seq<UsageIndexTurn>
    decreases n,
{
    if n == 0 || n > turns.len() {
        Seq::empty()
    } else {
        let before = turns_for(rows, turns, path, (n - 1) as nat);
        if id_path(rows, turns[n - 1].0) == Some(path) {
            before.push(turns[n - 1].1)
        } else {
            before
        }
    }
}

/// The first `n` event rows whose ID names the file at `path`.
pub open spec fn events_for(
    rows: Seq<(i64, UsageIndexFile)>,
    events: Seq<(i64, UsageIndexEvent)>,
    path: Seq<char>,
    n: nat,
) -> Seq<UsageIndexEvent>
    decreases n,
{
    if n == 0 || n > events.len() {
        Seq::empty()
    } else {
        let before = events_for(rows, events, path, (n - 1) as nat);
        if id_path(rows, events[n - 1].0) == Some(path) {
            before.push(events[n - 1].1)
        } else {
            before
        }
    }
}

/// `f` is file row `row` with turns `ts` and events `es` added.
pub open spec fn file_from(row: UsageIndexFile, f: UsageIndexFile, ts: Seq<UsageIndexTurn>, es: Seq<UsageIndexEvent>) -> bool {
    &&& f.path == row.path
    &&& f.length == row.length
    &&& f.modified_ms == row.modified_ms
    &&& f.malformed_lines == row.malformed_lines
    &&& f.session_id == row.session_id
    &&& f.parent_id == row.parent_id
    &&& f.forked_at_ms == row.forked_at_ms
    &&& f.cwd == row.cwd
    &&& f.started_at_ms == row.started_at_ms
    &&& f.updated_at_ms == row.updated_at_ms
    &&& f.project_metadata_indexed == row.project_metadata_indexed
    &&& f.turns@ == row.turns@ + ts
    &&& f.events@ == row.events@ + es
}

/// `r` is the usage index: one file per path in increasing order of path,
/// each the last row with that path, with the turns and events whose file
/// ID is (last) that path's, in row order.
pub open spec fn usage_index_of(
    rows: Seq<(i64, UsageIndexFile)>,
    turns: Seq<(i64, UsageIndexTurn)>,
    events: Seq<(i64, UsageIndexEvent)>,
    r: Seq<UsageIndexFile>,
) -> bool {
    &&& forall|i: int, j: int| 0 <= i < j < r.len() ==> text_lt(#[trigger] r[i].path@, #[trigger] r[j].path@)
    &&& forall|j: int| 0 <= j < rows.len() ==> exists|i: int| 0 <= i < r.len() && #[trigger] r[i].path@ == (#[trigger] rows[j]).1.path@
    &&& forall|i: int|
        0 <= i < r.len() ==> match last_row(rows, (#[trigger] r[i]).path@) {
            Some(k) => file_from(
                rows[k].1,
                r[i],
                turns_for(rows, turns, r[i].path@, turns.len()),
                events_for(rows, events, r[i].path@, events.len()),
            ),
            None => false,
        }
}

proof fn lemma_last_row_range(rows: Seq<(i64, UsageIndexFile)>, path: Seq<char>)
    ensures
        last_row(rows, path) matches Some(k) ==> 0 <= k < rows.len() && rows[k].1.path@ == path,
        last_row(rows, path) is None ==> forall|j: int| 0 <= j < rows.len() ==> rows[j].1.path@ != path,
    decreases rows.len(),
{
    if rows.len() > 0 {
        lemma_last_row_range(rows.drop_last(), path);
        assert forall|j: int| 0 <= j < rows.len() - 1 implies rows.drop_last()[j] == rows[j] by {}
    }
}

proof fn lemma_id_path_is_a_row(rows: Seq<(i64, UsageIndexFile)>, id: i64)
    ensures
        id_path(rows, id) matches Some(p) ==> exists|j: int| 0 <= j < rows.len() && (#[trigger] rows[j]).1.path@ == p,
    decreases rows.len(),
{
    if rows.len() > 0 && rows.last().0 != id {
        lemma_id_path_is_a_row(rows.drop_last(), id);
        if let Some(p) = id_path(rows, id) {
            let j = choose|j: int| 0 <= j < rows.drop_last().len() && (#[trigger] rows.drop_last()[j]).1.path@ == p;
            assert(rows[j] == rows.drop_last()[j]);
        }
    } else if rows.len() > 0 {
        assert(rows[rows.len() - 1] == rows.last());
    }
}

/// Finds the path of the last file row with ID `id`.
fn path_of_id(ids: &Vec<(i64, String)>, id: i64, Ghost(rows): Ghost<Seq<(i64, UsageIndexFile)>>) -> (r: Option<&String>)
    requires
        ids@.len() == rows.len(),
        forall|j: int| 0 <= j < rows.len() ==> #[trigger] ids@[j].0 == rows[j].0 && ids@[j].1@ == rows[j].1.path@,
    ensures
        match r {
            Some(p) => id_path(rows, id) == Some(p@),
            None => id_path(rows, id) is None,
        },
{
    let mut k: usize = ids.len();
    assert(rows.take(k as int) =~= rows);
    while k > 0
        invariant
            k <= ids@.len(),
            ids@.len() == rows.len(),
            forall|j: int| 0 <= j < rows.len() ==> #[trigger] ids@[j].0 == rows[j].0 && ids@[j].1@ == rows[j].1.path@,
            id_path(rows, id) == id_path(rows.take(k as int), id),
        decreases k,
    {
        let ghost prefix = rows.take(k as int);
        assert(prefix.drop_last() =~= rows.take(k - 1));
        assert(prefix.last() == rows[k - 1]);
        assert(ids@[k - 1].0 == rows[k - 1].0);
        if ids[k - 1].0 == id {
            return Some(&ids[k - 1].1);
        }
        k = k - 1;
    }
    assert(rows.take(0) =~= Seq::<(i64, UsageIndexFile)>::empty());
    None
}


/// The files gathered so far, keyed by path, with the first `kt` turn rows
/// and `ke` event rows attached.
pub open spec fn assembled(
    rows: Seq<(i64, UsageIndexFile)>,
    turns: Seq<(i64, UsageIndexTurn)>,
    events: Seq<(i64, UsageIndexEvent)>,
    out: Seq<(String, UsageIndexFile)>,
    kt: nat,
    ke: nat,
) -> bool {
    &&& keys_ascending(out)
    &&& forall|j: int| 0 <= j < rows.len() ==> has_key(out, (#[trigger] rows[j]).1.path@)
    &&& forall|i: int|
        0 <= i < out.len() ==> (#[trigger] out[i]).0@ == out[i].1.path@ && match last_row(rows, out[i].0@) {
            Some(q) => file_from(
                rows[q].1,
                out[i].1,
                turns_for(rows, turns, out[i].0@, kt),
                events_for(rows, events, out[i].0@, ke),
            ),
            None => false,
        }
}

proof fn lemma_text_lt_irreflexive(a: Seq<char>)
    ensures
        !text_lt(a, a),
{
    lemma_text_lt_asymmetric(a, a);
}

/// The files of the file rows, keyed by path, the last row of a path
/// winning; and each row's ID with its path.
fn gather_files(files: Vec<(i64, UsageIndexFile)>) -> (r: (Vec<(String, UsageIndexFile)>, Vec<(i64, String)>))
    ensures
        ({
            let rows = files@;
            &&& keys_ascending(r.0@)
            &&& forall|j: int| 0 <= j < rows.len() ==> has_key(r.0@, (#[trigger] rows[j]).1.path@)
            &&& forall|i: int|
                0 <= i < r.0@.len() ==> (#[trigger] r.0@[i]).0@ == r.0@[i].1.path@ && match last_row(rows, r.0@[i].0@) {
                    Some(q) => r.0@[i].1 == rows[q].1,
                    None => false,
                }
            &&& r.1@.len() == rows.len()
            &&& forall|j: int| 0 <= j < rows.len() ==> #[trigger] r.1@[j].0 == rows[j].0 && r.1@[j].1@ == rows[j].1.path@
        }),
{
    let ghost rows = files@;
    let mut out: Vec<(String, UsageIndexFile)> = Vec::new();
    let mut ids: Vec<(i64, String)> = Vec::new();
    let mut rest = files;
    let mut k: usize = 0;
    let n = rest.len();
    while rest.len() > 0
        invariant
            k + rest@.len() == n,
            n == rows.len(),
            rest@ == rows.skip(k as int),
            ids@.len() == k,
            forall|j: int| 0 <= j < k ==> #[trigger] ids@[j].0 == rows[j].0 && ids@[j].1@ == rows[j].1.path@,
            keys_ascending(out@),
            forall|j: int| 0 <= j < k ==> has_key(out@, (#[trigger] rows[j]).1.path@),
            forall|i: int|
                0 <= i < out@.len() ==> (#[trigger] out@[i]).0@ == out@[i].1.path@ && match last_row(rows.take(k as int), out@[i].0@) {
                    Some(q) => out@[i].1 == rows[q].1,
                    None => false,
                },
        decreases rest@.len(),
    {
        let ghost before_rest = rest@;
        let (id, f) = rest.remove(0);
        assert((id, f) == rows[k as int]) by {
            assert(before_rest[0] == rows.skip(k as int)[0]);
        }
        assert(rest@ =~= rows.skip(k + 1));
        let ghost prefix = rows.take(k + 1);
        assert(prefix.drop_last() =~= rows.take(k as int));
        assert(prefix.last() == rows[k as int]);
        let path = f.path.clone();
        ids.push((id, f.path.clone()));
        let ghost old_out = out@;
        match locate(&out, path.as_str()) {
            Ok(i) => {
                let (key, _) = out.remove(i);
                out.insert(i, (key, f));
                assert(out@ =~= old_out.update(i as int, out@[i as int]));
                proof {
                    assert forall|a: int, b: int| 0 <= a < b < out@.len() implies text_lt(#[trigger] out@[a].0@, #[trigger] out@[b].0@) by {
                        assert(out@[a].0 == old_out[a].0);
                        assert(out@[b].0 == old_out[b].0);
                    }
                    assert forall|j: int| 0 <= j < k + 1 implies has_key(out@, (#[trigger] rows[j]).1.path@) by {
                        if j < k {
                            let w = choose|w: int| 0 <= w < old_out.len() && (#[trigger] old_out[w]).0@ == rows[j].1.path@;
                            assert(out@[w].0 == old_out[w].0);
                        } else {
                            assert(out@[i as int].0@ == rows[j].1.path@);
                        }
                    }
                    assert forall|q: int| 0 <= q < out@.len() implies (#[trigger] out@[q]).0@ == out@[q].1.path@ && match last_row(prefix, out@[q].0@) {
                        Some(z) => out@[q].1 == rows[z].1,
                        None => false,
                    } by {
                        if q != i {
                            assert(out@[q] == old_out[q]);
                            if old_out[q].0@ == path@ {
                                lemma_key_unique(old_out, q, i as int);
                            }
                        }
                    }
                }
            },
            Err(p) => {
                out.insert(p, (path, f));
                proof {
                    assert forall|a: int, b: int| 0 <= a < b < out@.len() implies text_lt(#[trigger] out@[a].0@, #[trigger] out@[b].0@) by {
                        if a < p && b < p {
                            assert(out@[a] == old_out[a] && out@[b] == old_out[b]);
                        } else if a < p && b == p {
                            assert(out@[a] == old_out[a]);
                        } else if a < p && b > p {
                            assert(out@[a] == old_out[a] && out@[b] == old_out[b - 1]);
                            crate::pricing::lemma_text_lt_transitive(old_out[a].0@, path@, old_out[b - 1].0@);
                        } else if a == p {
                            assert(out@[b] == old_out[b - 1]);
                        } else {
                            assert(out@[a] == old_out[a - 1] && out@[b] == old_out[b - 1]);
                        }
                    }
                    assert forall|j: int| 0 <= j < k + 1 implies has_key(out@, (#[trigger] rows[j]).1.path@) by {
                        if j < k {
                            let w = choose|w: int| 0 <= w < old_out.len() && (#[trigger] old_out[w]).0@ == rows[j].1.path@;
                            if w < p {
                                assert(out@[w] == old_out[w]);
                            } else {
                                assert(out@[w + 1] == old_out[w]);
                            }
                        } else {
                            assert(out@[p as int].0@ == rows[j].1.path@);
                        }
                    }
                    assert forall|q: int| 0 <= q < out@.len() implies (#[trigger] out@[q]).0@ == out@[q].1.path@ && match last_row(prefix, out@[q].0@) {
                        Some(z) => out@[q].1 == rows[z].1,
                        None => false,
                    } by {
                        if q < p {
                            assert(out@[q] == old_out[q]);
                            lemma_text_lt_irreflexive(path@);
                        } else if q > p {
                            assert(out@[q] == old_out[q - 1]);
                            lemma_text_lt_irreflexive(path@);
                        }
                    }
                }
            },
        }
        k = k + 1;
    }
    assert(rows.take(k as int) =~= rows);
    (out, ids)
}


/// Attaches each turn row to the file its ID names; rows naming no file are
/// dropped.
fn attach_turns(
    out: &mut Vec<(String, UsageIndexFile)>,
    ids: &Vec<(i64, String)>,
    turns: Vec<(i64, UsageIndexTurn)>,
    Ghost(rows): Ghost<Seq<(i64, UsageIndexFile)>>,
    Ghost(events): Ghost<Seq<(i64, UsageIndexEvent)>>,
    Ghost(k_other): Ghost<nat>,
)
    requires
        assembled(rows, turns@, events, old(out)@, 0, k_other),
        ids@.len() == rows.len(),
        forall|j: int| 0 <= j < rows.len() ==> #[trigger] ids@[j].0 == rows[j].0 && ids@[j].1@ == rows[j].1.path@,
    ensures
        assembled(rows, turns@, events, final(out)@, turns@.len(), k_other),
{
    let ghost all = turns@;
    let mut rest = turns;
    let n = rest.len();
    let mut k: usize = 0;
    while rest.len() > 0
        invariant
            k + rest@.len() == n,
            n == all.len(),
            rest@ == all.skip(k as int),
            ids@.len() == rows.len(),
            forall|j: int| 0 <= j < rows.len() ==> #[trigger] ids@[j].0 == rows[j].0 && ids@[j].1@ == rows[j].1.path@,
            assembled(rows, all, events, out@, k as nat, k_other),
        decreases rest@.len(),
    {
        let ghost before_rest = rest@;
        let ghost old_out = out@;
        let (id, item) = rest.remove(0);
        assert((id, item) == all[k as int]) by {
            assert(before_rest[0] == all.skip(k as int)[0]);
        }
        assert(rest@ =~= all.skip(k + 1));
        match path_of_id(ids, id, Ghost(rows)) {
            Some(p) => {
                proof {
                    lemma_id_path_is_a_row(rows, id);
                }
                let i = match locate(out, p.as_str()) {
                    Ok(i) => i,
                    Err(pos) => {
                        proof {
                            let j = choose|j: int| 0 <= j < rows.len() && (#[trigger] rows[j]).1.path@ == p@;
                            assert(has_key(old_out, rows[j].1.path@));
                            let w = choose|w: int| 0 <= w < old_out.len() && (#[trigger] old_out[w]).0@ == p@;
                            lemma_text_lt_irreflexive(p@);
                        }
                        assert(false);
                        0
                    },
                };
                let (key, mut f) = out.remove(i);
                let ghost before_items = f.turns@;
                let ghost item_v = item;
                f.turns.push(item);
                assert(f.turns@ =~= before_items.push(item_v));
                out.insert(i, (key, f));
                proof {
                    assert(out@ =~= old_out.update(i as int, out@[i as int]));
                    assert forall|a: int, b: int| 0 <= a < b < out@.len() implies text_lt(#[trigger] out@[a].0@, #[trigger] out@[b].0@) by {
                        assert(out@[a].0 == old_out[a].0);
                        assert(out@[b].0 == old_out[b].0);
                    }
                    assert forall|j: int| 0 <= j < rows.len() implies has_key(out@, (#[trigger] rows[j]).1.path@) by {
                        let w = choose|w: int| 0 <= w < old_out.len() && (#[trigger] old_out[w]).0@ == rows[j].1.path@;
                        assert(out@[w].0 == old_out[w].0);
                    }
                    assert forall|q: int| 0 <= q < out@.len() implies (#[trigger] out@[q]).0@ == out@[q].1.path@ && match last_row(rows, out@[q].0@) {
                        Some(z) => file_from(rows[z].1, out@[q].1, turns_for(rows, all, out@[q].0@, (k + 1) as nat), events_for(rows, events, out@[q].0@, k_other)),
                        None => false,
                    } by {
                        if q != i {
                            assert(out@[q] == old_out[q]);
                            if old_out[q].0@ == p@ {
                                lemma_key_unique(old_out, q, i as int);
                            }
                        } else {
                            assert(turns_for(rows, all, out@[q].0@, (k + 1) as nat) =~= turns_for(rows, all, out@[q].0@, k as nat).push(item_v));
                        }
                    }
                }
            },
            None => {},
        }
        k = k + 1;
    }
}

/// Attaches each event row to the file its ID names; rows naming no file are
/// dropped.
fn attach_events(
    out: &mut Vec<(String, UsageIndexFile)>,
    ids: &Vec<(i64, String)>,
    events: Vec<(i64, UsageIndexEvent)>,
    Ghost(rows): Ghost<Seq<(i64, UsageIndexFile)>>,
    Ghost(turns): Ghost<Seq<(i64, UsageIndexTurn)>>,
    Ghost(k_other): Ghost<nat>,
)
    requires
        assembled(rows, turns, events@, old(out)@, k_other, 0),
        ids@.len() == rows.len(),
        forall|j: int| 0 <= j < rows.len() ==> #[trigger] ids@[j].0 == rows[j].0 && ids@[j].1@ == rows[j].1.path@,
    ensures
        assembled(rows, turns, events@, final(out)@, k_other, events@.len()),
{
    let ghost all = events@;
    let mut rest = events;
    let n = rest.len();
    let mut k: usize = 0;
    while rest.len() > 0
        invariant
            k + rest@.len() == n,
            n == all.len(),
            rest@ == all.skip(k as int),
            ids@.len() == rows.len(),
            forall|j: int| 0 <= j < rows.len() ==> #[trigger] ids@[j].0 == rows[j].0 && ids@[j].1@ == rows[j].1.path@,
            assembled(rows, turns, all, out@, k_other, k as nat),
        decreases rest@.len(),
    {
        let ghost before_rest = rest@;
        let ghost old_out = out@;
        let (id, item) = rest.remove(0);
        assert((id, item) == all[k as int]) by {
            assert(before_rest[0] == all.skip(k as int)[0]);
        }
        assert(rest@ =~= all.skip(k + 1));
        match path_of_id(ids, id, Ghost(rows)) {
            Some(p) => {
                proof {
                    lemma_id_path_is_a_row(rows, id);
                }
                let i = match locate(out, p.as_str()) {
                    Ok(i) => i,
                    Err(pos) => {
                        proof {
                            let j = choose|j: int| 0 <= j < rows.len() && (#[trigger] rows[j]).1.path@ == p@;
                            assert(has_key(old_out, rows[j].1.path@));
                            let w = choose|w: int| 0 <= w < old_out.len() && (#[trigger] old_out[w]).0@ == p@;
                            lemma_text_lt_irreflexive(p@);
                        }
                        assert(false);
                        0
                    },
                };
                let (key, mut f) = out.remove(i);
                let ghost before_items = f.events@;
                let ghost item_v = item;
                f.events.push(item);
                assert(f.events@ =~= before_items.push(item_v));
                out.insert(i, (key, f));
                proof {
                    assert(out@ =~= old_out.update(i as int, out@[i as int]));
                    assert forall|a: int, b: int| 0 <= a < b < out@.len() implies text_lt(#[trigger] out@[a].0@, #[trigger] out@[b].0@) by {
                        assert(out@[a].0 == old_out[a].0);
                        assert(out@[b].0 == old_out[b].0);
                    }
                    assert forall|j: int| 0 <= j < rows.len() implies has_key(out@, (#[trigger] rows[j]).1.path@) by {
                        let w = choose|w: int| 0 <= w < old_out.len() && (#[trigger] old_out[w]).0@ == rows[j].1.path@;
                        assert(out@[w].0 == old_out[w].0);
                    }
                    assert forall|q: int| 0 <= q < out@.len() implies (#[trigger] out@[q]).0@ == out@[q].1.path@ && match last_row(rows, out@[q].0@) {
                        Some(z) => file_from(rows[z].1, out@[q].1, turns_for(rows, turns, out@[q].0@, k_other), events_for(rows, all, out@[q].0@, (k + 1) as nat)),
                        None => false,
                    } by {
                        if q != i {
                            assert(out@[q] == old_out[q]);
                            if old_out[q].0@ == p@ {
                                lemma_key_unique(old_out, q, i as int);
                            }
                        } else {
                            assert(events_for(rows, all, out@[q].0@, (k + 1) as nat) =~= events_for(rows, all, out@[q].0@, k as nat).push(item_v));
                        }
                    }
                }
            },
            None => {},
        }
        k = k + 1;
    }
}

/// The usage index from its rows: the file rows in order of path, the turn
/// rows in order of file, start and ID, the event rows in order of file and
/// position, each naming its file by ID.
pub fn read_usage_index(
    files: Vec<(i64, UsageIndexFile)>,
    turns: Vec<(i64, UsageIndexTurn)>,
    events: Vec<(i64, UsageIndexEvent)>,
) -> (r: Vec<UsageIndexFile>)
    ensures
        usage_index_of(files@, turns@, events@, r@),
{
    let ghost rows = files@;
    let ghost turn_rows = turns@;
    let ghost event_rows = events@;
    let (mut out, ids) = gather_files(files);
    proof {
        assert forall|i: int| 0 <= i < out@.len() implies (#[trigger] out@[i]).0@ == out@[i].1.path@ && match last_row(rows, out@[i].0@) {
            Some(q) => file_from(rows[q].1, out@[i].1, turns_for(rows, turn_rows, out@[i].0@, 0), events_for(rows, event_rows, out@[i].0@, 0)),
            None => false,
        } by {
            match last_row(rows, out@[i].0@) {
                Some(q) => {
                    assert(out@[i].1.turns@ =~= rows[q].1.turns@ + Seq::<UsageIndexTurn>::empty());
                    assert(out@[i].1.events@ =~= rows[q].1.events@ + Seq::<UsageIndexEvent>::empty());
                },
                None => {},
            }
        }
    }
    attach_turns(&mut out, &ids, turns, Ghost(rows), Ghost(event_rows), Ghost(0));
    attach_events(&mut out, &ids, events, Ghost(rows), Ghost(turn_rows), Ghost(turn_rows.len()));
    let ghost keyed = out@;
    let mut result: Vec<UsageIndexFile> = Vec::new();
    let m = out.len();
    let mut rest = out;
    let mut k: usize = 0;
    while rest.len() > 0
        invariant
            k + rest@.len() == m,
            m == keyed.len(),
            rest@ == keyed.skip(k as int),
            result@.len() == k,
            forall|q: int| 0 <= q < k ==> #[trigger] result@[q] == keyed[q].1,
        decreases rest@.len(),
    {
        let ghost before_rest = rest@;
        let (_, f) = rest.remove(0);
        assert(f == keyed[k as int].1) by {
            assert(before_rest[0] == keyed.skip(k as int)[0]);
        }
        assert(rest@ =~= keyed.skip(k + 1));
        result.push(f);
        k = k + 1;
    }
    proof {
        assert forall|j: int| 0 <= j < rows.len() implies exists|i: int| 0 <= i < result@.len() && #[trigger] result@[i].path@ == (#[trigger] rows[j]).1.path@ by {
            let w = choose|w: int| 0 <= w < keyed.len() && (#[trigger] keyed[w]).0@ == rows[j].1.path@;
            assert(result@[w] == keyed[w].1);
        }
        assert forall|a: int, b: int| 0 <= a < b < result@.len() implies text_lt(#[trigger] result@[a].path@, #[trigger] result@[b].path@) by {
            assert(result@[a] == keyed[a].1 && result@[b] == keyed[b].1);
        }
        assert forall|i: int| 0 <= i < result@.len() implies match last_row(rows, (#[trigger] result@[i]).path@) {
            Some(q) => file_from(
                rows[q].1,
                result@[i],
                turns_for(rows, turn_rows, result@[i].path@, turn_rows.len()),
                events_for(rows, event_rows, result@[i].path@, event_rows.len()),
            ),
            None => false,
        } by {
            assert(result@[i] == keyed[i].1);
        }
    }
    result
}

} // verus!
