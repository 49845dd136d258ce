//! The local analysis database: the rows it keeps for session logs and traces,
//! the integer ranges SQLite can hold, and how rows are put back together.
use vstd::prelude::*;
use crate::text::{decimal, decimal_string, str_eq};

verus! {

broadcast use vstd::string::group_string_axioms;

/// The schema the database is created with.
pub const DATABASE_SCHEMA_VERSION: u32 = 4;

/// The database's state as the diagnostics page shows it.
#[derive(Debug)]
pub struct StorageHealth {
    pub database_bytes: u64,
    pub wal_bytes: u64,
    pub journal_mode: String,
    pub schema_version: u32,
    pub integrity_ok: bool,
    pub integrity_message: String,
    pub foreign_key_violations: u64,
    pub malformed_session_lines: u64,
    pub usage_sessions: u64,
    pub usage_turns: u64,
    pub token_events: u64,
    pub trace_sessions: u64,
    pub trace_turns: u64,
    pub trace_tool_events: u64,
}

/// One session log as the usage index stores it.
#[derive(Debug)]
pub struct UsageIndexFile {
    pub path: String,
    pub length: u64,
    pub modified_ms: u128,
    pub malformed_lines: usize,
    pub session_id: Option<String>,
    pub parent_id: Option<String>,
    pub forked_at_ms: Option<i64>,
    pub cwd: Option<String>,
    pub started_at_ms: Option<i64>,
    pub updated_at_ms: Option<i64>,
    pub project_metadata_indexed: bool,
    pub turns: Vec<UsageIndexTurn>,
    pub events: Vec<UsageIndexEvent>,
}

/// One turn row of the usage index.
#[derive(Debug)]
pub struct UsageIndexTurn {
    pub id: String,
    pub started_at_ms: Option<i64>,
    pub updated_at_ms: Option<i64>,
}

/// One token event row of the usage index.
#[derive(Debug)]
pub struct UsageIndexEvent {
    pub event_index: usize,
    pub timestamp_ms: i64,
    pub date: String,
    pub turn_id: String,
    pub model: String,
    pub input_tokens: u64,
    pub cached_input_tokens: u64,
    pub cache_write_input_tokens: u64,
    pub output_tokens: u64,
    pub total_tokens: u64,
}

/// One session in the trace mirror.
#[derive(Debug)]
pub struct TraceMirrorSession {
    pub session_path: String,
    pub length: u64,
    pub modified_ms: u128,
    pub session_id: Option<String>,
    pub parent_id: Option<String>,
    pub cwd: Option<String>,
    pub conversation_name: Option<String>,
    pub official_status: Option<String>,
    pub started_at: Option<String>,
    pub updated_at: Option<String>,
    pub model: Option<String>,
    pub malformed_lines: usize,
    pub turns: Vec<TraceMirrorTurn>,
    pub tool_events: Vec<TraceMirrorToolEvent>,
    pub phase_events: Vec<TraceMirrorPhaseEvent>,
    pub usage_events: Vec<TraceMirrorUsageEvent>,
}

/// One turn in the trace mirror.
#[derive(Debug)]
pub struct TraceMirrorTurn {
    pub turn_id: String,
    pub model: String,
    pub reasoning_effort: Option<String>,
    pub summary_mode: Option<String>,
    pub started_source_order: Option<usize>,
    pub started_at_ms: Option<i64>,
    pub completed_source_order: Option<usize>,
    pub completed_at_ms: Option<i64>,
    pub duration_ms: Option<u64>,
    pub structured_failures: usize,
    pub context_compactions: usize,
}

/// One tool call in the trace mirror.
#[derive(Debug)]
pub struct TraceMirrorToolEvent {
    pub turn_id: String,
    pub source_order: usize,
    pub completed_source_order: Option<usize>,
    pub execution_completed_source_order: Option<usize>,
    pub timestamp_ms: i64,
    pub completed_at_ms: Option<i64>,
    pub execution_completed_at_ms: Option<i64>,
    pub call_id: Option<String>,
    pub source_type: String,
    pub execution_end_source_type: Option<String>,
    pub result_source_type: Option<String>,
    pub name: String,
    pub category: String,
    pub server: Option<String>,
    pub subject: Option<String>,
    pub detail: Option<String>,
    pub arguments_json: Option<String>,
    pub result_json: Option<String>,
    pub repeated: bool,
    pub failed: bool,
    pub output_bytes: u64,
    pub exit_code: Option<i64>,
}

/// One phase of a turn in the trace mirror.
#[derive(Debug)]
pub struct TraceMirrorPhaseEvent {
    pub turn_id: String,
    pub source_order: usize,
    pub source_end_order: Option<usize>,
    pub timestamp_ms: i64,
    pub phase: String,
    pub source_type: String,
    pub role: Option<String>,
    pub content_bytes: u64,
    pub encrypted_bytes: u64,
}

/// One token count in the trace mirror.
#[derive(Debug)]
pub struct TraceMirrorUsageEvent {
    pub turn_id: String,
    pub source_order: usize,
    pub timestamp_ms: i64,
    pub model: String,
    pub input_tokens: u64,
    pub cached_input_tokens: u64,
    pub output_tokens: u64,
    pub reasoning_output_tokens: u64,
    pub total_tokens: u64,
    pub context_window: Option<u64>,
}

pub open spec fn out_of_range(field: Seq<char>) -> Seq<char> {
    field + " 超出 SQLite INTEGER 范围"@
}

/// An unsigned count as an SQLite INTEGER, refused above `i64::MAX`.
pub fn integer(value: u64, field: &str) -> (r: Result<i64, String>)
    ensures
        value <= i64::MAX ==> r == Ok::<i64, String>(value as i64),
        value > i64::MAX ==> (r matches Err(e) && e@ == out_of_range(field@)),
{
    if value <= i64::MAX as u64 {
        Ok(value as i64)
    } else {
        let mut message = field.to_owned();
        message.append(" 超出 SQLite INTEGER 范围");
        Err(message)
    }
}

/// A length or position as an SQLite INTEGER, refused above `i64::MAX`.
pub fn count(value: usize, field: &str) -> (r: Result<i64, String>)
    ensures
        value <= i64::MAX ==> r == Ok::<i64, String>(value as i64),
        value > i64::MAX ==> (r matches Err(e) && e@ == out_of_range(field@)),
{
    if (value as u128) <= (i64::MAX as u128) {
        Ok(value as i64)
    } else {
        let mut message = field.to_owned();
        message.append(" 超出 SQLite INTEGER 范围");
        Err(message)
    }
}

/// A stored INTEGER read back as a count; a negative value reads as zero.
pub fn unsigned(value: i64) -> (r: u64)
    ensures
        r == if value >= 0 {
            value as u64
        } else {
            0
        },
{
    if value >= 0 {
        value as u64
    } else {
        0
    }
}

/// A stored INTEGER read back as a position; out of range reads as zero.
pub fn position(value: i64) -> (r: usize)
    ensures
        r == if 0 <= value <= usize::MAX {
            value as usize
        } else {
            0
        },
{
    if value >= 0 && (value as u128) <= (usize::MAX as u128) {
        value as usize
    } else {
        0
    }
}

/// Storing a count and reading it back gives the count again.
pub proof fn law_integer_round_trip(value: u64)
    requires
        value <= i64::MAX,
    ensures
        (if (value as i64) >= 0 {
            (value as i64) as u64
        } else {
            0
        }) == value,
{
}

/// The text the index stores a modification time as.
pub fn modified_text(modified_ms: u128) -> (r: String)
    ensures
        r@ == decimal(modified_ms as nat),
{
    decimal_string(modified_ms)
}

/// The stored row has the file's length and modification time.
pub open spec fn unchanged_row(stored: Option<(i64, String)>, file: UsageIndexFile) -> bool {
    match stored {
        Some((l, m)) => l == file.length as i64 && m@ == decimal(file.modified_ms as nat),
        None => false,
    }
}

/// A session log needs rewriting unless the stored row has the same length
/// and modification time.
pub fn needs_rewrite(stored: Option<(i64, String)>, file: &UsageIndexFile) -> (r: Result<bool, String>)
    ensures
        file.length > i64::MAX ==> (r matches Err(e) && e@ == out_of_range("Session 文件长度"@)),
        file.length <= i64::MAX ==> (r matches Ok(b) && b == !unchanged_row(stored, *file)),
{
    let length = integer(file.length, "Session 文件长度")?;
    let modified = modified_text(file.modified_ms);
    match stored {
        Some((stored_length, stored_modified)) => Ok(
            !(stored_length == length && str_eq(stored_modified.as_str(), modified.as_str())),
        ),
        None => Ok(true),
    }
}

/// The stored session paths that the current index no longer has.
pub fn stale_paths(old_paths: &[String], current: &[UsageIndexFile]) -> (r: Vec<String>)
    ensures
        r@.map_values(|p: String| p@) == old_paths@.map_values(|p: String| p@).filter(
            |p: Seq<char>| !current@.map_values(|f: UsageIndexFile| f.path@).contains(p),
        ),
{
    let ghost olds = old_paths@.map_values(|p: String| p@);
    let ghost currents = current@.map_values(|f: UsageIndexFile| f.path@);
    let mut out: Vec<String> = Vec::new();
    let mut i: usize = 0;
    while i < old_paths.len()
        invariant
            i <= old_paths@.len(),
            olds == old_paths@.map_values(|p: String| p@),
            currents == current@.map_values(|f: UsageIndexFile| f.path@),
            out@.map_values(|p: String| p@) == olds.take(i as int).filter(
                |p: Seq<char>| !currents.contains(p),
            ),
        decreases old_paths@.len() - i,
    {
        let path = old_paths[i].as_str();
        let mut found = false;
        let mut j: usize = 0;
        while j < current.len()
            invariant
                j <= current@.len(),
                currents == current@.map_values(|f: UsageIndexFile| f.path@),
                found == exists|k: int| 0 <= k < j && currents[k] == path@,
            decreases current@.len() - j,
        {
            let hit = str_eq(current[j].path.as_str(), path);
            proof {
                assert(currents[j as int] == current@[j as int].path@);
                if hit {
                    assert(currents[j as int] == path@);
                }
                if found || hit {
                    if !found {
                        assert(0 <= j < j + 1 && currents[j as int] == path@);
                    }
                } else {
                    assert forall|k: int| 0 <= k < j + 1 implies currents[k] != path@ by {
                        if k == j {
                            assert(!hit);
                        }
                    }
                }
            }
            found = found || hit;
            j = j + 1;
        }
        proof {
            assert(olds.take(i + 1).drop_last() == olds.take(i as int));
            assert(olds.take(i + 1).last() == path@);
            reveal(Seq::filter);
            if found {
                let k = choose|k: int| 0 <= k < current@.len() && currents[k] == path@;
                assert(currents.contains(path@));
            } else {
                assert(!currents.contains(path@));
            }
        }
        if !found {
            let ghost before = out@.map_values(|p: String| p@);
            out.push(old_paths[i].clone());
            assert(out@.map_values(|p: String| p@) == before.push(path@));
        }
        i = i + 1;
    }
    assert(olds.take(old_paths@.len() as int) == olds);
    out
}

/// The database health report, from what SQLite answered. `counts` are the row
/// counts of the usage files, turns and token events, the trace sessions,
/// turns and tool events, and the sum of malformed lines; `schema_text` is the
/// stored schema version; `foreign_key_violations` is `None` when the check
/// could not run.
pub fn storage_health(
    database_bytes: u64,
    wal_bytes: u64,
    journal_mode: String,
    schema_version: Option<u32>,
    integrity_message: String,
    foreign_key_violations: Option<u64>,
    counts: [i64; 7],
) -> (r: StorageHealth)
    ensures
        r.database_bytes == database_bytes,
        r.wal_bytes == wal_bytes,
        r.journal_mode@ == journal_mode@,
        r.schema_version == match schema_version {
            Some(v) => v,
            None => 0,
        },
        r.integrity_ok == (crate::text::ascii_lower(integrity_message@) == "ok"@),
        r.integrity_message@ == integrity_message@,
        r.foreign_key_violations == match foreign_key_violations {
            Some(n) => n,
            None => u64::MAX,
        },
        r.usage_sessions == (if counts@[0] >= 0 { counts@[0] as u64 } else { 0 }),
        r.usage_turns == (if counts@[1] >= 0 { counts@[1] as u64 } else { 0 }),
        r.token_events == (if counts@[2] >= 0 { counts@[2] as u64 } else { 0 }),
        r.trace_sessions == (if counts@[3] >= 0 { counts@[3] as u64 } else { 0 }),
        r.trace_turns == (if counts@[4] >= 0 { counts@[4] as u64 } else { 0 }),
        r.trace_tool_events == (if counts@[5] >= 0 { counts@[5] as u64 } else { 0 }),
        r.malformed_session_lines == (if counts@[6] >= 0 { counts@[6] as u64 } else { 0 }),
{
    let lowered = crate::text::str_ascii_lowercase(integrity_message.as_str());
    let integrity_ok = str_eq(lowered.as_str(), "ok");
    StorageHealth {
        database_bytes,
        wal_bytes,
        journal_mode,
        schema_version: match schema_version {
            Some(v) => v,
            None => 0,
        },
        integrity_ok,
        integrity_message,
        foreign_key_violations: match foreign_key_violations {
            Some(n) => n,
            None => u64::MAX,
        },
        malformed_session_lines: unsigned(counts[6]),
        usage_sessions: unsigned(counts[0]),
        usage_turns: unsigned(counts[1]),
        token_events: unsigned(counts[2]),
        trace_sessions: unsigned(counts[3]),
        trace_turns: unsigned(counts[4]),
        trace_tool_events: unsigned(counts[5]),
    }
}

} // verus!
