use vstd::prelude::*;

use crate::text::{contains_nul, has_nul};

verus! {

/// Windows file times count 100-nanosecond ticks from 1601-01-01 UTC; this
/// many of them lie before 1970-01-01 UTC.
pub const UNIX_EPOCH_TICKS: u64 = 116_444_736_000_000_000;

/// File-time ticks in one second.
pub const TICKS_PER_SECOND: u64 = 10_000_000;

/// A point in time as whole seconds and nanoseconds since 1970-01-01 UTC.
#[derive(Clone, Copy, Debug, PartialEq, Eq, Structural)]
pub struct UnixTime {
    pub secs: u64,
    pub nanos: u32,
}

/// The point in time a Windows file time (in ticks) stands for, or nothing
/// when it lies before 1970.
pub open spec fn spec_unix_time(ticks: u64) -> Option<UnixTime> {
    if ticks < UNIX_EPOCH_TICKS {
        None
    } else {
        let since = ticks - UNIX_EPOCH_TICKS;
        Some(
            UnixTime {
                secs: (since / TICKS_PER_SECOND as int) as u64,
                nanos: ((since % TICKS_PER_SECOND as int) * 100) as u32,
            },
        )
    }
}

/// The point in time a Windows file time stands for, counted from
/// 1970-01-01 UTC; nothing for a time before 1970.
pub fn unix_time(ticks: u64) -> (r: Option<UnixTime>)
    ensures
        r == spec_unix_time(ticks),
{
    if ticks < UNIX_EPOCH_TICKS {
        None
    } else {
        let since = ticks - UNIX_EPOCH_TICKS;
        let rem = since % TICKS_PER_SECOND;
        assert(rem * 100 < 1_000_000_000) by (nonlinear_arith)
            requires
                rem < 10_000_000,
        ;
        Some(UnixTime { secs: since / TICKS_PER_SECOND, nanos: (rem * 100) as u32 })
    }
}

/// Seconds and nanoseconds since 1970 lose nothing of a file time: the
/// nanoseconds are below one second and a whole number of ticks, and
/// together with the seconds they add back up to the ticks.
pub proof fn unix_time_exact(ticks: u64)
    ensures
        spec_unix_time(ticks) matches Some(u) ==> {
            &&& u.nanos < 1_000_000_000
            &&& u.nanos % 100 == 0
            &&& u.secs * 10_000_000 + u.nanos / 100 + 116_444_736_000_000_000 == ticks
        },
        spec_unix_time(ticks) is None <==> ticks < 116_444_736_000_000_000u64,
{
    if ticks >= UNIX_EPOCH_TICKS {
        let since = (ticks - UNIX_EPOCH_TICKS) as int;
        let q = since / 10_000_000;
        let r = since % 10_000_000;
        assert(q * 10_000_000 + r == since && 0 <= r < 10_000_000) by (nonlinear_arith)
            requires
                q == since / 10_000_000,
                r == since % 10_000_000,
                since >= 0,
        ;
        assert((r * 100) % 100 == 0 && (r * 100) / 100 == r) by (nonlinear_arith)
            requires
                0 <= r,
        ;
    }
}

/// What the server reports of a file: size, kind and times as file-time
/// ticks.
#[derive(Clone, Copy, Debug, PartialEq, Eq, Structural)]
pub struct FileStat {
    pub size: u64,
    pub is_directory: bool,
    pub created: u64,
    pub modified: u64,
    pub accessed: u64,
}

/// The record handed out for a file: size, 1 for a directory and 0
/// otherwise, and times since 1970.
#[derive(Clone, Copy, Debug, PartialEq, Eq, Structural)]
pub struct StatRecord {
    pub size: u64,
    pub is_directory: i32,
    pub created: Option<UnixTime>,
    pub modified: Option<UnixTime>,
    pub accessed: Option<UnixTime>,
}

/// The code of a flag: 1 when set, 0 when not.
pub open spec fn flag_code(b: bool) -> i32 {
    if b {
        1
    } else {
        0
    }
}

/// The record handed out for a file.
pub open spec fn spec_stat_record(info: FileStat) -> StatRecord {
    StatRecord {
        size: info.size,
        is_directory: flag_code(info.is_directory),
        created: spec_unix_time(info.created),
        modified: spec_unix_time(info.modified),
        accessed: spec_unix_time(info.accessed),
    }
}

/// The record handed out for a file.
pub fn stat_record(info: &FileStat) -> (r: StatRecord)
    ensures
        r == spec_stat_record(*info),
        r.size == info.size,
        time_of_ticks(r.created, info.created),
        time_of_ticks(r.modified, info.modified),
        time_of_ticks(r.accessed, info.accessed),
{
    proof {
        stat_record_law(*info);
    }
    StatRecord {
        size: info.size,
        is_directory: if info.is_directory {
            1
        } else {
            0
        },
        created: unix_time(info.created),
        modified: unix_time(info.modified),
        accessed: unix_time(info.accessed),
    }
}

/// What the server reports of one entry of a directory.
pub struct DirEntry {
    pub name: String,
    pub is_directory: bool,
    pub size: u64,
    pub created: u64,
    pub modified: u64,
}

/// The record handed out for one entry of a directory: its name, 1 for a
/// directory and 0 otherwise, its size and its times since 1970.
pub struct DirRecord {
    pub name: String,
    pub type_code: i32,
    pub size: u64,
    pub created: Option<UnixTime>,
    pub modified: Option<UnixTime>,
}

/// `record` is the record handed out for `entry`.
pub open spec fn is_record_of(record: DirRecord, entry: DirEntry) -> bool {
    &&& record.name@ == entry.name@
    &&& record.type_code == flag_code(entry.is_directory)
    &&& record.size == entry.size
    &&& record.created == spec_unix_time(entry.created)
    &&& record.modified == spec_unix_time(entry.modified)
}

/// A listing was refused because an entry's name cannot be carried as a C
/// string.
#[derive(Clone, Copy, Debug, PartialEq, Eq, Structural)]
pub enum ListingError {
    NulInName,
}

impl ListingError {
    /// The message that reports this refusal.
    pub fn message(&self) -> (r: String)
        ensures
            r@ == "directory entry name contained a NUL byte"@,
    {
        String::from_str("directory entry name contained a NUL byte")
    }
}

/// The records handed out for a directory listing, entry by entry in the
/// server's order; refused when any name holds a NUL character.
pub fn directory_listing(entries: &Vec<DirEntry>) -> (r: Result<Vec<DirRecord>, ListingError>)
    ensures
        r is Ok <==> forall|i: int| 0 <= i < entries@.len() ==> !has_nul(#[trigger] entries@[i].name@),
        r matches Ok(v) ==> {
            &&& v@.len() == entries@.len()
            &&& forall|i: int| 0 <= i < v@.len() ==> is_record_of(#[trigger] v@[i], entries@[i])
            &&& forall|i: int| 0 <= i < v@.len() ==> time_of_ticks(#[trigger] v@[i].modified, entries@[i].modified)
            &&& forall|i: int| 0 <= i < v@.len() ==> time_of_ticks(#[trigger] v@[i].created, entries@[i].created)
        },
{
    let mut out: Vec<DirRecord> = Vec::new();
    let mut i: usize = 0;
    while i < entries.len()
        invariant
            i <= entries@.len(),
            out@.len() == i,
            forall|k: int| 0 <= k < i ==> !has_nul(#[trigger] entries@[k].name@),
            forall|k: int| 0 <= k < i ==> is_record_of(#[trigger] out@[k], entries@[k]),
        decreases entries@.len() - i,
    {
        let entry = &entries[i];
        if contains_nul(entry.name.as_str()) {
            return Err(ListingError::NulInName);
        }
        out.push(
            DirRecord {
                name: entry.name.clone(),
                type_code: if entry.is_directory {
                    1
                } else {
                    0
                },
                size: entry.size,
                created: unix_time(entry.created),
                modified: unix_time(entry.modified),
            },
        );
        i = i + 1;
    }
    assert forall|k: int| 0 <= k < out@.len() implies time_of_ticks(#[trigger] out@[k].modified, entries@[k].modified)
        && time_of_ticks(out@[k].created, entries@[k].created) by {
        dir_record_law(out@[k], entries@[k]);
    }
    Ok(out)
}

/// `t` is the point in time the file time `ticks` stands for: nothing
/// exactly when it lies before 1970, and otherwise seconds and a sub-second
/// count of nanoseconds (a whole number of ticks) that add back up to it.
pub open spec fn time_of_ticks(t: Option<UnixTime>, ticks: u64) -> bool {
    match t {
        None => ticks < 116_444_736_000_000_000u64,
        Some(u) => {
            &&& ticks >= 116_444_736_000_000_000u64
            &&& u.nanos < 1_000_000_000
            &&& u.nanos % 100 == 0
            &&& u.secs * 10_000_000 + u.nanos / 100 + 116_444_736_000_000_000 == ticks
        },
    }
}

/// The record of a file keeps its size, reports 1 exactly for a directory,
/// and takes each of its three times from the same time of the server's
/// answer: the creation time from the creation ticks, the modification time
/// from the modification ticks, the access time from the access ticks.
pub proof fn stat_record_law(info: FileStat)
    ensures
        spec_stat_record(info).size == info.size,
        spec_stat_record(info).is_directory == 1 <==> info.is_directory,
        spec_stat_record(info).is_directory == 0 <==> !info.is_directory,
        time_of_ticks(spec_stat_record(info).created, info.created),
        time_of_ticks(spec_stat_record(info).modified, info.modified),
        time_of_ticks(spec_stat_record(info).accessed, info.accessed),
{
    unix_time_exact(info.created);
    unix_time_exact(info.modified);
    unix_time_exact(info.accessed);
}

/// The record handed out for an entry of a listing keeps its name and size,
/// reports 1 exactly for a directory, and takes its creation time from the
/// entry's creation ticks and its modification time from the entry's
/// modification ticks.
pub proof fn dir_record_law(record: DirRecord, entry: DirEntry)
    requires
        is_record_of(record, entry),
    ensures
        record.name@ == entry.name@,
        record.size == entry.size,
        record.type_code == 1 <==> entry.is_directory,
        record.type_code == 0 <==> !entry.is_directory,
        time_of_ticks(record.created, entry.created),
        time_of_ticks(record.modified, entry.modified),
{
    unix_time_exact(entry.created);
    unix_time_exact(entry.modified);
}

} // verus!
