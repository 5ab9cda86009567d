use smbr::info::{
    directory_listing, stat_record, unix_time, DirEntry, FileStat, ListingError, UnixTime,
    UNIX_EPOCH_TICKS,
};

#[test]
fn file_time_before_1970_has_no_unix_time() {
    assert_eq!(unix_time(0), None);
    assert_eq!(unix_time(UNIX_EPOCH_TICKS - 1), None);
}

#[test]
fn file_time_to_unix_time() {
    assert_eq!(unix_time(UNIX_EPOCH_TICKS), Some(UnixTime { secs: 0, nanos: 0 }));
    assert_eq!(unix_time(UNIX_EPOCH_TICKS + 1), Some(UnixTime { secs: 0, nanos: 100 }));
    assert_eq!(
        unix_time(UNIX_EPOCH_TICKS + 15_000_000),
        Some(UnixTime { secs: 1, nanos: 500_000_000 })
    );
    // 2024-01-01T00:00:00Z
    assert_eq!(
        unix_time(133_485_408_000_000_000),
        Some(UnixTime { secs: 1_704_067_200, nanos: 0 })
    );
    assert_eq!(
        unix_time(u64::MAX),
        Some(UnixTime { secs: 1_833_029_933_770, nanos: 955_161_500 })
    );
}

#[test]
fn unix_time_adds_back_up() {
    for t in [UNIX_EPOCH_TICKS, UNIX_EPOCH_TICKS + 123_456_789, u64::MAX] {
        let u = unix_time(t).unwrap();
        assert!(u.nanos < 1_000_000_000 && u.nanos % 100 == 0);
        assert_eq!(u.secs * 10_000_000 + u64::from(u.nanos / 100) + UNIX_EPOCH_TICKS, t);
    }
}

#[test]
fn stat_record_of_directory_and_file() {
    let dir = FileStat { size: 0, is_directory: true, created: 0, modified: UNIX_EPOCH_TICKS, accessed: 7 };
    let r = stat_record(&dir);
    assert_eq!(r.size, 0);
    assert_eq!(r.is_directory, 1);
    assert_eq!(r.created, None);
    assert_eq!(r.modified, Some(UnixTime { secs: 0, nanos: 0 }));
    assert_eq!(r.accessed, None);
    let file = FileStat { size: 42, is_directory: false, created: 0, modified: 0, accessed: 0 };
    let r = stat_record(&file);
    assert_eq!((r.size, r.is_directory), (42, 0));
}

fn entry(name: &str, is_directory: bool, size: u64) -> DirEntry {
    DirEntry { name: name.to_string(), is_directory, size, created: UNIX_EPOCH_TICKS + 10_000_000, modified: 0 }
}

#[test]
fn listing_keeps_order_and_fields() {
    let entries = vec![entry("b.csv", false, 10), entry("a", true, 0)];
    let v = directory_listing(&entries).unwrap();
    assert_eq!(v.len(), 2);
    assert_eq!((v[0].name.as_str(), v[0].type_code, v[0].size), ("b.csv", 0, 10));
    assert_eq!((v[1].name.as_str(), v[1].type_code, v[1].size), ("a", 1, 0));
    assert_eq!(v[0].created, Some(UnixTime { secs: 1, nanos: 0 }));
    assert_eq!(v[0].modified, None);
}

#[test]
fn empty_listing() {
    assert!(directory_listing(&Vec::new()).unwrap().is_empty());
}

#[test]
fn listing_refuses_nul_in_name() {
    let entries = vec![entry("ok", false, 1), entry("bad\0name", false, 1)];
    assert_eq!(directory_listing(&entries).err(), Some(ListingError::NulInName));
    assert_eq!(ListingError::NulInName.message(), "directory entry name contained a NUL byte");
}
