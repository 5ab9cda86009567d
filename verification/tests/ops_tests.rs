use smbr::ops::{write_args, WriteArgError};
use smbr::url::{InputError, UrlError};
use smbr::ops::{
    after_file_delete, append_offset, exists_flag, write_mode, DeleteStep, Failure, FailureKind,
    ModeError, WriteMode,
};
use smbr::text::{contains_nul, eq_ignore_ascii_case, error_text};

fn failure(kind: FailureKind, message: &str) -> Failure {
    Failure { kind, message: message.to_string() }
}

#[test]
fn exists_answers() {
    assert_eq!(exists_flag(Ok(())).ok(), Some(1));
    assert_eq!(exists_flag(Err(failure(FailureKind::NotFound, "gone"))).ok(), Some(0));
    let e = exists_flag(Err(failure(FailureKind::Other, "denied"))).err().unwrap();
    assert_eq!((e.kind, e.message.as_str()), (FailureKind::Other, "denied"));
    let e = exists_flag(Err(failure(FailureKind::IsADirectory, "dir"))).err().unwrap();
    assert_eq!(e.kind, FailureKind::IsADirectory);
}

#[test]
fn append_starts_at_end_or_zero() {
    assert_eq!(append_offset(Ok(1234)).ok(), Some(1234));
    assert_eq!(append_offset(Err(failure(FailureKind::NotFound, "x"))).ok(), Some(0));
    let e = append_offset(Err(failure(FailureKind::Other, "lost"))).err().unwrap();
    assert_eq!(e.message, "lost");
}

#[test]
fn write_modes() {
    assert_eq!(write_mode("a"), Ok(WriteMode::Append));
    assert_eq!(write_mode("ab+"), Ok(WriteMode::Append));
    assert_eq!(write_mode("w"), Ok(WriteMode::Overwrite));
    assert_eq!(write_mode("wb"), Ok(WriteMode::Overwrite));
    assert_eq!(write_mode("r"), Err(ModeError::Unknown));
    assert_eq!(write_mode("A"), Err(ModeError::Unknown));
    assert_eq!(write_mode(""), Err(ModeError::Unknown));
    assert_eq!(ModeError::Unknown.message(), "mode must start with w or a");
}

#[test]
fn delete_falls_back_to_directory() {
    assert!(matches!(after_file_delete(Ok(())), DeleteStep::Done));
    assert!(matches!(
        after_file_delete(Err(failure(FailureKind::IsADirectory, "dir"))),
        DeleteStep::DeleteDirectory
    ));
    match after_file_delete(Err(failure(FailureKind::NotFound, "missing"))) {
        DeleteStep::Fail(f) => assert_eq!((f.kind, f.message.as_str()), (FailureKind::NotFound, "missing")),
        _ => panic!("expected a failure"),
    }
}

#[test]
fn error_text_replaces_nul() {
    assert_eq!(error_text("Invalid data: x"), "Invalid data: x");
    assert_eq!(error_text("a\0b"), "SMB2 error");
    assert_eq!(error_text(""), "");
    assert!(contains_nul("\0"));
    assert!(!contains_nul("abc"));
}

#[test]
fn case_insensitive_comparison() {
    assert!(eq_ignore_ascii_case("NAS", "nas"));
    assert!(eq_ignore_ascii_case("Share-1", "sHARE-1"));
    assert!(!eq_ignore_ascii_case("nas", "nas2"));
    assert!(!eq_ignore_ascii_case("É", "é"));
    assert!(eq_ignore_ascii_case("", ""));
}

#[test]
fn write_arguments_in_order() {
    let (p, m) = write_args(Some(b"smb://n/s/f".as_slice()), Some(b"wb".as_slice()), 3, true).unwrap();
    assert_eq!((p.path.as_str(), m.as_str()), ("f", "wb"));
    assert!(write_args(Some(b"smb://n/s/f".as_slice()), Some(b"a".as_slice()), 0, false).is_ok());
    let e = write_args(None, None, 3, false).err().unwrap();
    assert_eq!(e, WriteArgError::Url(UrlError::Input(InputError::Missing)));
    assert_eq!(e.message(), "url must not be null");
    let e = write_args(Some(b"smb://n/s".as_slice()), None, 3, false).err().unwrap();
    assert_eq!(e, WriteArgError::Mode(InputError::Missing));
    assert_eq!(e.message(), "mode must not be null");
    let e = write_args(Some(b"smb://n/s".as_slice()), Some([0xffu8].as_slice()), 3, false).err().unwrap();
    assert_eq!(e.message(), "mode must be valid UTF-8");
    let e = write_args(Some(b"smb://n/s".as_slice()), Some(b"x".as_slice()), 3, false).err().unwrap();
    assert_eq!(e, WriteArgError::NullData);
    assert_eq!(e.message(), "data must not be null when len is non-zero");
}
