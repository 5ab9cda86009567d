use smbr::session::{
    credentials, rename_urls, ConnectError, ConnectField, RenameError, SmbrContext,
    CONNECT_TIMEOUT_SECS,
};
use smbr::url::{parse_url_text, InputError, UrlError};

fn runtime() -> tokio::runtime::Runtime {
    tokio::runtime::Builder::new_current_thread().build().unwrap()
}

#[test]
fn fresh_session_plans_a_connection() {
    let mut ctx = SmbrContext::new(runtime(), "user".to_string(), "pw".to_string(), "WG".to_string());
    let parsed = parse_url_text("smb://Nas/Share/dir").unwrap();
    let plan = ctx.begin_connection(&parsed).unwrap();
    assert_eq!(plan.addr, "Nas:445");
    assert_eq!(plan.share, "Share");
    assert_eq!((plan.username.as_str(), plan.password.as_str(), plan.domain.as_str()), ("user", "pw", "WG"));
    assert_eq!(plan.timeout_secs, CONNECT_TIMEOUT_SECS);
    assert_eq!(plan.timeout_secs, 15);
    assert!(!plan.auto_reconnect && plan.compression && plan.dfs_enabled);
    assert!(ctx.client.is_none() && ctx.tree.is_none());
}

#[test]
fn unconnected_session_plans_again() {
    let mut ctx = SmbrContext::new(runtime(), String::new(), String::new(), String::new());
    let parsed = parse_url_text("smb://fe80::1/s").unwrap();
    assert_eq!(ctx.begin_connection(&parsed).unwrap().addr, "[fe80::1]:445");
    assert_eq!(ctx.begin_connection(&parsed).unwrap().addr, "[fe80::1]:445");
}

#[test]
fn reads_credentials() {
    let c = credentials(
        Some(b"u".as_slice()),
        Some(b"p".as_slice()),
        Some(b"w".as_slice()),
        Some(b"s".as_slice()),
        Some(b"h".as_slice()),
    )
    .ok()
    .unwrap();
    assert_eq!((c.username.as_str(), c.password.as_str(), c.workgroup.as_str()), ("u", "p", "w"));
}

#[test]
fn reports_first_unreadable_argument() {
    let e = credentials(Some(b"u".as_slice()), None, Some([0xffu8].as_slice()), None, None).err().unwrap();
    assert_eq!(e, ConnectError { field: ConnectField::Password, error: InputError::Missing });
    assert_eq!(e.message(), "password must not be null");
    let e = credentials(Some(b"u".as_slice()), Some(b"".as_slice()), Some([0xffu8].as_slice()), None, None)
        .err()
        .unwrap();
    assert_eq!(e.message(), "workgroup must be valid UTF-8");
    let e = credentials(Some(b"u".as_slice()), Some(b"".as_slice()), Some(b"".as_slice()), Some(b"s".as_slice()), None)
        .err()
        .unwrap();
    assert_eq!(e.message(), "share must not be null");
    let e = credentials(None, None, None, None, None).err().unwrap();
    assert_eq!(e.message(), "username must not be null");
    let e = credentials(Some(b"u".as_slice()), Some(b"".as_slice()), Some(b"".as_slice()), None, None)
        .err()
        .unwrap();
    assert_eq!(e.message(), "server must not be null");
}

#[test]
fn rename_within_one_share() {
    let (f, t) = rename_urls(Some(b"smb://NAS/Docs/a.txt".as_slice()), Some(b"smb://nas/docs/b/c.txt".as_slice())).unwrap();
    assert_eq!((f.path.as_str(), t.path.as_str()), ("a.txt", "b/c.txt"));
    assert_eq!(f.server, "NAS");
}

#[test]
fn rename_across_shares_is_refused() {
    let e = rename_urls(Some(b"smb://nas/a/x".as_slice()), Some(b"smb://nas/b/x".as_slice())).err().unwrap();
    assert_eq!(e, RenameError::DifferentShare);
    assert_eq!(e.message(), "rename requires both paths to use the same server and share");
    let e = rename_urls(Some(b"smb://nas1/a/x".as_slice()), Some(b"smb://nas2/a/x".as_slice())).err().unwrap();
    assert_eq!(e, RenameError::DifferentShare);
}

#[test]
fn rename_reports_bad_urls_source_first() {
    let e = rename_urls(Some(b"ftp://x/y".as_slice()), None).err().unwrap();
    assert_eq!(e, RenameError::From(UrlError::Scheme));
    assert_eq!(e.message(), "url must begin with smb://");
    let e = rename_urls(Some(b"smb://x/y".as_slice()), None).err().unwrap();
    assert_eq!(e, RenameError::To(UrlError::Input(InputError::Missing)));
    assert_eq!(e.message(), "url must not be null");
}

#[test]
fn failed_connect_leaves_no_connection() {
    let mut ctx = SmbrContext::new(runtime(), "u".to_string(), "p".to_string(), "w".to_string());
    let parsed = parse_url_text("smb://nas/share").unwrap();
    assert!(ctx.begin_connection(&parsed).is_some());
    let r = ctx.settle_connection(Err(smb2::Error::Timeout), &parsed);
    assert!(matches!(r, Err(smb2::Error::Timeout)));
    assert!(ctx.client.is_none() && ctx.tree.is_none());
    assert_eq!(ctx.begin_connection(&parsed).unwrap().addr, "nas:445");
}
