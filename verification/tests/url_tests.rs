use smbr::url::{input, input_message, parse_url, parse_url_text, InputError, UrlError};

fn parts(url: &str) -> (String, String, String) {
    let p = parse_url_text(url).unwrap();
    (p.server, p.share, p.path)
}

fn owned(a: &str, b: &str, c: &str) -> (String, String, String) {
    (a.to_string(), b.to_string(), c.to_string())
}

#[test]
fn parses_server_share_and_path() {
    assert_eq!(parts("smb://server/share/data/input.csv"), owned("server", "share", "data/input.csv"));
}

#[test]
fn parses_url_without_path() {
    assert_eq!(parts("smb://server/share"), owned("server", "share", ""));
    assert_eq!(parts("smb://server/share/"), owned("server", "share", ""));
}

#[test]
fn trims_slashes_around_path() {
    assert_eq!(parts("smb://server/share///a/b//"), owned("server", "share", "a/b"));
    assert_eq!(parts("smb://server/share/////"), owned("server", "share", ""));
}

#[test]
fn keeps_inner_slashes_of_path() {
    assert_eq!(parts("smb://srv/sh/a//b"), owned("srv", "sh", "a//b"));
}

#[test]
fn scheme_is_case_insensitive() {
    assert_eq!(parts("SMB://Server/Share/x"), owned("Server", "Share", "x"));
    assert_eq!(parts("sMb://h/s"), owned("h", "s", ""));
}

#[test]
fn refuses_other_schemes() {
    assert_eq!(parse_url_text("http://server/share").err(), Some(UrlError::Scheme));
    assert_eq!(parse_url_text("smb:/server/share").err(), Some(UrlError::Scheme));
    assert_eq!(parse_url_text("smb:").err(), Some(UrlError::Scheme));
    assert_eq!(parse_url_text("").err(), Some(UrlError::Scheme));
    assert_eq!(parse_url_text("smbé//server/share").err(), Some(UrlError::Scheme));
}

#[test]
fn refuses_missing_server_or_share() {
    assert_eq!(parse_url_text("smb://server").err(), Some(UrlError::ServerOrShare));
    assert_eq!(parse_url_text("smb://server/").err(), Some(UrlError::ServerOrShare));
    assert_eq!(parse_url_text("smb:///share").err(), Some(UrlError::ServerOrShare));
    assert_eq!(parse_url_text("smb://").err(), Some(UrlError::ServerOrShare));
    assert_eq!(parse_url_text("smb://server//path").err(), Some(UrlError::ServerOrShare));
}

#[test]
fn non_ascii_names_survive() {
    assert_eq!(parts("smb://sérveur/pärt/ñ/ü"), owned("sérveur", "pärt", "ñ/ü"));
}

#[test]
fn url_from_bytes() {
    let p = parse_url(Some(b"smb://nas/docs/a.txt".as_slice())).unwrap();
    assert_eq!((p.server.as_str(), p.share.as_str(), p.path.as_str()), ("nas", "docs", "a.txt"));
    assert_eq!(parse_url(None).err(), Some(UrlError::Input(InputError::Missing)));
    assert_eq!(
        parse_url(Some([0x73u8, 0xff, 0x00].as_slice())).err(),
        Some(UrlError::Input(InputError::NotUtf8))
    );
}

#[test]
fn url_messages() {
    assert_eq!(UrlError::Scheme.message(), "url must begin with smb://");
    assert_eq!(UrlError::ServerOrShare.message(), "url must include a server and share");
    assert_eq!(UrlError::Input(InputError::Missing).message(), "url must not be null");
    assert_eq!(UrlError::Input(InputError::NotUtf8).message(), "url must be valid UTF-8");
}

#[test]
fn reads_input() {
    assert_eq!(input(Some("héllo".as_bytes())), Ok("héllo".to_string()));
    assert_eq!(input(Some(b"".as_slice())), Ok(String::new()));
    assert_eq!(input(None), Err(InputError::Missing));
    assert_eq!(input(Some([0xc3u8].as_slice())), Err(InputError::NotUtf8));
    assert_eq!(input_message("mode", InputError::Missing), "mode must not be null");
    assert_eq!(input_message("mode", InputError::NotUtf8), "mode must be valid UTF-8");
}

#[test]
fn format_then_parse_round_trip() {
    for (server, share, path) in [("a", "b", "c/d"), ("10.0.0.1:445", "x y", ""), ("[::1]", "s", "p")] {
        let url = format!("smb://{server}/{share}/{path}");
        assert_eq!(parts(&url), owned(server, share, path));
    }
}
