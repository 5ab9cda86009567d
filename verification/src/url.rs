use vstd::prelude::*;
use vstd::utf8::*;

use crate::text::{char_lower_code, chars_of, eq_ignore_case, lower_code};

verus! {

broadcast use {encode_utf8_decode_utf8, decode_utf8_encode_utf8};

/// Why a text argument handed in from outside could not be read.
#[derive(Clone, Copy, Debug, PartialEq, Eq, Structural)]
pub enum InputError {
    /// No value was given.
    Missing,
    /// The bytes are not UTF-8.
    NotUtf8,
}

/// `std::str::from_utf8`: the bytes read as a string slice when they are
/// valid UTF-8, whose UTF-8 encoding is then exactly those bytes; nothing
/// when they are not.
#[verifier::external_body]
fn str_from_utf8(bytes: &[u8]) -> (r: Option<&str>)
    ensures
        r is Some <==> valid_utf8(bytes@),
        r matches Some(s) ==> encode_utf8(s@) == bytes@,
{
    std::str::from_utf8(bytes).ok()
}

/// What reading an optional byte string as text gives: its characters when
/// it is present and valid UTF-8.
pub open spec fn spec_input(value: Option<Seq<u8>>) -> Result<Seq<char>, InputError> {
    match value {
        None => Err(InputError::Missing),
        Some(b) => if valid_utf8(b) {
            Ok(decode_utf8(b))
        } else {
            Err(InputError::NotUtf8)
        },
    }
}

/// The view of an optional byte slice.
pub open spec fn bytes_view(value: Option<&[u8]>) -> Option<Seq<u8>> {
    match value {
        None => None,
        Some(b) => Some(b@),
    }
}

/// Reads an argument handed in from outside as text: absent values and
/// bytes that are not UTF-8 are refused.
pub fn input(value: Option<&[u8]>) -> (r: Result<String, InputError>)
    ensures
        r matches Ok(s) ==> spec_input(bytes_view(value)) == Ok::<Seq<char>, InputError>(s@),
        r matches Err(e) ==> spec_input(bytes_view(value)) == Err::<Seq<char>, InputError>(e),
{
    match value {
        None => Err(InputError::Missing),
        Some(bytes) => match str_from_utf8(bytes) {
            None => Err(InputError::NotUtf8),
            Some(s) => {
                let t = s.to_owned();
                proof {
                    assert(encode_utf8(s@) == bytes@);
                    assert(decode_utf8(encode_utf8(s@)) == s@);
                }
                Ok(t)
            },
        },
    }
}

/// The message that reports an unreadable argument called `name`.
pub open spec fn spec_input_message(name: Seq<char>, e: InputError) -> Seq<char> {
    match e {
        InputError::Missing => name + " must not be null"@,
        InputError::NotUtf8 => name + " must be valid UTF-8"@,
    }
}

/// The message that reports an unreadable argument called `name`.
pub fn input_message(name: &str, e: InputError) -> (r: String)
    ensures
        r@ == spec_input_message(name@, e),
{
    let mut r = String::from_str(name);
    match e {
        InputError::Missing => r.append(" must not be null"),
        InputError::NotUtf8 => r.append(" must be valid UTF-8"),
    }
    r
}


/// The scheme an SMB URL begins with.
pub open spec fn scheme() -> Seq<char> {
    seq!['s', 'm', 'b', ':', '/', '/']
}

/// `v` begins with `smb://`, in any ASCII case.
pub open spec fn has_smb_scheme(v: Seq<char>) -> bool {
    v.len() >= 6 && eq_ignore_case(v.take(6), scheme())
}

/// Position of the first `/` in `s`, or its length when it holds none.
pub open spec fn first_slash(s: Seq<char>) -> int
    decreases s.len(),
{
    if s.len() == 0 {
        0
    } else if s[0] == '/' {
        0
    } else {
        1 + first_slash(s.drop_first())
    }
}

/// `s` without the slashes it begins with.
pub open spec fn trim_start(s: Seq<char>) -> Seq<char>
    decreases s.len(),
{
    if s.len() > 0 && s[0] == '/' {
        trim_start(s.drop_first())
    } else {
        s
    }
}

/// `s` without the slashes it ends with.
pub open spec fn trim_end(s: Seq<char>) -> Seq<char>
    decreases s.len(),
{
    if s.len() > 0 && s.last() == '/' {
        trim_end(s.drop_last())
    } else {
        s
    }
}

/// `s` without the slashes at either of its ends.
pub open spec fn trim_slashes(s: Seq<char>) -> Seq<char> {
    trim_end(trim_start(s))
}

/// Why an SMB URL was refused.
#[derive(Clone, Copy, Debug, PartialEq, Eq, Structural)]
pub enum UrlError {
    /// The URL could not be read as text.
    Input(InputError),
    /// The URL does not begin with `smb://`.
    Scheme,
    /// The server or the share is missing.
    ServerOrShare,
}

/// A URL `smb://server/share/path` taken apart.
pub struct ParsedUrl {
    pub server: String,
    pub share: String,
    pub path: String,
}

impl View for ParsedUrl {
    type V = (Seq<char>, Seq<char>, Seq<char>);

    open spec fn view(&self) -> (Seq<char>, Seq<char>, Seq<char>) {
        (self.server@, self.share@, self.path@)
    }
}

/// What a URL is taken apart into: after `smb://` (in any ASCII case), the
/// server runs to the first `/`, the share to the next `/`, and the path is
/// all that follows with the slashes at its ends removed. Server and share
/// must not be empty.
pub open spec fn spec_parse_url(v: Seq<char>) -> Result<(Seq<char>, Seq<char>, Seq<char>), UrlError> {
    if !has_smb_scheme(v) {
        Err(UrlError::Scheme)
    } else {
        let rest = v.skip(6);
        let i = first_slash(rest);
        let server = rest.take(i);
        let after = if i < rest.len() {
            rest.skip(i + 1)
        } else {
            Seq::<char>::empty()
        };
        let j = first_slash(after);
        let share = after.take(j);
        let tail = if j < after.len() {
            after.skip(j + 1)
        } else {
            Seq::<char>::empty()
        };
        if server.len() == 0 || share.len() == 0 {
            Err(UrlError::ServerOrShare)
        } else {
            Ok((server, share, trim_slashes(tail)))
        }
    }
}

/// The parts of `v` up to position `i` hold no slash, and position `i` is
/// the end or a slash: `i` is the first slash.
pub proof fn lemma_first_slash(s: Seq<char>, i: int)
    requires
        0 <= i <= s.len(),
        forall|k: int| 0 <= k < i ==> s[k] != '/',
        i < s.len() ==> s[i] == '/',
    ensures
        first_slash(s) == i,
    decreases i,
{
    if i > 0 {
        lemma_first_slash(s.drop_first(), i - 1);
    }
}

/// Position of the first `/` at or after `from`, or the end.
fn find_slash(v: &Vec<char>, from: usize) -> (i: usize)
    requires
        from <= v.len(),
    ensures
        from <= i <= v.len(),
        i == from + first_slash(v@.skip(from as int)),
{
    let mut i = from;
    while i < v.len() && v[i] != '/'
        invariant
            from <= i <= v.len(),
            forall|k: int| from <= k < i ==> v@[k] != '/',
        decreases v.len() - i,
    {
        i = i + 1;
    }
    proof {
        lemma_first_slash(v@.skip(from as int), i - from);
    }
    i
}

/// The bounds of `v` from `from` on with the slashes at its ends removed.
fn trim_bounds(v: &Vec<char>, from: usize) -> (r: (usize, usize))
    requires
        from <= v.len(),
    ensures
        from <= r.0 <= r.1 <= v.len(),
        v@.subrange(r.0 as int, r.1 as int) == trim_slashes(v@.skip(from as int)),
{
    let n = v.len();
    let mut a = from;
    while a < n && v[a] == '/'
        invariant
            n == v.len(),
            from <= a <= n,
            trim_start(v@.skip(from as int)) == trim_start(v@.skip(a as int)),
        decreases n - a,
    {
        assert(v@.skip(a as int).drop_first() =~= v@.skip(a + 1));
        a = a + 1;
    }
    assert(trim_start(v@.skip(a as int)) == v@.skip(a as int));
    assert(v@.skip(a as int) =~= v@.subrange(a as int, n as int));
    let mut b = n;
    while b > a && v[b - 1] == '/'
        invariant
            n == v.len(),
            from <= a <= b <= n,
            trim_end(v@.subrange(a as int, n as int)) == trim_end(v@.subrange(a as int, b as int)),
        decreases b - a,
    {
        assert(v@.subrange(a as int, b as int).drop_last() =~= v@.subrange(a as int, b - 1));
        b = b - 1;
    }
    assert(trim_end(v@.subrange(a as int, b as int)) == v@.subrange(a as int, b as int));
    (a, b)
}

/// Whether `v` begins with `smb://` in any ASCII case.
fn begins_with_scheme(v: &Vec<char>) -> (r: bool)
    ensures
        r == has_smb_scheme(v@),
{
    if v.len() < 6 {
        return false;
    }
    let p = chars_of("smb://");
    proof {
        reveal_strlit("smb://");
    }
    assert(p@ == scheme());
    let mut i: usize = 0;
    while i < 6
        invariant
            6 <= v.len(),
            p@ == scheme(),
            i <= 6,
            forall|k: int| 0 <= k < i ==> #[trigger] lower_code(v@[k]) == lower_code(scheme()[k]),
        decreases 6 - i,
    {
        if char_lower_code(v[i]) != char_lower_code(p[i]) {
            assert(lower_code(v@.take(6)[i as int]) != lower_code(scheme()[i as int]));
            return false;
        }
        i = i + 1;
    }
    assert(eq_ignore_case(v@.take(6), scheme())) by {
        assert forall|k: int| 0 <= k < 6 implies #[trigger] lower_code(v@.take(6)[k]) == lower_code(scheme()[k]) by {
            assert(v@.take(6)[k] == v@[k]);
        }
    }
    true
}

/// Takes an `smb://server/share/path` URL apart.
pub fn parse_url_text(value: &str) -> (r: Result<ParsedUrl, UrlError>)
    ensures
        r matches Ok(p) ==> spec_parse_url(value@) == Ok::<_, UrlError>(p@),
        r matches Err(e) ==> spec_parse_url(value@) == Err::<(Seq<char>, Seq<char>, Seq<char>), _>(e),
{
    let v = chars_of(value);
    let n = v.len();
    if !begins_with_scheme(&v) {
        return Err(UrlError::Scheme);
    }
    let ghost rest = value@.skip(6);
    let i = find_slash(&v, 6);
    assert(v@.skip(6) == rest);
    assert(rest.take(i - 6) =~= v@.subrange(6, i as int));
    if i == n {
        return Err(UrlError::ServerOrShare);
    }
    assert(rest.skip(i - 6 + 1) =~= v@.skip(i + 1));
    let j = find_slash(&v, i + 1);
    let ghost after = v@.skip(i + 1);
    assert(after.take(j - (i + 1)) =~= v@.subrange(i + 1, j as int));
    if i == 6 || j == i + 1 {
        return Err(UrlError::ServerOrShare);
    }
    let server = value.substring_char(6, i).to_owned();
    let share = value.substring_char(i + 1, j).to_owned();
    let path = if j < n {
        assert(after.skip(j - (i + 1) + 1) =~= v@.skip(j + 1));
        let (a, b) = trim_bounds(&v, j + 1);
        value.substring_char(a, b).to_owned()
    } else {
        proof {
            reveal_with_fuel(trim_start, 1);
            reveal_with_fuel(trim_end, 1);
        }
        assert(trim_slashes(Seq::<char>::empty()) == Seq::<char>::empty());
        String::new()
    };
    Ok(ParsedUrl { server, share, path })
}

/// What reading and taking apart a URL handed in from outside gives.
pub open spec fn spec_parse_url_input(value: Option<Seq<u8>>) -> Result<(Seq<char>, Seq<char>, Seq<char>), UrlError> {
    match spec_input(value) {
        Err(e) => Err(UrlError::Input(e)),
        Ok(v) => spec_parse_url(v),
    }
}

/// Reads a URL handed in from outside and takes it apart.
pub fn parse_url(value: Option<&[u8]>) -> (r: Result<ParsedUrl, UrlError>)
    ensures
        r matches Ok(p) ==> spec_parse_url_input(bytes_view(value)) == Ok::<_, UrlError>(p@),
        r matches Err(e) ==> spec_parse_url_input(bytes_view(value)) == Err::<(Seq<char>, Seq<char>, Seq<char>), _>(e),
{
    match input(value) {
        Err(e) => Err(UrlError::Input(e)),
        Ok(text) => parse_url_text(text.as_str()),
    }
}

/// The message that reports a refused URL.
pub open spec fn spec_url_message(e: UrlError) -> Seq<char> {
    match e {
        UrlError::Input(i) => spec_input_message("url"@, i),
        UrlError::Scheme => "url must begin with smb://"@,
        UrlError::ServerOrShare => "url must include a server and share"@,
    }
}

impl UrlError {
    /// The message that reports this refusal.
    pub fn message(&self) -> (r: String)
        ensures
            r@ == spec_url_message(*self),
    {
        match self {
            UrlError::Input(i) => input_message("url", *i),
            UrlError::Scheme => String::from_str("url must begin with smb://"),
            UrlError::ServerOrShare => String::from_str("url must include a server and share"),
        }
    }
}

/// `s` is a non-empty run of characters none of which is a slash.
pub open spec fn is_segment(s: Seq<char>) -> bool {
    s.len() > 0 && forall|k: int| 0 <= k < s.len() ==> s[k] != '/'
}

/// `p` neither begins nor ends with a slash.
pub open spec fn is_trimmed(p: Seq<char>) -> bool {
    p.len() > 0 ==> p[0] != '/' && p.last() != '/'
}

/// The URL `smb://server/share/path`.
pub open spec fn spec_format_url(server: Seq<char>, share: Seq<char>, path: Seq<char>) -> Seq<char> {
    scheme() + server + seq!['/'] + share + seq!['/'] + path
}

/// What `first_slash` finds: no slash before it, and a slash at it unless
/// it is the end.
pub proof fn lemma_first_slash_bounds(s: Seq<char>)
    ensures
        0 <= first_slash(s) <= s.len(),
        forall|k: int| 0 <= k < first_slash(s) ==> s[k] != '/',
        first_slash(s) < s.len() ==> s[first_slash(s)] == '/',
    decreases s.len(),
{
    if s.len() > 0 && s[0] != '/' {
        lemma_first_slash_bounds(s.drop_first());
        assert forall|k: int| 0 <= k < first_slash(s) implies s[k] != '/' by {
            if k > 0 {
                assert(s[k] == s.drop_first()[k - 1]);
            }
        }
    }
}

/// Removing leading slashes leaves nothing or something that does not begin
/// with one.
pub proof fn lemma_trim_start(s: Seq<char>)
    ensures
        trim_start(s).len() > 0 ==> trim_start(s)[0] != '/',
    decreases s.len(),
{
    if s.len() > 0 && s[0] == '/' {
        lemma_trim_start(s.drop_first());
    }
}

/// Removing trailing slashes leaves a prefix that does not end with one.
pub proof fn lemma_trim_end(s: Seq<char>)
    ensures
        trim_end(s).len() <= s.len(),
        trim_end(s) == s.take(trim_end(s).len() as int),
        trim_end(s).len() > 0 ==> trim_end(s).last() != '/',
    decreases s.len(),
{
    if s.len() > 0 && s.last() == '/' {
        lemma_trim_end(s.drop_last());
        assert(s.drop_last().take(trim_end(s).len() as int) =~= s.take(trim_end(s).len() as int));
    } else {
        assert(s.take(s.len() as int) =~= s);
    }
}

/// A text without slashes at its ends is its own trimming.
pub proof fn lemma_trim_trimmed(p: Seq<char>)
    requires
        is_trimmed(p),
    ensures
        trim_slashes(p) == p,
{
}

/// Whatever a URL is taken apart into has a server and a share that are
/// non-empty and hold no slash, and a path that neither begins nor ends
/// with a slash.
pub proof fn parsed_url_shape(v: Seq<char>)
    ensures
        spec_parse_url(v) matches Ok((server, share, path)) ==> {
            &&& is_segment(server)
            &&& is_segment(share)
            &&& is_trimmed(path)
        },
{
    if has_smb_scheme(v) {
        let rest = v.skip(6);
        lemma_first_slash_bounds(rest);
        let i = first_slash(rest);
        let after = if i < rest.len() {
            rest.skip(i + 1)
        } else {
            Seq::<char>::empty()
        };
        lemma_first_slash_bounds(after);
        let j = first_slash(after);
        let tail = if j < after.len() {
            after.skip(j + 1)
        } else {
            Seq::<char>::empty()
        };
        let t = trim_start(tail);
        lemma_trim_start(tail);
        lemma_trim_end(t);
        if trim_end(t).len() > 0 {
            assert(trim_end(t)[0] == t[0]);
        }
    }
}

/// Taking apart the URL `smb://server/share/path` gives back its server,
/// share and path, for a server and a share that are non-empty and hold no
/// slash and a path that neither begins nor ends with a slash.
pub proof fn parse_format_roundtrip(server: Seq<char>, share: Seq<char>, path: Seq<char>)
    requires
        is_segment(server),
        is_segment(share),
        is_trimmed(path),
    ensures
        spec_parse_url(spec_format_url(server, share, path)) == Ok::<_, UrlError>((server, share, path)),
{
    let v = spec_format_url(server, share, path);
    assert(v.take(6) =~= scheme());
    let rest = v.skip(6);
    assert(rest =~= server + seq!['/'] + share + seq!['/'] + path);
    lemma_first_slash(rest, server.len() as int);
    assert(rest.take(server.len() as int) =~= server);
    let after = rest.skip(server.len() as int + 1);
    assert(after =~= share + seq!['/'] + path);
    lemma_first_slash(after, share.len() as int);
    assert(after.take(share.len() as int) =~= share);
    assert(after.skip(share.len() as int + 1) =~= path);
    lemma_trim_trimmed(path);
}

/// The case of the letters of the scheme makes no difference to how a URL
/// is taken apart.
pub proof fn parse_scheme_ignores_case(a: Seq<char>, b: Seq<char>)
    requires
        a.len() >= 6,
        b.len() >= 6,
        eq_ignore_case(a.take(6), b.take(6)),
        a.skip(6) == b.skip(6),
    ensures
        spec_parse_url(a) == spec_parse_url(b),
{
    assert(has_smb_scheme(a) == has_smb_scheme(b)) by {
        if has_smb_scheme(a) {
            assert forall|k: int| 0 <= k < 6 implies #[trigger] lower_code(b.take(6)[k]) == lower_code(scheme()[k]) by {
                assert(lower_code(a.take(6)[k]) == lower_code(b.take(6)[k]));
            }
        }
        if has_smb_scheme(b) {
            assert forall|k: int| 0 <= k < 6 implies #[trigger] lower_code(a.take(6)[k]) == lower_code(scheme()[k]) by {
                assert(lower_code(a.take(6)[k]) == lower_code(b.take(6)[k]));
            }
        }
    }
}

/// A URL taken apart and written out again as `smb://server/share/path`
/// is taken apart into the same server, share and path.
pub proof fn parse_canonical(v: Seq<char>)
    ensures
        spec_parse_url(v) matches Ok((server, share, path)) ==> spec_parse_url(
            spec_format_url(server, share, path),
        ) == Ok::<_, UrlError>((server, share, path)),
{
    parsed_url_shape(v);
    if let Ok((server, share, path)) = spec_parse_url(v) {
        parse_format_roundtrip(server, share, path);
    }
}

/// `n` slashes.
pub open spec fn slashes(n: nat) -> Seq<char> {
    Seq::new(n, |k: int| '/')
}

/// After `smb://server/share/`, whatever follows is the path with the
/// slashes at its ends removed: it is never refused. Without anything after
/// the share, not even a slash, the path is empty.
pub proof fn parse_any_tail(server: Seq<char>, share: Seq<char>, tail: Seq<char>)
    requires
        is_segment(server),
        is_segment(share),
    ensures
        spec_parse_url(spec_format_url(server, share, tail)) == Ok::<_, UrlError>((server, share, trim_slashes(tail))),
        spec_parse_url(scheme() + server + seq!['/'] + share) == Ok::<_, UrlError>(
            (server, share, Seq::<char>::empty()),
        ),
{
    let v = spec_format_url(server, share, tail);
    assert(v.take(6) =~= scheme());
    let rest = v.skip(6);
    assert(rest =~= server + seq!['/'] + share + seq!['/'] + tail);
    lemma_first_slash(rest, server.len() as int);
    assert(rest.take(server.len() as int) =~= server);
    let after = rest.skip(server.len() as int + 1);
    assert(after =~= share + seq!['/'] + tail);
    lemma_first_slash(after, share.len() as int);
    assert(after.take(share.len() as int) =~= share);
    assert(after.skip(share.len() as int + 1) =~= tail);

    let w = scheme() + server + seq!['/'] + share;
    assert(w.take(6) =~= scheme());
    let rest2 = w.skip(6);
    assert(rest2 =~= server + seq!['/'] + share);
    lemma_first_slash(rest2, server.len() as int);
    assert(rest2.take(server.len() as int) =~= server);
    let after2 = rest2.skip(server.len() as int + 1);
    assert(after2 =~= share);
    lemma_first_slash(after2, share.len() as int);
    assert(after2.take(share.len() as int) =~= share);
    reveal_with_fuel(trim_start, 1);
    reveal_with_fuel(trim_end, 1);
    assert(trim_slashes(Seq::<char>::empty()) == Seq::<char>::empty());
}

/// Leading slashes are removed, whatever their number.
pub proof fn lemma_trim_start_slashes(k: nat, p: Seq<char>)
    requires
        p.len() > 0 ==> p[0] != '/',
    ensures
        trim_start(slashes(k) + p) == p,
    decreases k,
{
    if k == 0 {
        assert(slashes(k) + p =~= p);
    } else {
        assert((slashes(k) + p).drop_first() =~= slashes((k - 1) as nat) + p);
        lemma_trim_start_slashes((k - 1) as nat, p);
    }
}

/// Trailing slashes are removed, whatever their number.
pub proof fn lemma_trim_end_slashes(p: Seq<char>, m: nat)
    requires
        p.len() > 0 ==> p.last() != '/',
    ensures
        trim_end(p + slashes(m)) == p,
    decreases m,
{
    if m == 0 {
        assert(p + slashes(m) =~= p);
    } else {
        assert((p + slashes(m)).drop_last() =~= p + slashes((m - 1) as nat));
        lemma_trim_end_slashes(p, (m - 1) as nat);
    }
}

/// Slashes around a path, any number of them on either side, make no
/// difference to it: `smb://server/share/` followed by `k` slashes, the
/// path, and `m` slashes gives back the server, share and path.
pub proof fn parse_ignores_slashes_around_path(server: Seq<char>, share: Seq<char>, path: Seq<char>, k: nat, m: nat)
    requires
        is_segment(server),
        is_segment(share),
        is_trimmed(path),
    ensures
        spec_parse_url(spec_format_url(server, share, slashes(k) + path + slashes(m))) == Ok::<_, UrlError>(
            (server, share, path),
        ),
{
    let t = slashes(k) + path + slashes(m);
    parse_any_tail(server, share, t);
    if path.len() > 0 {
        assert(t =~= slashes(k) + (path + slashes(m)));
        assert((path + slashes(m))[0] == path[0]);
        lemma_trim_start_slashes(k, path + slashes(m));
        assert(trim_start(t) == path + slashes(m));
        lemma_trim_end_slashes(path, m);
        assert(trim_slashes(t) == path);
    } else {
        assert(t =~= slashes(k + m) + Seq::<char>::empty());
        lemma_trim_start_slashes(k + m, Seq::<char>::empty());
        assert(trim_start(t) == Seq::<char>::empty());
        reveal_with_fuel(trim_end, 1);
        assert(trim_slashes(t) == path);
    }
}

} // verus!
