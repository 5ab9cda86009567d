use vstd::prelude::*;

use smb2::{Error, SmbClient, Tree};
use tokio::runtime::Runtime;

use crate::address::{address, spec_address};
use crate::text::{eq_ignore_ascii_case, eq_ignore_case, eq_ignore_case_law, lowered};
use crate::url::{
    bytes_view, input, input_message, parse_url, spec_input, spec_input_message,
    spec_parse_url_input, InputError, ParsedUrl, UrlError, spec_url_message,
};

verus! {

/// `smb2::SmbClient`, a client connected and signed in to one server.
#[verifier::external_type_specification]
#[verifier::external_body]
pub struct ExSmbClient(SmbClient);

/// `smb2::Tree`, a share the client is connected to.
#[verifier::external_type_specification]
#[verifier::external_body]
pub struct ExTree(Tree);

/// `smb2::Error`, why a client operation failed.
#[verifier::external_type_specification]
#[verifier::external_body]
pub struct ExError(Error);

/// `tokio::runtime::Runtime`, the runtime the client's operations run on.
#[verifier::external_type_specification]
#[verifier::external_body]
pub struct ExRuntime(Runtime);

/// Seconds the TCP connect to a server may take.
pub const CONNECT_TIMEOUT_SECS: u64 = 15;

/// One session with a file server: the runtime that drives it, the
/// connection and share currently open (if any), the credentials it signs in
/// with, and the server and share that connection is for.
pub struct SmbrContext {
    /// The runtime the client's operations run on.
    pub runtime: Runtime,
    /// The connected client, when a connection is open.
    pub client: Option<SmbClient>,
    /// The connected share, when a connection is open.
    pub tree: Option<Tree>,
    username: String,
    password: String,
    workgroup: String,
    server: String,
    share: String,
}

/// What a session holds, as plain values.
pub struct ContextView {
    pub connected: bool,
    pub username: Seq<char>,
    pub password: Seq<char>,
    pub workgroup: Seq<char>,
    pub server: Seq<char>,
    pub share: Seq<char>,
}

impl View for SmbrContext {
    type V = ContextView;

    closed spec fn view(&self) -> ContextView {
        ContextView {
            connected: self.client is Some && self.tree is Some,
            username: self.username@,
            password: self.password@,
            workgroup: self.workgroup@,
            server: self.server@,
            share: self.share@,
        }
    }
}

/// An open connection to `server` and `share` can serve a request for them:
/// the names are compared without regard to ASCII case.
pub open spec fn reuses(v: ContextView, server: Seq<char>, share: Seq<char>) -> bool {
    &&& v.connected
    &&& eq_ignore_case(v.server, server)
    &&& eq_ignore_case(v.share, share)
}

/// A session whose connection was dropped.
pub open spec fn disconnected(v: ContextView) -> ContextView {
    ContextView { connected: false, ..v }
}

/// A session after a connection to `server` and `share` was opened.
pub open spec fn connected_to(v: ContextView, server: Seq<char>, share: Seq<char>) -> ContextView {
    ContextView { connected: true, server, share, ..v }
}

/// How to open a connection: the address to dial, the share to connect, the
/// credentials, and the client's settings.
pub struct ConnectPlan {
    pub addr: String,
    pub share: String,
    pub username: String,
    pub password: String,
    pub domain: String,
    pub timeout_secs: u64,
    pub auto_reconnect: bool,
    pub compression: bool,
    pub dfs_enabled: bool,
}

/// `plan` opens a connection of session `v` to `server` and `share`.
pub open spec fn is_plan_for(plan: ConnectPlan, v: ContextView, server: Seq<char>, share: Seq<char>) -> bool {
    &&& plan.addr@ == spec_address(server)
    &&& plan.share@ == share
    &&& plan.username@ == v.username
    &&& plan.password@ == v.password
    &&& plan.domain@ == v.workgroup
    &&& plan.timeout_secs == CONNECT_TIMEOUT_SECS
    &&& !plan.auto_reconnect
    &&& plan.compression
    &&& plan.dfs_enabled
}

impl SmbrContext {
    /// The client of the open connection, if any.
    pub closed spec fn open_client(&self) -> Option<SmbClient> {
        self.client
    }

    /// The share of the open connection, if any.
    pub closed spec fn open_tree(&self) -> Option<Tree> {
        self.tree
    }

    /// The runtime the session's operations run on.
    pub closed spec fn session_runtime(&self) -> Runtime {
        self.runtime
    }

    /// A session counts as connected exactly when it holds both a client and
    /// a share.
    pub proof fn lemma_connected(&self)
        ensures
            self@.connected == (self.open_client() is Some && self.open_tree() is Some),
    {
    }

    /// A session with no connection open yet, signing in with the given
    /// credentials (the workgroup is the domain).
    pub fn new(runtime: Runtime, username: String, password: String, workgroup: String) -> (r: SmbrContext)
        ensures
            r@ == (ContextView {
                connected: false,
                username: username@,
                password: password@,
                workgroup: workgroup@,
                server: Seq::<char>::empty(),
                share: Seq::<char>::empty(),
            }),
            r.open_client() is None,
            r.open_tree() is None,
            r.session_runtime() == runtime,
    {
        SmbrContext {
            runtime,
            client: None,
            tree: None,
            username,
            password,
            workgroup,
            server: String::new(),
            share: String::new(),
        }
    }

    /// Readies the session for a request on `parsed`: an open connection to
    /// the same server and share (ignoring ASCII case) is kept and nothing is
    /// returned; otherwise the open connection, if any, is dropped and the
    /// plan for a new one is returned.
    pub fn begin_connection(&mut self, parsed: &ParsedUrl) -> (plan: Option<ConnectPlan>)
        ensures
            plan is None <==> reuses(old(self)@, parsed.server@, parsed.share@),
            plan is None <==> {
                &&& old(self).open_client() is Some
                &&& old(self).open_tree() is Some
                &&& eq_ignore_case(old(self)@.server, parsed.server@)
                &&& eq_ignore_case(old(self)@.share, parsed.share@)
            },
            final(self)@ == spec_after_begin(old(self)@, parsed.server@, parsed.share@),
            plan is None ==> {
                &&& final(self)@ == old(self)@
                &&& final(self).open_client() == old(self).open_client()
                &&& final(self).open_tree() == old(self).open_tree()
            },
            final(self).session_runtime() == old(self).session_runtime(),
            plan matches Some(p) ==> {
                &&& final(self)@ == disconnected(old(self)@)
                &&& final(self).open_client() is None
                &&& final(self).open_tree() is None
                &&& is_plan_for(p, old(self)@, parsed.server@, parsed.share@)
            },
    {
        if self.client.is_some() && self.tree.is_some() && eq_ignore_ascii_case(
            self.server.as_str(),
            parsed.server.as_str(),
        ) && eq_ignore_ascii_case(self.share.as_str(), parsed.share.as_str()) {
            return None;
        }
        self.tree = None;
        self.client = None;
        Some(
            ConnectPlan {
                addr: address(parsed.server.as_str()),
                share: parsed.share.clone(),
                username: self.username.clone(),
                password: self.password.clone(),
                domain: self.workgroup.clone(),
                timeout_secs: CONNECT_TIMEOUT_SECS,
                auto_reconnect: false,
                compression: true,
                dfs_enabled: true,
            },
        )
    }

    /// Records the connection opened for `parsed`.
    pub fn finish_connection(&mut self, client: SmbClient, tree: Tree, parsed: &ParsedUrl)
        ensures
            final(self)@ == connected_to(old(self)@, parsed.server@, parsed.share@),
            final(self).open_client() == Some(client),
            final(self).open_tree() == Some(tree),
            final(self).session_runtime() == old(self).session_runtime(),
    {
        self.client = Some(client);
        self.tree = Some(tree);
        self.server = parsed.server.clone();
        self.share = parsed.share.clone();
    }

    /// Records what the attempt to connect for `parsed` gave: the client and
    /// share when it succeeded, which then serve the request; the failure,
    /// passed on, when it did not, leaving the session as it was.
    pub fn settle_connection(&mut self, outcome: Result<(SmbClient, Tree), Error>, parsed: &ParsedUrl) -> (r: Result<(), Error>)
        ensures
            final(self).session_runtime() == old(self).session_runtime(),
            outcome is Ok <==> r is Ok,
            outcome matches Ok((client, tree)) ==> {
                &&& final(self)@ == connected_to(old(self)@, parsed.server@, parsed.share@)
                &&& final(self).open_client() == Some(client)
                &&& final(self).open_tree() == Some(tree)
            },
            outcome matches Err(e) ==> {
                &&& r == Err::<(), Error>(e)
                &&& final(self)@ == old(self)@
                &&& final(self).open_client() == old(self).open_client()
                &&& final(self).open_tree() == old(self).open_tree()
            },
    {
        match outcome {
            Ok((client, tree)) => {
                self.finish_connection(client, tree, parsed);
                Ok(())
            },
            Err(e) => Err(e),
        }
    }
}

/// Once a connection to a server and share is open, every request for the
/// same server and share, written in any ASCII case, is served on it; a
/// request for any other server or share is not.
pub proof fn connection_reused(v: ContextView, server: Seq<char>, share: Seq<char>, s2: Seq<char>, h2: Seq<char>)
    ensures
        reuses(connected_to(v, server, share), s2, h2) <==> (eq_ignore_case(server, s2) && eq_ignore_case(share, h2)),
        reuses(connected_to(v, server, share), server, share),
{
}

/// A session whose connection was dropped serves no request until a new
/// connection is opened: a failed attempt to connect is followed by a new
/// attempt, never by the old connection.
pub proof fn dropped_connection_not_reused(v: ContextView, server: Seq<char>, share: Seq<char>)
    ensures
        !reuses(disconnected(v), server, share),
{
}

/// The arguments a session is opened with, in the order they are read.
#[derive(Clone, Copy, Debug, PartialEq, Eq, Structural)]
pub enum ConnectField {
    Username,
    Password,
    Workgroup,
    Server,
    Share,
}

/// The name an argument is reported under.
pub open spec fn spec_field_name(f: ConnectField) -> Seq<char> {
    match f {
        ConnectField::Username => "username"@,
        ConnectField::Password => "password"@,
        ConnectField::Workgroup => "workgroup"@,
        ConnectField::Server => "server"@,
        ConnectField::Share => "share"@,
    }
}

/// An argument of a session could not be read.
#[derive(Clone, Copy, Debug, PartialEq, Eq, Structural)]
pub struct ConnectError {
    pub field: ConnectField,
    pub error: InputError,
}

impl ConnectError {
    /// The message that reports this refusal.
    pub fn message(&self) -> (r: String)
        ensures
            r@ == spec_input_message(spec_field_name(self.field), self.error),
    {
        let name = match self.field {
            ConnectField::Username => "username",
            ConnectField::Password => "password",
            ConnectField::Workgroup => "workgroup",
            ConnectField::Server => "server",
            ConnectField::Share => "share",
        };
        input_message(name, self.error)
    }
}

/// The credentials a session signs in with.
pub struct Credentials {
    pub username: String,
    pub password: String,
    pub workgroup: String,
}

/// The first of the arguments, in order, that cannot be read, if any.
pub open spec fn first_unreadable(
    username: Option<Seq<u8>>,
    password: Option<Seq<u8>>,
    workgroup: Option<Seq<u8>>,
    server: Option<Seq<u8>>,
    share: Option<Seq<u8>>,
) -> Option<ConnectError> {
    if let Err(e) = spec_input(username) {
        Some(ConnectError { field: ConnectField::Username, error: e })
    } else if let Err(e) = spec_input(password) {
        Some(ConnectError { field: ConnectField::Password, error: e })
    } else if let Err(e) = spec_input(workgroup) {
        Some(ConnectError { field: ConnectField::Workgroup, error: e })
    } else if let Err(e) = spec_input(server) {
        Some(ConnectError { field: ConnectField::Server, error: e })
    } else if let Err(e) = spec_input(share) {
        Some(ConnectError { field: ConnectField::Share, error: e })
    } else {
        None
    }
}

/// Reads the arguments a session is opened with. All five must be present
/// and UTF-8; the first that is not is reported. The server and share are
/// only checked: the session connects to whatever server and share each
/// request names.
pub fn credentials(
    username: Option<&[u8]>,
    password: Option<&[u8]>,
    workgroup: Option<&[u8]>,
    server: Option<&[u8]>,
    share: Option<&[u8]>,
) -> (r: Result<Credentials, ConnectError>)
    ensures
        r matches Err(e) ==> first_unreadable(
            bytes_view(username),
            bytes_view(password),
            bytes_view(workgroup),
            bytes_view(server),
            bytes_view(share),
        ) == Some(e),
        r matches Ok(c) ==> {
            &&& first_unreadable(
                bytes_view(username),
                bytes_view(password),
                bytes_view(workgroup),
                bytes_view(server),
                bytes_view(share),
            ) is None
            &&& spec_input(bytes_view(username)) == Ok::<Seq<char>, InputError>(c.username@)
            &&& spec_input(bytes_view(password)) == Ok::<Seq<char>, InputError>(c.password@)
            &&& spec_input(bytes_view(workgroup)) == Ok::<Seq<char>, InputError>(c.workgroup@)
        },
{
    let username = match input(username) {
        Ok(v) => v,
        Err(error) => return Err(ConnectError { field: ConnectField::Username, error }),
    };
    let password = match input(password) {
        Ok(v) => v,
        Err(error) => return Err(ConnectError { field: ConnectField::Password, error }),
    };
    let workgroup = match input(workgroup) {
        Ok(v) => v,
        Err(error) => return Err(ConnectError { field: ConnectField::Workgroup, error }),
    };
    if let Err(error) = input(server) {
        return Err(ConnectError { field: ConnectField::Server, error });
    }
    if let Err(error) = input(share) {
        return Err(ConnectError { field: ConnectField::Share, error });
    }
    Ok(Credentials { username, password, workgroup })
}

/// Why a rename was refused.
#[derive(Clone, Copy, Debug, PartialEq, Eq, Structural)]
pub enum RenameError {
    /// The source URL was refused.
    From(UrlError),
    /// The destination URL was refused.
    To(UrlError),
    /// The two URLs name different servers or shares.
    DifferentShare,
}

/// The message that reports a refused rename.
pub open spec fn spec_rename_message(e: RenameError) -> Seq<char> {
    match e {
        RenameError::From(u) => spec_url_message(u),
        RenameError::To(u) => spec_url_message(u),
        RenameError::DifferentShare => "rename requires both paths to use the same server and share"@,
    }
}

impl RenameError {
    /// The message that reports this refusal.
    pub fn message(&self) -> (r: String)
        ensures
            r@ == spec_rename_message(*self),
    {
        match self {
            RenameError::From(u) => u.message(),
            RenameError::To(u) => u.message(),
            RenameError::DifferentShare => String::from_str(
                "rename requires both paths to use the same server and share",
            ),
        }
    }
}

/// Reads the two URLs of a rename. Both must be accepted, source first, and
/// name the same server and share, ignoring ASCII case; the rename then runs
/// on the source's connection.
pub fn rename_urls(from: Option<&[u8]>, to: Option<&[u8]>) -> (r: Result<(ParsedUrl, ParsedUrl), RenameError>)
    ensures
        r matches Ok((f, t)) ==> {
            &&& spec_parse_url_input(bytes_view(from)) == Ok::<_, UrlError>(f@)
            &&& spec_parse_url_input(bytes_view(to)) == Ok::<_, UrlError>(t@)
            &&& eq_ignore_case(f.server@, t.server@)
            &&& eq_ignore_case(f.share@, t.share@)
            &&& lowered(f.server@) == lowered(t.server@)
            &&& lowered(f.share@) == lowered(t.share@)
        },
        r matches Err(RenameError::From(e)) ==> spec_parse_url_input(bytes_view(from)) == Err::<
            (Seq<char>, Seq<char>, Seq<char>),
            _,
        >(e),
        r matches Err(RenameError::To(e)) ==> {
            &&& spec_parse_url_input(bytes_view(from)) is Ok
            &&& spec_parse_url_input(bytes_view(to)) == Err::<(Seq<char>, Seq<char>, Seq<char>), _>(e)
        },
        r matches Err(RenameError::DifferentShare) ==> {
            &&& spec_parse_url_input(bytes_view(from)) matches Ok((fs, fh, _))
            &&& spec_parse_url_input(bytes_view(to)) matches Ok((ts, th, _))
            &&& !(eq_ignore_case(fs, ts) && eq_ignore_case(fh, th))
        },
{
    let f = match parse_url(from) {
        Ok(v) => v,
        Err(e) => return Err(RenameError::From(e)),
    };
    let t = match parse_url(to) {
        Ok(v) => v,
        Err(e) => return Err(RenameError::To(e)),
    };
    if !eq_ignore_ascii_case(f.server.as_str(), t.server.as_str()) || !eq_ignore_ascii_case(
        f.share.as_str(),
        t.share.as_str(),
    ) {
        return Err(RenameError::DifferentShare);
    }
    proof {
        eq_ignore_case_law(f.server@, t.server@);
        eq_ignore_case_law(f.share@, t.share@);
    }
    Ok((f, t))
}

/// The session after readying it for a request on `server` and `share`:
/// unchanged when its connection serves them, without its connection
/// otherwise.
pub open spec fn spec_after_begin(v: ContextView, server: Seq<char>, share: Seq<char>) -> ContextView {
    if reuses(v, server, share) {
        v
    } else {
        disconnected(v)
    }
}

/// The session after the whole connect step for a request on `server` and
/// `share`, where `connected` says whether a needed connection attempt
/// succeeded.
pub open spec fn spec_connect_step(v: ContextView, server: Seq<char>, share: Seq<char>, connected: bool) -> ContextView {
    if reuses(v, server, share) {
        v
    } else if connected {
        connected_to(spec_after_begin(v, server, share), server, share)
    } else {
        spec_after_begin(v, server, share)
    }
}

/// The connect step (`begin_connection`, then, when a plan was returned,
/// `settle_connection` with what connecting gave) leaves a session that is
/// connected exactly when its old connection served the request or the new
/// attempt succeeded; when connected, its connection is for the requested
/// server and share (ignoring ASCII case); its credentials never change; and
/// a failed attempt leaves no connection behind.
pub proof fn connect_step_law(v: ContextView, server: Seq<char>, share: Seq<char>, connected: bool)
    ensures
        ({
            let w = spec_connect_step(v, server, share, connected);
            &&& w.connected <==> (reuses(v, server, share) || connected)
            &&& w.connected ==> eq_ignore_case(w.server, server) && eq_ignore_case(w.share, share)
            &&& w.username == v.username
            &&& w.password == v.password
            &&& w.workgroup == v.workgroup
            &&& (!reuses(v, server, share) && !connected) ==> !w.connected
        }),
{
}

} // verus!
