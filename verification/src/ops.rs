use vstd::prelude::*;

use crate::url::{
    bytes_view, input, input_message, parse_url, spec_input, spec_input_message,
    spec_parse_url_input, spec_url_message, InputError, ParsedUrl, UrlError,
};

verus! {

/// The kinds of server failure the operations tell apart.
#[derive(Clone, Copy, Debug, PartialEq, Eq, Structural)]
pub enum FailureKind {
    /// The file, directory or share does not exist.
    NotFound,
    /// The path is a directory where a file was expected.
    IsADirectory,
    /// Any other failure.
    Other,
}

/// A failed server operation: its kind and the message that describes it.
pub struct Failure {
    pub kind: FailureKind,
    pub message: String,
}

/// The answer to whether a path exists, given what asking the server for
/// its metadata gave: 1 when it answered, 0 when the path was not found,
/// and any other failure passed on.
pub fn exists_flag(stat: Result<(), Failure>) -> (r: Result<i32, Failure>)
    ensures
        match stat {
            Ok(()) => r == Ok::<i32, Failure>(1),
            Err(f) => if f.kind == FailureKind::NotFound {
                r == Ok::<i32, Failure>(0)
            } else {
                r == Err::<i32, Failure>(f)
            },
        },
{
    match stat {
        Ok(()) => Ok(1),
        Err(f) => match f.kind {
            FailureKind::NotFound => Ok(0),
            _ => Err(f),
        },
    }
}

/// Where an append starts, given what asking the server for the file's size
/// gave: at its end when it exists, at 0 when it does not, and any other
/// failure passed on.
pub fn append_offset(stat: Result<u64, Failure>) -> (r: Result<u64, Failure>)
    ensures
        match stat {
            Ok(size) => r == Ok::<u64, Failure>(size),
            Err(f) => if f.kind == FailureKind::NotFound {
                r == Ok::<u64, Failure>(0)
            } else {
                r == Err::<u64, Failure>(f)
            },
        },
{
    match stat {
        Ok(size) => Ok(size),
        Err(f) => match f.kind {
            FailureKind::NotFound => Ok(0),
            _ => Err(f),
        },
    }
}

/// How a write treats an existing file.
#[derive(Clone, Copy, Debug, PartialEq, Eq, Structural)]
pub enum WriteMode {
    /// Add the data at the end of the file, creating it when missing.
    Append,
    /// Replace the file's contents with the data.
    Overwrite,
}

/// A write mode was refused: it begins with neither `a` nor `w`.
#[derive(Clone, Copy, Debug, PartialEq, Eq, Structural)]
pub enum ModeError {
    Unknown,
}

impl ModeError {
    /// The message that reports this refusal.
    pub fn message(&self) -> (r: String)
        ensures
            r@ == "mode must start with w or a"@,
    {
        String::from_str("mode must start with w or a")
    }
}

/// The write mode a mode string selects: by its first character, `a` for
/// append and `w` for overwrite (`a+`, `wb` and the like included).
pub open spec fn spec_write_mode(mode: Seq<char>) -> Result<WriteMode, ModeError> {
    if mode.len() > 0 && mode[0] == 'a' {
        Ok(WriteMode::Append)
    } else if mode.len() > 0 && mode[0] == 'w' {
        Ok(WriteMode::Overwrite)
    } else {
        Err(ModeError::Unknown)
    }
}

/// The write mode a mode string selects.
pub fn write_mode(mode: &str) -> (r: Result<WriteMode, ModeError>)
    ensures
        r == spec_write_mode(mode@),
{
    if mode.is_empty() {
        return Err(ModeError::Unknown);
    }
    let first = mode.get_char(0);
    if first == 'a' {
        Ok(WriteMode::Append)
    } else if first == 'w' {
        Ok(WriteMode::Overwrite)
    } else {
        Err(ModeError::Unknown)
    }
}

/// What follows an attempt to delete a path as a file.
pub enum DeleteStep {
    /// The file was deleted.
    Done,
    /// The path is a directory: delete it as a directory instead.
    DeleteDirectory,
    /// The delete failed.
    Fail(Failure),
}

/// What follows an attempt to delete a path as a file, given what the
/// server answered: a path that turned out to be a directory is deleted as
/// a directory; any other failure is reported.
pub fn after_file_delete(result: Result<(), Failure>) -> (r: DeleteStep)
    ensures
        match result {
            Ok(()) => r is Done,
            Err(f) => if f.kind == FailureKind::IsADirectory {
                r is DeleteDirectory
            } else {
                r == DeleteStep::Fail(f)
            },
        },
{
    match result {
        Ok(()) => DeleteStep::Done,
        Err(f) => match f.kind {
            FailureKind::IsADirectory => DeleteStep::DeleteDirectory,
            _ => DeleteStep::Fail(f),
        },
    }
}

/// Why the arguments of a write were refused.
#[derive(Clone, Copy, Debug, PartialEq, Eq, Structural)]
pub enum WriteArgError {
    /// The URL was refused.
    Url(UrlError),
    /// The mode could not be read.
    Mode(InputError),
    /// Data was announced but none was given.
    NullData,
}

/// The message that reports refused write arguments.
pub open spec fn spec_write_arg_message(e: WriteArgError) -> Seq<char> {
    match e {
        WriteArgError::Url(u) => spec_url_message(u),
        WriteArgError::Mode(i) => spec_input_message("mode"@, i),
        WriteArgError::NullData => "data must not be null when len is non-zero"@,
    }
}

impl WriteArgError {
    /// The message that reports this refusal.
    pub fn message(&self) -> (r: String)
        ensures
            r@ == spec_write_arg_message(*self),
    {
        match self {
            WriteArgError::Url(u) => u.message(),
            WriteArgError::Mode(i) => input_message("mode", *i),
            WriteArgError::NullData => String::from_str("data must not be null when len is non-zero"),
        }
    }
}

/// Reads the arguments of a write, in order: the URL, then the mode, then
/// the data, which may be absent only when its length is zero.
pub fn write_args(url: Option<&[u8]>, mode: Option<&[u8]>, len: usize, data_present: bool) -> (r: Result<
    (ParsedUrl, String),
    WriteArgError,
>)
    ensures
        r matches Ok((p, m)) ==> {
            &&& spec_parse_url_input(bytes_view(url)) == Ok::<_, UrlError>(p@)
            &&& spec_input(bytes_view(mode)) == Ok::<Seq<char>, InputError>(m@)
            &&& (len == 0 || data_present)
        },
        r matches Err(WriteArgError::Url(e)) ==> spec_parse_url_input(bytes_view(url)) == Err::<
            (Seq<char>, Seq<char>, Seq<char>),
            _,
        >(e),
        r matches Err(WriteArgError::Mode(e)) ==> {
            &&& spec_parse_url_input(bytes_view(url)) is Ok
            &&& spec_input(bytes_view(mode)) == Err::<Seq<char>, _>(e)
        },
        r matches Err(WriteArgError::NullData) ==> {
            &&& spec_parse_url_input(bytes_view(url)) is Ok
            &&& spec_input(bytes_view(mode)) is Ok
            &&& len != 0
            &&& !data_present
        },
{
    let parsed = match parse_url(url) {
        Ok(v) => v,
        Err(e) => return Err(WriteArgError::Url(e)),
    };
    let mode = match input(mode) {
        Ok(v) => v,
        Err(e) => return Err(WriteArgError::Mode(e)),
    };
    if len != 0 && !data_present {
        return Err(WriteArgError::NullData);
    }
    Ok((parsed, mode))
}

/// A mode is decided by its first character alone: `a` appends, `w`
/// overwrites, anything else (including an empty mode) is refused, and two
/// modes that begin alike select the same thing whatever follows.
pub proof fn write_mode_law(m: Seq<char>, n: Seq<char>)
    ensures
        m.len() > 0 && m[0] == 'a' ==> spec_write_mode(m) == Ok::<_, ModeError>(WriteMode::Append),
        m.len() > 0 && m[0] == 'w' ==> spec_write_mode(m) == Ok::<_, ModeError>(WriteMode::Overwrite),
        !(m.len() > 0 && (m[0] == 'a' || m[0] == 'w')) ==> spec_write_mode(m) == Err::<WriteMode, _>(ModeError::Unknown),
        m.len() > 0 && n.len() > 0 && m[0] == n[0] ==> spec_write_mode(m) == spec_write_mode(n),
{
}

} // verus!
