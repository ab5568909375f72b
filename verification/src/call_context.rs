//! Context of an extension call, as Arma provides it: who called, from where,
//! in which mission, on which server, and optionally the script stack.

use std::marker::PhantomData;

use vstd::prelude::*;

use crate::text::{chars_of, nat_text, push_decimal, string_from_chars};
use crate::value::number::{
    int_text, lemma_nat_text_digits, lemma_parse_int_text, parse_int, spec_parse_int,
};

verus! {

/// Selects whether a call context carries a stack trace.
pub trait StackRequest {}

/// A call context with a stack trace
pub struct WithStackTrace;

impl StackRequest for WithStackTrace {}

/// A call context without a stack trace
pub struct WithoutStackTrace;

impl StackRequest for WithoutStackTrace {}

/// One line of the script call stack
#[derive(Debug, Clone)]
pub struct ArmaStackTraceLine {
    /// Line number in file (before preprocessing if preprocessed with line numbers)
    pub line_number: u32,
    /// File offset in bytes from the start of the file (after preprocessing)
    pub file_offset: u32,
    /// Filepath to the source file
    pub source_file: String,
    /// scopeName set on that level
    pub scope_name: String,
    /// Complete fileContent of the sourceFile (after preprocessing)
    pub file_content: String,
}

/// The script call stack of an extension call
#[derive(Debug, Clone)]
pub struct ArmaContextStackTrace {
    /// The lines of the stack, innermost first
    pub lines: Vec<ArmaStackTraceLine>,
}

/// Identification of the player calling your extension.
#[derive(Debug, Clone, PartialEq, Eq, Structural)]
pub enum Caller {
    /// The player's steamID64.
    Steam(u64),
    /// Unable to determine.
    Unknown,
}

impl Default for Caller {
    fn default() -> (r: Self)
        ensures
            r == Caller::Unknown,
    {
        Caller::Unknown
    }
}

/// The Steam id that the text names: empty text and `0` name nobody, other
/// text names the id it parses to as a `u64`, or nobody when it does not parse.
pub open spec fn spec_caller_from_str(s: Seq<char>) -> Caller {
    if s.len() == 0 || s == "0"@ {
        Caller::Unknown
    } else {
        match spec_parse_int(s, 0, u64::MAX as int, false) {
            Ok(v) => Caller::Steam(v as u64),
            Err(_) => Caller::Unknown,
        }
    }
}

impl Caller {
    /// The id as decimal text, `0` when unknown
    pub open spec fn spec_as_str(&self) -> Seq<char> {
        match self {
            Caller::Steam(id) => nat_text(*id as nat),
            Caller::Unknown => "0"@,
        }
    }

    /// Convert the caller to a string.
    pub fn as_str(&self) -> (r: String)
        ensures
            r@ == self.spec_as_str(),
    {
        match self {
            Caller::Steam(id) => {
                let mut out: Vec<char> = Vec::new();
                push_decimal(&mut out, *id);
                assert(out@ =~= nat_text(*id as nat));
                string_from_chars(out.as_slice())
            },
            Caller::Unknown => String::from_str("0"),
        }
    }

    /// Convert the caller to a u64.
    pub fn as_u64(&self) -> (r: u64)
        ensures
            r == match self {
                Caller::Steam(id) => *id,
                Caller::Unknown => 0,
            },
    {
        match self {
            Caller::Steam(id) => *id,
            Caller::Unknown => 0,
        }
    }
}

/// A caller is read back from its text, except the Steam id `0`, whose text
/// `0` names nobody.
pub proof fn lemma_caller_text_round_trip(c: Caller)
    requires
        c != Caller::Steam(0),
    ensures
        spec_caller_from_str(c.spec_as_str()) == c,
{
    match c {
        Caller::Steam(id) => {
            lemma_nat_text_digits(id as nat);
            lemma_parse_int_text(id as int, 0, u64::MAX as int, false);
            assert(int_text(id as int) == nat_text(id as nat));
            assert(nat_text(id as nat) != "0"@) by {
                reveal_strlit("0");
                if nat_text(id as nat) == "0"@ {
                    assert(nat_text(id as nat)[0] == '0');
                }
            }
        },
        Caller::Unknown => {},
    }
}

impl<'a> From<&'a str> for Caller {
    fn from(s: &'a str) -> (r: Self)
        ensures
            r == spec_caller_from_str(s@),
    {
        let c = chars_of(s);
        let zero = String::from_str("0");
        if c.len() == 0 || String::from_str(s) == zero {
            Caller::Unknown
        } else {
            match parse_int(c.as_slice(), 0, 0xffff_ffff_ffff_ffff, false) {
                Ok(v) => Caller::Steam(v as u64),
                Err(_) => Caller::Unknown,
            }
        }
    }
}

impl<'a> vstd::std_specs::convert::FromSpecImpl<&'a str> for Caller {
    open spec fn obeys_from_spec() -> bool {
        true
    }

    open spec fn from_spec(s: &'a str) -> Caller {
        spec_caller_from_str(s@)
    }
}

impl From<u64> for Caller {
    fn from(id: u64) -> (r: Self)
        ensures
            r == if id == 0 {
                Caller::Unknown
            } else {
                Caller::Steam(id)
            },
    {
        if id == 0 {
            Caller::Unknown
        } else {
            Caller::Steam(id)
        }
    }
}

impl vstd::std_specs::convert::FromSpecImpl<u64> for Caller {
    open spec fn obeys_from_spec() -> bool {
        true
    }

    open spec fn from_spec(id: u64) -> Caller {
        if id == 0 {
            Caller::Unknown
        } else {
            Caller::Steam(id)
        }
    }
}

/// Source of the extension call.
#[derive(Debug, Clone, PartialEq, Eq)]
pub enum Source {
    /// Absolute path of the file on the players system.
    /// For example on windows: `C:\Users\user\Documents\Arma 3\missions\test.VR\fn_armaContext.sqf`.
    File(String),
    /// Path inside of a pbo.
    /// For example: `z\test\addons\main\fn_armaContext.sqf`.
    Pbo(String),
    /// Debug console or an other form of on the fly execution, such as mission triggers.
    Console,
}

impl Default for Source {
    fn default() -> (r: Self)
        ensures
            r == Source::Console,
    {
        Source::Console
    }
}

/// Text that can name an absolute path on some platform: it starts with `/`
/// or `\`, or holds a `:` (a Windows drive such as `C:`, or a scheme).
pub open spec fn may_be_absolute(s: Seq<char>) -> bool {
    s.len() > 0 && (s[0] == '/' || s[0] == '\\' || s.contains(':'))
}

/// `std::path::Path::is_absolute`: whether the text is an absolute path on the
/// platform the extension runs on. Its documentation says a path is absolute on
/// Unix when it starts with the root (`/`), and on Windows when it has a prefix
/// (each starts with `\` or is a drive `X:`) and starts with the root; so an
/// absolute path is `may_be_absolute`. Which such texts are absolute depends on
/// the platform and is not stated.
#[verifier::external_body]
fn path_is_absolute(s: &str) -> (r: bool)
    ensures
        r ==> may_be_absolute(s@),
{
    std::path::Path::new(s).is_absolute()
}

impl Source {
    /// Convert the source to a string.
    pub fn as_str(&self) -> (r: &str)
        ensures
            r@ == match self {
                Source::File(s) => s@,
                Source::Pbo(s) => s@,
                Source::Console => Seq::<char>::empty(),
            },
    {
        match self {
            Source::File(s) => s.as_str(),
            Source::Pbo(s) => s.as_str(),
            Source::Console => {
                proof {
                    reveal_strlit("");
                }
                ""
            },
        }
    }
}

/// The source that a text names, given whether the platform calls it an
/// absolute path: empty text is the console, an absolute path a file, any other
/// text a path inside a pbo.
pub fn source_from_parts(s: &str, absolute: bool) -> (r: Source)
    ensures
        s@.len() == 0 ==> r == Source::Console,
        s@.len() > 0 && absolute ==> (r matches Source::File(p) && p@ == s@),
        s@.len() > 0 && !absolute ==> (r matches Source::Pbo(p) && p@ == s@),
{
    if s.is_empty() {
        Source::Console
    } else if absolute {
        Source::File(String::from_str(s))
    } else {
        Source::Pbo(String::from_str(s))
    }
}

impl<'a> From<&'a str> for Source {
    /// Empty text is the console; other text is a file when it is an absolute
    /// path on this platform (`Path::is_absolute`, asked only of non-empty
    /// text), else a path inside a pbo; see `source_from_parts`. Text that is
    /// absolute on no platform (`may_be_absolute` fails) is always a path inside
    /// a pbo.
    fn from(s: &'a str) -> (r: Self)
        ensures
            s@.len() == 0 ==> r == Source::Console,
            s@.len() > 0 && !may_be_absolute(s@) ==> (r matches Source::Pbo(p) && p@ == s@),
            s@.len() > 0 ==> match r {
                Source::File(p) => p@ == s@,
                Source::Pbo(p) => p@ == s@,
                Source::Console => false,
            },
    {
        let absolute = if s.is_empty() {
            false
        } else {
            path_is_absolute(s)
        };
        source_from_parts(s, absolute)
    }
}

impl<'a> vstd::std_specs::convert::FromSpecImpl<&'a str> for Source {
    /// Which paths are absolute depends on the platform, so no function of the
    /// text alone gives the result; `from` states what holds of it.
    open spec fn obeys_from_spec() -> bool {
        false
    }

    open spec fn from_spec(s: &'a str) -> Source {
        Source::Console
    }
}

/// Current mission.
#[derive(Debug, Clone, PartialEq, Eq)]
pub enum Mission {
    /// Mission name.
    Mission(String),
    /// Not in a mission.
    NoMission,
}

impl Default for Mission {
    fn default() -> (r: Self)
        ensures
            r == Mission::NoMission,
    {
        Mission::NoMission
    }
}

impl Mission {
    /// Convert the mission to a string.
    pub fn as_str(&self) -> (r: &str)
        ensures
            r@ == match self {
                Mission::Mission(s) => s@,
                Mission::NoMission => Seq::<char>::empty(),
            },
    {
        match self {
            Mission::Mission(s) => s.as_str(),
            Mission::NoMission => {
                proof {
                    reveal_strlit("");
                }
                ""
            },
        }
    }
}

impl<'a> From<&'a str> for Mission {
    fn from(s: &'a str) -> (r: Self)
        ensures
            s@.len() == 0 ==> r == Mission::NoMission,
            s@.len() > 0 ==> (r matches Mission::Mission(m) && m@ == s@),
    {
        if s.is_empty() {
            Mission::NoMission
        } else {
            Mission::Mission(String::from_str(s))
        }
    }
}

impl<'a> vstd::std_specs::convert::FromSpecImpl<&'a str> for Mission {
    /// A `String` is fixed here only by its characters, so `from` states the
    /// result through them.
    open spec fn obeys_from_spec() -> bool {
        false
    }

    open spec fn from_spec(s: &'a str) -> Mission {
        Mission::NoMission
    }
}

/// Current server.
#[derive(Debug, Clone, PartialEq, Eq)]
pub enum Server {
    /// Server name
    Multiplayer(String),
    /// Singleplayer or no mission
    Singleplayer,
}

impl Default for Server {
    fn default() -> (r: Self)
        ensures
            r == Server::Singleplayer,
    {
        Server::Singleplayer
    }
}

impl Server {
    /// Convert the server to a string.
    pub fn as_str(&self) -> (r: &str)
        ensures
            r@ == match self {
                Server::Multiplayer(s) => s@,
                Server::Singleplayer => Seq::<char>::empty(),
            },
    {
        match self {
            Server::Multiplayer(s) => s.as_str(),
            Server::Singleplayer => {
                proof {
                    reveal_strlit("");
                }
                ""
            },
        }
    }
}

impl<'a> From<&'a str> for Server {
    fn from(s: &'a str) -> (r: Self)
        ensures
            s@.len() == 0 ==> r == Server::Singleplayer,
            s@.len() > 0 ==> (r matches Server::Multiplayer(m) && m@ == s@),
    {
        if s.is_empty() {
            Server::Singleplayer
        } else {
            Server::Multiplayer(String::from_str(s))
        }
    }
}

impl<'a> vstd::std_specs::convert::FromSpecImpl<&'a str> for Server {
    /// A `String` is fixed here only by its characters, so `from` states the
    /// result through them.
    open spec fn obeys_from_spec() -> bool {
        false
    }

    open spec fn from_spec(s: &'a str) -> Server {
        Server::Singleplayer
    }
}

/// Context of the callExtension, provided by Arma.
pub type CallContext = ArmaCallContext<WithoutStackTrace>;

/// Context of the callExtension, provided by Arma, with a stack trace.
pub type CallContextStackTrace = ArmaCallContext<WithStackTrace>;

/// Context of the Arma call.
pub struct ArmaCallContext<T: StackRequest> {
    caller: Caller,
    source: Source,
    mission: Mission,
    server: Server,
    remote_exec_owner: i16,
    stack_marker: PhantomData<T>,
    stack: Option<ArmaContextStackTrace>,
}

impl<T: StackRequest> Clone for ArmaCallContext<T> {
    /// The same caller, source, mission, server and remote execution owner,
    /// and a stack trace exactly when this one has one.
    fn clone(&self) -> (r: Self)
        ensures
            r.spec_caller() == self.spec_caller(),
            r.spec_source() == self.spec_source(),
            r.spec_mission() == self.spec_mission(),
            r.spec_server() == self.spec_server(),
            r.spec_remote_exec_owner() == self.spec_remote_exec_owner(),
            r.has_stack() == self.has_stack(),
    {
        let caller = match &self.caller {
            Caller::Steam(id) => Caller::Steam(*id),
            Caller::Unknown => Caller::Unknown,
        };
        let source = match &self.source {
            Source::File(p) => Source::File(p.clone()),
            Source::Pbo(p) => Source::Pbo(p.clone()),
            Source::Console => Source::Console,
        };
        let mission = match &self.mission {
            Mission::Mission(m) => Mission::Mission(m.clone()),
            Mission::NoMission => Mission::NoMission,
        };
        let server = match &self.server {
            Server::Multiplayer(m) => Server::Multiplayer(m.clone()),
            Server::Singleplayer => Server::Singleplayer,
        };
        let stack = match &self.stack {
            Some(t) => Some(t.clone()),
            None => None,
        };
        ArmaCallContext {
            caller,
            source,
            mission,
            server,
            remote_exec_owner: self.remote_exec_owner,
            stack_marker: PhantomData,
            stack,
        }
    }
}

impl<T: StackRequest> Default for ArmaCallContext<T> {
    fn default() -> (r: Self)
        ensures
            r.spec_caller() == Caller::Unknown,
            r.spec_source() == Source::Console,
            r.spec_mission() == Mission::NoMission,
            r.spec_server() == Server::Singleplayer,
            r.spec_remote_exec_owner() == 0,
            !r.has_stack(),
    {
        ArmaCallContext::new(
            Caller::Unknown,
            Source::Console,
            Mission::NoMission,
            Server::Singleplayer,
            0,
        )
    }
}

impl<T: StackRequest> ArmaCallContext<T> {
    /// The player that called
    pub closed spec fn spec_caller(&self) -> Caller {
        self.caller
    }

    /// Where the call came from
    pub closed spec fn spec_source(&self) -> Source {
        self.source
    }

    /// The current mission
    pub closed spec fn spec_mission(&self) -> Mission {
        self.mission
    }

    /// The current server
    pub closed spec fn spec_server(&self) -> Server {
        self.server
    }

    /// The remote execution owner
    pub closed spec fn spec_remote_exec_owner(&self) -> i16 {
        self.remote_exec_owner
    }

    /// The context carries a stack trace
    pub closed spec fn has_stack(&self) -> bool {
        self.stack is Some
    }

    /// The stack trace it carries
    pub closed spec fn spec_stack(&self) -> Option<ArmaContextStackTrace> {
        self.stack
    }

    /// Create a new [`ArmaCallContext`] without a stack trace.
    pub fn new(
        caller: Caller,
        source: Source,
        mission: Mission,
        server: Server,
        remote_exec_owner: i16,
    ) -> (r: Self)
        ensures
            r.spec_caller() == caller,
            r.spec_source() == source,
            r.spec_mission() == mission,
            r.spec_server() == server,
            r.spec_remote_exec_owner() == remote_exec_owner,
            !r.has_stack(),
    {
        ArmaCallContext {
            caller,
            source,
            mission,
            server,
            remote_exec_owner,
            stack_marker: PhantomData,
            stack: None,
        }
    }

    /// Create a new [`ArmaCallContext`] from the values Arma passed, with the
    /// stack trace when Arma sent one.
    pub fn from_parts(
        caller: Caller,
        source: Source,
        mission: Mission,
        server: Server,
        remote_exec_owner: i16,
        stack: Option<ArmaContextStackTrace>,
    ) -> (r: Self)
        ensures
            r.spec_caller() == caller,
            r.spec_source() == source,
            r.spec_mission() == mission,
            r.spec_server() == server,
            r.spec_remote_exec_owner() == remote_exec_owner,
            r.spec_stack() == stack,
    {
        ArmaCallContext {
            caller,
            source,
            mission,
            server,
            remote_exec_owner,
            stack_marker: PhantomData,
            stack,
        }
    }

    /// Player that called the extension. Can be [`Caller::Unknown`] when the player's steamID64 is unavailable
    pub fn caller(&self) -> (r: &Caller)
        ensures
            *r == self.spec_caller(),
    {
        &self.caller
    }

    /// Source from where the extension was called.
    pub fn source(&self) -> (r: &Source)
        ensures
            *r == self.spec_source(),
    {
        &self.source
    }

    /// Current mission's name.
    pub fn mission(&self) -> (r: &Mission)
        ensures
            *r == self.spec_mission(),
    {
        &self.mission
    }

    /// Current server's name
    pub fn server(&self) -> (r: &Server)
        ensures
            *r == self.spec_server(),
    {
        &self.server
    }

    /// Remote execution owner.
    pub fn remote_exec_owner(&self) -> (r: i16)
        ensures
            r == self.spec_remote_exec_owner(),
    {
        self.remote_exec_owner
    }
}

impl ArmaCallContext<WithStackTrace> {
    /// Call stack of the extension call.
    pub fn stack_trace(&self) -> (r: &ArmaContextStackTrace)
        requires
            self.has_stack(),
        ensures
            self.spec_stack() == Some(*r),
    {
        match &self.stack {
            Some(s) => s,
            None => unreached(),
        }
    }

    /// Convert the context to one without a stack trace.
    pub fn into_without_stack(self) -> (r: ArmaCallContext<WithoutStackTrace>)
        ensures
            r.spec_caller() == self.spec_caller(),
            r.spec_source() == self.spec_source(),
            r.spec_mission() == self.spec_mission(),
            r.spec_server() == self.spec_server(),
            r.spec_remote_exec_owner() == self.spec_remote_exec_owner(),
            !r.has_stack(),
    {
        ArmaCallContext::new(
            self.caller,
            self.source,
            self.mission,
            self.server,
            self.remote_exec_owner,
        )
    }
}

} // verus!
