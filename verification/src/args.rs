//! The configuration of one run, and how it is derived from the raw options.

use vstd::prelude::*;
use vstd::string::StringExecFns;
use std::path::PathBuf;

verus! {

/// `std::path::PathBuf`, carried through unread.
#[verifier::external_type_specification]
#[verifier::external_body]
pub struct ExPathBuf(PathBuf);

/// The character encoding of a session.
#[derive(Clone, Copy, Debug, PartialEq, Eq, Structural)]
pub enum Encode {
    UTF8,
    SHIFTJIS,
}

/// The address family to connect to or to listen on.
#[derive(Clone, Copy, Debug, PartialEq, Eq, Structural)]
pub enum IPv {
    IPv4,
    IPv6,
}

/// Which side of the relay this process is.
#[derive(Clone, Copy, Debug, PartialEq, Eq, Structural)]
pub enum Mode {
    Client,
    Server,
}

/// The port where none is given.
pub const DEFAULT_PORT: u16 = 23;

/// The family number where none is given.
pub const DEFAULT_IPV: u8 = 4;

/// The milliseconds between the characters of a paced message where none
/// are given.
pub const DEFAULT_WAIT_MS: u64 = 100;

/// The options as they were given, before any of them is interpreted.
#[derive(Debug, PartialEq, Eq)]
pub struct Args {
    pub server: bool,
    pub client: bool,
    pub url: String,
    pub port: u16,
    pub encode: String,
    pub ipv: u8,
    pub one_char: bool,
    pub wait_ms: u64,
    pub message: Option<String>,
    pub file: Option<PathBuf>,
}

/// The resolved configuration that the relay consumes.
#[derive(Debug, PartialEq, Eq)]
pub struct ArgStruct {
    pub mode: Mode,
    pub url: String,
    pub port: u16,
    pub encode: Encode,
    pub ipv: IPv,
    pub server_one_char: bool,
    pub server_wait_ms: u64,
    pub server_message: Option<String>,
    pub server_message_file: Option<PathBuf>,
}

/// What `Args` holds, as mathematical values.
pub struct ArgsView {
    pub server: bool,
    pub client: bool,
    pub url: Seq<char>,
    pub port: u16,
    pub encode: Seq<char>,
    pub ipv: u8,
    pub one_char: bool,
    pub wait_ms: u64,
    pub message: Option<Seq<char>>,
    pub file: Option<PathBuf>,
}

/// What `ArgStruct` holds, as mathematical values.
pub struct ArgStructView {
    pub mode: Mode,
    pub url: Seq<char>,
    pub port: u16,
    pub encode: Encode,
    pub ipv: IPv,
    pub server_one_char: bool,
    pub server_wait_ms: u64,
    pub server_message: Option<Seq<char>>,
    pub server_message_file: Option<PathBuf>,
}

/// The characters of an optional string.
pub open spec fn text_of(s: Option<String>) -> Option<Seq<char>> {
    match s {
        Some(t) => Some(t@),
        None => None,
    }
}

impl View for Args {
    type V = ArgsView;

    open spec fn view(&self) -> ArgsView {
        ArgsView {
            server: self.server,
            client: self.client,
            url: self.url@,
            port: self.port,
            encode: self.encode@,
            ipv: self.ipv,
            one_char: self.one_char,
            wait_ms: self.wait_ms,
            message: text_of(self.message),
            file: self.file,
        }
    }
}

impl View for ArgStruct {
    type V = ArgStructView;

    open spec fn view(&self) -> ArgStructView {
        ArgStructView {
            mode: self.mode,
            url: self.url@,
            port: self.port,
            encode: self.encode,
            ipv: self.ipv,
            server_one_char: self.server_one_char,
            server_wait_ms: self.server_wait_ms,
            server_message: text_of(self.server_message),
            server_message_file: self.server_message_file,
        }
    }
}

/// The lower-case form of an ASCII capital; every other character is itself.
pub open spec fn lower_char(c: char) -> char {
    if 'A' <= c && c <= 'Z' {
        ((c as u32) + 32) as char
    } else {
        c
    }
}

/// A name with each ASCII capital in lower case.
pub open spec fn lowered(name: Seq<char>) -> Seq<char> {
    name.map_values(|c: char| lower_char(c))
}

/// The encoding that a name selects: `shift_jis` and its alias `sjis`, in
/// any mix of cases, select Shift-JIS; every other name selects UTF-8.
pub open spec fn encode_named(name: Seq<char>) -> Encode {
    if lowered(name) == "shift_jis"@ || lowered(name) == "sjis"@ {
        Encode::SHIFTJIS
    } else {
        Encode::UTF8
    }
}

/// The address family that a number selects: 6 selects IPv6, every other
/// number IPv4.
pub open spec fn ipv_numbered(n: u8) -> IPv {
    if n == 6 {
        IPv::IPv6
    } else {
        IPv::IPv4
    }
}

/// The mode that the two flags select: the server only where it alone is
/// asked for.
pub open spec fn mode_flagged(server: bool, client: bool) -> Mode {
    if server && !client {
        Mode::Server
    } else {
        Mode::Client
    }
}

/// The configuration that the raw options stand for.
pub open spec fn resolved(args: ArgsView) -> ArgStructView {
    ArgStructView {
        mode: mode_flagged(args.server, args.client),
        url: args.url,
        port: args.port,
        encode: encode_named(args.encode),
        ipv: ipv_numbered(args.ipv),
        server_one_char: args.one_char,
        server_wait_ms: args.wait_ms,
        server_message: args.message,
        server_message_file: args.file,
    }
}

fn to_lower(c: char) -> (r: char)
    ensures
        r == lower_char(c),
{
    if 'A' <= c && c <= 'Z' {
        let n: u32 = c as u32;
        let m: u8 = (n + 32) as u8;
        m as char
    } else {
        c
    }
}

/// Whether `name`, with its ASCII capitals lowered, is `target`.
fn lowered_is(name: &str, target: &str) -> (same: bool)
    ensures
        same == (lowered(name@) == target@),
{
    let len: usize = target.unicode_len();
    let mut matched: usize = 0;
    let mut same: bool = true;
    for c in it: name.chars()
        invariant
            it.seq() == name@,
            len == target@.len(),
            same ==> matched == it.index() && matched <= len,
            same ==> forall|j: int| 0 <= j < matched ==> lower_char(name@[j]) == target@[j],
            !same ==> lowered(name@) != target@,
    {
        if same {
            if matched < len && to_lower(c) == target.get_char(matched) {
                matched = matched + 1;
            } else {
                proof {
                    let k = matched as int;
                    assert(lowered(name@).len() == name@.len());
                    if k < len {
                        assert(lowered(name@)[k] == lower_char(name@[k]));
                    }
                }
                same = false;
            }
        }
    }
    if same && matched == len {
        assert(lowered(name@) =~= target@);
        true
    } else {
        false
    }
}

impl Args {
    /// The options of a run for which only the host was given: the client,
    /// port 23, UTF-8, IPv4, and for a server no message, no pacing and 100
    /// milliseconds of wait.
    pub fn new(url: String) -> (args: Args)
        ensures
            args@ == (ArgsView {
                server: false,
                client: false,
                url: url@,
                port: DEFAULT_PORT,
                encode: "utf8"@,
                ipv: DEFAULT_IPV,
                one_char: false,
                wait_ms: DEFAULT_WAIT_MS,
                message: None,
                file: None,
            }),
    {
        Args {
            server: false,
            client: false,
            url: url,
            port: DEFAULT_PORT,
            encode: String::from_str("utf8"),
            ipv: DEFAULT_IPV,
            one_char: false,
            wait_ms: DEFAULT_WAIT_MS,
            message: None,
            file: None,
        }
    }
}

impl Encode {
    /// The encoding that `name` selects.
    pub fn from_name(name: &str) -> (encode: Encode)
        ensures
            encode == encode_named(name@),
    {
        if lowered_is(name, "shift_jis") || lowered_is(name, "sjis") {
            Encode::SHIFTJIS
        } else {
            Encode::UTF8
        }
    }
}

impl IPv {
    /// The address family that `n` selects.
    pub fn from_number(n: u8) -> (ipv: IPv)
        ensures
            ipv == ipv_numbered(n),
    {
        if n == 6 {
            IPv::IPv6
        } else {
            IPv::IPv4
        }
    }
}

impl Mode {
    /// The mode that the two flags select.
    pub fn from_flags(server: bool, client: bool) -> (mode: Mode)
        ensures
            mode == mode_flagged(server, client),
    {
        if server && !client {
            Mode::Server
        } else {
            Mode::Client
        }
    }
}

/// Two names that differ in the case of their ASCII letters only select the
/// same encoding.
pub proof fn encoding_name_ignores_case(a: Seq<char>, b: Seq<char>)
    requires
        lowered(a) == lowered(b),
    ensures
        encode_named(a) == encode_named(b),
{
}

/// Resolves the raw options into the configuration of the run. Nothing is
/// rejected: an unknown encoding name means UTF-8, an unknown family
/// number IPv4, and both flags or neither mean the client.
pub fn parser(args: Args) -> (config: ArgStruct)
    ensures
        config@ == resolved(args@),
{
    let encode = Encode::from_name(args.encode.as_str());
    let ipv = IPv::from_number(args.ipv);
    let mode = Mode::from_flags(args.server, args.client);
    ArgStruct {
        mode: mode,
        url: args.url,
        port: args.port,
        encode: encode,
        ipv: ipv,
        server_one_char: args.one_char,
        server_wait_ms: args.wait_ms,
        server_message: args.message,
        server_message_file: args.file,
    }
}

} // verus!
