//! The command line of a server.

use clap::Arg;
use vstd::prelude::*;

use crate::digits::{decimal, decimal_reads_back};
use crate::text::views;

verus! {

/// What is asked of a server that serves HTTP by default.
#[derive(Debug)]
pub struct ServerArgs {
    /// `"stdio"`, or `"http"`.
    pub transport: String,
    /// The host to listen on.
    pub host: String,
    /// The port to listen on.
    pub port: u16,
}

/// What is asked of a server that serves standard input and output by default.
#[derive(Debug, Clone)]
pub struct McpArgs {
    /// `"stdio"`, or `"http"`.
    pub transport: String,
    /// The host to listen on.
    pub host: String,
    /// The port to listen on.
    pub port: u16,
}

/// What a program says of itself.
pub struct Program {
    /// The program's name, where the command line gives none.
    pub name: &'static str,
    /// What it is, in a line.
    pub about: &'static str,
    /// What it is, at length.
    pub long_about: &'static str,
}

impl Program {
    /// The texts.
    pub open spec fn said(self) -> (Seq<char>, Seq<char>, Seq<char>) {
        (self.name@, self.about@, self.long_about@)
    }
}

/// A long option with its default.
pub struct Opt {
    /// The option's name.
    pub name: &'static str,
    /// The word that stands for its value in the help.
    pub value_name: &'static str,
    /// What it is for.
    pub help: &'static str,
    /// Its value when the command line gives none.
    pub default: &'static str,
}

impl Opt {
    /// The texts.
    pub open spec fn said(self) -> (Seq<char>, Seq<char>, Seq<char>, Seq<char>) {
        (self.name@, self.value_name@, self.help@, self.default@)
    }
}

/// The values that a command line gives to two options that take a text and one that
/// takes a port, each told with its default; or the words of the refusal, or of the help that
/// was asked for.
pub uninterp spec fn parsed_args(
    args: Seq<Seq<char>>,
    program: (Seq<char>, Seq<char>, Seq<char>),
    first: (Seq<char>, Seq<char>, Seq<char>, Seq<char>),
    second: (Seq<char>, Seq<char>, Seq<char>, Seq<char>),
    third: (Seq<char>, Seq<char>, Seq<char>, Seq<char>),
) -> Result<(Seq<char>, Seq<char>, u16), Seq<char>>;

/// The values of the three options.
pub open spec fn args_view(args: Result<(String, String, u16), String>) -> Result<
    (Seq<char>, Seq<char>, u16),
    Seq<char>,
> {
    match args {
        Ok((first, second, third)) => Ok((first@, second@, third)),
        Err(words) => Err(words@),
    }
}

/// Whether a word can name an option: one small letter or more.
pub open spec fn is_option_name(name: Seq<char>) -> bool {
    name.len() > 0 && forall|i: int| 0 <= i < name.len() ==> 'a' <= #[trigger] name[i] <= 'z'
}

/// Whether options can stand together: their names differ, and so do the words for their
/// values, and none is the one that asks for help.
pub open spec fn can_stand_together(first: Opt, second: Opt, third: Opt) -> bool {
    &&& is_option_name(first.name@) && is_option_name(second.name@) && is_option_name(third.name@)
    &&& first.name@ != second.name@ && first.name@ != third.name@ && second.name@ != third.name@
    &&& first.name@ != "help"@ && second.name@ != "help"@ && third.name@ != "help"@
    &&& first.value_name@ != second.value_name@ && first.value_name@ != third.value_name@
    &&& second.value_name@ != third.value_name@
    &&& first.value_name@ != "help"@ && second.value_name@ != "help"@
    &&& third.value_name@ != "help"@
}

/// `clap::Command::try_get_matches_from` with three long options that each take a value
/// and have a default, the third a port: what the command line asks for. The first word is
/// the program's name; when there is no other, all is as by default.
#[verifier::external_body]
fn read_args(args: &[String], program: &Program, first: &Opt, second: &Opt, third: &Opt) -> (asked:
    Result<(String, String, u16), String>)
    requires
        can_stand_together(*first, *second, *third),
        exists|port: u16| #[trigger] decimal(port as nat) == third.default@,
    ensures
        args_view(asked) == parsed_args(
            views(args@),
            program.said(),
            first.said(),
            second.said(),
            third.said(),
        ),
        args@.len() <= 1 ==> (asked matches Ok(asked) && asked.0@ == first.default@ && asked.1@
            == second.default@ && decimal(asked.2 as nat) == third.default@),
{
    let option = |o: &Opt| {
        Arg::new(o.value_name).long(o.name).help(o.help).default_value(o.default)
    };
    let range = clap::builder::RangedI64ValueParser::<u16>::new().range(0..=65_535);
    let mut matches = clap::Command::new(program.name)
        .about(program.about)
        .long_about(program.long_about)
        .args([option(first), option(second), option(third).value_parser(range)])
        .try_get_matches_from(args)
        .map_err(|e| e.to_string())?;
    let port = matches.remove_one(third.value_name).unwrap_or_default();
    let host = matches.remove_one(second.value_name).unwrap_or_default();
    Ok((matches.remove_one(first.value_name).unwrap_or_default(), host, port))
}

/// The name of the programs that take these options, where the command line gives none.
pub const PROGRAM_NAME: &'static str = "dravr-tronc";

/// What is said of the transport.
pub const TRANSPORT_HELP: &'static str =
    "Transport mode: \"stdio\" for stdin/stdout or \"http\" for HTTP+SSE";

/// What is said of the host.
pub const HOST_HELP: &'static str = "HTTP listen host (only used with --transport http)";

/// What is said of the port.
pub const PORT_HELP: &'static str = "HTTP listen port (only used with --transport http)";

/// What is said of a server that serves HTTP by default.
pub const SERVER_ABOUT: &'static str =
    "Common server CLI arguments shared across all dravr-xxx server binaries";

/// The same at length.
pub const SERVER_LONG_ABOUT: &'static str =
    "Common server CLI arguments shared across all dravr-xxx server binaries\n\nUse with `#[command(flatten)]` in your project-specific CLI struct:\n\n```rust,ignore use clap::Parser; use dravr_tronc::server::cli::ServerArgs;\n\n#[derive(Parser)] struct Cli { #[command(flatten)] server: ServerArgs,\n\n/// My project-specific flag #[arg(long)] my_flag: bool, } ```";

/// What is said of a server that serves standard input and output by default.
pub const MCP_ABOUT: &'static str =
    "Common MCP server CLI arguments (defaults to stdio transport)";

/// The same at length.
pub const MCP_LONG_ABOUT: &'static str =
    "Common MCP server CLI arguments (defaults to stdio transport)\n\nSame as `ServerArgs` but with `stdio` as the default transport, suitable for standalone MCP binary entry points.";

/// What a command line asks of a server, given what is said of it and the transport and the
/// port that it uses by default.
pub open spec fn server_args(
    args: Seq<Seq<char>>,
    about: Seq<char>,
    long_about: Seq<char>,
    transport: Seq<char>,
    port: Seq<char>,
) -> Result<(Seq<char>, Seq<char>, u16), Seq<char>> {
    parsed_args(
        args,
        (PROGRAM_NAME@, about, long_about),
        ("transport"@, "TRANSPORT"@, TRANSPORT_HELP@, transport),
        ("host"@, "HOST"@, HOST_HELP@, "127.0.0.1"@),
        ("port"@, "PORT"@, PORT_HELP@, port),
    )
}

fn read_server_args(
    args: &[String],
    about: &'static str,
    long_about: &'static str,
    transport: &'static str,
    port: &'static str,
) -> (asked: Result<(String, String, u16), String>)
    requires
        exists|n: u16| #[trigger] decimal(n as nat) == port@,
    ensures
        args_view(asked) == server_args(views(args@), about@, long_about@, transport@, port@),
        args@.len() <= 1 ==> (asked matches Ok(asked) && asked.0@ == transport@ && asked.1@
            == "127.0.0.1"@ && decimal(asked.2 as nat) == port@),
{
    proof {
        lemma_option_names_differ();
    }
    read_args(
        args,
        &Program { name: PROGRAM_NAME, about, long_about },
        &Opt {
            name: "transport",
            value_name: "TRANSPORT",
            help: TRANSPORT_HELP,
            default: transport,
        },
        &Opt { name: "host", value_name: "HOST", help: HOST_HELP, default: "127.0.0.1" },
        &Opt { name: "port", value_name: "PORT", help: PORT_HELP, default: port },
    )
}

/// The names of the options are distinct words, and so are those of their values.
proof fn lemma_option_names_differ()
    ensures
        is_option_name("transport"@),
        is_option_name("host"@),
        is_option_name("port"@),
        "transport"@ != "host"@,
        "transport"@ != "port"@,
        "transport"@ != "help"@,
        "host"@ != "port"@,
        "host"@ != "help"@,
        "port"@ != "help"@,
        "TRANSPORT"@ != "HOST"@,
        "TRANSPORT"@ != "PORT"@,
        "TRANSPORT"@ != "help"@,
        "HOST"@ != "PORT"@,
        "HOST"@ != "help"@,
        "PORT"@ != "help"@,
{
    reveal_strlit("transport");
    reveal_strlit("host");
    reveal_strlit("port");
    reveal_strlit("help");
    reveal_strlit("TRANSPORT");
    reveal_strlit("HOST");
    reveal_strlit("PORT");
    assert("transport"@.len() == 9 && "TRANSPORT"@.len() == 9);
    assert("host"@.len() == 4 && "HOST"@.len() == 4);
    assert("port"@.len() == 4 && "PORT"@.len() == 4);
    assert("help"@.len() == 4);
    assert("host"@[0] != "port"@[0]);
    assert("host"@[1] != "help"@[1]);
    assert("port"@[0] != "help"@[0]);
    assert("HOST"@[0] != "PORT"@[0]);
    assert("HOST"@[0] != "help"@[0]);
    assert("PORT"@[0] != "help"@[0]);
}

/// The ports by default, as they are written.
proof fn lemma_default_ports()
    ensures
        decimal(3000) == "3000"@,
        decimal(3001) == "3001"@,
        forall|n: u16| #[trigger] decimal(n as nat) == "3000"@ ==> n == 3000,
        forall|n: u16| #[trigger] decimal(n as nat) == "3001"@ ==> n == 3001,
{
    reveal_strlit("3000");
    reveal_strlit("3001");
    reveal_with_fuel(decimal, 5);
    assert(decimal(3000) =~= "3000"@);
    assert(decimal(3001) =~= "3001"@);
    decimal_reads_back(3000);
    decimal_reads_back(3001);
    assert forall|n: u16| #[trigger] decimal(n as nat) == "3000"@ implies n == 3000 by {
        decimal_reads_back(n as nat);
    }
    assert forall|n: u16| #[trigger] decimal(n as nat) == "3001"@ implies n == 3001 by {
        decimal_reads_back(n as nat);
    }
}

impl ServerArgs {
    /// What a command line asks for, or why it is refused.
    pub fn try_parse_from(args: &[String]) -> (asked: Result<Self, String>)
        ensures
            match asked {
                Ok(asked) => server_args(views(args@), SERVER_ABOUT@, SERVER_LONG_ABOUT@, "http"@, "3000"@) == Ok::<
                    (Seq<char>, Seq<char>, u16),
                    Seq<char>,
                >((asked.transport@, asked.host@, asked.port)),
                Err(words) => server_args(views(args@), SERVER_ABOUT@, SERVER_LONG_ABOUT@, "http"@, "3000"@) == Err::<
                    (Seq<char>, Seq<char>, u16),
                    Seq<char>,
                >(words@),
            },
            args@.len() <= 1 ==> (asked matches Ok(asked) && asked.transport@ == "http"@
                && asked.host@ == "127.0.0.1"@ && asked.port == 3000),
    {
        proof {
            lemma_default_ports();
            assert(decimal(3000u16 as nat) == "3000"@);
        }
        match read_server_args(args, SERVER_ABOUT, SERVER_LONG_ABOUT, "http", "3000") {
            Ok((transport, host, port)) => Ok(ServerArgs { transport, host, port }),
            Err(words) => Err(words),
        }
    }

    /// A copy of the arguments.
    pub fn dup(&self) -> (copy: Self)
        ensures
            copy.transport@ == self.transport@,
            copy.host@ == self.host@,
            copy.port == self.port,
    {
        ServerArgs { transport: self.transport.clone(), host: self.host.clone(), port: self.port }
    }
}

impl McpArgs {
    /// What a command line asks for, or why it is refused.
    pub fn try_parse_from(args: &[String]) -> (asked: Result<Self, String>)
        ensures
            match asked {
                Ok(asked) => server_args(views(args@), MCP_ABOUT@, MCP_LONG_ABOUT@, "stdio"@, "3001"@) == Ok::<
                    (Seq<char>, Seq<char>, u16),
                    Seq<char>,
                >((asked.transport@, asked.host@, asked.port)),
                Err(words) => server_args(views(args@), MCP_ABOUT@, MCP_LONG_ABOUT@, "stdio"@, "3001"@) == Err::<
                    (Seq<char>, Seq<char>, u16),
                    Seq<char>,
                >(words@),
            },
            args@.len() <= 1 ==> (asked matches Ok(asked) && asked.transport@ == "stdio"@
                && asked.host@ == "127.0.0.1"@ && asked.port == 3001),
    {
        proof {
            lemma_default_ports();
            assert(decimal(3001u16 as nat) == "3001"@);
        }
        match read_server_args(args, MCP_ABOUT, MCP_LONG_ABOUT, "stdio", "3001") {
            Ok((transport, host, port)) => Ok(McpArgs { transport, host, port }),
            Err(words) => Err(words),
        }
    }
}

} // verus!
