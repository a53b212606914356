//! The command line's shape and the choice of the data directory.

use vstd::prelude::*;
use crate::text::concat_text;

verus! {

/// The parsed command line.
pub struct Cli {
    /// Directory for CA keys, certs, and traffic logs.
    pub data_dir: Option<String>,
    pub command: Commands,
}

/// The subcommands.
pub enum Commands {
    /// Start the proxy.
    Start(StartArgs),
    /// Query captured traffic logs.
    Logs(LogsArgs),
    /// Replay a captured request.
    Replay(ReplayArgs),
    /// Manage the local CA certificate.
    Ca(CaArgs),
}

/// Options of `start`.
pub struct StartArgs {
    /// Address to listen on.
    pub listen: String,
    /// Write logs to sqlite in addition to JSON lines.
    pub sqlite: bool,
    /// Only log requests whose host contains this text.
    pub filter_host: Option<String>,
}

/// Options of `logs`.
pub struct LogsArgs {
    /// Keep entries whose host contains this text, ignoring case.
    pub host: Option<String>,
    /// Keep entries with this HTTP method (compared in upper case).
    pub method: Option<String>,
    /// Keep entries with this response status.
    pub status: Option<u16>,
    /// Show the last this many entries.
    pub limit: usize,
    /// Output raw JSON lines instead of a table.
    pub json: bool,
}

/// Options of `replay`.
pub struct ReplayArgs {
    /// Id of the captured request to replay.
    pub id: String,
    /// Override of the request method.
    pub method: Option<String>,
    /// Headers to add or override, each written `key:value`.
    pub headers: Vec<String>,
    /// Override of the request body.
    pub body: Option<String>,
}

/// Options of `ca`.
pub struct CaArgs {
    pub action: CaAction,
}

/// What `ca` does.
pub enum CaAction {
    /// Print the CA cert path and install instructions.
    Info,
    /// Print the CA cert in PEM format.
    Print,
}

/// The path `name` inside directory `dir`, as joining a relative path onto a
/// Unix path gives it: a `/` goes between them unless `dir` is empty or already
/// ends with one.
pub open spec fn joined(dir: Seq<char>, name: Seq<char>) -> Seq<char> {
    if dir.len() == 0 || dir.last() == '/' {
        dir + name
    } else {
        dir + seq!['/'] + name
    }
}

/// The path of file `name` inside directory `dir`; `name` is relative.
pub fn join_path(dir: &str, name: &str) -> (r: String)
    ensures
        r@ == joined(dir@, name@),
{
    let n = dir.unicode_len();
    if n == 0 || dir.get_char(n - 1) == '/' {
        concat_text(dir, name)
    } else {
        let with_sep = concat_text(dir, "/");
        proof {
            reveal_strlit("/");
        }
        concat_text(&with_sep, name)
    }
}

/// The name of this program's directory under the base data directory.
pub open spec fn app_dir_name() -> Seq<char> {
    seq!['t', 'a', 'p', 'h', 't', 't', 'p']
}

/// The data directory: the override when one is given; otherwise `taphttp`
/// inside the user's local data directory, else inside the home directory, else
/// inside the current directory `.`.
pub open spec fn data_dir_spec(
    override_path: Option<Seq<char>>,
    local_data: Option<Seq<char>>,
    home: Option<Seq<char>>,
) -> Seq<char> {
    match override_path {
        Some(p) => p,
        None => {
            let base = match local_data {
                Some(b) => b,
                None => match home {
                    Some(h) => h,
                    None => seq!['.'],
                },
            };
            joined(base, app_dir_name())
        },
    }
}

/// The texts of an optional string.
pub open spec fn opt_text(s: Option<String>) -> Option<Seq<char>> {
    match s {
        Some(t) => Some(t@),
        None => None,
    }
}

/// Chooses the data directory from the override and the platform's local data
/// and home directories (each `None` when unknown).
pub fn data_dir(override_path: Option<String>, local_data: Option<String>, home: Option<String>) -> (r: String)
    ensures
        r@ == data_dir_spec(opt_text(override_path), opt_text(local_data), opt_text(home)),
{
    match override_path {
        Some(p) => p,
        None => {
            let base = match local_data {
                Some(b) => b,
                None => match home {
                    Some(h) => h,
                    None => {
                        proof {
                            reveal_strlit(".");
                        }
                        ".".to_owned()
                    },
                },
            };
            proof {
                reveal_strlit("taphttp");
            }
            join_path(&base, "taphttp")
        },
    }
}

} // verus!
