//! The daemon's configuration, from its environment and its arguments.

use crate::domain::copy_bytes;
use crate::text::same_text;
use vstd::prelude::*;
use vstd::string::StringSliceAdditionalSpecFns;
use vstd::utf8::encode_utf8;

verus! {

/// What the process is asked to do.
#[derive(Clone, Copy, Debug, PartialEq, Eq, Structural)]
pub enum Subcommand {
    /// Make the key file, the vault and the database.
    Init,
    /// Boot and serve.
    Run,
}

/// The environment variables that the configuration is read from. Paths are bytes,
/// which need not be text.
#[derive(Debug)]
pub struct Environment {
    /// `XDG_RUNTIME_DIR`
    pub runtime_dir: Option<Vec<u8>>,
    /// `POSTERN_DB`
    pub db: Option<Vec<u8>>,
    /// `POSTERN_VAULT`
    pub vault: Option<Vec<u8>>,
    /// `POSTERN_KEYFILE`
    pub keyfile: Option<Vec<u8>>,
    /// `POSTERN_CONTROL_SOCK`
    pub control_sock: Option<Vec<u8>>,
    /// `POSTERN_DATA_SOCK`
    pub data_sock: Option<Vec<u8>>,
    /// `POSTERN_DATA_GROUP`
    pub data_group: Option<String>,
}

/// The daemon's files, sockets and the group of the data socket.
#[derive(Debug)]
pub struct DaemonConfig {
    pub db_path: Vec<u8>,
    pub vault_path: Vec<u8>,
    pub keyfile_path: Vec<u8>,
    pub control_sock: Vec<u8>,
    pub data_sock: Vec<u8>,
    pub data_sock_group: Option<String>,
}

/// A relative path below a directory.
pub open spec fn path_below(dir: Seq<u8>, name: Seq<char>) -> Seq<u8> {
    if dir.len() == 0 {
        encode_utf8(name)
    } else if dir.last() == 0x2f {
        dir + encode_utf8(name)
    } else {
        dir.push(0x2f) + encode_utf8(name)
    }
}

fn below(dir: &[u8], name: &str) -> (path: Vec<u8>)
    ensures
        path@ == path_below(dir@, name@),
{
    let mut path: Vec<u8> = copy_bytes(dir);
    let n: usize = dir.len();
    if n > 0 && dir[n - 1] != 0x2f {
        path.push(0x2f);
    }
    path.extend_from_slice(name.as_bytes());
    assert(path@ =~= path_below(dir@, name@));
    path
}

/// The directory of everything that is not configured.
pub open spec fn base_dir(runtime_dir: Option<Vec<u8>>) -> Seq<u8> {
    match runtime_dir {
        Some(dir) => path_below(dir@, "postern"@),
        None => encode_utf8("/run/postern"@),
    }
}

/// The directory of everything that is not configured: `postern` below the runtime
/// directory, or `/run/postern` where there is none.
pub fn runtime_base(runtime_dir: &Option<Vec<u8>>) -> (base: Vec<u8>)
    ensures
        base@ == base_dir(*runtime_dir),
{
    match runtime_dir {
        Some(dir) => below(dir.as_slice(), "postern"),
        None => copy_bytes("/run/postern".as_bytes()),
    }
}

/// A configured path, or a default below the base directory.
pub open spec fn path_or_default(configured: Option<Vec<u8>>, base: Seq<u8>, name: Seq<char>) -> Seq<
    u8,
> {
    match configured {
        Some(path) => path@,
        None => path_below(base, name),
    }
}

fn configured_or(configured: Option<Vec<u8>>, base: &[u8], name: &str) -> (path: Vec<u8>)
    ensures
        path@ == path_or_default(configured, base@, name@),
{
    match configured {
        Some(path) => path,
        None => below(base, name),
    }
}

impl DaemonConfig {
    /// Reads the configuration from the environment: each path as configured, or
    /// under its own name below the base directory.
    pub fn from_env(env: Environment) -> (config: Self)
        ensures
            ({
                let base = base_dir(env.runtime_dir);
                &&& config.db_path@ == path_or_default(env.db, base, "policy.db"@)
                &&& config.vault_path@ == path_or_default(env.vault, base, "vault.postern"@)
                &&& config.keyfile_path@ == path_or_default(env.keyfile, base, "keyfile"@)
                &&& config.control_sock@ == path_or_default(
                    env.control_sock,
                    base,
                    "control.sock"@,
                )
                &&& config.data_sock@ == path_or_default(env.data_sock, base, "data.sock"@)
                &&& config.data_sock_group == env.data_group
            }),
    {
        let base = runtime_base(&env.runtime_dir);
        DaemonConfig {
            db_path: configured_or(env.db, base.as_slice(), "policy.db"),
            vault_path: configured_or(env.vault, base.as_slice(), "vault.postern"),
            keyfile_path: configured_or(env.keyfile, base.as_slice(), "keyfile"),
            control_sock: configured_or(env.control_sock, base.as_slice(), "control.sock"),
            data_sock: configured_or(env.data_sock, base.as_slice(), "data.sock"),
            data_sock_group: env.data_group,
        }
    }
}

/// Reads the subcommand from the arguments, of which the first is the program's
/// name. Anything but `init` means to run.
pub fn parse_argv(args: &[String]) -> (subcommand: Subcommand)
    ensures
        subcommand == if args@.len() > 1 && args@[1]@ == "init"@ {
            Subcommand::Init
        } else {
            Subcommand::Run
        },
{
    if args.len() > 1 && same_text(args[1].as_str(), "init") {
        Subcommand::Init
    } else {
        Subcommand::Run
    }
}

/// A path below a directory is the directory, one slash where it does not end in one, and
/// the name; below an empty directory it is the name alone.
pub proof fn paths_join_with_one_slash(dir: Seq<u8>, name: Seq<char>)
    ensures
        path_below(Seq::empty(), name) == encode_utf8(name),
        dir.len() > 0 && dir[dir.len() - 1] == 0x2f ==> path_below(dir, name) == dir + encode_utf8(
            name,
        ),
        dir.len() > 0 && dir[dir.len() - 1] != 0x2f ==> path_below(dir, name) == dir + seq![0x2fu8]
            + encode_utf8(name),
{
    assert(dir.push(0x2f) =~= dir + seq![0x2fu8]);
}

/// What is configured is taken as it is, whatever the runtime directory. What is not
/// lies in `postern` below the runtime directory, and in `/run/postern` where there is
/// none.
pub proof fn configured_paths_are_kept(path: Vec<u8>, dir: Vec<u8>, base: Seq<u8>, name: Seq<char>)
    ensures
        path_or_default(Some(path), base, name) == path@,
        path_or_default(None, base, name) == path_below(base, name),
        base_dir(Some(dir)) == path_below(dir@, "postern"@),
        base_dir(None) == encode_utf8("/run/postern"@),
{
}

} // verus!
