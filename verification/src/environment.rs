//! The server's settings, as its environment gives them.
use vstd::prelude::*;

verus! {

/// A setting the server cannot start without.
#[derive(Clone, Copy, Debug, PartialEq, Eq)]
pub enum RequiredVariable {
    ListenAddr,
    DbPath,
    FsRoot,
}

impl RequiredVariable {
    /// The name of the environment variable that holds it.
    pub fn name(&self) -> (r: &'static str)
        ensures
            *self == RequiredVariable::ListenAddr ==> r@ == "LISTEN_ADDR"@,
            *self == RequiredVariable::DbPath ==> r@ == "DB_PATH"@,
            *self == RequiredVariable::FsRoot ==> r@ == "FS_ROOT"@,
    {
        match self {
            RequiredVariable::ListenAddr => "LISTEN_ADDR",
            RequiredVariable::DbPath => "DB_PATH",
            RequiredVariable::FsRoot => "FS_ROOT",
        }
    }
}

/// Where the server listens, where its database and its files are, and where
/// the web frontend listens, if it runs.
#[derive(Clone, Debug)]
pub struct Environment {
    pub listen_addr: String,
    pub db_path: String,
    pub fs_root: String,
    pub web_listen_addr: Option<String>,
}

impl Environment {
    /// The settings from the values of `LISTEN_ADDR`, `DB_PATH`, `FS_ROOT`
    /// and `WEB_LISTEN_ADDR`, each `None` where the variable is not set. The
    /// first three are required, in that order; without the last the web
    /// frontend stays off.
    pub fn read(
        listen_addr: Option<String>,
        db_path: Option<String>,
        fs_root: Option<String>,
        web_listen_addr: Option<String>,
    ) -> (r: Result<Environment, RequiredVariable>)
        ensures
            listen_addr is None ==> r == Err::<Environment, RequiredVariable>(
                RequiredVariable::ListenAddr,
            ),
            listen_addr is Some && db_path is None ==> r == Err::<Environment, RequiredVariable>(
                RequiredVariable::DbPath,
            ),
            listen_addr is Some && db_path is Some && fs_root is None ==> r == Err::<
                Environment,
                RequiredVariable,
            >(RequiredVariable::FsRoot),
            listen_addr is Some && db_path is Some && fs_root is Some ==> r == Ok::<
                Environment,
                RequiredVariable,
            >(
                Environment {
                    listen_addr: listen_addr->Some_0,
                    db_path: db_path->Some_0,
                    fs_root: fs_root->Some_0,
                    web_listen_addr,
                },
            ),
    {
        let listen_addr = match listen_addr {
            Some(v) => v,
            None => {
                return Err(RequiredVariable::ListenAddr);
            },
        };
        let db_path = match db_path {
            Some(v) => v,
            None => {
                return Err(RequiredVariable::DbPath);
            },
        };
        let fs_root = match fs_root {
            Some(v) => v,
            None => {
                return Err(RequiredVariable::FsRoot);
            },
        };
        Ok(Environment { listen_addr, db_path, fs_root, web_listen_addr })
    }
}

} // verus!
