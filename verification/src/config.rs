//! The configuration that is saved to and loaded from a file.

use vstd::prelude::*;

use crate::model::session::ConnectionConfig;
use crate::model::variable::{clone_var_defs, VarDef};

verus! {

/// Snapshot of the full application configuration.
#[derive(Debug)]
pub struct ConfigFile {
    pub connection: ConnectionConfig,
    pub vars: Vec<VarDef>,
}

impl Clone for ConfigFile {
    fn clone(&self) -> (r: Self)
        ensures
            r.connection == self.connection,
            r.vars@ == self.vars@,
    {
        ConfigFile { connection: self.connection.clone(), vars: clone_var_defs(&self.vars) }
    }
}

} // verus!
