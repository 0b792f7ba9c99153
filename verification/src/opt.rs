use vstd::prelude::*;

verus! {

/// The command line options.
#[derive(Debug)]
pub struct Opt {
    /// User name for a remote connection.
    pub username: Option<String>,
    /// Password for a remote connection.
    pub password: Option<String>,
}

} // verus!
