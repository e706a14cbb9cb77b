//! The settings that a server is started with.

use vstd::prelude::*;

verus! {

/// Where the description is read from and where the server listens.
#[derive(Clone, Debug, PartialEq, Eq)]
pub struct Args {
    /// Path to the description file.
    pub spec: String,
    /// Port to listen on.
    pub port: u16,
    /// Host to bind to.
    pub host: String,
}

impl Default for Args {
    /// The settings of a server that is started without any.
    fn default() -> (args: Args)
        ensures
            args.spec@ == "api-spec.yaml"@,
            args.port == 8080,
            args.host@ == "127.0.0.1"@,
    {
        Args { spec: "api-spec.yaml".to_string(), port: 8080, host: "127.0.0.1".to_string() }
    }
}

} // verus!
