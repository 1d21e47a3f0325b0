use vstd::prelude::*;

verus! {

/// Server configuration. Reading and writing the configuration file is I/O
/// and stays outside the library; the defaults are stated here.
#[derive(Debug)]
pub struct Config {
    pub port: u16,
    pub debug: bool,
    pub database_path: Option<String>,
    pub env: Vec<(String, String)>,
}

impl Default for Config {
    /// The configuration used when no file overrides it.
    fn default() -> (c: Config)
        ensures
            c.port == 4000,
            !c.debug,
            c.database_path is None,
            c.env@.len() == 0,
    {
        Config { port: 4000, debug: false, database_path: None, env: Vec::new() }
    }
}

} // verus!
