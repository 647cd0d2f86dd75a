//! Where the browser driver that reads Kyobo's pages runs.
use vstd::prelude::*;

verus! {

/// The address of the browser driver.
#[derive(Debug, Clone)]
pub struct Config {
    server_url: String,
}

impl Config {
    pub fn new(server_url: String) -> (r: Config)
        ensures
            r.spec_server_url() == server_url@,
    {
        Config { server_url }
    }

    pub closed spec fn spec_server_url(&self) -> Seq<char> {
        self.server_url@
    }

    pub fn server_url(&self) -> (r: &str)
        ensures
            r@ == self.spec_server_url(),
    {
        self.server_url.as_str()
    }
}

} // verus!
