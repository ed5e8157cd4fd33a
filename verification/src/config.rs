//! The configuration context: where the firewall's configuration document is
//! stored, and the middleware that hands this to every request.

use crate::http::State;
use vstd::prelude::*;

verus! {

/// The path of the configuration document. It is set once and never changes.
#[derive(Debug, PartialEq, Eq)]
pub struct Config {
    config_file: String,
}

impl View for Config {
    type V = Seq<char>;

    /// The path, as text.
    closed spec fn view(&self) -> Seq<char> {
        self.config_file@
    }
}

impl Config {
    pub fn new(config_file: String) -> (res: Config)
        ensures
            res@ == config_file@,
    {
        Config { config_file: config_file }
    }

    pub fn get_config_file<'a>(&'a self) -> (res: &'a str)
        ensures
            res@ == self@,
    {
        self.config_file.as_str()
    }
}

impl Clone for Config {
    fn clone(&self) -> (res: Self)
        ensures
            res@ == self@,
    {
        Config { config_file: self.config_file.clone() }
    }
}

/// Attaches the configuration context to each request on its way in.
#[derive(Clone, Debug, PartialEq, Eq)]
pub struct ConfigMiddleware {
    config: Config,
}

impl View for ConfigMiddleware {
    type V = Seq<char>;

    /// The path that the middleware hands out.
    closed spec fn view(&self) -> Seq<char> {
        self.config@
    }
}

impl ConfigMiddleware {
    pub fn new(config: Config) -> (res: ConfigMiddleware)
        ensures
            res@ == config@,
    {
        ConfigMiddleware { config: config }
    }

    /// The request's state with the configuration context in it. Nothing else
    /// of the state changes, and nothing is read or written outside of it.
    pub fn call(&self, state: State) -> (res: State)
        ensures
            res@.config_file == Some(self@),
            res@.origin == state@.origin,
    {
        State { origin: state.origin, config: Some(self.config.clone()) }
    }
}

} // verus!
