//! The watcher's configuration, as plain values.
//!
//! Loading and parsing the configuration file is the caller's affair;
//! the library receives the result: where the store lives, which pages
//! to watch, and the notifier's credentials where one is configured.

use vstd::prelude::*;

use crate::page::Page;
use crate::pushover::Pushover;

verus! {

/// A loaded configuration.
#[derive(Debug)]
pub struct Config {
    pub database: String,
    pub page: Vec<Page>,
    pub pushover: Option<Pushover>,
}

} // verus!
