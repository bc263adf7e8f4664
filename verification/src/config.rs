//! Driver configuration: polling cadences and the project home page.

use vstd::prelude::*;

verus! {

/// How often the driver redraws and how often it calls `tick` on the players,
/// both in milliseconds.
pub struct Config {
    pub refresh_rate: u64,
    pub tick_gap: u64,
    pub home_page: String,
}

impl Config {
    /// The stock configuration: redraw every 100 ms, tick every 200 ms.
    pub fn default() -> (c: Config)
        ensures
            c.refresh_rate == 100,
            c.tick_gap == 200,
            c.home_page@ == "https://github.com/Kingtous"@,
    {
        Config {
            refresh_rate: 100,
            tick_gap: 200,
            home_page: String::from_str("https://github.com/Kingtous"),
        }
    }
}

} // verus!
