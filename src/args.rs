//! Settings of the monitoring bot.
use vstd::prelude::*;
use std::time::Duration;

verus! {

/// Settings of the scraper.
#[derive(Clone, Copy, Debug, PartialEq, Eq)]
pub struct ScraperArgs {
    /// Time to wait between two fetches.
    pub fetch_cooldown: Duration,
}

/// Settings of the bot.
#[derive(Clone, Copy, Debug, PartialEq, Eq)]
pub struct BotArgs {
    /// Time to wait between two fetches.
    pub fetch_cooldown: Duration,
}

} // verus!
