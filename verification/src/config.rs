//! The settings that the decisions depend on.

use vstd::prelude::*;

verus! {

/// The configuration of the crawler.
#[derive(Debug)]
pub struct Config {
    pub main: MainConfig,
}

/// The main section of the configuration.
#[derive(Debug)]
pub struct MainConfig {
    /// The time of day at which the crawl runs, as `HH:MM`.
    pub time: String,
    /// How long to wait after the first failed attempt, as `HH:MM`.
    pub retry_interval: String,
    /// How many attempts a crawl gets.
    pub retries: u32,
    /// Whether a mail goes out when all attempts failed.
    pub send_error_mail: bool,
    /// The leave message to use where the database has none.
    pub auto_leave_message_default: String,
    /// Whether leaves are detected, where the database does not say.
    pub auto_leave_enabled: bool,
    /// How many days back an earlier dataset may lie.
    pub auto_leave_max_age: u32,
    /// The address that the clan is fetched from.
    pub clan_url: String,
    /// The template of the address that members are fetched from.
    pub clan_ajax_url: String,
    /// What stands for the page in the template.
    pub clan_ajax_site_key: String,
    /// What stands for the first row of the page in the template.
    pub clan_ajax_start_row_key: String,
    /// What stands for the last row of the page in the template.
    pub clan_ajax_end_row_key: String,
    /// How many rows a page holds.
    pub clan_ajax_exptected_per_site: u8,
    /// The last page that may be asked for.
    pub clan_ajax_max_sites: u8,
}

} // verus!
