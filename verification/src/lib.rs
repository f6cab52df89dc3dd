//! Extraction of shared links from a chat message archive.
//!
//! A sequence of [`Message`] records is narrowed by sender and by calendar
//! date, each remaining message yields at most one [`LinkInfo`], and the
//! extracted links may be narrowed once more by a site substring. Every
//! step keeps the order of its input.

pub mod calendar;
pub mod config;
pub mod extract;
pub mod filter;
pub mod laws;
pub mod model;
pub mod order;
pub mod pipeline;
pub mod search;
pub mod text;

pub use calendar::{timestamp_has_utc_date, DATE_PATTERN, MAX_TIMESTAMP_MS, MIN_TIMESTAMP_MS};
pub use config::{parse_launching_mode, MISSING_FILENAME};
pub use extract::{
    create_link_info, extract_link, find_url_token, mentions_url, search_in_content,
    search_in_share,
};
pub use filter::{filter_date, filter_sender, have_dates};
pub use model::{Config, DateFilter, JsonValue, LaunchingMode, LinkInfo, Message, Share};
pub use pipeline::parse_messages;
pub use search::{link_is_on_site, search_links_with_site_filter, search_links_without_filter};
