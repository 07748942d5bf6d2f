//! Fetches item metadata from an inspection service and an inventory listing,
//! and turns it into records of one canonical text format.
//!
//! The library holds the decisions: record conversion and rendering,
//! name-tag extraction, inspect-link construction, and the reconciliation of an
//! inventory listing with its descriptions. Network transport and JSON decoding
//! stand outside it.

pub mod model;
pub mod convert;
pub mod text;
pub mod link;
pub mod render;
pub mod inventory;
pub mod reconcile;
pub mod config;

pub use model::{Sticker, ItemInfo, ApiResponse, OSticker, Item};
pub use convert::convert;
pub use text::{find_text, extract_name_tag};
pub use link::{inspect_link, inspect_api_url, inventory_url};
pub use render::{render_item, parse, get_item, FetchError};
pub use inventory::{rgInventory, rgDescription, Action, SteamApi, FetchJob, find_description, plan_jobs};
pub use reconcile::{Reconciler, InventoryError, get_inv};
pub use config::insert_records;
