//! Resolution of a video-on-demand identifier into an ordered, deduplicated
//! segment plan, and reassembly of the fetched segments in plan order.

pub mod assembler;
pub mod decimal;
pub mod download_options;
pub mod fetcher;
pub mod gql;
pub mod keyed;
pub mod links;
pub mod planner;
pub mod requests;
pub mod session;
pub mod text;
pub mod token;
pub mod twitch;
pub mod utils;
pub mod variants;
