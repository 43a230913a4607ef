//! A breadth-first crawler core for a music catalog's web API: a rotating
//! ring of credentialed identities that absorbs rate limits and expired
//! tokens, a retrying fetch directed by status codes, seeded related-artist
//! discovery with a shared visited set, album and track enumeration over
//! paging cursors, and a deterministic reducer from raw audio analysis to
//! fixed per-track feature rows. The process shell around it — files,
//! sockets, threads — lives outside this crate and drives these functions.

pub mod album_crawl;
pub mod album_types;
pub mod artist_crawl;
pub mod artist_types;
pub mod client;
pub mod common_types;
pub mod features;
pub mod fetch;
pub mod numtext;
pub mod textops;
pub mod track_crawl;
pub mod track_crawl_2;
pub mod track_types;
pub mod urls;
