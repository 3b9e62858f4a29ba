//! The configuration of a web crawl and the rules by which a crawl takes a
//! discovered URL in: the blacklist that leaves URLs out by pattern, and the
//! budget that caps the pages visited under each first segment of a path.

pub mod admission;
pub mod blacklist;
pub mod budget;
pub mod configuration;
pub mod frontier;
pub mod quota;
pub mod segment;
pub mod text;
