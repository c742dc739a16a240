//! Links from a track to pages about it elsewhere.
pub mod client;
pub mod laws;
pub mod link_laws;
pub mod links;
pub mod lookup_laws;
pub mod lookups;
pub mod request_laws;
pub mod service_laws;
pub mod services;
pub mod urls;
