//! An HTTP edge server core: virtual-host and location routing, static file
//! decisions with conditional requests, upstream pools with load balancing and
//! health tracking, request gating, and response compression decisions.
pub mod compression;
pub mod config;
pub mod forward;
pub mod http2;
pub mod logging;
pub mod metrics;
pub mod named_map;
pub mod pipeline;
pub mod protocol;
pub mod proxy;
pub mod response;
pub mod router;
pub mod security;
pub mod ssl_cert_gen;
pub mod static_files;
pub mod text;
