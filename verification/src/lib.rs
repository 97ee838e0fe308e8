//! The HTTP edge of ce-net, as what it decides: which content answers a request, how it may be
//! cached, what the hub is asked and what is kept of its replies, and what is published.

pub mod bundle;
pub mod config;
pub mod html;
pub mod json;
pub mod laws;
pub mod outcome;
pub mod path;
pub mod publish;
pub mod reply;
pub mod request;
pub mod resolve;
pub mod serve;
pub mod table;
pub mod text;
