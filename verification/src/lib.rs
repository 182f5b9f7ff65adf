//! A verified core for a proxy that offers the OpenAI image generation API on top of a ComfyUI
//! backend.
//!
//! The library holds what the proxy decides and computes: how a request is translated into a
//! workflow, how a job is followed until its images can be fetched, and what the client is
//! answered. It performs no input or output of its own.
pub mod config;
pub mod document;
pub mod encoding;
pub mod headers;
pub mod history;
pub mod json;
pub mod payload;
pub mod proxy;
pub mod session;
pub mod text;
pub mod workflows;
pub mod ws;
