//! Verified core of a webhook relay: timestamp-windowed HMAC signature
//! verification, JSON event classification, and dispatch planning.

pub mod classify;
pub mod hexcode;
pub mod hmac256;
pub mod json;
pub mod pipeline;
pub mod render;
pub mod request;
pub mod sigverify;
pub mod text;
