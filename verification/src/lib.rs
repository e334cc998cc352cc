//! Control-surface core for ESP32 "knob" hardware controllers.
//!
//! A knob is a small device with a 240x240 RGB565 LCD, a rotary encoder,
//! a button and a battery, polling this service over HTTP. This crate holds
//! the verified core: the device registry with lazily derived liveness,
//! the deterministic image-encoding pipeline, the idempotent control-event
//! router, and the protocol-level handlers that compose them. All I/O and
//! HTTP wiring live outside the crate and hand plain values in and out.

pub mod api;
pub mod cache;
pub mod html;
pub mod image;
pub mod router;
pub mod store;
