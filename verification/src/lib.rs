//! Dominant-colour extraction and correction for ambient lighting.
//!
//! Pixel samples are reduced to a small palette, made more vivid, arranged by a
//! selection mode, scaled in brightness and encoded as text for a lighting
//! actuator. Hue, saturation and value are held in fixed point: hue in
//! millionths of a degree, saturation and value in millionths of one.

pub mod units;
pub mod colors;
pub mod config;
pub mod correction;
pub mod color_conversion;
pub mod text;
pub mod errors;
pub mod capture;
pub mod extraction;
pub mod pipeline;
pub mod round_trip;
pub mod home_assistant;
pub mod control;

