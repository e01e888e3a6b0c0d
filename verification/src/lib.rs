//! Control plane for an Art-Net LED installation: frame serialisation,
//! control-port display diffing, LFO-to-effect mapping and sender health.

pub mod artnet;
pub mod clock;
pub mod control_port;
pub mod controller;
pub mod display;
pub mod leds;
pub mod mapping;
pub mod message;
pub mod osc;
pub mod sender_monitor;
pub mod text;
pub mod web;
