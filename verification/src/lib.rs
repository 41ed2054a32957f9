//! Verified control logic of the multi-effect audio daemon.

pub mod mapping;
pub mod text;
pub mod device;
pub mod control;
pub mod preset;
pub mod snapshot;
pub mod command;
pub mod midi;
pub mod looper;
pub mod bounds;
pub mod ring_buffer;
pub mod chain;
pub mod json;
pub mod settings;
pub mod voices;
pub mod meta_edit;
