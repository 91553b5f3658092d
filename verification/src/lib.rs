//! Verified core of the imbolc audio workstation: the session model and the
//! dispatchers that change it, the signal chains the engine builds, voice
//! allocation, the integer side of playback, and audio thread telemetry.
pub mod names;
pub mod telemetry;
pub mod engine;
pub mod state;
pub mod action;
pub mod bus;
pub mod dispatch;
pub mod mixer;
pub mod instrument;
pub mod sequencer;
pub mod chopper;
pub mod piano_roll;
pub mod arrangement;
pub mod automation;
pub mod routing;
pub mod audio_feedback;
pub mod voice_allocator;
pub mod session;
pub mod playback;
pub mod domain;
pub mod server;
pub mod audio_thread;
pub mod properties;
