//! The verified core of Riff, a voice dictation tool.
//!
//! The user speaks; sentences are cut at natural pauses, transcribed, polished and shown as they
//! come; `Enter` inserts the whole text where the cursor is, `Esc` throws it away. This crate decides
//! all of that and does none of it: it takes in what happened, and says what is to be done. Each
//! function states what it returns, and the laws at the end of the modules state what holds of
//! several functions together.
//!
//! - [`audio`], [`recorder`], [`microphone`], [`wav`]: from the microphone to a file in memory.
//! - [`groq`], [`json`]: what Groq is asked, and what is made of its answers.
//! - [`dictation`]: the course of a dictation; [`course`]: what holds of it whatever happens.
//! - [`paste`], [`win`], [`island`], [`tray`], [`config`]: the desktop and the settings.
//! - [`text`]: trimming, searching and joining.

pub mod audio;
pub mod config;
pub mod course;
pub mod dictation;
pub mod groq;
pub mod island;
pub mod json;
pub mod microphone;
pub mod paste;
pub mod recorder;
pub mod text;
pub mod tray;
pub mod wav;
pub mod win;
