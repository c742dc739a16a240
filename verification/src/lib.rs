//! Backs up the tracks liked in Yandex Music to Evernote, one note per track.

pub mod audio;
pub mod config;
pub mod double;
pub mod enrichment;
pub mod escape;
pub mod evernote_client;
pub mod json;
pub mod note;
pub mod sequences;
pub mod state;
pub mod sync;
pub mod text;
pub mod timestamp;
pub mod views;
pub mod yandex;
