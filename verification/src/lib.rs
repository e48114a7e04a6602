//! A password vault that hides each platform's secret in the alpha channel of a picture.
//!
//! One master password unlocks the vault. Every platform of the registry names a
//! picture, and the alpha values of that picture, read row by row, spell the
//! platform's secret; pixels that carry nothing hold the value 255.
//!
//! - `codec`: secrets as text and as bytes.
//! - `embedder`: bytes into the alpha channel of a picture and out of it.
//! - `registry`: the master password and the platforms with their pictures.
//! - `document`: the registry as a JSON document.
//! - `controller`: the lock, and the operations behind it.
//! - `json`, `json_text`: JSON values, and their text through `serde_json`.
//! - `names`: comparing names without regard to letter case.
//! - `error`: what can go wrong.

pub mod codec;
pub mod controller;
pub mod document;
pub mod embedder;
pub mod error;
pub mod json;
pub mod json_text;
pub mod names;
pub mod registry;
