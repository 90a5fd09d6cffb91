//! Links the files of a settings directory into a home directory, as the
//! directory's `manifest.toml` lists them: validation of the directory and
//! its manifest, and the installer's decision for each listed item.
pub mod heyho;
pub mod manifest;
pub mod preflight;
mod toml_doc;
