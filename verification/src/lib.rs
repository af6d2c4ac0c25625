//! Archive realignment for ZIP-format packages.
//!
//! The core of this crate reads a ZIP archive into an ordered sequence of
//! entry descriptors, rewrites the archive so that every entry's data begins
//! at a configurable byte alignment (padding is carried in each local
//! header's extra field), and can independently check whether an archive
//! already satisfies that property.  Around the core stand a few small
//! verified helpers used by the command-line shell: option-like containers,
//! text buffers, address parsing and path completion logic.

pub mod align_math;
pub mod entry;
pub mod layout;
pub mod engine;
pub mod check;
pub mod reader;
pub mod zipalign;
pub mod apk_utils;
pub mod grammar;
pub mod lua;
pub mod either;
pub mod string_buf;
pub mod cli;
pub mod ipv4;
pub mod adb;
pub mod completer;
