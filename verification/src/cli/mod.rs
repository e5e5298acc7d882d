//! The command-line logic: option checking, mode and scale resolution, layout
//! planning, saved profiles, completion, and the text formats that the tool
//! reads and writes.

pub mod apply;
pub mod brightness;
pub mod common;
pub mod complete;
pub mod completions;
pub mod modify;
pub mod monitors_xml;
pub mod query;
pub mod query_text;
