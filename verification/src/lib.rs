//! Conversion of Burp Suite XML exports into URL and request records, and the
//! decisions of uploading those records to a PocketBase instance.

pub mod bindings;
pub mod headers;
pub mod message;
pub mod models;
pub mod parser;
pub mod pocketbase;
pub mod text;
pub mod upload;
