//! A feed-to-artifact content pipeline: ingests RSS/Atom feeds, converts each
//! new or updated entry into a packaged e-book artifact with cleaned article
//! markup and embedded images, and tracks processed entries so repeated runs
//! do no redundant work.

pub mod bytestr;
pub mod client;
pub mod epub;
pub mod error;
pub mod feed;
pub mod feedparse;
pub mod hash;
pub mod html;
pub mod mimetype;
pub mod pipeline;
pub mod selector;
pub mod settings;
pub mod store;
pub mod timefmt;
pub mod urlres;
