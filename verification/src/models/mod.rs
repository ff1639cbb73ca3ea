//! The records that the repositories hold and hand out.

pub mod attachment;
pub mod comment;
pub mod document;
pub mod document_set;
pub mod event;
pub mod role;
pub mod set_version;
pub mod user;
pub mod version;
pub mod version_state;
