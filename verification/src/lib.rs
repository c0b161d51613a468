//! A decoder for TNEF, the binary container in which legacy mail clients
//! bundle a message's metadata, its MAPI properties and its attachments.

pub mod bytes;
pub mod error;
pub mod laws;
pub mod mapi;
pub mod source;
pub mod tnef;
pub mod utils;
pub mod wire;

pub use crate::error::{TNEFError, TNEFResult};
pub use crate::mapi::MAPIProperty;
pub use crate::tnef::{TNEFAttachment, TNEFFile};
pub use crate::wire::TNEFAttachmentRenderData;
