//! Notification-action pipeline of a desktop receiver: previews and markup
//! for pushed content, action dispatch, image decoding for the clipboard,
//! request admission, and local-address selection for service discovery.

pub mod decode;
pub mod discovery;
pub mod dispatch;
pub mod ingest;
pub mod payload;
pub mod registry;
pub mod text;
pub mod toast;
