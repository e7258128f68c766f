//! What the library promises of its operations, stated over what goes in and
//! what comes out.
pub mod configuration;
pub mod images;
pub mod preparation;
pub mod rendering;
pub mod requests;
pub mod stages;
pub mod streams;
pub mod texts;
pub mod translation;
pub mod values;
