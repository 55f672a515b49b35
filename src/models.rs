//! The records delivered to the publishing API.
pub mod inscription;
