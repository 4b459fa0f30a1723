//! What holds of the codec as a whole.
pub mod bodies;
pub mod conversation;
pub mod fields;
pub mod ids;
pub mod keys;
pub mod parts;
pub mod pieces;
pub mod reading;
pub mod request;
pub mod response;
pub mod tools;
pub mod views;
pub mod writing;
