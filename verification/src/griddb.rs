pub mod artwork;
pub mod client;
