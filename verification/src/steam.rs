pub mod appid;
pub mod paths;
pub mod shortcuts;
pub mod library;
