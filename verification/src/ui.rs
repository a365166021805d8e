pub mod log;
pub mod settings;
pub mod nonsteam_manager;
pub mod artwork_picker;
