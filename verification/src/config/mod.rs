pub mod key_names;
pub mod settings;
pub mod skins;
pub mod static_queue;
