//! What holds of the library as a whole.

pub mod device;
pub mod hybrid;
pub mod line;
pub mod machine;
pub mod messages;
pub mod player;
pub mod protocol;
pub mod settings;
pub mod spectrum;
pub mod text;
pub mod times;
pub mod views;
pub mod watching;
