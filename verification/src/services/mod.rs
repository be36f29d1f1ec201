pub mod cache;
pub mod inventory;
pub mod meme;
pub mod reload;
