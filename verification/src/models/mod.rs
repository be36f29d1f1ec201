pub mod meme;
