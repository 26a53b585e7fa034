pub mod assets;
pub mod text;
pub mod icon;
pub mod ip;
pub mod token;
pub mod urls;
pub mod keyboard;
pub mod paste;
pub mod qr;
pub mod server;
