pub mod app;
pub mod ascii;
pub mod base64;
pub mod digest;
pub mod hexcode;
pub mod html;
pub mod input;
pub mod json;
pub mod selection;
pub mod text;
