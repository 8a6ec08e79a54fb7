//! PixLab Desktop's Codex integration: the OAuth login with PKCE, the stored
//! tokens, the spritesheet generation request, and the reading of the event
//! stream that returns the image.
pub mod text;
pub mod json;
pub mod encoding;
pub mod events;
pub mod oauth;
pub mod login;
pub mod token;
pub mod codex;
pub mod generate;
