//! Moves a file between devices with no network link: the bytes are
//! compressed, sealed under a password-derived key, framed with their nonce
//! and cut into base64 chunks that an operator carries across as text or QR
//! codes; the receiving side collects the chunks and undoes each stage.

pub mod codec;
pub mod cipher;
pub mod frame;
pub mod transport;
pub mod collector;
pub mod scanner;
pub mod transfer;
