//! PoE port control for MikroTik boards: the SPI frame protocol, the decoding of
//! controller replies, the UCI configuration plans and the text rendering, each
//! with its contract.

pub mod board;
pub mod command;
pub mod error;
pub mod output;
pub mod poe;
pub mod rawsend;
pub mod spi;
pub mod text;
pub mod uci;
