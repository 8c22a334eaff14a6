//! HPACK header compression (RFC 7541) with its canonical Huffman codec.
pub mod decoder;
pub mod encoder;
pub mod huffman;
pub mod huffman_table;
pub mod primitives;
pub mod static_table;
pub mod table;

pub use decoder::Decoder;
pub use encoder::{Encoder, EncoderError, EncoderInput};
pub use huffman::{decode, encode, DecoderError, DecoderSpeed};
pub use table::Table;
