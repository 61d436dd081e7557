pub mod address;
pub mod bytes;
pub mod compact;
pub mod config;
pub mod context;
pub mod error;
pub mod handshake;
pub mod json;
pub mod local;
pub mod net;
pub mod settings;
pub mod socks5;
pub mod stream;
pub mod string_vec;
pub mod text;
pub mod trojan;

pub use address::{Address, AddressDomain, IpAddr, SocketAddr};
pub use error::Error;
