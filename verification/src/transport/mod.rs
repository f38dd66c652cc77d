//! Transports: the padding layer and the stream adapters beneath it.

pub mod h2;
pub mod h3;
pub mod padding;
pub mod pingora_session;
pub mod quiche_stream;
pub mod quiche_tls;
pub mod tls;
