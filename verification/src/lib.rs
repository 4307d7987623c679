//! PeSIT E: protocol data units, session rules and transfer bookkeeping.

pub mod agreement_laws;
pub mod article;
pub mod builder;
pub mod builder_laws;
pub mod checkpoint;
pub mod client;
pub mod cluster;
pub mod compress;
pub mod compress_laws;
pub mod connector;
pub mod crc;
pub mod datapath;
pub mod diag;
pub mod ebcdic;
pub mod error;
pub mod exchange;
pub mod file_laws;
pub mod fpdu;
pub mod fpdu_laws;
pub mod frame;
pub mod io;
pub mod kind;
pub mod layout_laws;
pub mod link;
pub mod message;
pub mod node;
pub mod outcome_laws;
pub mod params;
pub mod phase;
pub mod phase_laws;
pub mod pi;
pub mod receiver;
pub mod request_laws;
pub mod requester;
pub mod responder;
pub mod sender;
pub mod service;
pub mod session_laws;
pub mod state;
pub mod stream_laws;
pub mod text;
pub mod text_laws;
pub mod tls;
pub mod transfer_laws;
pub mod transport;
pub mod wire_laws;
