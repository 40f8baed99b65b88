//! isocore: the isopack self-describing binary format (a cursor over
//! borrowed or streamed bytes, a decoder and an encoder), and the plain-data
//! core of the exorun component runtime: identifiers, component-model values
//! and their isopack form, the ledger of a component's imports with its
//! wire-safety check, the lifecycle and request bookkeeping of RPC peers, and
//! the host components.

pub mod types;
pub mod wire;
pub mod cursor;
pub mod text;
pub mod decoder;
pub mod encoder;
pub mod laws;
pub mod ids;
pub mod transport;
pub mod calls;
pub mod peer;
pub mod client;
pub mod name_map;
pub mod kv;
pub mod ledger;
pub mod system;
pub mod value;
pub mod host;

pub use crate::types::{Tag, Error, Result};
pub use crate::cursor::{Cursor, CursorView, Location, StreamBuffer};
pub use crate::decoder::{Decoder, ListDecoder, MapDecoder, ArrayDecoder, ValueDecoder, RecordDecoder};
pub use crate::encoder::{Encoder, ListEncoder, MapEncoder, MapValueEncoder, RecordEncoder};
pub use crate::encoder::{ArrayEncoder, RecordBodyEncoder};
pub use crate::ids::{ComponentId, PeerId, InstanceId, PeerInstance, RemoteTarget};
pub use crate::peer::{Peer, PeerConfig, PeerState};
pub use crate::kv::Kv;
pub use crate::ledger::{Ledger, InterfaceSchema, FunctionSignature, WireType};
pub use crate::system::{SystemTarget, WasiSystem};
pub use crate::host::{HostInstance, Logger, Wasi};
pub use crate::transport::CallTransport;
pub use crate::value::{WireVal, encode_val, decode_val};
