//! Data plane of a Bluetooth audio sink and source.

pub mod audio;
pub mod avrcp;
pub mod ble_midi;
pub mod bluez;
pub mod clock;
pub mod codec;
pub mod compat;
pub mod dcf;
pub mod dcf_server;
pub mod engine;
pub mod ffi;
pub mod hex;
pub mod lc3_ffi;
pub mod ring;
pub mod runtime;
pub mod sbc_ffi;
pub mod text;
pub mod transport;
pub mod wire;

pub use avrcp::{MediaPlayer, PlaybackInfo};
pub use bluez::MediaEndpoint;
pub use codec::{AudioCodec, CodecFrame};
pub use dcf::{DcfFrame, DcfHeader, DcfTransport};
pub use runtime::Runtime;
pub use transport::{AudioConfig, AudioPipeline, StreamDirection};
