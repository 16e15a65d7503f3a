//! The protocol layer of a controller for the display panel of a
//! liquid-cooling device: the frame codec, the command message format and the
//! rules that order the commands of one session.

pub mod app_state;
pub mod commands;
pub mod data;
pub mod error;
pub mod frame;
pub mod json;
pub mod parse;
pub mod screen_setup;
pub mod session;
pub mod sysinfo;
pub mod text;
pub mod transfer;

pub use app_state::AioCoolerApp;
pub use commands::{media_delete_body, screen_config_body};
pub use data::{build_message, command_frame, command_frame_at, CommandMessage, ContentType};
pub use error::ProtocolError;
pub use frame::{
    build_frame, calc_crc, decode_frame, escape_data, unescape_data, ESCAPE_MARKER, FRAME_MARKER,
    MAX_PAYLOAD,
};
pub use screen_setup::{verify_remote_size, AioCoolerController, ScreenConfig};
pub use session::{Session, SessionAction, SessionReply};
pub use sysinfo::{DiskInfo, FanInfo, MemoryInfo, MotherboardInfo, NetworkInfo};
pub use text::hex_string;
pub use transfer::{AppMessage, ImageFile, Transfer, TransferAction, TransferReply};
