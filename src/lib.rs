pub mod decode;
pub mod laws;
pub mod payload;
pub mod raw;
pub mod session;
pub mod text;
pub mod tree;

pub use decode::decode_tree;
pub use raw::{RawRecord, RawTree};
pub use session::{OPEN_FAILURE_STATUS, check_open, marshal_path};
pub use tree::{Cfg, CfgData, Fault, Meta};
