pub mod controller;
pub mod ctrl_input;
pub mod error;
pub mod pod;
pub mod smem;
pub mod smem_lib;
pub mod types;

pub use ctrl_input::CtrlInput;
pub use error::{SMemError, SMemResult};
pub use pod::PodValue;
pub use smem::{SMemIF, SMemIFExt};
pub use smem_lib::SMemLib;
pub use types::{
    names, BIDSSharedMemoryData, Hand, Hands, OpenD, PreTrainD, Spec, State, PAGE_SIZE, VERSION,
};
