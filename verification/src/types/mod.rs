pub mod bsmd;
pub mod hand;
pub mod hands;
pub mod names;
pub mod open_d;
pub mod spec;
pub mod state;

pub use bsmd::BIDSSharedMemoryData;
pub use hand::Hand;
pub use hands::Hands;
pub use open_d::{OpenD, PreTrainD};
pub use spec::Spec;
pub use state::State;

use vstd::prelude::*;

verus! {

/// Page size for shared memory allocation, matching the C# implementation.
pub const PAGE_SIZE: u64 = 4096;

/// Current BIDS data structure version.
pub const VERSION: i32 = 203;

} // verus!
