//! Shared memory name constants matching the C# BIDSSMemLib.
use vstd::prelude::*;

verus! {

/// BIDSSharedMemoryData
pub const BSMD: &'static str = "BIDSSharedMemory";

/// OpenD (OpenBVE extended data)
pub const OPEN_D: &'static str = "BIDSSharedMemoryO";

/// Panel data (int array)
pub const PANEL: &'static str = "BIDSSharedMemoryPn";

/// Sound data (int array)
pub const SOUND: &'static str = "BIDSSharedMemorySn";

/// Key input (128 bools)
pub const CTRL_KEY: &'static str = "BIDSSMemCtrlK";

/// Handle input (Hands struct)
pub const CTRL_HAND: &'static str = "BIDSSMemCtrlH";

} // verus!
