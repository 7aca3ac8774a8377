pub mod array_ctrler;
pub mod struct_ctrler;

pub use array_ctrler::ArrayDataSMemCtrler;

pub use struct_ctrler::SMemCtrler;
