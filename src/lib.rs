//! Optimization and annotation layer of a UI template compiler: patch flags,
//! static levels, slot flags, the runtime-helper collector and deferred
//! string values.

pub mod emit;
pub mod flags;
pub mod optimize;
pub mod text;
pub mod transform;
pub mod v_str;
