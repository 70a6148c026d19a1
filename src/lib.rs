//! Query and mask coordination core of a Gaussian splatting viewer: the mask
//! expression language, single-assignment result cells, the export pipeline and
//! the per-frame interaction query state machine.
pub mod archive;
pub mod channel;
pub mod deferred;
pub mod export;
pub mod mask;
pub mod query;
pub mod tab;
pub mod text;
