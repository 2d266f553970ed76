//! Verified core of a concentrated-liquidity automated market maker.
//!
//! The crate is organised bottom-up:
//! - `limbs`: exact multi-limb unsigned integer arithmetic, the foundation of
//!   every numeric type in the crate;
//! - `fp`: wide unsigned and signed fixed-point types with checked, exactly
//!   specified arithmetic;
//! - `tick`: the discretised price grid and the tick-to-price tables;
//! - `pool`: per-pool state: tick bookkeeping, positions, fees and swaps;
//! - `dex`: the orchestration layer tying accounts, pools and positions
//!   together.

pub mod limbs;
pub mod fp;
pub mod errors;
pub mod util_types;
pub mod tick;
pub mod pool_types;
pub mod tick_map;
pub mod kv_map;
pub mod kv_map128;
pub mod price;
pub mod pool;
pub mod pool_ops;
pub mod swap;
pub mod dex;
pub mod laws;

pub use limbs::limb_val;
