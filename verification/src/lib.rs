//! A savings-and-accrual ledger.
//!
//! Users join a pool, open named savings by depositing value, earn points
//! from an interest formula fed by pool-wide figures, may top a saving up and
//! may withdraw it, in full once it has matured or cut by a penalty before.
//! Every operation takes the caller, the attached value and the time as plain
//! arguments, so a ledger is an ordinary value that a host drives.
pub mod accrual;
pub mod address;
pub mod assoc;
pub mod constants;
pub mod errors;
pub mod laws;
pub mod ledger;
pub mod uint;
pub mod user_data;

pub use address::Address;
pub use ledger::{Bitsave, Transfer};
pub use errors::BitsaveErrors;
pub use uint::U256;
pub use user_data::{SavingData, SavingEntry, UserData};
