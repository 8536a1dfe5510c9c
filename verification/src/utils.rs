//! Building blocks shared by the portal modules.

pub mod constants;
pub mod crypt;
pub mod text;
