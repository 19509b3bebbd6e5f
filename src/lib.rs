//! Loading of `.env`-style configuration files into a case-insensitive
//! key/value store.

pub mod dotenv;
pub mod files;
pub mod line;
pub mod text;
pub mod vars;
