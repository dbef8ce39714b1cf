//! DCode's runtime product selection, home-directory rules, DeepSeek provider
//! rules, the text-only vision preprocessor and the API-key login view,
//! specified and verified with Verus.

pub mod deepseek;
pub mod home;
pub mod login;
pub mod product;
pub mod text;
pub mod vision;
