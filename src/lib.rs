pub mod alias;
pub mod env;
pub mod env_diff;
pub mod escape;
pub mod filter;
pub mod funcs;
pub mod script;
pub mod text;
