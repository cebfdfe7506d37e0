pub mod cli;
pub mod config;
pub mod consts;
pub mod entries;
pub mod managers;
pub mod naming;
pub mod pipeline;
pub mod protocol;
pub mod text;
pub mod types;
pub mod uci;
pub mod validator;
