//! A client for the REST interface of an Aptos full node: the requests that
//! each command of the tool stands for, and what a response to one means.
pub mod client;
pub mod command;
pub mod json;
pub mod text;
