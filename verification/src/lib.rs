//! Decision core of a Matter control client.

pub mod body;
pub mod chip_tool;
pub mod cli;
pub mod commission;
pub mod conn;
pub mod device_op;
pub mod diag;
pub mod discover;
pub mod engine;
pub mod enroll;
pub mod errmap;
pub mod error;
pub mod fabric;
pub mod group;
pub mod group_node;
pub mod group_settings;
pub mod iface_select;
pub mod json;
pub mod matd_client;
pub mod matd_stream;
pub mod native_direct;
pub mod op;
pub mod ops;
pub mod probe;
pub mod program;
pub mod resolve;
pub mod resolver;
pub mod rotate_ipk;
pub mod runner;
pub mod session;
pub mod text;
pub mod thread;
pub mod tlv;
pub mod units;
pub mod unpair;
