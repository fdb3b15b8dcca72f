//! A code generator and launch planner for Tenstorrent devices.
pub mod arch;
pub mod bundle;
pub mod command;
pub mod compile;
pub mod connections;
pub mod context;
pub mod dataflow;
pub mod declarations;
pub mod detect;
pub mod device;
pub mod dialect;
pub mod error;
pub mod fence;
pub mod ir;
pub mod kernel;
pub mod kind;
pub mod launch;
pub mod math;
pub mod meaning;
pub mod messages;
pub mod metalium;
pub mod numbers;
pub mod planes;
pub mod positions;
pub mod profile;
pub mod program;
pub mod reader;
pub mod runtime;
pub mod scalar_writer;
pub mod server;
pub mod storage;
pub mod stream;
pub mod strides;
pub mod text;
pub mod tile_math;
pub mod topology;
pub mod warp;
pub mod wmma;
pub mod writer;
