//! Verified core of the Lexiang knowledge-base command-line tool.

pub mod text;
pub mod ir;
pub mod emitter;
pub mod strmap;
pub mod schema;
pub mod catalog;
pub mod paths;
pub mod skill_gen;
pub mod cli_calls;
pub mod skill_build;
pub mod mdx_parse;
pub mod output;
pub mod cli_text;
pub mod blocks;
pub mod serve;
pub mod transport;
