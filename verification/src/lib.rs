//! The front end of an assembler for a stack machine: source text becomes a
//! typed tree of instructions and control flow, and the tree has a binary
//! form that is read back as the same tree.

pub mod adv_ops;
pub mod blocks;
pub mod errors;
pub mod felt;
pub mod format;
pub mod hash;
pub mod instructions;
pub mod io_ops;
pub mod laws;
pub mod nodes;
pub mod parsed;
pub mod plain_ops;
pub mod proc_ops;
pub mod procs;
pub mod program;
pub mod roundtrip;
pub mod serde;
pub mod stack_ops;
pub mod text;
pub mod tokens;
pub mod wire;

pub use adv_ops::{parse_adv_inject, parse_checked_param};
pub use blocks::{parse_body, parse_node};
pub use errors::{DecodeError, ParsingError};
pub use felt::{Felt, MODULUS};
pub use instructions::parse_instruction;
pub use io_ops::{parse_element_param, parse_loc_load, parse_loc_store, parse_push};
pub use nodes::{AdviceInjectorNode, Instruction, Node, ProcedureAst};
pub use plain_ops::parse_plain;
pub use proc_ops::{parse_invocation, ParserContext};
pub use procs::ProcMap;
pub use program::{parse_module, parse_program, ModuleAst, ProgramAst};
pub use stack_ops::{
    parse_dup, parse_dupw, parse_movdn, parse_movdnw, parse_movup, parse_movupw, parse_swap,
    parse_swapw,
};
pub use tokens::{tokenize, Token};
