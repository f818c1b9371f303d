//! The interface description of Anchor programs from which the
//! `program_client` crate is generated.
use vstd::prelude::*;

verus! {

/// A name in the two spellings that the generated code needs.
pub struct IdlName {
    pub snake_case: String,
    pub upper_camel_case: String,
}

/// An instruction of a program.
pub struct IdlInstruction {
    pub name: IdlName,
}

/// The accounts struct that an instruction takes.
pub struct IdlAccountGroup {
    pub name: IdlName,
}

/// One program: its name, its id written as a Rust array expression of the
/// public key's bytes, and its instructions, each with its accounts struct.
pub struct IdlProgram {
    pub name: IdlName,
    pub id: String,
    pub instruction_account_pairs: Vec<(IdlInstruction, IdlAccountGroup)>,
}

/// The description of all programs of a project.
pub struct Idl {
    pub programs: Vec<IdlProgram>,
}

} // verus!
