//! Generation of SystemVerilog DPI-C glue and the matching Rust bindings for
//! a SystemVerilog module whose behaviour is implemented in Rust.
//!
//! The module's declaration is analysed (`parser::analyze_defs`), checked
//! (`parser::validate`), and turned into a SystemVerilog include file and a
//! Rust source file (`generator::generate`).

pub mod generator;
pub mod parser;
pub mod properties;
pub mod runtime;
pub mod syntax;
pub mod text;

use vstd::prelude::*;

use crate::generator::{
    generate, parses_as_rust_file, plain_names, pretty_printed, spec_generate_rs, spec_generate_sv, GenerateError, Output,
    SpecGenerateError,
};
use crate::parser::{validate, validate_outcome, spec_validate, is_valid, ParseResult, ValidateError};
use crate::properties::lemma_valid_can_generate;

verus! {

/// Why the code for a parsed module cannot be generated.
#[derive(Debug)]
pub enum BuildError {
    Validate(ValidateError),
    Generate(GenerateError),
}

/// Checks a parsed module and generates its SystemVerilog and Rust code.
pub fn build_output(parse_result: &ParseResult) -> (r: Result<Output, BuildError>)
    ensures
        r is Ok <==> is_valid(parse_result@) && parses_as_rust_file(spec_generate_rs(parse_result@))
            && plain_names(parse_result@),
        r matches Ok(out) ==> spec_generate_sv(parse_result@) == Ok::<Seq<char>, SpecGenerateError>(out.sv@)
            && out.rs@ == pretty_printed(spec_generate_rs(parse_result@)),
        r matches Err(BuildError::Validate(e)) ==> validate_outcome(Err(e)) == spec_validate(parse_result@),
        r matches Err(BuildError::Generate(e)) ==> is_valid(parse_result@) && e@ == if !parses_as_rust_file(
            spec_generate_rs(parse_result@),
        ) {
            SpecGenerateError::InvalidRust
        } else {
            SpecGenerateError::UnprintableRust
        },
{
    match validate(parse_result) {
        Err(e) => return Err(BuildError::Validate(e)),
        Ok(()) => {},
    }
    proof {
        lemma_valid_can_generate(parse_result@);
    }
    match generate(parse_result) {
        Ok(out) => Ok(out),
        Err(e) => Err(BuildError::Generate(e)),
    }
}

} // verus!
