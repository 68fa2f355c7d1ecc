//! FarmScript - Human-friendly expression language for Product-FARM
//!
//! FarmScript compiles to JSON Logic for execution, providing a natural
//! syntax for writing business rules and expressions.
//!
//! # Example
//! ```text
//! // FarmScript
//! alert_acknowledged and time_since_alert_secs < 120
//!
//! // Compiles to JSON Logic
//! {"and": [{"var": "alert_acknowledged"}, {"<": [{"var": "time_since_alert_secs"}, 120]}]}
//! ```
//!
//! # Features
//!
//! - Natural language operators: `is`, `isnt`, `equals`, `same_as`
//! - Path-style variables: `/users/count`
//! - Safe division: `a /? b` (returns 0), `a /! b` (returns null)
//! - Template strings: `` `Hello {name}!` ``
//! - SQL-like queries: `from items where x > 0 select x * 2`
//! - Method chaining: `items.filter(x => x > 0).map(x => x * 2)`
//! - Truthy check: `x?`
//! - Null coalescing: `a ?? b`

use vstd::prelude::*;

pub mod token;
pub mod lexer;
pub mod ast;
pub mod parser;
pub mod compiler;
pub mod builtins;

use crate::farmscript::compiler::{
    json_result_view, spec_compile, CompileError, CompileOptions, Compiler, SpecCompileError,
};
use crate::farmscript::lexer::Lexer;
use crate::farmscript::parser::{parse_error_text, spec_parse_source, Parser};
use crate::json::{Json, SpecJson};

verus! {

/// What compiling a source text gives: its parse, compiled, or the parse
/// error as a compilation error.
pub open spec fn spec_compile_source(cs: Seq<char>) -> Result<SpecJson, SpecCompileError> {
    match spec_parse_source(cs) {
        Ok(ast) => spec_compile(ast),
        Err(e) => Err(SpecCompileError::ParseError(parse_error_text(e))),
    }
}

/// Compile FarmScript source to JSON Logic
pub fn compile(source: &str) -> (r: Result<Json, CompileError>)
    ensures
        json_result_view(r) == spec_compile_source(source@),
{
    compile_with_options(source, &CompileOptions::default())
}

/// Compile FarmScript source to JSON Logic with options
pub fn compile_with_options(source: &str, options: &CompileOptions) -> (r: Result<Json, CompileError>)
    ensures
        json_result_view(r) == spec_compile_source(source@),
{
    let lexer = Lexer::new(source);
    let parser = Parser::new(lexer);
    let ast = match parser.parse() {
        Ok(ast) => ast,
        Err(e) => {
            return Err(CompileError::from_parse_error(e));
        },
    };
    let compiler = Compiler::new(options.clone());
    compiler.compile(&ast)
}

} // verus!
