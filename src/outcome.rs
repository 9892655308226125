//! What a compile or link step comes to, given the status and the
//! diagnostic log that the graphics API reported.

use vstd::prelude::*;
use vstd::utf8::{decode_utf8, valid_utf8};

use crate::gl_consts::{gl_true, TRUE_ENUM};

verus! {

/// Why a shader stage or a program could not be built.
#[derive(Debug)]
pub enum ShaderError {
    /// A stage failed to compile; the text is the implementation's log.
    Compile(String),
    /// A program failed to link; the text is the implementation's log.
    Link(String),
    /// Building failed and the log was not valid UTF-8.
    InvalidLog,
}

/// Relies on std::str::from_utf8: it succeeds exactly on valid UTF-8, and
/// the text it gives is what the bytes encode.
#[verifier::external_body]
fn utf8_text(bytes: &[u8]) -> (r: Option<String>)
    ensures
        r is Some <==> valid_utf8(bytes@),
        r matches Some(t) ==> t@ == decode_utf8(bytes@),
{
    std::str::from_utf8(bytes).ok().map(|t| t.to_string())
}

/// Whether a compile or link status query reported success.
pub fn is_success(status: i32) -> (r: bool)
    ensures
        r == (status == TRUE_ENUM),
{
    status == gl_true()
}

/// The result of compiling `shader`, which reported `status` and, on
/// failure, the diagnostic `log`.
pub fn compile_outcome(shader: u32, status: i32, log: &[u8]) -> (r: Result<u32, ShaderError>)
    ensures
        status == TRUE_ENUM ==> r == Ok::<u32, ShaderError>(shader),
        status != TRUE_ENUM && valid_utf8(log@) ==> (r matches Err(ShaderError::Compile(t))
            && t@ == decode_utf8(log@)),
        status != TRUE_ENUM && !valid_utf8(log@) ==> r matches Err(ShaderError::InvalidLog),
{
    if is_success(status) {
        Ok(shader)
    } else {
        match utf8_text(log) {
            Some(t) => Err(ShaderError::Compile(t)),
            None => Err(ShaderError::InvalidLog),
        }
    }
}

/// The result of linking `program`, which reported `status` and, on
/// failure, the diagnostic `log`.
pub fn link_outcome(program: u32, status: i32, log: &[u8]) -> (r: Result<u32, ShaderError>)
    ensures
        status == TRUE_ENUM ==> r == Ok::<u32, ShaderError>(program),
        status != TRUE_ENUM && valid_utf8(log@) ==> (r matches Err(ShaderError::Link(t))
            && t@ == decode_utf8(log@)),
        status != TRUE_ENUM && !valid_utf8(log@) ==> r matches Err(ShaderError::InvalidLog),
{
    if is_success(status) {
        Ok(program)
    } else {
        match utf8_text(log) {
            Some(t) => Err(ShaderError::Link(t)),
            None => Err(ShaderError::InvalidLog),
        }
    }
}

} // verus!
