//! The OpenGL enumeration values the library hands to the graphics API.

use vstd::prelude::*;

verus! {

/// `GL_VERTEX_SHADER` in the OpenGL registry.
pub const VERTEX_SHADER_ENUM: u32 = 0x8B31;

/// `GL_FRAGMENT_SHADER` in the OpenGL registry.
pub const FRAGMENT_SHADER_ENUM: u32 = 0x8B30;

/// `GL_TRUE` in the OpenGL registry.
pub const TRUE_ENUM: i32 = 1;

/// Relies on gl::VERTEX_SHADER, generated from the registry entry
/// `<enum value="0x8B31" name="GL_VERTEX_SHADER"/>`.
#[verifier::external_body]
pub(crate) fn gl_vertex_shader() -> (r: u32)
    ensures
        r == VERTEX_SHADER_ENUM,
{
    gl::VERTEX_SHADER
}

/// Relies on gl::FRAGMENT_SHADER, generated from the registry entry
/// `<enum value="0x8B30" name="GL_FRAGMENT_SHADER"/>`.
#[verifier::external_body]
pub(crate) fn gl_fragment_shader() -> (r: u32)
    ensures
        r == FRAGMENT_SHADER_ENUM,
{
    gl::FRAGMENT_SHADER
}

/// Relies on gl::TRUE, generated from the registry entry
/// `<enum value="1" name="GL_TRUE"/>`, widened to the integer type of the
/// status queries.
#[verifier::external_body]
pub(crate) fn gl_true() -> (r: i32)
    ensures
        r == TRUE_ENUM,
{
    gl::TRUE as i32
}

} // verus!
