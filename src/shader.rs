use vstd::prelude::*;

verus! {

/// The first word of a SPIR-V module, read in the module's own byte order.
pub const SPV_MAGIC: u32 = 0x0723_0203;

/// The magic word as it reads when the module's byte order is the other one.
pub const SPV_MAGIC_SWAPPED: u32 = 0x0302_2307;

#[derive(Clone, Copy, Debug, PartialEq, Eq, Structural)]
pub enum ShaderError {
    /// The bytes are not whole 32-bit words opening with the SPIR-V magic word.
    InvalidSpirv,
}

/// Word `i` of `b`, little-endian.
pub open spec fn le_word(b: Seq<u8>, i: int) -> int {
    b[4 * i] + 256 * b[4 * i + 1] + 65536 * b[4 * i + 2] + 16777216 * b[4 * i + 3]
}

/// Word `i` of `b`, big-endian.
pub open spec fn be_word(b: Seq<u8>, i: int) -> int {
    b[4 * i + 3] + 256 * b[4 * i + 2] + 65536 * b[4 * i + 1] + 16777216 * b[4 * i]
}

/// Whole words, the first of them the magic word in either byte order.
pub open spec fn is_spirv(b: Seq<u8>) -> bool {
    &&& b.len() % 4 == 0
    &&& b.len() >= 4
    &&& (le_word(b, 0) == SPV_MAGIC || le_word(b, 0) == SPV_MAGIC_SWAPPED)
}

/// Word `i` of a module, in the byte order its magic word shows.
pub open spec fn spirv_word(b: Seq<u8>, i: int) -> int {
    if le_word(b, 0) == SPV_MAGIC {
        le_word(b, i)
    } else {
        be_word(b, i)
    }
}

pub open spec fn decodes_to(b: Seq<u8>, words: Seq<u32>) -> bool {
    &&& words.len() == b.len() / 4
    &&& forall|i: int| 0 <= i < words.len() ==> #[trigger] words[i] == spirv_word(b, i)
}

/// Relies on erupt::utils::decode_spv: it refuses bytes that are not whole
/// words or whose first word is not the magic word in either byte order, and
/// otherwise reads the words little-endian, swapping every word when the
/// first one reads as the swapped magic word.
#[verifier::external_body]
fn decode_spv_words(bytes: &[u8]) -> (r: Option<Vec<u32>>)
    ensures
        r is Some <==> is_spirv(bytes@),
        r matches Some(w) ==> decodes_to(bytes@, w@),
{
    match erupt::utils::decode_spv(bytes) {
        Ok(words) => Some(words),
        Err(_) => None,
    }
}

/// Turns a compiled shader binary into the words a shader module is built from.
pub fn load_shader_code(bytes: &Vec<u8>) -> (r: Result<Vec<u32>, ShaderError>)
    ensures
        r is Ok <==> is_spirv(bytes@),
        r matches Ok(w) ==> decodes_to(bytes@, w@),
        r is Err ==> r == Err::<Vec<u32>, ShaderError>(ShaderError::InvalidSpirv),
{
    match decode_spv_words(bytes.as_slice()) {
        Some(words) => Ok(words),
        None => Err(ShaderError::InvalidSpirv),
    }
}

} // verus!
