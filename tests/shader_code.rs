use hello_triangle::shader::{load_shader_code, ShaderError, SPV_MAGIC, SPV_MAGIC_SWAPPED};

#[test]
fn little_endian_module_decodes() {
    let bytes = vec![0x03, 0x02, 0x23, 0x07, 0x00, 0x00, 0x01, 0x00, 0x0b, 0x00, 0x0d, 0x00];
    assert_eq!(load_shader_code(&bytes), Ok(vec![SPV_MAGIC, 0x0001_0000, 0x000d_000b]));
}

#[test]
fn big_endian_module_is_swapped() {
    let bytes = vec![0x07, 0x23, 0x02, 0x03, 0x00, 0x01, 0x00, 0x00];
    assert_eq!(load_shader_code(&bytes), Ok(vec![SPV_MAGIC, 0x0001_0000]));
    assert_eq!(SPV_MAGIC_SWAPPED, SPV_MAGIC.swap_bytes());
}

#[test]
fn unaligned_bytes_refused() {
    let bytes = vec![0x03, 0x02, 0x23, 0x07, 0x00];
    assert_eq!(load_shader_code(&bytes), Err(ShaderError::InvalidSpirv));
}

#[test]
fn missing_magic_refused() {
    assert_eq!(load_shader_code(&vec![1, 2, 3, 4]), Err(ShaderError::InvalidSpirv));
    assert_eq!(load_shader_code(&vec![]), Err(ShaderError::InvalidSpirv));
}
