use conv_kernels::dtype::{
    BlockScale, BoolStore, DType, QuantMode, QuantScheme, QuantStore, QuantValue, ScaleDtype,
};

fn quantized(value: QuantValue, store: QuantStore) -> DType {
    DType::QFloat(QuantScheme {
        value,
        store,
        mode: QuantMode::Symmetric,
        tensor_scale: Some(ScaleDtype::F32),
        block_scale: None,
    })
}

#[test]
fn plain_elements_take_their_own_bits() {
    for (dtype, bits) in [
        (DType::F64, 64),
        (DType::F32, 32),
        (DType::Flex32, 32),
        (DType::F16, 16),
        (DType::BF16, 16),
        (DType::I64, 64),
        (DType::I32, 32),
        (DType::I16, 16),
        (DType::I8, 8),
        (DType::U64, 64),
        (DType::U32, 32),
        (DType::U16, 16),
        (DType::U8, 8),
        (DType::Bool(BoolStore::Native), 8),
        (DType::Bool(BoolStore::U8), 8),
        (DType::Bool(BoolStore::U32), 32),
    ] {
        assert_eq!(dtype.size_bits(), bits, "{dtype:?}");
    }
}

#[test]
fn native_quantized_elements_take_a_byte() {
    for value in [QuantValue::Q8F, QuantValue::Q8S, QuantValue::E4M3, QuantValue::E5M2] {
        assert_eq!(quantized(value, QuantStore::Native).size_bits(), 8, "{value:?}");
    }
}

#[test]
fn a_packed_native_pair_takes_a_byte() {
    assert_eq!(quantized(QuantValue::E2M1, QuantStore::PackedNative(0)).size_bits(), 8);
    assert_eq!(quantized(QuantValue::E2M1, QuantStore::PackedNative(3)).size_bits(), 8);
}

#[test]
fn packed_words_take_a_word() {
    for value in [
        QuantValue::Q8F,
        QuantValue::E5M2,
        QuantValue::E4M3,
        QuantValue::Q4F,
        QuantValue::E2M1,
        QuantValue::Q2F,
        QuantValue::Q8S,
        QuantValue::Q4S,
        QuantValue::Q2S,
    ] {
        assert_eq!(quantized(value, QuantStore::PackedU32(1)).size_bits(), 32, "{value:?}");
    }
}

#[test]
fn scales_do_not_change_the_bits() {
    let scheme = QuantScheme {
        value: QuantValue::Q8S,
        store: QuantStore::Native,
        mode: QuantMode::Lookup,
        tensor_scale: None,
        block_scale: Some(BlockScale { size: [32, 0, 0, 0, 0], dims: 1, dtype: ScaleDtype::F16 }),
    };
    assert_eq!(DType::QFloat(scheme).size_bits(), 8);
}
