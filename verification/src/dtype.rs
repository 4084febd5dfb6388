//! The data types a tensor's elements can have, and how many bits one takes in memory.
use burn_backend::cubecl::dtype_to_storage_type;
use burn_std::{
    BoolStore as OutBool, DType as OutDType, QuantScheme as OutScheme, QuantStore as OutStore,
    QuantValue as OutValue,
};
use vstd::prelude::*;

verus! {

/// How boolean values are stored.
#[derive(Clone, Copy, Debug, PartialEq, Eq, Hash)]
pub enum BoolStore {
    Native,
    U8,
    U32,
}

/// How a quantized value is read.
#[derive(Clone, Copy, Debug, PartialEq, Eq, Hash)]
pub enum QuantValue {
    Q8F,
    E5M2,
    E4M3,
    Q4F,
    E2M1,
    Q2F,
    Q8S,
    Q4S,
    Q2S,
}

/// How quantized values are laid out in memory. A packed layout names the dimension that it packs.
#[derive(Clone, Copy, Debug, PartialEq, Eq, Hash)]
pub enum QuantStore {
    Native,
    PackedNative(usize),
    PackedU32(usize),
}

/// How a stored field becomes a number.
#[derive(Clone, Copy, Debug, PartialEq, Eq, Hash)]
pub enum QuantMode {
    Symmetric,
    Lookup,
}

/// The data type of the scales of one level.
#[derive(Clone, Copy, Debug, PartialEq, Eq, Hash)]
pub enum ScaleDtype {
    F32,
    F16,
    BF16,
    UE8M0,
    UE4M3,
}

/// One scale per block of values; the first `dims` entries of `size` are the block's shape.
#[derive(Clone, Copy, Debug, PartialEq, Eq, Hash)]
pub struct BlockScale {
    pub size: [u8; 5],
    pub dims: u8,
    pub dtype: ScaleDtype,
}

/// How a quantized tensor is stored and scaled.
#[derive(Clone, Copy, Debug, PartialEq, Eq, Hash)]
pub struct QuantScheme {
    pub value: QuantValue,
    pub store: QuantStore,
    pub mode: QuantMode,
    pub tensor_scale: Option<ScaleDtype>,
    pub block_scale: Option<BlockScale>,
}

/// The data type of a tensor's elements.
#[derive(Clone, Copy, Debug, PartialEq, Eq, Hash)]
pub enum DType {
    F64,
    F32,
    Flex32,
    F16,
    BF16,
    I64,
    I32,
    I16,
    I8,
    U64,
    U32,
    U16,
    U8,
    Bool(BoolStore),
    QFloat(QuantScheme),
}

impl QuantScheme {
    /// Whether a value of this scheme can be stored: a value narrower than a byte needs a packed
    /// layout, and only one kind of value has a native one.
    pub open spec fn storable(self) -> bool {
        match self.store {
            QuantStore::Native => match self.value {
                QuantValue::Q8F | QuantValue::Q8S | QuantValue::E4M3 | QuantValue::E5M2 => true,
                _ => false,
            },
            QuantStore::PackedNative(_) => self.value == QuantValue::E2M1,
            QuantStore::PackedU32(_) => true,
        }
    }
}

impl DType {
    /// Whether an element of this type can be stored at all.
    pub open spec fn storable(self) -> bool {
        self matches DType::QFloat(scheme) ==> scheme.storable()
    }

    /// How many bits the stored element takes.
    pub open spec fn bits(self) -> int {
        match self {
            DType::F64 | DType::I64 | DType::U64 => 64,
            DType::F32 | DType::Flex32 | DType::I32 | DType::U32 => 32,
            DType::F16 | DType::BF16 | DType::I16 | DType::U16 => 16,
            DType::I8 | DType::U8 => 8,
            DType::Bool(BoolStore::U32) => 32,
            DType::Bool(_) => 8,
            DType::QFloat(scheme) => if scheme.store is PackedU32 {
                32
            } else {
                8
            },
        }
    }
}

/// Calls `burn_backend::cubecl::dtype_to_storage_type` and `cubecl::ir::ElemType::size_bits` on a
/// data type that is not quantized: the first picks the element type that holds it, the second
/// says how many bits that takes.
#[verifier::external_body]
fn plain_bits(dtype: DType) -> (bits: usize)
    requires
        !(dtype is QFloat),
    ensures
        bits == dtype.bits(),
{
    let dtype = match dtype {
        DType::F64 => OutDType::F64, DType::F32 => OutDType::F32, DType::F16 => OutDType::F16,
        DType::Flex32 => OutDType::Flex32, DType::BF16 => OutDType::BF16,
        DType::I64 => OutDType::I64, DType::I32 => OutDType::I32,
        DType::I16 => OutDType::I16, DType::I8 => OutDType::I8,
        DType::U64 => OutDType::U64, DType::U32 => OutDType::U32,
        DType::U16 => OutDType::U16, DType::U8 => OutDType::U8,
        DType::Bool(BoolStore::Native) => OutDType::Bool(OutBool::Native),
        DType::Bool(BoolStore::U8) => OutDType::Bool(OutBool::U8),
        DType::Bool(BoolStore::U32) => OutDType::Bool(OutBool::U32),
        DType::QFloat(_) => OutDType::QFloat(OutScheme::default()),
    };
    dtype_to_storage_type(dtype).size_bits()
}

/// Calls `burn_backend::cubecl::dtype_to_storage_type` and `cubecl::ir::ElemType::size_bits` on a
/// quantized data type. The first reads the layout and the kind of value alone, and panics on a
/// value that the layout cannot hold.
#[verifier::external_body]
fn quantized_bits(scheme: QuantScheme) -> (bits: usize)
    requires
        scheme.storable(),
    ensures
        bits == DType::QFloat(scheme).bits(),
{
    let store = match scheme.store {
        QuantStore::Native => OutStore::Native,
        QuantStore::PackedNative(dim) => OutStore::PackedNative(dim),
        QuantStore::PackedU32(dim) => OutStore::PackedU32(dim),
    };
    let value = match scheme.value {
        QuantValue::Q8F => OutValue::Q8F, QuantValue::Q8S => OutValue::Q8S,
        QuantValue::Q4F => OutValue::Q4F, QuantValue::Q4S => OutValue::Q4S,
        QuantValue::Q2F => OutValue::Q2F, QuantValue::Q2S => OutValue::Q2S,
        QuantValue::E5M2 => OutValue::E5M2, QuantValue::E4M3 => OutValue::E4M3,
        QuantValue::E2M1 => OutValue::E2M1,
    };
    let scheme = OutScheme::default().with_store(store).with_value(value);
    dtype_to_storage_type(OutDType::QFloat(scheme)).size_bits()
}

impl DType {
    /// How many bits the stored element takes.
    pub fn size_bits(self) -> (bits: usize)
        requires
            self.storable(),
        ensures
            bits == self.bits(),
    {
        match self {
            DType::QFloat(scheme) => quantized_bits(scheme),
            _ => plain_bits(self),
        }
    }
}

/// A plain element takes the bits that its type is named after, a boolean a byte or a word.
pub proof fn law_plain_elements_take_their_own_bits(dtype: DType)
    ensures
        dtype is F64 || dtype is I64 || dtype is U64 ==> dtype.bits() == 64,
        dtype is F32 || dtype is Flex32 || dtype is I32 || dtype is U32 ==> dtype.bits() == 32,
        dtype is F16 || dtype is BF16 || dtype is I16 || dtype is U16 ==> dtype.bits() == 16,
        dtype is I8 || dtype is U8 ==> dtype.bits() == 8,
        dtype is Bool ==> dtype.bits() == if dtype->Bool_0 is U32 {
            32int
        } else {
            8
        },
{
}

/// How many bits a quantized element takes is decided by its layout alone: a packed word takes 32,
/// whichever dimension it packs, and everything else a byte. Neither scales nor mode matter.
pub proof fn law_quantized_bits_follow_the_layout(scheme: QuantScheme, other: QuantScheme)
    ensures
        DType::QFloat(scheme).bits() == if scheme.store is PackedU32 {
            32int
        } else {
            8
        },
        (scheme.store is PackedU32 <==> other.store is PackedU32) ==> DType::QFloat(scheme).bits()
            == DType::QFloat(other).bits(),
{
}

} // verus!
