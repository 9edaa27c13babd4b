//! The integer types whose arithmetic can be checked, and their ranges.

use vstd::arithmetic::power2::{lemma2_to64, lemma2_to64_rest, pow2};
use vstd::prelude::*;
use vstd::string::StringSliceAdditionalSpecFns;
use vstd::utf8::encode_utf8_decode_utf8;

verus! {

/// One of the eight fixed-width integer types.
#[derive(Clone, Copy, Debug, PartialEq, Eq, Structural)]
pub enum IntKind {
    I8,
    I16,
    I32,
    I64,
    U8,
    U16,
    U32,
    U64,
}

/// The bit widths that the formulas are defined for.
pub open spec fn supported_width(width: nat) -> bool {
    width == 8 || width == 16 || width == 32 || width == 64
}

/// The least value of a `width`-bit integer: `-2^(width-1)` in two's
/// complement, `0` without a sign.
pub open spec fn min_value(signed: bool, width: nat) -> int
    recommends
        width >= 1,
{
    if signed {
        -(pow2((width - 1) as nat) as int)
    } else {
        0
    }
}

/// The greatest value of a `width`-bit integer: `2^(width-1) - 1` in two's
/// complement, `2^width - 1` without a sign.
pub open spec fn max_value(signed: bool, width: nat) -> int
    recommends
        width >= 1,
{
    if signed {
        pow2((width - 1) as nat) - 1
    } else {
        pow2(width) - 1
    }
}

/// Whether `value` can be represented in `width` bits.
pub open spec fn in_range(signed: bool, width: nat, value: int) -> bool {
    min_value(signed, width) <= value <= max_value(signed, width)
}

/// The value that machine arithmetic keeps of `value`: the one integer
/// congruent to it modulo `2^width` that `width` bits represent.
pub open spec fn wrap(signed: bool, width: nat, value: int) -> int
    recommends
        width >= 1,
{
    let residue = value % (pow2(width) as int);
    if signed && residue > max_value(true, width) {
        residue - pow2(width)
    } else {
        residue
    }
}

impl IntKind {
    /// Whether the type is a two's-complement type.
    pub open spec fn signed(self) -> bool {
        match self {
            IntKind::I8 | IntKind::I16 | IntKind::I32 | IntKind::I64 => true,
            IntKind::U8 | IntKind::U16 | IntKind::U32 | IntKind::U64 => false,
        }
    }

    /// The number of bits of the type.
    pub open spec fn bits(self) -> nat {
        match self {
            IntKind::I8 | IntKind::U8 => 8,
            IntKind::I16 | IntKind::U16 => 16,
            IntKind::I32 | IntKind::U32 => 32,
            IntKind::I64 | IntKind::U64 => 64,
        }
    }

    /// The name under which a program declares the type.
    pub open spec fn name(self) -> Seq<char> {
        match self {
            IntKind::I8 => "i8"@,
            IntKind::I16 => "i16"@,
            IntKind::I32 => "i32"@,
            IntKind::I64 => "i64"@,
            IntKind::U8 => "u8"@,
            IntKind::U16 => "u16"@,
            IntKind::U32 => "u32"@,
            IntKind::U64 => "u64"@,
        }
    }

    /// Whether `value` can be represented in the type.
    pub open spec fn holds(self, value: int) -> bool {
        in_range(self.signed(), self.bits(), value)
    }

    pub fn is_signed(self) -> (signed: bool)
        ensures
            signed == self.signed(),
    {
        match self {
            IntKind::I8 | IntKind::I16 | IntKind::I32 | IntKind::I64 => true,
            IntKind::U8 | IntKind::U16 | IntKind::U32 | IntKind::U64 => false,
        }
    }

    pub fn width(self) -> (width: u8)
        ensures
            width == self.bits(),
            supported_width(width as nat),
    {
        match self {
            IntKind::I8 | IntKind::U8 => 8,
            IntKind::I16 | IntKind::U16 => 16,
            IntKind::I32 | IntKind::U32 => 32,
            IntKind::I64 | IntKind::U64 => 64,
        }
    }
}

/// The type that a declared type name stands for, if it is one of the eight.
pub open spec fn kind_of(var_type: Seq<char>) -> Option<IntKind> {
    if var_type == IntKind::I8.name() {
        Some(IntKind::I8)
    } else if var_type == IntKind::I16.name() {
        Some(IntKind::I16)
    } else if var_type == IntKind::I32.name() {
        Some(IntKind::I32)
    } else if var_type == IntKind::I64.name() {
        Some(IntKind::I64)
    } else if var_type == IntKind::U8.name() {
        Some(IntKind::U8)
    } else if var_type == IntKind::U16.name() {
        Some(IntKind::U16)
    } else if var_type == IntKind::U32.name() {
        Some(IntKind::U32)
    } else if var_type == IntKind::U64.name() {
        Some(IntKind::U64)
    } else {
        None
    }
}

/// A declared type name stands for a type if and only if it is the name of
/// that type: the eight names are pairwise distinct.
pub proof fn lemma_kind_of(var_type: Seq<char>, kind: IntKind)
    ensures
        kind_of(var_type) == Some(kind) <==> var_type == kind.name(),
{
    reveal_strlit("i8");
    reveal_strlit("i16");
    reveal_strlit("i32");
    reveal_strlit("i64");
    reveal_strlit("u8");
    reveal_strlit("u16");
    reveal_strlit("u32");
    reveal_strlit("u64");
    assert("i8"@[0] == 'i' && "i16"@[0] == 'i' && "i32"@[0] == 'i' && "i64"@[0] == 'i');
    assert("u8"@[0] == 'u' && "u16"@[0] == 'u' && "u32"@[0] == 'u' && "u64"@[0] == 'u');
    assert("i16"@[1] == '1' && "i32"@[1] == '3' && "i64"@[1] == '6');
    assert("u16"@[1] == '1' && "u32"@[1] == '3' && "u64"@[1] == '6');
}

/// The ranges of the supported widths, written out.
pub proof fn lemma_ranges()
    ensures
        min_value(true, 8) == -0x80 && max_value(true, 8) == 0x7f,
        min_value(true, 16) == -0x8000 && max_value(true, 16) == 0x7fff,
        min_value(true, 32) == -0x8000_0000 && max_value(true, 32) == 0x7fff_ffff,
        min_value(true, 64) == -0x8000_0000_0000_0000 && max_value(true, 64)
            == 0x7fff_ffff_ffff_ffff,
        min_value(false, 8) == 0 && max_value(false, 8) == 0xff,
        min_value(false, 16) == 0 && max_value(false, 16) == 0xffff,
        min_value(false, 32) == 0 && max_value(false, 32) == 0xffff_ffff,
        min_value(false, 64) == 0 && max_value(false, 64) == 0xffff_ffff_ffff_ffff,
        pow2(8) == 0x100,
        pow2(16) == 0x1_0000,
        pow2(32) == 0x1_0000_0000,
        pow2(64) == 0x1_0000_0000_0000_0000,
{
    lemma2_to64();
    lemma2_to64_rest();
}

/// A name that is not two or three characters long, or starts with neither
/// `i` nor `u`, stands for no type.
pub proof fn lemma_kind_of_shape(var_type: Seq<char>)
    ensures
        kind_of(var_type) is Some ==> 2 <= var_type.len() <= 3 && (var_type[0] == 'i'
            || var_type[0] == 'u'),
{
    reveal_strlit("i8");
    reveal_strlit("i16");
    reveal_strlit("i32");
    reveal_strlit("i64");
    reveal_strlit("u8");
    reveal_strlit("u16");
    reveal_strlit("u32");
    reveal_strlit("u64");
    assert("i8"@.len() == 2 && "i16"@.len() == 3 && "i32"@.len() == 3 && "i64"@.len() == 3);
    assert("u8"@.len() == 2 && "u16"@.len() == 3 && "u32"@.len() == 3 && "u64"@.len() == 3);
    assert("i8"@[0] == 'i' && "i16"@[0] == 'i' && "i32"@[0] == 'i' && "i64"@[0] == 'i');
    assert("u8"@[0] == 'u' && "u16"@[0] == 'u' && "u32"@[0] == 'u' && "u64"@[0] == 'u');
}

/// Whether formulas are defined for the width.
pub fn is_supported_width(width: u8) -> (supported: bool)
    ensures
        supported == supported_width(width as nat),
{
    width == 8 || width == 16 || width == 32 || width == 64
}

/// The least value of a `width`-bit integer.
pub fn least(signed: bool, width: u8) -> (value: i128)
    requires
        supported_width(width as nat),
    ensures
        value == min_value(signed, width as nat),
{
    proof {
        lemma_ranges();
    }
    if !signed {
        0
    } else if width == 8 {
        -0x80
    } else if width == 16 {
        -0x8000
    } else if width == 32 {
        -0x8000_0000
    } else {
        -0x8000_0000_0000_0000
    }
}

/// The greatest value of a `width`-bit integer.
pub fn greatest(signed: bool, width: u8) -> (value: i128)
    requires
        supported_width(width as nat),
    ensures
        value == max_value(signed, width as nat),
{
    proof {
        lemma_ranges();
    }
    if width == 8 {
        if signed {
            0x7f
        } else {
            0xff
        }
    } else if width == 16 {
        if signed {
            0x7fff
        } else {
            0xffff
        }
    } else if width == 32 {
        if signed {
            0x7fff_ffff
        } else {
            0xffff_ffff
        }
    } else {
        if signed {
            0x7fff_ffff_ffff_ffff
        } else {
            0xffff_ffff_ffff_ffff
        }
    }
}

/// Whether two strings hold the same characters.
pub fn same_text(a: &str, b: &str) -> (same: bool)
    ensures
        same == (a@ == b@),
{
    let left = a.as_bytes();
    let right = b.as_bytes();
    proof {
        // The characters are what the bytes decode to.
        encode_utf8_decode_utf8(a@);
        encode_utf8_decode_utf8(b@);
    }
    let n: usize = left.len();
    if n != right.len() {
        return false;
    }
    let mut i: usize = 0;
    while i < n
        invariant
            i <= n,
            n == left@.len(),
            n == right@.len(),
            left@ == a.spec_bytes(),
            right@ == b.spec_bytes(),
            forall|j: int| 0 <= j < i ==> left@[j] == right@[j],
        decreases n - i,
    {
        if left[i] != right[i] {
            return false;
        }
        i = i + 1;
    }
    assert(left@ =~= right@);
    true
}

/// Classifies a declared type name: the type it stands for, or `None` for
/// any name but the eight (pointer-sized, 128-bit, floating point, ...).
pub fn classify(var_type: &str) -> (kind: Option<IntKind>)
    ensures
        kind == kind_of(var_type@),
{
    if same_text(var_type, "i8") {
        Some(IntKind::I8)
    } else if same_text(var_type, "i16") {
        Some(IntKind::I16)
    } else if same_text(var_type, "i32") {
        Some(IntKind::I32)
    } else if same_text(var_type, "i64") {
        Some(IntKind::I64)
    } else if same_text(var_type, "u8") {
        Some(IntKind::U8)
    } else if same_text(var_type, "u16") {
        Some(IntKind::U16)
    } else if same_text(var_type, "u32") {
        Some(IntKind::U32)
    } else if same_text(var_type, "u64") {
        Some(IntKind::U64)
    } else {
        None
    }
}

} // verus!
