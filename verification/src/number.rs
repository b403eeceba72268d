//! The numeric value model: a tagged union over the ten integer kinds
//! (signed and unsigned, widths 8 through 128).  A number's kind never
//! changes after construction; arithmetic and comparison demand identical
//! kinds on both sides, with no implicit widening.  Floating-point kinds
//! are outside this model: their arithmetic cannot be verified, so the
//! lexer rejects float-shaped literals instead of producing them.
use vstd::prelude::*;
use crate::error::{RuntimeError, RuntimeErrorV, res_v};

verus! {

/// The ten numeric kinds a `Number` can carry.
#[derive(Debug, Clone, Copy, PartialEq, Eq, Structural)]
pub enum NumKind {
    I8,
    I16,
    I32,
    I64,
    I128,
    U8,
    U16,
    U32,
    U64,
    U128,
}

/// A number: one machine integer tagged with its kind.
#[derive(Debug, Clone, Copy, PartialEq, Eq, Structural)]
pub enum Number {
    I8(i8),
    I16(i16),
    I32(i32),
    I64(i64),
    I128(i128),
    U8(u8),
    U16(u16),
    U32(u32),
    U64(u64),
    U128(u128),
}

/// Least value representable in kind `k`.
pub open spec fn kind_min(k: NumKind) -> int {
    match k {
        NumKind::I8 => i8::MIN as int,
        NumKind::I16 => i16::MIN as int,
        NumKind::I32 => i32::MIN as int,
        NumKind::I64 => i64::MIN as int,
        NumKind::I128 => i128::MIN as int,
        NumKind::U8 => 0,
        NumKind::U16 => 0,
        NumKind::U32 => 0,
        NumKind::U64 => 0,
        NumKind::U128 => 0,
    }
}

/// Greatest value representable in kind `k`.
pub open spec fn kind_max(k: NumKind) -> int {
    match k {
        NumKind::I8 => i8::MAX as int,
        NumKind::I16 => i16::MAX as int,
        NumKind::I32 => i32::MAX as int,
        NumKind::I64 => i64::MAX as int,
        NumKind::I128 => i128::MAX as int,
        NumKind::U8 => u8::MAX as int,
        NumKind::U16 => u16::MAX as int,
        NumKind::U32 => u32::MAX as int,
        NumKind::U64 => u64::MAX as int,
        NumKind::U128 => u128::MAX as int,
    }
}

/// Whether the mathematical value `v` fits kind `k`.
pub open spec fn in_range(k: NumKind, v: int) -> bool {
    kind_min(k) <= v && v <= kind_max(k)
}

/// The number of kind `k` holding value `v`; meaningful when
/// `in_range(k, v)`.
pub open spec fn num_of(k: NumKind, v: int) -> Number {
    match k {
        NumKind::I8 => Number::I8(v as i8),
        NumKind::I16 => Number::I16(v as i16),
        NumKind::I32 => Number::I32(v as i32),
        NumKind::I64 => Number::I64(v as i64),
        NumKind::I128 => Number::I128(v as i128),
        NumKind::U8 => Number::U8(v as u8),
        NumKind::U16 => Number::U16(v as u16),
        NumKind::U32 => Number::U32(v as u32),
        NumKind::U64 => Number::U64(v as u64),
        NumKind::U128 => Number::U128(v as u128),
    }
}

impl Number {
    /// The kind tag of this number.
    pub open spec fn kind(self) -> NumKind {
        match self {
            Number::I8(_) => NumKind::I8,
            Number::I16(_) => NumKind::I16,
            Number::I32(_) => NumKind::I32,
            Number::I64(_) => NumKind::I64,
            Number::I128(_) => NumKind::I128,
            Number::U8(_) => NumKind::U8,
            Number::U16(_) => NumKind::U16,
            Number::U32(_) => NumKind::U32,
            Number::U64(_) => NumKind::U64,
            Number::U128(_) => NumKind::U128,
        }
    }

    /// The mathematical value this number holds.
    pub open spec fn val(self) -> int {
        match self {
            Number::I8(v) => v as int,
            Number::I16(v) => v as int,
            Number::I32(v) => v as int,
            Number::I64(v) => v as int,
            Number::I128(v) => v as int,
            Number::U8(v) => v as int,
            Number::U16(v) => v as int,
            Number::U32(v) => v as int,
            Number::U64(v) => v as int,
            Number::U128(v) => v as int,
        }
    }

    /// The kind tag, as a runtime value.
    pub fn kind_x(self) -> (k: NumKind)
        ensures
            k == self.kind(),
    {
        match self {
            Number::I8(_) => NumKind::I8,
            Number::I16(_) => NumKind::I16,
            Number::I32(_) => NumKind::I32,
            Number::I64(_) => NumKind::I64,
            Number::I128(_) => NumKind::I128,
            Number::U8(_) => NumKind::U8,
            Number::U16(_) => NumKind::U16,
            Number::U32(_) => NumKind::U32,
            Number::U64(_) => NumKind::U64,
            Number::U128(_) => NumKind::U128,
        }
    }
}

/// Every number's value fits its own kind.
pub proof fn lemma_val_in_range(n: Number)
    ensures
        in_range(n.kind(), n.val()),
{
}

/// Constructing a number from an in-range value keeps kind and value.
pub proof fn lemma_num_of_val(k: NumKind, v: int)
    requires
        in_range(k, v),
    ensures
        num_of(k, v).kind() == k,
        num_of(k, v).val() == v,
{
}

/// Rebuilding a number from its own kind and value gives it back.
pub proof fn lemma_num_of_self(n: Number)
    ensures
        num_of(n.kind(), n.val()) == n,
{
}

/// Quotient truncated toward zero, the machine division; meaningful when
/// `d != 0`.
pub open spec fn tdiv(x: int, d: int) -> int {
    if x == 0 {
        0
    } else if x > 0 && d > 0 {
        x / d
    } else if x < 0 && d < 0 {
        (x * -1) / (d * -1)
    } else if x < 0 {
        ((x * -1) / d) * -1
    } else {
        (x / (d * -1)) * -1
    }
}

/// Remainder of truncated division, the machine remainder; meaningful
/// when `d != 0`.
pub open spec fn tmod(x: int, d: int) -> int {
    if x == 0 {
        0
    } else if x > 0 && d > 0 {
        x % d
    } else if x < 0 && d < 0 {
        ((x * -1) % (d * -1)) * -1
    } else if x < 0 {
        ((x * -1) % d) * -1
    } else {
        x % (d * -1)
    }
}

/// The numeric kind named by `s`, if any.  The two floating-point kind
/// names are not here: this model does not carry floats, so a cast to
/// them is reported as an unknown kind.
pub open spec fn kind_of_name(s: Seq<char>) -> Option<NumKind> {
    if s == "i8"@ {
        Some(NumKind::I8)
    } else if s == "i16"@ {
        Some(NumKind::I16)
    } else if s == "i32"@ {
        Some(NumKind::I32)
    } else if s == "i64"@ {
        Some(NumKind::I64)
    } else if s == "i128"@ {
        Some(NumKind::I128)
    } else if s == "u8"@ {
        Some(NumKind::U8)
    } else if s == "u16"@ {
        Some(NumKind::U16)
    } else if s == "u32"@ {
        Some(NumKind::U32)
    } else if s == "u64"@ {
        Some(NumKind::U64)
    } else if s == "u128"@ {
        Some(NumKind::U128)
    } else {
        None
    }
}

/// The kind named by `name`, as a runtime value.
pub fn kind_for_name(name: &String) -> (r: Option<NumKind>)
    ensures
        r == kind_of_name(name@),
{
    if *name == "i8".to_owned() {
        Some(NumKind::I8)
    } else if *name == "i16".to_owned() {
        Some(NumKind::I16)
    } else if *name == "i32".to_owned() {
        Some(NumKind::I32)
    } else if *name == "i64".to_owned() {
        Some(NumKind::I64)
    } else if *name == "i128".to_owned() {
        Some(NumKind::I128)
    } else if *name == "u8".to_owned() {
        Some(NumKind::U8)
    } else if *name == "u16".to_owned() {
        Some(NumKind::U16)
    } else if *name == "u32".to_owned() {
        Some(NumKind::U32)
    } else if *name == "u64".to_owned() {
        Some(NumKind::U64)
    } else if *name == "u128".to_owned() {
        Some(NumKind::U128)
    } else {
        None
    }
}

/// What casting yields: the same value re-kinded when it fits the target
/// kind, and a cast-range error otherwise.
pub open spec fn spec_cast(n: Number, k: NumKind) -> Result<Number, RuntimeErrorV> {
    if in_range(k, n.val()) {
        Ok(num_of(k, n.val()))
    } else {
        Err(RuntimeErrorV::CastOutOfRange(n.kind(), k))
    }
}

/// What casting to a kind given by name yields.
pub open spec fn spec_cast_named(n: Number, s: Seq<char>) -> Result<Number, RuntimeErrorV> {
    match kind_of_name(s) {
        Some(k) => spec_cast(n, k),
        None => Err(RuntimeErrorV::UnknownKind(s)),
    }
}

/// Whether `a` is strictly below `b`: defined only between numbers of
/// one kind, and false for every other pairing.
pub open spec fn spec_num_lt(a: Number, b: Number) -> bool {
    a.kind() == b.kind() && a.val() < b.val()
}

/// As `spec_num_lt`, non-strict.
pub open spec fn spec_num_le(a: Number, b: Number) -> bool {
    a.kind() == b.kind() && a.val() <= b.val()
}

impl Number {
    /// This number's value as an `i128`, when it fits.
    fn as_i128_opt(self) -> (r: Option<i128>)
        ensures
            r == (if self.val() <= i128::MAX as int {
                Some(self.val() as i128)
            } else {
                None::<i128>
            }),
    {
        match self {
            Number::I8(v) => Some(v as i128),
            Number::I16(v) => Some(v as i128),
            Number::I32(v) => Some(v as i128),
            Number::I64(v) => Some(v as i128),
            Number::I128(v) => Some(v),
            Number::U8(v) => Some(v as i128),
            Number::U16(v) => Some(v as i128),
            Number::U32(v) => Some(v as i128),
            Number::U64(v) => Some(v as i128),
            Number::U128(v) => if v <= i128::MAX as u128 {
                Some(v as i128)
            } else {
                None
            },
        }
    }

    /// This number's value as a `u128`, when it is not negative.
    fn as_u128_opt(self) -> (r: Option<u128>)
        ensures
            r == (if self.val() >= 0 {
                Some(self.val() as u128)
            } else {
                None::<u128>
            }),
    {
        match self {
            Number::I8(v) => if v >= 0 {
                Some(v as u128)
            } else {
                None
            },
            Number::I16(v) => if v >= 0 {
                Some(v as u128)
            } else {
                None
            },
            Number::I32(v) => if v >= 0 {
                Some(v as u128)
            } else {
                None
            },
            Number::I64(v) => if v >= 0 {
                Some(v as u128)
            } else {
                None
            },
            Number::I128(v) => if v >= 0 {
                Some(v as u128)
            } else {
                None
            },
            Number::U8(v) => Some(v as u128),
            Number::U16(v) => Some(v as u128),
            Number::U32(v) => Some(v as u128),
            Number::U64(v) => Some(v as u128),
            Number::U128(v) => Some(v),
        }
    }

    /// Checked conversion to the kind `k`: the value must fit.
    pub fn cast_to_kind(self, k: NumKind) -> (r: Result<Number, RuntimeError>)
        ensures
            res_v(r) == spec_cast(self, k),
    {
        match k {
            NumKind::U128 => match self.as_u128_opt() {
                Some(u) => Ok(Number::U128(u)),
                None => Err(RuntimeError::CastOutOfRange(self.kind_x(), k)),
            },
            NumKind::I128 => match self.as_i128_opt() {
                Some(v) => Ok(Number::I128(v)),
                None => Err(RuntimeError::CastOutOfRange(self.kind_x(), k)),
            },
            NumKind::I8 => match self.as_i128_opt() {
                Some(v) => if i8::MIN as i128 <= v && v <= i8::MAX as i128 {
                    Ok(Number::I8(v as i8))
                } else {
                    Err(RuntimeError::CastOutOfRange(self.kind_x(), k))
                },
                None => Err(RuntimeError::CastOutOfRange(self.kind_x(), k)),
            },
            NumKind::I16 => match self.as_i128_opt() {
                Some(v) => if i16::MIN as i128 <= v && v <= i16::MAX as i128 {
                    Ok(Number::I16(v as i16))
                } else {
                    Err(RuntimeError::CastOutOfRange(self.kind_x(), k))
                },
                None => Err(RuntimeError::CastOutOfRange(self.kind_x(), k)),
            },
            NumKind::I32 => match self.as_i128_opt() {
                Some(v) => if i32::MIN as i128 <= v && v <= i32::MAX as i128 {
                    Ok(Number::I32(v as i32))
                } else {
                    Err(RuntimeError::CastOutOfRange(self.kind_x(), k))
                },
                None => Err(RuntimeError::CastOutOfRange(self.kind_x(), k)),
            },
            NumKind::I64 => match self.as_i128_opt() {
                Some(v) => if i64::MIN as i128 <= v && v <= i64::MAX as i128 {
                    Ok(Number::I64(v as i64))
                } else {
                    Err(RuntimeError::CastOutOfRange(self.kind_x(), k))
                },
                None => Err(RuntimeError::CastOutOfRange(self.kind_x(), k)),
            },
            NumKind::U8 => match self.as_i128_opt() {
                Some(v) => if 0 <= v && v <= u8::MAX as i128 {
                    Ok(Number::U8(v as u8))
                } else {
                    Err(RuntimeError::CastOutOfRange(self.kind_x(), k))
                },
                None => Err(RuntimeError::CastOutOfRange(self.kind_x(), k)),
            },
            NumKind::U16 => match self.as_i128_opt() {
                Some(v) => if 0 <= v && v <= u16::MAX as i128 {
                    Ok(Number::U16(v as u16))
                } else {
                    Err(RuntimeError::CastOutOfRange(self.kind_x(), k))
                },
                None => Err(RuntimeError::CastOutOfRange(self.kind_x(), k)),
            },
            NumKind::U32 => match self.as_i128_opt() {
                Some(v) => if 0 <= v && v <= u32::MAX as i128 {
                    Ok(Number::U32(v as u32))
                } else {
                    Err(RuntimeError::CastOutOfRange(self.kind_x(), k))
                },
                None => Err(RuntimeError::CastOutOfRange(self.kind_x(), k)),
            },
            NumKind::U64 => match self.as_i128_opt() {
                Some(v) => if 0 <= v && v <= u64::MAX as i128 {
                    Ok(Number::U64(v as u64))
                } else {
                    Err(RuntimeError::CastOutOfRange(self.kind_x(), k))
                },
                None => Err(RuntimeError::CastOutOfRange(self.kind_x(), k)),
            },
        }
    }

    /// Checked conversion to the kind named by `result_type`.
    pub fn cast_to(&self, result_type: String) -> (r: Result<Number, RuntimeError>)
        ensures
            res_v(r) == spec_cast_named(*self, result_type@),
    {
        match kind_for_name(&result_type) {
            Some(k) => self.cast_to_kind(k),
            None => Err(RuntimeError::UnknownKind(result_type)),
        }
    }
}

/// Whether `a` is strictly below `b`, as a runtime test; false whenever
/// the kinds differ.
pub fn num_lt(a: Number, b: Number) -> (r: bool)
    ensures
        r == spec_num_lt(a, b),
{
    match (a, b) {
        (Number::I8(x), Number::I8(y)) => x < y,
        (Number::I16(x), Number::I16(y)) => x < y,
        (Number::I32(x), Number::I32(y)) => x < y,
        (Number::I64(x), Number::I64(y)) => x < y,
        (Number::I128(x), Number::I128(y)) => x < y,
        (Number::U8(x), Number::U8(y)) => x < y,
        (Number::U16(x), Number::U16(y)) => x < y,
        (Number::U32(x), Number::U32(y)) => x < y,
        (Number::U64(x), Number::U64(y)) => x < y,
        (Number::U128(x), Number::U128(y)) => x < y,
        _ => false,
    }
}

/// Whether `a` is at or below `b`, as a runtime test; false whenever the
/// kinds differ.
pub fn num_le(a: Number, b: Number) -> (r: bool)
    ensures
        r == spec_num_le(a, b),
{
    match (a, b) {
        (Number::I8(x), Number::I8(y)) => x <= y,
        (Number::I16(x), Number::I16(y)) => x <= y,
        (Number::I32(x), Number::I32(y)) => x <= y,
        (Number::I64(x), Number::I64(y)) => x <= y,
        (Number::I128(x), Number::I128(y)) => x <= y,
        (Number::U8(x), Number::U8(y)) => x <= y,
        (Number::U16(x), Number::U16(y)) => x <= y,
        (Number::U32(x), Number::U32(y)) => x <= y,
        (Number::U64(x), Number::U64(y)) => x <= y,
        (Number::U128(x), Number::U128(y)) => x <= y,
        _ => false,
    }
}

/// Casting an in-range value to another kind and then back to its own
/// kind reproduces the original number exactly.
pub proof fn lemma_cast_roundtrip(n: Number, k: NumKind)
    requires
        in_range(k, n.val()),
    ensures
        (spec_cast(n, k) matches Ok(m) && spec_cast(m, n.kind()) == Ok::<Number, RuntimeErrorV>(
            n,
        )),
{
    lemma_val_in_range(n);
    lemma_num_of_val(k, n.val());
    lemma_num_of_self(n);
}

/// What adding two numbers yields: the exact sum when the kinds agree and
/// it fits their kind, and the precise error otherwise.
pub open spec fn spec_add(a: Number, b: Number) -> Result<Number, RuntimeErrorV> {
    if a.kind() != b.kind() {
        Err(RuntimeErrorV::KindMismatch(a.kind(), b.kind()))
    } else if in_range(a.kind(), a.val() + b.val()) {
        Ok(num_of(a.kind(), a.val() + b.val()))
    } else {
        Err(RuntimeErrorV::Overflow(a.kind()))
    }
}

/// As `spec_add`, for subtraction.
pub open spec fn spec_sub(a: Number, b: Number) -> Result<Number, RuntimeErrorV> {
    if a.kind() != b.kind() {
        Err(RuntimeErrorV::KindMismatch(a.kind(), b.kind()))
    } else if in_range(a.kind(), a.val() - b.val()) {
        Ok(num_of(a.kind(), a.val() - b.val()))
    } else {
        Err(RuntimeErrorV::Overflow(a.kind()))
    }
}

/// As `spec_add`, for multiplication.
pub open spec fn spec_mul(a: Number, b: Number) -> Result<Number, RuntimeErrorV> {
    if a.kind() != b.kind() {
        Err(RuntimeErrorV::KindMismatch(a.kind(), b.kind()))
    } else if in_range(a.kind(), a.val() * b.val()) {
        Ok(num_of(a.kind(), a.val() * b.val()))
    } else {
        Err(RuntimeErrorV::Overflow(a.kind()))
    }
}

/// What dividing yields: the quotient truncated toward zero, failing on
/// mismatched kinds, a zero divisor, or a quotient outside the kind.
pub open spec fn spec_div(a: Number, b: Number) -> Result<Number, RuntimeErrorV> {
    if a.kind() != b.kind() {
        Err(RuntimeErrorV::KindMismatch(a.kind(), b.kind()))
    } else if b.val() == 0 {
        Err(RuntimeErrorV::DivideByZero)
    } else if in_range(a.kind(), tdiv(a.val(), b.val())) {
        Ok(num_of(a.kind(), tdiv(a.val(), b.val())))
    } else {
        Err(RuntimeErrorV::Overflow(a.kind()))
    }
}

/// What the remainder yields, mirroring the machine's checked remainder:
/// the least-magnitude remainder of truncated division.
pub open spec fn spec_rem(a: Number, b: Number) -> Result<Number, RuntimeErrorV> {
    if a.kind() != b.kind() {
        Err(RuntimeErrorV::KindMismatch(a.kind(), b.kind()))
    } else if b.val() == 0 {
        Err(RuntimeErrorV::DivideByZero)
    } else if a.val() == kind_min(a.kind()) && b.val() == -1 {
        Err(RuntimeErrorV::Overflow(a.kind()))
    } else if in_range(a.kind(), tmod(a.val(), b.val())) {
        Ok(num_of(a.kind(), tmod(a.val(), b.val())))
    } else {
        Err(RuntimeErrorV::Overflow(a.kind()))
    }
}

impl Number {
    /// Checked addition of two numbers of equal kind.
    pub fn add(self, other: Number) -> (r: Result<Number, RuntimeError>)
        ensures
            res_v(r) == spec_add(self, other),
    {
        match (self, other) {
            (Number::I8(a), Number::I8(b)) => match a.checked_add(b) {
                Some(v) => Ok(Number::I8(v)),
                None => Err(RuntimeError::Overflow(NumKind::I8)),
            },
            (Number::I16(a), Number::I16(b)) => match a.checked_add(b) {
                Some(v) => Ok(Number::I16(v)),
                None => Err(RuntimeError::Overflow(NumKind::I16)),
            },
            (Number::I32(a), Number::I32(b)) => match a.checked_add(b) {
                Some(v) => Ok(Number::I32(v)),
                None => Err(RuntimeError::Overflow(NumKind::I32)),
            },
            (Number::I64(a), Number::I64(b)) => match a.checked_add(b) {
                Some(v) => Ok(Number::I64(v)),
                None => Err(RuntimeError::Overflow(NumKind::I64)),
            },
            (Number::I128(a), Number::I128(b)) => match a.checked_add(b) {
                Some(v) => Ok(Number::I128(v)),
                None => Err(RuntimeError::Overflow(NumKind::I128)),
            },
            (Number::U8(a), Number::U8(b)) => match a.checked_add(b) {
                Some(v) => Ok(Number::U8(v)),
                None => Err(RuntimeError::Overflow(NumKind::U8)),
            },
            (Number::U16(a), Number::U16(b)) => match a.checked_add(b) {
                Some(v) => Ok(Number::U16(v)),
                None => Err(RuntimeError::Overflow(NumKind::U16)),
            },
            (Number::U32(a), Number::U32(b)) => match a.checked_add(b) {
                Some(v) => Ok(Number::U32(v)),
                None => Err(RuntimeError::Overflow(NumKind::U32)),
            },
            (Number::U64(a), Number::U64(b)) => match a.checked_add(b) {
                Some(v) => Ok(Number::U64(v)),
                None => Err(RuntimeError::Overflow(NumKind::U64)),
            },
            (Number::U128(a), Number::U128(b)) => match a.checked_add(b) {
                Some(v) => Ok(Number::U128(v)),
                None => Err(RuntimeError::Overflow(NumKind::U128)),
            },
            _ => Err(RuntimeError::KindMismatch(self.kind_x(), other.kind_x())),
        }
    }

    /// Checked subtraction of two numbers of equal kind.
    pub fn sub(self, other: Number) -> (r: Result<Number, RuntimeError>)
        ensures
            res_v(r) == spec_sub(self, other),
    {
        match (self, other) {
            (Number::I8(a), Number::I8(b)) => match a.checked_sub(b) {
                Some(v) => Ok(Number::I8(v)),
                None => Err(RuntimeError::Overflow(NumKind::I8)),
            },
            (Number::I16(a), Number::I16(b)) => match a.checked_sub(b) {
                Some(v) => Ok(Number::I16(v)),
                None => Err(RuntimeError::Overflow(NumKind::I16)),
            },
            (Number::I32(a), Number::I32(b)) => match a.checked_sub(b) {
                Some(v) => Ok(Number::I32(v)),
                None => Err(RuntimeError::Overflow(NumKind::I32)),
            },
            (Number::I64(a), Number::I64(b)) => match a.checked_sub(b) {
                Some(v) => Ok(Number::I64(v)),
                None => Err(RuntimeError::Overflow(NumKind::I64)),
            },
            (Number::I128(a), Number::I128(b)) => match a.checked_sub(b) {
                Some(v) => Ok(Number::I128(v)),
                None => Err(RuntimeError::Overflow(NumKind::I128)),
            },
            (Number::U8(a), Number::U8(b)) => match a.checked_sub(b) {
                Some(v) => Ok(Number::U8(v)),
                None => Err(RuntimeError::Overflow(NumKind::U8)),
            },
            (Number::U16(a), Number::U16(b)) => match a.checked_sub(b) {
                Some(v) => Ok(Number::U16(v)),
                None => Err(RuntimeError::Overflow(NumKind::U16)),
            },
            (Number::U32(a), Number::U32(b)) => match a.checked_sub(b) {
                Some(v) => Ok(Number::U32(v)),
                None => Err(RuntimeError::Overflow(NumKind::U32)),
            },
            (Number::U64(a), Number::U64(b)) => match a.checked_sub(b) {
                Some(v) => Ok(Number::U64(v)),
                None => Err(RuntimeError::Overflow(NumKind::U64)),
            },
            (Number::U128(a), Number::U128(b)) => match a.checked_sub(b) {
                Some(v) => Ok(Number::U128(v)),
                None => Err(RuntimeError::Overflow(NumKind::U128)),
            },
            _ => Err(RuntimeError::KindMismatch(self.kind_x(), other.kind_x())),
        }
    }

    /// Checked multiplication of two numbers of equal kind.
    pub fn mul(self, other: Number) -> (r: Result<Number, RuntimeError>)
        ensures
            res_v(r) == spec_mul(self, other),
    {
        match (self, other) {
            (Number::I8(a), Number::I8(b)) => match a.checked_mul(b) {
                Some(v) => Ok(Number::I8(v)),
                None => Err(RuntimeError::Overflow(NumKind::I8)),
            },
            (Number::I16(a), Number::I16(b)) => match a.checked_mul(b) {
                Some(v) => Ok(Number::I16(v)),
                None => Err(RuntimeError::Overflow(NumKind::I16)),
            },
            (Number::I32(a), Number::I32(b)) => match a.checked_mul(b) {
                Some(v) => Ok(Number::I32(v)),
                None => Err(RuntimeError::Overflow(NumKind::I32)),
            },
            (Number::I64(a), Number::I64(b)) => match a.checked_mul(b) {
                Some(v) => Ok(Number::I64(v)),
                None => Err(RuntimeError::Overflow(NumKind::I64)),
            },
            (Number::I128(a), Number::I128(b)) => match a.checked_mul(b) {
                Some(v) => Ok(Number::I128(v)),
                None => Err(RuntimeError::Overflow(NumKind::I128)),
            },
            (Number::U8(a), Number::U8(b)) => match a.checked_mul(b) {
                Some(v) => Ok(Number::U8(v)),
                None => Err(RuntimeError::Overflow(NumKind::U8)),
            },
            (Number::U16(a), Number::U16(b)) => match a.checked_mul(b) {
                Some(v) => Ok(Number::U16(v)),
                None => Err(RuntimeError::Overflow(NumKind::U16)),
            },
            (Number::U32(a), Number::U32(b)) => match a.checked_mul(b) {
                Some(v) => Ok(Number::U32(v)),
                None => Err(RuntimeError::Overflow(NumKind::U32)),
            },
            (Number::U64(a), Number::U64(b)) => match a.checked_mul(b) {
                Some(v) => Ok(Number::U64(v)),
                None => Err(RuntimeError::Overflow(NumKind::U64)),
            },
            (Number::U128(a), Number::U128(b)) => match a.checked_mul(b) {
                Some(v) => Ok(Number::U128(v)),
                None => Err(RuntimeError::Overflow(NumKind::U128)),
            },
            _ => Err(RuntimeError::KindMismatch(self.kind_x(), other.kind_x())),
        }
    }

    /// Checked division of two numbers of equal kind, truncating toward
    /// zero.
    pub fn div(self, other: Number) -> (r: Result<Number, RuntimeError>)
        ensures
            res_v(r) == spec_div(self, other),
    {
        match (self, other) {
            (Number::I8(a), Number::I8(b)) => if b == 0 {
                Err(RuntimeError::DivideByZero)
            } else {
                match a.checked_div(b) {
                    Some(v) => Ok(Number::I8(v)),
                    None => Err(RuntimeError::Overflow(NumKind::I8)),
                }
            },
            (Number::I16(a), Number::I16(b)) => if b == 0 {
                Err(RuntimeError::DivideByZero)
            } else {
                match a.checked_div(b) {
                    Some(v) => Ok(Number::I16(v)),
                    None => Err(RuntimeError::Overflow(NumKind::I16)),
                }
            },
            (Number::I32(a), Number::I32(b)) => if b == 0 {
                Err(RuntimeError::DivideByZero)
            } else {
                match a.checked_div(b) {
                    Some(v) => Ok(Number::I32(v)),
                    None => Err(RuntimeError::Overflow(NumKind::I32)),
                }
            },
            (Number::I64(a), Number::I64(b)) => if b == 0 {
                Err(RuntimeError::DivideByZero)
            } else {
                match a.checked_div(b) {
                    Some(v) => Ok(Number::I64(v)),
                    None => Err(RuntimeError::Overflow(NumKind::I64)),
                }
            },
            (Number::I128(a), Number::I128(b)) => if b == 0 {
                Err(RuntimeError::DivideByZero)
            } else {
                match a.checked_div(b) {
                    Some(v) => Ok(Number::I128(v)),
                    None => Err(RuntimeError::Overflow(NumKind::I128)),
                }
            },
            (Number::U8(a), Number::U8(b)) => if b == 0 {
                Err(RuntimeError::DivideByZero)
            } else {
                Ok(Number::U8(a / b))
            },
            (Number::U16(a), Number::U16(b)) => if b == 0 {
                Err(RuntimeError::DivideByZero)
            } else {
                Ok(Number::U16(a / b))
            },
            (Number::U32(a), Number::U32(b)) => if b == 0 {
                Err(RuntimeError::DivideByZero)
            } else {
                Ok(Number::U32(a / b))
            },
            (Number::U64(a), Number::U64(b)) => if b == 0 {
                Err(RuntimeError::DivideByZero)
            } else {
                Ok(Number::U64(a / b))
            },
            (Number::U128(a), Number::U128(b)) => if b == 0 {
                Err(RuntimeError::DivideByZero)
            } else {
                Ok(Number::U128(a / b))
            },
            _ => Err(RuntimeError::KindMismatch(self.kind_x(), other.kind_x())),
        }
    }

    /// Checked remainder of two numbers of equal kind, paired with the
    /// truncating division.
    pub fn rem(self, other: Number) -> (r: Result<Number, RuntimeError>)
        ensures
            res_v(r) == spec_rem(self, other),
    {
        match (self, other) {
            (Number::I8(a), Number::I8(b)) => if b == 0 {
                Err(RuntimeError::DivideByZero)
            } else {
                match a.checked_rem(b) {
                    Some(v) => Ok(Number::I8(v)),
                    None => Err(RuntimeError::Overflow(NumKind::I8)),
                }
            },
            (Number::I16(a), Number::I16(b)) => if b == 0 {
                Err(RuntimeError::DivideByZero)
            } else {
                match a.checked_rem(b) {
                    Some(v) => Ok(Number::I16(v)),
                    None => Err(RuntimeError::Overflow(NumKind::I16)),
                }
            },
            (Number::I32(a), Number::I32(b)) => if b == 0 {
                Err(RuntimeError::DivideByZero)
            } else {
                match a.checked_rem(b) {
                    Some(v) => Ok(Number::I32(v)),
                    None => Err(RuntimeError::Overflow(NumKind::I32)),
                }
            },
            (Number::I64(a), Number::I64(b)) => if b == 0 {
                Err(RuntimeError::DivideByZero)
            } else {
                match a.checked_rem(b) {
                    Some(v) => Ok(Number::I64(v)),
                    None => Err(RuntimeError::Overflow(NumKind::I64)),
                }
            },
            (Number::I128(a), Number::I128(b)) => if b == 0 {
                Err(RuntimeError::DivideByZero)
            } else {
                match a.checked_rem(b) {
                    Some(v) => Ok(Number::I128(v)),
                    None => Err(RuntimeError::Overflow(NumKind::I128)),
                }
            },
            (Number::U8(a), Number::U8(b)) => if b == 0 {
                Err(RuntimeError::DivideByZero)
            } else {
                proof {
                    if a == 0 {
                        vstd::arithmetic::div_mod::lemma_small_mod(0nat, b as nat);
                    }
                }
                Ok(Number::U8(a % b))
            },
            (Number::U16(a), Number::U16(b)) => if b == 0 {
                Err(RuntimeError::DivideByZero)
            } else {
                proof {
                    if a == 0 {
                        vstd::arithmetic::div_mod::lemma_small_mod(0nat, b as nat);
                    }
                }
                Ok(Number::U16(a % b))
            },
            (Number::U32(a), Number::U32(b)) => if b == 0 {
                Err(RuntimeError::DivideByZero)
            } else {
                proof {
                    if a == 0 {
                        vstd::arithmetic::div_mod::lemma_small_mod(0nat, b as nat);
                    }
                }
                Ok(Number::U32(a % b))
            },
            (Number::U64(a), Number::U64(b)) => if b == 0 {
                Err(RuntimeError::DivideByZero)
            } else {
                proof {
                    if a == 0 {
                        vstd::arithmetic::div_mod::lemma_small_mod(0nat, b as nat);
                    }
                }
                Ok(Number::U64(a % b))
            },
            (Number::U128(a), Number::U128(b)) => if b == 0 {
                Err(RuntimeError::DivideByZero)
            } else {
                proof {
                    if a == 0 {
                        vstd::arithmetic::div_mod::lemma_small_mod(0nat, b as nat);
                    }
                }
                Ok(Number::U128(a % b))
            },
            _ => Err(RuntimeError::KindMismatch(self.kind_x(), other.kind_x())),
        }
    }
}

/// Law: arithmetic between two numbers of one kind is the exact machine
/// arithmetic on that kind's representable range, overflowing otherwise,
/// and between unequal kinds it is always the kind-mismatch error.
pub proof fn lemma_arith_exact(a: Number, b: Number)
    ensures
        a.kind() == b.kind() && in_range(a.kind(), a.val() + b.val()) ==> spec_add(a, b)
            == Ok::<Number, RuntimeErrorV>(num_of(a.kind(), a.val() + b.val())),
        a.kind() == b.kind() && !in_range(a.kind(), a.val() + b.val()) ==> spec_add(a, b)
            == Err::<Number, RuntimeErrorV>(RuntimeErrorV::Overflow(a.kind())),
        a.kind() == b.kind() && in_range(a.kind(), a.val() - b.val()) ==> spec_sub(a, b)
            == Ok::<Number, RuntimeErrorV>(num_of(a.kind(), a.val() - b.val())),
        a.kind() == b.kind() && in_range(a.kind(), a.val() * b.val()) ==> spec_mul(a, b)
            == Ok::<Number, RuntimeErrorV>(num_of(a.kind(), a.val() * b.val())),
        a.kind() == b.kind() && b.val() != 0 && in_range(a.kind(), tdiv(a.val(), b.val()))
            ==> spec_div(a, b) == Ok::<Number, RuntimeErrorV>(
            num_of(a.kind(), tdiv(a.val(), b.val())),
        ),
        a.kind() == b.kind() && b.val() == 0 ==> spec_div(a, b) == Err::<
            Number,
            RuntimeErrorV,
        >(RuntimeErrorV::DivideByZero),
        a.kind() != b.kind() ==> spec_add(a, b) == Err::<Number, RuntimeErrorV>(
            RuntimeErrorV::KindMismatch(a.kind(), b.kind()),
        ) && spec_sub(a, b) == Err::<Number, RuntimeErrorV>(
            RuntimeErrorV::KindMismatch(a.kind(), b.kind()),
        ) && spec_mul(a, b) == Err::<Number, RuntimeErrorV>(
            RuntimeErrorV::KindMismatch(a.kind(), b.kind()),
        ) && spec_div(a, b) == Err::<Number, RuntimeErrorV>(
            RuntimeErrorV::KindMismatch(a.kind(), b.kind()),
        ),
{
}

} // verus!
