use vstd::prelude::*;

verus! {

/// Magnitude bits of the largest finite `f32`, widened to a binary64 encoding.
pub const F32_MAX_AS_F64_BITS: u64 = 0x47EF_FFFF_E000_0000;

/// Binary64 encoding of positive infinity; larger magnitudes are NaNs.
pub const F64_INFINITY_BITS: u64 = 0x7FF0_0000_0000_0000;

/// The sign bit of a binary64 encoding.
pub const F64_SIGN_BIT: u64 = 0x8000_0000_0000_0000;

/// A type of the Oxide language.
#[derive(Debug)]
pub enum DataType {
    Bool,
    Char,
    String,
    Array(Box<DataType>),
    Ref(Box<DataType>),
    I8,
    I16,
    I32,
    I64,
    U8,
    U16,
    U32,
    U64,
    F32,
    F64,
    Function { params: Vec<DataType>, return_type: Box<DataType> },
    Void,
    /// Internal sink type used for unification; never part of a source program.
    Any,
}

/// Mathematical model of a `DataType`: the same tree, with parameter lists as sequences.
pub enum Ty {
    Bool,
    Char,
    String,
    Array(Box<Ty>),
    Ref(Box<Ty>),
    I8,
    I16,
    I32,
    I64,
    U8,
    U16,
    U32,
    U64,
    F32,
    F64,
    Function { params: Seq<Ty>, return_type: Box<Ty> },
    Void,
    Any,
}

impl Ty {
    pub open spec fn is_signed_integer(self) -> bool {
        self is I8 || self is I16 || self is I32 || self is I64
    }

    pub open spec fn is_unsigned_integer(self) -> bool {
        self is U8 || self is U16 || self is U32 || self is U64
    }

    pub open spec fn is_integer(self) -> bool {
        self.is_signed_integer() || self.is_unsigned_integer()
    }

    pub open spec fn is_floating_point(self) -> bool {
        self is F32 || self is F64
    }

    pub open spec fn is_numeric(self) -> bool {
        self.is_integer() || self.is_floating_point()
    }

    /// Whether an explicit cast from `self` to `target` is legal.
    pub open spec fn castable(self, target: Ty) -> bool {
        if self == target {
            true
        } else {
            match self {
                Ty::I8 | Ty::U8 => target is Char || target.is_numeric(),
                Ty::U64 => target.is_numeric() || target is Ref,
                Ty::Char => target is U8 || target is I8,
                Ty::Ref(_) => target is Ref || target is U64,
                _ => self.is_numeric() && target.is_numeric(),
            }
        }
    }
}

impl View for DataType {
    type V = Ty;

    open spec fn view(&self) -> Ty
        decreases self,
    {
        match self {
            DataType::Bool => Ty::Bool,
            DataType::Char => Ty::Char,
            DataType::String => Ty::String,
            DataType::Array(e) => Ty::Array(Box::new((**e).view())),
            DataType::Ref(e) => Ty::Ref(Box::new((**e).view())),
            DataType::I8 => Ty::I8,
            DataType::I16 => Ty::I16,
            DataType::I32 => Ty::I32,
            DataType::I64 => Ty::I64,
            DataType::U8 => Ty::U8,
            DataType::U16 => Ty::U16,
            DataType::U32 => Ty::U32,
            DataType::U64 => Ty::U64,
            DataType::F32 => Ty::F32,
            DataType::F64 => Ty::F64,
            DataType::Function { params, return_type } => Ty::Function {
                params: Seq::new(
                    params@.len(),
                    |i: int|
                        if 0 <= i < params@.len() {
                            params@[i].view()
                        } else {
                            Ty::Void
                        },
                ),
                return_type: Box::new((**return_type).view()),
            },
            DataType::Void => Ty::Void,
            DataType::Any => Ty::Any,
        }
    }
}

impl DataType {
    /// Structural equality, recursing into element, parameter and return types.
    pub fn same_as(&self, other: &DataType) -> (r: bool)
        ensures
            r == (self@ == other@),
        decreases self,
    {
        match (self, other) {
            (DataType::Array(a), DataType::Array(b)) => (**a).same_as(&**b),
            (DataType::Ref(a), DataType::Ref(b)) => (**a).same_as(&**b),
            (
                DataType::Function { params: p1, return_type: r1 },
                DataType::Function { params: p2, return_type: r2 },
            ) => {
                if p1.len() != p2.len() {
                    assert(self@->params.len() != other@->params.len());
                    return false;
                }
                let mut i: usize = 0;
                while i < p1.len()
                    invariant
                        p1.len() == p2.len(),
                        i <= p1.len(),
                        forall|k: int| 0 <= k < i ==> p1@[k]@ == p2@[k]@,
                        self is Function && self->params == *p1,
                        other is Function && other->params == *p2,
                    decreases p1.len() - i,
                {
                    assert(decreases_to!(*self => self->params));
                    assert(decreases_to!(*p1 => p1@));
                    assert(decreases_to!(p1@ => p1@[i as int]));
                    if !p1[i].same_as(&p2[i]) {
                        assert(self@->params[i as int] != other@->params[i as int]);
                        return false;
                    }
                    i += 1;
                }
                assert(self@->params =~= other@->params);
                (**r1).same_as(&**r2)
            },
            (DataType::Bool, DataType::Bool) => true,
            (DataType::Char, DataType::Char) => true,
            (DataType::String, DataType::String) => true,
            (DataType::I8, DataType::I8) => true,
            (DataType::I16, DataType::I16) => true,
            (DataType::I32, DataType::I32) => true,
            (DataType::I64, DataType::I64) => true,
            (DataType::U8, DataType::U8) => true,
            (DataType::U16, DataType::U16) => true,
            (DataType::U32, DataType::U32) => true,
            (DataType::U64, DataType::U64) => true,
            (DataType::F32, DataType::F32) => true,
            (DataType::F64, DataType::F64) => true,
            (DataType::Void, DataType::Void) => true,
            (DataType::Any, DataType::Any) => true,
            _ => false,
        }
    }

    /// A deep copy of the type.
    pub fn duplicate(&self) -> (r: DataType)
        ensures
            r@ == self@,
        decreases self,
    {
        match self {
            DataType::Array(e) => DataType::Array(Box::new((**e).duplicate())),
            DataType::Ref(e) => DataType::Ref(Box::new((**e).duplicate())),
            DataType::Function { params, return_type } => {
                let mut copied: Vec<DataType> = Vec::new();
                let mut i: usize = 0;
                while i < params.len()
                    invariant
                        i <= params.len(),
                        copied@.len() == i,
                        forall|k: int| 0 <= k < i ==> copied@[k]@ == params@[k]@,
                        self is Function && self->params == *params,
                    decreases params.len() - i,
                {
                    assert(decreases_to!(*self => self->params));
                    assert(decreases_to!(*params => params@));
                    assert(decreases_to!(params@ => params@[i as int]));
                    copied.push(params[i].duplicate());
                    i += 1;
                }
                let r = DataType::Function {
                    params: copied,
                    return_type: Box::new((**return_type).duplicate()),
                };
                assert(r@->params =~= self@->params);
                r
            },
            DataType::Bool => DataType::Bool,
            DataType::Char => DataType::Char,
            DataType::String => DataType::String,
            DataType::I8 => DataType::I8,
            DataType::I16 => DataType::I16,
            DataType::I32 => DataType::I32,
            DataType::I64 => DataType::I64,
            DataType::U8 => DataType::U8,
            DataType::U16 => DataType::U16,
            DataType::U32 => DataType::U32,
            DataType::U64 => DataType::U64,
            DataType::F32 => DataType::F32,
            DataType::F64 => DataType::F64,
            DataType::Void => DataType::Void,
            DataType::Any => DataType::Any,
        }
    }

    pub fn is_numeric_type(&self) -> (r: bool)
        ensures
            r == self@.is_numeric(),
    {
        matches!(self,
            DataType::I8 | DataType::I16 | DataType::I32 | DataType::I64 | DataType::U8
            | DataType::U16 | DataType::U32 | DataType::U64 | DataType::F32 | DataType::F64)
    }

    /// Whether the programmer may cast a value of type `self` to `target`.
    pub fn is_castable_to(&self, target: &DataType) -> (r: bool)
        ensures
            r == self@.castable(target@),
    {
        if self.same_as(target) {
            return true;
        }
        match self {
            DataType::I8 | DataType::U8 => matches!(target, DataType::Char) || target.is_numeric_type(),
            DataType::U64 => target.is_numeric_type() || matches!(target, DataType::Ref(_)),
            DataType::Char => matches!(target, DataType::U8 | DataType::I8),
            DataType::Ref(_) => matches!(target, DataType::Ref(_) | DataType::U64),
            _ => self.is_numeric_type() && target.is_numeric_type(),
        }
    }
}

impl PartialEq for DataType {
    fn eq(&self, other: &DataType) -> (r: bool) {
        self.same_as(other)
    }
}

impl Eq for DataType {
}

impl vstd::std_specs::cmp::PartialEqSpecImpl for DataType {
    open spec fn obeys_eq_spec() -> bool {
        true
    }

    open spec fn eq_spec(&self, other: &DataType) -> bool {
        self@ == other@
    }
}

/// A compile-time numeric value. A float is held as its IEEE 754 binary64 encoding.
#[derive(PartialEq, Eq, Structural, Debug, Clone, Copy)]
pub enum Number {
    Int(i64),
    Uint(u64),
    Float(u64),
}

/// Reduces an integer to `i64` in two's complement, as wrapping arithmetic does.
pub open spec fn wrap_i64(x: int) -> i64 {
    if x % 0x1_0000_0000_0000_0000 > i64::MAX {
        (x % 0x1_0000_0000_0000_0000 - 0x1_0000_0000_0000_0000) as i64
    } else {
        (x % 0x1_0000_0000_0000_0000) as i64
    }
}

proof fn lemma_wrap_i64_in_range(v: int)
    requires
        i64::MIN <= v <= i64::MAX,
    ensures
        wrap_i64(v) == v,
{
    if v >= 0 {
        assert(v % 0x1_0000_0000_0000_0000 == v);
    } else {
        assert(v % 0x1_0000_0000_0000_0000 == v + 0x1_0000_0000_0000_0000);
    }
}

proof fn lemma_wrap_u64_in_range(v: int)
    requires
        0 <= v <= u64::MAX,
    ensures
        wrap_u64(v) == v,
{
    assert(v % 0x1_0000_0000_0000_0000 == v);
}

/// Reduces an integer modulo 2^64.
pub open spec fn wrap_u64(x: int) -> u64 {
    (x % 0x1_0000_0000_0000_0000) as u64
}

/// Division rounding toward zero.
pub open spec fn trunc_div(x: int, d: int) -> int {
    if x == 0 {
        0
    } else if x > 0 && d > 0 {
        x / d
    } else if x < 0 && d < 0 {
        (-x) / (-d)
    } else if x < 0 {
        -((-x) / d)
    } else {
        -(x / (-d))
    }
}

/// Remainder of division rounding toward zero: it takes the sign of `x`.
pub open spec fn trunc_rem(x: int, d: int) -> int {
    if x == 0 {
        0
    } else if x > 0 && d > 0 {
        x % d
    } else if x < 0 && d < 0 {
        -((-x) % (-d))
    } else if x < 0 {
        -((-x) % d)
    } else {
        x % (-d)
    }
}

/// Magnitude of a binary64 encoding: the encoding without its sign bit.
pub open spec fn float_magnitude(bits: u64) -> int {
    bits as int % 0x8000_0000_0000_0000
}

pub open spec fn float_is_nan(bits: u64) -> bool {
    float_magnitude(bits) > F64_INFINITY_BITS
}

pub open spec fn float_is_zero(bits: u64) -> bool {
    float_magnitude(bits) == 0
}

/// A key that orders the non-NaN binary64 encodings as the values they denote.
pub open spec fn float_order_key(bits: u64) -> int {
    if bits >= F64_SIGN_BIT {
        -float_magnitude(bits)
    } else {
        float_magnitude(bits)
    }
}

/// Whether a binary64 value lies in `[f32::MIN, f32::MAX]`.
pub open spec fn float_fits_f32(bits: u64) -> bool {
    float_magnitude(bits) <= F32_MAX_AS_F64_BITS
}

/// The comparisons of numeric values.
pub enum Comparison {
    Greater,
    Less,
    GreaterEqual,
    LessEqual,
    Equal,
}

/// Applies a comparison to two ordered keys.
pub open spec fn compare_keys(c: Comparison, a: int, b: int) -> bool {
    match c {
        Comparison::Greater => a > b,
        Comparison::Less => a < b,
        Comparison::GreaterEqual => a >= b,
        Comparison::LessEqual => a <= b,
        Comparison::Equal => a == b,
    }
}

/// Division and remainder by the zero value of the divisor's kind.
#[derive(PartialEq, Eq, Structural, Debug, Clone, Copy)]
pub struct DivisionByZero;

impl Number {
    pub open spec fn same_kind(self, other: Number) -> bool {
        (self is Int && other is Int) || (self is Uint && other is Uint) || (self is Float
            && other is Float)
    }

    pub open spec fn is_integer(self) -> bool {
        self is Int || self is Uint
    }

    /// The integer an `Int` or `Uint` denotes.
    pub open spec fn int_value(self) -> int {
        match self {
            Number::Int(n) => n as int,
            Number::Uint(n) => n as int,
            Number::Float(_) => 0,
        }
    }

    /// The value of the same kind as `self` that wrapping arithmetic gives for `v`.
    pub open spec fn wrapped(self, v: int) -> Number {
        match self {
            Number::Int(_) => Number::Int(wrap_i64(v)),
            _ => Number::Uint(wrap_u64(v)),
        }
    }

    /// Whether `self` is the zero value of its kind (either zero for floats).
    pub open spec fn is_zero(self) -> bool {
        match self {
            Number::Int(n) => n == 0,
            Number::Uint(n) => n == 0,
            Number::Float(b) => float_is_zero(b),
        }
    }

    /// Outcome of comparison `c` between two values of the same kind; any comparison with
    /// a NaN is false.
    pub open spec fn compares(self, other: Number, c: Comparison) -> bool {
        match (self, other) {
            (Number::Float(a), Number::Float(b)) => !float_is_nan(a) && !float_is_nan(b)
                && compare_keys(c, float_order_key(a), float_order_key(b)),
            _ => compare_keys(c, self.int_value(), other.int_value()),
        }
    }

    /// Wrapping sum of two integers of the same kind.
    pub fn add(&self, other: &Number) -> (r: Number)
        requires
            self.same_kind(*other),
            self.is_integer(),
        ensures
            r == self.wrapped(self.int_value() + other.int_value()),
    {
        match (self, other) {
            (Number::Int(a), Number::Int(b)) => Number::Int(a.wrapping_add(*b)),
            (Number::Uint(a), Number::Uint(b)) => Number::Uint(a.wrapping_add(*b)),
            _ => Number::Uint(0),
        }
    }

    /// Wrapping difference of two integers of the same kind.
    pub fn sub(&self, other: &Number) -> (r: Number)
        requires
            self.same_kind(*other),
            self.is_integer(),
        ensures
            r == self.wrapped(self.int_value() - other.int_value()),
    {
        match (self, other) {
            (Number::Int(a), Number::Int(b)) => Number::Int(a.wrapping_sub(*b)),
            (Number::Uint(a), Number::Uint(b)) => Number::Uint(a.wrapping_sub(*b)),
            _ => Number::Uint(0),
        }
    }

    /// Wrapping product of two integers of the same kind.
    pub fn mul(&self, other: &Number) -> (r: Number)
        requires
            self.same_kind(*other),
            self.is_integer(),
        ensures
            r == self.wrapped(self.int_value() * other.int_value()),
    {
        match (self, other) {
            (Number::Int(a), Number::Int(b)) => Number::Int(a.wrapping_mul(*b)),
            (Number::Uint(a), Number::Uint(b)) => Number::Uint(a.wrapping_mul(*b)),
            _ => Number::Uint(0),
        }
    }

    /// Whether `self` is the zero value of its kind.
    pub fn is_zero_value(&self) -> (r: bool)
        ensures
            r == self.is_zero(),
    {
        match self {
            Number::Int(n) => *n == 0,
            Number::Uint(n) => *n == 0,
            Number::Float(b) => *b % F64_SIGN_BIT == 0,
        }
    }

    /// Quotient rounded toward zero. Fails when `other` is zero; a nonzero float divisor is
    /// outside the verified library, which does no floating-point arithmetic.
    pub fn div(&self, other: &Number) -> (r: Result<Number, DivisionByZero>)
        requires
            self.same_kind(*other),
            self is Float ==> other.is_zero(),
        ensures
            other.is_zero() <==> r is Err,
            !other.is_zero() ==> r == Ok::<Number, DivisionByZero>(
                self.wrapped(trunc_div(self.int_value(), other.int_value())),
            ),
    {
        if other.is_zero_value() {
            return Err(DivisionByZero);
        }
        match (self, other) {
            (Number::Int(a), Number::Int(b)) => {
                if *a == i64::MIN && *b == -1 {
                    assert(trunc_div(i64::MIN as int, -1) == 0x8000_0000_0000_0000);
                    assert(wrap_i64(0x8000_0000_0000_0000) == i64::MIN);
                    Ok(Number::Int(i64::MIN))
                } else {
                    let ghost x = *a as int;
                    let ghost d = *b as int;
                    assert(i64::MIN <= trunc_div(x, d) <= i64::MAX) by (nonlinear_arith)
                        requires
                            d != 0,
                            i64::MIN <= x <= i64::MAX,
                            i64::MIN <= d <= i64::MAX,
                            !(x == i64::MIN && d == -1),
                    ;
                    proof {
                        lemma_wrap_i64_in_range(trunc_div(x, d));
                    }
                    Ok(Number::Int(a.checked_div(*b).unwrap()))
                }
            },
            (Number::Uint(a), Number::Uint(b)) => {
                proof {
                    lemma_wrap_u64_in_range(trunc_div(*a as int, *b as int));
                }
                Ok(Number::Uint(*a / *b))
            },
            _ => Err(DivisionByZero),
        }
    }

    /// Remainder of the division rounded toward zero; its sign is that of `self`. Fails
    /// when `other` is zero; a nonzero float divisor is outside the verified library.
    pub fn modulo(&self, other: &Number) -> (r: Result<Number, DivisionByZero>)
        requires
            self.same_kind(*other),
            self is Float ==> other.is_zero(),
        ensures
            other.is_zero() <==> r is Err,
            !other.is_zero() ==> r == Ok::<Number, DivisionByZero>(
                self.wrapped(trunc_rem(self.int_value(), other.int_value())),
            ),
    {
        if other.is_zero_value() {
            return Err(DivisionByZero);
        }
        match (self, other) {
            (Number::Int(a), Number::Int(b)) => {
                if *b == -1 {
                    let ghost x = *a as int;
                    assert(trunc_rem(x, -1) == 0) by (nonlinear_arith);
                    assert(wrap_i64(0) == 0);
                    Ok(Number::Int(0))
                } else {
                    let ghost x = *a as int;
                    let ghost d = *b as int;
                    assert(i64::MIN <= trunc_rem(x, d) <= i64::MAX) by (nonlinear_arith)
                        requires
                            d != 0,
                            i64::MIN <= x <= i64::MAX,
                            i64::MIN <= d <= i64::MAX,
                    ;
                    proof {
                        lemma_wrap_i64_in_range(trunc_rem(x, d));
                    }
                    assert(a.checked_rem(*b) == Some((trunc_rem(x, d)) as i64));
                    Ok(Number::Int(a.checked_rem(*b).unwrap()))
                }
            },
            (Number::Uint(a), Number::Uint(b)) => {
                proof {
                    lemma_wrap_u64_in_range(trunc_rem(*a as int, *b as int));
                }
                assert(trunc_rem(*a as int, *b as int) == (*a % *b) as int) by (nonlinear_arith)
                    requires
                        *b > 0,
                ;
                Ok(Number::Uint(*a % *b))
            },
            _ => Err(DivisionByZero),
        }
    }

    /// Bitwise conjunction of two integers of the same kind.
    pub fn bitwise_and(&self, other: &Number) -> (r: Number)
        requires
            self.same_kind(*other),
            self.is_integer(),
        ensures
            r == match (*self, *other) {
                (Number::Int(a), Number::Int(b)) => Number::Int(a & b),
                (Number::Uint(a), Number::Uint(b)) => Number::Uint(a & b),
                _ => *self,
            },
    {
        match (self, other) {
            (Number::Int(a), Number::Int(b)) => Number::Int(*a & *b),
            (Number::Uint(a), Number::Uint(b)) => Number::Uint(*a & *b),
            _ => Number::Uint(0),
        }
    }

    /// Bitwise disjunction of two integers of the same kind.
    pub fn bitwise_or(&self, other: &Number) -> (r: Number)
        requires
            self.same_kind(*other),
            self.is_integer(),
        ensures
            r == match (*self, *other) {
                (Number::Int(a), Number::Int(b)) => Number::Int(a | b),
                (Number::Uint(a), Number::Uint(b)) => Number::Uint(a | b),
                _ => *self,
            },
    {
        match (self, other) {
            (Number::Int(a), Number::Int(b)) => Number::Int(*a | *b),
            (Number::Uint(a), Number::Uint(b)) => Number::Uint(*a | *b),
            _ => Number::Uint(0),
        }
    }

    /// Bitwise exclusive disjunction of two integers of the same kind.
    pub fn bitwise_xor(&self, other: &Number) -> (r: Number)
        requires
            self.same_kind(*other),
            self.is_integer(),
        ensures
            r == match (*self, *other) {
                (Number::Int(a), Number::Int(b)) => Number::Int(a ^ b),
                (Number::Uint(a), Number::Uint(b)) => Number::Uint(a ^ b),
                _ => *self,
            },
    {
        match (self, other) {
            (Number::Int(a), Number::Int(b)) => Number::Int(*a ^ *b),
            (Number::Uint(a), Number::Uint(b)) => Number::Uint(*a ^ *b),
            _ => Number::Uint(0),
        }
    }

    /// `self` shifted left by `other` bits, which must be a shift within the word.
    pub fn bitshift_left(&self, other: &Number) -> (r: Number)
        requires
            self.same_kind(*other),
            self.is_integer(),
            0 <= other.int_value() < 64,
        ensures
            r == match (*self, *other) {
                (Number::Int(a), Number::Int(b)) => Number::Int(a << (b as u64)),
                (Number::Uint(a), Number::Uint(b)) => Number::Uint(a << b),
                _ => *self,
            },
    {
        match (self, other) {
            (Number::Int(a), Number::Int(b)) => Number::Int(*a << (*b as u64)),
            (Number::Uint(a), Number::Uint(b)) => Number::Uint(*a << *b),
            _ => Number::Uint(0),
        }
    }

    /// `self` shifted right by `other` bits (arithmetic for `Int`, logical for `Uint`),
    /// which must be a shift within the word.
    pub fn bitshift_right(&self, other: &Number) -> (r: Number)
        requires
            self.same_kind(*other),
            self.is_integer(),
            0 <= other.int_value() < 64,
        ensures
            r == match (*self, *other) {
                (Number::Int(a), Number::Int(b)) => Number::Int(a >> (b as u64)),
                (Number::Uint(a), Number::Uint(b)) => Number::Uint(a >> b),
                _ => *self,
            },
    {
        match (self, other) {
            (Number::Int(a), Number::Int(b)) => Number::Int(*a >> (*b as u64)),
            (Number::Uint(a), Number::Uint(b)) => Number::Uint(*a >> *b),
            _ => Number::Uint(0),
        }
    }

    /// Bitwise complement of an integer.
    pub fn bitwise_not(&self) -> (r: Number)
        requires
            self.is_integer(),
        ensures
            r == match *self {
                Number::Int(a) => Number::Int(!a),
                Number::Uint(a) => Number::Uint(!a),
                _ => *self,
            },
    {
        match self {
            Number::Int(a) => Number::Int(!*a),
            Number::Uint(a) => Number::Uint(!*a),
            Number::Float(b) => Number::Float(*b),
        }
    }

    fn order_key(bits: u64) -> (r: i128)
        ensures
            r == float_order_key(bits),
    {
        let m = (bits % F64_SIGN_BIT) as i128;
        if bits >= F64_SIGN_BIT {
            -m
        } else {
            m
        }
    }

    /// Evaluates comparison `c` between two values of the same kind.
    pub fn compare(&self, other: &Number, c: Comparison) -> (r: bool)
        requires
            self.same_kind(*other),
        ensures
            r == self.compares(*other, c),
    {
        let (a, b): (i128, i128) = match (self, other) {
            (Number::Int(x), Number::Int(y)) => (*x as i128, *y as i128),
            (Number::Uint(x), Number::Uint(y)) => (*x as i128, *y as i128),
            (Number::Float(x), Number::Float(y)) => {
                if *x % F64_SIGN_BIT > F64_INFINITY_BITS || *y % F64_SIGN_BIT > F64_INFINITY_BITS {
                    return false;
                }
                (Self::order_key(*x), Self::order_key(*y))
            },
            _ => (0, 0),
        };
        match c {
            Comparison::Greater => a > b,
            Comparison::Less => a < b,
            Comparison::GreaterEqual => a >= b,
            Comparison::LessEqual => a <= b,
            Comparison::Equal => a == b,
        }
    }

    pub fn greater(&self, other: &Number) -> (r: bool)
        requires
            self.same_kind(*other),
        ensures
            r == self.compares(*other, Comparison::Greater),
    {
        self.compare(other, Comparison::Greater)
    }

    pub fn less(&self, other: &Number) -> (r: bool)
        requires
            self.same_kind(*other),
        ensures
            r == self.compares(*other, Comparison::Less),
    {
        self.compare(other, Comparison::Less)
    }

    pub fn greater_equal(&self, other: &Number) -> (r: bool)
        requires
            self.same_kind(*other),
        ensures
            r == self.compares(*other, Comparison::GreaterEqual),
    {
        self.compare(other, Comparison::GreaterEqual)
    }

    pub fn less_equal(&self, other: &Number) -> (r: bool)
        requires
            self.same_kind(*other),
        ensures
            r == self.compares(*other, Comparison::LessEqual),
    {
        self.compare(other, Comparison::LessEqual)
    }

    pub fn equal(&self, other: &Number) -> (r: bool)
        requires
            self.same_kind(*other),
        ensures
            r == self.compares(*other, Comparison::Equal),
    {
        self.compare(other, Comparison::Equal)
    }
}

/// The value a literal token denotes.
#[derive(Debug)]
pub enum LiteralValue {
    Char(char),
    String(String),
    Array { element_type: DataType, items: Vec<LiteralValue> },
    Numeric(Number),
    Bool(bool),
}

/// Structural equality of literal values; numbers compare by value, so NaN equals nothing.
pub open spec fn literal_equal(a: LiteralValue, b: LiteralValue) -> bool
    decreases a,
{
    match (a, b) {
        (LiteralValue::Char(x), LiteralValue::Char(y)) => x == y,
        (LiteralValue::String(x), LiteralValue::String(y)) => x@ == y@,
        (
            LiteralValue::Array { element_type: t1, items: i1 },
            LiteralValue::Array { element_type: t2, items: i2 },
        ) => t1@ == t2@ && i1@.len() == i2@.len() && forall|k: int|
            0 <= k < i1@.len() ==> literal_equal(#[trigger] i1@[k], i2@[k]),
        (LiteralValue::Numeric(x), LiteralValue::Numeric(y)) => x.same_kind(y) && x.compares(
            y,
            Comparison::Equal,
        ),
        (LiteralValue::Bool(x), LiteralValue::Bool(y)) => x == y,
        _ => false,
    }
}

/// The default type of a literal: numbers take the 32-bit type of their kind unless the
/// value is out of its range.
pub open spec fn default_type(v: LiteralValue) -> Ty {
    match v {
        LiteralValue::Char(_) => Ty::Char,
        LiteralValue::String(_) => Ty::String,
        LiteralValue::Array { element_type, .. } => Ty::Array(Box::new(element_type@)),
        LiteralValue::Numeric(Number::Int(n)) => if i32::MIN <= n <= i32::MAX {
            Ty::I32
        } else {
            Ty::I64
        },
        LiteralValue::Numeric(Number::Uint(n)) => if n <= u32::MAX {
            Ty::U32
        } else {
            Ty::U64
        },
        LiteralValue::Numeric(Number::Float(b)) => if float_fits_f32(b) || float_is_nan(b) {
            Ty::F32
        } else {
            Ty::F64
        },
        LiteralValue::Bool(_) => Ty::Bool,
    }
}

/// The value is a signed integer literal in `[lo, hi]`.
pub open spec fn signed_literal_within(value: Option<&LiteralValue>, lo: int, hi: int) -> bool {
    match value {
        Some(LiteralValue::Numeric(Number::Int(n))) => lo <= *n <= hi,
        _ => false,
    }
}

/// The value is an unsigned integer literal of at most `hi`.
pub open spec fn unsigned_literal_at_most(value: Option<&LiteralValue>, hi: int) -> bool {
    match value {
        Some(LiteralValue::Numeric(Number::Uint(n))) => *n <= hi,
        _ => false,
    }
}

/// The value is a float literal within the range of `f32`.
pub open spec fn float_literal_fits_f32(value: Option<&LiteralValue>) -> bool {
    match value {
        Some(LiteralValue::Numeric(Number::Float(b))) => float_fits_f32(*b),
        _ => false,
    }
}

/// Implicit casts to a scalar target: each target accepts some narrower types outright,
/// and literals whose known value it can hold.
pub open spec fn scalar_implicitly_castable(src: Ty, target: Ty, value: Option<&LiteralValue>) -> bool {
    match target {
        Ty::I8 => signed_literal_within(value, -0x80, 0x7f) || unsigned_literal_at_most(value, 0x7f),
        Ty::I16 => src is I8 || src is U8 || signed_literal_within(value, -0x8000, 0x7fff)
            || unsigned_literal_at_most(value, 0x7fff),
        Ty::I32 => src is I8 || src is U8 || src is I16 || src is U16 || signed_literal_within(
            value,
            i32::MIN as int,
            i32::MAX as int,
        ) || unsigned_literal_at_most(value, i32::MAX as int),
        Ty::I64 => src is I8 || src is U8 || src is I16 || src is U16 || src is I32 || src is U32
            || unsigned_literal_at_most(value, i64::MAX as int),
        Ty::U8 => signed_literal_within(value, 0, 0xff) || unsigned_literal_at_most(value, 0xff),
        Ty::U16 => src is U8 || signed_literal_within(value, 0, 0xffff) || unsigned_literal_at_most(
            value,
            0xffff,
        ),
        Ty::U32 => src is U8 || src is U16 || signed_literal_within(value, 0, u32::MAX as int)
            || unsigned_literal_at_most(value, u32::MAX as int),
        Ty::U64 => src is U8 || src is U16 || src is U32 || signed_literal_within(
            value,
            0,
            i64::MAX as int,
        ),
        Ty::F32 => src.is_integer() || float_literal_fits_f32(value),
        Ty::F64 => src.is_integer() || src is F32,
        _ => false,
    }
}

/// Whether the compiler may insert a cast from `src` to `target`, where `value` is the
/// literal the source expression is known to be, if any.
pub open spec fn implicitly_castable(src: Ty, target: Ty, value: Option<&LiteralValue>) -> bool
    decreases src,
{
    if src == target || target is Any {
        true
    } else {
        match src {
            Ty::Any => false,
            Ty::Array(e) => match target {
                Ty::Array(f) => *e is Void || implicitly_castable(*e, *f, None) || match value {
                    Some(LiteralValue::Array { items, .. }) => forall|k: int|
                        0 <= k < items@.len() ==> implicitly_castable(
                            *e,
                            *f,
                            Some(&#[trigger] items@[k]),
                        ),
                    _ => false,
                },
                _ => false,
            },
            _ => scalar_implicitly_castable(src, target, value),
        }
    }
}

/// The number of bytes a value of the type occupies, for types of fixed size.
pub open spec fn static_size_of(t: Ty) -> Option<nat> {
    match t {
        Ty::Bool | Ty::Char | Ty::I8 | Ty::U8 => Some(1),
        Ty::I16 | Ty::U16 => Some(2),
        Ty::I32 | Ty::U32 | Ty::F32 => Some(4),
        Ty::I64 | Ty::U64 | Ty::F64 | Ty::Ref(_) | Ty::Function { .. } => Some(8),
        Ty::Void => Some(0),
        _ => None,
    }
}

/// A type has no fixed size.
#[derive(PartialEq, Eq, Structural, Debug, Clone, Copy)]
pub struct NoStaticSize;

impl DataType {
    /// Whether the compiler may insert a cast from `self` to `target`; `self_value` is the
    /// literal the expression is known to be, which lets a literal that fits narrow.
    pub fn is_implicitly_castable_to(&self, target: &DataType, self_value: Option<&LiteralValue>) -> (r: bool)
        ensures
            r == implicitly_castable(self@, target@, self_value),
        decreases self,
    {
        if self.same_as(target) || matches!(target, DataType::Any) {
            return true;
        }
        match self {
            DataType::Any => false,
            DataType::Array(element_type) => {
                if let DataType::Array(target_element_type) = target {
                    if matches!(**element_type, DataType::Void) {
                        return true;
                    }
                    if (**element_type).is_implicitly_castable_to(&**target_element_type, None) {
                        return true;
                    }
                    match self_value {
                        Some(LiteralValue::Array { items, .. }) => {
                            let mut i: usize = 0;
                            while i < items.len()
                                invariant
                                    i <= items.len(),
                                    self is Array && self->Array_0 == *element_type,
                                    target is Array && target->Array_0 == *target_element_type,
                                    self_value == Some(&LiteralValue::Array { element_type: self_value->0->element_type, items: *items }),
                                    !implicitly_castable(element_type@, target_element_type@, None),
                                    !(element_type@ is Void),
                                    self@ != target@,
                                    !(target@ is Any),
                                    forall|k: int|
                                        0 <= k < i ==> implicitly_castable(
                                            element_type@,
                                            target_element_type@,
                                            Some(&#[trigger] items@[k]),
                                        ),
                                decreases items.len() - i,
                            {
                                if !(**element_type).is_implicitly_castable_to(
                                    &**target_element_type,
                                    Some(&items[i]),
                                ) {
                                    assert(self@ == Ty::Array(Box::new(element_type@)));
                                    assert(target@ == Ty::Array(Box::new(target_element_type@)));
                                    assert(!implicitly_castable(element_type@, target_element_type@, Some(&items@[i as int])));
                                    assert(match self_value {
                                        Some(LiteralValue::Array { items: its, .. }) => its@ == items@,
                                        _ => false,
                                    });
                                    assert(!implicitly_castable(self@, target@, self_value));
                                    return false;
                                }
                                i += 1;
                            }
                            true
                        },
                        _ => false,
                    }
                } else {
                    false
                }
            },
            _ => scalar_implicitly_castable_to(self, target, self_value),
        }
    }

    /// The number of bytes a value of this type occupies; fails for types without a
    /// fixed size (strings, arrays, `Any`).
    pub fn static_size(&self) -> (r: Result<usize, NoStaticSize>)
        ensures
            r is Ok <==> static_size_of(self@) is Some,
            r is Ok ==> r->Ok_0 == static_size_of(self@)->0,
    {
        match self {
            DataType::Bool | DataType::Char | DataType::I8 | DataType::U8 => Ok(1),
            DataType::I16 | DataType::U16 => Ok(2),
            DataType::I32 | DataType::U32 | DataType::F32 => Ok(4),
            DataType::I64 | DataType::U64 | DataType::F64 | DataType::Ref(_)
            | DataType::Function { .. } => Ok(8),
            DataType::Void => Ok(0),
            _ => Err(NoStaticSize),
        }
    }
}

fn signed_literal_in(value: Option<&LiteralValue>, lo: i64, hi: i64) -> (r: bool)
    ensures
        r == signed_literal_within(value, lo as int, hi as int),
{
    match value {
        Some(LiteralValue::Numeric(Number::Int(n))) => lo <= *n && *n <= hi,
        _ => false,
    }
}

fn unsigned_literal_upto(value: Option<&LiteralValue>, hi: u64) -> (r: bool)
    ensures
        r == unsigned_literal_at_most(value, hi as int),
{
    match value {
        Some(LiteralValue::Numeric(Number::Uint(n))) => *n <= hi,
        _ => false,
    }
}

fn scalar_implicitly_castable_to(src: &DataType, target: &DataType, value: Option<&LiteralValue>) -> (r: bool)
    ensures
        r == scalar_implicitly_castable(src@, target@, value),
{
    match target {
        DataType::I8 => signed_literal_in(value, -0x80, 0x7f) || unsigned_literal_upto(value, 0x7f),
        DataType::I16 => matches!(src, DataType::I8 | DataType::U8)
            || signed_literal_in(value, -0x8000, 0x7fff) || unsigned_literal_upto(value, 0x7fff),
        DataType::I32 => matches!(src, DataType::I8 | DataType::U8 | DataType::I16 | DataType::U16)
            || signed_literal_in(value, i32::MIN as i64, i32::MAX as i64)
            || unsigned_literal_upto(value, i32::MAX as u64),
        DataType::I64 => matches!(src,
            DataType::I8 | DataType::U8 | DataType::I16 | DataType::U16 | DataType::I32 | DataType::U32)
            || unsigned_literal_upto(value, i64::MAX as u64),
        DataType::U8 => signed_literal_in(value, 0, 0xff) || unsigned_literal_upto(value, 0xff),
        DataType::U16 => matches!(src, DataType::U8) || signed_literal_in(value, 0, 0xffff)
            || unsigned_literal_upto(value, 0xffff),
        DataType::U32 => matches!(src, DataType::U8 | DataType::U16)
            || signed_literal_in(value, 0, u32::MAX as i64)
            || unsigned_literal_upto(value, u32::MAX as u64),
        DataType::U64 => matches!(src, DataType::U8 | DataType::U16 | DataType::U32)
            || signed_literal_in(value, 0, i64::MAX),
        DataType::F32 => matches!(src,
            DataType::I8 | DataType::U8 | DataType::I16 | DataType::U16 | DataType::I32 | DataType::U32
            | DataType::I64 | DataType::U64) || match value {
            Some(LiteralValue::Numeric(Number::Float(b))) => *b % F64_SIGN_BIT <= F32_MAX_AS_F64_BITS,
            _ => false,
        },
        DataType::F64 => matches!(src,
            DataType::I8 | DataType::U8 | DataType::I16 | DataType::U16 | DataType::I32 | DataType::U32
            | DataType::I64 | DataType::U64 | DataType::F32),
        _ => false,
    }
}

impl LiteralValue {
    /// Structural equality: arrays compare element type and items pairwise; numbers of
    /// different kinds are unequal.
    pub fn equal(&self, other: &LiteralValue) -> (r: bool)
        ensures
            r == literal_equal(*self, *other),
        decreases self,
    {
        match (self, other) {
            (LiteralValue::Char(x), LiteralValue::Char(y)) => *x == *y,
            (LiteralValue::String(x), LiteralValue::String(y)) => x.eq(y),
            (
                LiteralValue::Array { element_type: t1, items: i1 },
                LiteralValue::Array { element_type: t2, items: i2 },
            ) => {
                if !t1.same_as(t2) || i1.len() != i2.len() {
                    return false;
                }
                let mut i: usize = 0;
                while i < i1.len()
                    invariant
                        i1.len() == i2.len(),
                        i <= i1.len(),
                        forall|k: int| 0 <= k < i ==> literal_equal(#[trigger] i1@[k], i2@[k]),
                        self is Array && self->items == *i1,
                        other is Array && other->items == *i2,
                        t1@ == t2@,
                    decreases i1.len() - i,
                {
                    assert(decreases_to!(*self => self->items));
                    assert(decreases_to!(*i1 => i1@));
                    assert(decreases_to!(i1@ => i1@[i as int]));
                    if !i1[i].equal(&i2[i]) {
                        return false;
                    }
                    i += 1;
                }
                true
            },
            (LiteralValue::Numeric(x), LiteralValue::Numeric(y)) => {
                match (x, y) {
                    (Number::Int(_), Number::Int(_)) | (Number::Uint(_), Number::Uint(_)) | (
                        Number::Float(_),
                        Number::Float(_),
                    ) => x.equal(y),
                    _ => false,
                }
            },
            (LiteralValue::Bool(x), LiteralValue::Bool(y)) => *x == *y,
            _ => false,
        }
    }

    /// The type a literal has when nothing else decides it.
    pub fn data_type(&self) -> (r: DataType)
        ensures
            r@ == default_type(*self),
    {
        match self {
            LiteralValue::Char(_) => DataType::Char,
            LiteralValue::String(_) => DataType::String,
            LiteralValue::Array { element_type, .. } => DataType::Array(Box::new(element_type.duplicate())),
            LiteralValue::Numeric(Number::Int(n)) => if i32::MIN as i64 <= *n && *n <= i32::MAX as i64 {
                DataType::I32
            } else {
                DataType::I64
            },
            LiteralValue::Numeric(Number::Uint(n)) => if *n <= u32::MAX as u64 {
                DataType::U32
            } else {
                DataType::U64
            },
            LiteralValue::Numeric(Number::Float(b)) => {
                let magnitude = *b % F64_SIGN_BIT;
                if magnitude <= F32_MAX_AS_F64_BITS || magnitude > F64_INFINITY_BITS {
                    DataType::F32
                } else {
                    DataType::F64
                }
            },
            LiteralValue::Bool(_) => DataType::Bool,
        }
    }
}

/// Canonical display name of a type.
pub open spec fn display_name(t: Ty) -> Seq<char>
    decreases t,
{
    match t {
        Ty::Bool => "bool"@,
        Ty::Char => "char"@,
        Ty::String => "str"@,
        Ty::Array(e) => "["@ + display_name(*e) + "]"@,
        Ty::Ref(e) => "&"@ + display_name(*e),
        Ty::I8 => "i8"@,
        Ty::I16 => "i16"@,
        Ty::I32 => "i32"@,
        Ty::I64 => "i64"@,
        Ty::U8 => "u8"@,
        Ty::U16 => "u16"@,
        Ty::U32 => "u32"@,
        Ty::U64 => "u64"@,
        Ty::F32 => "f32"@,
        Ty::F64 => "f64"@,
        Ty::Function { params, return_type } => "fn("@ + display_name_list(params) + ") -> "@
            + display_name(*return_type),
        Ty::Void => "void"@,
        Ty::Any => "any"@,
    }
}

/// The names of a list of types, separated by `", "`.
pub open spec fn display_name_list(ts: Seq<Ty>) -> Seq<char>
    decreases ts,
{
    if ts.len() == 0 {
        Seq::empty()
    } else if ts.len() == 1 {
        display_name(ts[0])
    } else {
        display_name_list(ts.drop_last()) + ", "@ + display_name(ts.last())
    }
}

impl DataType {
    /// The canonical display name of the type, composed recursively for arrays, pointers
    /// and function signatures.
    pub fn name_leaked(&self) -> (r: String)
        ensures
            r@ == display_name(self@),
        decreases self,
    {
        match self {
            DataType::Bool => String::from_str("bool"),
            DataType::Char => String::from_str("char"),
            DataType::String => String::from_str("str"),
            DataType::Array(e) => {
                let mut name = String::from_str("[");
                let inner = (**e).name_leaked();
                name.append(inner.as_str());
                name.append("]");
                name
            },
            DataType::Ref(e) => {
                let mut name = String::from_str("&");
                let inner = (**e).name_leaked();
                name.append(inner.as_str());
                name
            },
            DataType::I8 => String::from_str("i8"),
            DataType::I16 => String::from_str("i16"),
            DataType::I32 => String::from_str("i32"),
            DataType::I64 => String::from_str("i64"),
            DataType::U8 => String::from_str("u8"),
            DataType::U16 => String::from_str("u16"),
            DataType::U32 => String::from_str("u32"),
            DataType::U64 => String::from_str("u64"),
            DataType::F32 => String::from_str("f32"),
            DataType::F64 => String::from_str("f64"),
            DataType::Function { params, return_type } => {
                let mut name = String::from_str("fn(");
                let ghost ps = self@->params;
                let mut i: usize = 0;
                while i < params.len()
                    invariant
                        i <= params.len(),
                        ps.len() == params.len(),
                        forall|k: int| 0 <= k < params.len() ==> ps[k] == #[trigger] params@[k]@,
                        name@ == "fn("@ + display_name_list(ps.take(i as int)),
                        self is Function && self->params == *params,
                    decreases params.len() - i,
                {
                    assert(decreases_to!(*self => self->params));
                    assert(decreases_to!(*params => params@));
                    assert(decreases_to!(params@ => params@[i as int]));
                    let item = params[i].name_leaked();
                    proof {
                        let next = ps.take(i + 1);
                        assert(next.drop_last() =~= ps.take(i as int));
                        assert(next.last() == ps[i as int]);
                    }
                    if i > 0 {
                        name.append(", ");
                    }
                    name.append(item.as_str());
                    proof {
                        if i == 0 {
                            assert(ps.take(1).len() == 1);
                            assert(display_name_list(ps.take(0)) =~= Seq::<char>::empty());
                        }
                    }
                    assert(name@ =~= "fn("@ + display_name_list(ps.take(i + 1)));
                    i += 1;
                }
                assert(ps.take(i as int) =~= ps);
                name.append(") -> ");
                let ret = (**return_type).name_leaked();
                name.append(ret.as_str());
                name
            },
            DataType::Void => String::from_str("void"),
            DataType::Any => String::from_str("any"),
        }
    }
}

/// Width in bytes of an integer type.
pub open spec fn integer_width(t: Ty) -> int {
    match t {
        Ty::I8 | Ty::U8 => 1,
        Ty::I16 | Ty::U16 => 2,
        Ty::I32 | Ty::U32 => 4,
        _ => 8,
    }
}

/// Every type casts to itself, explicitly and implicitly.
pub proof fn lemma_casts_reflexive(t: Ty)
    ensures
        t.castable(t),
        implicitly_castable(t, t, None),
{
}

/// Among integer types of one signedness, a narrower type casts implicitly to a wider one,
/// and without a known value a wider one never casts implicitly to a narrower one.
pub proof fn lemma_integer_widening(a: Ty, b: Ty)
    requires
        a.is_integer(),
        b.is_integer(),
        a.is_signed_integer() == b.is_signed_integer(),
        integer_width(a) < integer_width(b),
    ensures
        implicitly_castable(a, b, None),
        !implicitly_castable(b, a, None),
{
}

/// Every type casts implicitly to `Any`, and `Any` casts implicitly to no other type,
/// whatever value is known.
pub proof fn lemma_any_is_a_sink(t: Ty, value: Option<&LiteralValue>)
    ensures
        implicitly_castable(t, Ty::Any, value),
        t != Ty::Any ==> !implicitly_castable(Ty::Any, t, value),
{
}

} // verus!
