use oxide::data_types::{
    Comparison, DataType, DivisionByZero, LiteralValue, NoStaticSize, Number,
};

fn castable(a: &DataType, b: &DataType) -> bool {
    DataType::is_implicitly_castable_to(a, b, None)
}

fn arr(t: DataType) -> DataType {
    DataType::Array(Box::new(t))
}

fn int_array(items: &[i64]) -> LiteralValue {
    LiteralValue::Array {
        element_type: DataType::I32,
        items: items.iter().map(|n| LiteralValue::Numeric(Number::Int(*n))).collect(),
    }
}

fn all_types() -> Vec<DataType> {
    vec![
        DataType::Bool,
        DataType::Char,
        DataType::String,
        arr(DataType::U8),
        DataType::Ref(Box::new(DataType::I32)),
        DataType::I8,
        DataType::I16,
        DataType::I32,
        DataType::I64,
        DataType::U8,
        DataType::U16,
        DataType::U32,
        DataType::U64,
        DataType::F32,
        DataType::F64,
        DataType::Function { params: vec![DataType::I32, DataType::Bool], return_type: Box::new(DataType::Void) },
        DataType::Void,
        DataType::Any,
    ]
}

#[test]
fn implicit_casts() {
    // Assert castable to larger types
    assert!(castable(&DataType::I8, &DataType::I16));
    assert!(castable(&DataType::I8, &DataType::I32));
    assert!(castable(&DataType::I8, &DataType::I64));
    assert!(castable(&DataType::I16, &DataType::I32));
    assert!(castable(&DataType::I16, &DataType::I64));
    assert!(castable(&DataType::I32, &DataType::I64));

    assert!(castable(&DataType::U8, &DataType::U16));
    assert!(castable(&DataType::U8, &DataType::U32));
    assert!(castable(&DataType::U8, &DataType::U64));
    assert!(castable(&DataType::U16, &DataType::U32));
    assert!(castable(&DataType::U16, &DataType::U64));
    assert!(castable(&DataType::U32, &DataType::U64));

    assert!(castable(&DataType::F32, &DataType::F64));

    // Assert not castable to smaller types
    assert!(!castable(&DataType::I16, &DataType::I8));
    assert!(!castable(&DataType::I32, &DataType::I8));
    assert!(!castable(&DataType::I64, &DataType::I8));
    assert!(!castable(&DataType::I32, &DataType::I16));
    assert!(!castable(&DataType::I64, &DataType::I16));
    assert!(!castable(&DataType::I64, &DataType::I32));

    assert!(!castable(&DataType::U16, &DataType::U8));
    assert!(!castable(&DataType::U32, &DataType::U8));
    assert!(!castable(&DataType::U64, &DataType::U8));
    assert!(!castable(&DataType::U32, &DataType::U16));
    assert!(!castable(&DataType::U64, &DataType::U16));
    assert!(!castable(&DataType::U64, &DataType::U32));

    assert!(!castable(&DataType::F64, &DataType::F32));

    // Any cannot be cast to other types.
    assert!(!castable(&arr(DataType::Any), &arr(DataType::Char)));

    // Other types can be cast to Any
    assert!(castable(&arr(DataType::Char), &DataType::Any));

    // Array implicit casts
    assert!(castable(&arr(DataType::I8), &arr(DataType::I16)));

    // Array of positive signed integers can be cast to array of unsigned integers.
    let a = int_array(&[1, 2, 3]);
    let src = arr(DataType::I32);
    assert!(src.is_implicitly_castable_to(&arr(DataType::I64), Some(&a)));
    assert!(src.is_implicitly_castable_to(&arr(DataType::U8), Some(&a)));
    assert!(src.is_implicitly_castable_to(&arr(DataType::U16), Some(&a)));
    assert!(src.is_implicitly_castable_to(&arr(DataType::U32), Some(&a)));
    assert!(src.is_implicitly_castable_to(&arr(DataType::U64), Some(&a)));

    // Array with negative integers can only be cast to array of signed integers, not unsigned integers.
    let b = int_array(&[1, -2, 3]);
    assert!(src.is_implicitly_castable_to(&arr(DataType::I64), Some(&b)));
    assert!(!src.is_implicitly_castable_to(&arr(DataType::U8), Some(&b)));
    assert!(!src.is_implicitly_castable_to(&arr(DataType::U16), Some(&b)));
    assert!(!src.is_implicitly_castable_to(&arr(DataType::U32), Some(&b)));
    assert!(!src.is_implicitly_castable_to(&arr(DataType::U64), Some(&b)));
}

#[test]
fn every_type_casts_to_itself() {
    for t in all_types() {
        assert!(t.is_castable_to(&t), "{}", t.name_leaked());
        assert!(t.is_implicitly_castable_to(&t, None), "{}", t.name_leaked());
    }
}

#[test]
fn narrower_integers_widen_implicitly() {
    let signed = [DataType::I8, DataType::I16, DataType::I32, DataType::I64];
    let unsigned = [DataType::U8, DataType::U16, DataType::U32, DataType::U64];
    for ladder in [&signed, &unsigned] {
        for i in 0..4 {
            for j in (i + 1)..4 {
                assert!(castable(&ladder[i], &ladder[j]));
                assert!(!castable(&ladder[j], &ladder[i]));
            }
        }
    }
}

#[test]
fn literal_values_narrow_when_they_fit() {
    let five = LiteralValue::Numeric(Number::Int(5));
    let minus_five = LiteralValue::Numeric(Number::Int(-5));
    assert!(DataType::I32.is_implicitly_castable_to(&DataType::U8, Some(&five)));
    for t in [DataType::U8, DataType::U16, DataType::U32, DataType::U64] {
        assert!(!DataType::I32.is_implicitly_castable_to(&t, Some(&minus_five)));
    }
    assert!(DataType::I32.is_implicitly_castable_to(&DataType::I64, Some(&minus_five)));
    let edge = LiteralValue::Numeric(Number::Int(-128));
    assert!(DataType::I32.is_implicitly_castable_to(&DataType::I8, Some(&edge)));
    let past_edge = LiteralValue::Numeric(Number::Int(-129));
    assert!(!DataType::I32.is_implicitly_castable_to(&DataType::I8, Some(&past_edge)));
    let big = LiteralValue::Numeric(Number::Uint(i64::MAX as u64 + 1));
    assert!(!DataType::U64.is_implicitly_castable_to(&DataType::I64, Some(&big)));
    let fits = LiteralValue::Numeric(Number::Float(1.5f64.to_bits()));
    assert!(DataType::F64.is_implicitly_castable_to(&DataType::F32, Some(&fits)));
    let huge = LiteralValue::Numeric(Number::Float(1.0e300f64.to_bits()));
    assert!(!DataType::F64.is_implicitly_castable_to(&DataType::F32, Some(&huge)));
}

#[test]
fn arrays_of_fitting_literals_are_covariant() {
    let src = arr(DataType::I32);
    let non_negative = int_array(&[0, 7, 255]);
    for t in [DataType::U8, DataType::U16, DataType::U32, DataType::U64, DataType::I64] {
        assert!(src.is_implicitly_castable_to(&arr(t), Some(&non_negative)));
    }
    let one_negative = int_array(&[4, -1, 9]);
    for t in [DataType::U8, DataType::U16, DataType::U32, DataType::U64] {
        assert!(!src.is_implicitly_castable_to(&arr(t), Some(&one_negative)));
    }
    assert!(src.is_implicitly_castable_to(&arr(DataType::I64), Some(&one_negative)));
    assert!(arr(DataType::Void).is_implicitly_castable_to(&arr(DataType::Bool), None));
}

#[test]
fn any_is_a_sink() {
    let five = LiteralValue::Numeric(Number::Int(5));
    for t in all_types() {
        assert!(t.is_implicitly_castable_to(&DataType::Any, None));
        if t != DataType::Any {
            assert!(!DataType::Any.is_implicitly_castable_to(&t, None));
            assert!(!DataType::Any.is_implicitly_castable_to(&t, Some(&five)));
        }
    }
}

#[test]
fn explicit_casts() {
    assert!(DataType::U8.is_castable_to(&DataType::Char));
    assert!(DataType::I8.is_castable_to(&DataType::F64));
    assert!(DataType::Char.is_castable_to(&DataType::I8));
    assert!(!DataType::Char.is_castable_to(&DataType::I32));
    assert!(DataType::F64.is_castable_to(&DataType::I16));
    assert!(DataType::U64.is_castable_to(&DataType::Ref(Box::new(DataType::Bool))));
    assert!(!DataType::I64.is_castable_to(&DataType::Ref(Box::new(DataType::Bool))));
    let p = DataType::Ref(Box::new(DataType::I8));
    assert!(p.is_castable_to(&DataType::Ref(Box::new(DataType::String))));
    assert!(p.is_castable_to(&DataType::U64));
    assert!(!p.is_castable_to(&DataType::I64));
    assert!(!DataType::Bool.is_castable_to(&DataType::U8));
    assert!(!DataType::String.is_castable_to(&DataType::Char));
}

#[test]
fn type_names() {
    assert_eq!(DataType::U16.name_leaked(), "u16");
    assert_eq!(arr(DataType::Char).name_leaked(), "[char]");
    assert_eq!(DataType::Ref(Box::new(arr(DataType::F32))).name_leaked(), "&[f32]");
    let f = DataType::Function {
        params: vec![DataType::I32, DataType::Ref(Box::new(DataType::Bool)), DataType::String],
        return_type: Box::new(DataType::Void),
    };
    assert_eq!(f.name_leaked(), "fn(i32, &bool, str) -> void");
    let g = DataType::Function { params: vec![], return_type: Box::new(DataType::U8) };
    assert_eq!(g.name_leaked(), "fn() -> u8");
}

#[test]
fn default_literal_types() {
    let t = |v: LiteralValue| v.data_type().name_leaked();
    assert_eq!(t(LiteralValue::Numeric(Number::Int(i32::MAX as i64))), "i32");
    assert_eq!(t(LiteralValue::Numeric(Number::Int(i32::MAX as i64 + 1))), "i64");
    assert_eq!(t(LiteralValue::Numeric(Number::Int(i32::MIN as i64 - 1))), "i64");
    assert_eq!(t(LiteralValue::Numeric(Number::Uint(u32::MAX as u64))), "u32");
    assert_eq!(t(LiteralValue::Numeric(Number::Uint(u32::MAX as u64 + 1))), "u64");
    assert_eq!(t(LiteralValue::Numeric(Number::Float((f32::MAX as f64).to_bits()))), "f32");
    assert_eq!(t(LiteralValue::Numeric(Number::Float((-(f32::MAX as f64) * 2.0).to_bits()))), "f64");
    assert_eq!(t(LiteralValue::Numeric(Number::Float(f64::NAN.to_bits()))), "f32");
    assert_eq!(t(LiteralValue::Char('x')), "char");
    assert_eq!(t(LiteralValue::String("hi".to_string())), "str");
    assert_eq!(t(LiteralValue::Bool(true)), "bool");
    assert_eq!(t(int_array(&[1])), "[i32]");
}

#[test]
fn static_sizes() {
    assert_eq!(DataType::Bool.static_size(), Ok(1));
    assert_eq!(DataType::I16.static_size(), Ok(2));
    assert_eq!(DataType::F32.static_size(), Ok(4));
    assert_eq!(DataType::U64.static_size(), Ok(8));
    assert_eq!(DataType::Ref(Box::new(DataType::String)).static_size(), Ok(8));
    assert_eq!(DataType::String.static_size(), Err(NoStaticSize));
    assert_eq!(arr(DataType::U8).static_size(), Err(NoStaticSize));
    assert_eq!(DataType::Any.static_size(), Err(NoStaticSize));
}

#[test]
fn division_by_zero_is_reported() {
    assert_eq!(Number::Int(10).div(&Number::Int(0)).err(), Some(DivisionByZero));
    assert_eq!(Number::Uint(10).modulo(&Number::Uint(0)).err(), Some(DivisionByZero));
    assert_eq!(Number::Int(10).modulo(&Number::Int(0)).err(), Some(DivisionByZero));
    let ten = Number::Float(10.0f64.to_bits());
    assert_eq!(ten.div(&Number::Float(0.0f64.to_bits())).err(), Some(DivisionByZero));
    assert_eq!(ten.modulo(&Number::Float((-0.0f64).to_bits())).err(), Some(DivisionByZero));
    assert!(matches!(Number::Int(10).div(&Number::Int(2)), Ok(Number::Int(5))));
}

#[test]
fn integer_arithmetic() {
    assert!(matches!(Number::Int(-7).div(&Number::Int(2)), Ok(Number::Int(-3))));
    assert!(matches!(Number::Int(-7).modulo(&Number::Int(2)), Ok(Number::Int(-1))));
    assert!(matches!(Number::Int(i64::MIN).div(&Number::Int(-1)), Ok(Number::Int(i64::MIN))));
    assert!(matches!(Number::Int(i64::MIN).modulo(&Number::Int(-1)), Ok(Number::Int(0))));
    assert!(matches!(Number::Uint(17).modulo(&Number::Uint(5)), Ok(Number::Uint(2))));
    assert!(matches!(Number::Int(i64::MAX).add(&Number::Int(1)), Number::Int(i64::MIN)));
    assert!(matches!(Number::Uint(0).sub(&Number::Uint(1)), Number::Uint(u64::MAX)));
    assert!(matches!(Number::Int(-4).mul(&Number::Int(6)), Number::Int(-24)));
    assert!(matches!(Number::Uint(0b1100).bitwise_and(&Number::Uint(0b1010)), Number::Uint(0b1000)));
    assert!(matches!(Number::Uint(0b1100).bitwise_or(&Number::Uint(0b1010)), Number::Uint(0b1110)));
    assert!(matches!(Number::Uint(0b1100).bitwise_xor(&Number::Uint(0b1010)), Number::Uint(0b0110)));
    assert!(matches!(Number::Int(1).bitshift_left(&Number::Int(4)), Number::Int(16)));
    assert!(matches!(Number::Int(-16).bitshift_right(&Number::Int(2)), Number::Int(-4)));
    assert!(matches!(Number::Int(0).bitwise_not(), Number::Int(-1)));
    assert!(matches!(Number::Uint(0).bitwise_not(), Number::Uint(u64::MAX)));
}

#[test]
fn comparisons() {
    assert!(Number::Int(-3).less(&Number::Int(2)));
    assert!(Number::Uint(3).greater_equal(&Number::Uint(3)));
    assert!(!Number::Uint(3).greater(&Number::Uint(3)));
    let f = |x: f64| Number::Float(x.to_bits());
    assert!(f(-2.5).less(&f(-1.0)));
    assert!(f(1.0).less_equal(&f(1.0)));
    assert!(f(0.0).equal(&f(-0.0)));
    assert!(!f(f64::NAN).equal(&f(f64::NAN)));
    assert!(!f(f64::NAN).less(&f(1.0)));
    assert!(f(f64::INFINITY).greater(&f(1.0e308)));
    assert!(Number::Int(4).compare(&Number::Int(4), Comparison::Equal));
}

#[test]
fn literal_equality() {
    assert!(int_array(&[1, 2]).equal(&int_array(&[1, 2])));
    assert!(!int_array(&[1, 2]).equal(&int_array(&[1, 3])));
    assert!(!int_array(&[1, 2]).equal(&int_array(&[1])));
    assert!(LiteralValue::String("a".to_string()).equal(&LiteralValue::String("a".to_string())));
    assert!(!LiteralValue::Char('a').equal(&LiteralValue::Bool(true)));
    assert!(!LiteralValue::Numeric(Number::Int(1)).equal(&LiteralValue::Numeric(Number::Uint(1))));
}

#[test]
fn structural_type_equality() {
    let f = |r: DataType| DataType::Function { params: vec![DataType::I8], return_type: Box::new(r) };
    assert!(f(DataType::Bool) == f(DataType::Bool));
    assert!(f(DataType::Bool) != f(DataType::Char));
    assert!(arr(DataType::I8) != DataType::Ref(Box::new(DataType::I8)));
    assert!(arr(arr(DataType::U8)).duplicate() == arr(arr(DataType::U8)));
}
