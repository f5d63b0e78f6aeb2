use edgedb_protocol::value::Value;
use variable_binding::{
    make_variable_input, Capability, Descriptor, InputTypedesc, ParseError, ProtocolVersion,
    ScalarKind, TypePos,
};

fn scalar(kind: ScalarKind) -> Capability {
    Capability::Scalar(kind)
}

fn array(element: Capability) -> Capability {
    Capability::Array(Box::new(element))
}

fn ints(items: &[i32]) -> Value {
    Value::Array(items.iter().map(|n| Value::Int32(*n)).collect())
}

#[test]
fn resolved_array_of_array_of_int32_parses_a_list_of_lists() {
    let all = InputTypedesc {
        proto: ProtocolVersion::new(1, 0),
        array: vec![
            Descriptor::BaseScalar { id: 0x104 },
            Descriptor::Array { type_pos: TypePos(0), dimensions: vec![None] },
            Descriptor::Array { type_pos: TypePos(1), dimensions: vec![None] },
        ],
        root_pos: None,
    };
    let capability = make_variable_input(TypePos(2), &all).unwrap();
    assert_eq!(
        capability.parse(b"[[1, 2, 3], [], [-2147483648, 2147483647]]"),
        Ok(Value::Array(vec![ints(&[1, 2, 3]), ints(&[]), ints(&[i32::MIN, i32::MAX])]))
    );
}

#[test]
fn integers_of_each_width() {
    assert_eq!(scalar(ScalarKind::Int16).parse(b"0"), Ok(Value::Int16(0)));
    assert_eq!(scalar(ScalarKind::Int16).parse(b"32767"), Ok(Value::Int16(i16::MAX)));
    assert_eq!(scalar(ScalarKind::Int16).parse(b"-32768"), Ok(Value::Int16(i16::MIN)));
    assert_eq!(scalar(ScalarKind::Int32).parse(b"2147483647"), Ok(Value::Int32(i32::MAX)));
    assert_eq!(scalar(ScalarKind::Int32).parse(b"-2147483648"), Ok(Value::Int32(i32::MIN)));
    assert_eq!(
        scalar(ScalarKind::Int64).parse(b"9223372036854775807"),
        Ok(Value::Int64(i64::MAX))
    );
    assert_eq!(
        scalar(ScalarKind::Int64).parse(b"-9223372036854775808"),
        Ok(Value::Int64(i64::MIN))
    );
    assert_eq!(scalar(ScalarKind::Int64).parse(b"1234567890123"), Ok(Value::Int64(1234567890123)));
}

#[test]
fn the_kind_decides_the_variant() {
    assert_eq!(scalar(ScalarKind::Int16).parse(b"7"), Ok(Value::Int16(7)));
    assert_eq!(scalar(ScalarKind::Int32).parse(b"7"), Ok(Value::Int32(7)));
    assert_eq!(scalar(ScalarKind::Int64).parse(b"7"), Ok(Value::Int64(7)));
}

#[test]
fn signs_zeros_and_spaces() {
    assert_eq!(scalar(ScalarKind::Int32).parse(b"+15"), Ok(Value::Int32(15)));
    assert_eq!(scalar(ScalarKind::Int32).parse(b"-0"), Ok(Value::Int32(0)));
    assert_eq!(scalar(ScalarKind::Int32).parse(b"000123"), Ok(Value::Int32(123)));
    assert_eq!(scalar(ScalarKind::Int32).parse(b"  \t42\r\n"), Ok(Value::Int32(42)));
    assert_eq!(
        scalar(ScalarKind::Int16).parse(b"0000000000000000000000000000000000000012"),
        Ok(Value::Int16(12))
    );
}

#[test]
fn integers_out_of_range() {
    assert_eq!(scalar(ScalarKind::Int16).parse(b"32768"), Err(ParseError::OutOfRange { at: 0 }));
    assert_eq!(scalar(ScalarKind::Int16).parse(b"-32769"), Err(ParseError::OutOfRange { at: 0 }));
    assert_eq!(
        scalar(ScalarKind::Int32).parse(b" 2147483648"),
        Err(ParseError::OutOfRange { at: 1 })
    );
    assert_eq!(
        scalar(ScalarKind::Int32).parse(b"-2147483649"),
        Err(ParseError::OutOfRange { at: 0 })
    );
    assert_eq!(
        scalar(ScalarKind::Int64).parse(b"9223372036854775808"),
        Err(ParseError::OutOfRange { at: 0 })
    );
    assert_eq!(
        scalar(ScalarKind::Int64).parse(b"-9223372036854775809"),
        Err(ParseError::OutOfRange { at: 0 })
    );
    assert_eq!(
        scalar(ScalarKind::Int64).parse(b"18446744073709551616"),
        Err(ParseError::OutOfRange { at: 0 })
    );
    assert_eq!(
        scalar(ScalarKind::Int64).parse(b"99999999999999999999999999999999999999999999"),
        Err(ParseError::OutOfRange { at: 0 })
    );
    assert_eq!(
        array(scalar(ScalarKind::Int16)).parse(b"[1, 40000]"),
        Err(ParseError::OutOfRange { at: 4 })
    );
}

#[test]
fn malformed_integers() {
    assert_eq!(scalar(ScalarKind::Int32).parse(b""), Err(ParseError::Malformed { at: 0 }));
    assert_eq!(scalar(ScalarKind::Int32).parse(b"   "), Err(ParseError::Malformed { at: 3 }));
    assert_eq!(scalar(ScalarKind::Int32).parse(b"-"), Err(ParseError::Malformed { at: 1 }));
    assert_eq!(scalar(ScalarKind::Int32).parse(b"+-1"), Err(ParseError::Malformed { at: 1 }));
    assert_eq!(scalar(ScalarKind::Int32).parse(b"- 1"), Err(ParseError::Malformed { at: 1 }));
    assert_eq!(scalar(ScalarKind::Int32).parse(b"x"), Err(ParseError::Malformed { at: 0 }));
    assert_eq!(scalar(ScalarKind::Int32).parse(b"12a"), Err(ParseError::Malformed { at: 2 }));
    assert_eq!(scalar(ScalarKind::Int32).parse(b"1 2"), Err(ParseError::Malformed { at: 2 }));
    assert_eq!(scalar(ScalarKind::Int32).parse(b"1.5"), Err(ParseError::Malformed { at: 1 }));
    assert_eq!(scalar(ScalarKind::Int32).parse(b"[1]"), Err(ParseError::Malformed { at: 0 }));
}

#[test]
fn arrays() {
    let list = array(scalar(ScalarKind::Int32));
    assert_eq!(list.parse(b"[]"), Ok(ints(&[])));
    assert_eq!(list.parse(b" [ ] "), Ok(ints(&[])));
    assert_eq!(list.parse(b"[5]"), Ok(ints(&[5])));
    assert_eq!(list.parse(b"[1,2,3]"), Ok(ints(&[1, 2, 3])));
    assert_eq!(list.parse(b"\t[ 1 ,\n-2 , +3 ]\n"), Ok(ints(&[1, -2, 3])));
    assert_eq!(
        array(scalar(ScalarKind::Int64)).parse(b"[9223372036854775807]"),
        Ok(Value::Array(vec![Value::Int64(i64::MAX)]))
    );
}

#[test]
fn nested_arrays_keep_their_structure() {
    let grid = array(array(scalar(ScalarKind::Int32)));
    assert_eq!(grid.parse(b"[]"), Ok(Value::Array(vec![])));
    assert_eq!(grid.parse(b"[[]]"), Ok(Value::Array(vec![ints(&[])])));
    assert_eq!(grid.parse(b"[[1],[2,3]]"), Ok(Value::Array(vec![ints(&[1]), ints(&[2, 3])])));
    let cube = array(array(array(scalar(ScalarKind::Int16))));
    assert_eq!(
        cube.parse(b"[[[1, 2]], [[3], [4]]]"),
        Ok(Value::Array(vec![
            Value::Array(vec![Value::Array(vec![Value::Int16(1), Value::Int16(2)])]),
            Value::Array(vec![
                Value::Array(vec![Value::Int16(3)]),
                Value::Array(vec![Value::Int16(4)]),
            ]),
        ]))
    );
}

#[test]
fn malformed_arrays() {
    let list = array(scalar(ScalarKind::Int32));
    assert_eq!(list.parse(b""), Err(ParseError::Malformed { at: 0 }));
    assert_eq!(list.parse(b"1"), Err(ParseError::Malformed { at: 0 }));
    assert_eq!(list.parse(b"["), Err(ParseError::Malformed { at: 1 }));
    assert_eq!(list.parse(b"[1"), Err(ParseError::Malformed { at: 2 }));
    assert_eq!(list.parse(b"[1,"), Err(ParseError::Malformed { at: 3 }));
    assert_eq!(list.parse(b"[1,]"), Err(ParseError::Malformed { at: 3 }));
    assert_eq!(list.parse(b"[,1]"), Err(ParseError::Malformed { at: 1 }));
    assert_eq!(list.parse(b"[1 2]"), Err(ParseError::Malformed { at: 3 }));
    assert_eq!(list.parse(b"[1]]"), Err(ParseError::Malformed { at: 3 }));
    assert_eq!(list.parse(b"[1] 2"), Err(ParseError::Malformed { at: 4 }));
    assert_eq!(list.parse(b"[[1]]"), Err(ParseError::Malformed { at: 1 }));
    let grid = array(array(scalar(ScalarKind::Int32)));
    assert_eq!(grid.parse(b"[1]"), Err(ParseError::Malformed { at: 1 }));
    assert_eq!(grid.parse(b"[[1], 2]"), Err(ParseError::Malformed { at: 6 }));
    assert_eq!(grid.parse(b"[[1], [2]"), Err(ParseError::Malformed { at: 9 }));
}

#[test]
fn other_kinds_are_not_read_here() {
    for kind in [
        ScalarKind::Str,
        ScalarKind::Uuid,
        ScalarKind::Float32,
        ScalarKind::Float64,
        ScalarKind::Decimal,
        ScalarKind::Bool,
        ScalarKind::Json,
        ScalarKind::BigInt,
    ] {
        assert_eq!(scalar(kind).parse(b"1"), Err(ParseError::Unhandled { kind }));
        assert_eq!(array(scalar(kind)).parse(b"[1]"), Err(ParseError::Unhandled { kind }));
        assert_eq!(array(scalar(kind)).parse(b"[]"), Ok(Value::Array(vec![])));
    }
}
