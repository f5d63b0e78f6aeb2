use edgedb_protocol::codec;
use variable_binding::{
    make_variable_input, scalar_kind, BindError, Capability, Descriptor, InputTypedesc,
    ProtocolVersion, ScalarKind, TupleElement, TypePos,
};

fn table(array: Vec<Descriptor>) -> InputTypedesc {
    InputTypedesc { proto: ProtocolVersion::new(1, 0), array, root_pos: None }
}

fn base(id: u128) -> Descriptor {
    Descriptor::BaseScalar { id }
}

fn array_of(pos: u16) -> Descriptor {
    Descriptor::Array { type_pos: TypePos(pos), dimensions: vec![None] }
}

#[test]
fn registry_holds_the_eleven_kinds() {
    assert_eq!(scalar_kind(0x100), Some(ScalarKind::Uuid));
    assert_eq!(scalar_kind(0x101), Some(ScalarKind::Str));
    assert_eq!(scalar_kind(0x103), Some(ScalarKind::Int16));
    assert_eq!(scalar_kind(0x104), Some(ScalarKind::Int32));
    assert_eq!(scalar_kind(0x105), Some(ScalarKind::Int64));
    assert_eq!(scalar_kind(0x106), Some(ScalarKind::Float32));
    assert_eq!(scalar_kind(0x107), Some(ScalarKind::Float64));
    assert_eq!(scalar_kind(0x108), Some(ScalarKind::Decimal));
    assert_eq!(scalar_kind(0x109), Some(ScalarKind::Bool));
    assert_eq!(scalar_kind(0x10f), Some(ScalarKind::Json));
    assert_eq!(scalar_kind(0x110), Some(ScalarKind::BigInt));
}

#[test]
fn registry_agrees_with_the_protocol_constants() {
    assert_eq!(scalar_kind(codec::STD_STR.as_u128()), Some(ScalarKind::Str));
    assert_eq!(scalar_kind(codec::STD_UUID.as_u128()), Some(ScalarKind::Uuid));
    assert_eq!(scalar_kind(codec::STD_INT16.as_u128()), Some(ScalarKind::Int16));
    assert_eq!(scalar_kind(codec::STD_INT32.as_u128()), Some(ScalarKind::Int32));
    assert_eq!(scalar_kind(codec::STD_INT64.as_u128()), Some(ScalarKind::Int64));
    assert_eq!(scalar_kind(codec::STD_FLOAT32.as_u128()), Some(ScalarKind::Float32));
    assert_eq!(scalar_kind(codec::STD_FLOAT64.as_u128()), Some(ScalarKind::Float64));
    assert_eq!(scalar_kind(codec::STD_DECIMAL.as_u128()), Some(ScalarKind::Decimal));
    assert_eq!(scalar_kind(codec::STD_BOOL.as_u128()), Some(ScalarKind::Bool));
    assert_eq!(scalar_kind(codec::STD_JSON.as_u128()), Some(ScalarKind::Json));
    assert_eq!(scalar_kind(codec::STD_BIGINT.as_u128()), Some(ScalarKind::BigInt));
}

#[test]
fn registry_holds_nothing_else() {
    assert_eq!(scalar_kind(0), None);
    assert_eq!(scalar_kind(0xFF), None);
    assert_eq!(scalar_kind(0x111), None);
    assert_eq!(scalar_kind(u128::MAX), None);
    assert_eq!(scalar_kind(codec::STD_BYTES.as_u128()), None);
    assert_eq!(scalar_kind(codec::STD_DATETIME.as_u128()), None);
    assert_eq!(scalar_kind(codec::STD_DURATION.as_u128()), None);
    assert_eq!(scalar_kind(codec::CAL_LOCAL_DATE.as_u128()), None);
    assert_eq!(scalar_kind(codec::CFG_MEMORY.as_u128()), None);
    for id in 0x100u128..=0x110 {
        let known = matches!(id, 0x100 | 0x101 | 0x103..=0x109 | 0x10f | 0x110);
        assert_eq!(scalar_kind(id).is_some(), known);
    }
}

#[test]
fn base_scalar_resolves_to_its_kind() {
    let all = table(vec![base(0x101), base(0x109)]);
    assert_eq!(make_variable_input(TypePos(0), &all), Ok(Capability::Scalar(ScalarKind::Str)));
    assert_eq!(make_variable_input(TypePos(1), &all), Ok(Capability::Scalar(ScalarKind::Bool)));
}

#[test]
fn unregistered_base_scalar_is_refused_by_name() {
    let all = table(vec![base(0x102), base(0xdead_beef)]);
    assert_eq!(
        make_variable_input(TypePos(0), &all),
        Err(BindError::UnimplementedType { id: 0x102 })
    );
    assert_eq!(
        make_variable_input(TypePos(1), &all),
        Err(BindError::UnimplementedType { id: 0xdead_beef })
    );
}

#[test]
fn scalar_resolves_through_its_base() {
    let all = table(vec![base(0x105), Descriptor::Scalar { base_type_pos: TypePos(0) }]);
    assert_eq!(make_variable_input(TypePos(1), &all), Ok(Capability::Scalar(ScalarKind::Int64)));
}

#[test]
fn scalar_over_unregistered_base_is_refused() {
    let all = table(vec![base(0x10a), Descriptor::Scalar { base_type_pos: TypePos(0) }]);
    assert_eq!(
        make_variable_input(TypePos(1), &all),
        Err(BindError::UnimplementedType { id: 0x10a })
    );
}

#[test]
fn scalar_is_followed_one_hop_only() {
    let all = table(vec![
        base(0x101),
        Descriptor::Scalar { base_type_pos: TypePos(0) },
        Descriptor::Scalar { base_type_pos: TypePos(1) },
    ]);
    assert_eq!(
        make_variable_input(TypePos(2), &all),
        Err(BindError::UnimplementedDescriptor { pos: TypePos(2) })
    );
}

#[test]
fn array_of_array_of_int32_resolves() {
    let all = table(vec![base(0x104), array_of(0), array_of(1)]);
    assert_eq!(
        make_variable_input(TypePos(2), &all),
        Ok(Capability::Array(Box::new(Capability::Array(Box::new(Capability::Scalar(
            ScalarKind::Int32
        ))))))
    );
}

#[test]
fn array_dimensions_are_not_consulted() {
    let plain = table(vec![base(0x101), array_of(0)]);
    let sized = table(vec![
        base(0x101),
        Descriptor::Array { type_pos: TypePos(0), dimensions: vec![Some(3), None, Some(0)] },
    ]);
    assert_eq!(make_variable_input(TypePos(1), &plain), make_variable_input(TypePos(1), &sized));
    assert_eq!(
        make_variable_input(TypePos(1), &sized),
        Ok(Capability::Array(Box::new(Capability::Scalar(ScalarKind::Str))))
    );
}

#[test]
fn array_of_scalar_alias_resolves() {
    let all = table(vec![
        base(0x100),
        Descriptor::Scalar { base_type_pos: TypePos(0) },
        array_of(1),
    ]);
    assert_eq!(
        make_variable_input(TypePos(2), &all),
        Ok(Capability::Array(Box::new(Capability::Scalar(ScalarKind::Uuid))))
    );
}

#[test]
fn array_of_unregistered_element_is_refused() {
    let all = table(vec![base(0x10e), array_of(0)]);
    assert_eq!(
        make_variable_input(TypePos(1), &all),
        Err(BindError::UnimplementedType { id: 0x10e })
    );
}

#[test]
fn containers_are_no_leaves() {
    let all = table(vec![
        base(0x101),
        Descriptor::Tuple { id: 1, element_types: vec![TypePos(0)] },
        Descriptor::NamedTuple {
            elements: vec![TupleElement { name: "a".to_string(), type_pos: TypePos(0) }],
        },
        Descriptor::ObjectShape { elements: vec![] },
        Descriptor::SetOf,
        Descriptor::Range,
        Descriptor::Enumeration,
        Descriptor::InputShape,
        Descriptor::TypeAnnotation,
        array_of(1),
    ]);
    for pos in 1u16..=8 {
        assert_eq!(
            make_variable_input(TypePos(pos), &all),
            Err(BindError::UnimplementedDescriptor { pos: TypePos(pos) })
        );
    }
    assert_eq!(
        make_variable_input(TypePos(9), &all),
        Err(BindError::UnimplementedDescriptor { pos: TypePos(1) })
    );
}

#[test]
fn absent_positions_are_reported() {
    let all = table(vec![
        base(0x101),
        Descriptor::Scalar { base_type_pos: TypePos(7) },
        array_of(9),
    ]);
    assert_eq!(
        make_variable_input(TypePos(3), &all),
        Err(BindError::UnexpectedTypePos { position: 3 })
    );
    assert_eq!(
        make_variable_input(TypePos(1), &all),
        Err(BindError::UnexpectedTypePos { position: 7 })
    );
    assert_eq!(
        make_variable_input(TypePos(2), &all),
        Err(BindError::UnexpectedTypePos { position: 9 })
    );
    assert_eq!(
        make_variable_input(TypePos(0), &table(vec![])),
        Err(BindError::UnexpectedTypePos { position: 0 })
    );
}

#[test]
fn cyclic_arrays_are_cut_off() {
    let own = table(vec![array_of(0)]);
    assert_eq!(
        make_variable_input(TypePos(0), &own),
        Err(BindError::NestingTooDeep { pos: TypePos(0) })
    );
    let pair = table(vec![array_of(1), array_of(0)]);
    assert!(matches!(
        make_variable_input(TypePos(0), &pair),
        Err(BindError::NestingTooDeep { .. })
    ));
}

#[test]
fn deepest_acyclic_nesting_resolves() {
    let mut array = vec![base(0x103)];
    for pos in 0u16..40 {
        array.push(array_of(pos));
    }
    let all = table(array);
    let mut expected = Capability::Scalar(ScalarKind::Int16);
    for _ in 0..40 {
        expected = Capability::Array(Box::new(expected));
    }
    assert_eq!(make_variable_input(TypePos(40), &all), Ok(expected));
}

#[test]
fn forward_references_resolve_too() {
    let all = table(vec![array_of(1), array_of(2), base(0x109)]);
    assert_eq!(
        make_variable_input(TypePos(0), &all),
        Ok(Capability::Array(Box::new(Capability::Array(Box::new(Capability::Scalar(
            ScalarKind::Bool
        ))))))
    );
}

#[test]
fn capability_clone_is_equal() {
    let nested = Capability::Array(Box::new(Capability::Array(Box::new(Capability::Scalar(
        ScalarKind::Json,
    )))));
    assert_eq!(nested.clone(), nested);
}

#[test]
fn a_circle_in_a_large_table_is_cut_off() {
    let mut array = vec![array_of(1), array_of(0)];
    for _ in 2..=u16::MAX as usize {
        array.push(base(0x101));
    }
    let all = table(array);
    assert!(matches!(
        make_variable_input(TypePos(0), &all),
        Err(BindError::NestingTooDeep { .. })
    ));
    assert_eq!(
        make_variable_input(TypePos(u16::MAX), &all),
        Ok(Capability::Scalar(ScalarKind::Str))
    );
}

#[test]
fn a_circle_through_a_scalar_is_cut_off() {
    let all = table(vec![
        array_of(1),
        Descriptor::Scalar { base_type_pos: TypePos(0) },
    ]);
    assert!(matches!(
        make_variable_input(TypePos(1), &all),
        Err(BindError::NestingTooDeep { .. })
    ));
}
