use variable_binding::{Descriptor, InputTypedesc, ProtocolVersion, TypePos};

fn sample() -> InputTypedesc {
    InputTypedesc {
        proto: ProtocolVersion::new(0, 12),
        array: vec![
            Descriptor::BaseScalar { id: 0x101 },
            Descriptor::Tuple { id: 0xFF, element_types: vec![] },
        ],
        root_pos: Some(TypePos(1)),
    }
}

#[test]
fn nodes_are_found_by_position() {
    let desc = sample();
    assert_eq!(desc.get(TypePos(0)), Some(&Descriptor::BaseScalar { id: 0x101 }));
    assert_eq!(desc.get(TypePos(1)), Some(&Descriptor::Tuple { id: 0xFF, element_types: vec![] }));
    assert_eq!(desc.get(TypePos(2)), None);
    assert_eq!(desc.get(TypePos(u16::MAX)), None);
    assert_eq!(desc.descriptors().len(), 2);
    assert_eq!(*desc.proto(), ProtocolVersion::new(0, 12));
}

#[test]
fn root_is_the_node_at_the_root_position() {
    let mut desc = sample();
    assert_eq!(desc.root(), Some(&Descriptor::Tuple { id: 0xFF, element_types: vec![] }));
    desc.root_pos = Some(TypePos(0));
    assert_eq!(desc.root(), Some(&Descriptor::BaseScalar { id: 0x101 }));
    desc.root_pos = Some(TypePos(2));
    assert_eq!(desc.root(), None);
    desc.root_pos = None;
    assert_eq!(desc.root(), None);
}

#[test]
fn empty_tuple_needs_the_marker_and_no_elements() {
    let mut desc = sample();
    assert!(desc.is_empty_tuple());
    desc.array[1] = Descriptor::Tuple { id: 0xFE, element_types: vec![] };
    assert!(!desc.is_empty_tuple());
    desc.array[1] = Descriptor::Tuple { id: 0xFF, element_types: vec![TypePos(0)] };
    assert!(!desc.is_empty_tuple());
    desc.array[1] = Descriptor::NamedTuple { elements: vec![] };
    assert!(!desc.is_empty_tuple());
    desc.array[1] = Descriptor::Tuple { id: 0xFF, element_types: vec![] };
    desc.root_pos = None;
    assert!(!desc.is_empty_tuple());
}
