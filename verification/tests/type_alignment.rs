use toucan_semantic::ir::Type;
use toucan_semantic::type_alignment::{AlignmentOriginId, TypeAlignment};

#[test]
fn slot_retains_bytes_and_optional_origin_without_type_growth() {
    assert_eq!(std::mem::size_of::<TypeAlignment>(), 4);
    assert_eq!(std::mem::size_of::<Type>(), 40);
    for exponent in 0..=28 {
        let bytes: u32 = 1 << exponent;
        let value = TypeAlignment::new(bytes).unwrap();
        assert_eq!(value.bytes().unwrap(), bytes);
        assert_eq!(value.origin(), None);
        for index in [0usize, 31, 65_535, (1 << 27) - 2] {
            let origin = AlignmentOriginId::new(index).unwrap();
            let attached = value.with_origin(origin);
            assert_eq!(attached.bytes(), value.bytes());
            assert_eq!(attached.origin().unwrap().index(), index);
        }
    }
    assert!(TypeAlignment::new(0).is_none());
    assert!(TypeAlignment::new(3).is_none());
    assert!(TypeAlignment::new(1 << 29).is_none());
    assert!(AlignmentOriginId::new((1 << 27) - 1).is_none());
    let empty = TypeAlignment::default().with_origin(AlignmentOriginId::new(0).unwrap());
    assert!(empty.bytes().is_none());
    assert!(empty.origin().is_some());
}
