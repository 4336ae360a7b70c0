use ferrocious::sizeable::{Size, SizeError, SizeableMutator, SizeableMutatorCreationError};
use ferrocious::timestamp::TimeStamp;

#[test]
fn dim_counts() {
    assert_eq!(Size::Scalar { scalar: 1.0f32 }.dim_count(), 1);
    assert_eq!(Size::XY { x: 1.0f32, y: 2.0 }.dim_count(), 2);
    assert_eq!(Size::Custom { vec: vec![1.0f32, 2.0, 3.0] }.dim_count(), 3);
}

#[test]
fn change_and_get_by_dimension() {
    let mut size = Size::XY { x: 1.0f32, y: 2.0 };
    assert_eq!(size.change_size_at_dim(1, 5.0), Ok(()));
    assert_eq!(size.get_size_at_dim(0), Ok(1.0));
    assert_eq!(size.get_size_at_dim(1), Ok(5.0));
    assert_eq!(
        size.change_size_at_dim(2, 9.0),
        Err(SizeError::SetSizeError { dimension: 2, dim_count: 2 })
    );
    assert_eq!(size.get_size_at_dim(3), Err(SizeError::GetSizeError { dimension: 3, dim_count: 2 }));
    let mut custom = Size::Custom { vec: vec![1i64, 2, 3] };
    assert_eq!(custom.change_size_at_dim(2, 30), Ok(()));
    assert_eq!(custom.get_size_at_dim(2), Ok(30));
    let mut scalar = Size::Scalar { scalar: 4u8 };
    assert_eq!(scalar.change_size_at_dim(0, 8), Ok(()));
    assert_eq!(scalar.get_size_at_dim(0), Ok(8));
}

#[test]
fn mutator_needs_an_existing_dimension() {
    let f: Box<dyn Fn(TimeStamp) -> f64> = Box::new(|_t| 0.0);
    let err = SizeableMutator::new(2, Size::XY { x: 1.0f32, y: 1.0 }, 3.0, f);
    assert!(matches!(
        err,
        Err(SizeableMutatorCreationError::InvalidDimensionError { target: 2, entity_dim_size: 2 })
    ));
    let g: Box<dyn Fn(TimeStamp) -> f64> = Box::new(|_t| 0.0);
    let ok = SizeableMutator::new(1, Size::XY { x: 1.0f32, y: 1.0 }, 3.0, g);
    match ok {
        Ok(m) => {
            assert_eq!(m.target_dimension, 1);
            assert_eq!(m.end_size, 3.0);
        }
        Err(_) => panic!("dimension 1 exists"),
    }
}
