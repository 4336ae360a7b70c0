//! Sizes with one, two or any number of dimensions, read and changed by dimension.

use vstd::prelude::*;

verus! {

/// The size of an entity, with `V` the scalar type of each dimension.
pub enum Size<V> {
    Scalar { scalar: V },
    XY { x: V, y: V },
    Custom { vec: Vec<V> },
}

/// A dimension past the last one of a size.
#[derive(PartialEq, Eq, Structural, Debug, Copy, Clone)]
pub enum SizeError {
    SetSizeError { dimension: usize, dim_count: usize },
    GetSizeError { dimension: usize, dim_count: usize },
}

/// A mutator aimed at a dimension that the entity's size does not have.
#[derive(PartialEq, Eq, Structural, Debug, Copy, Clone)]
pub enum SizeableMutatorCreationError {
    InvalidDimensionError { target: usize, entity_dim_size: usize },
}

impl<V: Copy> Size<V> {
    /// The value of each dimension, in order.
    pub open spec fn dims(self) -> Seq<V> {
        match self {
            Size::Scalar { scalar } => seq![scalar],
            Size::XY { x, y } => seq![x, y],
            Size::Custom { vec } => vec@,
        }
    }

    /// `self` and `other` are the same kind of size.
    pub open spec fn same_kind(self, other: Size<V>) -> bool {
        match (self, other) {
            (Size::Scalar { .. }, Size::Scalar { .. }) => true,
            (Size::XY { .. }, Size::XY { .. }) => true,
            (Size::Custom { .. }, Size::Custom { .. }) => true,
            _ => false,
        }
    }

    /// The number of dimensions.
    pub fn dim_count(&self) -> (r: usize)
        ensures
            r == self.dims().len(),
    {
        match self {
            Size::Scalar { .. } => 1,
            Size::XY { .. } => 2,
            Size::Custom { vec } => vec.len(),
        }
    }

    /// Sets dimension `dim` to `val`, or reports that there is no such dimension.
    pub fn change_size_at_dim(&mut self, dim: usize, val: V) -> (r: Result<(), SizeError>)
        ensures
            dim >= old(self).dims().len() ==> r == Err::<(), SizeError>(
                SizeError::SetSizeError { dimension: dim, dim_count: old(self).dims().len() as usize },
            ) && *final(self) == *old(self),
            dim < old(self).dims().len() ==> r is Ok && final(self).dims() == old(self).dims().update(
                dim as int,
                val,
            ) && final(self).same_kind(*old(self)),
    {
        let count = self.dim_count();
        if count <= dim {
            return Err(SizeError::SetSizeError { dimension: dim, dim_count: count });
        }
        match self {
            Size::Scalar { scalar } => {
                *scalar = val;
            },
            Size::XY { x, y } => {
                if dim == 0 {
                    *x = val;
                } else {
                    *y = val;
                }
            },
            Size::Custom { vec } => {
                vec.set(dim, val);
            },
        }
        proof {
            assert(final(self).dims() =~= old(self).dims().update(dim as int, val));
        }
        Ok(())
    }

    /// The value of dimension `dim`, or an error when there is no such dimension.
    pub fn get_size_at_dim(&self, dim: usize) -> (r: Result<V, SizeError>)
        ensures
            dim >= self.dims().len() ==> r == Err::<V, SizeError>(
                SizeError::GetSizeError { dimension: dim, dim_count: self.dims().len() as usize },
            ),
            dim < self.dims().len() ==> r == Ok::<V, SizeError>(self.dims()[dim as int]),
    {
        let count = self.dim_count();
        if count <= dim {
            return Err(SizeError::GetSizeError { dimension: dim, dim_count: count });
        }
        match self {
            Size::Scalar { scalar } => Ok(*scalar),
            Size::XY { x, y } => {
                if dim == 0 {
                    Ok(*x)
                } else {
                    Ok(*y)
                }
            },
            Size::Custom { vec } => Ok(vec[dim]),
        }
    }
}

/// Drives one dimension of a size toward `end_size`, along `interpolation_func`.
pub struct SizeableMutator<V, F> {
    pub target_dimension: usize,
    pub end_size: V,
    pub interpolation_func: F,
}

impl<V: Copy, F> SizeableMutator<V, F> {
    /// A mutator for dimension `target_dimension` of `size_type`, refused when the size has
    /// no such dimension.
    pub fn new(target_dimension: usize, size_type: Size<V>, end_size: V, interpolation_func: F) -> (r:
        Result<SizeableMutator<V, F>, SizeableMutatorCreationError>)
        ensures
            target_dimension >= size_type.dims().len() ==> r == Err::<
                SizeableMutator<V, F>,
                SizeableMutatorCreationError,
            >(
                SizeableMutatorCreationError::InvalidDimensionError {
                    target: target_dimension,
                    entity_dim_size: size_type.dims().len() as usize,
                },
            ),
            target_dimension < size_type.dims().len() ==> (r matches Ok(m) && m.target_dimension
                == target_dimension && m.end_size == end_size && m.interpolation_func
                == interpolation_func),
    {
        let count = size_type.dim_count();
        if target_dimension >= count {
            return Err(
                SizeableMutatorCreationError::InvalidDimensionError {
                    target: target_dimension,
                    entity_dim_size: count,
                },
            );
        }
        Ok(SizeableMutator { target_dimension, end_size, interpolation_func })
    }
}

} // verus!
