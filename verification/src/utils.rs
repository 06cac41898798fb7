use vstd::prelude::*;

verus! {

#[verifier::external_type_specification]
#[verifier::external_body]
pub struct ExTypeId(std::any::TypeId);

/// Marks a handle to the entity world.
pub trait Ecs: core::ops::Deref<Target = hecs::World> {}

impl Ecs for &mut hecs::World {}

impl Ecs for &hecs::World {}

/// Marks a handle through which the entity world can be changed.
pub trait EcsMut: core::ops::DerefMut<Target = hecs::World> {}

impl EcsMut for &mut hecs::World {}

/// Marks the conversion of an iterator of elements into children.
pub struct IteratorMarker;

/// Marks the conversion of an optional child into children.
pub struct OptionMarker;

/// Marks a type by its type id.
#[derive(Clone, Copy, Debug)]
pub struct Marker(pub std::any::TypeId);

} // verus!
