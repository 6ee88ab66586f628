//! The list of recorded shapes, carved from the renderer's arena.

use vstd::prelude::*;
use static_alloc::Bump;
use without_alloc::alloc::LocalAllocLeakExt;
use without_alloc::FixedVec;
use crate::shape::base::Shape;
use crate::viewport::Viewport;

verus! {

/// A recorded shape with the viewport that was current when it was
/// recorded.
pub struct ShapeHolder {
    pub shape: Shape,
    pub viewport: Viewport,
}

#[verifier::external_type_specification]
#[verifier::external_body]
#[verifier::reject_recursive_types(T)]
pub struct ExFixedVec<'a, T>(FixedVec<'a, T>);

#[verifier::external_type_specification]
#[verifier::external_body]
#[verifier::reject_recursive_types(T)]
pub struct ExBump<T>(Bump<T>);

/// The holders in a list, in the order in which they were pushed.
pub uninterp spec fn held(list: FixedVec<ShapeHolder>) -> Seq<ShapeHolder>;

/// The number of holders that a list was made for.
pub uninterp spec fn room(list: FixedVec<ShapeHolder>) -> nat;

/// `LocalAllocLeakExt::fixed_vec` on a `Bump`: an empty list with room for
/// `capacity` holders, or `None` when the arena cannot hold it. A list
/// without room takes nothing from the arena and is always had.
#[verifier::external_body]
pub(crate) fn new_shape_list<'p, T>(pool: &'p Bump<T>, capacity: usize) -> (r: Option<
    FixedVec<'p, ShapeHolder>,
>)
    ensures
        r matches Some(list) ==> held(list).len() == 0 && room(list) == capacity,
        capacity == 0 ==> r.is_some(),
{
    pool.fixed_vec(capacity)
}

/// `FixedVec::push`: the holder is appended while there is room, else the
/// list stays as it is and the holder comes back.
#[verifier::external_body]
pub(crate) fn push_shape(list: &mut FixedVec<ShapeHolder>, holder: ShapeHolder) -> (rejected:
    Option<ShapeHolder>)
    ensures
        room(*final(list)) == room(*old(list)),
        held(*old(list)).len() < room(*old(list)) ==> rejected.is_none() && held(*final(list))
            == held(*old(list)).push(holder),
        held(*old(list)).len() >= room(*old(list)) ==> rejected == Some(holder) && held(
            *final(list),
        ) == held(*old(list)),
{
    list.push(holder).err()
}

/// `FixedVec::len`: the number of holders in the list, never above its
/// room.
#[verifier::external_body]
pub(crate) fn shape_count(list: &FixedVec<ShapeHolder>) -> (n: usize)
    ensures
        n == held(*list).len(),
        n <= room(*list),
{
    list.len()
}

/// `FixedVec::capacity`: the number of holders that the list was made
/// for.
#[verifier::external_body]
pub(crate) fn shape_room(list: &FixedVec<ShapeHolder>) -> (n: usize)
    ensures
        n == room(*list),
{
    list.capacity()
}

/// Indexing of a `FixedVec`: the holder at position `i`.
#[verifier::external_body]
pub(crate) fn shape_at<'b>(list: &'b FixedVec<ShapeHolder>, i: usize) -> (h: &'b ShapeHolder)
    requires
        i < held(*list).len(),
    ensures
        *h == held(*list)[i as int],
{
    &list[i]
}

} // verus!
