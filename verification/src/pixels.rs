use vstd::prelude::*;
use ndarray::Array3;

verus! {

/// Owned pixel storage: a three-dimensional byte array of ndarray's, held
/// opaquely because its type cannot be declared to Verus (its storage
/// parameter is bound by ndarray's `RawData` trait). The three spec
/// functions below name what the contracts of the wrappers rely on.
#[verifier::external_body]
pub struct PixelArray {
    arr: Array3<u8>,
}

/// The elements of the array, flattened in logical order: outermost axis
/// first, innermost axis last.
pub uninterp spec fn arr_seq(a: PixelArray) -> Seq<u8>;

/// The lengths of the three axes of the array.
pub uninterp spec fn arr_dim(a: PixelArray) -> (nat, nat, nat);

/// Whether the array's storage is contiguous in standard (row-major) order,
/// so that memory order and logical order coincide.
pub uninterp spec fn arr_standard(a: PixelArray) -> bool;

/// Relies on ndarray's `Array3::zeros`: a zero-filled array of the given
/// shape, owned and in standard layout. It panics when the product of the
/// non-zero axis lengths overflows `isize` — a zero-length axis is skipped
/// by that check, so each remaining axis is bounded here on its own.
#[verifier::external_body]
pub(crate) fn arr_zeros(height: usize, width: usize) -> (a: PixelArray)
    requires
        height * width * 4 <= isize::MAX,
        height * 4 <= isize::MAX,
        width * 4 <= isize::MAX,
    ensures
        arr_dim(a) == (height as nat, width as nat, 4nat),
        arr_standard(a),
        arr_seq(a) == Seq::new((height * width * 4) as nat, |i: int| 0u8),
{
    PixelArray { arr: Array3::zeros((height, width, 4)) }
}

/// Relies on ndarray's `Index` impl for `Array3`: reads the element at
/// logical position `[y, x, c]`.
#[verifier::external_body]
pub(crate) fn arr_get(a: &PixelArray, y: usize, x: usize, c: usize) -> (r: u8)
    requires
        y < arr_dim(*a).0,
        x < arr_dim(*a).1,
        c < arr_dim(*a).2,
    ensures
        r == arr_seq(*a)[(y * arr_dim(*a).1 + x) * arr_dim(*a).2 + c],
{
    a.arr[[y, x, c]]
}

/// Relies on ndarray's `IndexMut` impl for `Array3`: writes `v` to the
/// element at logical position `[y, x, c]`, leaving every other element,
/// the shape and the layout unchanged.
#[verifier::external_body]
pub(crate) fn arr_set(a: &mut PixelArray, y: usize, x: usize, c: usize, v: u8)
    requires
        y < arr_dim(*old(a)).0,
        x < arr_dim(*old(a)).1,
        c < arr_dim(*old(a)).2,
    ensures
        arr_dim(*final(a)) == arr_dim(*old(a)),
        arr_standard(*final(a)) == arr_standard(*old(a)),
        arr_seq(*final(a)) == arr_seq(*old(a)).update(
            (y * arr_dim(*old(a)).1 + x) * arr_dim(*old(a)).2 + c,
            v,
        ),
{
    a.arr[[y, x, c]] = v;
}

/// Relies on ndarray's `Clone` impl for `ArrayBase`: an independent copy
/// with the same elements, shape and layout.
#[verifier::external_body]
pub(crate) fn arr_clone(a: &PixelArray) -> (r: PixelArray)
    ensures
        arr_seq(r) == arr_seq(*a),
        arr_dim(r) == arr_dim(*a),
        arr_standard(r) == arr_standard(*a),
{
    PixelArray { arr: a.arr.clone() }
}

/// Relies on ndarray's `as_slice_memory_order`: for a contiguous array it
/// returns all elements as one slice in memory order, which for standard
/// layout is the logical order.
#[verifier::external_body]
pub(crate) fn arr_slice(a: &PixelArray) -> (s: &[u8])
    requires
        arr_standard(*a),
    ensures
        s@ == arr_seq(*a),
{
    a.arr.as_slice_memory_order().unwrap()
}

} // verus!
