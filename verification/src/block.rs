//! The block behind a thin boxed sequence: a `usize` length header, padding up
//! to the element alignment, then the elements one after another.

use allocator_api2::alloc::{Layout, LayoutError};
use vstd::arithmetic::power2::is_pow2;
use vstd::layout::{align_of, size_of, valid_layout};
use vstd::prelude::*;

verus! {

/// `Layout`, as `allocator_api2::alloc` hands it on from `core::alloc`: the size
/// and the alignment of a block of memory. What it holds is named by
/// `layout_size` and `layout_align`.
#[verifier::external_type_specification]
#[verifier::external_body]
pub struct ExLayout(Layout);

/// `LayoutError`, which `Layout::from_size_align` returns for a size and an
/// alignment that it does not accept. Nothing is claimed of it.
#[verifier::external_type_specification]
#[verifier::external_body]
pub struct ExLayoutError(LayoutError);

/// The size in bytes that a `Layout` was made with, which `Layout::size` reports.
pub uninterp spec fn layout_size(layout: Layout) -> usize;

/// The alignment in bytes that a `Layout` was made with, which `Layout::align` reports.
pub uninterp spec fn layout_align(layout: Layout) -> usize;

/// `Layout::from_size_align` accepts a size and an alignment exactly when the
/// alignment is a power of two and the size, rounded up to a multiple of the
/// alignment, does not exceed `isize::MAX`. The layout it returns then has that
/// size and that alignment.
pub assume_specification[ Layout::from_size_align ](size: usize, align: usize) -> (r: Result<
    Layout,
    LayoutError,
>)
    ensures
        r is Ok <==> valid_layout(size, align),
        r matches Ok(layout) ==> layout_size(layout) == size && layout_align(layout) == align,
;

/// Bytes to skip behind `header` bytes so that the next byte sits at a multiple of `align`.
pub open spec fn padding_after(header: nat, align: nat) -> nat {
    if header % align == 0 {
        0
    } else {
        (align - header % align) as nat
    }
}

/// Offset of the first element behind a header of `header` bytes, for elements
/// aligned to `align`.
pub open spec fn payload_offset(header: nat, align: nat) -> nat {
    header + padding_after(header, align)
}

/// Offset of the first element of type `T` behind a `usize` header.
pub open spec fn array_offset_of<T>() -> nat {
    payload_offset(size_of::<usize>(), align_of::<T>())
}

/// Bytes in the block of `n` elements of type `T`: the padded header, then the elements.
pub open spec fn block_size<T>(n: nat) -> nat {
    array_offset_of::<T>() + n * size_of::<T>()
}

/// Alignment of the block for elements of type `T`: the stricter of the
/// header's and the element's.
pub open spec fn block_align<T>() -> nat {
    if align_of::<usize>() >= align_of::<T>() {
        align_of::<usize>()
    } else {
        align_of::<T>()
    }
}

/// Whether a block of `n` elements of type `T` can be described at all: its
/// size, rounded up to its alignment, must not exceed `isize::MAX`.
pub open spec fn block_fits<T>(n: nat) -> bool {
    block_size::<T>(n) <= isize::MAX - (isize::MAX as int) % (block_align::<T>() as int)
}

/// The payload offset is a multiple of the alignment, lies at or behind the end
/// of the header, and wastes less than one alignment step.
pub proof fn lemma_payload_offset_aligned(header: nat, align: nat)
    requires
        align > 0,
    ensures
        payload_offset(header, align) % align == 0,
        header <= payload_offset(header, align) < header + align,
{
    let q = header / align;
    let r = header % align;
    assert(header == q * align + r && r < align) by (nonlinear_arith)
        requires
            align > 0,
            q == header / align,
            r == header % align,
    ;
    if r != 0 {
        assert(payload_offset(header, align) == (q + 1) * align) by (nonlinear_arith)
            requires
                payload_offset(header, align) == header + align - r,
                header == q * align + r,
        ;
        vstd::arithmetic::div_mod::lemma_mod_multiples_basic((q + 1) as int, align as int);
    }
}

/// No multiple of the alignment between the end of the header and the payload
/// offset was passed over: the payload offset is the least one.
pub proof fn lemma_payload_offset_least(header: nat, align: nat, other: nat)
    requires
        align > 0,
        other >= header,
        other % align == 0,
    ensures
        payload_offset(header, align) <= other,
{
    lemma_payload_offset_aligned(header, align);
    let offset = payload_offset(header, align);
    if other < offset {
        // Two multiples of `align` less than `align` apart are the same.
        assert(offset - other < align);
        let a = offset / align;
        let b = other / align;
        vstd::arithmetic::div_mod::lemma_fundamental_div_mod(offset as int, align as int);
        vstd::arithmetic::div_mod::lemma_fundamental_div_mod(other as int, align as int);
        assert(offset - other == (a - b) * align) by (nonlinear_arith)
            requires
                offset == align * a,
                other == align * b,
        ;
        assert(a - b >= 1 ==> (a - b) * align >= align) by (nonlinear_arith)
            requires
                align > 0,
        ;
        assert(a - b <= 0 ==> (a - b) * align <= 0) by (nonlinear_arith)
            requires
                align > 0,
        ;
        assert(false);
    }
}

/// Every element of a block of `n` starts behind the header, at a multiple of
/// the element alignment, and ends inside the block.
pub proof fn lemma_element_placed<T>(n: nat, i: nat)
    requires
        i < n,
    ensures
        size_of::<usize>() <= array_offset_of::<T>() + i * size_of::<T>(),
        (array_offset_of::<T>() + i * size_of::<T>()) % align_of::<T>() == 0,
        array_offset_of::<T>() + (i + 1) * size_of::<T>() <= block_size::<T>(n),
{
    broadcast use vstd::layout::group_align_properties;

    let align = align_of::<T>();
    let size = size_of::<T>();
    let offset = array_offset_of::<T>();
    lemma_payload_offset_aligned(size_of::<usize>(), align);
    vstd::arithmetic::div_mod::lemma_fundamental_div_mod(offset as int, align as int);
    vstd::arithmetic::div_mod::lemma_fundamental_div_mod(size as int, align as int);
    let a = offset / align;
    let b = size / align;
    assert(offset + i * size == (a + i * b) * align) by (nonlinear_arith)
        requires
            offset == align * a,
            size == align * b,
    ;
    vstd::arithmetic::div_mod::lemma_mod_multiples_basic((a + i * b) as int, align as int);
    assert((i + 1) * size <= n * size) by (nonlinear_arith)
        requires
            i < n,
    ;
}

/// The alignment of the block suits the header and the elements alike: it is
/// a multiple of either alignment.
pub proof fn lemma_block_align_suits<T>()
    ensures
        is_pow2(block_align::<T>() as int),
        block_align::<T>() % align_of::<usize>() == 0,
        block_align::<T>() % align_of::<T>() == 0,
{
    broadcast use vstd::layout::group_align_properties;

    let header = align_of::<usize>() as int;
    let elem = align_of::<T>() as int;
    if header >= elem {
        lemma_pow2_divides(elem, header);
        lemma_pow2_divides(header, header);
    } else {
        lemma_pow2_divides(header, elem);
        lemma_pow2_divides(elem, elem);
    }
}

/// Of two powers of two the smaller divides the larger.
proof fn lemma_pow2_divides(x: int, y: int)
    requires
        is_pow2(x),
        is_pow2(y),
        x <= y,
    ensures
        y % x == 0,
    decreases y,
{
    reveal(is_pow2);
    if x == 1 {
        assert(y % 1 == 0);
    } else {
        lemma_pow2_divides(x / 2, y / 2);
        let k = (y / 2) / (x / 2);
        vstd::arithmetic::div_mod::lemma_fundamental_div_mod(y / 2, x / 2);
        assert(y == k * x) by (nonlinear_arith)
            requires
                y == 2 * (y / 2),
                x == 2 * (x / 2),
                y / 2 == (x / 2) * k,
        ;
        vstd::arithmetic::div_mod::lemma_mod_multiples_basic(k, x);
    }
}

/// A block fits as soon as its header, its elements and two steps of its
/// alignment together stay within `isize::MAX`.
pub proof fn lemma_block_fits<T>(n: nat)
    requires
        size_of::<usize>() + n * size_of::<T>() + 2 * block_align::<T>() <= isize::MAX,
    ensures
        block_fits::<T>(n),
{
    broadcast use vstd::layout::group_align_properties;

    lemma_payload_offset_aligned(size_of::<usize>(), align_of::<T>());
    vstd::arithmetic::div_mod::lemma_mod_bound(isize::MAX as int, block_align::<T>() as int);
}

/// Offset, in bytes, of the first element of type `T` inside the block.
pub fn array_offset<T>() -> (offset: usize)
    ensures
        offset == array_offset_of::<T>(),
        offset % core::mem::align_of::<T>() == 0,
        offset >= core::mem::size_of::<usize>(),
{
    broadcast use vstd::layout::layout_of_primitives;
    broadcast use vstd::layout::group_align_properties;

    let header: usize = core::mem::size_of::<usize>();
    let align: usize = core::mem::align_of::<T>();
    let misalign: usize = header % align;
    let padding: usize = if misalign == 0 {
        0
    } else {
        align - misalign
    };
    proof {
        assert(header == 4 || header == 8);
        if header < align {
            vstd::arithmetic::div_mod::lemma_small_mod(header as nat, align as nat);
        }
        lemma_payload_offset_aligned(header as nat, align as nat);
    }
    header + padding
}

/// The layout of the block of `n` elements of type `T`, where there is one.
pub fn try_layout<T>(n: usize) -> (r: Option<Layout>)
    ensures
        r is Some <==> block_fits::<T>(n as nat),
        r matches Some(layout) ==> layout_size(layout) == block_size::<T>(n as nat)
            && layout_align(layout) == block_align::<T>(),
{
    broadcast use vstd::layout::group_align_properties;

    let offset: usize = array_offset::<T>();
    let elem: usize = core::mem::size_of::<T>();
    let header_align: usize = core::mem::align_of::<usize>();
    let elem_align: usize = core::mem::align_of::<T>();
    let align: usize = if header_align >= elem_align {
        header_align
    } else {
        elem_align
    };
    proof {
        lemma_rounded_limit(align);
    }
    let payload: usize = match n.checked_mul(elem) {
        Some(bytes) => bytes,
        None => {
            return None;
        },
    };
    let size: usize = match offset.checked_add(payload) {
        Some(bytes) => bytes,
        None => {
            return None;
        },
    };
    match Layout::from_size_align(size, align) {
        Ok(layout) => Some(layout),
        Err(_) => None,
    }
}

/// The layout of the block of `n` elements of type `T`.
pub fn layout<T>(n: usize) -> (r: Layout)
    requires
        block_fits::<T>(n as nat),
    ensures
        layout_size(r) == block_size::<T>(n as nat),
        layout_align(r) == block_align::<T>(),
{
    match try_layout::<T>(n) {
        Some(layout) => layout,
        None => vstd::pervasive::unreached(),
    }
}

/// Rounding down `isize::MAX` to a multiple of a `usize` alignment stays
/// within `0 ..= isize::MAX`.
proof fn lemma_rounded_limit(align: usize)
    requires
        align > 0,
    ensures
        0 <= isize::MAX - (isize::MAX as int) % (align as int) <= isize::MAX,
        isize::MAX < usize::MAX,
{
    vstd::arithmetic::div_mod::lemma_mod_bound(isize::MAX as int, align as int);
    vstd::arithmetic::div_mod::lemma_mod_decreases(isize::MAX as nat, align as nat);
}

} // verus!
