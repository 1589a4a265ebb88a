use vstd::prelude::*;

verus! {

/// The least multiple of `align` that is at least `size`.
pub open spec fn round_up(size: nat, align: nat) -> nat
    recommends
        align > 0,
{
    ((size + align - 1) as nat / align) * align
}

/// The number of bytes that the allocator callback asks the host heap for when
/// the engine requests `items` items of `item_size` bytes: the product, checked
/// in 32 bits as the engine's item counts are, rounded up to `align`, plus a
/// header of `header` bytes that records the size. `None` where any step would
/// overflow.
pub open spec fn block_size_of(items: u32, item_size: u32, align: usize, header: usize) -> Option<
    nat,
> {
    let n = items as nat * item_size as nat;
    if n > u32::MAX as nat {
        None
    } else if n + align - 1 > usize::MAX as nat {
        None
    } else if round_up(n, align as nat) + header > usize::MAX as nat {
        None
    } else {
        Some(round_up(n, align as nat) + header as nat)
    }
}

/// Rounds `size` up to the next multiple of `align`.
pub fn align_up(size: usize, align: usize) -> (r: usize)
    requires
        align > 0,
        size + align - 1 <= usize::MAX,
    ensures
        r == round_up(size as nat, align as nat),
        (r as int) % (align as int) == 0,
        size <= r < size + align,
{
    let t = size + (align - 1);
    let q = t / align;
    proof {
        let m = t as int % align as int;
        assert(t as int == q * align + m && 0 <= m < align) by (nonlinear_arith)
            requires
                align > 0,
                q == t as int / align as int,
                m == t as int % align as int,
        ;
        assert((q * align) % align as int == 0) by (nonlinear_arith)
            requires
                align > 0,
        ;
    }
    let r = q * align;
    r
}

/// The size of the block that backs an engine allocation of `items` items of
/// `item_size` bytes, header included; `None` on overflow, never a wrapped
/// value.
pub fn block_size(items: u32, item_size: u32, align: usize, header: usize) -> (r: Option<usize>)
    requires
        align > 0,
    ensures
        r matches Some(s) ==> block_size_of(items, item_size, align, header) == Some(s as nat),
        r is None ==> block_size_of(items, item_size, align, header) is None,
        r matches Some(s) ==> s >= items as nat * item_size as nat + header,
        r matches Some(s) ==> ((s - header) as int) % (align as int) == 0,
{
    let n = match items.checked_mul(item_size) {
        Some(n) => n,
        None => return None,
    };
    let size = n as usize;
    if size > usize::MAX - (align - 1) {
        return None;
    }
    let rounded = align_up(size, align);
    rounded.checked_add(header)
}

/// An allocation that succeeds leaves room for at least the bytes asked for,
/// and a product that does not fit in 32 bits is refused rather than wrapped.
pub proof fn lemma_block_size_sound(items: u32, item_size: u32, align: usize, header: usize)
    requires
        align > 0,
    ensures
        items as nat * item_size as nat > u32::MAX as nat ==> block_size_of(
            items,
            item_size,
            align,
            header,
        ) is None,
        block_size_of(items, item_size, align, header) matches Some(s) ==> s >= items as nat
            * item_size as nat + header,
{
    let n = items as nat * item_size as nat;
    if n <= u32::MAX as nat && n + align - 1 <= usize::MAX as nat {
        let q = (n + align - 1) as int / align as int;
        let m = (n + align - 1) as int % align as int;
        assert((n + align - 1) as int == q * align + m && 0 <= m < align) by (nonlinear_arith)
            requires
                align > 0,
                q == (n + align - 1) as int / align as int,
                m == (n + align - 1) as int % align as int,
        ;
    }
}

} // verus!
