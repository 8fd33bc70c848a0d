use vstd::prelude::*;

verus! {

/// The sequence `0, 1, ..., n - 1` as 32-bit integers.
pub open spec fn countup(n: nat) -> Seq<i32> {
    Seq::new(n, |i: int| i as i32)
}

/// Whether every value `0 .. n - 1` fits in an `i32`.
pub open spec fn fits_i32(n: int) -> bool {
    n <= i32::MAX as int + 1
}

/// Builds `[0, 1, ..., size - 1]`.
pub fn create_countup_vector(size: usize) -> (r: Vec<i32>)
    requires
        fits_i32(size as int),
    ensures
        r@ == countup(size as nat),
        r@.len() == size,
        forall|i: int| 0 <= i < size ==> r@[i] as int == i,
{
    let mut v: Vec<i32> = Vec::with_capacity(size);
    let mut i: usize = 0;
    while i < size
        invariant
            i <= size,
            fits_i32(size as int),
            v@ == countup(i as nat),
        decreases size - i,
    {
        v.push(i as i32);
        i = i + 1;
        assert(v@ =~= countup(i as nat));
    }
    v
}

/// Builds a `size` by `size` grid in row-major order whose cell in row `x`
/// and column `y` holds `size * x + y`; flattened it is `[0, 1, ..., size * size - 1]`.
pub fn create_countup_vector2d(size: usize) -> (r: Vec<i32>)
    requires
        fits_i32(size as int * size as int),
    ensures
        r@ == countup((size * size) as nat),
        r@.len() == size * size,
        forall|x: int, y: int|
            0 <= x < size && 0 <= y < size ==> #[trigger] r@[size * x + y] as int == size * x + y,
{
    let mut v: Vec<i32> = Vec::new();
    let mut x: usize = 0;
    while x < size
        invariant
            x <= size,
            fits_i32(size as int * size as int),
            v@ == countup((size as int * x as int) as nat),
        decreases size - x,
    {
        assert(size as int * x as int + size as int <= size as int * size as int) by (nonlinear_arith)
            requires x < size;
        let mut y: usize = 0;
        while y < size
            invariant
                x < size,
                y <= size,
                size as int * x as int + size as int <= size as int * size as int,
                fits_i32(size as int * size as int),
                v@ == countup((size as int * x as int + y as int) as nat),
            decreases size - y,
        {
            let cell: usize = size * x + y;
            v.push(cell as i32);
            y = y + 1;
            assert(v@ =~= countup((size as int * x as int + y as int) as nat));
        }
        x = x + 1;
        assert(size as int * x as int == size as int * (x - 1) as int + size as int) by (nonlinear_arith);
    }
    proof {
        assert(0 <= size as int * size as int) by (nonlinear_arith);
        assert forall|x: int, y: int| 0 <= x < size && 0 <= y < size implies
            0 <= #[trigger] (size * x + y) < size * size by {
            assert(0 <= size * x + y < size * size) by (nonlinear_arith)
                requires 0 <= x < size, 0 <= y < size;
        }
    }
    v
}

} // verus!
