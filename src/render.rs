use vstd::prelude::*;
use vstd::string::StringExecFns;

verus! {

/// The character of a decimal digit `d`, `0 <= d < 10`.
pub open spec fn digit_char(d: int) -> char {
    if d == 0 {
        '0'
    } else if d == 1 {
        '1'
    } else if d == 2 {
        '2'
    } else if d == 3 {
        '3'
    } else if d == 4 {
        '4'
    } else if d == 5 {
        '5'
    } else if d == 6 {
        '6'
    } else if d == 7 {
        '7'
    } else if d == 8 {
        '8'
    } else {
        '9'
    }
}

/// Decimal digits of `n`, most significant first, without leading zeros.
pub open spec fn digits_of(n: nat) -> Seq<char>
    decreases n,
{
    if n < 10 {
        seq![digit_char(n as int)]
    } else {
        digits_of(n / 10).push(digit_char((n % 10) as int))
    }
}

/// Decimal text of an integer, with a leading `-` when it is negative.
pub open spec fn decimal_of(v: int) -> Seq<char> {
    if v < 0 {
        seq!['-'] + digits_of((-v) as nat)
    } else {
        digits_of(v as nat)
    }
}

fn digit_str(d: u64) -> (r: &'static str)
    requires
        d < 10,
    ensures
        r@ == seq![digit_char(d as int)],
{
    proof {
        reveal_strlit("0");
        reveal_strlit("1");
        reveal_strlit("2");
        reveal_strlit("3");
        reveal_strlit("4");
        reveal_strlit("5");
        reveal_strlit("6");
        reveal_strlit("7");
        reveal_strlit("8");
        reveal_strlit("9");
    }
    if d == 0 {
        "0"
    } else if d == 1 {
        "1"
    } else if d == 2 {
        "2"
    } else if d == 3 {
        "3"
    } else if d == 4 {
        "4"
    } else if d == 5 {
        "5"
    } else if d == 6 {
        "6"
    } else if d == 7 {
        "7"
    } else if d == 8 {
        "8"
    } else {
        "9"
    }
}

fn append_digits(s: &mut String, n: u64)
    ensures
        final(s)@ == old(s)@ + digits_of(n as nat),
    decreases n,
{
    if n >= 10 {
        append_digits(s, n / 10);
    }
    s.append(digit_str(n % 10));
    assert(final(s)@ =~= old(s)@ + digits_of(n as nat));
}

/// Appends the decimal text of `v` to `s`.
pub fn append_decimal(s: &mut String, v: i32)
    ensures
        final(s)@ == old(s)@ + decimal_of(v as int),
{
    if v < 0 {
        proof {
            reveal_strlit("-");
        }
        s.append("-");
        let m: i64 = v as i64;
        append_digits(s, (-m) as u64);
        assert(final(s)@ =~= old(s)@ + decimal_of(v as int));
    } else {
        append_digits(s, v as u64);
    }
}

/// Decimal text of `v`.
pub fn decimal(v: i32) -> (r: String)
    ensures
        r@ == decimal_of(v as int),
{
    let mut s = String::new();
    append_decimal(&mut s, v);
    assert(s@ =~= decimal_of(v as int));
    s
}

/// Row `x` of a grid whose rows hold `height` cells, read in row-major order from `v`.
pub open spec fn row_of(v: Seq<i32>, height: nat, x: int) -> Seq<i32> {
    v.subrange(height * x, height * x + height)
}

/// The first `width` rows of `v` read as a grid of rows of `height` cells.
pub open spec fn rows_of(v: Seq<i32>, width: nat, height: nat) -> Seq<Seq<i32>> {
    Seq::new(width, |x: int| row_of(v, height, x))
}

/// The rows laid end to end.
pub open spec fn flatten(rows: Seq<Seq<i32>>) -> Seq<i32>
    decreases rows.len(),
{
    if rows.len() == 0 {
        seq![]
    } else {
        flatten(rows.drop_last()) + rows.last()
    }
}

/// Text of one cell: its decimal value between bars, then a tab.
pub open spec fn cell_text(v: i32) -> Seq<char> {
    seq!['|'] + decimal_of(v as int) + seq!['|', '\t']
}

/// Text of a row: its cells in order.
pub open spec fn row_text(row: Seq<i32>) -> Seq<char>
    decreases row.len(),
{
    if row.len() == 0 {
        seq![]
    } else {
        row_text(row.drop_last()) + cell_text(row.last())
    }
}

/// Text of a grid: each row in order, each ended by a line break.
pub open spec fn grid_text(rows: Seq<Seq<i32>>) -> Seq<char>
    decreases rows.len(),
{
    if rows.len() == 0 {
        seq![]
    } else {
        grid_text(rows.drop_last()) + row_text(rows.last()) + seq!['\n']
    }
}

/// Reading a grid row by row and laying the rows end to end gives back the
/// first `width * height` values of `v`, in order: no value is left out and
/// none is repeated.
pub proof fn lemma_rows_cover(v: Seq<i32>, width: nat, height: nat)
    requires
        width * height <= v.len(),
    ensures
        flatten(rows_of(v, width, height)) == v.take((width * height) as int),
    decreases width,
{
    if width > 0 {
        let w1 = (width - 1) as nat;
        assert(w1 * height + height == width * height) by (nonlinear_arith)
            requires w1 == width - 1;
        assert(w1 * height <= width * height) by (nonlinear_arith)
            requires w1 == width - 1;
        assert(height * w1 == w1 * height) by (nonlinear_arith);
        lemma_rows_cover(v, w1, height);
        let rows = rows_of(v, width, height);
        assert(rows.drop_last() =~= rows_of(v, w1, height));
        assert(rows.last() == row_of(v, height, w1 as int));
        assert(flatten(rows) == flatten(rows.drop_last()) + rows.last());
        assert(v.take((width * height) as int) =~= v.take((w1 * height) as int) + row_of(v, height, w1 as int));
        assert(flatten(rows) == v.take((width * height) as int));
    } else {
        assert(width * height == 0) by (nonlinear_arith)
            requires width == 0;
        assert(rows_of(v, width, height).len() == 0);
        assert(v.take(0) =~= seq![]);
    }
}

/// Splits the first `width * height` values of `v` into `width` rows of
/// `height` values each, in row-major order.
pub fn split_rows(v: &Vec<i32>, width: usize, height: usize) -> (r: Vec<Vec<i32>>)
    requires
        width * height <= v@.len(),
    ensures
        r@.len() == width,
        forall|x: int| 0 <= x < width ==> (#[trigger] r@[x])@ == row_of(v@, height as nat, x),
{
    let n = v.len();
    let mut rows: Vec<Vec<i32>> = Vec::new();
    let mut x: usize = 0;
    while x < width
        invariant
            x <= width,
            n == v@.len(),
            width * height <= v@.len(),
            rows@.len() == x,
            forall|i: int| 0 <= i < x ==> (#[trigger] rows@[i])@ == row_of(v@, height as nat, i),
        decreases width - x,
    {
        assert(height * x + height <= width * height) by (nonlinear_arith)
            requires x < width;
        let start: usize = height * x;
        let mut row: Vec<i32> = Vec::new();
        let mut y: usize = 0;
        while y < height
            invariant
                y <= height,
                start == height * x,
                n == v@.len(),
                start + height <= v@.len(),
                row@ == v@.subrange(start as int, start + y),
            decreases height - y,
        {
            row.push(v[start + y]);
            y = y + 1;
            assert(row@ =~= v@.subrange(start as int, start + y));
        }
        rows.push(row);
        x = x + 1;
    }
    rows
}

fn append_cell(s: &mut String, v: i32)
    ensures
        final(s)@ == old(s)@ + cell_text(v),
{
    proof {
        reveal_strlit("|");
        reveal_strlit("|\t");
    }
    s.append("|");
    append_decimal(s, v);
    s.append("|\t");
    assert(final(s)@ =~= old(s)@ + cell_text(v));
}

/// Text of the first `size` values of `v` as one row.
pub fn render_vector(v: &Vec<i32>, size: usize) -> (r: String)
    requires
        size <= v@.len(),
    ensures
        r@ == row_text(v@.take(size as int)),
{
    let mut s = String::new();
    let mut i: usize = 0;
    assert(v@.take(0) =~= seq![]);
    while i < size
        invariant
            i <= size,
            size <= v@.len(),
            s@ == row_text(v@.take(i as int)),
        decreases size - i,
    {
        append_cell(&mut s, v[i]);
        i = i + 1;
        assert(v@.take(i as int).drop_last() =~= v@.take(i - 1));
    }
    s
}

/// Text of the first `width * height` values of `v` as `width` rows of
/// `height` values each, in row-major order.
pub fn render_vector2d(v: &Vec<i32>, width: usize, height: usize) -> (r: String)
    requires
        width * height <= v@.len(),
    ensures
        r@ == grid_text(rows_of(v@, width as nat, height as nat)),
{
    let rows = split_rows(v, width, height);
    let ghost all = rows_of(v@, width as nat, height as nat);
    let mut s = String::new();
    let mut x: usize = 0;
    assert(all.take(0) =~= seq![]);
    while x < width
        invariant
            x <= width,
            width * height <= v@.len(),
            rows@.len() == width,
            all == rows_of(v@, width as nat, height as nat),
            forall|i: int| 0 <= i < width ==> (#[trigger] rows@[i])@ == row_of(v@, height as nat, i),
            s@ == grid_text(all.take(x as int)),
        decreases width - x,
    {
        proof {
            reveal_strlit("\n");
        }
        assert(height * x + height <= width * height) by (nonlinear_arith)
            requires x < width;
        let line = render_vector(&rows[x], height);
        assert(rows@[x as int]@.take(height as int) =~= all[x as int]);
        s.append(line.as_str());
        s.append("\n");
        x = x + 1;
        assert(all.take(x as int).drop_last() =~= all.take(x - 1));
    }
    assert(all.take(width as int) =~= all);
    s
}

} // verus!
