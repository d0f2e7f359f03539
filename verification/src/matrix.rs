use vstd::prelude::*;
use crate::arithmetic::{
    computes, is_left_absorbing, is_left_unit, is_right_unit, is_single_valued,
};
use crate::error::{Invalid, MathError, Operand};

verus! {

/// The rows of a matrix stored as a sequence of vectors.
pub open spec fn rows<T>(m: Seq<Vec<T>>) -> Seq<Seq<T>> {
    Seq::new(m.len(), |i: int| m[i]@)
}

/// Every row is as long as the first one.
pub open spec fn is_rectangular<T>(m: Seq<Seq<T>>) -> bool {
    forall|i: int| 0 <= i < m.len() ==> (#[trigger] m[i]).len() == m[0].len()
}

/// What is wrong with the operands of a product `a * b`, if anything: the
/// first of an empty operand, a ragged `a`, a ragged `b`, and a column count
/// of `a` that differs from the row count of `b`.
pub open spec fn shape_fault<T>(a: Seq<Seq<T>>, b: Seq<Seq<T>>) -> Option<Invalid> {
    if a.len() == 0 || b.len() == 0 {
        Some(Invalid::EmptyMatrix)
    } else if !is_rectangular(a) {
        Some(Invalid::RaggedRows(Operand::Left))
    } else if !is_rectangular(b) {
        Some(Invalid::RaggedRows(Operand::Right))
    } else if a[0].len() != b.len() {
        Some(
            Invalid::DimensionMismatch {
                rows_a: a.len() as usize,
                cols_a: a[0].len() as usize,
                rows_b: b.len() as usize,
                cols_b: b[0].len() as usize,
            },
        )
    } else {
        None
    }
}

/// `sum` is a value that can come out of this accumulation: start from `zero`
/// and, for `k` from `0` up to `n - 1` in this order, add to the running sum
/// the product of `row[k]` and the entry of `b` in row `k` and column `j`.
pub open spec fn accumulates<T, A: Fn(T, T) -> T, M: Fn(T, T) -> T>(
    plus: A,
    times: M,
    zero: T,
    row: Seq<T>,
    b: Seq<Seq<T>>,
    j: int,
    n: nat,
    sum: T,
) -> bool
    decreases n,
{
    if n == 0 {
        sum == zero
    } else {
        exists|before: T, product: T|
            {
                &&& accumulates(plus, times, zero, row, b, j, (n - 1) as nat, before)
                &&& times.ensures((row[n - 1], b[n - 1][j]), product)
                &&& #[trigger] plus.ensures((before, product), sum)
            }
    }
}

/// `c` is a product of `a` and `b` under the arithmetic `zero`, `plus`, `times`:
/// it has the rows of `a` and the columns of `b`, and its entry in row `i` and
/// column `j` accumulates row `i` of `a` against column `j` of `b`.
pub open spec fn is_product<T, A: Fn(T, T) -> T, M: Fn(T, T) -> T>(
    plus: A,
    times: M,
    zero: T,
    a: Seq<Seq<T>>,
    b: Seq<Seq<T>>,
    c: Seq<Seq<T>>,
) -> bool {
    &&& c.len() == a.len()
    &&& forall|i: int| 0 <= i < c.len() ==> (#[trigger] c[i]).len() == b[0].len()
    &&& forall|i: int, j: int|
        0 <= i < a.len() && 0 <= j < b[0].len() ==> accumulates(
            plus,
            times,
            zero,
            a[i],
            b,
            j,
            b.len(),
            #[trigger] c[i][j],
        )
}

/// Tells whether every row of `m` holds exactly `width` entries.
fn has_width<T>(m: &[Vec<T>], width: usize) -> (uniform: bool)
    ensures
        uniform <==> forall|i: int| 0 <= i < m@.len() ==> (#[trigger] m@[i]).len() == width,
{
    let mut i: usize = 0;
    while i < m.len()
        invariant
            i <= m@.len(),
            forall|h: int| 0 <= h < i ==> (#[trigger] m@[h]).len() == width,
        decreases m@.len() - i,
    {
        if m[i].len() != width {
            return false;
        }
        i += 1;
    }
    true
}

/// Checks that the product `a * b` is defined and returns the row count of
/// `a`, the count that the columns of `a` and the rows of `b` share, and the
/// column count of `b`.
pub fn product_dimensions<T>(a: &[Vec<T>], b: &[Vec<T>]) -> (r: Result<
    (usize, usize, usize),
    MathError,
>)
    ensures
        match shape_fault(rows(a@), rows(b@)) {
            Some(fault) => r == Err::<(usize, usize, usize), MathError>(
                MathError::InvalidArgument(fault),
            ),
            None => r matches Ok(dimensions) && dimensions.0 == a@.len() && dimensions.1
                == b@.len() && dimensions.2 == b@[0].len(),
        },
{
    if a.len() == 0 || b.len() == 0 {
        return Err(MathError::InvalidArgument(Invalid::EmptyMatrix));
    }
    let rows_a: usize = a.len();
    let cols_a: usize = a[0].len();
    let rows_b: usize = b.len();
    let cols_b: usize = b[0].len();
    if !has_width(a, cols_a) {
        assert(!is_rectangular(rows(a@))) by {
            if is_rectangular(rows(a@)) {
                assert forall|i: int| 0 <= i < a@.len() implies (#[trigger] a@[i]).len()
                    == cols_a by {
                    assert(rows(a@)[i].len() == rows(a@)[0].len());
                }
            }
        }
        return Err(MathError::InvalidArgument(Invalid::RaggedRows(Operand::Left)));
    }
    if !has_width(b, cols_b) {
        assert(!is_rectangular(rows(b@))) by {
            if is_rectangular(rows(b@)) {
                assert forall|i: int| 0 <= i < b@.len() implies (#[trigger] b@[i]).len()
                    == cols_b by {
                    assert(rows(b@)[i].len() == rows(b@)[0].len());
                }
            }
        }
        return Err(MathError::InvalidArgument(Invalid::RaggedRows(Operand::Right)));
    }
    if cols_a != rows_b {
        return Err(
            MathError::InvalidArgument(
                Invalid::DimensionMismatch { rows_a, cols_a, rows_b, cols_b },
            ),
        );
    }
    Ok((rows_a, rows_b, cols_b))
}

/// Multiplies the matrix `a` by the matrix `b`, both given as their rows.
///
/// The entries are of any type `T`; `zero`, `plus` and `times` are its
/// arithmetic. Entry `(i, j)` of the result starts from `zero` and adds, for
/// each `k` in increasing order, `times(a[i][k], b[k][j])` to the running sum.
/// The operands are checked first, as `shape_fault` says, and nothing is
/// computed if the check fails.
pub fn matrix_multiply<T: Copy, A: Fn(T, T) -> T, M: Fn(T, T) -> T>(
    a: &[Vec<T>],
    b: &[Vec<T>],
    zero: T,
    plus: A,
    times: M,
) -> (r: Result<Vec<Vec<T>>, MathError>)
    requires
        forall|x: T, y: T| plus.requires((x, y)),
        forall|x: T, y: T| times.requires((x, y)),
    ensures
        match shape_fault(rows(a@), rows(b@)) {
            Some(fault) => r == Err::<Vec<Vec<T>>, MathError>(MathError::InvalidArgument(fault)),
            None => r matches Ok(c) && is_product(plus, times, zero, rows(a@), rows(b@), rows(c@)),
        },
{
    let (rows_a, inner, cols_b) = match product_dimensions(a, b) {
        Ok(dimensions) => dimensions,
        Err(e) => {
            return Err(e);
        },
    };
    let mut result: Vec<Vec<T>> = Vec::new();
    let mut i: usize = 0;
    while i < rows_a
        invariant
            shape_fault(rows(a@), rows(b@)) is None,
            rows_a == a@.len(),
            inner == b@.len(),
            cols_b == b@[0].len(),
            forall|x: T, y: T| plus.requires((x, y)),
            forall|x: T, y: T| times.requires((x, y)),
            i <= rows_a,
            result@.len() == i,
            forall|h: int| 0 <= h < i ==> (#[trigger] result@[h]).len() == cols_b,
            forall|h: int, j: int|
                0 <= h < i && 0 <= j < cols_b ==> accumulates(
                    plus,
                    times,
                    zero,
                    rows(a@)[h],
                    rows(b@),
                    j,
                    inner as nat,
                    #[trigger] result@[h]@[j],
                ),
        decreases rows_a - i,
    {
        let mut row: Vec<T> = Vec::new();
        let mut j: usize = 0;
        while j < cols_b
            invariant
                shape_fault(rows(a@), rows(b@)) is None,
                rows_a == a@.len(),
                inner == b@.len(),
                cols_b == b@[0].len(),
                forall|x: T, y: T| plus.requires((x, y)),
                forall|x: T, y: T| times.requires((x, y)),
                i < rows_a,
                j <= cols_b,
                row@.len() == j,
                forall|g: int|
                    0 <= g < j ==> accumulates(
                        plus,
                        times,
                        zero,
                        rows(a@)[i as int],
                        rows(b@),
                        g,
                        inner as nat,
                        #[trigger] row@[g],
                    ),
            decreases cols_b - j,
        {
            let mut sum: T = zero;
            let mut k: usize = 0;
            while k < inner
                invariant
                    shape_fault(rows(a@), rows(b@)) is None,
                    rows_a == a@.len(),
                    inner == b@.len(),
                    cols_b == b@[0].len(),
                    forall|x: T, y: T| plus.requires((x, y)),
                    forall|x: T, y: T| times.requires((x, y)),
                    i < rows_a,
                    j < cols_b,
                    k <= inner,
                    accumulates(
                        plus,
                        times,
                        zero,
                        rows(a@)[i as int],
                        rows(b@),
                        j as int,
                        k as nat,
                        sum,
                    ),
                decreases inner - k,
            {
                assert(rows(a@)[i as int].len() == rows(a@)[0].len());
                assert(rows(b@)[k as int].len() == rows(b@)[0].len());
                let product: T = times(a[i][k], b[k][j]);
                let next: T = plus(sum, product);
                assert(accumulates(
                    plus,
                    times,
                    zero,
                    rows(a@)[i as int],
                    rows(b@),
                    j as int,
                    (k + 1) as nat,
                    next,
                )) by {
                    assert(times.ensures(
                        (rows(a@)[i as int][k as int], rows(b@)[k as int][j as int]),
                        product,
                    ));
                    assert(plus.ensures((sum, product), next));
                }
                sum = next;
                k += 1;
            }
            row.push(sum);
            j += 1;
        }
        result.push(row);
        i += 1;
    }
    assert(rows(result@).len() == rows(a@).len());
    assert forall|h: int| 0 <= h < rows(result@).len() implies (#[trigger] rows(
        result@,
    )[h]).len() == rows(b@)[0].len() by {
        assert(result@[h].len() == cols_b);
    }
    assert forall|h: int, j: int| 0 <= h < rows(a@).len() && 0 <= j < rows(b@)[0].len() implies accumulates(
        plus,
        times,
        zero,
        rows(a@)[h],
        rows(b@),
        j,
        rows(b@).len(),
        #[trigger] rows(result@)[h][j],
    ) by {
        assert(rows(result@)[h][j] == result@[h]@[j]);
    }
    Ok(result)
}

/// `m` is square, with `one` on its diagonal and `zero` everywhere else.
pub open spec fn is_identity<T>(m: Seq<Seq<T>>, zero: T, one: T) -> bool {
    &&& forall|i: int| 0 <= i < m.len() ==> (#[trigger] m[i]).len() == m.len()
    &&& forall|i: int, k: int|
        0 <= i < m.len() && 0 <= k < m.len() ==> #[trigger] m[i][k] == if i == k {
            one
        } else {
            zero
        }
}

/// Every entry of `m` is `zero`.
pub open spec fn is_zero_matrix<T>(m: Seq<Seq<T>>, zero: T) -> bool {
    forall|i: int, k: int| 0 <= i < m.len() && 0 <= k < m[i].len() ==> #[trigger] m[i][k] == zero
}

/// The sum over `k < n` of the products of `row[k]` and the entry of `b` in
/// row `k` and column `j`, in the arithmetic given by `sum` and `product`
/// and added up from the left, starting from `zero`.
pub open spec fn dot<T>(
    sum: spec_fn(T, T) -> T,
    product: spec_fn(T, T) -> T,
    zero: T,
    row: Seq<T>,
    b: Seq<Seq<T>>,
    j: int,
    n: nat,
) -> T
    decreases n,
{
    if n == 0 {
        zero
    } else {
        sum(dot(sum, product, zero, row, b, j, (n - 1) as nat), product(row[n - 1], b[n - 1][j]))
    }
}

/// Where `plus` computes `sum` and `times` computes `product`, an
/// accumulation gives the dot product.
pub proof fn lemma_accumulates_dot<T, A: Fn(T, T) -> T, M: Fn(T, T) -> T>(
    plus: A,
    times: M,
    sum: spec_fn(T, T) -> T,
    product: spec_fn(T, T) -> T,
    zero: T,
    row: Seq<T>,
    b: Seq<Seq<T>>,
    j: int,
    n: nat,
    result: T,
)
    requires
        computes(plus, sum),
        computes(times, product),
        accumulates(plus, times, zero, row, b, j, n, result),
    ensures
        result == dot(sum, product, zero, row, b, j, n),
    decreases n,
{
    if n > 0 {
        let (before, term) = choose|before: T, term: T|
            {
                &&& accumulates(plus, times, zero, row, b, j, (n - 1) as nat, before)
                &&& times.ensures((row[n - 1], b[n - 1][j]), term)
                &&& #[trigger] plus.ensures((before, term), result)
            };
        lemma_accumulates_dot(plus, times, sum, product, zero, row, b, j, (n - 1) as nat, before);
    }
}

/// Where `plus` computes `sum` and `times` computes `product`, the entry of
/// a product `c` of `a` and `b` in row `i` and column `j` is the dot product
/// of row `i` of `a` and column `j` of `b`.
pub proof fn lemma_product_entry<T, A: Fn(T, T) -> T, M: Fn(T, T) -> T>(
    plus: A,
    times: M,
    sum: spec_fn(T, T) -> T,
    product: spec_fn(T, T) -> T,
    zero: T,
    a: Seq<Seq<T>>,
    b: Seq<Seq<T>>,
    c: Seq<Seq<T>>,
    i: int,
    j: int,
)
    requires
        computes(plus, sum),
        computes(times, product),
        is_product(plus, times, zero, a, b, c),
        0 <= i < a.len(),
        0 <= j < b[0].len(),
    ensures
        c[i][j] == dot(sum, product, zero, a[i], b, j, b.len()),
{
    lemma_accumulates_dot(plus, times, sum, product, zero, a[i], b, j, b.len(), c[i][j]);
}

/// With single-valued arithmetic an accumulation has one result.
pub proof fn lemma_accumulates_unique<T, A: Fn(T, T) -> T, M: Fn(T, T) -> T>(
    plus: A,
    times: M,
    zero: T,
    row: Seq<T>,
    b: Seq<Seq<T>>,
    j: int,
    n: nat,
    first: T,
    second: T,
)
    requires
        is_single_valued(plus),
        is_single_valued(times),
        accumulates(plus, times, zero, row, b, j, n, first),
        accumulates(plus, times, zero, row, b, j, n, second),
    ensures
        first == second,
    decreases n,
{
    if n > 0 {
        let (before1, product1) = choose|before: T, product: T|
            {
                &&& accumulates(plus, times, zero, row, b, j, (n - 1) as nat, before)
                &&& times.ensures((row[n - 1], b[n - 1][j]), product)
                &&& #[trigger] plus.ensures((before, product), first)
            };
        let (before2, product2) = choose|before: T, product: T|
            {
                &&& accumulates(plus, times, zero, row, b, j, (n - 1) as nat, before)
                &&& times.ensures((row[n - 1], b[n - 1][j]), product)
                &&& #[trigger] plus.ensures((before, product), second)
            };
        lemma_accumulates_unique(plus, times, zero, row, b, j, (n - 1) as nat, before1, before2);
    }
}

/// With single-valued arithmetic two matrices have at most one product.
pub proof fn lemma_product_unique<T, A: Fn(T, T) -> T, M: Fn(T, T) -> T>(
    plus: A,
    times: M,
    zero: T,
    a: Seq<Seq<T>>,
    b: Seq<Seq<T>>,
    first: Seq<Seq<T>>,
    second: Seq<Seq<T>>,
)
    requires
        is_single_valued(plus),
        is_single_valued(times),
        is_product(plus, times, zero, a, b, first),
        is_product(plus, times, zero, a, b, second),
    ensures
        first == second,
{
    assert forall|i: int| 0 <= i < first.len() implies first[i] == second[i] by {
        assert(first[i].len() == second[i].len());
        assert forall|j: int| 0 <= j < first[i].len() implies first[i][j] == second[i][j] by {
            lemma_accumulates_unique(
                plus,
                times,
                zero,
                a[i],
                b,
                j,
                b.len(),
                first[i][j],
                second[i][j],
            );
        }
        assert(first[i] =~= second[i]);
    }
    assert(first =~= second);
}

/// Accumulating a row that holds `one` at index `i` and `zero` elsewhere
/// against column `j` of `b` picks the entry of `b` in row `i`.
proof fn lemma_accumulates_unit_row<T, A: Fn(T, T) -> T, M: Fn(T, T) -> T>(
    plus: A,
    times: M,
    zero: T,
    one: T,
    row: Seq<T>,
    b: Seq<Seq<T>>,
    j: int,
    i: int,
    n: nat,
    sum: T,
)
    requires
        0 <= i,
        forall|k: int| 0 <= k < n ==> #[trigger] row[k] == if k == i {
            one
        } else {
            zero
        },
        is_left_unit(times, one),
        is_left_absorbing(times, zero),
        is_left_unit(plus, zero),
        is_right_unit(plus, zero),
        accumulates(plus, times, zero, row, b, j, n, sum),
    ensures
        sum == if i < n {
            b[i][j]
        } else {
            zero
        },
    decreases n,
{
    if n > 0 {
        let (before, product) = choose|before: T, product: T|
            {
                &&& accumulates(plus, times, zero, row, b, j, (n - 1) as nat, before)
                &&& times.ensures((row[n - 1], b[n - 1][j]), product)
                &&& #[trigger] plus.ensures((before, product), sum)
            };
        lemma_accumulates_unit_row(plus, times, zero, one, row, b, j, i, (n - 1) as nat, before);
        assert(row[n - 1] == if n - 1 == i {
            one
        } else {
            zero
        });
    }
}

/// Accumulating a row of `zero`s gives `zero`.
proof fn lemma_accumulates_zero_row<T, A: Fn(T, T) -> T, M: Fn(T, T) -> T>(
    plus: A,
    times: M,
    zero: T,
    row: Seq<T>,
    b: Seq<Seq<T>>,
    j: int,
    n: nat,
    sum: T,
)
    requires
        forall|k: int| 0 <= k < n ==> #[trigger] row[k] == zero,
        is_left_absorbing(times, zero),
        is_left_unit(plus, zero),
        accumulates(plus, times, zero, row, b, j, n, sum),
    ensures
        sum == zero,
    decreases n,
{
    if n > 0 {
        let (before, product) = choose|before: T, product: T|
            {
                &&& accumulates(plus, times, zero, row, b, j, (n - 1) as nat, before)
                &&& times.ensures((row[n - 1], b[n - 1][j]), product)
                &&& #[trigger] plus.ensures((before, product), sum)
            };
        lemma_accumulates_zero_row(plus, times, zero, row, b, j, (n - 1) as nat, before);
        assert(row[n - 1] == zero);
    }
}

/// The identity matrix times `b` is `b`, for arithmetic in which `one` is a
/// left unit of `times`, `zero` is left absorbing for `times`, and `zero` is a
/// unit of `plus` on both sides.
pub proof fn lemma_identity_product<T, A: Fn(T, T) -> T, M: Fn(T, T) -> T>(
    plus: A,
    times: M,
    zero: T,
    one: T,
    a: Seq<Seq<T>>,
    b: Seq<Seq<T>>,
    c: Seq<Seq<T>>,
)
    requires
        is_identity(a, zero, one),
        shape_fault(a, b) is None,
        is_left_unit(times, one),
        is_left_absorbing(times, zero),
        is_left_unit(plus, zero),
        is_right_unit(plus, zero),
        is_product(plus, times, zero, a, b, c),
    ensures
        c == b,
{
    assert forall|i: int| 0 <= i < c.len() implies c[i] == b[i] by {
        assert(c[i].len() == b[0].len() == b[i].len());
        assert forall|j: int| 0 <= j < c[i].len() implies c[i][j] == b[i][j] by {
            assert forall|k: int| 0 <= k < b.len() implies #[trigger] a[i][k] == if k == i {
                one
            } else {
                zero
            } by {}
            lemma_accumulates_unit_row(plus, times, zero, one, a[i], b, j, i, b.len(), c[i][j]);
        }
        assert(c[i] =~= b[i]);
    }
    assert(c =~= b);
}

/// A matrix of `zero`s times `b` is a matrix of `zero`s, for arithmetic in
/// which `zero` is left absorbing for `times` and a left unit of `plus`.
pub proof fn lemma_zero_product<T, A: Fn(T, T) -> T, M: Fn(T, T) -> T>(
    plus: A,
    times: M,
    zero: T,
    a: Seq<Seq<T>>,
    b: Seq<Seq<T>>,
    c: Seq<Seq<T>>,
)
    requires
        is_zero_matrix(a, zero),
        shape_fault(a, b) is None,
        is_left_absorbing(times, zero),
        is_left_unit(plus, zero),
        is_product(plus, times, zero, a, b, c),
    ensures
        is_zero_matrix(c, zero),
        c.len() == a.len(),
        forall|i: int| 0 <= i < c.len() ==> (#[trigger] c[i]).len() == b[0].len(),
{
    assert forall|i: int, j: int| 0 <= i < c.len() && 0 <= j < c[i].len() implies #[trigger] c[i][j]
        == zero by {
        assert(a[i].len() == a[0].len());
        assert forall|k: int| 0 <= k < b.len() implies #[trigger] a[i][k] == zero by {}
        lemma_accumulates_zero_row(plus, times, zero, a[i], b, j, b.len(), c[i][j]);
    }
}

} // verus!
