//! Arrays and matrices whose sizes are part of their types.

use crate::custom_types::decimal::decimal_string;
use crate::custom_types::decimal::decimal_text;
use std::fmt::Display;
use vstd::prelude::*;
use vstd::std_specs::iter::IteratorSpec;
use vstd::std_specs::ops::AddSpec;
use vstd::std_specs::ops::MulSpec;
use vstd::string::to_string_from_display_ensures;
use vstd::string::StringExecFns;

verus! {

/// An array of `N` values.
#[derive(Debug, Clone)]
pub struct Array<T, const N: usize> {
    data: [T; N],
}

impl<T, const N: usize> View for Array<T, N> {
    type V = Seq<T>;

    closed spec fn view(&self) -> Seq<T> {
        self.data@
    }
}

impl<T, const N: usize> Array<T, N> {
    /// An array of `N` values holds `N` values.
    pub proof fn lemma_len(&self)
        ensures
            self@.len() == N,
    {
    }
}

impl<T: Default + Copy, const N: usize> Array<T, N> {
    /// The array that holds the default value of `T` at every index.
    pub fn new() -> (array: Self)
        ensures
            array@.len() == N,
            forall|i: int| 0 <= i < N ==> call_ensures(T::default, (), #[trigger] array@[i]),
            forall|i: int, j: int| 0 <= i < N && 0 <= j < N ==> array@[i] == array@[j],
    {
        let value = T::default();
        Self { data: [value; N] }
    }

    /// The array that holds the values of `data`.
    pub fn from_array(data: [T; N]) -> (array: Self)
        ensures
            array@ == data@,
    {
        Self { data }
    }

    /// The value at `index`, if `index` is below `N`.
    pub fn get(&self, index: usize) -> (value: Option<&T>)
        ensures
            index < N ==> value == Some(&self@[index as int]),
            index >= N ==> value is None,
    {
        if index < N {
            Some(&self.data[index])
        } else {
            None
        }
    }

    /// Puts `value` at `index`, if `index` is below `N`.
    pub fn set(&mut self, index: usize, value: T) -> (result: Result<(), &'static str>)
        ensures
            index < N ==> result is Ok && final(self)@ == old(self)@.update(index as int, value),
            index >= N ==> result == Err::<(), &'static str>("Index out of bounds") && final(self)@
                == old(self)@,
    {
        if index < N {
            self.data[index] = value;
            Ok(())
        } else {
            Err("Index out of bounds")
        }
    }

    /// An iterator over the values, from index 0 on.
    pub fn iter(&self) -> (iter: std::slice::Iter<'_, T>)
        ensures
            iter.remaining().unref() == self@,
            iter.decrease() is Some,
            iter.initial_value_relation(&iter),
    {
        broadcast use vstd::std_specs::slice::axiom_spec_slice_iter;

        self.data.iter()
    }

    /// The number of values, `N`.
    pub fn len(&self) -> (len: usize)
        ensures
            len == N,
            len == self@.len(),
    {
        N
    }
}

impl<T: Copy + Default> Array<T, 2> {
    /// The two values of this array followed by the three values of `other`.
    pub fn concat_with_3(&self, other: &Array<T, 3>) -> (joined: Array<T, 5>)
        ensures
            joined@ == self@ + other@,
    {
        let joined = Array {
            data: [self.data[0], self.data[1], other.data[0], other.data[1], other.data[2]],
        };
        assert(joined@ =~= self@ + other@);
        joined
    }
}

/// A matrix of `ROWS` rows of `COLS` values each.
#[derive(Debug, Clone)]
pub struct Matrix<T, const ROWS: usize, const COLS: usize> {
    data: [[T; COLS]; ROWS],
}

impl<T, const R: usize, const C: usize> View for Matrix<T, R, C> {
    type V = Seq<Seq<T>>;

    closed spec fn view(&self) -> Seq<Seq<T>> {
        Seq::new(R as nat, |row: int| self.data@[row]@)
    }
}

impl<T, const R: usize, const C: usize> Matrix<T, R, C> {
    /// A matrix of `R` rows and `C` columns holds `R` rows of `C` values each.
    pub proof fn lemma_dimensions(&self)
        ensures
            self@.len() == R,
            forall|row: int| 0 <= row < R ==> (#[trigger] self@[row]).len() == C,
    {
    }
}

impl<T: Default + Copy, const R: usize, const C: usize> Matrix<T, R, C> {
    /// The matrix that holds the default value of `T` at every place.
    pub fn new() -> (matrix: Self)
        ensures
            matrix@.len() == R,
            forall|row: int| 0 <= row < R ==> (#[trigger] matrix@[row]).len() == C,
            forall|row: int, col: int|
                0 <= row < R && 0 <= col < C ==> call_ensures(
                    T::default,
                    (),
                    #[trigger] matrix@[row][col],
                ),
    {
        let value = T::default();
        let row = [value; C];
        Self { data: [row; R] }
    }

    /// The matrix that holds the rows of `data`.
    pub fn from_data(data: [[T; C]; R]) -> (matrix: Self)
        ensures
            matrix@.len() == R,
            forall|row: int| 0 <= row < R ==> #[trigger] matrix@[row] == data@[row]@,
    {
        Self { data }
    }

    /// The value at `row` and `col`, if `row` is below `R` and `col` below `C`.
    pub fn get(&self, row: usize, col: usize) -> (value: Option<&T>)
        ensures
            row < R && col < C ==> value == Some(&self@[row as int][col as int]),
            row >= R || col >= C ==> value is None,
    {
        if row < R && col < C {
            Some(&self.data[row][col])
        } else {
            None
        }
    }

    /// Puts `value` at `row` and `col`, if `row` is below `R` and `col` below `C`.
    pub fn set(&mut self, row: usize, col: usize, value: T) -> (result: Result<(), &'static str>)
        ensures
            row < R && col < C ==> result is Ok && final(self)@ == old(self)@.update(
                row as int,
                old(self)@[row as int].update(col as int, value),
            ),
            row >= R || col >= C ==> result == Err::<(), &'static str>("Index out of bounds")
                && final(self)@ == old(self)@,
    {
        if row < R && col < C {
            self.data[row][col] = value;
            assert(self@ =~= old(self)@.update(
                row as int,
                old(self)@[row as int].update(col as int, value),
            ));
            Ok(())
        } else {
            Err("Index out of bounds")
        }
    }

    /// The number of rows, `R`.
    pub fn rows(&self) -> (rows: usize)
        ensures
            rows == R,
            rows == self@.len(),
    {
        R
    }

    /// The number of values in a row, `C`.
    pub fn cols(&self) -> (cols: usize)
        ensures
            cols == C,
    {
        C
    }
}

/// The sum that starts at `start` and adds, one after the other, the three products
/// of a value of `row` with the value of `column` at the same index.
pub open spec fn dot_product_from<T: Copy + std::ops::Mul<Output = T> + std::ops::Add<Output = T>>(
    start: T,
    row: Seq<T>,
    column: Seq<T>,
) -> T {
    start.add_spec(row[0].mul_spec(column[0])).add_spec(row[1].mul_spec(column[1])).add_spec(
        row[2].mul_spec(column[2]),
    )
}

/// Whether every product and every sum of [`dot_product_from`] can be computed.
pub open spec fn dot_product_defined<
    T: Copy + std::ops::Mul<Output = T> + std::ops::Add<Output = T>,
>(start: T, row: Seq<T>, column: Seq<T>) -> bool {
    let p0 = row[0].mul_spec(column[0]);
    let p1 = row[1].mul_spec(column[1]);
    let p2 = row[2].mul_spec(column[2]);
    &&& row[0].mul_req(column[0])
    &&& row[1].mul_req(column[1])
    &&& row[2].mul_req(column[2])
    &&& start.add_req(p0)
    &&& start.add_spec(p0).add_req(p1)
    &&& start.add_spec(p0).add_spec(p1).add_req(p2)
}

/// The column `col` of a matrix.
pub open spec fn column_of<T>(matrix: Seq<Seq<T>>, col: int) -> Seq<T> {
    Seq::new(matrix.len(), |row: int| matrix[row][col])
}

impl<T> Matrix<T, 2, 3> where
    T: Default + Copy + std::ops::Mul<Output = T> + std::ops::Add<Output = T>,
 {
    /// The product of this matrix with `other`: at each place the default value of
    /// `T` plus the products of the row of this matrix with the column of `other`.
    pub fn multiply_with_3x2(&self, other: &Matrix<T, 3, 2>) -> (product: Matrix<T, 2, 2>)
        requires
            T::obeys_add_spec(),
            T::obeys_mul_spec(),
            forall|start: T, row: int, col: int|
                call_ensures(T::default, (), start) && 0 <= row < 2 && 0 <= col < 2
                    ==> #[trigger] dot_product_defined(
                    start,
                    self@[row],
                    column_of(other@, col),
                ),
        ensures
            exists|start: T|
                {
                    &&& call_ensures(T::default, (), start)
                    &&& forall|row: int, col: int|
                        0 <= row < 2 && 0 <= col < 2 ==> #[trigger] product@[row][col]
                            == dot_product_from(start, self@[row], column_of(other@, col))
                },
    {
        let start = T::default();
        let a = &self.data;
        let b = &other.data;
        proof {
            assert(dot_product_defined(start, self@[0], column_of(other@, 0)));
            assert(dot_product_defined(start, self@[0], column_of(other@, 1)));
            assert(dot_product_defined(start, self@[1], column_of(other@, 0)));
            assert(dot_product_defined(start, self@[1], column_of(other@, 1)));
        }
        let e00 = start + a[0][0] * b[0][0] + a[0][1] * b[1][0] + a[0][2] * b[2][0];
        let e01 = start + a[0][0] * b[0][1] + a[0][1] * b[1][1] + a[0][2] * b[2][1];
        let e10 = start + a[1][0] * b[0][0] + a[1][1] * b[1][0] + a[1][2] * b[2][0];
        let e11 = start + a[1][0] * b[0][1] + a[1][1] * b[1][1] + a[1][2] * b[2][1];
        let product = Matrix { data: [[e00, e01], [e10, e11]] };
        proof {
            assert forall|row: int, col: int|
                0 <= row < 2 && 0 <= col < 2 implies #[trigger] product@[row][col]
                == dot_product_from(start, self@[row], column_of(other@, col)) by {}
        }
        product
    }
}

/// The texts of `texts`, in the same order.
pub open spec fn string_views(texts: Seq<String>) -> Seq<Seq<char>> {
    texts.map_values(|text: String| text@)
}

/// Each text of `texts` is what the value at the same index shows of itself.
pub open spec fn shows<T: Display>(values: Seq<T>, texts: Seq<String>) -> bool {
    &&& texts.len() == values.len()
    &&& forall|i: int|
        0 <= i < values.len() ==> to_string_from_display_ensures::<T>(
            &values[i],
            #[trigger] texts[i],
        )
}

/// The texts of `items` one after the other, with `separator` between each two.
pub open spec fn joined(items: Seq<Seq<char>>, separator: Seq<char>) -> Seq<char>
    decreases items.len(),
{
    if items.len() == 0 {
        Seq::empty()
    } else if items.len() == 1 {
        items[0]
    } else {
        joined(items.drop_last(), separator) + separator + items.last()
    }
}

/// A row of items as it is displayed: in square brackets, with a comma and a space
/// between each two.
pub open spec fn bracketed(items: Seq<Seq<char>>) -> Seq<char> {
    "["@ + joined(items, ", "@) + "]"@
}

/// The line that displays an array of `items`.
pub open spec fn array_text(items: Seq<Seq<char>>) -> Seq<char> {
    bracketed(items) + "\n"@
}

/// The line that heads the display of a matrix of `rows` rows and `cols` columns.
pub open spec fn matrix_heading(rows: nat, cols: nat) -> Seq<char> {
    "Matrix "@ + decimal_text(rows) + "x"@ + decimal_text(cols) + ":\n"@
}

/// The lines that display the rows of a matrix, each row given by its items.
pub open spec fn rows_text(rows: Seq<Seq<Seq<char>>>) -> Seq<char>
    decreases rows.len(),
{
    if rows.len() == 0 {
        Seq::empty()
    } else {
        rows_text(rows.drop_last()) + "  "@ + bracketed(rows.last()) + "\n"@
    }
}

/// The text of `value` in a field of three characters, as `format!` writes it for
/// `{:>3}`. How a value fills the field is up to the `Display` implementation of `T`,
/// so nothing is claimed of the text.
#[verifier::external_body]
fn right_aligned_string<T: Display>(value: &T) -> (text: String) {
    format!("{:>3}", value)
}

impl<T: Display, const N: usize> Array<T, N> {
    /// The line that displays the array: the values as they show themselves, in
    /// square brackets, separated by a comma and a space, and a line end.
    pub fn display(&self) -> (text: String)
        ensures
            exists|shown: Seq<String>|
                shows(self@, shown) && text@ == array_text(#[trigger] string_views(shown)),
    {
        let mut text = String::from_str("[");
        let ghost mut shown: Seq<String> = Seq::empty();
        let mut at: usize = 0;
        proof {
            assert(string_views(shown) =~= Seq::empty());
            assert(text@ =~= "["@ + joined(string_views(shown), ", "@));
        }
        while at < N
            invariant
                at <= N,
                shown.len() == at,
                forall|i: int|
                    0 <= i < at ==> to_string_from_display_ensures::<T>(
                        &self@[i],
                        #[trigger] shown[i],
                    ),
                text@ == "["@ + joined(string_views(shown), ", "@),
            decreases N - at,
        {
            if at > 0 {
                text.append(", ");
            }
            let item = self.data[at].to_string();
            text.append(item.as_str());
            proof {
                let before = string_views(shown);
                shown = shown.push(item);
                let after = string_views(shown);
                assert(after =~= before.push(item@));
                assert(after.drop_last() =~= before);
                assert(text@ =~= "["@ + joined(after, ", "@));
            }
            at += 1;
        }
        text.append("]");
        text.append("\n");
        proof {
            assert(shows(self@, shown));
            assert(text@ =~= array_text(string_views(shown)));
        }
        text
    }
}

impl<T: Display, const R: usize, const C: usize> Matrix<T, R, C> {
    /// The lines that display the matrix: a heading with its size, then each row in
    /// square brackets, its values right-aligned in fields of three characters.
    pub fn display(&self) -> (text: String)
        ensures
            exists|shown: Seq<Seq<Seq<char>>>|
                {
                    &&& shown.len() == R
                    &&& forall|row: int| 0 <= row < R ==> (#[trigger] shown[row]).len() == C
                    &&& text@ == matrix_heading(R as nat, C as nat) + #[trigger] rows_text(shown)
                },
    {
        let mut text = String::from_str("Matrix ");
        let rows = decimal_string(R);
        text.append(rows.as_str());
        text.append("x");
        let cols = decimal_string(C);
        text.append(cols.as_str());
        text.append(":\n");
        let ghost mut shown: Seq<Seq<Seq<char>>> = Seq::empty();
        let mut row: usize = 0;
        proof {
            assert(text@ =~= matrix_heading(R as nat, C as nat) + rows_text(shown));
        }
        while row < R
            invariant
                row <= R,
                shown.len() == row,
                forall|i: int| 0 <= i < row ==> (#[trigger] shown[i]).len() == C,
                text@ == matrix_heading(R as nat, C as nat) + rows_text(shown),
            decreases R - row,
        {
            let ghost before = text@;
            text.append("  ");
            text.append("[");
            let ghost mut items: Seq<Seq<char>> = Seq::empty();
            let mut col: usize = 0;
            proof {
                assert(text@ =~= before + "  "@ + "["@ + joined(items, ", "@));
            }
            while col < C
                invariant
                    row < R,
                    col <= C,
                    items.len() == col,
                    text@ == before + "  "@ + "["@ + joined(items, ", "@),
                decreases C - col,
            {
                if col > 0 {
                    text.append(", ");
                }
                let item = right_aligned_string(&self.data[row][col]);
                text.append(item.as_str());
                proof {
                    let earlier = items;
                    items = items.push(item@);
                    assert(items.drop_last() =~= earlier);
                    assert(text@ =~= before + "  "@ + "["@ + joined(items, ", "@));
                }
                col += 1;
            }
            text.append("]");
            text.append("\n");
            proof {
                let earlier = shown;
                shown = shown.push(items);
                assert(shown.drop_last() =~= earlier);
                assert(text@ =~= matrix_heading(R as nat, C as nat) + rows_text(shown));
            }
            row += 1;
        }
        text
    }
}

} // verus!
