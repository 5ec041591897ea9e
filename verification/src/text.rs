//! Vectors and matrices as text, for messages and logs.

use vstd::prelude::*;
use vstd::string::{StringExecFns, to_string_from_display_ensures};
use crate::algebra::{Matrix, Vector};
use crate::model::Grid;
use crate::scalar::Scalar;

verus! {

/// The first `n` of `parts`, with a comma and a space between every two.
pub open spec fn joined(parts: Seq<Seq<char>>, n: nat) -> Seq<char>
    decreases n,
{
    if n == 0 {
        Seq::<char>::empty()
    } else if n == 1 {
        parts[0]
    } else {
        joined(parts, (n - 1) as nat) + ", "@ + parts[n - 1]
    }
}

/// `parts` as a list: in square brackets, with a comma and a space between
/// every two.
pub open spec fn listed(parts: Seq<Seq<char>>) -> Seq<char> {
    "["@ + joined(parts, parts.len()) + "]"@
}

/// `text` is what `render` writes for `value`.
pub open spec fn written_as<T, R: Fn(T) -> String>(render: R, value: T, text: Seq<char>) -> bool {
    exists|written: String| #[trigger] call_ensures(render, (value,), written) && written@ == text
}

/// `texts` holds what `render` writes for `values`, one text per value.
pub open spec fn renders<T, R: Fn(T) -> String>(render: R, values: Seq<T>, texts: Seq<Seq<char>>) -> bool {
    &&& texts.len() == values.len()
    &&& forall|i: int| 0 <= i < values.len() ==> written_as(render, values[i], #[trigger] texts[i])
}

/// `text` is the number `n` written out.
pub open spec fn numeral(n: usize, text: Seq<char>) -> bool {
    exists|written: String| #[trigger] to_string_from_display_ensures::<usize>(&n, written) && written@ == text
}

/// The values of `values` from `from` up to `to`, as a list of what `render`
/// makes of each.
fn list_of<T: Copy, R: Fn(T) -> String>(
    values: &Vec<T>,
    from: usize,
    to: usize,
    render: &R,
) -> (r: (String, Ghost<Seq<Seq<char>>>))
    requires
        from <= to <= values@.len(),
        forall|value: T| call_requires(*render, (value,)),
    ensures
        renders(*render, values@.subrange(from as int, to as int), r.1@),
        r.0@ == listed(r.1@),
{
    let ghost slice = values@.subrange(from as int, to as int);
    let ghost parts: Seq<Seq<char>> = Seq::empty();
    let mut text = "[".to_string();
    let mut i: usize = from;
    while i < to
        invariant
            from <= i <= to,
            to <= values@.len(),
            slice == values@.subrange(from as int, to as int),
            forall|value: T| call_requires(*render, (value,)),
            parts.len() == i - from,
            forall|k: int| 0 <= k < parts.len() ==> written_as(*render, slice[k], #[trigger] parts[k]),
            text@ == "["@ + joined(parts, parts.len()),
        decreases to - i,
    {
        if i > from {
            text.append(", ");
        }
        let item = render(values[i]);
        text.append(item.as_str());
        proof {
            let longer = parts.push(item@);
            assert forall|k: int| 0 <= k < longer.len() implies written_as(
                *render,
                slice[k],
                #[trigger] longer[k],
            ) by {
                if k < parts.len() {
                    assert(longer[k] == parts[k]);
                } else {
                    assert(slice[k] == values@[i as int]);
                    assert(call_ensures(*render, (slice[k],), item) && item@ == longer[k]);
                }
            }
            lemma_joined_prefix(parts, longer, parts.len());
            if parts.len() > 0 {
                assert(text@ =~= "["@ + joined(longer, longer.len()));
            } else {
                assert(text@ =~= "["@ + joined(longer, longer.len()));
            }
            parts = longer;
        }
        i += 1;
    }
    text.append("]");
    (text, Ghost(parts))
}

/// Joining the first `n` parts does not look at the later ones.
proof fn lemma_joined_prefix(parts: Seq<Seq<char>>, longer: Seq<Seq<char>>, n: nat)
    requires
        n <= parts.len() <= longer.len(),
        forall|k: int| 0 <= k < parts.len() ==> parts[k] == longer[k],
    ensures
        joined(parts, n) == joined(longer, n),
    decreases n,
{
    if n > 1 {
        lemma_joined_prefix(parts, longer, (n - 1) as nat);
    }
}

impl<T: Scalar> Vector<T> {
    /// `text` shows a vector of the entries `entries`: its length, and the
    /// list of what `render` makes of each entry.
    pub open spec fn shown_as<R: Fn(T) -> String>(entries: Seq<T>, render: R, text: Seq<char>) -> bool {
        exists|length: Seq<char>, items: Seq<Seq<char>>|
            {
                &&& numeral(entries.len() as usize, length)
                &&& renders(render, entries, items)
                &&& #[trigger] shown_vector(length, items) == text
            }
    }

    /// The vector as text: its length and its entries, each as `render`
    /// writes it.
    pub fn describe<R: Fn(T) -> String>(&self, render: R) -> (r: String)
        requires
            forall|value: T| call_requires(render, (value,)),
        ensures
            Vector::<T>::shown_as(self@, render, r@),
    {
        let length = self.len().to_string();
        let (values, Ghost(items)) = list_of(self.as_vec(), 0, self.len(), &render);
        let mut text = "Vector { Length: ".to_string();
        text.append(length.as_str());
        text.append(", Values: ");
        text.append(values.as_str());
        text.append(" }");
        proof {
            assert(self@.subrange(0, self@.len() as int) =~= self@);
            assert(numeral(self@.len() as usize, length@));
            assert(text@ =~= shown_vector(length@, items));
        }
        text
    }
}

/// The text of a vector whose length is written `length` and whose entries
/// are written `items`.
pub open spec fn shown_vector(length: Seq<char>, items: Seq<Seq<char>>) -> Seq<char> {
    "Vector { Length: "@ + length + ", Values: "@ + listed(items) + " }"@
}

/// `line` is the list of what `render` writes for `entries`.
pub open spec fn row_shown<T, R: Fn(T) -> String>(render: R, entries: Seq<T>, line: Seq<char>) -> bool {
    exists|items: Seq<Seq<char>>| renders(render, entries, items) && #[trigger] listed(items) == line
}

/// The text of a matrix whose numbers of rows and columns are written `rows`
/// and `cols`, and whose rows are written `lines`.
pub open spec fn shown_matrix(rows: Seq<char>, cols: Seq<char>, lines: Seq<Seq<char>>) -> Seq<char> {
    "Matrix { Rows: "@ + rows + ", Columns "@ + cols + ", Values: "@ + listed(lines) + " }"@
}

impl<T: Scalar> Matrix<T> {
    /// `text` shows the matrix `grid`: its numbers of rows and columns, and
    /// the list of its rows, each the list of what `render` writes for its
    /// entries.
    pub open spec fn shown_as<R: Fn(T) -> String>(grid: Grid<T>, render: R, text: Seq<char>) -> bool {
        exists|rows: Seq<char>, cols: Seq<char>, lines: Seq<Seq<char>>|
            {
                &&& numeral(grid.rows as usize, rows)
                &&& numeral(grid.cols as usize, cols)
                &&& lines.len() == grid.rows
                &&& forall|i: int|
                    0 <= i < grid.rows ==> row_shown(
                        render,
                        grid.cells.subrange(i * grid.cols, (i + 1) * grid.cols),
                        #[trigger] lines[i],
                    )
                &&& #[trigger] shown_matrix(rows, cols, lines) == text
            }
    }

    /// The matrix as text: its shape and its rows, every entry as `render`
    /// writes it.
    pub fn describe<R: Fn(T) -> String>(&self, render: R) -> (r: String)
        requires
            self.wf(),
            forall|value: T| call_requires(render, (value,)),
        ensures
            Matrix::<T>::shown_as(self@, render, r@),
    {
        let rows = self.rows();
        let cols = self.cols();
        let ghost lines: Seq<Seq<char>> = Seq::empty();
        let mut matrix_strings = "[".to_string();
        let mut i: usize = 0;
        while i < rows
            invariant
                self.wf(),
                rows == self@.rows,
                cols == self@.cols,
                i <= rows,
                forall|value: T| call_requires(render, (value,)),
                lines.len() == i,
                forall|k: int|
                    0 <= k < i ==> row_shown(
                        render,
                        self@.cells.subrange(k * cols, (k + 1) * cols),
                        #[trigger] lines[k],
                    ),
                matrix_strings@ == "["@ + joined(lines, lines.len()),
            decreases rows - i,
        {
            proof {
                assert((i + 1) * cols == i * cols + cols) by (nonlinear_arith);
                assert(0 <= i * cols) by (nonlinear_arith);
                assert((i + 1) * cols <= rows * cols) by (nonlinear_arith)
                    requires
                        i + 1 <= rows,
                ;
                assert(self@.cells.len() == rows * cols);
            }
            if i > 0 {
                matrix_strings.append(", ");
            }
            let (line, Ghost(items)) = list_of(self.values(), i * cols, i * cols + cols, &render);
            matrix_strings.append(line.as_str());
            proof {
                let longer = lines.push(line@);
                assert forall|k: int| 0 <= k < longer.len() implies row_shown(
                    render,
                    self@.cells.subrange(k * cols, (k + 1) * cols),
                    #[trigger] longer[k],
                ) by {
                    if k < lines.len() {
                        assert(longer[k] == lines[k]);
                    } else {
                        assert(renders(render, self@.cells.subrange(k * cols, (k + 1) * cols), items));
                        assert(listed(items) == longer[k]);
                    }
                }
                lemma_joined_prefix(lines, longer, lines.len());
                assert(matrix_strings@ =~= "["@ + joined(longer, longer.len()));
                lines = longer;
            }
            i += 1;
        }
        matrix_strings.append("]");
        let rows_text = rows.to_string();
        let cols_text = cols.to_string();
        let mut text = "Matrix { Rows: ".to_string();
        text.append(rows_text.as_str());
        text.append(", Columns ");
        text.append(cols_text.as_str());
        text.append(", Values: ");
        text.append(matrix_strings.as_str());
        text.append(" }");
        proof {
            assert(numeral(self@.rows as usize, rows_text@));
            assert(numeral(self@.cols as usize, cols_text@));
            assert(text@ =~= shown_matrix(rows_text@, cols_text@, lines));
        }
        text
    }
}

} // verus!
