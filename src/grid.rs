use vstd::prelude::*;

verus! {

/// Position of the cell `(row, col)` in a row-major buffer `width` cells wide.
pub open spec fn cell_index(width: int, row: int, col: int) -> int {
    row * width + col
}

/// The text of a block of rows: each row followed by a carriage return and a line feed.
pub open spec fn text_of(rows: Seq<Seq<char>>) -> Seq<char>
    decreases rows.len(),
{
    if rows.len() == 0 {
        Seq::empty()
    } else {
        text_of(rows.drop_last()) + rows.last() + seq!['\r', '\n']
    }
}

pub proof fn lemma_cell_index_bounds(width: int, height: int, row: int, col: int)
    requires
        0 <= row < height,
        0 <= col < width,
    ensures
        0 <= row * width <= cell_index(width, row, col) < width * height,
{
    assert(0 <= row * width <= row * width + col < width * height) by (nonlinear_arith)
        requires
            0 <= row < height,
            0 <= col < width,
    ;
}

pub proof fn lemma_cell_index_injective(width: int, r1: int, c1: int, r2: int, c2: int)
    requires
        0 <= r1,
        0 <= r2,
        0 <= c1 < width,
        0 <= c2 < width,
        cell_index(width, r1, c1) == cell_index(width, r2, c2),
    ensures
        r1 == r2,
        c1 == c2,
{
    if r1 < r2 {
        assert(r1 * width + width <= r2 * width) by (nonlinear_arith)
            requires
                r1 < r2,
                0 < width,
        ;
    } else if r2 < r1 {
        assert(r2 * width + width <= r1 * width) by (nonlinear_arith)
            requires
                r2 < r1,
                0 < width,
        ;
    }
}

/// Relies on `String::push`: the character is appended at the end.
#[verifier::external_body]
fn push_char(s: &mut String, ch: char)
    ensures
        final(s)@ == old(s)@.push(ch),
{
    s.push(ch);
}

/// A fixed-size rectangle of display characters, stored row by row.
pub struct CharMatrix {
    pub width: usize,
    pub height: usize,
    pub cells: Vec<char>,
}

impl CharMatrix {
    /// The buffer holds exactly `width * height` cells.
    pub open spec fn wf(&self) -> bool {
        self.cells@.len() == self.width * self.height
    }

    /// The rows of the matrix, top to bottom.
    pub open spec fn view(&self) -> Seq<Seq<char>> {
        Seq::new(
            self.height as nat,
            |r: int| Seq::new(self.width as nat, |c: int| self.cells@[cell_index(self.width as int, r, c)]),
        )
    }

    /// A `width` by `height` matrix of blanks.
    pub fn new(width: usize, height: usize) -> (m: CharMatrix)
        requires
            width * height <= usize::MAX,
        ensures
            m.wf(),
            m.width == width,
            m.height == height,
            m.view().len() == height,
            forall|r: int| 0 <= r < height ==> #[trigger] m.view()[r].len() == width,
            forall|r: int, c: int|
                0 <= r < height && 0 <= c < width ==> #[trigger] m.view()[r][c] == ' ',
    {
        let n: usize = width * height;
        let cells = vec![' '; n];
        let m = CharMatrix { width, height, cells };
        assert forall|r: int, c: int| 0 <= r < height && 0 <= c < width implies #[trigger] m.view()[r][c] == ' ' by {
            lemma_cell_index_bounds(width as int, height as int, r, c);
        }
        m
    }

    /// A matrix with the given rows, or `None` when they are not all of one length.
    pub fn from_rows(rows: &Vec<Vec<char>>) -> (res: Option<CharMatrix>)
        ensures
            match res {
                Some(m) => {
                    &&& m.wf()
                    &&& m.height == rows@.len()
                    &&& (rows@.len() > 0 ==> m.width == rows@[0]@.len())
                    &&& m.view().len() == rows@.len()
                    &&& forall|k: int| 0 <= k < rows@.len() ==> #[trigger] m.view()[k] == rows@[k]@
                },
                None => rows@.len() > 0 && exists|r: int|
                    0 <= r < rows@.len() && #[trigger] rows@[r]@.len() != rows@[0]@.len(),
            },
    {
        let height: usize = rows.len();
        if height == 0 {
            let cells: Vec<char> = Vec::new();
            assert(cells@.len() == 0);
            let m = CharMatrix { width: 0, height: 0, cells };
            assert(m.width * m.height == 0);
            return Some(m);
        }
        let width: usize = rows[0].len();
        let mut cells: Vec<char> = Vec::new();
        let mut r: usize = 0;
        while r < height
            invariant
                height == rows@.len(),
                height > 0,
                width == rows@[0]@.len(),
                0 <= r <= height,
                forall|k: int| 0 <= k < r ==> #[trigger] rows@[k]@.len() == width,
                cells@.len() == r * width,
                forall|k: int, c: int|
                    0 <= k < r && 0 <= c < width ==> cells@[cell_index(width as int, k, c)]
                        == #[trigger] rows@[k]@[c],
            decreases height - r,
        {
            let line = &rows[r];
            if line.len() != width {
                return None;
            }
            let mut c: usize = 0;
            while c < width
                invariant
                    0 <= r < height,
                    height == rows@.len(),
                    line@ == rows@[r as int]@,
                    line@.len() == width,
                    0 <= c <= width,
                    cells@.len() == r * width + c,
                    forall|k: int, c2: int|
                        0 <= k < r && 0 <= c2 < width ==> cells@[cell_index(width as int, k, c2)]
                            == #[trigger] rows@[k]@[c2],
                    forall|c2: int|
                        0 <= c2 < c ==> cells@[cell_index(width as int, r as int, c2)]
                            == #[trigger] rows@[r as int]@[c2],
                decreases width - c,
            {
                proof {
                    assert forall|k: int, c2: int|
                        0 <= k < r && 0 <= c2 < width implies cell_index(width as int, k, c2) < r * width + c by {
                        assert(k * width + c2 < r * width) by (nonlinear_arith)
                            requires
                                0 <= k < r,
                                0 <= c2 < width,
                        ;
                    }
                }
                cells.push(line[c]);
                c = c + 1;
            }
            proof {
                assert((r + 1) * width == r * width + width) by (nonlinear_arith);
            }
            r = r + 1;
        }
        let m = CharMatrix { width, height, cells };
        assert(height * width == width * height) by (nonlinear_arith);
        assert forall|k: int| 0 <= k < height implies #[trigger] m.view()[k] == rows@[k]@ by {
            assert(m.view()[k] =~= rows@[k]@);
        }
        Some(m)
    }

    /// The character at `(row, col)`.
    pub fn get(&self, row: usize, col: usize) -> (ch: char)
        requires
            self.wf(),
            row < self.height,
            col < self.width,
        ensures
            ch == self.view()[row as int][col as int],
    {
        let _n: usize = self.cells.len();
        proof {
            lemma_cell_index_bounds(self.width as int, self.height as int, row as int, col as int);
        }
        self.cells[row * self.width + col]
    }

    /// Writes `ch` at `(row, col)`; every other cell keeps its character.
    pub fn set(&mut self, row: usize, col: usize, ch: char)
        requires
            old(self).wf(),
            row < old(self).height,
            col < old(self).width,
        ensures
            final(self).wf(),
            final(self).width == old(self).width,
            final(self).height == old(self).height,
            final(self).view() == old(self).view().update(
                row as int,
                old(self).view()[row as int].update(col as int, ch),
            ),
    {
        let _n: usize = self.cells.len();
        proof {
            lemma_cell_index_bounds(self.width as int, self.height as int, row as int, col as int);
        }
        let i: usize = row * self.width + col;
        self.cells.set(i, ch);
        proof {
            let w = self.width as int;
            let expected = old(self).view().update(row as int, old(self).view()[row as int].update(col as int, ch));
            assert forall|r: int| 0 <= r < self.height implies #[trigger] self.view()[r] =~= expected[r] by {
                assert forall|c: int| 0 <= c < w implies #[trigger] self.view()[r][c] == expected[r][c] by {
                    lemma_cell_index_bounds(w, self.height as int, r, c);
                    if cell_index(w, r, c) == i as int {
                        lemma_cell_index_injective(w, r, c, row as int, col as int);
                    }
                }
            }
            assert(self.view() =~= expected);
        }
    }

    /// The matrix as text: each row, top to bottom, followed by `"\r\n"`.
    pub fn to_text(&self) -> (text: String)
        requires
            self.wf(),
        ensures
            text@ == text_of(self.view()),
    {
        let mut text = String::new();
        let mut r: usize = 0;
        while r < self.height
            invariant
                self.wf(),
                0 <= r <= self.height,
                text@ == text_of(self.view().take(r as int)),
            decreases self.height - r,
        {
            let ghost before = text@;
            let mut c: usize = 0;
            while c < self.width
                invariant
                    self.wf(),
                    0 <= r < self.height,
                    0 <= c <= self.width,
                    text@ == before + self.view()[r as int].take(c as int),
                decreases self.width - c,
            {
                let ch = self.get(r, c);
                push_char(&mut text, ch);
                proof {
                    assert(self.view()[r as int].take(c + 1) =~= self.view()[r as int].take(c as int).push(ch));
                }
                c = c + 1;
            }
            push_char(&mut text, '\r');
            push_char(&mut text, '\n');
            proof {
                let rows = self.view().take(r + 1);
                assert(rows.drop_last() =~= self.view().take(r as int));
                assert(self.view()[r as int].take(c as int) =~= self.view()[r as int]);
                assert(text@ =~= text_of(rows));
            }
            r = r + 1;
        }
        assert(self.view().take(r as int) =~= self.view());
        text
    }
}

/// Writing a character at `(row, col)` and reading it back gives that character;
/// every other cell reads as before.
pub proof fn lemma_write_then_read(m: CharMatrix, row: int, col: int, ch: char)
    requires
        m.wf(),
        0 <= row < m.height,
        0 <= col < m.width,
    ensures
        ({
            let after = m.view().update(row, m.view()[row].update(col, ch));
            &&& after[row][col] == ch
            &&& forall|r: int, c: int|
                0 <= r < m.height && 0 <= c < m.width && (r != row || c != col)
                    ==> #[trigger] after[r][c] == m.view()[r][c]
        }),
{
}

} // verus!
