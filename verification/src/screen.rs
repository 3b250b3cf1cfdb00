use vstd::prelude::*;

verus! {

/// Dimensions of the terminal cell grid.
#[derive(Debug, Copy, Clone, PartialEq, Eq, Structural)]
pub struct TermSize {
    pub width: u16,
    pub height: u16,
}

/// One grid cell: a single grapheme cluster, assumed one column wide.
#[derive(Debug, Clone)]
pub struct TermCell {
    pub ch: String,
}

/// An in-memory cell grid with separately tracked cursor state. View
/// components write into the grid; the rows are flushed to the real
/// terminal in one pass by the unverified shell around the library.
pub struct TermBuf {
    size: TermSize,
    show_cursor: bool,
    cursor_pos: (u16, u16),
    buf: Vec<Vec<Option<TermCell>>>,
}

/// The contents of one cell, as a sequence of characters.
pub open spec fn cell_view(c: Option<TermCell>) -> Option<Seq<char>> {
    match c {
        Some(tc) => Some(tc.ch@),
        None => None,
    }
}

/// Writing one grapheme at (x, y); writes outside the grid are dropped.
pub open spec fn spec_set_cell(
    g: Seq<Seq<Option<Seq<char>>>>,
    x: int,
    y: int,
    ch: Seq<char>,
) -> Seq<Seq<Option<Seq<char>>>> {
    if 0 <= y < g.len() && 0 <= x < g[y].len() {
        g.update(y, g[y].update(x, Some(ch)))
    } else {
        g
    }
}

/// Writing a sequence of graphemes starting at (x, y): a newline
/// grapheme advances to the next row, anything else is placed at the
/// current position and advances one column.
pub open spec fn spec_put(
    g: Seq<Seq<Option<Seq<char>>>>,
    gs: Seq<Seq<char>>,
    x: int,
    y: int,
) -> Seq<Seq<Option<Seq<char>>>>
    decreases gs.len(),
{
    if gs.len() == 0 {
        g
    } else if gs[0] == seq!['\n'] {
        spec_put(g, gs.drop_first(), x, y + 1)
    } else {
        spec_put(spec_set_cell(g, x, y, gs[0]), gs.drop_first(), x + 1, y)
    }
}

/// An all-empty grid of the given dimensions.
pub open spec fn spec_empty_grid(width: int, height: int) -> Seq<Seq<Option<Seq<char>>>> {
    Seq::new(height as nat, |r: int| Seq::new(width as nat, |c: int| None::<Seq<char>>))
}

/// One more than the index of the last occupied cell of a row; 0 when
/// the whole row is empty. Cells from here on are trailing empties.
pub open spec fn spec_row_limit(row: Seq<Option<Seq<char>>>) -> int
    decreases row.len(),
{
    if row.len() == 0 {
        0
    } else if row.last() is Some {
        row.len() as int
    } else {
        spec_row_limit(row.drop_last())
    }
}

/// The text of a run of cells: empties print as one space each.
pub open spec fn spec_cells_text(cells: Seq<Option<Seq<char>>>) -> Seq<char>
    decreases cells.len(),
{
    if cells.len() == 0 {
        Seq::empty()
    } else {
        spec_cells_text(cells.drop_last()) + (match cells.last() {
            Some(s) => s,
            None => seq![' '],
        })
    }
}

/// The text a row contributes to a draw: its cells up to the last
/// occupied one, with trailing empty cells trimmed.
pub open spec fn spec_row_text(row: Seq<Option<Seq<char>>>) -> Seq<char> {
    spec_cells_text(row.take(spec_row_limit(row)))
}

/// The grapheme clusters of a string.
pub uninterp spec fn graphemes_of(s: Seq<char>) -> Seq<Seq<char>>;

/// Relies on unicode_segmentation's `UnicodeSegmentation::graphemes`:
/// the split into extended grapheme clusters depends on the text alone.
#[verifier::external_body]
fn split_graphemes(s: &str) -> (r: Vec<String>)
    ensures
        r@.map_values(|g: String| g@) == graphemes_of(s@),
{
    unicode_segmentation::UnicodeSegmentation::graphemes(s, true).map(|g| g.to_owned()).collect()
}

/// Relies on `char::to_string` of std: the string of a single character.
#[verifier::external_body]
pub(crate) fn char_to_string(c: char) -> (r: String)
    ensures
        r@ == seq![c],
{
    c.to_string()
}

/// Two buffers of the same recorded size whose rows have pairwise
/// equal lengths are well-formed together or not at all.
proof fn lemma_wf_same_shape(pre: TermBuf, post: TermBuf)
    requires
        post.spec_size() == pre.spec_size(),
        post.row_count() == pre.row_count(),
        forall|r: int| 0 <= r < post.row_count() ==> #[trigger] post.row_len(r) == pre.row_len(r),
    ensures
        post.wf() == pre.wf(),
{
    assert forall|r: int| 0 <= r < post.buf@.len() implies #[trigger] post.buf@[r]@.len()
        == pre.buf@[r]@.len() by {
        assert(post.row_len(r) == pre.row_len(r));
    }
    if pre.wf() {
        assert forall|r: int| 0 <= r < post.buf@.len() implies #[trigger] post.buf@[r]@.len()
            == post.size.width as int by {
            assert(pre.buf@[r]@.len() == pre.size.width as int);
        }
    }
    if post.wf() {
        assert forall|r: int| 0 <= r < pre.buf@.len() implies #[trigger] pre.buf@[r]@.len()
            == pre.size.width as int by {
            assert(post.buf@[r]@.len() == post.size.width as int);
        }
    }
}

impl TermBuf {
    /// How many rows the stored grid holds.
    pub closed spec fn row_count(self) -> int {
        self.buf@.len() as int
    }

    /// The stored length of one row.
    pub closed spec fn row_len(self, r: int) -> int {
        self.buf@[r]@.len() as int
    }

    pub closed spec fn grid(self) -> Seq<Seq<Option<Seq<char>>>> {
        Seq::new(
            self.buf@.len(),
            |r: int| Seq::new(self.buf@[r]@.len(), |c: int| cell_view(self.buf@[r]@[c])),
        )
    }

    pub closed spec fn spec_size(self) -> TermSize {
        self.size
    }

    pub closed spec fn spec_cursor_pos(self) -> (u16, u16) {
        self.cursor_pos
    }

    pub closed spec fn spec_show_cursor(self) -> bool {
        self.show_cursor
    }

    /// The grid always matches the recorded dimensions.
    pub closed spec fn wf(self) -> bool {
        &&& self.buf@.len() == self.size.height as int
        &&& forall|r: int|
            0 <= r < self.buf@.len() ==> #[trigger] self.buf@[r]@.len() == self.size.width as int
    }

    /// Constructs an all-empty buffer of the given size, with the cursor
    /// visible at the top-left position.
    pub fn new(size: TermSize) -> (r: TermBuf)
        ensures
            r.wf(),
            r.spec_size() == size,
            r.grid() == spec_empty_grid(size.width as int, size.height as int),
            r.spec_cursor_pos() == (1u16, 1u16),
            r.spec_show_cursor() == true,
    {
        let buf = Self::empty_grid(size);
        let r = TermBuf { size, show_cursor: true, cursor_pos: (1, 1), buf };
        proof {
            assert(r.grid() =~~= spec_empty_grid(size.width as int, size.height as int));
        }
        r
    }

    fn empty_grid(size: TermSize) -> (buf: Vec<Vec<Option<TermCell>>>)
        ensures
            buf@.len() == size.height as int,
            forall|r: int| 0 <= r < buf@.len() ==> #[trigger] buf@[r]@.len() == size.width as int,
            forall|r: int, c: int|
                0 <= r < buf@.len() && 0 <= c < buf@[r]@.len() ==> #[trigger] buf@[r]@[c] is None,
    {
        let mut buf: Vec<Vec<Option<TermCell>>> = Vec::new();
        let mut r: usize = 0;
        while r < size.height as usize
            invariant
                r <= size.height as usize,
                buf@.len() == r as int,
                forall|i: int| 0 <= i < r ==> #[trigger] buf@[i]@.len() == size.width as int,
                forall|i: int, c: int|
                    0 <= i < r && 0 <= c < buf@[i]@.len() ==> #[trigger] buf@[i]@[c] is None,
            decreases size.height as usize - r,
        {
            let mut row: Vec<Option<TermCell>> = Vec::new();
            let mut c: usize = 0;
            while c < size.width as usize
                invariant
                    c <= size.width as usize,
                    row@.len() == c as int,
                    forall|j: int| 0 <= j < c ==> #[trigger] row@[j] is None,
                decreases size.width as usize - c,
            {
                row.push(None);
                c = c + 1;
            }
            buf.push(row);
            r = r + 1;
        }
        buf
    }

    /// Gets the recorded size of the buffer.
    pub fn size(&self) -> (r: TermSize)
        ensures
            r == self.spec_size(),
    {
        self.size
    }

    /// Sets cursor visibility; the escape that shows or hides the real
    /// cursor is emitted by the caller that owns the terminal.
    pub fn set_cursor_visible(&mut self, visible: bool)
        ensures
            final(self).spec_show_cursor() == visible,
            final(self).spec_size() == old(self).spec_size(),
            final(self).spec_cursor_pos() == old(self).spec_cursor_pos(),
            final(self).grid() == old(self).grid(),
            final(self).wf() == old(self).wf(),
    {
        self.show_cursor = visible;
    }

    /// Sets cursor position.
    pub fn set_cursor_position(&mut self, x: u16, y: u16)
        ensures
            final(self).spec_cursor_pos() == (x, y),
            final(self).spec_show_cursor() == old(self).spec_show_cursor(),
            final(self).spec_size() == old(self).spec_size(),
            final(self).grid() == old(self).grid(),
            final(self).wf() == old(self).wf(),
    {
        self.cursor_pos = (x, y);
    }

    pub fn cursor_position(&self) -> (r: (u16, u16))
        ensures
            r == self.spec_cursor_pos(),
    {
        self.cursor_pos
    }

    pub fn cursor_visible(&self) -> (r: bool)
        ensures
            r == self.spec_show_cursor(),
    {
        self.show_cursor
    }

    /// The contents of the cell at (x, y), if the coordinate is on the
    /// grid and the cell is occupied.
    pub fn get_cell(&self, x: u16, y: u16) -> (r: Option<String>)
        ensures
            match r {
                Some(s) => {
                    &&& 0 <= (y as int) < self.grid().len()
                    &&& 0 <= (x as int) < self.grid()[y as int].len()
                    &&& self.grid()[y as int][x as int] == Some(s@)
                },
                None => {
                    (y as int) < self.grid().len() && (x as int) < self.grid()[y as int].len()
                        ==> self.grid()[y as int][x as int] is None
                },
            },
    {
        if (y as usize) < self.buf.len() {
            let row = &self.buf[y as usize];
            if (x as usize) < row.len() {
                match &row[x as usize] {
                    Some(tc) => Some(tc.ch.clone()),
                    None => None,
                }
            } else {
                None
            }
        } else {
            None
        }
    }

    fn set_cell(&mut self, cell: TermCell, x: u16, y: u16)
        ensures
            final(self).grid() == spec_set_cell(old(self).grid(), x as int, y as int, cell.ch@),
            final(self).spec_size() == old(self).spec_size(),
            final(self).spec_cursor_pos() == old(self).spec_cursor_pos(),
            final(self).spec_show_cursor() == old(self).spec_show_cursor(),
            final(self).wf() == old(self).wf(),
    {
        let ghost g0 = self.grid();
        if (y as usize) < self.buf.len() {
            let row_len = self.buf[y as usize].len();
            if (x as usize) < row_len {
                self.buf[y as usize].set(x as usize, Some(cell));
                proof {
                    assert(self.buf@.len() == old(self).buf@.len());
                    assert forall|r: int| 0 <= r < self.row_count() implies #[trigger] self.row_len(
                        r,
                    ) == old(self).row_len(r) by {}
                    assert(self.grid() =~~= spec_set_cell(g0, x as int, y as int, cell.ch@));
                    lemma_wf_same_shape(*old(self), *self);
                }
                return ;
            }
        }
        proof {
            assert(self.grid() =~~= spec_set_cell(g0, x as int, y as int, cell.ch@));
        }
    }

    /// Writes a single char.
    pub fn set_char(&mut self, ch: char, x: u16, y: u16)
        ensures
            final(self).grid() == spec_set_cell(old(self).grid(), x as int, y as int, seq![ch]),
            final(self).spec_size() == old(self).spec_size(),
            final(self).spec_cursor_pos() == old(self).spec_cursor_pos(),
            final(self).spec_show_cursor() == old(self).spec_show_cursor(),
            final(self).wf() == old(self).wf(),
    {
        self.set_cell(TermCell { ch: char_to_string(ch) }, x, y)
    }

    /// Writes a sequence of grapheme clusters starting at (x, y). A
    /// newline cluster advances to the next row; writes that fall
    /// outside the grid are silently dropped.
    pub fn put_graphemes(&mut self, gs: &Vec<String>, x: u16, y: u16)
        ensures
            final(self).grid() == spec_put(
                old(self).grid(),
                gs@.map_values(|g: String| g@),
                x as int,
                y as int,
            ),
            final(self).spec_size() == old(self).spec_size(),
            final(self).spec_cursor_pos() == old(self).spec_cursor_pos(),
            final(self).spec_show_cursor() == old(self).spec_show_cursor(),
            final(self).wf() == old(self).wf(),
    {
        let ghost gseq = gs@.map_values(|g: String| g@);
        let mut cx: usize = x as usize;
        let mut cy: usize = y as usize;
        let ghost mut sx: int = x as int;
        let ghost mut sy: int = y as int;
        let mut i: usize = 0;
        proof {
            assert(gseq.skip(0) =~= gseq);
        }
        while i < gs.len()
            invariant
                i <= gs.len(),
                gseq == gs@.map_values(|g: String| g@),
                gseq.len() == gs@.len(),
                sx >= 0,
                sy >= 0,
                (cx as int == sx) || (cx == usize::MAX && sx >= usize::MAX),
                (cy as int == sy) || (cy == usize::MAX && sy >= usize::MAX),
                spec_put(old(self).grid(), gseq, x as int, y as int) == spec_put(
                    self.grid(),
                    gseq.skip(i as int),
                    sx,
                    sy,
                ),
                self.size == old(self).size,
                self.cursor_pos == old(self).cursor_pos,
                self.show_cursor == old(self).show_cursor,
                self.wf() == old(self).wf(),
            decreases gs.len() - i,
        {
            proof {
                assert(gseq.skip(i as int)[0] == gseq[i as int]);
                assert(gseq.skip(i as int).drop_first() =~= gseq.skip(i as int + 1));
            }
            let g = &gs[i];
            let is_newline = g.as_str().unicode_len() == 1 && g.as_str().get_char(0) == '\n';
            proof {
                assert(is_newline == (gseq[i as int] == seq!['\n'])) by {
                    if g@.len() == 1 && g@[0] == '\n' {
                        assert(g@ =~= seq!['\n']);
                    }
                    if gseq[i as int] == seq!['\n'] {
                        assert(g@.len() == 1 && g@[0] == '\n');
                    }
                }
            }
            if is_newline {
                proof {
                    sy = sy + 1;
                }
                if cy < usize::MAX {
                    cy = cy + 1;
                }
            } else {
                let ghost gpre = self.grid();
                let ghost pre = *self;
                if cy < self.buf.len() {
                    let row_len = self.buf[cy].len();
                    if cx < row_len {
                        let cell = TermCell { ch: g.clone() };
                        self.buf[cy].set(cx, Some(cell));
                        proof {
                            assert(self.buf@.len() == pre.buf@.len());
                            assert forall|r: int| 0 <= r < self.row_count() implies #[trigger] self
                                .row_len(r) == pre.row_len(r) by {}
                            assert(self.grid() =~~= spec_set_cell(gpre, sx, sy, gseq[i as int]));
                            lemma_wf_same_shape(pre, *self);
                        }
                    } else {
                        proof {
                            assert(self.grid() =~~= spec_set_cell(gpre, sx, sy, gseq[i as int]));
                        }
                    }
                } else {
                    proof {
                        assert(self.grid() =~~= spec_set_cell(gpre, sx, sy, gseq[i as int]));
                    }
                }
                proof {
                    sx = sx + 1;
                }
                if cx < usize::MAX {
                    cx = cx + 1;
                }
            }
            i = i + 1;
        }
        proof {
            assert(gseq.skip(i as int).len() == 0);
            assert(spec_put(self.grid(), gseq.skip(i as int), sx, sy) == self.grid());
        }
    }

    /// Writes an entire string, one grapheme cluster per column.
    pub fn put_string(&mut self, string: &str, x: u16, y: u16)
        ensures
            final(self).grid() == spec_put(
                old(self).grid(),
                graphemes_of(string@),
                x as int,
                y as int,
            ),
            final(self).spec_size() == old(self).spec_size(),
            final(self).spec_cursor_pos() == old(self).spec_cursor_pos(),
            final(self).spec_show_cursor() == old(self).spec_show_cursor(),
            final(self).wf() == old(self).wf(),
    {
        let gs = split_graphemes(string);
        self.put_graphemes(&gs, x, y)
    }

    /// Reallocates the grid to the new dimensions, keeping the
    /// overlapping top-left submatrix and exposing new cells as empty.
    pub fn resize(&mut self, new_size: TermSize)
        ensures
            final(self).wf(),
            final(self).spec_size() == new_size,
            final(self).grid().len() == new_size.height as int,
            forall|r: int|
                0 <= r < new_size.height as int ==> #[trigger] final(self).grid()[r].len()
                    == new_size.width as int,
            forall|r: int, c: int|
                0 <= r < new_size.height as int && 0 <= c < new_size.width as int
                    ==> #[trigger] final(self).grid()[r][c] == (if r < old(self).grid().len() && c
                    < old(self).grid()[r].len() {
                    old(self).grid()[r][c]
                } else {
                    None
                }),
            final(self).spec_cursor_pos() == old(self).spec_cursor_pos(),
            final(self).spec_show_cursor() == old(self).spec_show_cursor(),
    {
        let mut new_buf: Vec<Vec<Option<TermCell>>> = Vec::new();
        let mut r: usize = 0;
        while r < new_size.height as usize
            invariant
                r <= new_size.height as usize,
                new_buf@.len() == r as int,
                forall|i: int|
                    0 <= i < r ==> #[trigger] new_buf@[i]@.len() == new_size.width as int,
                forall|i: int, c: int|
                    0 <= i < r && 0 <= c < new_size.width as int
                        ==> #[trigger] cell_view(new_buf@[i]@[c]) == (if i < self.grid().len() && c
                        < self.grid()[i].len() {
                        self.grid()[i][c]
                    } else {
                        None
                    }),
            decreases new_size.height as usize - r,
        {
            let mut row: Vec<Option<TermCell>> = Vec::new();
            let mut c: usize = 0;
            while c < new_size.width as usize
                invariant
                    c <= new_size.width as usize,
                    row@.len() == c as int,
                    forall|j: int|
                        0 <= j < c ==> #[trigger] cell_view(row@[j]) == (if r < self.grid().len()
                            && j < self.grid()[r as int].len() {
                            self.grid()[r as int][j]
                        } else {
                            None
                        }),
                decreases new_size.width as usize - c,
            {
                let cell: Option<TermCell> = if r < self.buf.len() && c < self.buf[r].len() {
                    match &self.buf[r][c] {
                        Some(tc) => Some(TermCell { ch: tc.ch.clone() }),
                        None => None,
                    }
                } else {
                    None
                };
                row.push(cell);
                c = c + 1;
            }
            new_buf.push(row);
            r = r + 1;
        }
        self.buf = new_buf;
        self.size = new_size;
    }

    /// Empties every cell; the dimensions and the cursor are kept.
    pub fn clear(&mut self)
        ensures
            final(self).wf(),
            final(self).spec_size() == old(self).spec_size(),
            final(self).grid() == spec_empty_grid(
                old(self).spec_size().width as int,
                old(self).spec_size().height as int,
            ),
            final(self).spec_cursor_pos() == old(self).spec_cursor_pos(),
            final(self).spec_show_cursor() == old(self).spec_show_cursor(),
    {
        let buf = Self::empty_grid(self.size);
        self.buf = buf;
        proof {
            assert(self.grid() =~~= spec_empty_grid(
                self.size.width as int,
                self.size.height as int,
            ));
        }
    }

    /// The text of each row in top-to-bottom order, with trailing empty
    /// cells trimmed: what one full-screen repaint writes.
    pub fn draw_rows(&self) -> (r: Vec<String>)
        ensures
            r@.len() == self.grid().len(),
            forall|i: int| 0 <= i < r@.len() ==> #[trigger] r@[i]@ == spec_row_text(self.grid()[i]),
    {
        let mut rows: Vec<String> = Vec::new();
        let mut i: usize = 0;
        while i < self.buf.len()
            invariant
                i <= self.buf@.len(),
                rows@.len() == i as int,
                forall|k: int|
                    0 <= k < i ==> #[trigger] rows@[k]@ == spec_row_text(self.grid()[k]),
            decreases self.buf@.len() - i,
        {
            let row_text = Self::row_text(&self.buf[i]);
            proof {
                assert(self.buf@[i as int]@.map_values(|c: Option<TermCell>| cell_view(c)) =~= self
                    .grid()[i as int]);
            }
            rows.push(row_text);
            i = i + 1;
        }
        rows
    }

    fn row_text(row: &Vec<Option<TermCell>>) -> (r: String)
        ensures
            r@ == spec_row_text(row@.map_values(|c: Option<TermCell>| cell_view(c))),
    {
        let ghost rv = row@.map_values(|c: Option<TermCell>| cell_view(c));
        // Find one past the last occupied cell.
        let mut limit: usize = row.len();
        proof {
            assert(rv.take(row@.len() as int) =~= rv);
        }
        while limit > 0 && row[limit - 1].is_none()
            invariant
                limit <= row@.len(),
                rv == row@.map_values(|c: Option<TermCell>| cell_view(c)),
                rv.len() == row@.len(),
                spec_row_limit(rv) == spec_row_limit(rv.take(limit as int)),
            decreases limit,
        {
            proof {
                assert(rv[limit as int - 1] == cell_view(row@[limit as int - 1]));
                assert(rv.take(limit as int).last() == rv[limit as int - 1]);
                assert(rv.take(limit as int).last() is None);
                assert(rv.take(limit as int).drop_last() =~= rv.take(limit as int - 1));
            }
            limit = limit - 1;
        }
        proof {
            if limit > 0 {
                assert(rv[limit as int - 1] == cell_view(row@[limit as int - 1]));
                assert(rv.take(limit as int).last() == rv[limit as int - 1]);
                assert(rv.take(limit as int).last() is Some);
            }
            assert(spec_row_limit(rv.take(limit as int)) == limit as int);
        }
        let mut s = String::new();
        let mut c: usize = 0;
        while c < limit
            invariant
                c <= limit,
                limit <= row@.len(),
                rv == row@.map_values(|c2: Option<TermCell>| cell_view(c2)),
                rv.len() == row@.len(),
                spec_row_limit(rv) == limit as int,
                s@ == spec_cells_text(rv.take(c as int)),
            decreases limit - c,
        {
            proof {
                assert(rv[c as int] == cell_view(row@[c as int]));
            }
            match &row[c] {
                Some(tc) => {
                    s.append(tc.ch.as_str());
                    proof {
                        assert(rv[c as int] == Some(tc.ch@));
                    }
                },
                None => {
                    s.append(" ");
                    proof {
                        reveal_strlit(" ");
                        assert(" "@ =~= seq![' ']);
                    }
                },
            }
            proof {
                assert(rv.take(c as int + 1).drop_last() =~= rv.take(c as int));
                assert(rv.take(c as int + 1).last() == rv[c as int]);
                assert(s@ =~= spec_cells_text(rv.take(c as int + 1)));
            }
            c = c + 1;
        }
        proof {
            assert(rv.take(limit as int) =~= rv.take(spec_row_limit(rv)));
        }
        s
    }

    /// Draws a box of unicode line-drawing characters whose interior is
    /// `width` columns by `height` rows, with its top-left corner at (x, y).
    pub fn draw_box(&mut self, x: u16, y: u16, width: u16, height: u16)
        requires
            x + width + 1 <= u16::MAX,
            y + height + 1 <= u16::MAX,
        ensures
            final(self).wf() == old(self).wf(),
            final(self).spec_size() == old(self).spec_size(),
            final(self).spec_cursor_pos() == old(self).spec_cursor_pos(),
            final(self).spec_show_cursor() == old(self).spec_show_cursor(),
            final(self).grid() == spec_box_grid(
                old(self).grid(),
                x as int,
                y as int,
                width as int + 1,
                height as int + 1,
            ),
    {
        let width = width + 1;
        let height = height + 1;
        self.set_char('┌', x, y);
        self.set_char('┐', x + width, y);
        self.set_char('└', x, y + height);
        self.set_char('┘', x + width, y + height);

        let mut i: u16 = x + 1;
        while i < width + x
            invariant
                x + 1 <= i <= x + width,
                x + width <= u16::MAX,
                y + height <= u16::MAX,
                self.wf() == old(self).wf(),
                self.size == old(self).size,
                self.cursor_pos == old(self).cursor_pos,
                self.show_cursor == old(self).show_cursor,
                self.grid().len() == old(self).grid().len(),
                forall|r: int|
                    0 <= r < self.grid().len() ==> #[trigger] self.grid()[r].len() == old(
                        self,
                    ).grid()[r].len(),
                forall|r: int, c: int|
                    0 <= r < self.grid().len() && 0 <= c < self.grid()[r].len()
                        ==> #[trigger] self.grid()[r][c] == (match spec_box_progress(
                        x as int,
                        y as int,
                        width as int,
                        height as int,
                        c,
                        r,
                        i as int,
                        y as int + 1,
                    ) {
                        Some(ch) => Some(seq![ch]),
                        None => old(self).grid()[r][c],
                    }),
            decreases x + width - i,
        {
            self.set_char('─', i, y);
            self.set_char('─', i, y + height);
            i = i + 1;
        }
        let mut j: u16 = y + 1;
        while j < height + y
            invariant
                y + 1 <= j <= y + height,
                x + width <= u16::MAX,
                y + height <= u16::MAX,
                i == x + width,
                self.wf() == old(self).wf(),
                self.size == old(self).size,
                self.cursor_pos == old(self).cursor_pos,
                self.show_cursor == old(self).show_cursor,
                self.grid().len() == old(self).grid().len(),
                forall|r: int|
                    0 <= r < self.grid().len() ==> #[trigger] self.grid()[r].len() == old(
                        self,
                    ).grid()[r].len(),
                forall|r: int, c: int|
                    0 <= r < self.grid().len() && 0 <= c < self.grid()[r].len()
                        ==> #[trigger] self.grid()[r][c] == (match spec_box_progress(
                        x as int,
                        y as int,
                        width as int,
                        height as int,
                        c,
                        r,
                        (x + width) as int,
                        j as int,
                    ) {
                        Some(ch) => Some(seq![ch]),
                        None => old(self).grid()[r][c],
                    }),
            decreases y + height - j,
        {
            self.set_char('│', x, j);
            self.set_char('│', x + width, j);
            j = j + 1;
        }
        proof {
            assert forall|r: int, c: int|
                0 <= r < self.grid().len() && 0 <= c < self.grid()[r].len() implies #[trigger] self
                .grid()[r][c] == (match spec_box_char(
                x as int,
                y as int,
                width as int,
                height as int,
                c,
                r,
            ) {
                Some(ch) => Some(seq![ch]),
                None => old(self).grid()[r][c],
            }) by {
                assert(spec_box_progress(
                    x as int,
                    y as int,
                    width as int,
                    height as int,
                    c,
                    r,
                    (x + width) as int,
                    (y + height) as int,
                ) == spec_box_char(x as int, y as int, width as int, height as int, c, r));
            }
            assert(self.grid() =~~= spec_box_grid(
                old(self).grid(),
                x as int,
                y as int,
                width as int,
                height as int,
            ));
        }
    }

    /// Draws a vertical line of box-drawing characters at column `x`,
    /// covering the rows from `y0` up to but not including `y1`.
    pub fn draw_vertical_line(&mut self, x: u16, y0: u16, y1: u16)
        ensures
            final(self).wf() == old(self).wf(),
            final(self).spec_size() == old(self).spec_size(),
            final(self).spec_cursor_pos() == old(self).spec_cursor_pos(),
            final(self).spec_show_cursor() == old(self).spec_show_cursor(),
            final(self).grid() == spec_vline_grid(
                old(self).grid(),
                x as int,
                y0 as int,
                y1 as int,
            ),
    {
        let mut j: u16 = y0;
        if y1 < y0 {
            proof {
                assert(self.grid() =~~= spec_vline_grid(
                    old(self).grid(),
                    x as int,
                    y0 as int,
                    y1 as int,
                ));
            }
            return ;
        }
        proof {
            assert(self.grid() =~~= spec_vline_grid(
                old(self).grid(),
                x as int,
                y0 as int,
                y0 as int,
            ));
        }
        while j < y1
            invariant
                y0 <= j <= y1,
                self.wf() == old(self).wf(),
                self.spec_size() == old(self).spec_size(),
                self.spec_cursor_pos() == old(self).spec_cursor_pos(),
                self.spec_show_cursor() == old(self).spec_show_cursor(),
                self.grid() == spec_vline_grid(old(self).grid(), x as int, y0 as int, j as int),
            decreases y1 - j,
        {
            self.set_char('│', x, j);
            proof {
                assert(self.grid() =~~= spec_vline_grid(
                    old(self).grid(),
                    x as int,
                    y0 as int,
                    j as int + 1,
                ));
            }
            j = j + 1;
        }
    }
}

/// The box-drawing character that a completed `draw_box(x, y, w - 1, h - 1)`
/// call places at column `c`, row `r`, if any.
pub open spec fn spec_box_char(x: int, y: int, w: int, h: int, c: int, r: int) -> Option<char> {
    if c == x && r == y {
        Some('┌')
    } else if c == x + w && r == y {
        Some('┐')
    } else if c == x && r == y + h {
        Some('└')
    } else if c == x + w && r == y + h {
        Some('┘')
    } else if x < c < x + w && (r == y || r == y + h) {
        Some('─')
    } else if y < r < y + h && (c == x || c == x + w) {
        Some('│')
    } else {
        None
    }
}

/// The grid after a completed box draw: the box characters placed over
/// the old contents.
pub open spec fn spec_box_grid(
    g: Seq<Seq<Option<Seq<char>>>>,
    x: int,
    y: int,
    w: int,
    h: int,
) -> Seq<Seq<Option<Seq<char>>>> {
    Seq::new(
        g.len(),
        |r: int|
            Seq::new(
                g[r].len(),
                |c: int|
                    match spec_box_char(x, y, w, h, c, r) {
                        Some(ch) => Some(seq![ch]),
                        None => g[r][c],
                    },
            ),
    )
}

/// The grid after a vertical line of box-drawing characters at column
/// `x`, rows `y0` (inclusive) to `y1` (exclusive).
pub open spec fn spec_vline_grid(
    g: Seq<Seq<Option<Seq<char>>>>,
    x: int,
    y0: int,
    y1: int,
) -> Seq<Seq<Option<Seq<char>>>> {
    Seq::new(
        g.len(),
        |r: int|
            Seq::new(
                g[r].len(),
                |c: int|
                    if c == x && y0 <= r < y1 {
                        Some(seq!['│'])
                    } else {
                        g[r][c]
                    },
            ),
    )
}

/// The box-drawing character already placed when the horizontal lines
/// have been drawn for columns below `hi` and the vertical lines for
/// rows below `vj`.
pub open spec fn spec_box_progress(
    x: int,
    y: int,
    w: int,
    h: int,
    c: int,
    r: int,
    hi: int,
    vj: int,
) -> Option<char> {
    if c == x && r == y {
        Some('┌')
    } else if c == x + w && r == y {
        Some('┐')
    } else if c == x && r == y + h {
        Some('└')
    } else if c == x + w && r == y + h {
        Some('┘')
    } else if x < c < hi && (r == y || r == y + h) {
        Some('─')
    } else if y < r < vj && (c == x || c == x + w) {
        Some('│')
    } else {
        None
    }
}

} // verus!
