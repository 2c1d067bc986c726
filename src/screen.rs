use vstd::prelude::*;

verus! {

/// Number of columns a horizontal tab advances at most.
pub const TAB_WIDTH: usize = 8;

/// Largest column or row count a grid can have.
pub const MAX_GRID: usize = 65535;

/// Control characters: the C0 range, DEL and the C1 range.
pub open spec fn is_control_char(c: char) -> bool {
    (c as u32) <= 0x1f || (0x7f <= (c as u32) && (c as u32) <= 0x9f)
}

/// `n` space characters.
pub open spec fn spaces(n: nat) -> Seq<char> {
    Seq::new(n, |i: int| ' ')
}

/// `line`, extended with spaces to at least `n` characters.
pub open spec fn pad_to(line: Seq<char>, n: nat) -> Seq<char> {
    if line.len() >= n {
        line
    } else {
        line + spaces((n - line.len()) as nat)
    }
}

/// The state of the screen engine: lines, cursor and grid size.
pub struct ScreenModel {
    pub lines: Seq<Seq<char>>,
    pub col: nat,
    pub row: nat,
    pub cols: nat,
    pub rows: nat,
}

impl ScreenModel {
    /// A usable state: a non-empty grid, the cursor row inside the buffer,
    /// and at least one grid's worth of rows.
    pub open spec fn wf(self) -> bool {
        &&& 1 <= self.cols <= MAX_GRID
        &&& 1 <= self.rows <= MAX_GRID
        &&& self.col <= MAX_GRID
        &&& self.row < self.lines.len()
        &&& self.lines.len() >= self.rows
    }

    /// Carriage return: back to column 0.
    pub open spec fn carriage_return(self) -> ScreenModel {
        ScreenModel { col: 0, ..self }
    }

    /// Line feed: down one row, appending an empty row at the end of the
    /// buffer; a buffer grown past three grids is cut back to two by
    /// dropping its oldest rows, and the cursor row follows its content.
    pub open spec fn line_feed(self) -> ScreenModel {
        let row = self.row + 1;
        if row >= self.lines.len() {
            let lines = self.lines.push(Seq::empty());
            if lines.len() > 3 * self.rows {
                let excess = (lines.len() - 2 * self.rows) as nat;
                ScreenModel { lines: lines.skip(excess as int), row: (row - excess) as nat, ..self }
            } else {
                ScreenModel { lines, row, ..self }
            }
        } else {
            ScreenModel { row, ..self }
        }
    }

    /// Where a tab leaves the cursor column.
    pub open spec fn tab_target(self) -> nat {
        if self.col >= self.cols {
            self.col
        } else if self.col + TAB_WIDTH <= self.cols {
            (self.col + TAB_WIDTH) as nat
        } else {
            self.cols
        }
    }

    /// Horizontal tab: advance to the tab target, padding the current line
    /// with spaces up to it; a tab never wraps.
    pub open spec fn tab(self) -> ScreenModel {
        if self.col >= self.cols {
            self
        } else {
            let target = self.tab_target();
            ScreenModel {
                lines: self.lines.update(self.row as int, pad_to(self.lines[self.row as int], target)),
                col: target,
                ..self
            }
        }
    }

    /// Backspace: one column left, stopping at column 0; nothing is erased.
    pub open spec fn backspace(self) -> ScreenModel {
        ScreenModel { col: if self.col > 0 { (self.col - 1) as nat } else { 0 }, ..self }
    }

    /// The current line after a printable character is inserted at the cursor.
    pub open spec fn line_with(self, c: char) -> Seq<char> {
        pad_to(self.lines[self.row as int], self.col).insert(self.col as int, c)
    }

    /// Printable character: inserted at the cursor column (the line padded
    /// with spaces up to it first), then the cursor advances, wrapping to
    /// column 0 of the next row at the grid's width.
    pub open spec fn put(self, c: char) -> ScreenModel {
        let lines = self.lines.update(self.row as int, self.line_with(c));
        if self.col + 1 >= self.cols {
            let row = self.row + 1;
            ScreenModel {
                lines: if row >= lines.len() { lines.push(Seq::empty()) } else { lines },
                col: 0,
                row,
                ..self
            }
        } else {
            ScreenModel { lines, col: self.col + 1, ..self }
        }
    }

    /// One character of output.
    pub open spec fn step(self, c: char) -> ScreenModel {
        if c == '\r' {
            self.carriage_return()
        } else if c == '\n' {
            self.line_feed()
        } else if c == '\t' {
            self.tab()
        } else if c == '\x08' {
            self.backspace()
        } else if is_control_char(c) {
            self
        } else {
            self.put(c)
        }
    }

    /// A run of output characters, in order.
    pub open spec fn feed(self, text: Seq<char>) -> ScreenModel
        decreases text.len(),
    {
        if text.len() == 0 {
            self
        } else {
            self.feed(text.drop_last()).step(text.last())
        }
    }

    /// A grid size change: a non-zero size that differs from the current one
    /// is taken, and the buffer grows to hold at least that many rows.
    pub open spec fn resize(self, cols: nat, rows: nat) -> ScreenModel {
        if (cols != self.cols || rows != self.rows) && cols > 0 && rows > 0 {
            ScreenModel {
                lines: if self.lines.len() < rows {
                    self.lines + Seq::new((rows - self.lines.len()) as nat, |i: int| Seq::<char>::empty())
                } else {
                    self.lines
                },
                cols,
                rows,
                ..self
            }
        } else {
            self
        }
    }
}


/// Relies on `String::push`: the character is appended to the string.
#[verifier::external_body]
fn push_char(s: &mut String, c: char)
    ensures
        final(s)@ == old(s)@.push(c),
{
    s.push(c);
}

/// The characters of `text`, in order.
pub(crate) fn chars_of(text: &str) -> (r: Vec<char>)
    ensures
        r@ == text@,
{
    let mut r: Vec<char> = Vec::new();
    for c in it: text.chars()
        invariant
            it.seq() == text@,
            r@.len() == it.index(),
            r@ == it.seq().take(it.index() as int),
    {
        proof {
            assert(it.seq().take(it.index() + 1) =~= it.seq().take(it.index() as int).push(c));
        }
        r.push(c);
    }
    assert(r@ =~= text@);
    r
}

/// The string holding `chars`.
pub(crate) fn string_of(chars: &Vec<char>) -> (r: String)
    ensures
        r@ == chars@,
{
    let mut r = String::new();
    let mut i: usize = 0;
    while i < chars.len()
        invariant
            i <= chars.len(),
            r@ == chars@.take(i as int),
        decreases chars.len() - i,
    {
        proof {
            assert(chars@.take(i + 1) =~= chars@.take(i as int).push(chars@[i as int]));
        }
        push_char(&mut r, chars[i]);
        i = i + 1;
    }
    proof {
        assert(chars@.take(i as int) =~= chars@);
    }
    r
}

/// A copy of `line` extended with spaces to at least `n` characters.
fn padded(line: &Vec<char>, n: usize) -> (r: Vec<char>)
    ensures
        r@ == pad_to(line@, n as nat),
{
    let mut r: Vec<char> = Vec::new();
    let mut i: usize = 0;
    while i < line.len()
        invariant
            i <= line.len(),
            r@ == line@.take(i as int),
        decreases line.len() - i,
    {
        proof {
            assert(line@.take(i + 1) =~= line@.take(i as int).push(line@[i as int]));
        }
        r.push(line[i]);
        i = i + 1;
    }
    proof {
        assert(line@.take(i as int) =~= line@);
    }
    while r.len() < n
        invariant
            line@.len() <= r@.len(),
            r@.len() <= n || r@.len() == line@.len(),
            r@ == line@ + spaces((r@.len() - line@.len()) as nat),
        decreases n - r.len(),
    {
        proof {
            let k = (r@.len() - line@.len()) as nat;
            assert(spaces(k + 1) =~= spaces(k).push(' '));
            assert(line@ + spaces(k + 1) =~= (line@ + spaces(k)).push(' '));
        }
        r.push(' ');
    }
    proof {
        if line@.len() >= n {
            assert(spaces(0) =~= Seq::<char>::empty());
            assert(line@ + spaces(0) =~= line@);
        }
    }
    r
}

/// A copy of `line` padded with spaces up to `col`, with `c` inserted there.
fn inserted(line: &Vec<char>, col: usize, c: char) -> (r: Vec<char>)
    ensures
        r@ == pad_to(line@, col as nat).insert(col as int, c),
{
    let mut r = padded(line, col);
    r.insert(col, c);
    r
}

/// Whether `c` is a control character.
pub fn is_control(c: char) -> (r: bool)
    ensures
        r == is_control_char(c),
{
    let u = c as u32;
    u <= 0x1f || (0x7f <= u && u <= 0x9f)
}

/// A carriage return followed by a line feed leaves the cursor at column 0
/// of the next row. When the cursor was on the last row, a new empty row is
/// appended for it (and the oldest rows are dropped if that takes the buffer
/// past three grids); otherwise the buffer is unchanged.
pub proof fn lemma_crlf(s: ScreenModel)
    requires
        s.wf(),
    ensures
        ({
            let t = s.feed(seq!['\r', '\n']);
            &&& t.col == 0
            &&& t.wf()
            &&& s.row + 1 < s.lines.len() ==> t.row == s.row + 1 && t.lines == s.lines
            &&& s.row + 1 == s.lines.len() ==> t.lines[t.row as int] == Seq::<char>::empty()
                && t.row == t.lines.len() - 1
            &&& s.row + 1 == s.lines.len() && s.lines.len() + 1 <= 3 * s.rows ==> t.row == s.row
                + 1 && t.lines == s.lines.push(Seq::empty())
        }),
{
    let text = seq!['\r', '\n'];
    assert(text.drop_last() =~= seq!['\r']);
    assert(text.drop_last().drop_last() =~= Seq::<char>::empty());
    let t = s.feed(text);
    assert(s.feed(seq!['\r']) == s.feed(Seq::<char>::empty()).step('\r'));
    assert(t == s.feed(seq!['\r']).step('\n'));
    assert(t == s.carriage_return().line_feed());
    lemma_step_wf(s, '\r');
    lemma_step_wf(s.carriage_return(), '\n');
}

/// A tab with the cursor inside the grid moves it to the tab target (eight
/// columns on, or the grid's width if that comes first). The characters
/// already in the line stay, the columns up to the target that the line did
/// not reach become spaces, and no tab character enters the line.
pub proof fn lemma_tab(s: ScreenModel)
    requires
        s.wf(),
        s.col < s.cols,
    ensures
        ({
            let t = s.step('\t');
            let old_line = s.lines[s.row as int];
            let line = t.lines[t.row as int];
            &&& t.col == if s.col + TAB_WIDTH <= s.cols { s.col + TAB_WIDTH } else { s.cols as int }
            &&& t.row == s.row
            &&& line.len() >= t.col
            &&& line.len() == if old_line.len() >= t.col { old_line.len() } else { t.col }
            &&& forall|i: int| 0 <= i < old_line.len() ==> line[i] == old_line[i]
            &&& forall|i: int| old_line.len() <= i < line.len() ==> line[i] == ' '
            &&& forall|i: int| 0 <= i < s.lines.len() && i != s.row ==> t.lines[i] == s.lines[i]
        }),
{
}

/// Backspace is a pure cursor move: at column 0 nothing changes, elsewhere
/// the column goes down by one; no line is touched.
pub proof fn lemma_backspace(s: ScreenModel)
    requires
        s.wf(),
    ensures
        s.col == 0 ==> s.step('\x08') == s,
        s.col > 0 ==> s.step('\x08') == (ScreenModel { col: (s.col - 1) as nat, ..s }),
{
}

/// A line feed from the last row that takes the buffer past three grids
/// (however far past, as after the grid shrank) cuts it back to exactly two
/// grids by dropping the oldest rows; the cursor
/// row goes down by the number of rows dropped, so it still points at the
/// new empty row, and every kept row is the one it was before.
pub proof fn lemma_trim(s: ScreenModel)
    requires
        s.wf(),
        s.row + 1 == s.lines.len(),
        s.lines.len() + 1 > 3 * s.rows,
    ensures
        ({
            let t = s.step('\n');
            let grown = s.lines.push(Seq::empty());
            let dropped = grown.len() - 2 * s.rows;
            &&& t.lines.len() == 2 * s.rows
            &&& t.row == s.row + 1 - dropped
            &&& t.lines[t.row as int] == grown[s.row + 1int]
            &&& forall|i: int| 0 <= i < t.lines.len() ==> t.lines[i] == grown[i + dropped]
            &&& t.col == s.col
        }),
{
}

/// Chunk boundaries carry no meaning: feeding `a` and then `b` leaves the
/// same state as feeding their concatenation at once.
pub proof fn lemma_feed_concat(s: ScreenModel, a: Seq<char>, b: Seq<char>)
    ensures
        s.feed(a + b) == s.feed(a).feed(b),
    decreases b.len(),
{
    if b.len() == 0 {
        assert(a + b =~= a);
    } else {
        lemma_feed_concat(s, a, b.drop_last());
        assert((a + b).drop_last() =~= a + b.drop_last());
    }
}

/// Each kind of character keeps a state usable.
pub proof fn lemma_step_wf(s: ScreenModel, c: char)
    requires
        s.wf(),
    ensures
        s.step(c).wf(),
{
}

/// A run of printable characters that stays within the grid's width lands
/// in the current line as one block, in the order fed, at the cursor column:
/// the line is padded with spaces up to that column first, and whatever stood
/// from that column on follows the run. When the cursor starts at or past the
/// end of the line, the line becomes the padded line followed by the run.
pub proof fn lemma_printable_run(s: ScreenModel, text: Seq<char>)
    requires
        s.wf(),
        text.len() > 0,
        forall|i: int| 0 <= i < text.len() ==> !is_control_char(#[trigger] text[i]),
        s.col + text.len() < s.cols,
    ensures
        ({
            let p = pad_to(s.lines[s.row as int], s.col);
            s.feed(text) == ScreenModel {
                lines: s.lines.update(s.row as int, p.take(s.col as int) + text + p.skip(s.col as int)),
                col: s.col + text.len(),
                ..s
            }
        }),
        s.col >= s.lines[s.row as int].len() ==> s.feed(text).lines[s.row as int] == pad_to(
            s.lines[s.row as int],
            s.col,
        ) + text,
    decreases text.len(),
{
    let p = pad_to(s.lines[s.row as int], s.col);
    let t = text.drop_last();
    let c = text.last();
    assert(!is_control_char(c));
    if t.len() == 0 {
        assert(s.feed(t) == s);
        assert(p.insert(s.col as int, c) =~= p.take(s.col as int) + text + p.skip(s.col as int));
    } else {
        assert forall|i: int| 0 <= i < t.len() implies !is_control_char(#[trigger] t[i]) by {
            assert(t[i] == text[i]);
        }
        lemma_printable_run(s, t);
        let m = s.feed(t);
        let line = p.take(s.col as int) + t + p.skip(s.col as int);
        assert(m.lines[m.row as int] == line);
        assert(line.len() >= m.col);
        assert(pad_to(line, m.col) == line);
        assert(line.insert(m.col as int, c) =~= p.take(s.col as int) + text + p.skip(s.col as int));
        assert(m.lines.update(m.row as int, line.insert(m.col as int, c)) =~= s.lines.update(
            s.row as int,
            p.take(s.col as int) + text + p.skip(s.col as int),
        ));
    }
    if s.col >= s.lines[s.row as int].len() {
        assert(p.len() == s.col);
        assert(p.skip(s.col as int) =~= Seq::<char>::empty());
        assert(p.take(s.col as int) =~= p);
        assert(p.take(s.col as int) + text + p.skip(s.col as int) =~= p + text);
    }
}

/// The screen engine: display lines, cursor and grid size.
pub struct Screen {
    lines: Vec<Vec<char>>,
    col: usize,
    row: usize,
    cols: u16,
    rows: u16,
}

impl View for Screen {
    type V = ScreenModel;

    closed spec fn view(&self) -> ScreenModel {
        ScreenModel {
            lines: self.lines@.map_values(|l: Vec<char>| l@),
            col: self.col as nat,
            row: self.row as nat,
            cols: self.cols as nat,
            rows: self.rows as nat,
        }
    }
}

impl Screen {
    /// An engine with a grid of `cols` by `rows`, `rows` empty lines and
    /// the cursor at the top left.
    pub fn with_size(cols: u16, rows: u16) -> (r: Screen)
        requires
            cols > 0,
            rows > 0,
        ensures
            r@.wf(),
            r@.lines == Seq::new(rows as nat, |i: int| Seq::<char>::empty()),
            r@.col == 0,
            r@.row == 0,
            r@.cols == cols,
            r@.rows == rows,
    {
        let mut lines: Vec<Vec<char>> = Vec::new();
        let mut i: u16 = 0;
        while i < rows
            invariant
                i <= rows,
                lines@.len() == i,
                forall|j: int| 0 <= j < i ==> lines@[j]@ == Seq::<char>::empty(),
            decreases rows - i,
        {
            lines.push(Vec::new());
            i = i + 1;
        }
        let r = Screen { lines, col: 0, row: 0, cols, rows };
        proof {
            assert(r@.lines =~= Seq::new(rows as nat, |i: int| Seq::<char>::empty()));
        }
        r
    }

    /// An engine with the default grid of 80 by 24.
    pub fn new() -> (r: Screen)
        ensures
            r@.wf(),
            r@.lines == Seq::new(24, |i: int| Seq::<char>::empty()),
            r@.col == 0,
            r@.row == 0,
            r@.cols == 80,
            r@.rows == 24,
    {
        Screen::with_size(80, 24)
    }

    /// The cursor as (column, row).
    pub fn cursor(&self) -> (r: (usize, usize))
        ensures
            r.0 == self@.col,
            r.1 == self@.row,
    {
        (self.col, self.row)
    }

    /// The grid size as (columns, rows).
    pub fn size(&self) -> (r: (u16, u16))
        ensures
            r.0 == self@.cols,
            r.1 == self@.rows,
    {
        (self.cols, self.rows)
    }

    /// Number of lines in the buffer.
    pub fn line_count(&self) -> (r: usize)
        ensures
            r == self@.lines.len(),
    {
        self.lines.len()
    }

    /// Line `i` of the buffer.
    pub fn line(&self, i: usize) -> (r: String)
        requires
            i < self@.lines.len(),
        ensures
            r@ == self@.lines[i as int],
    {
        string_of(&self.lines[i])
    }

    /// Every line of the buffer, in row order.
    pub fn lines(&self) -> (r: Vec<String>)
        ensures
            r@.len() == self@.lines.len(),
            forall|i: int| 0 <= i < r@.len() ==> r@[i]@ == self@.lines[i],
    {
        let mut r: Vec<String> = Vec::new();
        let mut i: usize = 0;
        while i < self.lines.len()
            invariant
                i <= self.lines.len(),
                r@.len() == i,
                forall|j: int| 0 <= j < i ==> r@[j]@ == self@.lines[j],
            decreases self.lines.len() - i,
        {
            r.push(string_of(&self.lines[i]));
            i = i + 1;
        }
        r
    }

    fn carriage_return(&mut self)
        requires
            old(self)@.wf(),
        ensures
            final(self)@ == old(self)@.carriage_return(),
    {
        self.col = 0;
    }

    fn line_feed(&mut self)
        requires
            old(self)@.wf(),
        ensures
            final(self)@ == old(self)@.line_feed(),
    {
        let ghost s = self@;
        let n = self.lines.len();
        assert(self.row < n);
        self.row = self.row + 1;
        if self.row >= self.lines.len() {
            self.lines.push(Vec::new());
            proof {
                assert(self.lines@.map_values(|l: Vec<char>| l@) =~= s.lines.push(Seq::empty()));
            }
            let rows = self.rows as usize;
            if self.lines.len() > 3 * rows {
                let excess = self.lines.len() - 2 * rows;
                let ghost before = self.lines@;
                self.lines = self.lines.split_off(excess);
                self.row = self.row - excess;
                proof {
                    assert(self.lines@.map_values(|l: Vec<char>| l@)
                        =~= before.map_values(|l: Vec<char>| l@).skip(excess as int));
                }
            }
        }
        proof {
            assert(self@ =~= s.line_feed());
        }
    }

    fn tab(&mut self)
        requires
            old(self)@.wf(),
        ensures
            final(self)@ == old(self)@.tab(),
    {
        let ghost s = self@;
        let cols = self.cols as usize;
        if self.col < cols {
            let target = if self.col + TAB_WIDTH <= cols {
                self.col + TAB_WIDTH
            } else {
                cols
            };
            let line = padded(&self.lines[self.row], target);
            self.lines.set(self.row, line);
            self.col = target;
            proof {
                assert(self.lines@.map_values(|l: Vec<char>| l@)
                    =~= s.lines.update(s.row as int, pad_to(s.lines[s.row as int], target as nat)));
            }
        }
    }

    fn backspace(&mut self)
        requires
            old(self)@.wf(),
        ensures
            final(self)@ == old(self)@.backspace(),
    {
        if self.col > 0 {
            self.col = self.col - 1;
        }
    }

    fn put(&mut self, c: char)
        requires
            old(self)@.wf(),
        ensures
            final(self)@ == old(self)@.put(c),
    {
        let ghost s = self@;
        let line = inserted(&self.lines[self.row], self.col, c);
        self.lines.set(self.row, line);
        proof {
            assert(self.lines@.map_values(|l: Vec<char>| l@)
                =~= s.lines.update(s.row as int, s.line_with(c)));
        }
        if self.col + 1 >= self.cols as usize {
            let n = self.lines.len();
            assert(self.row < n);
            self.col = 0;
            self.row = self.row + 1;
            if self.row >= self.lines.len() {
                let ghost before = self.lines@;
                self.lines.push(Vec::new());
                proof {
                    assert(self.lines@.map_values(|l: Vec<char>| l@)
                        =~= before.map_values(|l: Vec<char>| l@).push(Seq::empty()));
                }
            }
        } else {
            self.col = self.col + 1;
        }
    }

    /// Interprets one character of output.
    pub fn step(&mut self, c: char)
        requires
            old(self)@.wf(),
        ensures
            final(self)@ == old(self)@.step(c),
            final(self)@.wf(),
    {
        proof {
            lemma_step_wf(self@, c);
        }
        if c == '\r' {
            self.carriage_return();
        } else if c == '\n' {
            self.line_feed();
        } else if c == '\t' {
            self.tab();
        } else if c == '\x08' {
            self.backspace();
        } else if is_control(c) {
        } else {
            self.put(c);
        }
    }

    /// Interprets a chunk of output text, character by character.
    pub fn feed(&mut self, text: &str)
        requires
            old(self)@.wf(),
        ensures
            final(self)@ == old(self)@.feed(text@),
            final(self)@.wf(),
    {
        let ghost s = self@;
        let chars = chars_of(text);
        let mut i: usize = 0;
        while i < chars.len()
            invariant
                s.wf(),
                chars@ == text@,
                i <= chars.len(),
                self@ == s.feed(chars@.take(i as int)),
                self@.wf(),
            decreases chars.len() - i,
        {
            proof {
                assert(chars@.take(i + 1).drop_last() =~= chars@.take(i as int));
            }
            self.step(chars[i]);
            i = i + 1;
        }
        proof {
            assert(chars@.take(i as int) =~= text@);
        }
    }

    /// Takes a new grid size, as `ScreenModel::resize` describes.
    pub fn resize(&mut self, cols: u16, rows: u16)
        requires
            old(self)@.wf(),
        ensures
            final(self)@ == old(self)@.resize(cols as nat, rows as nat),
            final(self)@.wf(),
    {
        let ghost s = self@;
        if (cols != self.cols || rows != self.rows) && cols > 0 && rows > 0 {
            self.cols = cols;
            self.rows = rows;
            if self.lines.len() < rows as usize {
                while self.lines.len() < rows as usize
                    invariant
                        s.lines.len() <= self.lines@.len() <= rows,
                        self.col == s.col,
                        self.row == s.row,
                        self.cols == cols,
                        self.rows == rows,
                        self.lines@.map_values(|l: Vec<char>| l@) =~= s.lines + Seq::new(
                            (self.lines@.len() - s.lines.len()) as nat,
                            |i: int| Seq::<char>::empty(),
                        ),
                    decreases rows - self.lines.len(),
                {
                    let ghost before = self.lines@;
                    self.lines.push(Vec::new());
                    proof {
                        let k = (before.len() - s.lines.len()) as nat;
                        assert(self.lines@.map_values(|l: Vec<char>| l@)
                            =~= before.map_values(|l: Vec<char>| l@).push(Seq::empty()));
                        assert(Seq::new(k + 1, |i: int| Seq::<char>::empty())
                            =~= Seq::new(k, |i: int| Seq::<char>::empty()).push(Seq::empty()));
                    }
                }
            } else {
                proof {
                    assert(self.lines@.map_values(|l: Vec<char>| l@) =~= s.lines);
                }
            }
            proof {
                assert(self@ =~= s.resize(cols as nat, rows as nat));
            }
        }
    }

    /// The lines a frame shows: the first grid's worth of rows, from the top
    /// of the buffer.
    pub fn visible_lines(&self) -> (r: Vec<String>)
        requires
            self@.wf(),
        ensures
            r@.len() == self@.rows,
            forall|i: int| 0 <= i < r@.len() ==> r@[i]@ == self@.lines[i],
    {
        let mut r: Vec<String> = Vec::new();
        let mut i: usize = 0;
        while i < self.rows as usize
            invariant
                self@.wf(),
                i <= self.rows,
                r@.len() == i,
                forall|j: int| 0 <= j < i ==> r@[j]@ == self@.lines[j],
            decreases self.rows - i,
        {
            r.push(string_of(&self.lines[i]));
            i = i + 1;
        }
        r
    }
}

} // verus!
