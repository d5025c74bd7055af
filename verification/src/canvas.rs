use vstd::prelude::*;

verus! {

/// A rectangle of pixels, kept row by row from the top.
#[derive(Clone, Debug, PartialEq)]
pub struct Canvas<T> {
    pub width: usize,
    pub height: usize,
    pub pixels: Vec<T>,
}

impl<T: Copy> Canvas<T> {
    /// There is one pixel for every column of every row.
    pub open spec fn well_formed(&self) -> bool {
        self.pixels@.len() == self.width * self.height
    }

    /// The place of the pixel in column `x` of row `y`.
    pub open spec fn place(&self, x: int, y: int) -> int {
        x + y * self.width
    }

    /// A canvas of `width` columns and `height` rows, every pixel being `fill`.
    pub fn new(width: usize, height: usize, fill: T) -> (canvas: Self)
        requires
            width * height <= usize::MAX,
        ensures
            canvas.well_formed(),
            canvas.width == width,
            canvas.height == height,
            forall|i: int| 0 <= i < width * height ==> canvas.pixels@[i] == fill,
    {
        let count = width * height;
        let mut pixels: Vec<T> = Vec::new();
        let mut i: usize = 0;
        while i < count
            invariant
                0 <= i <= count,
                pixels@.len() == i,
                forall|j: int| 0 <= j < i ==> pixels@[j] == fill,
            decreases count - i,
        {
            pixels.push(fill);
            i = i + 1;
        }
        Self { width, height, pixels }
    }

    /// Every column of every row has a place of its own among the pixels.
    pub proof fn lemma_place(&self, x: int, y: int)
        requires
            self.well_formed(),
            0 <= x < self.width,
            0 <= y < self.height,
        ensures
            0 <= self.place(x, y) < self.pixels@.len(),
            0 <= y * self.width <= self.place(x, y),
            self.place(x, y) % (self.width as int) == x,
            self.place(x, y) / (self.width as int) == y,
    {
        let w = self.width as int;
        let h = self.height as int;
        assert(y * w + w <= h * w) by (nonlinear_arith)
            requires
                0 <= y < h,
                0 < w,
        ;
        assert(0 <= y * w) by (nonlinear_arith)
            requires
                0 <= y,
                0 < w,
        ;
        vstd::arithmetic::div_mod::lemma_fundamental_div_mod_converse(x + y * w, w, y, x);
    }

    /// Sets the pixel in column `x` of row `y`; the others stay.
    pub fn write_pixel(&mut self, x: usize, y: usize, color: T)
        requires
            old(self).well_formed(),
            x < old(self).width,
            y < old(self).height,
        ensures
            final(self).well_formed(),
            final(self).width == old(self).width,
            final(self).height == old(self).height,
            final(self).pixels@ == old(self).pixels@.update(old(self).place(x as int, y as int), color),
    {
        let count = self.pixels.len();
        proof {
            self.lemma_place(x as int, y as int);
            assert(self.place(x as int, y as int) < count);
        }
        let index = x + y * self.width;
        self.pixels[index] = color;
    }

    /// The pixel in column `x` of row `y`.
    pub fn pixel_at(&self, x: usize, y: usize) -> (color: T)
        requires
            self.well_formed(),
            x < self.width,
            y < self.height,
        ensures
            color == self.pixels@[self.place(x as int, y as int)],
    {
        let count = self.pixels.len();
        proof {
            self.lemma_place(x as int, y as int);
            assert(self.place(x as int, y as int) < count);
        }
        self.pixels[x + y * self.width]
    }
}

/// The largest value of a colour component in the text form of an image.
pub const MAX_COLOR_VALUE: u8 = 255;

/// The most characters a line of pixel data holds.
pub const MAX_PPM_LINE_LENGTH: usize = 70;

/// The decimal digits of `n` as characters, without leading zeros.
pub open spec fn decimal(n: nat) -> Seq<u8>
    decreases n,
{
    if n < 10 {
        seq![(48 + n) as u8]
    } else {
        decimal(n / 10).push((48 + n % 10) as u8)
    }
}

/// A line of pixel data under construction: the characters on its last line so
/// far, and the whole text so far.
pub struct RowState {
    pub char_count: int,
    pub text: Seq<u8>,
}

/// Appends one component to a row. It starts a new line where the last one
/// would grow beyond the limit, and else follows a blank unless it is the
/// first on its line.
pub open spec fn put(state: RowState, component: Seq<u8>) -> RowState {
    if state.char_count + component.len() + 1 > MAX_PPM_LINE_LENGTH {
        RowState { char_count: component.len() as int, text: state.text.push(10u8) + component }
    } else if state.char_count != 0 {
        RowState {
            char_count: state.char_count + 1 + component.len(),
            text: state.text.push(32u8) + component,
        }
    } else {
        RowState { char_count: component.len() as int, text: state.text + component }
    }
}

/// The row made of the first `n` of `components`.
pub open spec fn row_state(components: Seq<u8>, n: int) -> RowState
    decreases n,
{
    if n <= 0 {
        RowState { char_count: 0, text: Seq::empty() }
    } else {
        put(row_state(components, n - 1), decimal(components[n - 1] as nat))
    }
}

/// The text of one row of pixels, given by their components.
pub open spec fn row_text(components: Seq<u8>) -> Seq<u8> {
    row_state(components, components.len() as int).text
}

/// The text of the first `n` rows, one below the other; `per_row` is the
/// number of components in a row.
pub open spec fn body_text(components: Seq<u8>, per_row: int, n: int) -> Seq<u8>
    decreases n,
{
    if n <= 0 {
        Seq::empty()
    } else if n == 1 {
        row_text(components.subrange(0, per_row))
    } else {
        body_text(components, per_row, n - 1).push(10u8) + row_text(
            components.subrange((n - 1) * per_row, n * per_row),
        )
    }
}

/// The head of the text form: the magic number, the measures and the largest
/// component value.
pub open spec fn header_text(width: nat, height: nat) -> Seq<u8> {
    seq![80u8, 51u8, 10u8] + decimal(width).push(32u8) + decimal(height).push(10u8) + decimal(
        MAX_COLOR_VALUE as nat,
    )
}

/// The text form of an image of `width` columns and `height` rows whose
/// pixels, row by row, have the components `components`.
pub open spec fn ppm_text(width: nat, height: nat, components: Seq<u8>) -> Seq<u8> {
    (header_text(width, height).push(10u8) + body_text(components, (3 * width) as int, height as int)).push(10u8)
}

/// A number has at least one digit, and each is a decimal digit; a number
/// below 1000 has at most three.
pub proof fn lemma_decimal(n: nat)
    ensures
        decimal(n).len() >= 1,
        forall|i: int| 0 <= i < decimal(n).len() ==> 48 <= #[trigger] decimal(n)[i] <= 57,
        n < 1000 ==> decimal(n).len() <= 3,
    decreases n,
{
    if n >= 10 {
        lemma_decimal(n / 10);
        if n < 1000 {
            reveal_with_fuel(decimal, 3);
        }
    }
}

/// Writes `n` in decimal digits.
pub fn format_decimal(n: usize) -> (digits: Vec<u8>)
    ensures
        digits@ == decimal(n as nat),
    decreases n,
{
    if n < 10 {
        let mut digits: Vec<u8> = Vec::new();
        digits.push(48 + n as u8);
        assert(digits@ =~= decimal(n as nat));
        digits
    } else {
        let mut digits = format_decimal(n / 10);
        digits.push(48 + (n % 10) as u8);
        digits
    }
}

fn append(text: &mut Vec<u8>, more: &Vec<u8>)
    ensures
        final(text)@ == old(text)@ + more@,
{
    let mut i: usize = 0;
    while i < more.len()
        invariant
            0 <= i <= more@.len(),
            text@ == old(text)@ + more@.take(i as int),
        decreases more@.len() - i,
    {
        text.push(more[i]);
        assert(more@.take(i + 1) =~= more@.take(i as int).push(more@[i as int]));
        i = i + 1;
    }
    assert(more@.take(more@.len() as int) =~= more@);
}

/// Appends one component to a row of pixel data and says how many characters
/// the last line then holds.
pub fn process_pixel(char_count: usize, text: &mut Vec<u8>, component: u8) -> (count: usize)
    requires
        char_count + 4 <= usize::MAX,
    ensures
        count <= MAX_PPM_LINE_LENGTH,
        (RowState { char_count: count as int, text: final(text)@ }) == put(
            RowState { char_count: char_count as int, text: old(text)@ },
            decimal(component as nat),
        ),
{
    let digits = format_decimal(component as usize);
    proof {
        lemma_decimal(component as nat);
    }
    let mut count = char_count;
    if count + digits.len() + 1 > MAX_PPM_LINE_LENGTH {
        text.push(10);
        count = 0;
    } else if count != 0 {
        text.push(32);
        count = count + 1;
    }
    append(text, &digits);
    count + digits.len()
}

/// Writes one row of pixels, given by their components, as text: lines of no
/// more than `MAX_PPM_LINE_LENGTH` characters, the components on a line
/// parted by blanks.
pub fn process_row(components: &Vec<u8>, from: usize, to: usize, text: &mut Vec<u8>)
    requires
        from <= to <= components@.len(),
    ensures
        final(text)@ == old(text)@ + row_text(components@.subrange(from as int, to as int)),
{
    let ghost row = components@.subrange(from as int, to as int);
    let ghost before = text@;
    let mut count: usize = 0;
    let mut i: usize = from;
    while i < to
        invariant
            from <= i <= to <= components@.len(),
            row == components@.subrange(from as int, to as int),
            count <= MAX_PPM_LINE_LENGTH,
            count == row_state(row, i - from).char_count,
            text@ == before + row_state(row, i - from).text,
        decreases to - i,
    {
        let ghost state = row_state(row, i - from);
        count = process_pixel(count, text, components[i]);
        proof {
            assert(row[i - from] == components@[i as int]);
            let next = put(state, decimal(components@[i as int] as nat));
            assert(text@ =~= before + next.text);
        }
        i = i + 1;
    }
}

/// Writes an image as text: the head, then the rows of pixels from the top,
/// each on lines of its own, and a line end after the last.
///
/// `components` holds, row by row and pixel by pixel, the three components of
/// every pixel, scaled to the range up to `MAX_COLOR_VALUE`.
pub fn to_ppm(width: usize, height: usize, components: &Vec<u8>) -> (text: Vec<u8>)
    requires
        width > 0,
        components@.len() == 3 * width * height,
    ensures
        text@ == ppm_text(width as nat, height as nat, components@),
{
    let mut text: Vec<u8> = Vec::new();
    text.push(80);
    text.push(51);
    text.push(10);
    append(&mut text, &format_decimal(width));
    text.push(32);
    append(&mut text, &format_decimal(height));
    text.push(10);
    append(&mut text, &format_decimal(MAX_COLOR_VALUE as usize));
    assert(text@ =~= header_text(width as nat, height as nat));
    text.push(10);
    let ghost head = text@;
    let total = components.len();
    assert(3 * width * height == (3 * width) * height) by (nonlinear_arith);
    assert(3 * width <= total || height == 0) by (nonlinear_arith)
        requires
            total == (3 * width) * height,
            width > 0,
    ;
    if height == 0 {
        text.push(10);
        return text;
    }
    let per_row = 3 * width;
    let mut row: usize = 0;
    while row < height
        invariant
            0 <= row <= height,
            per_row == 3 * width,
            per_row > 0,
            total == components@.len(),
            total == per_row * height,
            text@ == head + body_text(components@, per_row as int, row as int),
        decreases height - row,
    {
        assert(row * per_row + per_row <= per_row * height) by (nonlinear_arith)
            requires
                0 <= row < height,
                per_row > 0,
        ;
        assert(0 <= row * per_row) by (nonlinear_arith)
            requires
                0 <= row,
                per_row > 0,
        ;
        assert((row + 1) * per_row == row * per_row + per_row) by (nonlinear_arith);
        if row != 0 {
            text.push(10);
        }
        let from = row * per_row;
        process_row(components, from, from + per_row, &mut text);
        proof {
            let next = body_text(components@, per_row as int, row + 1);
            let line = row_text(components@.subrange(from as int, from + per_row));
            if row == 0 {
                assert(next == line);
            } else {
                assert(next == body_text(components@, per_row as int, row as int).push(10u8) + line);
            }
            assert(text@ =~= head + next);
        }
        row = row + 1;
    }
    text.push(10);
    text
}

} // verus!
