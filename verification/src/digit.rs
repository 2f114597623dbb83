use vstd::prelude::*;

use crate::error::AppError;
use crate::text::{strip, strip_both, CharClass};
use crate::types::TimerMinute;
use vstd::std_specs::convert::{FromSpecImpl, TryFromSpecImpl};

verus! {

/// The rows of the 7x16 glyph of a decimal digit, one byte per row from top
/// to bottom; in each row the bit of value 64 is the leftmost column and
/// the bit of value 1 the rightmost.
pub open spec fn glyph_rows(n: nat) -> Seq<u8> {
    if n == 0 {
        seq![62u8, 127, 99, 99, 99, 99, 99, 99, 99, 99, 99, 99, 99, 99, 127, 62]
    } else if n == 1 {
        seq![0u8, 3, 3, 3, 3, 3, 3, 3, 3, 3, 3, 3, 3, 3, 3, 0]
    } else if n == 2 {
        seq![62u8, 63, 3, 3, 3, 3, 3, 63, 126, 96, 96, 96, 96, 96, 126, 62]
    } else if n == 3 {
        seq![62u8, 63, 3, 3, 3, 3, 3, 63, 63, 3, 3, 3, 3, 3, 63, 62]
    } else if n == 4 {
        seq![0u8, 99, 99, 99, 99, 99, 99, 127, 63, 3, 3, 3, 3, 3, 3, 0]
    } else if n == 5 {
        seq![62u8, 126, 96, 96, 96, 96, 96, 126, 63, 3, 3, 3, 3, 3, 63, 62]
    } else if n == 6 {
        seq![62u8, 126, 96, 96, 96, 96, 96, 126, 127, 99, 99, 99, 99, 99, 127, 62]
    } else if n == 7 {
        seq![62u8, 63, 3, 3, 3, 3, 3, 3, 3, 3, 3, 3, 3, 3, 3, 0]
    } else if n == 8 {
        seq![62u8, 127, 99, 99, 99, 99, 99, 127, 127, 99, 99, 99, 99, 99, 127, 62]
    } else {
        seq![62u8, 127, 99, 99, 99, 99, 99, 127, 63, 3, 3, 3, 3, 3, 63, 62]
    }
}

/// The value of the bit of column `j` (0 is the leftmost) in a glyph row.
pub open spec fn column_weight(j: int) -> nat {
    if j == 0 { 64 }
    else if j == 1 { 32 }
    else if j == 2 { 16 }
    else if j == 3 { 8 }
    else if j == 4 { 4 }
    else if j == 5 { 2 }
    else { 1 }
}

/// Whether the pixel at row `i` and column `j` of the glyph of digit `n` is
/// drawn in the font colour.
pub open spec fn glyph_pixel(n: nat, i: int, j: int) -> bool {
    ((glyph_rows(n)[i] as nat) / column_weight(j)) % 2 == 1
}

/// The lines of a figure text, as `str::lines` gives them for a text whose
/// every carriage return ends a line: split at each line feed, carriage
/// returns left out.
pub open spec fn figure_lines(s: Seq<char>) -> Seq<Seq<char>>
    decreases s.len(),
{
    if s.len() == 0 {
        seq![Seq::<char>::empty()]
    } else {
        let p = figure_lines(s.drop_last());
        let c = s.last();
        if c == '\n' {
            p.push(Seq::<char>::empty())
        } else if c == '\r' {
            p
        } else {
            p.update(p.len() - 1, p.last().push(c))
        }
    }
}

/// Whether a text draws a figure of at most 16 rows of at most 7 pixels:
/// after the surrounding whitespace, only `■` (drawn), `□` (blank), line
/// feeds, and carriage returns just before a line feed.
pub open spec fn is_figure_text(s: Seq<char>) -> bool {
    let t = strip(s, CharClass::Whitespace);
    let ls = figure_lines(t);
    &&& forall|k: int|
        0 <= k < t.len() ==> (#[trigger] t[k] == '■' || t[k] == '□' || t[k] == '\n' || (t[k] == '\r' && k + 1
            < t.len() && t[k + 1] == '\n'))
    &&& ls.len() <= 16
    &&& forall|i: int| 0 <= i < ls.len() ==> (#[trigger] ls[i]).len() <= 7
}

/// Whether pixel `j` of row `i` of a figure text is drawn.
pub open spec fn figure_pixel(s: Seq<char>, i: int, j: int) -> bool {
    let ls = figure_lines(strip(s, CharClass::Whitespace));
    0 <= i < ls.len() && 0 <= j < ls[i].len() && ls[i][j] == '■'
}

/// The lines of a prefix are prefixes of the lines of the whole text.
proof fn lemma_figure_lines_prefix(t: Seq<char>, k: int)
    requires
        0 <= k <= t.len(),
    ensures
        figure_lines(t.take(k)).len() <= figure_lines(t).len(),
        forall|i: int|
            0 <= i < figure_lines(t.take(k)).len() ==> (#[trigger] figure_lines(t.take(k))[i]).len()
                <= figure_lines(t)[i].len() && figure_lines(t.take(k))[i] =~= figure_lines(t)[i].take(
                figure_lines(t.take(k))[i].len() as int,
            ),
    decreases t.len() - k,
{
    if k < t.len() {
        lemma_figure_lines_prefix(t, k + 1);
        assert(t.take(k + 1).drop_last() =~= t.take(k));
        let p = figure_lines(t.take(k));
        let q = figure_lines(t.take(k + 1));
        assert forall|i: int| 0 <= i < p.len() implies (#[trigger] p[i]).len() <= q[i].len() && p[i] =~= q[i].take(
            p[i].len() as int,
        ) by {
            if i == p.len() - 1 && t[k] != '\n' && t[k] != '\r' {
                assert(q[i] == p[i].push(t[k]));
            }
        }
    } else {
        assert(t.take(k) =~= t);
    }
}

/// Draws a figure text: row `i` of the result is line `i` of the text
/// (after the surrounding whitespace), `■` drawn and `□` blank; rows and
/// pixels that the text does not reach stay blank.
pub fn figure_str_to_bitmap(s: &str) -> (r: [[bool; 7]; 16])
    requires
        is_figure_text(s@),
    ensures
        forall|i: int, j: int| 0 <= i < 16 && 0 <= j < 7 ==> r[i][j] == figure_pixel(s@, i, j),
{
    let t = strip_both(s, CharClass::Whitespace);
    let ghost full = figure_lines(t@);
    let n = t.unicode_len();
    let mut bitmap = [[false; 7]; 16];
    let mut row: usize = 0;
    let mut col: usize = 0;
    let mut k: usize = 0;
    assert(t@.take(0) =~= Seq::<char>::empty());
    while k < n
        invariant
            n == t@.len(),
            k <= n,
            t@ == strip(s@, CharClass::Whitespace),
            full == figure_lines(t@),
            is_figure_text(s@),
            row + 1 == figure_lines(t@.take(k as int)).len(),
            col == figure_lines(t@.take(k as int)).last().len(),
            forall|i: int, j: int|
                0 <= i < 16 && 0 <= j < 7 ==> bitmap[i][j] == {
                    let p = figure_lines(t@.take(k as int));
                    0 <= i < p.len() && 0 <= j < p[i].len() && p[i][j] == '■'
                },
        decreases n - k,
    {
        let c = t.get_char(k);
        let ghost p = figure_lines(t@.take(k as int));
        proof {
            assert(t@.take(k + 1).drop_last() =~= t@.take(k as int));
            assert(t@.take(k + 1).last() == c);
            lemma_figure_lines_prefix(t@, k + 1);
            assert(t@[k as int] == c);
        }
        if c == '\n' {
            row = row + 1;
            col = 0;
        } else if c == '\r' {
        } else {
            let ghost q = figure_lines(t@.take(k + 1));
            assert(q[row as int] == p.last().push(c));
            assert(q[row as int].len() <= full[row as int].len());
            if c == '■' {
                bitmap[row][col] = true;
            }
            col = col + 1;
        }
        k = k + 1;
    }
    assert(t@.take(n as int) =~= t@);
    bitmap
}

/// A decimal digit.
#[derive(Clone, Copy, PartialEq, Eq, Structural)]
pub enum Digit {
    Zero,
    One,
    Two,
    Three,
    Four,
    Five,
    Six,
    Seven,
    Eight,
    Nine,
}

impl View for Digit {
    type V = nat;

    open spec fn view(&self) -> nat {
        match self {
            Digit::Zero => 0,
            Digit::One => 1,
            Digit::Two => 2,
            Digit::Three => 3,
            Digit::Four => 4,
            Digit::Five => 5,
            Digit::Six => 6,
            Digit::Seven => 7,
            Digit::Eight => 8,
            Digit::Nine => 9,
        }
    }
}

fn column_weight_of(j: usize) -> (w: u8)
    requires
        j < 7,
    ensures
        w == column_weight(j as int),
{
    if j == 0 { 64 }
    else if j == 1 { 32 }
    else if j == 2 { 16 }
    else if j == 3 { 8 }
    else if j == 4 { 4 }
    else if j == 5 { 2 }
    else { 1 }
}

impl Digit {
    /// The rows of the glyph.
    fn rows(&self) -> (r: [u8; 16])
        ensures
            r@ == glyph_rows(self@),
    {
        let r: [u8; 16] = match self {
            Digit::Zero => [62, 127, 99, 99, 99, 99, 99, 99, 99, 99, 99, 99, 99, 99, 127, 62],
            Digit::One => [0, 3, 3, 3, 3, 3, 3, 3, 3, 3, 3, 3, 3, 3, 3, 0],
            Digit::Two => [62, 63, 3, 3, 3, 3, 3, 63, 126, 96, 96, 96, 96, 96, 126, 62],
            Digit::Three => [62, 63, 3, 3, 3, 3, 3, 63, 63, 3, 3, 3, 3, 3, 63, 62],
            Digit::Four => [0, 99, 99, 99, 99, 99, 99, 127, 63, 3, 3, 3, 3, 3, 3, 0],
            Digit::Five => [62, 126, 96, 96, 96, 96, 96, 126, 63, 3, 3, 3, 3, 3, 63, 62],
            Digit::Six => [62, 126, 96, 96, 96, 96, 96, 126, 127, 99, 99, 99, 99, 99, 127, 62],
            Digit::Seven => [62, 63, 3, 3, 3, 3, 3, 3, 3, 3, 3, 3, 3, 3, 3, 0],
            Digit::Eight => [62, 127, 99, 99, 99, 99, 99, 127, 127, 99, 99, 99, 99, 99, 127, 62],
            Digit::Nine => [62, 127, 99, 99, 99, 99, 99, 127, 63, 3, 3, 3, 3, 3, 63, 62],
        };
        assert(r@ =~= glyph_rows(self@));
        r
    }

    /// The 7x16 glyph of the digit, by rows; `true` is a pixel in the font
    /// colour.
    pub fn bitmap(&self) -> (r: [[bool; 7]; 16])
        ensures
            forall|i: int, j: int| 0 <= i < 16 && 0 <= j < 7 ==> r[i][j] == glyph_pixel(self@, i, j),
    {
        let rows = self.rows();
        let mut out = [[false; 7]; 16];
        for i in 0..16usize
            invariant
                rows@ == glyph_rows(self@),
                forall|a: int, b: int| 0 <= a < i && 0 <= b < 7 ==> out[a][b] == glyph_pixel(self@, a, b),
        {
            let mut row = [false; 7];
            for j in 0..7usize
                invariant
                    i < 16,
                    rows@ == glyph_rows(self@),
                    forall|b: int| 0 <= b < j ==> row[b] == glyph_pixel(self@, i as int, b),
            {
                row[j] = (rows[i] / column_weight_of(j)) % 2 == 1;
            }
            out[i] = row;
        }
        out
    }
}

impl TryFrom<u8> for Digit {
    type Error = AppError;

    fn try_from(value: u8) -> (r: Result<Self, Self::Error>)
        ensures
            value < 10 ==> (r matches Ok(d) && d@ == value),
            value >= 10 ==> (r matches Err(AppError::TypeError(m)) && m@ == "Digit must be single digit."@),
    {
        match value {
            0 => Ok(Digit::Zero),
            1 => Ok(Digit::One),
            2 => Ok(Digit::Two),
            3 => Ok(Digit::Three),
            4 => Ok(Digit::Four),
            5 => Ok(Digit::Five),
            6 => Ok(Digit::Six),
            7 => Ok(Digit::Seven),
            8 => Ok(Digit::Eight),
            9 => Ok(Digit::Nine),
            _ => Err(AppError::TypeError(String::from_str("Digit must be single digit."))),
        }
    }
}

/// A two-digit number as the 16x16 icon that shows it.
pub struct DoubleDigit(Digit, Digit);

impl View for DoubleDigit {
    type V = (nat, nat);

    closed spec fn view(&self) -> (nat, nat) {
        (self.0@, self.1@)
    }
}

/// Whether the pixel at row `i` and column `j` of the icon of the digits
/// `tens` and `ones` is drawn in the font colour: the tens digit fills
/// columns 0 to 6, columns 7 and 8 stay blank, the ones digit fills columns
/// 9 to 15.
pub open spec fn icon_pixel(tens: nat, ones: nat, i: int, j: int) -> bool {
    if j < 7 {
        glyph_pixel(tens, i, j)
    } else if j < 9 {
        false
    } else {
        glyph_pixel(ones, i, j - 9)
    }
}

impl DoubleDigit {
    fn new(tens: Digit, ones: Digit) -> (r: DoubleDigit)
        ensures
            r@ == (tens@, ones@),
    {
        DoubleDigit(tens, ones)
    }

    /// The icon by rows.
    pub fn bitmap(&self) -> (r: [[bool; 16]; 16])
        ensures
            forall|i: int, j: int| 0 <= i < 16 && 0 <= j < 16 ==> r[i][j] == icon_pixel(self@.0, self@.1, i, j),
    {
        let mut out = [[false; 16]; 16];
        let tens_bitmap = self.0.bitmap();
        let ones_bitmap = self.1.bitmap();
        for i in 0..16usize
            invariant
                forall|a: int, b: int| 0 <= a < 16 && 0 <= b < 7 ==> tens_bitmap[a][b] == glyph_pixel(self@.0, a, b),
                forall|a: int, b: int| 0 <= a < 16 && 0 <= b < 7 ==> ones_bitmap[a][b] == glyph_pixel(self@.1, a, b),
                forall|a: int, b: int| 0 <= a < i && 0 <= b < 16 ==> out[a][b] == icon_pixel(self@.0, self@.1, a, b),
        {
            let mut row = [false; 16];
            for j in 0..7usize
                invariant
                    i < 16,
                    forall|a: int, b: int| 0 <= a < 16 && 0 <= b < 7 ==> tens_bitmap[a][b] == glyph_pixel(self@.0, a, b),
                    forall|b: int| 0 <= b < j ==> row[b] == icon_pixel(self@.0, self@.1, i as int, b),
                    forall|b: int| j <= b < 16 ==> row[b] == false,
            {
                row[j] = tens_bitmap[i][j];
            }
            for j in 0..7usize
                invariant
                    i < 16,
                    forall|a: int, b: int| 0 <= a < 16 && 0 <= b < 7 ==> ones_bitmap[a][b] == glyph_pixel(self@.1, a, b),
                    forall|b: int| 0 <= b < 9 ==> row[b] == icon_pixel(self@.0, self@.1, i as int, b),
                    forall|b: int| 9 <= b < 9 + j ==> row[b] == icon_pixel(self@.0, self@.1, i as int, b),
            {
                row[9 + j] = ones_bitmap[i][j];
            }
            out[i] = row;
        }
        out
    }

    /// The icon as one array of 256 pixels, row after row.
    pub fn bitmap_flatten(&self) -> (r: [bool; 256])
        ensures
            forall|i: int, j: int| 0 <= i < 16 && 0 <= j < 16 ==> r[16 * i + j] == icon_pixel(self@.0, self@.1, i, j),
    {
        let mut out = [false; 256];
        let tens_bitmap = self.0.bitmap();
        let ones_bitmap = self.1.bitmap();
        for i in 0..16usize
            invariant
                forall|a: int, b: int| 0 <= a < 16 && 0 <= b < 7 ==> tens_bitmap[a][b] == glyph_pixel(self@.0, a, b),
                forall|a: int, b: int| 0 <= a < 16 && 0 <= b < 7 ==> ones_bitmap[a][b] == glyph_pixel(self@.1, a, b),
                forall|a: int, b: int| 0 <= a < i && 0 <= b < 16 ==> out[16 * a + b] == icon_pixel(self@.0, self@.1, a, b),
                forall|k: int| 16 * i <= k < 256 ==> out[k] == false,
        {
            for j in 0..7usize
                invariant
                    i < 16,
                    forall|a: int, b: int| 0 <= a < 16 && 0 <= b < 7 ==> tens_bitmap[a][b] == glyph_pixel(self@.0, a, b),
                    forall|a: int, b: int| 0 <= a < i && 0 <= b < 16 ==> out[16 * a + b] == icon_pixel(self@.0, self@.1, a, b),
                    forall|b: int| 0 <= b < j ==> out[16 * i + b] == icon_pixel(self@.0, self@.1, i as int, b),
                    forall|k: int| 16 * i + j <= k < 256 ==> out[k] == false,
            {
                out[16 * i + j] = tens_bitmap[i][j];
            }
            for j in 0..7usize
                invariant
                    i < 16,
                    forall|a: int, b: int| 0 <= a < 16 && 0 <= b < 7 ==> ones_bitmap[a][b] == glyph_pixel(self@.1, a, b),
                    forall|a: int, b: int| 0 <= a < i && 0 <= b < 16 ==> out[16 * a + b] == icon_pixel(self@.0, self@.1, a, b),
                    forall|b: int| 0 <= b < 9 + j && (b < 7 || b >= 9) ==> out[16 * i + b] == icon_pixel(self@.0, self@.1, i as int, b),
                    forall|k: int| 16 * i + 9 + j <= k < 256 ==> out[k] == false,
                    forall|k: int| 16 * i + 7 <= k < 16 * i + 9 ==> out[k] == false,
            {
                out[16 * i + 9 + j] = ones_bitmap[i][j];
            }
        }
        out
    }
}

impl From<TimerMinute> for DoubleDigit {
    fn from(value: TimerMinute) -> (r: DoubleDigit)
        ensures
            r@ == ((value@ / 10) as nat, (value@ % 10) as nat),
    {
        let tens = match Digit::try_from(value.tens()) {
            Ok(d) => d,
            Err(_) => Digit::Zero,
        };
        let ones = match Digit::try_from(value.ones()) {
            Ok(d) => d,
            Err(_) => Digit::Zero,
        };
        DoubleDigit::new(tens, ones)
    }
}

/// The two forms of the icon hold the same pixels: the flat form is the rows
/// of the other, one after another.
pub proof fn lemma_flatten_is_rows(tens: nat, ones: nat, rows: [[bool; 16]; 16], flat: [bool; 256])
    requires
        forall|i: int, j: int| 0 <= i < 16 && 0 <= j < 16 ==> rows[i][j] == icon_pixel(tens, ones, i, j),
        forall|i: int, j: int| 0 <= i < 16 && 0 <= j < 16 ==> flat[16 * i + j] == icon_pixel(tens, ones, i, j),
    ensures
        forall|i: int, j: int| 0 <= i < 16 && 0 <= j < 16 ==> flat[16 * i + j] == rows[i][j],
{
    assert forall|i: int, j: int| 0 <= i < 16 && 0 <= j < 16 implies flat[16 * i + j] == rows[i][j] by {
        assert(rows[i][j] == icon_pixel(tens, ones, i, j));
        assert(flat[16 * i + j] == icon_pixel(tens, ones, i, j));
    }
}

impl TryFromSpecImpl<u8> for Digit {
    open spec fn obeys_try_from_spec() -> bool {
        false
    }

    open spec fn try_from_spec(v: u8) -> Result<Self, AppError> {
        arbitrary()
    }
}

impl FromSpecImpl<TimerMinute> for DoubleDigit {
    open spec fn obeys_from_spec() -> bool {
        false
    }

    open spec fn from_spec(v: TimerMinute) -> DoubleDigit {
        arbitrary()
    }
}

} // verus!
