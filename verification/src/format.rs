//! Character cells and formatted text.
//!
//! A `FormattedString` is an ordered sequence of `(character, Format)` pairs:
//! a line (or line fragment) of display text in which every character carries
//! its own display attributes.

use vstd::prelude::*;

verus! {

/// Text style of a character cell.
#[derive(Clone, Copy, PartialEq, Eq, Structural, Debug)]
pub enum Style {
    Normal,
    Standout,
}

/// The eight standard terminal colors plus the terminal's default color.
#[derive(Clone, Copy, PartialEq, Eq, Structural, Debug)]
pub enum Color {
    Default,
    Black,
    Red,
    Green,
    Yellow,
    Blue,
    Magenta,
    Cyan,
    White,
}

/// Display attributes of one character cell.
#[derive(Clone, Copy, PartialEq, Eq, Structural, Debug)]
pub struct Format {
    pub style: Style,
    pub fg_color: Color,
    pub bg_color: Color,
}

impl Format {
    /// The default attributes: normal style, default colors.
    pub open spec fn default_spec() -> Format {
        Format { style: Style::Normal, fg_color: Color::Default, bg_color: Color::Default }
    }
}

impl Default for Format {
    fn default() -> (r: Format)
        ensures
            r == Format::default_spec(),
    {
        Format { style: Style::Normal, fg_color: Color::Default, bg_color: Color::Default }
    }
}

/// A sequence of character cells, each carrying its own display format.
pub struct FormattedString {
    cells: Vec<(char, Format)>,
}

impl View for FormattedString {
    type V = Seq<(char, Format)>;

    closed spec fn view(&self) -> Seq<(char, Format)> {
        self.cells@
    }
}

/// The bare characters of a formatted string, formats stripped.
pub open spec fn text_of(cells: Seq<(char, Format)>) -> Seq<char> {
    cells.map_values(|cf: (char, Format)| cf.0)
}

impl FormattedString {
    /// The empty formatted string.
    pub fn new() -> (r: FormattedString)
        ensures
            r@ == Seq::<(char, Format)>::empty(),
    {
        FormattedString { cells: Vec::new() }
    }

    pub fn len(&self) -> (r: usize)
        ensures
            r == self@.len(),
    {
        self.cells.len()
    }

    /// The cell at position `i`.
    pub fn get(&self, i: usize) -> (r: (char, Format))
        requires
            i < self@.len(),
        ensures
            r == self@[i as int],
    {
        self.cells[i]
    }

    /// Overwrite the cell at position `i`.
    pub fn set(&mut self, i: usize, cell: (char, Format))
        requires
            i < old(self)@.len(),
        ensures
            final(self)@ == old(self)@.update(i as int, cell),
    {
        self.cells[i] = cell;
    }

    /// Append a cell at the end.
    pub fn push(&mut self, cell: (char, Format))
        ensures
            final(self)@ == old(self)@.push(cell),
    {
        self.cells.push(cell);
    }

    /// Remove and return the cell at position `i`, shifting the rest left.
    pub fn remove(&mut self, i: usize) -> (r: (char, Format))
        requires
            i < old(self)@.len(),
        ensures
            r == old(self)@[i as int],
            final(self)@ == old(self)@.remove(i as int),
    {
        self.cells.remove(i)
    }

    /// Insert a cell at position `i`, shifting the rest right.
    pub fn insert(&mut self, i: usize, cell: (char, Format))
        requires
            i <= old(self)@.len(),
        ensures
            final(self)@ == old(self)@.insert(i as int, cell),
    {
        self.cells.insert(i, cell);
    }

    /// Remove every cell.
    pub fn clear(&mut self)
        ensures
            final(self)@ == Seq::<(char, Format)>::empty(),
    {
        self.cells.clear();
    }

    /// Split at `i`: `self` keeps the prefix, the suffix is returned.
    pub fn split_off(&mut self, i: usize) -> (r: FormattedString)
        requires
            i <= old(self)@.len(),
        ensures
            final(self)@ == old(self)@.subrange(0, i as int),
            r@ == old(self)@.subrange(i as int, old(self)@.len() as int),
    {
        let tail = self.cells.split_off(i);
        proof {
            assert(self.cells@ =~= old(self)@.subrange(0, i as int));
            assert(tail@ =~= old(self)@.subrange(i as int, old(self)@.len() as int));
        }
        FormattedString { cells: tail }
    }

    /// Append every cell of `other` at the end.
    pub fn extend(&mut self, other: FormattedString)
        ensures
            final(self)@ == old(self)@ + other@,
    {
        let mut rest = other;
        self.cells.append(&mut rest.cells);
    }

    /// An element-for-element copy.
    pub fn duplicate(&self) -> (r: FormattedString)
        ensures
            r@ == self@,
    {
        let mut cells: Vec<(char, Format)> = Vec::new();
        let n = self.cells.len();
        for i in 0..n
            invariant
                n == self@.len(),
                cells@ == self@.subrange(0, i as int),
        {
            cells.push(self.cells[i]);
            proof {
                assert(cells@ =~= self@.subrange(0, i + 1));
            }
        }
        proof {
            assert(cells@ =~= self@);
        }
        FormattedString { cells }
    }

    /// The bare text, formats stripped.
    pub fn to_string(&self) -> (r: String)
        ensures
            r@ == text_of(self@),
    {
        let mut s = String::new();
        let n = self.cells.len();
        for i in 0..n
            invariant
                n == self@.len(),
                s@ == text_of(self@.subrange(0, i as int)),
        {
            push_char(&mut s, self.cells[i].0);
            proof {
                assert(text_of(self@.subrange(0, i + 1)) =~= text_of(
                    self@.subrange(0, i as int),
                ).push(self@[i as int].0));
            }
        }
        proof {
            assert(self@.subrange(0, self@.len() as int) =~= self@);
        }
        s
    }

    /// Every character of `s`, each under the format `format`.
    pub fn with_format(s: &str, format: Format) -> (r: FormattedString)
        ensures
            r@.len() == s@.len(),
            forall|i: int|
                0 <= i < s@.len() ==> r@[i] == (s@[i], format),
    {
        let mut cells: Vec<(char, Format)> = Vec::new();
        let n = s.unicode_len();
        for i in 0..n
            invariant
                n == s@.len(),
                cells@.len() == i,
                forall|j: int| 0 <= j < i ==> cells@[j] == (s@[j], format),
        {
            cells.push((s.get_char(i), format));
        }
        FormattedString { cells }
    }

    /// Every character of `s`, in the given foreground color over otherwise
    /// default attributes.
    pub fn with_color(s: &str, color: Color) -> (r: FormattedString)
        ensures
            r@.len() == s@.len(),
            forall|i: int|
                0 <= i < s@.len() ==> r@[i] == (
                    s@[i],
                    Format { fg_color: color, ..Format::default_spec() },
                ),
    {
        FormattedString::with_format(
            s,
            Format { style: Style::Normal, fg_color: color, bg_color: Color::Default },
        )
    }
}

/// Relies on `String::push`: appends the given character to the end of the
/// string.
#[verifier::external_body]
fn push_char(s: &mut String, c: char)
    ensures
        final(s)@ == old(s)@.push(c),
{
    s.push(c);
}

} // verus!
