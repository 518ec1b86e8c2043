use vstd::prelude::*;

verus! {

/// Number of digits after the point when no other precision is asked for.
pub const PRECISION: usize = 4;

/// Where a printed line stands within the terminal's width.
#[derive(Debug, Clone, Copy, PartialEq, Eq, Structural)]
pub enum Align {
    Left,
    Center,
    Right,
}

impl Default for Align {
    fn default() -> (r: Self)
        ensures
            r == Align::Left,
    {
        Align::Left
    }
}

/// Options of formatting; none yet.
pub struct FormatConfig {}

/// How a matrix is printed: the digits after the point, and the alignment.
#[derive(Debug, Clone, Copy, PartialEq, Eq, Structural)]
pub struct PrintConfig {
    pub precision: usize,
    pub align: Align,
}

impl Default for PrintConfig {
    fn default() -> (r: Self)
        ensures
            r.precision == PRECISION,
            r.align == Align::Left,
    {
        PrintConfig { precision: PRECISION, align: Align::Left }
    }
}

impl PrintConfig {
    /// The default settings: `PRECISION` digits, left aligned.
    pub fn new() -> (r: Self)
        ensures
            r.precision == PRECISION,
            r.align == Align::Left,
    {
        PrintConfig { precision: PRECISION, align: Align::Left }
    }

    /// The same settings with alignment `align`.
    pub fn align(self, align: Align) -> (r: Self)
        ensures
            r.align == align,
            r.precision == self.precision,
    {
        PrintConfig { align, ..self }
    }

    /// The same settings with `precision` digits after the point.
    pub fn precision(self, precision: usize) -> (r: Self)
        ensures
            r.precision == precision,
            r.align == self.align,
    {
        PrintConfig { precision, ..self }
    }

    pub fn get_precision(&self) -> (r: usize)
        ensures
            r == self.precision,
    {
        self.precision
    }

    pub fn get_align(&self) -> (r: Align)
        ensures
            r == self.align,
    {
        self.align
    }
}

} // verus!
