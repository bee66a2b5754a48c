use vstd::prelude::*;

verus! {

/// One 64-bit machine cell. The bit pattern can stand for a two's-complement
/// signed integer or for an IEEE-754 double; no tag is stored, the opcode that
/// consumes the cell decides how the bits are read. Inside this crate the
/// cell is kept as the signed integer view; the float view is a
/// reinterpretation of the same bits that only the host performs.
#[derive(Clone, Copy, Debug, PartialEq, Eq, Structural)]
pub struct Value(pub i64);

impl Value {
    /// Builds a cell from its signed integer view.
    pub fn from_i64(v: i64) -> (r: Value)
        ensures
            r.0 == v,
    {
        Value(v)
    }

    /// Reads the cell as a signed integer.
    pub fn as_i64(&self) -> (r: i64)
        ensures
            r == self.0,
    {
        self.0
    }
}

} // verus!
