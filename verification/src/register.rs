//! A 64-bit register that wasm instances copy memory into and out of.

use vstd::prelude::*;
use crate::le_bytes::zeros;

verus! {

/// The number of bytes of a register.
pub const REG_64_BYTES: usize = 8;

/// The bytes of a register after `cells` are copied into it: the first
/// `min(8, cells.len())` bytes come from `cells`, the rest are kept.
pub open spec fn spec_copied_from(reg: Seq<u8>, cells: Seq<u8>) -> Seq<u8> {
    Seq::new(reg.len(), |i: int| if i < cells.len() { cells[i] } else { reg[i] })
}

/// The cells after a register's bytes are copied into them: the first
/// `min(8, cells.len())` cells take the register's bytes, the rest are kept.
pub open spec fn spec_copied_to(reg: Seq<u8>, cells: Seq<u8>) -> Seq<u8> {
    Seq::new(cells.len(), |i: int| if i < reg.len() { reg[i] } else { cells[i] })
}

/// Copying cells into an 8-byte register sets byte `i` to cell `i` for
/// `i < min(8, cells.len())` and leaves every other byte as it was.
pub proof fn lemma_copied_from_bytes(reg: Seq<u8>, cells: Seq<u8>)
    requires
        reg.len() == 8,
    ensures
        spec_copied_from(reg, cells).len() == 8,
        forall|i: int| 0 <= i < 8 && i < cells.len() ==> spec_copied_from(reg, cells)[i] == cells[i],
        forall|i: int| cells.len() <= i < 8 ==> spec_copied_from(reg, cells)[i] == reg[i],
{
}

/// Copying an 8-byte register into cells sets cell `i` to byte `i` for
/// `i < min(8, cells.len())` and leaves every other cell as it was.
pub proof fn lemma_copied_to_cells(reg: Seq<u8>, cells: Seq<u8>)
    requires
        reg.len() == 8,
    ensures
        spec_copied_to(reg, cells).len() == cells.len(),
        forall|i: int| 0 <= i < 8 && i < cells.len() ==> spec_copied_to(reg, cells)[i] == reg[i],
        forall|i: int| 8 <= i < cells.len() ==> spec_copied_to(reg, cells)[i] == cells[i],
{
}

/// Copying at most eight cells into a register, then the register out to
/// as many cells, gives back the cells that were copied in.
pub proof fn lemma_copy_from_then_to(reg: Seq<u8>, cells: Seq<u8>, dest: Seq<u8>)
    requires
        reg.len() == 8,
        cells.len() <= 8,
        dest.len() == cells.len(),
    ensures
        spec_copied_to(spec_copied_from(reg, cells), dest) == cells,
{
    assert(spec_copied_to(spec_copied_from(reg, cells), dest) =~= cells);
}

/// Copying a register out to at least eight cells, then those cells into any
/// register, gives back the first register.
pub proof fn lemma_copy_to_then_from(reg: Seq<u8>, cells: Seq<u8>, other: Seq<u8>)
    requires
        reg.len() == 8,
        other.len() == 8,
        cells.len() >= 8,
    ensures
        spec_copied_from(other, spec_copied_to(reg, cells)) == reg,
{
    assert(spec_copied_from(other, spec_copied_to(reg, cells)) =~= reg);
}

/// A 64-bit register, held as 8 bytes.
#[derive(Debug, Clone, Copy)]
pub struct WasmerReg64([u8; 8]);

impl View for WasmerReg64 {
    type V = Seq<u8>;

    closed spec fn view(&self) -> Seq<u8> {
        self.0@
    }
}

impl WasmerReg64 {
    /// A register every byte of which is zero.
    pub fn new() -> (reg: WasmerReg64)
        ensures
            reg@ == zeros(8),
    {
        let reg = WasmerReg64([0u8; 8]);
        assert(reg@ =~= zeros(8));
        reg
    }

    /// Every register holds 8 bytes.
    pub proof fn lemma_len(&self)
        ensures
            self@.len() == 8,
    {
    }

    /// Returns a copy of the register's bytes.
    pub fn bytes(&self) -> (b: [u8; 8])
        ensures
            b@ == self@,
    {
        self.0
    }

    /// Copies `cells` into the register, cell `i` into byte `i`, stopping at
    /// whichever of the two ends first.
    pub fn copy_from_wasmer_mem(&mut self, cells: &[u8])
        ensures
            final(self)@ == spec_copied_from(old(self)@, cells@),
            final(self)@.len() == 8,
            forall|i: int| 0 <= i < 8 && i < cells@.len() ==> final(self)@[i] == cells@[i],
            forall|i: int| cells@.len() <= i < 8 ==> final(self)@[i] == old(self)@[i],
    {
        let mut i: usize = 0;
        while i < 8 && i < cells.len()
            invariant
                i <= 8,
                i <= cells@.len(),
                self@.len() == 8,
                forall|j: int| 0 <= j < i ==> self@[j] == cells@[j],
                forall|j: int| i <= j < 8 ==> self@[j] == old(self)@[j],
            decreases 8 - i,
        {
            self.0[i] = cells[i];
            i = i + 1;
        }
        assert(self@ =~= spec_copied_from(old(self)@, cells@));
    }

    /// Copies the register into `cells`, byte `i` into cell `i`, stopping at
    /// whichever of the two ends first.
    pub fn copy_to_wasmer_mem(&self, cells: &mut [u8])
        ensures
            final(cells)@ == spec_copied_to(self@, old(cells)@),
            final(cells)@.len() == old(cells)@.len(),
            forall|i: int| 0 <= i < 8 && i < old(cells)@.len() ==> final(cells)@[i] == self@[i],
            forall|i: int| 8 <= i < old(cells)@.len() ==> final(cells)@[i] == old(cells)@[i],
    {
        let mut i: usize = 0;
        while i < 8 && i < cells.len()
            invariant
                i <= 8,
                i <= cells@.len(),
                self@.len() == 8,
                cells@.len() == old(cells)@.len(),
                forall|j: int| 0 <= j < i ==> cells@[j] == self@[j],
                forall|j: int| i <= j < cells@.len() ==> cells@[j] == old(cells)@[j],
            decreases 8 - i,
        {
            cells[i] = self.0[i];
            i = i + 1;
        }
        assert(cells@ =~= spec_copied_to(self@, old(cells)@));
    }
}

} // verus!
