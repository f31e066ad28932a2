//! The context shared with wasm instances (registers and storage), and the
//! copies between a wasm instance's memory and its registers.

use vstd::prelude::*;
use crate::register::{
    lemma_copy_from_then_to, lemma_copy_to_then_from, spec_copied_from, spec_copied_to, WasmerReg64,
};
use crate::le_bytes::zeros;

verus! {

/// The number of allocated 64-bit registers for each `SvmCtx`.
pub const REGS_64_COUNT: usize = 8;

/// `SvmCtx` is a container for the data accessible by wasm instances:
/// `REGS_64_COUNT` registers and a mutably borrowed storage.
pub struct SvmCtx<'a, S> {
    pub(crate) regs_64: [WasmerReg64; REGS_64_COUNT],
    pub(crate) storage: &'a mut S,
}

/// `memory` with the `window.len()` bytes starting at `start` replaced by `window`.
pub open spec fn spec_write_window(memory: Seq<u8>, start: int, window: Seq<u8>) -> Seq<u8> {
    memory.subrange(0, start) + window + memory.subrange(start + window.len(), memory.len() as int)
}

/// The memory cells `start, start + 1, .., start + len` (exclusive).
pub open spec fn spec_cells(memory: Seq<u8>, start: int, len: int) -> Seq<u8> {
    memory.subrange(start, start + len)
}

/// The cells `start .. start + len` of a memory, in order: cell `i` of the
/// result is memory cell `start + i`.
pub proof fn lemma_cells(memory: Seq<u8>, start: int, len: int)
    requires
        0 <= start,
        0 <= len,
        start + len <= memory.len(),
    ensures
        spec_cells(memory, start, len).len() == len,
        forall|i: int| 0 <= i < len ==> spec_cells(memory, start, len)[i] == memory[start + i],
{
}

/// Writing `window` at `start` sets memory cell `start + i` to `window[i]`,
/// in order, and leaves every other cell as it was.
pub proof fn lemma_write_window_cells(memory: Seq<u8>, start: int, window: Seq<u8>)
    requires
        0 <= start,
        start + window.len() <= memory.len(),
    ensures
        spec_write_window(memory, start, window).len() == memory.len(),
        forall|i: int|
            0 <= i < window.len() ==> spec_write_window(memory, start, window)[start + i]
                == window[i],
        forall|j: int|
            0 <= j < memory.len() && !(start <= j < start + window.len())
                ==> spec_write_window(memory, start, window)[j] == memory[j],
{
    let m = spec_write_window(memory, start, window);
    assert forall|i: int| 0 <= i < window.len() implies m[start + i] == window[i] by {
        assert(m[start + i] == (memory.subrange(0, start) + window)[start + i]);
    }
    assert forall|j: int| 0 <= j < memory.len() && !(start <= j < start + window.len())
        implies m[j] == memory[j] by {
        if j < start {
            assert(m[j] == (memory.subrange(0, start) + window)[j]);
        }
    }
}

/// Writing a window and reading the same cells back gives the window, and
/// the cells outside the window are unchanged.
pub proof fn lemma_write_window(memory: Seq<u8>, start: int, window: Seq<u8>)
    requires
        0 <= start,
        start + window.len() <= memory.len(),
    ensures
        spec_write_window(memory, start, window).len() == memory.len(),
        spec_cells(spec_write_window(memory, start, window), start, window.len() as int) == window,
        forall|j: int|
            0 <= j < memory.len() && !(start <= j < start + window.len()) ==> #[trigger] spec_write_window(
                memory,
                start,
                window,
            )[j] == memory[j],
{
    let m = spec_write_window(memory, start, window);
    assert(spec_cells(m, start, window.len() as int) =~= window);
}

/// Copying `len <= 8` memory cells into a register and then that register
/// into `len` cells of a memory writes there the cells that were read.
pub proof fn lemma_mem_to_reg_to_mem(
    reg: Seq<u8>,
    src: Seq<u8>,
    src_ptr: int,
    dst: Seq<u8>,
    dst_ptr: int,
    len: int,
)
    requires
        reg.len() == 8,
        0 <= len <= 8,
        0 <= src_ptr,
        src_ptr + len <= src.len(),
        0 <= dst_ptr,
        dst_ptr + len <= dst.len(),
    ensures
        spec_write_window(
            dst,
            dst_ptr,
            spec_copied_to(
                spec_copied_from(reg, spec_cells(src, src_ptr, len)),
                spec_cells(dst, dst_ptr, len),
            ),
        ) == spec_write_window(dst, dst_ptr, spec_cells(src, src_ptr, len)),
{
    lemma_copy_from_then_to(reg, spec_cells(src, src_ptr, len), spec_cells(dst, dst_ptr, len));
}

/// Copying a register into `len >= 8` memory cells and then the same cells
/// into any register gives that register the first register's bytes.
pub proof fn lemma_reg_to_mem_to_reg(reg: Seq<u8>, other: Seq<u8>, memory: Seq<u8>, ptr: int, len: int)
    requires
        reg.len() == 8,
        other.len() == 8,
        8 <= len,
        0 <= ptr,
        ptr + len <= memory.len(),
    ensures
        spec_copied_from(
            other,
            spec_cells(
                spec_write_window(memory, ptr, spec_copied_to(reg, spec_cells(memory, ptr, len))),
                ptr,
                len,
            ),
        ) == reg,
{
    let window = spec_copied_to(reg, spec_cells(memory, ptr, len));
    lemma_write_window(memory, ptr, window);
    lemma_copy_to_then_from(reg, spec_cells(memory, ptr, len), other);
}

impl<'a, S> SvmCtx<'a, S> {
    /// The bytes of each register, in order.
    pub closed spec fn regs(&self) -> Seq<Seq<u8>> {
        self.regs_64@.map_values(|r: WasmerReg64| r@)
    }

    /// The current value of the borrowed storage.
    pub closed spec fn storage(&self) -> S {
        *self.storage
    }

    /// There are `REGS_64_COUNT` registers of 8 bytes each.
    pub proof fn lemma_regs_shape(&self)
        ensures
            self.regs().len() == REGS_64_COUNT,
            forall|i: int| 0 <= i < REGS_64_COUNT ==> (#[trigger] self.regs()[i]).len() == 8,
    {
        assert forall|i: int| 0 <= i < REGS_64_COUNT implies (#[trigger] self.regs()[i]).len()
            == 8 by {
            self.regs_64@[i].lemma_len();
        }
    }

    /// Initializes a context whose registers are all zero, over `storage`.
    pub fn new(storage: &'a mut S) -> (ctx: Self)
        ensures
            ctx.regs() == Seq::new(REGS_64_COUNT as nat, |i: int| zeros(8)),
            ctx.storage() == *old(storage),
    {
        let regs_64 = [WasmerReg64::new(); REGS_64_COUNT];
        let ctx = Self { regs_64, storage };
        assert(ctx.regs() =~= Seq::new(REGS_64_COUNT as nat, |i: int| zeros(8)));
        ctx
    }

    /// Returns a copy of the register indexed `reg_idx`.
    pub fn reg(&self, reg_idx: usize) -> (reg: WasmerReg64)
        requires
            reg_idx < REGS_64_COUNT,
        ensures
            reg@ == self.regs()[reg_idx as int],
    {
        self.regs_64[reg_idx]
    }
}

/// Copies the content of the memory cells under addresses
/// `src_mem_ptr, src_mem_ptr + 1, .. , src_mem_ptr + len` (exclusive)
/// into the register indexed `dst_reg`; the register takes at most its
/// 8 bytes from them.
pub fn mem_to_reg_copy<S>(
    ctx: &mut SvmCtx<S>,
    memory: &[u8],
    src_mem_ptr: i32,
    dst_reg: i32,
    len: i32,
)
    requires
        0 <= dst_reg < REGS_64_COUNT,
        0 <= src_mem_ptr,
        0 <= len,
        src_mem_ptr + len <= memory@.len(),
    ensures
        final(ctx).regs() == old(ctx).regs().update(
            dst_reg as int,
            spec_copied_from(
                old(ctx).regs()[dst_reg as int],
                spec_cells(memory@, src_mem_ptr as int, len as int),
            ),
        ),
        final(ctx).storage() == old(ctx).storage(),
        final(ctx).regs().len() == REGS_64_COUNT,
        final(ctx).regs()[dst_reg as int].len() == 8,
        forall|r: int|
            0 <= r < REGS_64_COUNT && r != dst_reg ==> #[trigger] final(ctx).regs()[r] == old(
                ctx,
            ).regs()[r],
        forall|i: int|
            0 <= i < 8 && i < len ==> final(ctx).regs()[dst_reg as int][i] == memory@[src_mem_ptr
                + i],
        forall|i: int|
            len <= i < 8 ==> final(ctx).regs()[dst_reg as int][i] == old(ctx).regs()[dst_reg as int][i],
{
    let start = src_mem_ptr as usize;
    let end = start + len as usize;
    let cells = &memory[start..end];
    let idx = dst_reg as usize;
    let mut reg = ctx.regs_64[idx];
    proof {
        old(ctx).lemma_regs_shape();
    }
    reg.copy_from_wasmer_mem(cells);
    ctx.regs_64[idx] = reg;
    proof {
        ctx.lemma_regs_shape();
        assert(cells@ =~= memory@.subrange(start as int, end as int));
    }
    assert(ctx.regs() =~= old(ctx).regs().update(
        dst_reg as int,
        spec_copied_from(
            old(ctx).regs()[dst_reg as int],
            spec_cells(memory@, src_mem_ptr as int, len as int),
        ),
    ));
}

/// Copies the content of the register indexed `src_reg` into the memory
/// cells under addresses `dst_mem_ptr, dst_mem_ptr + 1, .. , dst_mem_ptr + len`
/// (exclusive); at most the register's 8 bytes are written.
pub fn reg_to_mem_copy<S>(
    ctx: &SvmCtx<S>,
    memory: &mut [u8],
    src_reg: i32,
    dst_mem_ptr: i32,
    len: i32,
)
    requires
        0 <= src_reg < REGS_64_COUNT,
        0 <= dst_mem_ptr,
        0 <= len,
        dst_mem_ptr + len <= old(memory)@.len(),
    ensures
        final(memory)@ == spec_write_window(
            old(memory)@,
            dst_mem_ptr as int,
            spec_copied_to(
                ctx.regs()[src_reg as int],
                spec_cells(old(memory)@, dst_mem_ptr as int, len as int),
            ),
        ),
        final(memory)@.len() == old(memory)@.len(),
        forall|i: int|
            0 <= i < 8 && i < len ==> final(memory)@[dst_mem_ptr + i] == ctx.regs()[src_reg as int][i],
        forall|j: int|
            0 <= j < old(memory)@.len() && !(dst_mem_ptr <= j < dst_mem_ptr + len && j < dst_mem_ptr
                + 8) ==> final(memory)@[j] == old(memory)@[j],
{
    let start = dst_mem_ptr as usize;
    let n = len as usize;
    let reg = ctx.regs_64[src_reg as usize].bytes();
    let ghost window = spec_copied_to(
        ctx.regs()[src_reg as int],
        spec_cells(old(memory)@, dst_mem_ptr as int, len as int),
    );
    let mut i: usize = 0;
    while i < 8 && i < n
        invariant
            i <= 8,
            i <= n,
            n == len,
            start == dst_mem_ptr,
            start + n <= memory@.len(),
            memory@.len() == old(memory)@.len(),
            reg@ == ctx.regs()[src_reg as int],
            reg@.len() == 8,
            forall|j: int| 0 <= j < memory@.len() && !(start <= j < start + i) ==> memory@[j] == old(memory)@[j],
            forall|j: int| start <= j < start + i ==> memory@[j] == reg@[j - start],
        decreases 8 - i,
    {
        memory[start + i] = reg[i];
        i = i + 1;
    }
    assert(memory@ =~= spec_write_window(old(memory)@, dst_mem_ptr as int, window));
    assert forall|k: int| 0 <= k < 8 && k < len implies memory@[dst_mem_ptr + k]
        == ctx.regs()[src_reg as int][k] by {
        assert(start <= start + k < start + i);
    }
}

} // verus!
