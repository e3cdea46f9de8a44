//! A constraint-building interpreter environment for a MIPS-style circuit.
//!
//! This environment is a user of the folding core, not part of it: running an
//! instruction against it computes no witness value at all.  Every step hands
//! back the symbolic cell it would have written, records the constraint
//! expressions the step must satisfy, and records the lookups the step
//! performs.  The same interpreter interface, bound to a witness-computing
//! environment instead, produces the evaluation tables that the folding
//! scheme commits to.

use vstd::prelude::*;
use crate::expr::CurrOrNext;

verus! {

/// Start of the eight scratch-state words that mirror the preimage key
/// registers.
pub const REGISTER_PREIMAGE_KEY_START: usize = 38;

/// Scratch-state word that mirrors the count of preimage bytes consumed.
pub const REGISTER_PREIMAGE_OFFSET: usize = 46;

/// Scratch-state word holding the hash invocation counter.
pub const MIPS_HASH_COUNTER_OFFSET: usize = 80;

/// Scratch-state word holding how many preimage bytes are left to read.
pub const MIPS_PREIMAGE_LEFT_OFFSET: usize = 81;

/// The factor between two adjacent words of the preimage key.
pub const TWO_TO_32: u64 = 0x1_0000_0000;

/// A column of the MIPS circuit: one scratch-state slot per allocation, plus
/// the instruction counter.
#[derive(Clone, Copy, Debug, PartialEq, Eq, Structural)]
pub enum Column {
    ScratchState(usize),
    InstructionCounter,
}

/// A symbolic constraint expression over MIPS circuit columns.
#[derive(Debug)]
pub enum Expr {
    Cell(Column, CurrOrNext),
    Constant(u64),
    Add(Box<Expr>, Box<Expr>),
    Sub(Box<Expr>, Box<Expr>),
    Mul(Box<Expr>, Box<Expr>),
}

/// Which direction a lookup moves through its table.
#[derive(Clone, Copy, Debug, PartialEq, Eq, Structural)]
pub enum LookupMode {
    Read,
    Write,
}

/// The table a lookup addresses.
#[derive(Clone, Copy, Debug, PartialEq, Eq, Structural)]
pub enum LookupTable {
    MemoryLookup,
    RegisterLookup,
    SyscallLookup,
}

/// One lookup: a direction, a multiplicity, a table, and the looked-up tuple.
#[derive(Debug)]
pub struct Lookup {
    pub mode: LookupMode,
    pub magnitude: Expr,
    pub table_id: LookupTable,
    pub value: Vec<Expr>,
}

impl Lookup {
    /// A single write into a table.
    pub fn write_one(table_id: LookupTable, value: Vec<Expr>) -> (r: Lookup)
        ensures
            r.mode == LookupMode::Write,
            r.magnitude == Expr::Constant(1),
            r.table_id == table_id,
            r.value == value,
    {
        Lookup { mode: LookupMode::Write, magnitude: Expr::Constant(1), table_id, value }
    }

    /// A read from a table, performed only where the guard is one.
    pub fn read_if(if_is_true: Expr, table_id: LookupTable, value: Vec<Expr>) -> (r: Lookup)
        ensures
            r.mode == LookupMode::Read,
            r.magnitude == if_is_true,
            r.table_id == table_id,
            r.value == value,
    {
        Lookup { mode: LookupMode::Read, magnitude: if_is_true, table_id, value }
    }
}

/// The constraint-building environment: how many scratch slots are allocated,
/// the constraints recorded so far, and the lookups recorded so far.
pub struct Env {
    pub scratch_state_idx: usize,
    pub constraints: Vec<Expr>,
    pub lookups: Vec<Lookup>,
}

/// The cell expression at a column, current row.
pub open spec fn cell(col: Column) -> Expr {
    Expr::Cell(col, CurrOrNext::Curr)
}

/// The rolled-up preimage key after folding in the first `i` key words.
pub open spec fn preimage_key_prefix(i: nat) -> Expr
    decreases i,
{
    if i == 0 {
        Expr::Constant(0)
    } else {
        Expr::Add(
            Box::new(Expr::Mul(
                Box::new(preimage_key_prefix((i - 1) as nat)),
                Box::new(Expr::Constant(TWO_TO_32)),
            )),
            Box::new(cell(Column::ScratchState((REGISTER_PREIMAGE_KEY_START + i - 1) as usize))),
        )
    }
}

/// A structural copy of an expression.
fn dup_expr(e: &Expr) -> (r: Expr)
    ensures
        r == *e,
    decreases *e,
{
    match e {
        Expr::Cell(c, ro) => Expr::Cell(*c, *ro),
        Expr::Constant(v) => Expr::Constant(*v),
        Expr::Add(a, b) => Expr::Add(Box::new(dup_expr(a)), Box::new(dup_expr(b))),
        Expr::Sub(a, b) => Expr::Sub(Box::new(dup_expr(a)), Box::new(dup_expr(b))),
        Expr::Mul(a, b) => Expr::Mul(Box::new(dup_expr(a)), Box::new(dup_expr(b))),
    }
}

impl Env {
    /// An environment with nothing allocated and nothing recorded.
    pub fn new() -> (r: Env)
        ensures
            r.scratch_state_idx == 0,
            r.constraints@ == Seq::<Expr>::empty(),
            r.lookups@ == Seq::<Lookup>::empty(),
    {
        Env { scratch_state_idx: 0, constraints: Vec::new(), lookups: Vec::new() }
    }

    /// Allocates the next scratch-state slot.
    pub fn alloc_scratch(&mut self) -> (r: Column)
        requires
            old(self).scratch_state_idx < usize::MAX,
        ensures
            r == Column::ScratchState(old(self).scratch_state_idx),
            final(self).scratch_state_idx == old(self).scratch_state_idx + 1,
            final(self).constraints@ == old(self).constraints@,
            final(self).lookups@ == old(self).lookups@,
    {
        let scratch_idx = self.scratch_state_idx;
        self.scratch_state_idx = self.scratch_state_idx + 1;
        Column::ScratchState(scratch_idx)
    }

    /// Records a constraint that must equal zero on every row.
    pub fn add_constraint(&mut self, assert_equals_zero: Expr)
        ensures
            final(self).constraints@ == old(self).constraints@.push(assert_equals_zero),
            final(self).scratch_state_idx == old(self).scratch_state_idx,
            final(self).lookups@ == old(self).lookups@,
    {
        self.constraints.push(assert_equals_zero)
    }

    /// No-op: checks happen only in the witness-computing environment.
    pub fn check_is_zero(_assert_equals_zero: &Expr) {
    }

    /// No-op: checks happen only in the witness-computing environment.
    pub fn check_equal(_x: &Expr, _y: &Expr) {
    }

    /// No-op: checks happen only in the witness-computing environment.
    pub fn check_boolean(_x: &Expr) {
    }

    /// Records a lookup.
    pub fn add_lookup(&mut self, lookup: Lookup)
        ensures
            final(self).lookups@ == old(self).lookups@.push(lookup),
            final(self).scratch_state_idx == old(self).scratch_state_idx,
            final(self).constraints@ == old(self).constraints@,
    {
        self.lookups.push(lookup);
    }

    /// The instruction counter cell of the current row.
    pub fn instruction_counter(&self) -> (r: Expr)
        ensures
            r == cell(Column::InstructionCounter),
    {
        Expr::Cell(Column::InstructionCounter, CurrOrNext::Curr)
    }

    /// Hands back the cell a register fetch would fill.
    pub fn fetch_register(&mut self, _idx: &Expr, output: Column) -> (r: Expr)
        ensures
            r == cell(output),
            *final(self) == *old(self),
    {
        Expr::Cell(output, CurrOrNext::Curr)
    }

    /// No-op: register writes happen only in the witness-computing environment.
    pub fn push_register_if(&mut self, _idx: &Expr, _value: Expr, _if_is_true: &Expr)
        ensures
            *final(self) == *old(self),
    {
    }

    /// Hands back the cell a register-access fetch would fill.
    pub fn fetch_register_access(&mut self, _idx: &Expr, output: Column) -> (r: Expr)
        ensures
            r == cell(output),
            *final(self) == *old(self),
    {
        Expr::Cell(output, CurrOrNext::Curr)
    }

    /// No-op: access writes happen only in the witness-computing environment.
    pub fn push_register_access_if(&mut self, _idx: &Expr, _value: Expr, _if_is_true: &Expr)
        ensures
            *final(self) == *old(self),
    {
    }

    /// Hands back the cell a memory fetch would fill.
    pub fn fetch_memory(&mut self, _addr: &Expr, output: Column) -> (r: Expr)
        ensures
            r == cell(output),
            *final(self) == *old(self),
    {
        Expr::Cell(output, CurrOrNext::Curr)
    }

    /// No-op: memory writes happen only in the witness-computing environment.
    pub fn push_memory(&mut self, _addr: &Expr, _value: Expr)
        ensures
            *final(self) == *old(self),
    {
    }

    /// Hands back the cell a memory-access fetch would fill.
    pub fn fetch_memory_access(&mut self, _addr: &Expr, output: Column) -> (r: Expr)
        ensures
            r == cell(output),
            *final(self) == *old(self),
    {
        Expr::Cell(output, CurrOrNext::Curr)
    }

    /// No-op: access writes happen only in the witness-computing environment.
    pub fn push_memory_access(&mut self, _addr: &Expr, _value: Expr)
        ensures
            *final(self) == *old(self),
    {
    }

    /// A constant expression.
    pub fn constant(x: u32) -> (r: Expr)
        ensures
            r == Expr::Constant(x as u64),
    {
        Expr::Constant(x as u64)
    }

    /// Hands back the cell a bitmask extraction would fill.
    pub fn bitmask(
        &mut self,
        _x: &Expr,
        _highest_bit: u32,
        _lowest_bit: u32,
        position: Column,
    ) -> (r: Expr)
        ensures
            r == cell(position),
            *final(self) == *old(self),
    {
        Expr::Cell(position, CurrOrNext::Curr)
    }

    /// Hands back the cell a left shift would fill.
    pub fn shift_left(&mut self, _x: &Expr, _by: &Expr, position: Column) -> (r: Expr)
        ensures
            r == cell(position),
            *final(self) == *old(self),
    {
        Expr::Cell(position, CurrOrNext::Curr)
    }

    /// Hands back the cell a logical right shift would fill.
    pub fn shift_right(&mut self, _x: &Expr, _by: &Expr, position: Column) -> (r: Expr)
        ensures
            r == cell(position),
            *final(self) == *old(self),
    {
        Expr::Cell(position, CurrOrNext::Curr)
    }

    /// Hands back the cell an arithmetic right shift would fill.
    pub fn shift_right_arithmetic(&mut self, _x: &Expr, _by: &Expr, position: Column) -> (r: Expr)
        ensures
            r == cell(position),
            *final(self) == *old(self),
    {
        Expr::Cell(position, CurrOrNext::Curr)
    }

    /// Hands back the cell a zero test would fill.
    pub fn test_zero(&mut self, _x: &Expr, position: Column) -> (r: Expr)
        ensures
            r == cell(position),
            *final(self) == *old(self),
    {
        Expr::Cell(position, CurrOrNext::Curr)
    }

    /// Hands back the cell an inverse-or-zero would fill.
    pub fn inverse_or_zero(&mut self, _x: &Expr, position: Column) -> (r: Expr)
        ensures
            r == cell(position),
            *final(self) == *old(self),
    {
        Expr::Cell(position, CurrOrNext::Curr)
    }

    /// Hands back the cell an unsigned comparison would fill.
    pub fn test_less_than(&mut self, _x: &Expr, _y: &Expr, position: Column) -> (r: Expr)
        ensures
            r == cell(position),
            *final(self) == *old(self),
    {
        Expr::Cell(position, CurrOrNext::Curr)
    }

    /// Hands back the cell a signed comparison would fill.
    pub fn test_less_than_signed(&mut self, _x: &Expr, _y: &Expr, position: Column) -> (r: Expr)
        ensures
            r == cell(position),
            *final(self) == *old(self),
    {
        Expr::Cell(position, CurrOrNext::Curr)
    }

    /// Hands back the cell a bitwise and would fill.
    pub fn and_witness(&mut self, _x: &Expr, _y: &Expr, position: Column) -> (r: Expr)
        ensures
            r == cell(position),
            *final(self) == *old(self),
    {
        Expr::Cell(position, CurrOrNext::Curr)
    }

    /// Hands back the cell a bitwise nor would fill.
    pub fn nor_witness(&mut self, _x: &Expr, _y: &Expr, position: Column) -> (r: Expr)
        ensures
            r == cell(position),
            *final(self) == *old(self),
    {
        Expr::Cell(position, CurrOrNext::Curr)
    }

    /// Hands back the cell a bitwise or would fill.
    pub fn or_witness(&mut self, _x: &Expr, _y: &Expr, position: Column) -> (r: Expr)
        ensures
            r == cell(position),
            *final(self) == *old(self),
    {
        Expr::Cell(position, CurrOrNext::Curr)
    }

    /// Hands back the cell a bitwise xor would fill.
    pub fn xor_witness(&mut self, _x: &Expr, _y: &Expr, position: Column) -> (r: Expr)
        ensures
            r == cell(position),
            *final(self) == *old(self),
    {
        Expr::Cell(position, CurrOrNext::Curr)
    }

    /// Hands back the sum cell and the overflow cell of an addition.
    pub fn add_witness(
        &mut self,
        _y: &Expr,
        _x: &Expr,
        out_position: Column,
        overflow_position: Column,
    ) -> (r: (Expr, Expr))
        ensures
            r.0 == cell(out_position),
            r.1 == cell(overflow_position),
            *final(self) == *old(self),
    {
        (
            Expr::Cell(out_position, CurrOrNext::Curr),
            Expr::Cell(overflow_position, CurrOrNext::Curr),
        )
    }

    /// Hands back the difference cell and the underflow cell of a subtraction.
    pub fn sub_witness(
        &mut self,
        _y: &Expr,
        _x: &Expr,
        out_position: Column,
        underflow_position: Column,
    ) -> (r: (Expr, Expr))
        ensures
            r.0 == cell(out_position),
            r.1 == cell(underflow_position),
            *final(self) == *old(self),
    {
        (
            Expr::Cell(out_position, CurrOrNext::Curr),
            Expr::Cell(underflow_position, CurrOrNext::Curr),
        )
    }

    /// Hands back the cell a signed product would fill.
    pub fn mul_signed_witness(&mut self, _x: &Expr, _y: &Expr, position: Column) -> (r: Expr)
        ensures
            r == cell(position),
            *final(self) == *old(self),
    {
        Expr::Cell(position, CurrOrNext::Curr)
    }

    /// Hands back the high and low cells of a signed wide product.
    pub fn mul_hi_lo_signed(
        &mut self,
        _x: &Expr,
        _y: &Expr,
        position_hi: Column,
        position_lo: Column,
    ) -> (r: (Expr, Expr))
        ensures
            r.0 == cell(position_hi),
            r.1 == cell(position_lo),
            *final(self) == *old(self),
    {
        (
            Expr::Cell(position_hi, CurrOrNext::Curr),
            Expr::Cell(position_lo, CurrOrNext::Curr),
        )
    }

    /// Hands back the high and low cells of an unsigned wide product.
    pub fn mul_hi_lo(
        &mut self,
        _x: &Expr,
        _y: &Expr,
        position_hi: Column,
        position_lo: Column,
    ) -> (r: (Expr, Expr))
        ensures
            r.0 == cell(position_hi),
            r.1 == cell(position_lo),
            *final(self) == *old(self),
    {
        (
            Expr::Cell(position_hi, CurrOrNext::Curr),
            Expr::Cell(position_lo, CurrOrNext::Curr),
        )
    }

    /// Hands back the quotient and remainder cells of a signed division.
    pub fn divmod_signed(
        &mut self,
        _x: &Expr,
        _y: &Expr,
        position_quotient: Column,
        position_remainder: Column,
    ) -> (r: (Expr, Expr))
        ensures
            r.0 == cell(position_quotient),
            r.1 == cell(position_remainder),
            *final(self) == *old(self),
    {
        (
            Expr::Cell(position_quotient, CurrOrNext::Curr),
            Expr::Cell(position_remainder, CurrOrNext::Curr),
        )
    }

    /// Hands back the quotient and remainder cells of an unsigned division.
    pub fn divmod(
        &mut self,
        _x: &Expr,
        _y: &Expr,
        position_quotient: Column,
        position_remainder: Column,
    ) -> (r: (Expr, Expr))
        ensures
            r.0 == cell(position_quotient),
            r.1 == cell(position_remainder),
            *final(self) == *old(self),
    {
        (
            Expr::Cell(position_quotient, CurrOrNext::Curr),
            Expr::Cell(position_remainder, CurrOrNext::Curr),
        )
    }

    /// Hands back the cell a leading-zero count would fill.
    pub fn count_leading_zeros(&mut self, _x: &Expr, position: Column) -> (r: Expr)
        ensures
            r == cell(position),
            *final(self) == *old(self),
    {
        Expr::Cell(position, CurrOrNext::Curr)
    }

    /// Copies a value into a cell: hands back the cell and constrains it to
    /// equal the copied expression.
    pub fn copy(&mut self, x: &Expr, position: Column) -> (r: Expr)
        ensures
            r == cell(position),
            final(self).constraints@ == old(self).constraints@.push(
                Expr::Sub(Box::new(*x), Box::new(cell(position))),
            ),
            final(self).scratch_state_idx == old(self).scratch_state_idx,
            final(self).lookups@ == old(self).lookups@,
    {
        let res = Expr::Cell(position, CurrOrNext::Curr);
        let copied = dup_expr(x);
        self.constraints.push(Expr::Sub(Box::new(copied), Box::new(dup_expr(&res))));
        res
    }

    /// No-op here: halting is handled by the witness-computing environment.
    pub fn set_halted(&mut self, _flag: Expr)
        ensures
            *final(self) == *old(self),
    {
    }

    /// No-op here: exit reporting happens outside the constraints.
    pub fn report_exit(&mut self, _exit_code: &Expr)
        ensures
            *final(self) == *old(self),
    {
    }

    /// Records the two syscall-channel lookups of a preimage-chunk read: a
    /// write of the chunk consumed, and — once nothing is left to read — a
    /// read of the rolled-up hash key.  Hands back the chunk cell.
    pub fn request_preimage_write(&mut self, _addr: &Expr, _len: &Expr, pos: Column) -> (r: Expr)
        ensures
            r == cell(pos),
            final(self).lookups@.len() == old(self).lookups@.len() + 2,
            final(self).lookups@.subrange(0, old(self).lookups@.len() as int)
                == old(self).lookups@,
            ({
                let w = final(self).lookups@[old(self).lookups@.len() as int];
                &&& w.mode == LookupMode::Write
                &&& w.magnitude == Expr::Constant(1)
                &&& w.table_id == LookupTable::SyscallLookup
                &&& w.value@ == seq_preimage_write(pos)
            }),
            ({
                let rd = final(self).lookups@[old(self).lookups@.len() as int + 1];
                &&& rd.mode == LookupMode::Read
                &&& rd.magnitude == Expr::Sub(
                    Box::new(Expr::Constant(1)),
                    Box::new(cell(Column::ScratchState(MIPS_PREIMAGE_LEFT_OFFSET))),
                )
                &&& rd.table_id == LookupTable::SyscallLookup
                &&& rd.value@ == seq_preimage_read()
            }),
            final(self).scratch_state_idx == old(self).scratch_state_idx,
            final(self).constraints@ == old(self).constraints@,
    {
        let read_chunk = Expr::Cell(pos, CurrOrNext::Curr);
        let hash_counter = Expr::Cell(
            Column::ScratchState(MIPS_HASH_COUNTER_OFFSET),
            CurrOrNext::Curr,
        );
        let preimage_left = Expr::Cell(
            Column::ScratchState(MIPS_PREIMAGE_LEFT_OFFSET),
            CurrOrNext::Curr,
        );
        let preimage_counter = Expr::Cell(
            Column::ScratchState(REGISTER_PREIMAGE_OFFSET),
            CurrOrNext::Curr,
        );

        // communication channel: write the preimage chunk
        let mut write_value: Vec<Expr> = Vec::new();
        write_value.push(dup_expr(&hash_counter));
        write_value.push(preimage_counter);
        write_value.push(dup_expr(&read_chunk));
        proof {
            assert(write_value@ =~= seq_preimage_write(pos));
        }
        self.add_lookup(Lookup::write_one(LookupTable::SyscallLookup, write_value));

        // communication channel: read the rolled-up hash key
        let mut preimage_key = Expr::Constant(0);
        let mut i: usize = 0;
        while i < 8
            invariant
                0 <= i <= 8,
                preimage_key == preimage_key_prefix(i as nat),
            decreases 8 - i,
        {
            preimage_key = Expr::Add(
                Box::new(Expr::Mul(Box::new(preimage_key), Box::new(Expr::Constant(TWO_TO_32)))),
                Box::new(Expr::Cell(
                    Column::ScratchState(REGISTER_PREIMAGE_KEY_START + i),
                    CurrOrNext::Curr,
                )),
            );
            i = i + 1;
        }
        // if no more bytes are left to be read, the preimage has ended
        let end_of_preimage = Expr::Sub(Box::new(Expr::Constant(1)), Box::new(preimage_left));
        let mut read_value: Vec<Expr> = Vec::new();
        read_value.push(hash_counter);
        read_value.push(preimage_key);
        proof {
            assert(read_value@ =~= seq_preimage_read());
        }
        self.add_lookup(Lookup::read_if(end_of_preimage, LookupTable::SyscallLookup, read_value));

        read_chunk
    }

    /// No-op here: hints leave no trace in the constraints.
    pub fn request_hint_write(&mut self, _addr: &Expr, _len: &Expr)
        ensures
            *final(self) == *old(self),
    {
    }
}

/// The tuple written to the syscall channel for a preimage chunk.
pub open spec fn seq_preimage_write(pos: Column) -> Seq<Expr> {
    seq![
        cell(Column::ScratchState(MIPS_HASH_COUNTER_OFFSET)),
        cell(Column::ScratchState(REGISTER_PREIMAGE_OFFSET)),
        cell(pos),
    ]
}

/// The tuple read from the syscall channel when the preimage ends.
pub open spec fn seq_preimage_read() -> Seq<Expr> {
    seq![cell(Column::ScratchState(MIPS_HASH_COUNTER_OFFSET)), preimage_key_prefix(8)]
}

} // verus!
