// The constraint-building interpreter environment: allocation, constraint
// recording, and the preimage syscall lookups.

use folding::errors::SnarkyCompilationError;
use folding::errors::SnarkyError;
use folding::errors::SnarkyRuntimeError;
use folding::mips::Column;
use folding::mips::Env;
use folding::mips::Expr;
use folding::mips::LookupMode;
use folding::mips::LookupTable;

#[test]
fn alloc_scratch_hands_out_consecutive_slots() {
    let mut env = Env::new();
    assert!(matches!(env.alloc_scratch(), Column::ScratchState(0)));
    assert!(matches!(env.alloc_scratch(), Column::ScratchState(1)));
    assert_eq!(env.scratch_state_idx, 2);
    assert!(env.constraints.is_empty());
}

#[test]
fn add_constraint_records_in_order() {
    let mut env = Env::new();
    env.add_constraint(Expr::Constant(3));
    env.add_constraint(Expr::Constant(5));
    assert_eq!(env.constraints.len(), 2);
    assert!(matches!(env.constraints[0], Expr::Constant(3)));
    assert!(matches!(env.constraints[1], Expr::Constant(5)));
}

#[test]
fn copy_constrains_the_destination_cell() {
    let mut env = Env::new();
    let x = Env::constant(42);
    let pos = env.alloc_scratch();
    let r = env.copy(&x, pos);
    assert!(matches!(r, Expr::Cell(Column::ScratchState(0), _)));
    assert_eq!(env.constraints.len(), 1);
    // the recorded constraint is (copied value) - (destination cell)
    match &env.constraints[0] {
        Expr::Sub(a, b) => {
            assert!(matches!(**a, Expr::Constant(42)));
            assert!(matches!(**b, Expr::Cell(Column::ScratchState(0), _)));
        },
        _ => panic!("expected a subtraction"),
    }
}

#[test]
fn fetches_hand_back_their_position_cell() {
    let mut env = Env::new();
    let idx = Env::constant(1);
    let out = env.alloc_scratch();
    let r = env.fetch_register(&idx, out);
    assert!(matches!(r, Expr::Cell(Column::ScratchState(0), _)));
    let (hi, lo) = env.mul_hi_lo(
        &Env::constant(2),
        &Env::constant(3),
        Column::ScratchState(7),
        Column::ScratchState(8),
    );
    assert!(matches!(hi, Expr::Cell(Column::ScratchState(7), _)));
    assert!(matches!(lo, Expr::Cell(Column::ScratchState(8), _)));
    // none of those record a constraint
    assert!(env.constraints.is_empty());
}

#[test]
fn preimage_write_records_the_two_syscall_lookups() {
    let mut env = Env::new();
    let addr = Env::constant(0);
    let len = Env::constant(4);
    let pos = env.alloc_scratch();
    let chunk = env.request_preimage_write(&addr, &len, pos);
    assert!(matches!(chunk, Expr::Cell(Column::ScratchState(0), _)));
    assert_eq!(env.lookups.len(), 2);
    let w = &env.lookups[0];
    assert_eq!(w.mode, LookupMode::Write);
    assert_eq!(w.table_id, LookupTable::SyscallLookup);
    assert!(matches!(w.magnitude, Expr::Constant(1)));
    assert_eq!(w.value.len(), 3);
    let r = &env.lookups[1];
    assert_eq!(r.mode, LookupMode::Read);
    assert_eq!(r.table_id, LookupTable::SyscallLookup);
    assert!(matches!(r.magnitude, Expr::Sub(_, _)));
    assert_eq!(r.value.len(), 2);
}

#[test]
fn no_op_hooks_leave_the_environment_unchanged() {
    let mut env = Env::new();
    let x = Env::constant(1);
    env.push_memory(&x, Env::constant(2));
    env.push_register_if(&x, Env::constant(2), &Env::constant(1));
    env.set_halted(Env::constant(1));
    env.report_exit(&x);
    env.request_hint_write(&x, &Env::constant(4));
    Env::check_is_zero(&x);
    Env::check_equal(&x, &x);
    Env::check_boolean(&x);
    assert_eq!(env.scratch_state_idx, 0);
    assert!(env.constraints.is_empty());
    assert!(env.lookups.is_empty());
}

#[test]
fn snarky_errors_nest_compilation_and_runtime() {
    let c = SnarkyError::CompilationError(SnarkyCompilationError::ToDelete(String::from("x")));
    assert!(matches!(c, SnarkyError::CompilationError(_)));
    let r = SnarkyError::RuntimeError(SnarkyRuntimeError::UnsatisfiedEqualConstraint(
        String::from("1"),
        String::from("2"),
    ));
    assert!(matches!(r, SnarkyError::RuntimeError(_)));
    let b = SnarkyRuntimeError::UnsatisfiedBooleanConstraint(String::from("3"));
    assert!(matches!(b, SnarkyRuntimeError::UnsatisfiedBooleanConstraint(_)));
}
