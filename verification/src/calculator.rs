//! The accumulator register, its wraparound arithmetic, and the shared,
//! lock-guarded form every connection works against.

use vstd::prelude::*;

use vstd::rwlock::RwLock;
use vstd::rwlock::RwLockPredicate;

use crate::operation::Operation;

verus! {

/// The value of the register after applying one operation, with modulo-256
/// wraparound for addition, subtraction and multiplication, and truncating
/// division (total in spec: division by zero is never produced by the
/// parser, and `Calculator::apply` requires a non-zero divisor).
pub open spec fn spec_apply(acc: u8, op: Operation) -> u8 {
    match op {
        Operation::Add(n) => ((acc + n) % 256) as u8,
        Operation::Sub(n) => ((acc + 256 - n) % 256) as u8,
        Operation::Mul(n) => ((acc * n) % 256) as u8,
        Operation::Div(n) => (acc as int / n as int) as u8,
    }
}

/// A simple calculator holding one 8-bit accumulation.
pub struct Calculator {
    accumulation: u8,
}

impl View for Calculator {
    type V = u8;

    closed spec fn view(&self) -> u8 {
        self.accumulation
    }
}

impl Calculator {
    /// Creates a calculator with the accumulation at 0.
    pub fn new() -> (r: Self)
        ensures
            r@ == 0u8,
    {
        Self { accumulation: 0 }
    }

    /// Returns the current accumulation.
    pub fn accumulation(&self) -> (r: u8)
        ensures
            r == self@,
    {
        self.accumulation
    }

    /// Applies one operation to the accumulation, wrapping on overflow.
    pub fn apply(&mut self, op: Operation)
        requires
            !(op matches Operation::Div(0u8)),
        ensures
            final(self)@ == spec_apply(old(self)@, op),
    {
        match op {
            Operation::Add(operand) => self.accumulation = self.accumulation.wrapping_add(operand),
            Operation::Sub(operand) => self.accumulation = self.accumulation.wrapping_sub(operand),
            Operation::Mul(operand) => self.accumulation = self.accumulation.wrapping_mul(operand),
            Operation::Div(operand) => self.accumulation = self.accumulation / operand,
        }
    }
}

impl Default for Calculator {
    /// The default calculator also starts at 0.
    fn default() -> (r: Self)
        ensures
            r@ == 0u8,
    {
        Self { accumulation: 0 }
    }
}

/// The invariant the shared lock maintains over the register: every
/// calculator value is a consistent state, so the lock admits them all.
pub struct CalculatorInv;

impl RwLockPredicate<Calculator> for CalculatorInv {
    open spec fn inv(self, v: Calculator) -> bool {
        true
    }
}

/// The single process-wide accumulator: one register behind one verified
/// mutual-exclusion lock, shared by every connection.  Acquiring and
/// releasing go through vstd's reader-writer lock, so every access sees a
/// fully applied prior state, and the guarded state can never become
/// unusable.  The value behind the lock cannot be spoken of in contracts
/// (any thread may change it between two calls); what one message does to
/// it is specified exactly at [`Calculator::respond`](crate::handle_client).
pub struct SharedCalculator {
    lock: RwLock<Calculator, CalculatorInv>,
}

impl SharedCalculator {
    /// Creates the shared accumulator with its register at 0.
    pub fn new() -> SharedCalculator {
        SharedCalculator { lock: RwLock::new(Calculator::new(), Ghost(CalculatorInv)) }
    }

    /// Applies one operation to the register under the write lock.
    pub fn apply(&self, op: Operation)
        requires
            !(op matches Operation::Div(0u8)),
    {
        let (mut calc, handle) = self.lock.acquire_write();
        calc.apply(op);
        handle.release_write(calc);
    }

    /// Reads the register under a read lock.
    pub fn read(&self) -> u8 {
        let handle = self.lock.acquire_read();
        let value = handle.borrow().accumulation();
        handle.release_read();
        value
    }
}

} // verus!
