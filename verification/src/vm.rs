//! The virtual machine as a host drives it: a processor, and the latch that holds it on
//! a wait-for-key instruction until a key is pressed.

use crate::cpu::{load_rom, Cpu};
use crate::keypad::{all_released, Keystate};
use crate::state::{
    cycle_result, cycle_state, fetchable, initial_state, ticked, with_program, Error, Outcome,
    Quirks, State, PROGRAM_LIMIT, REGISTER_COUNT,
};
use vstd::prelude::*;

verus! {

/// The machine and its latch as a mathematical value.
#[verifier::ext_equal]
pub struct Engine {
    /// The processor's state.
    pub machine: State,
    /// The register that waits for a key, where the machine stands on a wait-for-key
    /// instruction.
    pub waiting: Option<u8>,
}

impl Engine {
    /// What holds of every engine: the machine's own invariant, and a latch that is
    /// only set for a register, on an instruction that was fetched.
    pub open spec fn valid(self) -> bool {
        &&& self.machine.inv()
        &&& self.waiting matches Some(r) ==> r < REGISTER_COUNT && fetchable(self.machine)
    }
}

/// What one cycle of the engine reports. While the latch is set a cycle does nothing
/// and says which register waits.
pub open spec fn engine_result(e: Engine) -> Result<Outcome, Error> {
    if !fetchable(e.machine) {
        Err(Error::MemoryOutOfRange)
    } else {
        match e.waiting {
            Some(r) => Ok(Outcome::AwaitingKey(r)),
            None => cycle_result(e.machine),
        }
    }
}

/// The engine after one cycle, with `random` as the byte that a random-and draws.
/// While the latch is set nothing changes; a wait-for-key sets it.
pub open spec fn engine_cycle(e: Engine, random: u8) -> Engine {
    if !fetchable(e.machine) || e.waiting is Some {
        e
    } else {
        Engine {
            machine: cycle_state(e.machine, random),
            waiting: match cycle_result(e.machine) {
                Ok(Outcome::AwaitingKey(r)) => Some(r),
                _ => None,
            },
        }
    }
}

/// The engine after the key `key` was delivered to a waiting instruction: the key's
/// index stands in the register that waited, the latch is open and the program counter
/// is past the instruction. An engine that does not wait stays as it is.
pub open spec fn resolved(e: Engine, key: int) -> Engine {
    match e.waiting {
        Some(r) => Engine {
            machine: State {
                v: e.machine.v.update(r as int, key as u8),
                pc: (e.machine.pc + 2) as u16,
                ..e.machine
            },
            waiting: None,
        },
        None => e,
    }
}

/// The engine after the host reported that the key `key` went into `state`: the pad
/// records it, and a press resolves a waiting instruction.
pub open spec fn after_key(e: Engine, key: int, state: Keystate) -> Engine {
    let noted = Engine {
        machine: State { keys: e.machine.keys.update(key, state), ..e.machine },
        ..e
    };
    if state == Keystate::Pressed {
        resolved(noted, key)
    } else {
        noted
    }
}

/// The virtual machine.
pub struct Vm {
    cpu: Cpu,
    wait_for_key: Option<u8>,
}

impl View for Vm {
    type V = Engine;

    closed spec fn view(&self) -> Engine {
        Engine { machine: self.cpu@, waiting: self.wait_for_key }
    }
}

impl Vm {
    /// A machine in its initial state, with no key pressed, which shifts register X.
    pub fn new() -> (vm: Vm)
        ensures
            vm@ == (Engine {
                machine: initial_state(all_released(), (Quirks { shift_reads_y: false })),
                waiting: None,
            }),
            vm@.valid(),
    {
        Vm { cpu: Cpu::new(), wait_for_key: None }
    }

    /// A machine in its initial state, with no key pressed and the given choices.
    pub fn with_quirks(quirks: Quirks) -> (vm: Vm)
        ensures
            vm@ == (Engine {
                machine: initial_state(all_released(), quirks),
                waiting: None,
            }),
            vm@.valid(),
    {
        Vm { cpu: Cpu::with_quirks(quirks), wait_for_key: None }
    }

    /// The processor, to read the registers, the memory and the frame from.
    pub fn cpu(&self) -> (cpu: &Cpu)
        ensures
            cpu@ == self@.machine,
    {
        &self.cpu
    }

    /// Whether the machine stands on a wait-for-key instruction.
    pub fn is_waiting_for_key(&self) -> (waiting: bool)
        ensures
            waiting == self@.waiting is Some,
    {
        self.wait_for_key.is_some()
    }

    /// Hands the key `key_index` to the instruction that waits for one: the register
    /// takes the index, the latch opens and the program counter moves past the
    /// instruction. Where no instruction waits, nothing happens.
    pub fn end_wait_for_key(&mut self, key_index: usize)
        requires
            old(self)@.valid(),
            key_index < 16,
        ensures
            final(self)@ == resolved(old(self)@, key_index as int),
            final(self)@.valid(),
    {
        match self.wait_for_key {
            None => {},
            Some(r) => {
                self.cpu.v[r as usize] = key_index as u8;
                self.cpu.pc += 2;
                self.wait_for_key = None;
            },
        }
    }

    /// Reports that the key `index` went into `state`. The pad records it; a press
    /// also ends the wait of a wait-for-key instruction, as
    /// [`Vm::end_wait_for_key`] does.
    pub fn set_key(&mut self, index: usize, state: Keystate)
        requires
            old(self)@.valid(),
            index < 16,
        ensures
            final(self)@ == after_key(old(self)@, index as int, state),
            final(self)@.valid(),
    {
        self.cpu.keypad.set_key_state(index, state);
        match state {
            Keystate::Pressed => self.end_wait_for_key(index),
            Keystate::Released => {},
        }
    }

    /// Copies `rom` into memory from the load address on. A program of more than
    /// [`PROGRAM_LIMIT`] bytes is refused, and the machine stays as it was.
    pub fn load(&mut self, rom: &[u8]) -> (res: Result<(), Error>)
        ensures
            rom@.len() > PROGRAM_LIMIT ==> res == Err::<(), Error>(Error::ProgramTooLarge)
                && final(self)@ == old(self)@,
            rom@.len() <= PROGRAM_LIMIT ==> res is Ok && final(self)@ == (Engine {
                machine: State {
                    memory: with_program(old(self)@.machine.memory, rom@),
                    ..old(self)@.machine
                },
                ..old(self)@
            }),
            old(self)@.valid() ==> final(self)@.valid(),
    {
        load_rom(&mut self.cpu, rom)
    }

    /// Puts the machine back into its initial state and opens the latch. The keys stay
    /// as they are.
    pub fn reset(&mut self)
        ensures
            final(self)@ == (Engine {
                machine: initial_state(old(self)@.machine.keys, old(self)@.machine.quirks),
                waiting: None,
            }),
            final(self)@.valid(),
    {
        self.wait_for_key = None;
        self.cpu.reset();
    }

    /// One cycle with a given random byte. While the machine waits for a key the cycle
    /// does nothing; else it is a cycle of the processor, and a wait-for-key
    /// instruction sets the latch. A cycle that fails leaves the machine as it was.
    pub fn run_with(&mut self, random: u8) -> (res: Result<Outcome, Error>)
        ensures
            final(self)@ == engine_cycle(old(self)@, random),
            res == engine_result(old(self)@),
            old(self)@.valid() ==> final(self)@.valid(),
    {
        if self.cpu.pc as usize >= 4095 {
            return Err(Error::MemoryOutOfRange);
        }
        match self.wait_for_key {
            Some(r) => Ok(Outcome::AwaitingKey(r)),
            None => {
                let res = self.cpu.run_with(random);
                match res {
                    Ok(Outcome::AwaitingKey(r)) => {
                        self.wait_for_key = Some(r);
                    },
                    _ => {},
                }
                res
            },
        }
    }

    /// One cycle, in which a random-and instruction draws its byte from the random
    /// number generator: the state it leaves is that of [`Vm::run_with`] for some
    /// byte.
    pub fn run(&mut self) -> (res: Result<Outcome, Error>)
        ensures
            exists|random: u8| final(self)@ == engine_cycle(old(self)@, random),
            res == engine_result(old(self)@),
            old(self)@.valid() ==> final(self)@.valid(),
    {
        if self.cpu.pc as usize >= 4095 {
            assert(self@ == engine_cycle(old(self)@, 0));
            return Err(Error::MemoryOutOfRange);
        }
        match self.wait_for_key {
            Some(r) => {
                assert(self@ == engine_cycle(old(self)@, 0));
                Ok(Outcome::AwaitingKey(r))
            },
            None => {
                let res = self.cpu.run();
                match res {
                    Ok(Outcome::AwaitingKey(r)) => {
                        self.wait_for_key = Some(r);
                    },
                    _ => {},
                }
                let ghost random = choose|random: u8|
                    self.cpu@ == cycle_state(old(self)@.machine, random);
                assert(self@ == engine_cycle(old(self)@, random));
                res
            },
        }
    }

    /// One cycle, as [`Vm::run`]; returns whether the machine has come to an end, that
    /// is whether the cycle failed.
    pub fn emulate_cycle(&mut self) -> (finished: bool)
        ensures
            exists|random: u8| final(self)@ == engine_cycle(old(self)@, random),
            finished == engine_result(old(self)@) is Err,
            old(self)@.valid() ==> final(self)@.valid(),
    {
        self.run().is_err()
    }

    /// One tick of the timer clock: each timer that is not zero goes down by one.
    pub fn decrement_timers(&mut self)
        ensures
            final(self)@ == (Engine { machine: ticked(old(self)@.machine), ..old(self)@ }),
            old(self)@.valid() ==> final(self)@.valid(),
    {
        self.cpu.decrement_timers();
    }

    /// Tells the machine that the host has presented the frame: clears the flag that
    /// says the display changed.
    pub fn mark_presented(&mut self)
        ensures
            final(self)@ == (Engine {
                machine: State { dirty: false, ..old(self)@.machine },
                ..old(self)@
            }),
            old(self)@.valid() ==> final(self)@.valid(),
    {
        self.cpu.display.dirty = false;
    }
}

} // verus!
