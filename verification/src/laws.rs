//! Laws of the instruction set, proved from the model in [`crate::state`] and
//! [`crate::vm`].

use crate::display::{blank, lemma_drawn_binary};
use crate::instruction::{class_of, n_of, nn_of, nnn_of, x_of, y_of};
use crate::state::{
    bit, cycle_result, cycle_state, fault, fetchable, fetched, known, successor, verdict,
    word_at, Error, Outcome, State, FLAG, STACK_DEPTH,
};
use crate::vm::{engine_cycle, engine_result, resolved, Engine};
use vstd::prelude::*;

verus! {

/// The word of a call to `target`.
pub open spec fn call_to(target: u16) -> u16 {
    (0x2000 + target) as u16
}

/// The state after one call to each of `targets` in turn, each from where the one
/// before it has jumped to.
pub open spec fn called(s: State, targets: Seq<u16>) -> State
    decreases targets.len(),
{
    if targets.len() == 0 {
        s
    } else {
        successor(called(s, targets.drop_last()), call_to(targets.last()), 0)
    }
}

/// Clear-screen turns every cell off and marks the display changed, whatever the
/// display held, and touches nothing else but the program counter.
pub proof fn lemma_clear_screen(s: State, random: u8)
    ensures
        verdict(s, 0x00E0) == Ok::<Outcome, Error>(Outcome::Executed),
        successor(s, 0x00E0, random) == (State { screen: blank(), dirty: true, ..s.moved(2) }),
{
}

/// A word that names no instruction is reported and moves the program counter by two;
/// registers, memory, stack and everything else stay as they were.
pub proof fn lemma_unknown_word(s: State, word: u16, random: u8)
    requires
        !known(word),
    ensures
        verdict(s, word) == Ok::<Outcome, Error>(Outcome::Unknown(word)),
        successor(s, word, random) == s.moved(2),
{
}

/// A call with room on the stack stores the address behind it in the next free slot
/// and nowhere else, and jumps.
pub proof fn lemma_call(s: State, target: u16, random: u8)
    requires
        s.sized(),
        s.sp < STACK_DEPTH,
        target < 4096,
    ensures
        verdict(s, call_to(target)) == Ok::<Outcome, Error>(Outcome::Executed),
        successor(s, call_to(target), random) == (State {
            stack: s.stack.update(s.sp as int, (s.pc + 2) as u16),
            sp: (s.sp + 1) as u8,
            pc: target,
            ..s
        }),
{
    lemma_call_word(target);
}

/// A call with sixteen addresses on the stack reports a stack overflow and leaves the
/// machine, and so every entry of the stack, as it was.
pub proof fn lemma_call_overflow(s: State, target: u16, random: u8)
    requires
        s.sp >= STACK_DEPTH,
        target < 4096,
    ensures
        verdict(s, call_to(target)) == Err::<Outcome, Error>(Error::StackOverflow),
        successor(s, call_to(target), random) == s,
{
    lemma_call_word(target);
}

/// The word of a call decodes to class 2 and its target.
proof fn lemma_call_word(target: u16)
    requires
        target < 4096,
    ensures
        class_of(call_to(target)) == 2,
        nnn_of(call_to(target)) == target,
        call_to(target) != 0x00EE,
{
}

/// Nested calls from an empty stack: each of up to sixteen succeeds and the stack
/// holds as many addresses as there were calls.
pub proof fn lemma_nested_calls(s: State, targets: Seq<u16>)
    requires
        s.sized(),
        s.sp == 0,
        targets.len() <= STACK_DEPTH,
        forall|k: int| 0 <= k < targets.len() ==> targets[k] < 4096,
    ensures
        called(s, targets).sized(),
        called(s, targets).sp == targets.len(),
        forall|k: int|
            0 <= k < targets.len() ==> verdict(
                #[trigger] called(s, targets.take(k)),
                call_to(targets[k]),
            ) == Ok::<Outcome, Error>(Outcome::Executed),
    decreases targets.len(),
{
    if targets.len() > 0 {
        let front = targets.drop_last();
        lemma_nested_calls(s, front);
        lemma_call(called(s, front), targets.last(), 0);
        assert forall|k: int| 0 <= k < targets.len() implies verdict(
            #[trigger] called(s, targets.take(k)),
            call_to(targets[k]),
        ) == Ok::<Outcome, Error>(Outcome::Executed) by {
            if k < targets.len() - 1 {
                assert(targets.take(k) =~= front.take(k));
            } else {
                assert(targets.take(k) =~= front);
            }
        }
    }
}

/// After sixteen nested calls a seventeenth reports a stack overflow and changes
/// nothing.
pub proof fn lemma_seventeenth_call(s: State, targets: Seq<u16>, target: u16, random: u8)
    requires
        s.sized(),
        s.sp == 0,
        targets.len() == STACK_DEPTH,
        forall|k: int| 0 <= k < targets.len() ==> targets[k] < 4096,
        target < 4096,
    ensures
        verdict(called(s, targets), call_to(target)) == Err::<Outcome, Error>(
            Error::StackOverflow,
        ),
        successor(called(s, targets), call_to(target), random) == called(s, targets),
{
    lemma_nested_calls(s, targets);
    lemma_call_overflow(called(s, targets), target, random);
}

/// A call whose target holds a return: after the two cycles the program counter
/// stands behind the call, and the stack pointer is where it was.
pub proof fn lemma_call_then_return(s: State, r1: u8, r2: u8)
    requires
        s.sized(),
        s.sp < STACK_DEPTH,
        fetchable(s),
        class_of(fetched(s)) == 2,
        nnn_of(fetched(s)) < 4095,
        word_at(s.memory, nnn_of(fetched(s))) == 0x00EE,
    ensures
        cycle_result(s) == Ok::<Outcome, Error>(Outcome::Executed),
        cycle_result(cycle_state(s, r1)) == Ok::<Outcome, Error>(Outcome::Executed),
        cycle_state(cycle_state(s, r1), r2).pc == s.pc + 2,
        cycle_state(cycle_state(s, r1), r2).sp == s.sp,
{
    let mid = cycle_state(s, r1);
    assert(mid.pc == nnn_of(fetched(s)));
    assert(fetched(mid) == 0x00EE);
}

/// A return with an empty stack reports a stack underflow and changes nothing.
pub proof fn lemma_return_underflow(s: State, random: u8)
    requires
        s.sp == 0,
    ensures
        verdict(s, 0x00EE) == Err::<Outcome, Error>(Error::StackUnderflow),
        successor(s, 0x00EE, random) == s,
{
}

/// Every instruction keeps the machine's invariant: the stack pointer stays within the
/// stack, the screen stays a grid of zeros and ones, and nothing changes its size.
pub proof fn lemma_invariant_kept(s: State, word: u16, random: u8)
    requires
        s.inv(),
    ensures
        successor(s, word, random).inv(),
{
    let class = class_of(word);
    if class == 0xD && fault(s, word) is None {
        let n = n_of(word);
        lemma_drawn_binary(
            s.screen,
            s.sprite(n),
            n as nat,
            s.v[x_of(word)] as int,
            s.v[y_of(word)] as int,
        );
    }
}

/// No instruction counts a timer down: the delay timer changes only where an
/// instruction sets it, and so does the sound timer.
pub proof fn lemma_timers_kept(s: State, word: u16, random: u8)
    ensures
        !(class_of(word) == 0xF && nn_of(word) == 0x15) ==> successor(s, word, random).delay_timer
            == s.delay_timer,
        !(class_of(word) == 0xF && nn_of(word) == 0x18) ==> successor(s, word, random).sound_timer
            == s.sound_timer,
{
}

/// A failed instruction leaves the machine as it was.
pub proof fn lemma_failure_changes_nothing(s: State, word: u16, random: u8)
    requires
        verdict(s, word) is Err,
    ensures
        successor(s, word, random) == s,
{
}

/// A wait-for-key instruction leaves the machine standing on it and sets the latch for
/// its register.
pub proof fn lemma_wait_sets_latch(e: Engine, random: u8)
    requires
        fetchable(e.machine),
        e.waiting is None,
        class_of(fetched(e.machine)) == 0xF,
        nn_of(fetched(e.machine)) == 0x0A,
    ensures
        engine_cycle(e, random) == (Engine {
            machine: e.machine,
            waiting: Some(x_of(fetched(e.machine)) as u8),
        }),
        engine_result(e) == Ok::<Outcome, Error>(
            Outcome::AwaitingKey(x_of(fetched(e.machine)) as u8),
        ),
{
}

/// While the latch is set, a cycle changes nothing: the latch stays set and the rest of
/// the engine stays as it was.
pub proof fn lemma_waiting_cycle_is_idle(e: Engine, random: u8)
    requires
        e.waiting is Some,
    ensures
        engine_cycle(e, random) == e,
{
}

/// A key that arrives while the latch is set for register `r` is put into that
/// register, opens the latch and moves the program counter past the instruction.
pub proof fn lemma_key_resolves(e: Engine, key: int)
    requires
        e.valid(),
        e.waiting is Some,
        0 <= key < 16,
    ensures
        resolved(e, key).waiting is None,
        resolved(e, key).machine.v[e.waiting->0 as int] == key,
        resolved(e, key).machine.pc == e.machine.pc + 2,
        resolved(e, key).valid(),
{
}

/// Add-immediate: register X takes the sum modulo 256, and no other register, the
/// flag register among them, changes.
pub proof fn lemma_add_immediate(s: State, word: u16, random: u8)
    requires
        s.sized(),
        class_of(word) == 7,
    ensures
        verdict(s, word) == Ok::<Outcome, Error>(Outcome::Executed),
        successor(s, word, random) == (State {
            v: s.v.update(x_of(word), ((s.v[x_of(word)] + nn_of(word)) % 256) as u8),
            ..s.moved(2)
        }),
        x_of(word) != FLAG ==> successor(s, word, random).v[FLAG as int] == s.v[FLAG as int],
{
}

/// Add-with-carry: register X takes the sum modulo 256, and the flag register says
/// whether the sum was above 255. Where X is the flag register itself, it keeps the
/// sum.
pub proof fn lemma_add_with_carry(s: State, word: u16, random: u8)
    requires
        s.sized(),
        class_of(word) == 8,
        n_of(word) == 4,
    ensures
        verdict(s, word) == Ok::<Outcome, Error>(Outcome::Executed),
        successor(s, word, random).v[x_of(word)] == (s.v[x_of(word)] + s.v[y_of(word)]) % 256,
        x_of(word) != FLAG ==> successor(s, word, random).v[FLAG as int] == bit(
            s.v[x_of(word)] + s.v[y_of(word)] > 255,
        ),
        successor(s, word, random).pc == (s.pc + 2) as u16,
{
}

/// Subtract and reverse-subtract: register X takes the difference modulo 256, and the
/// flag register is 1 exactly if nothing was borrowed.
pub proof fn lemma_subtract(s: State, word: u16, random: u8)
    requires
        s.sized(),
        class_of(word) == 8,
        n_of(word) == 5 || n_of(word) == 7,
    ensures
        verdict(s, word) == Ok::<Outcome, Error>(Outcome::Executed),
        ({
            let x = s.v[x_of(word)];
            let y = s.v[y_of(word)];
            let (from, take) = if n_of(word) == 5 {
                (x as int, y as int)
            } else {
                (y as int, x as int)
            };
            &&& successor(s, word, random).v[x_of(word)] == (from - take) % 256
            &&& x_of(word) != FLAG ==> successor(s, word, random).v[FLAG as int] == bit(
                from >= take,
            )
        }),
{
}

/// The shifts: the flag register takes the bit that falls out of the source register,
/// and register X the source shifted by one place.
pub proof fn lemma_shift(s: State, word: u16, random: u8)
    requires
        s.sized(),
        class_of(word) == 8,
        n_of(word) == 6 || n_of(word) == 0xE,
    ensures
        verdict(s, word) == Ok::<Outcome, Error>(Outcome::Executed),
        ({
            let src = s.shift_source(x_of(word), y_of(word));
            let (moved, out) = if n_of(word) == 6 {
                (src as int / 2, src as int % 2)
            } else {
                ((src * 2) % 256, src as int / 128)
            };
            &&& successor(s, word, random).v[x_of(word)] == moved
            &&& x_of(word) != FLAG ==> successor(s, word, random).v[FLAG as int] == out
        }),
{
}

/// Only a random-and looks at the random byte: every other word gives the same state
/// whatever byte is drawn.
pub proof fn lemma_random_byte_unused(s: State, word: u16, r1: u8, r2: u8)
    requires
        class_of(word) != 0xC,
    ensures
        successor(s, word, r1) == successor(s, word, r2),
{
}

/// Random-and: register X takes the random byte under the mask, so no bit outside the
/// mask is set in it.
pub proof fn lemma_random_and(s: State, word: u16, random: u8)
    requires
        s.sized(),
        class_of(word) == 0xC,
    ensures
        verdict(s, word) == Ok::<Outcome, Error>(Outcome::Executed),
        successor(s, word, random) == s.loaded(x_of(word), random & (nn_of(word) as u8)),
        successor(s, word, random).v[x_of(word)] & !(nn_of(word) as u8) == 0,
{
    let mask = nn_of(word) as u8;
    assert((random & mask) & !mask == 0) by (bit_vector);
}

/// The program counter moves by two on every instruction that succeeds and is no
/// jump, call, return, skip or wait.
pub proof fn lemma_counter_moves_by_two(s: State, word: u16, random: u8)
    requires
        verdict(s, word) is Ok,
        ({
            let class = class_of(word);
            ||| class == 0 && word != 0x00EE
            ||| class == 6
            ||| class == 7
            ||| class == 8
            ||| class == 0xA
            ||| class == 0xC
            ||| class == 0xD
            ||| class == 0xF && nn_of(word) != 0x0A
        }),
    ensures
        successor(s, word, random).pc == (s.pc + 2) as u16,
{
}

} // verus!
