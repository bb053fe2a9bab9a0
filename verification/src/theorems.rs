//! What holds of the instruction set as a whole, proved from the semantics.

use vstd::prelude::*;
use crate::decode::{decode_spec, nn_of, nnn_of, operation_of, x_of, Instruction, Operation};
use crate::draw::lemma_invert_pixel;
use crate::error::{ErrorKind, Fault};
use crate::font::{glyph_address, FONT};
use crate::machine::{initial_memory, Machine};
use crate::semantics::{
    bcd_stored,
    execute_spec,
    fault_at,
    fetch_spec,
    fields_valid,
    first_pressed,
    pc_plus,
    sprite_covers,
    step_spec,
};

verus! {

/// Every decoded instruction has operand fields in range, so a fetched
/// instruction is never refused for its fields.
pub proof fn lemma_decoded_fields_valid(word: u16)
    ensures
        fields_valid(decode_spec(word)),
        decode_spec(word).word == word,
{
}

/// Executing a successful instruction keeps the invariant of the machine.
pub proof fn lemma_execute_keeps_invariant(m: Machine, instr: Instruction, random: u8)
    requires
        m.wf(),
    ensures
        execute_spec(m, instr, random) matches Ok(next) ==> next.wf(),
{
    if let Ok(next) = execute_spec(m, instr, random) {
        assert forall|r: int, c: int| 0 <= r < 32 && 0 <= c < 64 implies #[trigger] next.display[r][c]
            <= 1 by {
            lemma_invert_pixel(m.display[r][c]);
        }
    }
}

/// The executor never writes the keypad, and it writes a timer only by the
/// two instructions that set one.
pub proof fn lemma_execute_leaves_keypad_and_timers(m: Machine, instr: Instruction, random: u8)
    ensures
        execute_spec(m, instr, random) matches Ok(next) ==> {
            &&& next.keypad == m.keypad
            &&& instr.op != Operation::SetDelay ==> next.delay == m.delay
            &&& instr.op != Operation::SetSound ==> next.sound == m.sound
        },
{
}

/// Memory is written by the two store instructions and by nothing else.
pub proof fn lemma_memory_written_only_by_stores(m: Machine, instr: Instruction, random: u8)
    ensures
        execute_spec(m, instr, random) matches Ok(next) ==> instr.op == Operation::StoreBcd
            || instr.op == Operation::StoreRegs || next.mem == m.mem,
{
}

/// The two instructions that load the address register leave an address
/// within memory in it; only `ADD I, Vx` can take it beyond.
pub proof fn lemma_index_loaded_in_range(m: Machine, instr: Instruction, random: u8)
    ensures
        execute_spec(m, instr, random) matches Ok(next) ==> {
            &&& instr.op == Operation::LoadIndex || instr.op == Operation::Glyph ==> next.i
                <= 0xFFF
            &&& instr.op != Operation::LoadIndex && instr.op != Operation::Glyph && instr.op
                != Operation::AddIndex ==> next.i == m.i
        },
{
}

/// A cycle that fetches `LD Vx, byte` leaves the byte in `V[x]`, whichever
/// register `x` is, and moves the program counter on by exactly 2.
pub proof fn lemma_load_byte(m: Machine, word: u16, random: u8)
    requires
        m.shaped(),
        fetch_spec(m) == Ok::<u16, Fault>(word),
        operation_of(word) == Operation::LoadByte,
    ensures
        step_spec(m, random) matches Ok(next) && next.v[x_of(word)] == nn_of(word) && next.pc
            == m.pc + 2,
{
}

/// A cycle moves the program counter on by 2 or by 4 unless it jumps, calls,
/// returns or waits for a key: after a successful fetch the counter does not
/// wrap.
pub proof fn lemma_program_counter_steps(m: Machine, word: u16, random: u8)
    requires
        m.shaped(),
        fetch_spec(m) == Ok::<u16, Fault>(word),
    ensures
        step_spec(m, random) matches Ok(next) ==> {
            let op = operation_of(word);
            ||| next.pc == m.pc + 2
            ||| next.pc == m.pc + 4 && (op == Operation::SkipEqByte || op == Operation::SkipNeByte
                || op == Operation::SkipEqReg || op == Operation::SkipNeReg || op
                == Operation::SkipKey || op == Operation::SkipNotKey)
            ||| op == Operation::Jump || op == Operation::JumpOffset || op == Operation::Call || op
                == Operation::Ret
            ||| op == Operation::WaitKey && next.pc == m.pc && next.awaiting_key.is_some()
        },
{
}

/// CALL followed at once by RET: the program counter is at the instruction
/// after the CALL, the stack pointer is what it was, and of the rest only the
/// stack slot that held the return address can differ.
pub proof fn lemma_call_then_return(m: Machine, call: Instruction, ret: Instruction, random: u8)
    requires
        m.wf(),
        m.sp < 16,
        fields_valid(call),
        fields_valid(ret),
        call.op == Operation::Call,
        ret.op == Operation::Ret,
    ensures
        execute_spec(m, call, random) matches Ok(called) && called.pc == call.nnn && called.sp
            == m.sp + 1 && (execute_spec(called, ret, random) matches Ok(back) && back == (Machine {
            pc: pc_plus(m.pc, 2),
            stack: m.stack.update(m.sp as int, pc_plus(m.pc, 2)),
            awaiting_key: None,
            ..m
        })),
{
}

/// The word of a CALL to `target`.
pub open spec fn call_word(target: u16) -> u16 {
    (0x2000 + target) as u16
}

/// The word of RET.
pub open spec fn ret_word() -> u16 {
    0x00EE
}

/// The machine after a CALL to each of `targets` in turn, each executed
/// where the one before has jumped to.
pub open spec fn after_calls(m: Machine, targets: Seq<u16>) -> Result<Machine, Fault>
    decreases targets.len(),
{
    if targets.len() == 0 {
        Ok(m)
    } else {
        match after_calls(m, targets.drop_last()) {
            Ok(inner) => execute_spec(inner, decode_spec(call_word(targets.last())), 0),
            Err(fault) => Err(fault),
        }
    }
}

/// The machine after `count` RETs in a row.
pub open spec fn after_returns(m: Machine, count: nat) -> Result<Machine, Fault>
    decreases count,
{
    if count == 0 {
        Ok(m)
    } else {
        match after_returns(m, (count - 1) as nat) {
            Ok(inner) => execute_spec(inner, decode_spec(ret_word()), 0),
            Err(fault) => Err(fault),
        }
    }
}

/// Nested CALLs that fit on the stack all succeed: the stack pointer rises by
/// their number, the slots below the old stack pointer stay, the slot at it
/// holds the address after the first CALL, nothing but program counter, stack
/// and key wait changes.
proof fn lemma_after_calls(m: Machine, targets: Seq<u16>)
    requires
        m.wf(),
        m.sp + targets.len() <= 16,
        forall|k: int| 0 <= k < targets.len() ==> #[trigger] targets[k] < 0x1000,
    ensures
        after_calls(m, targets) matches Ok(deep) && {
            &&& deep.wf()
            &&& deep.sp == m.sp + targets.len()
            &&& forall|j: int| 0 <= j < m.sp ==> #[trigger] deep.stack[j] == m.stack[j]
            &&& targets.len() > 0 ==> deep.stack[m.sp as int] == pc_plus(m.pc, 2)
            &&& deep == (Machine {
                pc: deep.pc,
                sp: deep.sp,
                stack: deep.stack,
                awaiting_key: deep.awaiting_key,
                ..m
            })
        },
    decreases targets.len(),
{
    if targets.len() > 0 {
        lemma_after_calls(m, targets.drop_last());
        let inner = after_calls(m, targets.drop_last()).unwrap();
        let target = targets.last();
        let word = call_word(target);
        assert(operation_of(word) == Operation::Call);
        assert(nnn_of(word) == target);
        lemma_decoded_fields_valid(word);
    }
}

/// RETs that the stack has addresses for all succeed: the stack pointer
/// falls by their number, the program counter is the address in the slot
/// that it has reached, nothing but program counter, stack pointer and key
/// wait changes.
proof fn lemma_after_returns(m: Machine, count: nat)
    requires
        m.wf(),
        count <= m.sp,
    ensures
        after_returns(m, count) matches Ok(back) && {
            &&& back.sp == m.sp - count
            &&& count > 0 ==> back.pc == m.stack[m.sp - count]
            &&& back == (Machine { pc: back.pc, sp: back.sp, awaiting_key: back.awaiting_key, ..m })
        },
    decreases count,
{
    if count > 0 {
        lemma_after_returns(m, (count - 1) as nat);
        assert(operation_of(ret_word()) == Operation::Ret);
        lemma_decoded_fields_valid(ret_word());
    }
}

/// CALLs nested to any depth that the stack allows, followed by as many
/// RETs: the program counter is at the instruction after the first CALL and
/// the stack pointer is what it was. Registers, memory, timers, display and
/// keypad are untouched, and so are the stack slots that were in use.
pub proof fn lemma_nested_calls_return(m: Machine, targets: Seq<u16>)
    requires
        m.wf(),
        0 < targets.len(),
        m.sp + targets.len() <= 16,
        forall|k: int| 0 <= k < targets.len() ==> #[trigger] targets[k] < 0x1000,
    ensures
        after_calls(m, targets) matches Ok(deep) && deep.sp == m.sp + targets.len() && (
        after_returns(deep, targets.len()) matches Ok(back) && {
            &&& back.pc == pc_plus(m.pc, 2)
            &&& back.sp == m.sp
            &&& forall|j: int| 0 <= j < m.sp ==> #[trigger] back.stack[j] == m.stack[j]
            &&& back == (Machine {
                pc: back.pc,
                stack: back.stack,
                awaiting_key: None,
                ..m
            })
        }),
{
    lemma_after_calls(m, targets);
    let deep = after_calls(m, targets).unwrap();
    lemma_after_returns(deep, targets.len());
}

/// CALL on a full stack fails with `StackOverflow`, carrying the word and the
/// program counter.
pub proof fn lemma_call_on_full_stack(m: Machine, call: Instruction, random: u8)
    requires
        m.sp >= 16,
        fields_valid(call),
        call.op == Operation::Call,
    ensures
        execute_spec(m, call, random) == Err::<Machine, Fault>(
            fault_at(m, call, ErrorKind::StackOverflow),
        ),
{
}

/// RET on an empty stack fails with `StackUnderflow`.
pub proof fn lemma_return_on_empty_stack(m: Machine, ret: Instruction, random: u8)
    requires
        m.sp == 0,
        fields_valid(ret),
        ret.op == Operation::Ret,
    ensures
        execute_spec(m, ret, random) == Err::<Machine, Fault>(
            fault_at(m, ret, ErrorKind::StackUnderflow),
        ),
{
}

/// After CLS every one of the 2048 pixels is 0.
pub proof fn lemma_clear_screen(m: Machine, cls: Instruction, random: u8)
    requires
        fields_valid(cls),
        cls.op == Operation::Cls,
    ensures
        execute_spec(m, cls, random) matches Ok(next) && (forall|r: int, c: int|
            0 <= r < 32 && 0 <= c < 64 ==> #[trigger] next.display[r][c] == 0),
{
}

/// Drawing is its own inverse. Two draws of the same sprite at the same place
/// leave the display as it was, and the second reports a collision exactly
/// when the sprite has a set bit over a pixel of the display that was off
/// before the first. The registers that give the place must not be the flag
/// register, which the first draw overwrites.
pub proof fn lemma_draw_twice(m: Machine, draw: Instruction, first: u8, second: u8)
    requires
        m.wf(),
        fields_valid(draw),
        draw.op == Operation::Draw,
        draw.x != 0xF,
        draw.y != 0xF,
        draw.n == 0 || m.i + draw.n <= 4096,
    ensures
        execute_spec(m, draw, first) matches Ok(once) && (execute_spec(once, draw, second) matches Ok(
            twice,
        ) && {
            &&& twice.display == m.display
            &&& twice.v[0xF] == 1 <==> exists|r: int, c: int|
                0 <= r < 32 && 0 <= c < 64 && #[trigger] sprite_covers(
                    m.mem,
                    m.i as int,
                    draw.n as int,
                    m.v[draw.x as int] as int,
                    m.v[draw.y as int] as int,
                    r,
                    c,
                ) && m.display[r][c] == 0
            &&& twice.v[0xF] == 1 || twice.v[0xF] == 0
        }),
{
    let once = execute_spec(m, draw, first).unwrap();
    let twice = execute_spec(once, draw, second).unwrap();
    let vx = m.v[draw.x as int] as int;
    let vy = m.v[draw.y as int] as int;
    let n = draw.n as int;
    let i = m.i as int;
    assert(once.v[draw.x as int] == m.v[draw.x as int]);
    assert(once.v[draw.y as int] == m.v[draw.y as int]);
    assert forall|r: int, c: int| 0 <= r < 32 && 0 <= c < 64 implies #[trigger] once.display[r][c]
        == (if sprite_covers(m.mem, i, n, vx, vy, r, c) {
        m.display[r][c] ^ 1
    } else {
        m.display[r][c]
    }) && twice.display[r][c] == m.display[r][c] by {
        lemma_invert_pixel(m.display[r][c]);
    }
    assert forall|r: int| 0 <= r < 32 implies #[trigger] twice.display[r] =~= m.display[r] by {
        assert forall|c: int| 0 <= c < 64 implies twice.display[r][c] == m.display[r][c] by {}
    }
    assert(twice.display =~= m.display);
    if twice.v[0xF] == 1 {
        let (r, c) = choose|r: int, c: int|
            0 <= r < 32 && 0 <= c < 64 && #[trigger] sprite_covers(once.mem, i, n, vx, vy, r, c)
                && once.display[r][c] == 1;
        lemma_invert_pixel(m.display[r][c]);
        assert(sprite_covers(m.mem, i, n, vx, vy, r, c) && m.display[r][c] == 0);
    }
    if exists|r: int, c: int|
        0 <= r < 32 && 0 <= c < 64 && #[trigger] sprite_covers(m.mem, i, n, vx, vy, r, c)
            && m.display[r][c] == 0 {
        let (r, c) = choose|r: int, c: int|
            0 <= r < 32 && 0 <= c < 64 && #[trigger] sprite_covers(m.mem, i, n, vx, vy, r, c)
                && m.display[r][c] == 0;
        lemma_invert_pixel(m.display[r][c]);
        assert(sprite_covers(once.mem, i, n, vx, vy, r, c) && once.display[r][c] == 1);
    }
}

/// `LD [I], Vx` followed by `LD Vx, [I]` into registers that were set to
/// anything in between gives `V[0]` to `V[x]` back as they were stored.
pub proof fn lemma_store_then_load(
    m: Machine,
    store: Instruction,
    load: Instruction,
    scratch: Seq<u8>,
    random: u8,
)
    requires
        m.wf(),
        scratch.len() == 16,
        fields_valid(store),
        fields_valid(load),
        store.op == Operation::StoreRegs,
        load.op == Operation::LoadRegs,
        store.x == load.x,
        m.i + store.x < 4096,
    ensures
        execute_spec(m, store, random) matches Ok(stored) && (execute_spec(
            Machine { v: scratch, ..stored },
            load,
            random,
        ) matches Ok(loaded) && {
            &&& forall|k: int| 0 <= k <= store.x ==> #[trigger] loaded.v[k] == m.v[k]
            &&& forall|k: int| store.x < k < 16 ==> #[trigger] loaded.v[k] == scratch[k]
            &&& loaded.i == m.i
        }),
{
}

/// What `first_pressed` finds from key 0 on is the lowest key held down, and
/// it finds 16 exactly when no key is held down.
pub proof fn lemma_first_pressed_is_lowest(keypad: Seq<bool>)
    ensures
        0 <= first_pressed(keypad, 0) <= 16,
        first_pressed(keypad, 0) < 16 ==> keypad[first_pressed(keypad, 0)],
        forall|j: int| 0 <= j < first_pressed(keypad, 0) ==> !#[trigger] keypad[j],
{
    lemma_first_pressed_from(keypad, 0);
}

/// The same of the search from any key on.
proof fn lemma_first_pressed_from(keypad: Seq<bool>, from: int)
    requires
        0 <= from <= 16,
    ensures
        from <= first_pressed(keypad, from) <= 16,
        first_pressed(keypad, from) < 16 ==> keypad[first_pressed(keypad, from)],
        forall|j: int| from <= j < first_pressed(keypad, from) ==> !#[trigger] keypad[j],
    decreases 16 - from,
{
    if from < 16 && !keypad[from] {
        lemma_first_pressed_from(keypad, from + 1);
    }
}

/// The three digits that `LD B, Vx` stores are decimal digits, and they make
/// up the value.
pub proof fn lemma_bcd_digits(mem: Seq<u8>, i: int, value: u8)
    requires
        0 <= i,
        i + 2 < mem.len(),
    ensures
        ({
            let stored = bcd_stored(mem, i, value);
            &&& stored[i] < 10 && stored[i + 1] < 10 && stored[i + 2] < 10
            &&& 100 * stored[i] + 10 * stored[i + 1] + stored[i + 2] == value
            &&& forall|a: int| 0 <= a < mem.len() && !(i <= a <= i + 2) ==> stored[a] == mem[a]
        }),
{
}

/// The address that `LD F, Vx` gives for a digit is where the machine at
/// power-on holds the five rows of that digit's glyph.
pub proof fn lemma_glyph_in_font(digit: int, row: int)
    requires
        0 <= digit < 16,
        0 <= row < 5,
    ensures
        0x050 <= glyph_address(digit) + row < 0x0A0,
        initial_memory()[glyph_address(digit) + row] == FONT[5 * digit + row],
{
}

/// A word that names no operation fails with `InvalidOpcode`, carrying the
/// word and the program counter.
pub proof fn lemma_unknown_word_is_invalid(m: Machine, word: u16, random: u8)
    requires
        operation_of(word) == Operation::Unknown,
    ensures
        execute_spec(m, decode_spec(word), random) == Err::<Machine, Fault>(
            Fault { kind: ErrorKind::InvalidOpcode, opcode: word, pc: m.pc },
        ),
{
}

} // verus!
