use crate::globals::{REG_COUNT, STACK_SIZE};
use crate::machine::{low_byte, next_seed, nibbles, pressed_from, Machine, Opcode};
use crate::utils::{lemma_addr_of_nibbles, lemma_byte_of_nibbles, word_of};
use vstd::prelude::*;

verus! {

/// The four nibbles of an instruction are each below 16, and read as
/// hexadecimal digits they spell the instruction word.
pub proof fn lemma_nibbles_spell_word(hi: u8, lo: u8)
    ensures
        ({
            let (a, x, y, n) = nibbles(hi, lo);
            &&& a < 16 && x < 16 && y < 16 && n < 16
            &&& a * 16 + x == hi
            &&& y * 16 + n == lo
            &&& a * 4096 + x * 256 + y * 16 + n == word_of(hi, lo)
        }),
{
    assert(hi >> 4u8 < 16 && hi & 0x0F < 16 && (hi >> 4u8) * 16 + (hi & 0x0F) == hi)
        by (bit_vector);
    assert(lo >> 4u8 < 16 && lo & 0x0F < 16 && (lo >> 4u8) * 16 + (lo & 0x0F) == lo)
        by (bit_vector);
    crate::utils::lemma_word_of_bytes(hi, lo);
}

/// Where the program counter stands after an instruction cycle. A jump
/// lands on its target, a call on its target with the address behind the
/// call on the stack, a return on the address that it took off the stack:
/// moving the counter past the instruction comes first and does not undo
/// them. A failed instruction leaves the counter behind itself. Any other
/// instruction leaves it there too, one instruction further on where it
/// skips, or on itself where it waits for a key.
pub proof fn lemma_counter_after_step(m: Machine)
    requires
        m.wf(),
        m.fetch() is Some,
    ensures
        ({
            let (a, x, y, n) = m.fetch().unwrap();
            let after = m.step();
            let pc = after.state.pc;
            &&& a == 1 ==> after.result is Ok && pc == x * 256 + y * 16 + n
            &&& a == 2 && after.result is Ok ==> pc == x * 256 + y * 16 + n
                && after.state.in_use() == m.in_use().push((m.pc + 2) as u16)
            &&& a == 0xB ==> after.result is Ok && pc == x * 256 + y * 16 + n + m.v[0]
            &&& a == 0 && x == 0 && y == 0xE && n == 0xE && after.result is Ok ==> pc
                == m.in_use().last() && after.state.in_use() == m.in_use().drop_last()
            &&& after.result is Err ==> pc == m.pc + 2
            &&& pc == m.pc + 2 || pc == m.pc + 4 || pc == m.pc || a == 1 || a == 2 || a == 0xB
                || (a == 0 && x == 0 && y == 0xE && n == 0xE)
        }),
{
    let (a, x, y, n) = m.fetch().unwrap();
    let after = m.step();
    lemma_nibbles_spell_word(m.memory[m.pc as int], m.memory[m.pc + 1]);
    lemma_addr_of_nibbles(x, y, n);
    if a == 2 && after.result is Ok {
        assert(after.state.in_use() =~= m.in_use().push((m.pc + 2) as u16));
    }
    if a == 0 && x == 0 && y == 0xE && n == 0xE && after.result is Ok {
        assert(after.state.in_use() =~= m.in_use().drop_last());
    }
}

/// `7xnn` never fails, puts the sum modulo 256 into `Vx` and leaves every
/// other register as it was: no carry reaches the flag register.
pub proof fn lemma_add_immediate(m: Machine)
    requires
        m.wf(),
        m.fetch() is Some,
        m.fetch().unwrap().0 == 7,
    ensures
        ({
            let (a, x, y, n) = m.fetch().unwrap();
            let after = m.step();
            &&& after.result is Ok
            &&& after.state.v.len() == REG_COUNT
            &&& after.state.v[x as int] == (m.v[x as int] + (y * 16 + n)) % 256
            &&& forall|r: int| 0 <= r < REG_COUNT && r != x ==> after.state.v[r] == m.v[r]
            &&& after.state == Machine { v: after.state.v, pc: (m.pc + 2) as u16, ..m }
        }),
{
    let (a, x, y, n) = m.fetch().unwrap();
    lemma_nibbles_spell_word(m.memory[m.pc as int], m.memory[m.pc + 1]);
    lemma_byte_of_nibbles(y, n);
}

/// `8xy4` sets the flag register to 1 if the sum of the two registers is
/// above 255, and to 0 if it is not; `Vx` gets the sum modulo 256.
pub proof fn lemma_add_carry(m: Machine)
    requires
        m.wf(),
        m.fetch() is Some,
        m.fetch().unwrap().0 == 8,
        m.fetch().unwrap().3 == 4,
    ensures
        ({
            let (a, x, y, n) = m.fetch().unwrap();
            let after = m.step();
            let sum = m.v[x as int] + m.v[y as int];
            &&& after.result is Ok
            &&& after.state.v[0xF] == 1 <==> sum > 255
            &&& after.state.v[0xF] == 0 <==> sum <= 255
            &&& x != 0xF ==> after.state.v[x as int] == sum % 256
        }),
{
    lemma_nibbles_spell_word(m.memory[m.pc as int], m.memory[m.pc + 1]);
}

/// `8xy5` sets the flag register to 1 if `Vx` was below `Vy`, and to 0
/// if it was not; `Vx` gets the difference modulo 256.
pub proof fn lemma_sub_borrow(m: Machine)
    requires
        m.wf(),
        m.fetch() is Some,
        m.fetch().unwrap().0 == 8,
        m.fetch().unwrap().3 == 5,
    ensures
        ({
            let (a, x, y, n) = m.fetch().unwrap();
            let after = m.step();
            &&& after.result is Ok
            &&& after.state.v[0xF] == 1 <==> m.v[x as int] < m.v[y as int]
            &&& after.state.v[0xF] == 0 <==> m.v[x as int] >= m.v[y as int]
            &&& x != 0xF ==> after.state.v[x as int] == (m.v[x as int] - m.v[y as int]) % 256
        }),
{
    lemma_nibbles_spell_word(m.memory[m.pc as int], m.memory[m.pc + 1]);
}

/// `Cx00` sets `Vx` to zero, whatever state the generator is in.
pub proof fn lemma_random_masked_out(m: Machine)
    requires
        m.wf(),
        m.fetch() == Some::<Opcode>((0xC, m.fetch().unwrap().1, 0, 0)),
    ensures
        m.step().result is Ok,
        m.step().state.v[m.fetch().unwrap().1 as int] == 0,
        m.step().state.seed == next_seed(m.seed),
{
    lemma_nibbles_spell_word(m.memory[m.pc as int], m.memory[m.pc + 1]);
    let r = low_byte(next_seed(m.seed));
    assert(r & ((0u8 << 4u8) | 0u8) == 0) by (bit_vector);
}

/// An address that was pushed is the one that the next pop returns. The
/// pop leaves the addresses in use and their number as they were before
/// the push; of the whole machine only the slot that the push wrote has
/// changed.
pub proof fn lemma_push_then_pop(m: Machine, val: u16)
    requires
        m.wf(),
        m.sp + 1 < STACK_SIZE,
    ensures
        m.push(val).result is Ok,
        m.push(val).state.pop().result == Ok::<u16, crate::errors::ChipError>(val),
        m.push(val).state.pop().state == (Machine {
            stack: m.stack.update(m.sp as int, val),
            ..m
        }),
        m.push(val).state.pop().state.in_use() == m.in_use(),
{
    assert(m.push(val).state.pop().state.in_use() =~= m.in_use());
}

/// Pushing the addresses `vals` puts them on top of the addresses in use,
/// in their order, as long as they leave the last slot free. The slots
/// beyond them, and the rest of the machine, stay as they were.
pub proof fn lemma_push_all(m: Machine, vals: Seq<u16>)
    requires
        m.wf(),
        m.sp + vals.len() < STACK_SIZE,
    ensures
        m.push_all(vals).result is Ok,
        m.push_all(vals).state.wf(),
        m.push_all(vals).state.sp == m.sp + vals.len(),
        m.push_all(vals).state.in_use() == m.in_use() + vals,
        forall|j: int|
            m.sp + vals.len() <= j < STACK_SIZE ==> m.push_all(vals).state.stack[j] == m.stack[j],
        m.push_all(vals).state == (Machine {
            stack: m.push_all(vals).state.stack,
            sp: m.push_all(vals).state.sp,
            ..m
        }),
    decreases vals.len(),
{
    if vals.len() == 0 {
        assert(m.in_use() + vals =~= m.in_use());
    } else {
        lemma_push_all(m, vals.drop_last());
        let before = m.push_all(vals.drop_last()).state;
        assert(before.push(vals.last()).state.in_use() =~= (m.in_use() + vals.drop_last()).push(
            vals.last(),
        ));
        assert((m.in_use() + vals.drop_last()).push(vals.last()) =~= m.in_use() + vals);
    }
}

/// As many pops as there are addresses in use, or fewer, all succeed;
/// they return the newest addresses, the newest first, and change nothing
/// but the number of slots in use.
pub proof fn lemma_pop_all(m: Machine, n: nat)
    requires
        m.wf(),
        n <= m.sp,
    ensures
        m.pop_all(n).result is Ok,
        m.pop_all(n).state == (Machine { sp: (m.sp - n) as nat, ..m }),
        m.pop_all(n).values == m.in_use().skip(m.sp - n).reverse(),
    decreases n,
{
    let len = m.sp as int;
    if n == 0 {
        assert(m.in_use().skip(len).reverse() =~= Seq::<u16>::empty());
    } else {
        let rest = m.pop().state;
        lemma_pop_all(rest, (n - 1) as nat);
        assert(seq![m.stack[len - 1]] + rest.in_use().skip(len - 1 - (n - 1)).reverse()
            =~= m.in_use().skip(len - n).reverse());
    }
}

/// A run of pushes followed by as many pops brings the stack pointer
/// back to where it was, with the same addresses in use as before, and
/// the pops return the pushed addresses in the reverse of the order in
/// which they were pushed. Of the whole machine only the slots that the
/// pushes wrote have changed. This holds of any run that leaves the last
/// slot of the stack free.
pub proof fn lemma_stack_round_trip(m: Machine, vals: Seq<u16>)
    requires
        m.wf(),
        m.sp + vals.len() < STACK_SIZE,
    ensures
        m.push_all(vals).result is Ok,
        m.push_all(vals).state.sp == m.sp + vals.len(),
        m.push_all(vals).state.pop_all(vals.len()).result is Ok,
        m.push_all(vals).state.pop_all(vals.len()).values == vals.reverse(),
        m.push_all(vals).state.pop_all(vals.len()).state.sp == m.sp,
        m.push_all(vals).state.pop_all(vals.len()).state.in_use() == m.in_use(),
        m.push_all(vals).state.pop_all(vals.len()).state == (Machine {
            stack: m.push_all(vals).state.stack,
            ..m
        }),
{
    lemma_push_all(m, vals);
    let full = m.push_all(vals).state;
    lemma_pop_all(full, vals.len());
    let back = full.pop_all(vals.len()).state;
    assert(full.in_use().skip(full.sp - vals.len()) =~= vals);
    assert(back.in_use() =~= m.in_use());
}

/// The key that a key wait reports is held down, and no key below it is;
/// it reports none only when no key is held down.
pub proof fn lemma_pressed_is_lowest(keys: Seq<bool>, from: int)
    requires
        0 <= from,
    ensures
        match pressed_from(keys, from) {
            Some(k) => from <= k < keys.len() && keys[k] && forall|j: int|
                from <= j < k ==> !keys[j],
            None => forall|j: int| from <= j < keys.len() ==> !keys[j],
        },
    decreases keys.len() - from,
{
    if from < keys.len() && !keys[from] {
        lemma_pressed_is_lowest(keys, from + 1);
    }
}

/// An instruction cycle that fails changes nothing but the program
/// counter: it stays where it was if no instruction could be read, and
/// stands behind the instruction if the instruction failed.
pub proof fn lemma_failure_keeps_state(m: Machine)
    requires
        m.wf(),
        m.step().result is Err,
    ensures
        m.fetch() is None ==> m.step().state == m,
        m.fetch() is Some ==> m.step().state == (Machine { pc: (m.pc + 2) as u16, ..m }),
{
    if m.fetch() is Some {
        lemma_nibbles_spell_word(m.memory[m.pc as int], m.memory[m.pc + 1]);
    }
}

/// An instruction cycle keeps the sizes of a machine state.
pub proof fn lemma_step_keeps_wf(m: Machine)
    requires
        m.wf(),
    ensures
        m.step().state.wf(),
{
    if m.fetch() is Some {
        lemma_nibbles_spell_word(m.memory[m.pc as int], m.memory[m.pc + 1]);
    }
}

} // verus!
