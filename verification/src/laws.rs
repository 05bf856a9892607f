//! Laws of the machine: what holds of every heap, every frame and every
//! machine, proved from the definitions of the instructions.

use crate::bytes::signed8;
use crate::error::Error;
use crate::heap::is_array_type;
use crate::heap::zero_value;
use crate::heap::zeroed;
use crate::heap::HeapItemView;
use crate::heap::HeapView;
use crate::machine::classes_kept;
use crate::machine::find_class;
use crate::machine::is_first_class;
use crate::machine::lemma_classes_kept_trans;
use crate::machine::lemma_find_class_kept;
use crate::machine::ClassView;
use crate::machine::MachineView;
use crate::op_code::begin_init;
use crate::op_code::call_target;
use crate::op_code::enter;
use crate::op_code::exec_instruction;
use crate::op_code::CallTarget;
use crate::op_code::frame_step;
use crate::op_code::invoke_static;
use crate::op_code::mark_initialised;
use crate::op_code::return_value;
use crate::op_code::BIPUSH;
use crate::op_code::IADD;
use crate::op_code::ICONST_0;
use crate::types::DataType;
use crate::types::FrameView;
use vstd::arithmetic::div_mod::lemma_fundamental_div_mod;
use vstd::arithmetic::div_mod::lemma_mod_multiples_vanish;
use vstd::arithmetic::div_mod::lemma_small_mod;
use vstd::prelude::*;
use vstd::wrapping::i32_specs::signed_crop;

verus! {

impl HeapView {
    /// Whether the heap is one that a machine can hold: its cells can be
    /// counted in a `usize`.
    pub open spec fn wf(self) -> bool {
        self.cells.len() <= usize::MAX
    }
}

/// The cell that takes a new item held nothing before, and holds the item
/// after.
pub proof fn lemma_append(h: HeapView, item: HeapItemView)
    requires
        h.wf(),
    ensures
        h.append(item) matches Ok((heap, index)) ==> {
            &&& heap.wf()
            &&& index < heap.cells.len()
            &&& heap.cells[index as int] == item
            &&& heap.max_size == h.max_size
            &&& !h.is_valid_reference(index)
            &&& forall|i: int|
                0 <= i < h.cells.len() && i != index ==> #[trigger] heap.cells[i] == h.cells[i]
        },
{
    if h.has_empty() {
        assert(h.is_first_empty(h.first_empty()));
    }
}

/// Every element of a new array reads as the zero of the element type.
pub proof fn lemma_new_array_reads_zero(h: HeapView, atype: u8, size: usize, at: i32)
    requires
        h.wf(),
        0 <= at < size,
    ensures
        h.create_array(atype, size) matches Ok((heap, index)) ==> heap.load(index, at) == Ok::<
            DataType,
            Error,
        >(zero_value(atype)),
{
    if is_array_type(atype) {
        lemma_append(h, HeapItemView::Array(zeroed(atype, size as nat)));
    }
}

/// An integer that is stored into a new array of integers is the integer
/// that is then read at the same index.
pub proof fn lemma_int_array_store_load(h: HeapView, size: usize, at: i32, value: i32)
    requires
        h.wf(),
        0 <= at < size,
    ensures
        h.create_array(10, size) matches Ok((created, index)) ==> {
            &&& created.store(index, at, DataType::Int(value)) matches Ok(stored)
            &&& stored.load(index, at) == Ok::<DataType, Error>(DataType::Int(value))
        },
{
    lemma_append(h, HeapItemView::Array(zeroed(10, size as nat)));
}

impl FrameView {
    /// Whether the frame is one that a machine can hold: its bytecode can be
    /// counted in a `usize`.
    pub open spec fn wf(self) -> bool {
        self.code.len() <= usize::MAX
    }

    /// The frame after `steps` instructions that touch nothing but the frame
    /// have run in it, one after the other, each taken from the bytecode at
    /// the program counter.
    pub open spec fn run(self, steps: nat) -> Result<FrameView, Error>
        decreases steps,
    {
        if steps == 0 {
            Ok(self)
        } else if self.pc >= self.code.len() {
            Err(Error::CodeOutOfRange)
        } else {
            match frame_step(self, self.code[self.pc as int]) {
                Err(e) => Err(e),
                Ok(next) => next.run((steps - 1) as nat),
            }
        }
    }
}

/// The sum of `constants`.
pub open spec fn sum(constants: Seq<int>) -> int
    decreases constants.len(),
{
    if constants.len() == 0 {
        0
    } else {
        constants[0] + sum(constants.drop_first())
    }
}

/// The bytecode that adds each of `constants` to the integer on top of the
/// stack: for each of them, the `iconst` instruction that pushes it, and
/// `iadd`.
pub open spec fn add_chain(constants: Seq<int>) -> Seq<u8> {
    Seq::new(
        2 * constants.len(),
        |i: int|
            if i % 2 == 0 {
                (constants[i / 2] + ICONST_0) as u8
            } else {
                IADD
            },
    )
}

/// Adding to a cropped integer and cropping the sum come to the same thing.
pub proof fn lemma_wrapping_add_crops(s: int, c: i32)
    ensures
        signed_crop(s).wrapping_add(c) == signed_crop(s + c),
{
    let range = 0x1_0000_0000int;
    let r = s % range;
    let q = s / range;
    lemma_fundamental_div_mod(s, range);
    let a = signed_crop(s) as int;
    let w = signed_crop(s).wrapping_add(c) as int;
    let ja: int = if r > i32::MAX {
        1
    } else {
        0
    };
    assert(a == r - ja * range);
    let jw: int = if a + c > i32::MAX {
        1
    } else if a + c < i32::MIN {
        -1
    } else {
        0
    };
    assert(w == a + c - jw * range);
    let up: int = if w < 0 {
        1
    } else {
        0
    };
    let low = w + up * range;
    assert(0 <= low < range);
    assert(s + c == range * (q + ja + jw - up) + low) by (nonlinear_arith)
        requires
            s == range * q + r,
            a == r - ja * range,
            w == a + c - jw * range,
            low == w + up * range,
    ;
    lemma_mod_multiples_vanish(q + ja + jw - up, low, range);
    lemma_small_mod(low as nat, range as nat);
    assert((s + c) % range == low);
}

/// One link of an addition chain: `iconst` pushes its constant, and `iadd`
/// replaces the integer that was on top and the constant by their sum.
pub proof fn lemma_add_link(f: FrameView, top: i32, constant: int)
    requires
        f.wf(),
        -1 <= constant <= 5,
        f.pc + 2 <= f.code.len(),
        f.code[f.pc as int] == (constant + ICONST_0) as u8,
        f.code[f.pc + 1] == IADD,
        f.op_stack.len() > 0,
        f.op_stack.last() == DataType::Int(top),
        f.op_stack.len() < f.max_stack,
    ensures
        f.run(2) == Ok::<FrameView, Error>(
            FrameView {
                op_stack: f.op_stack.drop_last().push(
                    DataType::Int(top.wrapping_add(constant as i32)),
                ),
                pc: (f.pc + 2) as usize,
                ..f
            },
        ),
{
    let pushed = FrameView {
        op_stack: f.op_stack.push(DataType::Int(constant as i32)),
        pc: (f.pc + 1) as usize,
        ..f
    };
    assert(frame_step(f, f.code[f.pc as int]) == Ok::<FrameView, Error>(pushed));
    let popped = FrameView { op_stack: f.op_stack, ..pushed };
    assert(pushed.op_stack.drop_last() =~= f.op_stack);
    assert(pushed.pop_int() == Ok::<(FrameView, i32), Error>((popped, constant as i32)));
    let bare = FrameView { op_stack: f.op_stack.drop_last(), ..pushed };
    assert(popped.pop_int() == Ok::<(FrameView, i32), Error>((bare, top)));
    let added = FrameView {
        op_stack: f.op_stack.drop_last().push(DataType::Int(top.wrapping_add(constant as i32))),
        pc: (f.pc + 2) as usize,
        ..f
    };
    assert(frame_step(pushed, IADD) == Ok::<FrameView, Error>(added));
    assert(f.run(2) == pushed.run(1));
    assert(pushed.run(1) == added.run(0));
}

/// Runs of instructions add up.
pub proof fn lemma_run_split(f: FrameView, first: nat, second: nat)
    ensures
        f.run(first) matches Ok(middle) ==> f.run(first + second) == middle.run(second),
    decreases first,
{
    if first > 0 && f.pc < f.code.len() {
        match frame_step(f, f.code[f.pc as int]) {
            Ok(next) => {
                lemma_run_split(next, (first - 1) as nat, second);
            },
            Err(_) => {},
        }
    }
}

/// An addition chain adds: with the cropped integer `start` on top of the
/// stack, the chain for `constants` leaves the cropped sum of `start` and the
/// constants in its place.
pub proof fn lemma_add_chain_sums(f: FrameView, start: int, constants: Seq<int>)
    requires
        f.wf(),
        forall|i: int| 0 <= i < constants.len() ==> -1 <= #[trigger] constants[i] <= 5,
        f.pc + 2 * constants.len() <= f.code.len(),
        f.code.subrange(f.pc as int, f.pc + 2 * constants.len()) == add_chain(constants),
        f.op_stack.len() > 0,
        f.op_stack.last() == DataType::Int(signed_crop(start)),
        f.op_stack.len() < f.max_stack,
    ensures
        f.run(2 * constants.len()) == Ok::<FrameView, Error>(
            FrameView {
                op_stack: f.op_stack.drop_last().push(
                    DataType::Int(signed_crop(start + sum(constants))),
                ),
                pc: (f.pc + 2 * constants.len()) as usize,
                ..f
            },
        ),
    decreases constants.len(),
{
    let n = constants.len();
    let code = f.code.subrange(f.pc as int, f.pc + 2 * n);
    if n == 0 {
        assert(f.op_stack.drop_last().push(f.op_stack.last()) =~= f.op_stack);
    } else {
        let c = constants[0];
        let later = constants.drop_first();
        assert(code[0] == (c + ICONST_0) as u8);
        assert(code[1] == IADD);
        assert(f.code[f.pc as int] == code[0]);
        assert(f.code[f.pc + 1] == code[1]);
        let top = signed_crop(start);
        lemma_add_link(f, top, c);
        lemma_wrapping_add_crops(start, c as i32);
        let linked = FrameView {
            op_stack: f.op_stack.drop_last().push(DataType::Int(signed_crop(start + c))),
            pc: (f.pc + 2) as usize,
            ..f
        };
        assert(linked.code.subrange(linked.pc as int, linked.pc + 2 * later.len()) =~= add_chain(
            later,
        )) by {
            let rest = linked.code.subrange(linked.pc as int, linked.pc + 2 * later.len());
            assert forall|i: int| 0 <= i < rest.len() implies rest[i] == add_chain(later)[i] by {
                assert(rest[i] == code[i + 2]);
                assert((i + 2) / 2 == i / 2 + 1);
                assert((i + 2) % 2 == i % 2);
                assert(later[i / 2] == constants[i / 2 + 1]);
            }
        }
        assert forall|i: int| 0 <= i < later.len() implies -1 <= #[trigger] later[i] <= 5 by {
            assert(later[i] == constants[i + 1]);
        }
        lemma_add_chain_sums(linked, start + c, later);
        lemma_run_split(f, 2, (2 * later.len()) as nat);
        assert(linked.op_stack.drop_last() =~= f.op_stack.drop_last());
    }
}

/// `bipush` and an addition chain compute the exact two's-complement sum:
/// `bipush x` followed by `iconst` and `iadd` for each of `constants` pushes
/// the sum of `x`, read as a signed byte, and the constants, cropped to 32
/// bits.
pub proof fn lemma_bipush_add_chain(f: FrameView, x: u8, constants: Seq<int>)
    requires
        f.wf(),
        forall|i: int| 0 <= i < constants.len() ==> -1 <= #[trigger] constants[i] <= 5,
        f.pc + 2 + 2 * constants.len() <= f.code.len(),
        f.code.subrange(f.pc as int, f.pc + 2 + 2 * constants.len()) == seq![BIPUSH, x]
            + add_chain(constants),
        f.op_stack.len() + 2 <= f.max_stack,
    ensures
        f.run(1 + 2 * constants.len()) == Ok::<FrameView, Error>(
            FrameView {
                op_stack: f.op_stack.push(
                    DataType::Int(signed_crop(signed8(x) + sum(constants))),
                ),
                pc: (f.pc + 2 + 2 * constants.len()) as usize,
                ..f
            },
        ),
{
    let n = constants.len();
    let code = f.code.subrange(f.pc as int, f.pc + 2 + 2 * n);
    assert(f.code[f.pc as int] == code[0]);
    assert(f.code[f.pc + 1] == code[1]);
    let value = signed8(x) as i32;
    let pushed = FrameView {
        op_stack: f.op_stack.push(DataType::Int(value)),
        pc: (f.pc + 2) as usize,
        ..f
    };
    assert(frame_step(f, BIPUSH) == Ok::<FrameView, Error>(pushed));
    assert(f.run(1) == pushed.run(0));
    assert(signed_crop(value as int) == value) by {
        lemma_small_mod(
            if value < 0 {
                (value + 0x1_0000_0000) as nat
            } else {
                value as nat
            },
            0x1_0000_0000,
        );
        if value < 0 {
            lemma_mod_multiples_vanish(-1, value + 0x1_0000_0000, 0x1_0000_0000);
        }
    }
    assert(pushed.code.subrange(pushed.pc as int, pushed.pc + 2 * n) =~= add_chain(constants)) by {
        let rest = pushed.code.subrange(pushed.pc as int, pushed.pc + 2 * n);
        assert forall|i: int| 0 <= i < rest.len() implies rest[i] == add_chain(constants)[i] by {
            assert(rest[i] == code[i + 2]);
        }
    }
    lemma_add_chain_sums(pushed, value as int, constants);
    lemma_run_split(f, 1, (2 * n) as nat);
    assert(pushed.op_stack.drop_last() =~= f.op_stack);
}

/// A call and the return from it: `invokestatic` of a method whose class is
/// initialised puts one frame on top of the caller and moves the caller past
/// the instruction; `ireturn` in that frame, whatever it has done in between,
/// takes it off again and leaves the caller on top with exactly one value
/// more on its operand stack than the call left there.
pub proof fn lemma_invoke_then_return(
    m: MachineView,
    target: CallTarget,
    callee: FrameView,
    value: DataType,
)
    requires
        m.stack.len() > 0,
        m.top().wf(),
        m.top().operand_u16() matches Ok(index) && call_target(m.classes, m.top().class, index)
            == Ok::<CallTarget, Error>(target),
        m.classes[target.class as int].initialised,
        callee.op_stack.len() > 0,
        callee.op_stack.last() == value,
    ensures
        invoke_static(m) matches Ok(called) ==> {
            let caller = called.stack[called.stack.len() - 2];
            &&& called.stack.len() == m.stack.len() + 1
            &&& called.stack.drop_last().drop_last() == m.stack.drop_last()
            &&& caller.op_stack.is_prefix_of(m.top().op_stack)
            &&& caller.pc == m.top().pc + 3
            &&& match return_value(called.with_top(callee)) {
                Ok(back) => {
                    &&& caller.op_stack.len() < caller.max_stack
                    &&& back.stack.len() == m.stack.len()
                    &&& back.top() == (FrameView { op_stack: caller.op_stack.push(value), ..caller })
                    &&& back.stack.drop_last() == m.stack.drop_last()
                },
                Err(e) => caller.op_stack.len() >= caller.max_stack && e == Error::StackOverflow,
            }
        },
{
    let f = m.top();
    if invoke_static(m) is Ok {
        let called = invoke_static(m)->Ok_0;
        assert(invoke_static(m) == enter(m, target));
        let arity = target.arity;
        let kept = f.op_stack.len() - arity;
        let caller = FrameView { op_stack: f.op_stack.take(kept), ..f.advance(3) };
        let entered = FrameView {
            variables: f.op_stack.skip(kept) + target.frame.variables.skip(arity as int),
            ..target.frame
        };
        assert(called.stack == m.with_top(caller).stack.push(entered));
        assert(called.stack.len() == m.stack.len() + 1);
        assert(called.stack[called.stack.len() - 2] == caller);
        assert(called.stack.drop_last() =~= m.with_top(caller).stack);
        assert(called.stack.drop_last().drop_last() =~= m.stack.drop_last());
        assert(caller.pc == f.pc + 3);
        let running = called.with_top(callee);
        assert(running.top() == callee);
        let rest = running.stack.drop_last();
        assert(rest =~= m.with_top(caller).stack);
        assert(rest.last() == caller);
        assert(callee.pop() == Ok::<(FrameView, DataType), Error>(
            (FrameView { op_stack: callee.op_stack.drop_last(), ..callee }, value),
        ));
        if caller.op_stack.len() < caller.max_stack {
            let pushed = FrameView { op_stack: caller.op_stack.push(value), ..caller };
            assert(caller.push(value) == Ok::<FrameView, Error>(pushed));
            let back = MachineView { stack: rest.update(rest.len() - 1, pushed), ..running };
            assert(return_value(running) == Ok::<MachineView, Error>(back));
            assert(back.stack.drop_last() =~= m.stack.drop_last());
        } else {
            assert(caller.push(value) == Err::<FrameView, Error>(Error::StackOverflow));
        }
    }
}

impl MachineView {
    /// Whether the machine is one that can exist: its classes can be counted
    /// in a `usize`.
    pub open spec fn wf(self) -> bool {
        self.classes.len() <= usize::MAX
    }
}

/// Marking a class as initialised loses no class.
pub proof fn lemma_mark_keeps(classes: Seq<ClassView>, class: usize)
    requires
        class < classes.len(),
    ensures
        classes_kept(classes, mark_initialised(classes, class)),
        mark_initialised(classes, class)[class as int].initialised,
{
}

/// A class that is found is found inside the class table.
pub proof fn lemma_find_class_in_range(classes: Seq<ClassView>, name: Seq<char>)
    requires
        classes.len() <= usize::MAX,
    ensures
        find_class(classes, name) matches Some(class) ==> is_first_class(
            classes,
            name,
            class as int,
        ),
{
    if exists|i: int| is_first_class(classes, name, i) {
        let i = choose|i: int| is_first_class(classes, name, i);
        assert(is_first_class(classes, name, i));
    }
}

/// One instruction loses no class, makes none uninitialised again, and
/// leaves the number of steps alone.
pub proof fn lemma_instruction_keeps(m: MachineView, op: u8)
    requires
        m.wf(),
    ensures
        exec_instruction(m, op) matches Ok(next) ==> classes_kept(m.classes, next.classes)
            && next.steps_left == m.steps_left && next.wf(),
{
}

/// One step loses no class, makes none uninitialised again, and leaves the
/// number of steps alone.
pub proof fn lemma_step_keeps(m: MachineView)
    requires
        m.wf(),
    ensures
        m.step() matches Ok(next) ==> classes_kept(m.classes, next.classes) && next.steps_left
            == m.steps_left && next.wf(),
{
    if m.stack.len() > 0 && m.top().pc < m.top().code.len() {
        lemma_instruction_keeps(m, m.top().code[m.top().pc as int]);
    }
}

/// However long the machine runs, it loses no class and makes none
/// uninitialised again; and when it stops without an error, no more frames
/// are left than it was asked to run down to.
pub proof fn lemma_run_keeps(m: MachineView, base: nat)
    requires
        m.wf(),
    ensures
        m.run_until(base) matches Ok(done) ==> classes_kept(m.classes, done.classes)
            && done.stack.len() <= base && done.wf(),
    decreases m.steps_left,
{
    if m.stack.len() > base && m.steps_left > 0 {
        lemma_step_keeps(m.tick());
        match m.tick().step() {
            Ok(next) => {
                lemma_run_keeps(next, base);
                match next.run_until(base) {
                    Ok(done) => {
                        lemma_classes_kept_trans(m.classes, next.classes, done.classes);
                    },
                    Err(_) => {},
                }
            },
            Err(_) => {},
        }
    }
}

/// A class is initialised once. The call that finds it uninitialised says
/// so and leaves it initialised; every call after that finds it initialised,
/// says so, and changes nothing.
pub proof fn lemma_init_class_once(m: MachineView, name: Seq<char>)
    requires
        m.wf(),
    ensures
        m.init_class(name) matches Ok((after, first)) ==> {
            &&& find_class(m.classes, name) matches Some(class)
            &&& first == !m.classes[class as int].initialised
            &&& after.classes[class as int].initialised
            &&& after.init_class(name) == Ok::<(MachineView, bool), Error>((after, false))
        },
{
    lemma_find_class_in_range(m.classes, name);
    match find_class(m.classes, name) {
        Some(class) => {
            if !m.classes[class as int].initialised {
                lemma_mark_keeps(m.classes, class);
                match begin_init(m, class) {
                    Ok(started) => {
                        lemma_run_keeps(started, m.stack.len());
                        match started.run_until(m.stack.len()) {
                            Ok(done) => {
                                lemma_classes_kept_trans(m.classes, started.classes, done.classes);
                                lemma_find_class_kept(m.classes, done.classes, name);
                            },
                            Err(_) => {},
                        }
                    },
                    Err(_) => {},
                }
            }
        },
        None => {},
    }
}

} // verus!
