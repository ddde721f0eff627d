//! Properties of whole runs.
use vstd::prelude::*;

use crate::bytecode::{CodeObject, ComparisonOperator, Constant, Instruction, Label};
use crate::frame::{Block, ExecutionResult, Fault};
use crate::pyobject::{ExceptionType, PyObjectKind, PyObjectRef, PyResult};
use crate::semantics::{
    add_traceback, compare, constant, copied_code, execute, execute_next, has_instruction, jump,
    load_name, lookup, membership, next, object_reply, push_new, raise, raise_new,
    reply, result_reply, return_value, rotate, run, store_name, text_reply, truth_reply, turn,
    unwind_blocks, unwind_exception, unwind_loop, with_exit, FrameState, Outcome, Step,
};
use crate::vm::{Event, Reply, Request};

verus! {

/// Whether two states are states of one frame: they have one code and one scope.
pub open spec fn same_frame(a: FrameState, b: FrameState) -> bool {
    a.code == b.code && a.locals == b.locals
}

proof fn lemma_lookup_keeps(
    frame: FrameState,
    name: Seq<char>,
    scope: PyObjectRef,
    depth: nat,
    log: Seq<Event>,
    at: int,
)
    ensures
        same_frame(lookup(frame, name, scope, depth, log, at).frame, frame),
    decreases depth,
{
    if depth > 0 {
        match object_reply(log, at + 2, Request::GetParent { scope }) {
            Some(parent) => lemma_lookup_keeps(
                frame,
                name,
                parent,
                (depth - 1) as nat,
                log,
                at + 3,
            ),
            None => {},
        }
    }
}

proof fn lemma_unwind_blocks_keeps(frame: FrameState, log: Seq<Event>, at: int)
    ensures
        same_frame(unwind_blocks(frame, log, at).frame, frame),
    decreases frame.blocks.len(),
{
    if frame.blocks.len() > 0 {
        let rest = frame.drop_block();
        match frame.blocks.last() {
            Block::With { context_manager, .. } => match with_exit(context_manager, None, log, at) {
                Some((_, at)) => lemma_unwind_blocks_keeps(rest, log, at),
                None => {},
            },
            _ => lemma_unwind_blocks_keeps(rest, log, at),
        }
    }
}

proof fn lemma_unwind_loop_keeps(frame: FrameState, log: Seq<Event>, at: int)
    ensures
        unwind_loop(frame, log, at) matches Some((rest, _, _)) ==> same_frame(rest, frame),
    decreases frame.blocks.len(),
{
    if frame.blocks.len() > 0 {
        let rest = frame.drop_block();
        match frame.blocks.last() {
            Block::With { context_manager, .. } => match with_exit(context_manager, None, log, at) {
                Some((_, at)) => lemma_unwind_loop_keeps(rest, log, at),
                None => {},
            },
            _ => lemma_unwind_loop_keeps(rest, log, at),
        }
    }
}

proof fn lemma_unwind_exception_keeps(
    frame: FrameState,
    exception: PyObjectRef,
    log: Seq<Event>,
    at: int,
)
    ensures
        same_frame(unwind_exception(frame, exception, log, at).frame, frame),
    decreases frame.blocks.len(),
{
    if frame.blocks.len() > 0 {
        let rest = frame.drop_block();
        match frame.blocks.last() {
            Block::With { context_manager, .. } => match with_exit(
                context_manager,
                Some(exception),
                log,
                at,
            ) {
                Some((_, at)) => lemma_unwind_exception_keeps(rest, exception, log, at + 1),
                None => {},
            },
            _ => lemma_unwind_exception_keeps(rest, exception, log, at),
        }
    }
}

/// No instruction changes the code that a frame runs or the scope that it runs in.
#[verifier::spinoff_prover]
#[verifier::rlimit(60)]
pub proof fn law_execute_keeps_code_and_scope(
    frame: FrameState,
    instruction: Instruction,
    log: Seq<Event>,
    at: int,
)
    ensures
        same_frame(execute(frame, instruction, log, at).frame, frame),
{
    match instruction {
        Instruction::LoadName { name } => lemma_lookup_keeps(
            frame,
            name@,
            frame.locals,
            usize::MAX as nat,
            log,
            at,
        ),
        Instruction::ReturnValue => lemma_unwind_blocks_keeps(frame.drop(1), log, at),
        Instruction::Break => lemma_unwind_loop_keeps(frame, log, at),
        Instruction::Continue => lemma_unwind_loop_keeps(frame, log, at),
        _ => {},
    }
}

/// No turn changes the code that a frame runs or the scope that it runs in.
pub proof fn law_turn_keeps_code_and_scope(frame: FrameState, log: Seq<Event>, at: int)
    ensures
        same_frame(execute_next(frame, log, at).frame, frame),
        same_frame(turn(frame, log, at).frame, frame),
{
    if has_instruction(frame) {
        law_execute_keeps_code_and_scope(
            frame.goto(frame.lasti + 1),
            frame.code.instructions@[frame.lasti],
            log,
            at,
        );
    }
    let step = execute_next(frame, log, at);
    match step.outcome {
        Outcome::Done(Err(exception)) => match add_traceback(
            frame.code,
            frame.code.locations@[frame.lasti].row,
            exception,
            log,
            step.at,
        ) {
            Some((None, at)) => lemma_unwind_exception_keeps(step.frame, exception, log, at),
            _ => {},
        },
        _ => {},
    }
}

/// A run changes neither the code that a frame runs nor the scope that it runs in.
pub proof fn law_run_keeps_code_and_scope(
    frame: FrameState,
    turns: nat,
    log: Seq<Event>,
    at: int,
)
    ensures
        same_frame(run(frame, turns, log, at).frame, frame),
    decreases turns,
{
    if turns > 0 {
        law_turn_keeps_code_and_scope(frame, log, at);
        let step = turn(frame, log, at);
        law_run_keeps_code_and_scope(step.frame, (turns - 1) as nat, log, step.at);
    }
}

/// A run can be cut anywhere: some turns, and from where they leave the frame some more, are the
/// run of all of them.
pub proof fn law_run_resumes(
    frame: FrameState,
    turns: nat,
    more: nat,
    log: Seq<Event>,
    at: int,
)
    ensures
        ({
            let step = run(frame, turns, log, at);
            run(frame, turns + more, log, at) == if step.outcome == Outcome::Next {
                run(step.frame, more, log, step.at)
            } else {
                step
            }
        }),
    decreases turns,
{
    if turns > 0 {
        let step = turn(frame, log, at);
        law_run_resumes(step.frame, (turns - 1) as nat, more, log, step.at);
    }
}

/// A value that is pushed is the one on top, and taking it off leaves the frame as it was.
pub proof fn law_push_then_pop(frame: FrameState, value: PyObjectRef, log: Seq<Event>, at: int)
    ensures
        frame.push(value).nth(0) == value,
        execute(frame.push(value), Instruction::Pop, log, at) == next(frame, at),
{
    assert(frame.push(value).drop(1).stack =~= frame.stack);
}

/// Taking off the copy of a value leaves the frame as it was.
pub proof fn law_duplicate_then_pop(frame: FrameState, log: Seq<Event>, at: int)
    requires
        frame.stack.len() >= 1,
    ensures
        execute(frame, Instruction::Duplicate, log, at).outcome == Outcome::Next,
        execute(
            execute(frame, Instruction::Duplicate, log, at).frame,
            Instruction::Pop,
            log,
            at,
        ) == next(frame, at),
{
    law_push_then_pop(frame, frame.nth(0), log, at);
}

/// The effect of executing a number of instructions, one after the other.
pub open spec fn executed(frame: FrameState, count: nat, log: Seq<Event>, at: int) -> Step
    decreases count,
{
    if count == 0 {
        next(frame, at)
    } else {
        let before = executed(frame, (count - 1) as nat, log, at);
        match before.outcome {
            Outcome::Next => execute_next(before.frame, log, before.at),
            _ => before,
        }
    }
}

/// A rotation puts the topmost value below the ones that it rotates with, and keeps what lies
/// deeper.
pub proof fn law_rotate_moves_top_down(
    frame: FrameState,
    amount: usize,
    log: Seq<Event>,
    at: int,
)
    requires
        2 <= amount <= frame.stack.len(),
    ensures
        ({
            let all = frame.stack;
            let base = all.len() - amount;
            execute(frame, Instruction::Rotate { amount }, log, at) == next(
                FrameState {
                    stack: all.take(base) + seq![all.last()] + all.subrange(base, all.len() - 1),
                    ..frame
                },
                at,
            )
        }),
{
    let all = frame.stack;
    let base = all.len() - amount;
    assert(rotate(frame, amount, at).frame.stack =~= all.take(base) + seq![all.last()]
        + all.subrange(base, all.len() - 1));
}

/// Whether the next instructions are all rotations of the same number of values, as many as that.
pub open spec fn rotations_ahead(frame: FrameState, amount: usize) -> bool {
    &&& 0 <= frame.lasti <= frame.code.instructions@.len() - amount
    &&& forall|i: int|
        frame.lasti <= i < frame.lasti + amount ==> (#[trigger] frame.code.instructions@[i])
            == (Instruction::Rotate { amount })
}

/// A stack whose topmost values were rotated a number of times.
pub open spec fn rotated(all: Seq<PyObjectRef>, amount: int, times: int) -> Seq<PyObjectRef> {
    all.take(all.len() - amount) + all.skip(all.len() - times) + all.subrange(
        all.len() - amount,
        all.len() - times,
    )
}

proof fn lemma_rotated_once_more(all: Seq<PyObjectRef>, amount: int, times: int)
    requires
        2 <= amount <= all.len(),
        0 < times <= amount,
    ensures
        ({
            let before = rotated(all, amount, times - 1);
            let base = all.len() - amount;
            rotated(all, amount, times) == before.take(base) + seq![before.last()]
                + before.subrange(base, all.len() - 1)
        }),
{
    let before = rotated(all, amount, times - 1);
    let base = all.len() - amount;
    assert(rotated(all, amount, times) =~= before.take(base) + seq![before.last()]
        + before.subrange(base, all.len() - 1));
}

#[verifier::spinoff_prover]
proof fn lemma_rotations(
    frame: FrameState,
    amount: usize,
    times: nat,
    log: Seq<Event>,
    at: int,
)
    requires
        2 <= amount <= frame.stack.len(),
        times <= amount,
        rotations_ahead(frame, amount),
    ensures
        executed(frame, times, log, at) == next(
            FrameState {
                stack: rotated(frame.stack, amount as int, times as int),
                lasti: frame.lasti + times,
                ..frame
            },
            at,
        ),
    decreases times,
{
    let all = frame.stack;
    if times == 0 {
        assert(rotated(all, amount as int, 0) =~= all);
    } else {
        lemma_rotations(frame, amount, (times - 1) as nat, log, at);
        lemma_rotated_once_more(all, amount as int, times as int);
        let before = executed(frame, (times - 1) as nat, log, at).frame;
        law_rotate_moves_top_down(before.goto(before.lasti + 1), amount, log, at);
        assert(frame.code.instructions@[before.lasti] == (Instruction::Rotate { amount }));
        assert(executed(frame, times, log, at) == execute(
            before.goto(before.lasti + 1),
            Instruction::Rotate { amount },
            log,
            at,
        ));
    }
}

/// Rotating as many times as there are values to rotate leaves the stack as it was.
pub proof fn law_rotations_come_round(
    frame: FrameState,
    amount: usize,
    log: Seq<Event>,
    at: int,
)
    requires
        2 <= amount <= frame.stack.len(),
        rotations_ahead(frame, amount),
    ensures
        executed(frame, amount as nat, log, at) == next(frame.goto(frame.lasti + amount), at),
{
    lemma_rotations(frame, amount, amount as nat, log, at);
    assert(rotated(frame.stack, amount as int, amount as int) =~= frame.stack);
}

/// Leaving a loop or an `except` block that was just entered leaves the frame as it was.
pub proof fn law_setup_then_pop_block(
    frame: FrameState,
    start: Label,
    end: Label,
    handler: Label,
    log: Seq<Event>,
    at: int,
)
    ensures
        execute(
            execute(frame, Instruction::SetupLoop { start, end }, log, at).frame,
            Instruction::PopBlock,
            log,
            at,
        ) == next(frame, at),
        execute(
            execute(frame, Instruction::SetupExcept { handler }, log, at).frame,
            Instruction::PopBlock,
            log,
            at,
        ) == next(frame, at),
{
    assert(frame.push_block(Block::Loop { start, end }).drop_block().blocks =~= frame.blocks);
    assert(frame.push_block(Block::TryExcept { handler }).drop_block().blocks =~= frame.blocks);
}

/// A frame with none of its blocks.
pub open spec fn without_blocks(frame: FrameState) -> FrameState {
    FrameState { blocks: Seq::empty(), ..frame }
}

/// Where no exit of a `with` block raises an exception, all blocks are left, and nothing else is
/// changed.
pub proof fn law_unwind_blocks_leaves_none(frame: FrameState, log: Seq<Event>, at: int)
    ensures
        unwind_blocks(frame, log, at).outcome == Outcome::Next ==> unwind_blocks(
            frame,
            log,
            at,
        ).frame == without_blocks(frame),
    decreases frame.blocks.len(),
{
    if frame.blocks.len() == 0 {
        assert(frame.blocks =~= Seq::empty());
    } else {
        let rest = frame.drop_block();
        match frame.blocks.last() {
            Block::With { context_manager, .. } => match with_exit(context_manager, None, log, at) {
                Some((_, at)) => law_unwind_blocks_leaves_none(rest, log, at),
                None => {},
            },
            _ => law_unwind_blocks_leaves_none(rest, log, at),
        }
    }
}

/// A return hands out the topmost value, and no block is left.
pub proof fn law_return_gives_top(frame: FrameState, log: Seq<Event>, at: int)
    ensures
        return_value(frame, log, at).outcome matches Outcome::Done(Ok(result)) ==> {
            &&& frame.stack.len() >= 1
            &&& result == ExecutionResult::Return(frame.nth(0))
            &&& return_value(frame, log, at).frame == without_blocks(frame.drop(1))
        },
{
    if frame.stack.len() >= 1 {
        lemma_unwind_blocks_outcome(frame.drop(1), log, at);
        law_unwind_blocks_leaves_none(frame.drop(1), log, at);
    }
}

proof fn lemma_unwind_blocks_outcome(frame: FrameState, log: Seq<Event>, at: int)
    ensures
        !(unwind_blocks(frame, log, at).outcome matches Outcome::Done(Ok(_))),
    decreases frame.blocks.len(),
{
    if frame.blocks.len() > 0 {
        let rest = frame.drop_block();
        match frame.blocks.last() {
            Block::With { context_manager, .. } => match with_exit(context_manager, None, log, at) {
                Some((_, at)) => lemma_unwind_blocks_outcome(rest, log, at),
                None => {},
            },
            _ => lemma_unwind_blocks_outcome(rest, log, at),
        }
    }
}

/// Whether all blocks of a frame above the first ones are loops.
pub open spec fn only_loops_above(frame: FrameState, count: int) -> bool {
    forall|i: int| count <= i < frame.blocks.len() ==> (#[trigger] frame.blocks[i]) is Loop
}

/// A frame with its outermost blocks only.
pub open spec fn outer_blocks(frame: FrameState, count: int) -> FrameState {
    FrameState { blocks: frame.blocks.take(count), ..frame }
}

/// An exception that nothing handles ends the run. Loops handle none.
pub proof fn law_unhandled_exception_is_raised(
    frame: FrameState,
    exception: PyObjectRef,
    log: Seq<Event>,
    at: int,
)
    requires
        only_loops_above(frame, 0),
    ensures
        unwind_exception(frame, exception, log, at) == raise(
            without_blocks(frame),
            exception,
            at,
        ),
    decreases frame.blocks.len(),
{
    if frame.blocks.len() == 0 {
        assert(frame.blocks =~= Seq::empty());
    } else {
        let rest = frame.drop_block();
        assert forall|i: int| 0 <= i < rest.blocks.len() implies (
        #[trigger] rest.blocks[i]) is Loop by {
            assert(rest.blocks[i] == frame.blocks[i]);
        }
        law_unhandled_exception_is_raised(rest, exception, log, at);
    }
}

/// The innermost `except` block handles an exception, however many loops lie within it: the blocks
/// up to it are left, the exception is pushed, and the run goes on at the handler.
pub proof fn law_except_handles_exception(
    frame: FrameState,
    count: int,
    handler: Label,
    exception: PyObjectRef,
    log: Seq<Event>,
    at: int,
)
    requires
        0 <= count < frame.blocks.len(),
        frame.blocks[count] == (Block::TryExcept { handler }),
        only_loops_above(frame, count + 1),
    ensures
        unwind_exception(frame, exception, log, at) == jump(
            outer_blocks(frame, count).push(exception),
            handler,
            at,
        ),
    decreases frame.blocks.len(),
{
    let rest = frame.drop_block();
    if count == frame.blocks.len() - 1 {
        assert(frame.blocks.take(count) =~= rest.blocks);
    } else {
        assert forall|i: int| count + 1 <= i < rest.blocks.len() implies (
        #[trigger] rest.blocks[i]) is Loop by {
            assert(rest.blocks[i] == frame.blocks[i]);
        }
        law_except_handles_exception(rest, count, handler, exception, log, at);
        assert(rest.blocks.take(count) =~= frame.blocks.take(count));
    }
}

/// The innermost `with` block decides on an exception, however many loops lie within it: the blocks
/// up to it are left, and its exit is called once. Where the exit answers with a true value, the
/// exception is handled and the run goes on at the block's end. With a false value the exception
/// passes on to the blocks around it. Where the exit raises, or the truth of its answer cannot be
/// told, the new exception is raised.
pub proof fn law_with_block_decides(
    frame: FrameState,
    count: int,
    end: Label,
    context_manager: PyObjectRef,
    exception: PyObjectRef,
    exit: PyResult,
    log: Seq<Event>,
    at: int,
    after: int,
)
    requires
        0 <= count < frame.blocks.len(),
        frame.blocks[count] == (Block::With { end, context_manager }),
        only_loops_above(frame, count + 1),
        with_exit(context_manager, Some(exception), log, at) == Some((exit, after)),
    ensures
        ({
            let outer = outer_blocks(frame, count);
            let step = unwind_exception(frame, exception, log, at);
            match exit {
                Ok(action) => match truth_reply(log, after, action) {
                    Some(Ok(true)) => step == jump(outer, end, after + 1),
                    Some(Ok(false)) => step == unwind_exception(outer, exception, log, after + 1),
                    Some(Err(other)) => step == raise(outer, other, after + 1),
                    None => true,
                },
                Err(other) => step == raise(outer, other, after),
            }
        }),
    decreases frame.blocks.len(),
{
    let rest = frame.drop_block();
    if count == frame.blocks.len() - 1 {
        assert(frame.blocks.take(count) =~= rest.blocks);
    } else {
        assert forall|i: int| count + 1 <= i < rest.blocks.len() implies (
        #[trigger] rest.blocks[i]) is Loop by {
            assert(rest.blocks[i] == frame.blocks[i]);
        }
        law_with_block_decides(
            rest,
            count,
            end,
            context_manager,
            exception,
            exit,
            log,
            at,
            after,
        );
        assert(rest.blocks.take(count) =~= frame.blocks.take(count));
    }
}

/// Unwinding an exception keeps code and scope, and leaves some of the outermost blocks. Where it
/// ends in a raised exception, stack and place are kept. Where the run goes on, the innermost of
/// the blocks that are gone took the exception over: an `except` block has the exception pushed and
/// goes to its handler, and a `with` block keeps the stack and goes to its end.
pub proof fn law_unwind_exception_changes(
    frame: FrameState,
    exception: PyObjectRef,
    log: Seq<Event>,
    at: int,
)
    ensures
        ({
            let step = unwind_exception(frame, exception, log, at);
            let left = step.frame.blocks.len() as int;
            &&& same_frame(step.frame, frame)
            &&& left <= frame.blocks.len()
            &&& step.frame.blocks == frame.blocks.take(left)
            &&& step.outcome is Done ==> {
                &&& step.frame.stack == frame.stack
                &&& step.frame.lasti == frame.lasti
            }
            &&& step.outcome == Outcome::Next ==> {
                &&& left < frame.blocks.len()
                &&& match frame.blocks[left] {
                    Block::Loop { .. } => false,
                    Block::TryExcept { handler } => {
                        &&& frame.code.label_map@.contains_key(handler)
                        &&& step.frame.lasti == frame.code.label_map@[handler]
                        &&& step.frame.stack == frame.stack.push(exception)
                    },
                    Block::With { end, .. } => {
                        &&& frame.code.label_map@.contains_key(end)
                        &&& step.frame.lasti == frame.code.label_map@[end]
                        &&& step.frame.stack == frame.stack
                    },
                }
            }
        }),
    decreases frame.blocks.len(),
{
    let step = unwind_exception(frame, exception, log, at);
    let left = step.frame.blocks.len() as int;
    if frame.blocks.len() == 0 {
        assert(frame.blocks.take(0) =~= frame.blocks);
    } else {
        let rest = frame.drop_block();
        assert(frame.blocks.take(frame.blocks.len() - 1) =~= rest.blocks);
        assert(frame.blocks.take(frame.blocks.len() as int) =~= frame.blocks);
        match frame.blocks.last() {
            Block::Loop { .. } => {
                law_unwind_exception_changes(rest, exception, log, at);
                assert(rest.blocks.take(left) =~= frame.blocks.take(left));
            },
            Block::TryExcept { .. } => {},
            Block::With { context_manager, .. } => match with_exit(
                context_manager,
                Some(exception),
                log,
                at,
            ) {
                Some((Ok(action), at)) => if truth_reply(log, at, action) == Some(
                    Ok::<bool, PyObjectRef>(false),
                ) {
                    law_unwind_exception_changes(rest, exception, log, at + 1);
                    assert(rest.blocks.take(left) =~= frame.blocks.take(left));
                },
                _ => {},
            },
        }
    }
}

/// The place after leaving all blocks above the first ones, where they are `except` blocks and
/// `with` blocks and no exit raises an exception.
pub open spec fn quietly_left(frame: FrameState, count: int, log: Seq<Event>, at: int) -> Option<
    int,
>
    decreases frame.blocks.len(),
{
    if frame.blocks.len() <= count || frame.blocks.len() == 0 {
        Some(at)
    } else {
        match frame.blocks.last() {
            Block::Loop { .. } => None,
            Block::TryExcept { .. } => quietly_left(frame.drop_block(), count, log, at),
            Block::With { context_manager, .. } => match with_exit(context_manager, None, log, at) {
                Some((Ok(_), at)) => quietly_left(frame.drop_block(), count, log, at),
                _ => None,
            },
        }
    }
}

/// A `break` goes to the end of the innermost loop and a `continue` to its start, however many
/// `except` blocks, and `with` blocks whose exits do not raise, lie within the loop. The loop's
/// block is left, and the stack is kept.
pub proof fn law_break_and_continue(
    frame: FrameState,
    count: int,
    start: Label,
    end: Label,
    log: Seq<Event>,
    at: int,
    after: int,
)
    requires
        0 <= count < frame.blocks.len(),
        frame.blocks[count] == (Block::Loop { start, end }),
        quietly_left(frame, count + 1, log, at) == Some(after),
    ensures
        execute(frame, Instruction::Break, log, at) == jump(
            outer_blocks(frame, count),
            end,
            after,
        ),
        execute(frame, Instruction::Continue, log, at) == jump(
            outer_blocks(frame, count),
            start,
            after,
        ),
{
    lemma_unwind_loop_finds(frame, count, start, end, log, at, after);
}

proof fn lemma_unwind_loop_finds(
    frame: FrameState,
    count: int,
    start: Label,
    end: Label,
    log: Seq<Event>,
    at: int,
    after: int,
)
    requires
        0 <= count < frame.blocks.len(),
        frame.blocks[count] == (Block::Loop { start, end }),
        quietly_left(frame, count + 1, log, at) == Some(after),
    ensures
        unwind_loop(frame, log, at) == Some(
            (outer_blocks(frame, count), Ok::<(Label, Label), Fault>((start, end)), after),
        ),
    decreases frame.blocks.len(),
{
    let rest = frame.drop_block();
    if count == frame.blocks.len() - 1 {
        assert(frame.blocks.take(count) =~= rest.blocks);
    } else {
        match frame.blocks.last() {
            Block::With { context_manager, .. } => match with_exit(context_manager, None, log, at) {
                Some((_, at)) => lemma_unwind_loop_finds(
                    rest,
                    count,
                    start,
                    end,
                    log,
                    at,
                    after,
                ),
                None => {},
            },
            _ => lemma_unwind_loop_finds(rest, count, start, end, log, at, after),
        }
        assert(rest.blocks.take(count) =~= frame.blocks.take(count));
    }
}

/// A yield hands out the topmost value and keeps all else, so that the run can go on behind it.
pub proof fn law_yield_keeps_frame(frame: FrameState, log: Seq<Event>, at: int)
    requires
        frame.stack.len() >= 1,
    ensures
        execute(frame, Instruction::YieldValue, log, at) == (Step {
            frame: frame.drop(1),
            outcome: Outcome::Done(Ok(ExecutionResult::Yield(frame.nth(0)))),
            at,
        }),
        frame.drop(1).push(frame.nth(0)) == frame,
{
    assert(frame.drop(1).push(frame.nth(0)).stack =~= frame.stack);
}

/// A return is what ends a run with a value, and it comes from a return instruction.
#[verifier::spinoff_prover]
#[verifier::rlimit(60)]
proof fn lemma_return_instruction(
    frame: FrameState,
    instruction: Instruction,
    log: Seq<Event>,
    at: int,
)
    ensures
        execute(frame, instruction, log, at).outcome matches Outcome::Done(
            Ok(ExecutionResult::Return(_)),
        ) ==> instruction == Instruction::ReturnValue,
{
    match instruction {
        Instruction::LoadName { name } => lemma_lookup_outcome(
            frame,
            name@,
            frame.locals,
            usize::MAX as nat,
            log,
            at,
        ),
        _ => {},
    }
}

proof fn lemma_lookup_outcome(
    frame: FrameState,
    name: Seq<char>,
    scope: PyObjectRef,
    depth: nat,
    log: Seq<Event>,
    at: int,
)
    ensures
        !(lookup(frame, name, scope, depth, log, at).outcome matches Outcome::Done(Ok(_))),
    decreases depth,
{
    if depth > 0 {
        match object_reply(log, at + 2, Request::GetParent { scope }) {
            Some(parent) => lemma_lookup_outcome(
                frame,
                name,
                parent,
                (depth - 1) as nat,
                log,
                at + 3,
            ),
            None => {},
        }
    }
}

proof fn lemma_unwind_exception_outcome(
    frame: FrameState,
    exception: PyObjectRef,
    log: Seq<Event>,
    at: int,
)
    ensures
        !(unwind_exception(frame, exception, log, at).outcome matches Outcome::Done(Ok(_))),
    decreases frame.blocks.len(),
{
    if frame.blocks.len() > 0 {
        let rest = frame.drop_block();
        match frame.blocks.last() {
            Block::With { context_manager, .. } => match with_exit(
                context_manager,
                Some(exception),
                log,
                at,
            ) {
                Some((_, at)) => lemma_unwind_exception_outcome(rest, exception, log, at + 1),
                None => {},
            },
            _ => lemma_unwind_exception_outcome(rest, exception, log, at),
        }
    }
}

/// A run that ends in a return leaves no block.
pub proof fn law_returned_run_leaves_no_block(
    frame: FrameState,
    turns: nat,
    log: Seq<Event>,
    at: int,
)
    ensures
        run(frame, turns, log, at).outcome matches Outcome::Done(
            Ok(ExecutionResult::Return(_)),
        ) ==> run(frame, turns, log, at).frame.blocks.len() == 0,
    decreases turns,
{
    if turns > 0 {
        let step = turn(frame, log, at);
        law_returned_run_leaves_no_block(step.frame, (turns - 1) as nat, log, step.at);
        if has_instruction(frame) {
            let fetched = frame.goto(frame.lasti + 1);
            lemma_return_instruction(fetched, frame.code.instructions@[frame.lasti], log, at);
            law_return_gives_top(fetched, log, at);
        }
        let executed = execute_next(frame, log, at);
        match executed.outcome {
            Outcome::Done(Err(exception)) => match add_traceback(
                frame.code,
                frame.code.locations@[frame.lasti].row,
                exception,
                log,
                executed.at,
            ) {
                Some((None, at)) => lemma_unwind_exception_outcome(
                    executed.frame,
                    exception,
                    log,
                    at,
                ),
                _ => {},
            },
            _ => {},
        }
    }
}

/// Of a jump on truth and a jump on falsehood exactly one jumps, whichever way the machine takes
/// the value. Both take the value off the stack.
pub proof fn law_one_of_two_jumps(
    frame: FrameState,
    target: Label,
    value: bool,
    log: Seq<Event>,
    at: int,
)
    requires
        frame.stack.len() >= 1,
        frame.code.label_map@.contains_key(target),
        truth_reply(log, at, frame.nth(0)) == Some(Ok::<bool, PyObjectRef>(value)),
    ensures
        ({
            let gone = frame.drop(1).goto(frame.code.label_map@[target] as int);
            let stayed = frame.drop(1);
            &&& execute(frame, Instruction::JumpIf { target }, log, at) == next(
                if value {
                    gone
                } else {
                    stayed
                },
                at + 1,
            )
            &&& execute(frame, Instruction::JumpIfFalse { target }, log, at) == next(
                if value {
                    stayed
                } else {
                    gone
                },
                at + 1,
            )
        }),
{
}

/// A test of identity asks for the truth value that says whether the two are one object, and its
/// negation for the negated one. Neither can fail.
pub proof fn law_is_not_negates_is(frame: FrameState, log: Seq<Event>, at: int)
    requires
        frame.stack.len() >= 2,
    ensures
        ({
            let same = frame.nth(1) == frame.nth(0);
            &&& compare(frame, ComparisonOperator::Is, log, at) == push_new(
                frame.drop(2),
                log,
                at,
                Request::NewBool { value: same },
            )
            &&& compare(frame, ComparisonOperator::IsNot, log, at) == push_new(
                frame.drop(2),
                log,
                at,
                Request::NewBool { value: !same },
            )
        }),
        compare(frame, ComparisonOperator::Is, log, at).outcome is Next || compare(
            frame,
            ComparisonOperator::Is,
            log,
            at,
        ).outcome is Stuck,
        compare(frame, ComparisonOperator::IsNot, log, at).outcome is Next || compare(
            frame,
            ComparisonOperator::IsNot,
            log,
            at,
        ).outcome is Stuck,
{
}

/// A test of membership gives what the container answers, and its negation asks for the negated
/// truth value. Where the container raises, both say the same, whatever it raised: that its type
/// has no such method.
pub proof fn law_not_in_negates_in(frame: FrameState, log: Seq<Event>, at: int)
    requires
        frame.stack.len() >= 2,
    ensures
        ({
            let rest = frame.drop(2);
            let test_in = compare(frame, ComparisonOperator::In, log, at);
            let test_not_in = compare(frame, ComparisonOperator::NotIn, log, at);
            match result_reply(log, at, membership(frame.nth(1), frame.nth(0))) {
                Some(Ok(found)) => {
                    &&& test_in == next(rest.push(found), at + 1)
                    &&& match reply(log, at + 1, Request::BoolValue { obj: found }) {
                        Some(Reply::MaybeFlag(Some(value))) => test_not_in == push_new(
                            rest,
                            log,
                            at + 2,
                            Request::NewBool { value: !value },
                        ),
                        _ => true,
                    }
                },
                Some(Err(_)) => {
                    &&& test_in == test_not_in
                    &&& match object_reply(log, at + 1, Request::TypeOf { obj: frame.nth(0) }) {
                        Some(typ) => match text_reply(log, at + 2, Request::TypeName { typ }) {
                            Some(name) => test_in == raise_new(
                                rest,
                                log,
                                at + 3,
                                ExceptionType::TypeError,
                                name + " has no __contains__ method"@,
                            ),
                            None => true,
                        },
                        None => true,
                    }
                },
                None => true,
            }
        }),
{
}

/// Whether an exchange gives back the elements of a tuple that an earlier one made.
pub open spec fn keeps_tuple(earlier: Event, later: Event) -> bool {
    match (earlier.request, earlier.reply, later.request) {
        (Request::NewTuple { elements }, Reply::Object(made), Request::Elements { obj }) => made
            == obj ==> later.reply == Reply::Objects(Some(elements)),
        _ => true,
    }
}

/// Whether the machine keeps the elements of the tuples that it was asked to make.
pub open spec fn keeps_tuples(log: Seq<Event>) -> bool {
    forall|i: int, j: int|
        0 <= i < j < log.len() ==> #[trigger] keeps_tuple(log[i], log[j])
}

/// Where the machine keeps tuples, building a tuple of the topmost values and unpacking it again
/// turns these values round.
pub proof fn law_unpacked_tuple_is_reversed(
    frame: FrameState,
    size: usize,
    log: Seq<Event>,
    at: int,
)
    requires
        frame.stack.len() >= size,
        keeps_tuples(log),
    ensures
        ({
            let built = execute(frame, Instruction::BuildTuple { size }, log, at);
            let unpacked = execute(
                built.frame,
                Instruction::UnpackSequence { size },
                log,
                built.at,
            );
            built.outcome == Outcome::Next && unpacked.outcome != Outcome::Stuck ==> unpacked
                == next(
                frame.drop(size as int).extend(frame.top(size as int).reverse()),
                at + 2,
            )
        }),
{
    let elements = frame.top(size as int);
    let built = execute(frame, Instruction::BuildTuple { size }, log, at);
    match object_reply(log, at, Request::NewTuple { elements }) {
        Some(obj) => {
            assert(built.frame.drop(1).stack =~= frame.drop(size as int).stack);
            assert(built.frame.nth(0) == obj);
            if reply(log, at + 1, Request::Elements { obj }) is Some {
                assert(keeps_tuple(log[at], log[at + 1]));
            }
        },
        None => {},
    }
}

/// Whether two exchanges that look a name up find what the exchange before them bound.
pub open spec fn keeps_name(bound: Event, test: Event, found: Event) -> bool {
    match bound.request {
        Request::SetItem { scope, name, value } => {
            &&& test.request == (Request::ContainsKey { scope, name }) ==> test.reply
                == Reply::Flag(true)
            &&& test.request == (Request::ContainsKey { scope, name }) && found.request == (
            Request::GetItem { scope, name }) ==> found.reply == Reply::MaybeObject(Some(value))
        },
        _ => true,
    }
}

/// Whether the machine, right after binding a name in a scope, finds it there again.
pub open spec fn keeps_names(log: Seq<Event>) -> bool {
    forall|i: int|
        0 <= i < log.len() - 2 ==> #[trigger] keeps_name(log[i], log[i + 1], log[i + 2])
}

/// Where the machine keeps names, loading a name that was just stored gives the same object,
/// whatever the name was bound to before, and leaves the frame as it was before it was stored.
pub proof fn law_stored_name_is_loaded(
    frame: FrameState,
    name: Seq<char>,
    log: Seq<Event>,
    at: int,
)
    requires
        frame.stack.len() >= 1,
        keeps_names(log),
    ensures
        ({
            let stored = store_name(frame, name, log, at);
            let loaded = load_name(stored.frame, name, log, stored.at);
            stored.outcome == Outcome::Next && loaded.outcome != Outcome::Stuck ==> loaded == next(
                frame,
                at + 3,
            )
        }),
{
    let value = frame.nth(0);
    let stored = store_name(frame, name, log, at);
    if stored.outcome == Outcome::Next {
        assert(stored.frame.push(value).stack =~= frame.stack);
        if at + 2 < log.len() {
            assert(keeps_name(log[at], log[at + 1], log[at + 2]));
        }
    }
}

/// Whether an exchange gives back the code of an object that an earlier one made.
pub open spec fn keeps_one_code(earlier: Event, later: Event) -> bool {
    match (earlier.request, earlier.reply, later.request) {
        (Request::NewCode { code }, Reply::Object(made), Request::Kind { obj }) => made == obj
            ==> later.reply == Reply::Kind(PyObjectKind::Code { code }),
        _ => true,
    }
}

/// Whether the machine keeps the code of the code objects that it was asked to make.
pub open spec fn keeps_code(log: Seq<Event>) -> bool {
    forall|i: int, j: int|
        0 <= i < j < log.len() ==> #[trigger] keeps_one_code(log[i], log[j])
}

/// Where the machine keeps code, the code that is copied out of the object of a code constant is
/// the code of the constant.
pub proof fn law_code_constant_is_copied_out(
    code: CodeObject,
    object: PyObjectRef,
    log: Seq<Event>,
    at: int,
    after: int,
    later: int,
)
    requires
        keeps_code(log),
        constant(Constant::Code { code: Box::new(code) }, log, at) == Some((object, after)),
        after <= later,
    ensures
        copied_code(log, later, object) matches Some(copied) ==> copied == Ok::<CodeObject, Fault>(
            code,
        ),
{
    if reply(log, later, Request::Kind { obj: object }) is Some {
        assert(keeps_one_code(log[at], log[later]));
    }
}

} // verus!
