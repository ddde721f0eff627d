//! Frames: one activation of a piece of code, with its stack, its blocks and its scope.
use vstd::prelude::*;

use crate::bytecode::{
    BinaryOperator, CodeObject, ComparisonOperator, Constant, FunctionOpArg, Instruction, Label,
    UnaryOperator,
};
use crate::laws::law_turn_keeps_code_and_scope;
use crate::location::Location;
use crate::pyobject::{
    dict_of, distinct_keys, insert_entry, named, texts, ExceptionType, PyFuncArgs, PyObjectKind,
    PyObjectRef, PyResult,
};
use crate::semantics;
use crate::semantics::{agrees, FrameState, Outcome};
use crate::text::decimal_text;
use crate::vm::{continues, Event, ImportDirectory, Reply, Request, VirtualMachine};

verus! {

/// A region of code that is left in its own way.
#[derive(Clone, Copy, Debug, PartialEq, Eq, Structural)]
pub enum Block {
    Loop { start: Label, end: Label },
    TryExcept { handler: Label },
    With { end: Label, context_manager: PyObjectRef },
}

/// Why a run cannot go on at all: the code, or an object that the machine handed out, is not
/// what an instruction needs.
#[derive(Clone, Copy, Debug, PartialEq, Eq, Structural)]
pub enum Fault {
    /// The run left the code.
    NoInstruction,
    /// The instruction has no place in the source.
    NoLocation,
    /// An instruction needs more values than there are on the stack.
    StackUnderflow,
    /// The code does not say where a label leads.
    UnknownLabel,
    /// Must be a code object.
    NotCode,
    /// Can only rotate two or more values.
    BadRotate,
    /// Only strings can be keys of a dictionary.
    KeyNotString,
    /// A slice has two or three bounds.
    BadSliceSize,
    /// A bound of a slice is an integer or `None`.
    BadSliceBound,
    /// There is no block left.
    NoBlock,
    /// The innermost block is not the expected one.
    WrongBlock,
    /// No block to break out of or to continue.
    NoLoop,
    /// Leaving a loop, the exit of a `with` block raised an exception.
    ExitRaised(PyObjectRef),
    /// A raise takes exactly one value.
    RaiseArity,
    /// An exception has to derive from the base of all exceptions.
    NotException,
    /// An exception's traceback could not be read or extended.
    TracebackRaised(PyObjectRef),
    /// The locals of a frame have to be a scope.
    NotScope,
    /// The variables of a scope have to be a dictionary.
    NotDict,
    /// A name was there and then was not.
    NameVanished,
    /// Scopes are nested more deeply than a number can say.
    ScopesTooDeep,
    /// Only a tuple or a list can be unpacked.
    NotSequence,
    /// The names of keyword arguments are strings.
    NotString,
    /// There are more names than arguments.
    MissingArguments,
    /// A representation could not be made.
    ReprRaised(PyObjectRef),
    /// A value could not be printed.
    PrintRaised(PyObjectRef),
    /// Only numbers can be negated.
    NotNumeric,
    /// The negated integer does not fit.
    IntegerOverflow,
    /// The operator is not implemented.
    UnsupportedOperator,
    /// A membership test did not answer with a truth value.
    NotBoolean,
    /// More targets than a number can say.
    UnpackOverflow,
    /// A function yielded where it had to return.
    UnexpectedYield,
    /// The run took more turns than a number can say.
    TooManyTurns,
}

/// How the run of a frame can end.
#[derive(Clone, Copy, Debug, PartialEq, Eq, Structural)]
pub enum ExecutionResult {
    Return(PyObjectRef),
    Yield(PyObjectRef),
}

/// A valid execution result, or an exception.
pub type FrameResult = Result<ExecutionResult, PyObjectRef>;

/// What a piece of a run gives: nothing where the run goes on, or its result.
pub type StepResult = Result<Option<FrameResult>, Fault>;

/// One activation of a piece of code.
pub struct Frame {
    pub code: CodeObject,
    stack: Vec<PyObjectRef>,
    blocks: Vec<Block>,
    /// The scope that names are looked up in.
    pub locals: PyObjectRef,
    /// The index of the next instruction.
    pub lasti: usize,
}

impl View for Frame {
    type V = FrameState;

    closed spec fn view(&self) -> FrameState {
        FrameState {
            code: self.code,
            stack: self.stack@,
            blocks: self.blocks@,
            locals: self.locals,
            lasti: self.lasti as int,
        }
    }
}

/// The code that an object holds.
pub fn copy_code<V: VirtualMachine>(vm: &mut V, code_obj: PyObjectRef) -> (result: Result<
    CodeObject,
    Fault,
>)
    ensures
        final(vm).log().len() == old(vm).log().len() + 1,
        continues(final(vm).log(), old(vm).log()),
        semantics::copied_code(final(vm).log(), old(vm).log().len() as int, code_obj) == Some(
            result,
        ),
{
    match vm.kind(code_obj) {
        PyObjectKind::Code { code } => Ok(code),
        _ => Err(Fault::NotCode),
    }
}

/// A copy of an optional name.
fn clone_symbol(symbol: &Option<String>) -> (copy: Option<String>)
    ensures
        copy == *symbol,
{
    match symbol {
        Some(symbol) => Some(symbol.clone()),
        None => None,
    }
}

/// A list of one object.
fn one(a: PyObjectRef) -> (list: Vec<PyObjectRef>)
    ensures
        list@ == seq![a],
{
    let mut list: Vec<PyObjectRef> = Vec::new();
    list.push(a);
    list
}

/// A list of three objects.
fn three(a: PyObjectRef, b: PyObjectRef, c: PyObjectRef) -> (list: Vec<PyObjectRef>)
    ensures
        list@ == seq![a, b, c],
{
    let mut list: Vec<PyObjectRef> = Vec::new();
    list.push(a);
    list.push(b);
    list.push(c);
    list
}

/// A block as text.
fn block_text<V: VirtualMachine>(vm: &mut V, block: Block) -> (text: String)
    ensures
        continues(final(vm).log(), old(vm).log()),
        forall|log: Seq<Event>|
            #![trigger semantics::block_text(block, log, old(vm).log().len() as int)]
            continues(log, final(vm).log()) ==> semantics::block_text(
                block,
                log,
                old(vm).log().len() as int,
            ) == Some((text@, final(vm).log().len() as int)),
{
    match block {
        Block::Loop { start, end } => {
            let mut text = String::from_str("Loop { start: ");
            text.append(decimal_text(start).as_str());
            text.append(", end: ");
            text.append(decimal_text(end).as_str());
            text.append(" }");
            text
        },
        Block::TryExcept { handler } => {
            let mut text = String::from_str("TryExcept { handler: ");
            text.append(decimal_text(handler).as_str());
            text.append(" }");
            text
        },
        Block::With { end, context_manager } => {
            let shown = vm.debug_text(context_manager);
            let mut text = String::from_str("With { end: ");
            text.append(decimal_text(end).as_str());
            text.append(", context_manager: ");
            text.append(shown.as_str());
            text.append(" }");
            text
        },
    }
}

/// Once a bound cannot be read, the ones after it are not looked at.
proof fn lemma_bounds_stop(objects: Seq<PyObjectRef>, count: int, log: Seq<Event>, at: int)
    requires
        0 <= count <= objects.len(),
        semantics::bounds(objects.take(count), log, at) matches Some((Err(_), _)),
    ensures
        semantics::bounds(objects, log, at) == semantics::bounds(objects.take(count), log, at),
    decreases objects.len(),
{
    if count == objects.len() {
        assert(objects.take(count) =~= objects);
    } else {
        assert(objects.drop_last().take(count) =~= objects.take(count));
        lemma_bounds_stop(objects.drop_last(), count, log, at);
    }
}

/// Once a name cannot be read, the ones after it are not looked at.
proof fn lemma_names_stop(objects: Seq<PyObjectRef>, count: int, log: Seq<Event>, at: int)
    requires
        0 <= count <= objects.len(),
        semantics::names(objects.take(count), log, at) matches Some((Err(_), _)),
    ensures
        semantics::names(objects, log, at) == semantics::names(objects.take(count), log, at),
    decreases objects.len(),
{
    if count == objects.len() {
        assert(objects.take(count) =~= objects);
    } else {
        assert(objects.drop_last().take(count) =~= objects.take(count));
        lemma_names_stop(objects.drop_last(), count, log, at);
    }
}

impl Frame {
    /// A frame that has not run yet. Its variables live in the given scope.
    pub fn new<V: VirtualMachine>(
        vm: &mut V,
        code: PyObjectRef,
        globals: PyObjectRef,
    ) -> (result: Result<Frame, Fault>)
        ensures
            final(vm).log().len() == old(vm).log().len() + 1,
            continues(final(vm).log(), old(vm).log()),
            match semantics::kind_reply(final(vm).log(), old(vm).log().len() as int, code) {
                Some(PyObjectKind::Code { code }) => result matches Ok(frame) && frame@ == (
                FrameState { code, stack: seq![], blocks: seq![], locals: globals, lasti: 0 }),
                Some(_) => result matches Err(fault) && fault == Fault::NotCode,
                None => false,
            },
    {
        match copy_code(vm, code) {
            Ok(code) => Ok(
                Frame { code, stack: Vec::new(), blocks: Vec::new(), locals: globals, lasti: 0 },
            ),
            Err(fault) => Err(fault),
        }
    }

    /// The code that the frame runs.
    pub fn get_code(&self) -> (code: &CodeObject)
        ensures
            *code == self@.code,
    {
        &self.code
    }

    /// The scope that names are looked up in.
    pub fn get_locals(&self) -> (locals: PyObjectRef)
        ensures
            locals == self@.locals,
    {
        self.locals
    }

    /// The index of the next instruction.
    pub fn get_lasti(&self) -> (lasti: usize)
        ensures
            lasti == self@.lasti,
    {
        self.lasti
    }

    /// The number of values on the stack.
    pub fn value_count(&self) -> (count: usize)
        ensures
            count == self@.stack.len(),
    {
        self.stack.len()
    }

    /// The number of blocks that were entered and not left.
    pub fn block_count(&self) -> (count: usize)
        ensures
            count == self@.blocks.len(),
    {
        self.blocks.len()
    }

    /// Steps over the next instruction and shows it.
    pub fn fetch_instruction(&mut self) -> (instruction: &Instruction)
        requires
            semantics::has_instruction(old(self)@),
        ensures
            *instruction == old(self)@.code.instructions@[old(self)@.lasti],
            final(self)@ == old(self)@.goto(old(self)@.lasti + 1),
    {
        let at = self.lasti;
        assert(at < self.code.instructions.len());
        self.lasti = at + 1;
        &self.code.instructions[at]
    }

    /// The place in the source that the next instruction was compiled from.
    pub fn get_lineno(&self) -> (location: Location)
        requires
            0 <= self@.lasti < self@.code.locations@.len(),
        ensures
            location == self@.code.locations@[self@.lasti],
    {
        self.code.locations[self.lasti]
    }

    pub fn push_value(&mut self, obj: PyObjectRef)
        ensures
            final(self)@ == old(self)@.push(obj),
    {
        self.stack.push(obj);
    }

    /// Takes the topmost value off the stack.
    pub fn pop_value(&mut self) -> (value: PyObjectRef)
        requires
            old(self)@.stack.len() >= 1,
        ensures
            value == old(self)@.nth(0),
            final(self)@ == old(self)@.drop(1),
    {
        let value = self.stack.pop().unwrap();
        assert(self@.stack =~= old(self)@.drop(1).stack);
        value
    }

    /// Takes values off the stack, and gives them in the order in which they were pushed.
    pub fn pop_multiple(&mut self, count: usize) -> (objs: Vec<PyObjectRef>)
        requires
            old(self)@.stack.len() >= count,
        ensures
            objs@ == old(self)@.top(count as int),
            final(self)@ == old(self)@.drop(count as int),
    {
        let keep = self.stack.len() - count;
        let objs = self.stack.split_off(keep);
        assert(objs@ =~= old(self)@.top(count as int));
        assert(self@.stack =~= old(self)@.drop(count as int).stack);
        objs
    }

    /// The topmost value.
    pub fn last_value(&self) -> (value: PyObjectRef)
        requires
            self@.stack.len() >= 1,
        ensures
            value == self@.nth(0),
    {
        self.stack[self.stack.len() - 1]
    }

    /// The value under `depth` other ones.
    pub fn nth_value(&self, depth: usize) -> (value: PyObjectRef)
        requires
            depth < self@.stack.len(),
        ensures
            value == self@.nth(depth as int),
    {
        self.stack[self.stack.len() - depth - 1]
    }

    pub fn push_block(&mut self, block: Block)
        ensures
            final(self)@ == old(self)@.push_block(block),
    {
        self.blocks.push(block);
    }

    /// Takes the innermost block off, if there is one.
    pub fn pop_block(&mut self) -> (block: Option<Block>)
        ensures
            final(self)@ == old(self)@.pop_block(),
            block == (if old(self)@.blocks.len() == 0 {
                None
            } else {
                Some(old(self)@.blocks.last())
            }),
    {
        let block = self.blocks.pop();
        assert(self@.blocks =~= old(self)@.pop_block().blocks);
        block
    }

    /// The innermost block.
    pub fn last_block(&self) -> (block: Block)
        requires
            self@.blocks.len() >= 1,
        ensures
            block == self@.blocks.last(),
    {
        self.blocks[self.blocks.len() - 1]
    }

    /// Goes to the instruction that a label stands for.
    fn jump(&mut self, label: Label) -> (result: StepResult)
        ensures
            forall|at: int| agrees(#[trigger] semantics::jump(old(self)@, label, at), final(self)@, result, at),
    {
        broadcast use vstd::std_specs::hash::group_hash_axioms;
        match self.code.label_map.get(&label) {
            Some(target) => {
                let target: usize = *target;
                self.lasti = target;
                Ok(None)
            },
            None => Err(Fault::UnknownLabel),
        }
    }

    fn with_exit<V: VirtualMachine>(
        &mut self,
        vm: &mut V,
        context_manager: PyObjectRef,
        exc: Option<PyObjectRef>,
    ) -> (result: PyResult)
        ensures
            *final(self) == *old(self),
            continues(final(vm).log(), old(vm).log()),
            forall|log: Seq<Event>|
                #![trigger semantics::with_exit(
                    context_manager,
                    exc,
                    log,
                    old(vm).log().len() as int,
                )]
                continues(log, final(vm).log()) ==> semantics::with_exit(
                    context_manager,
                    exc,
                    log,
                    old(vm).log().len() as int,
                ) == Some((result, final(vm).log().len() as int)),
    {
        let args = match exc {
            Some(exc) => {
                let exc_type = vm.type_of(exc);
                let exc_tb = vm.none();
                three(exc_type, exc, exc_tb)
            },
            None => {
                let exc_type = vm.none();
                let exc_val = vm.none();
                let exc_tb = vm.none();
                three(exc_type, exc_val, exc_tb)
            },
        };
        vm.call_method(context_manager, "__exit__", args)
    }

    /// Leaves all blocks. Gives the exception that an exit raised.
    fn unwind_blocks<V: VirtualMachine>(
        &mut self,
        vm: &mut V,
    ) -> (result: Option<PyObjectRef>)
        ensures
            continues(final(vm).log(), old(vm).log()),
            forall|log: Seq<Event>|
                #![trigger semantics::unwind_blocks(old(self)@, log, old(vm).log().len() as int)]
                continues(log, final(vm).log()) ==> agrees(
                    semantics::unwind_blocks(old(self)@, log, old(vm).log().len() as int),
                    final(self)@,
                    match result {
                        None => Ok(None),
                        Some(exception) => Ok(Some(Err(exception))),
                    },
                    final(vm).log().len() as int,
                ),
    {
        let ghost before = vm.log();
        let ghost at = before.len() as int;
        loop
            invariant
                before == old(vm).log(),
                at == before.len(),
                continues(vm.log(), before),
                forall|log: Seq<Event>|
                    #![trigger semantics::unwind_blocks(old(self)@, log, at)]
                    continues(log, vm.log()) ==> semantics::unwind_blocks(old(self)@, log, at)
                        == semantics::unwind_blocks(self@, log, vm.log().len() as int),
            decreases self@.blocks.len(),
        {
            let ghost frame = self@;
            let ghost mid = vm.log();
            let ghost here = mid.len() as int;
            match self.pop_block() {
                Some(Block::With { end: _, context_manager }) => match self.with_exit(
                    vm,
                    context_manager,
                    None,
                ) {
                    Ok(_) => {
                        proof {
                            assert forall|log: Seq<Event>|
                                #![trigger semantics::unwind_blocks(old(self)@, log, at)]
                                continues(log, vm.log()) implies semantics::unwind_blocks(
                                old(self)@,
                                log,
                                at,
                            ) == semantics::unwind_blocks(self@, log, vm.log().len() as int) by {
                                assert(continues(log, mid));
                                assert(semantics::unwind_blocks(old(self)@, log, at)
                                    == semantics::unwind_blocks(frame, log, here));
                                assert(semantics::with_exit(context_manager, None, log, here) is Some);
                            }
                        }
                    },
                    Err(exc) => {
                        proof {
                            assert forall|log: Seq<Event>|
                                #![trigger semantics::unwind_blocks(old(self)@, log, at)]
                                continues(log, vm.log()) implies semantics::unwind_blocks(
                                old(self)@,
                                log,
                                at,
                            ) == semantics::unwind_blocks(frame, log, here) by {
                                assert(continues(log, mid));
                                assert(semantics::unwind_blocks(old(self)@, log, at)
                                    == semantics::unwind_blocks(frame, log, here));
                                assert(semantics::with_exit(context_manager, None, log, here) is Some);
                            }
                        }
                        return Some(exc);
                    },
                },
                Some(_) => {},
                None => {
                    return None;
                },
            }
        }
    }

    /// Leaves the blocks within the innermost loop, and the loop: gives its block.
    fn unwind_loop<V: VirtualMachine>(&mut self, vm: &mut V) -> (result: Result<Block, Fault>)
        ensures
            continues(final(vm).log(), old(vm).log()),
            result matches Ok(block) ==> block is Loop,
            forall|log: Seq<Event>|
                #![trigger semantics::unwind_loop(old(self)@, log, old(vm).log().len() as int)]
                continues(log, final(vm).log()) ==> semantics::unwind_loop(
                    old(self)@,
                    log,
                    old(vm).log().len() as int,
                ) == Some(
                    (
                        final(self)@,
                        match result {
                            Ok(block) => Ok((block->start, block->Loop_end)),
                            Err(fault) => Err(fault),
                        },
                        final(vm).log().len() as int,
                    ),
                ),
    {
        let ghost before = vm.log();
        let ghost at = before.len() as int;
        loop
            invariant
                before == old(vm).log(),
                at == before.len(),
                continues(vm.log(), before),
                forall|log: Seq<Event>|
                    #![trigger semantics::unwind_loop(old(self)@, log, at)]
                    continues(log, vm.log()) ==> semantics::unwind_loop(old(self)@, log, at)
                        == semantics::unwind_loop(self@, log, vm.log().len() as int),
            decreases self@.blocks.len(),
        {
            let ghost frame = self@;
            let ghost mid = vm.log();
            let ghost here = mid.len() as int;
            match self.pop_block() {
                Some(Block::Loop { start, end }) => {
                    return Ok(Block::Loop { start, end });
                },
                Some(Block::TryExcept { handler: _ }) => {},
                Some(Block::With { end: _, context_manager }) => match self.with_exit(
                    vm,
                    context_manager,
                    None,
                ) {
                    Ok(_) => {
                        proof {
                            assert forall|log: Seq<Event>|
                                #![trigger semantics::unwind_loop(old(self)@, log, at)]
                                continues(log, vm.log()) implies semantics::unwind_loop(
                                old(self)@,
                                log,
                                at,
                            ) == semantics::unwind_loop(self@, log, vm.log().len() as int) by {
                                assert(continues(log, mid));
                                assert(semantics::unwind_loop(old(self)@, log, at)
                                    == semantics::unwind_loop(frame, log, here));
                                assert(semantics::with_exit(context_manager, None, log, here) is Some);
                            }
                        }
                    },
                    Err(exc) => {
                        proof {
                            assert forall|log: Seq<Event>|
                                #![trigger semantics::unwind_loop(old(self)@, log, at)]
                                continues(log, vm.log()) implies semantics::unwind_loop(
                                old(self)@,
                                log,
                                at,
                            ) == semantics::unwind_loop(frame, log, here) by {
                                assert(continues(log, mid));
                                assert(semantics::unwind_loop(old(self)@, log, at)
                                    == semantics::unwind_loop(frame, log, here));
                                assert(semantics::with_exit(context_manager, None, log, here) is Some);
                            }
                        }
                        return Err(Fault::ExitRaised(exc));
                    },
                },
                None => {
                    return Err(Fault::NoLoop);
                },
            }
        }
    }

    /// Leaves blocks up to one that handles the exception. Gives the exception that is left.
    pub fn unwind_exception<V: VirtualMachine>(
        &mut self,
        vm: &mut V,
        exc: PyObjectRef,
    ) -> (result: Result<
        Option<PyObjectRef>,
        Fault,
    >)
        ensures
            continues(final(vm).log(), old(vm).log()),
            forall|log: Seq<Event>|
                #![trigger semantics::unwind_exception(
                    old(self)@,
                    exc,
                    log,
                    old(vm).log().len() as int,
                )]
                continues(log, final(vm).log()) ==> agrees(
                    semantics::unwind_exception(old(self)@, exc, log, old(vm).log().len() as int),
                    final(self)@,
                    match result {
                        Ok(None) => Ok(None),
                        Ok(Some(exception)) => Ok(Some(Err(exception))),
                        Err(fault) => Err(fault),
                    },
                    final(vm).log().len() as int,
                ),
    {
        let ghost before = vm.log();
        let ghost at = before.len() as int;
        loop
            invariant
                before == old(vm).log(),
                at == before.len(),
                continues(vm.log(), before),
                forall|log: Seq<Event>|
                    #![trigger semantics::unwind_exception(old(self)@, exc, log, at)]
                    continues(log, vm.log()) ==> semantics::unwind_exception(
                        old(self)@,
                        exc,
                        log,
                        at,
                    ) == semantics::unwind_exception(self@, exc, log, vm.log().len() as int),
            decreases self@.blocks.len(),
        {
            let ghost frame = self@;
            let ghost mid = vm.log();
            let ghost here = mid.len() as int;
            match self.pop_block() {
                Some(Block::TryExcept { handler }) => {
                    self.push_value(exc);
                    return match self.jump(handler) {
                        Ok(_) => Ok(None),
                        Err(fault) => Err(fault),
                    };
                },
                Some(Block::With { end, context_manager }) => match self.with_exit(
                    vm,
                    context_manager,
                    Some(exc),
                ) {
                    Ok(exit_action) => match vm.boolval(exit_action) {
                        Ok(true) => {
                            proof {
                                assert forall|log: Seq<Event>|
                                    #![trigger semantics::unwind_exception(old(self)@, exc, log, at)]
                                    continues(log, vm.log()) implies semantics::unwind_exception(
                                    old(self)@,
                                    exc,
                                    log,
                                    at,
                                ) == semantics::unwind_exception(frame, exc, log, here) by {
                                    assert(continues(log, mid));
                                    assert(semantics::unwind_exception(old(self)@, exc, log, at)
                                        == semantics::unwind_exception(frame, exc, log, here));
                                    assert(semantics::with_exit(context_manager, Some(exc), log, here) is Some);
                                }
                            }
                            return match self.jump(end) {
                                Ok(_) => Ok(None),
                                Err(fault) => Err(fault),
                            };
                        },
                        Ok(false) => {
                            proof {
                                assert forall|log: Seq<Event>|
                                    #![trigger semantics::unwind_exception(old(self)@, exc, log, at)]
                                    continues(log, vm.log()) implies semantics::unwind_exception(
                                    old(self)@,
                                    exc,
                                    log,
                                    at,
                                ) == semantics::unwind_exception(
                                    self@,
                                    exc,
                                    log,
                                    vm.log().len() as int,
                                ) by {
                                    assert(continues(log, mid));
                                    assert(semantics::unwind_exception(old(self)@, exc, log, at)
                                        == semantics::unwind_exception(frame, exc, log, here));
                                    assert(semantics::with_exit(context_manager, Some(exc), log, here) is Some);
                                }
                            }
                        },
                        Err(exit_exc) => {
                            proof {
                                assert forall|log: Seq<Event>|
                                    #![trigger semantics::unwind_exception(old(self)@, exc, log, at)]
                                    continues(log, vm.log()) implies semantics::unwind_exception(
                                    old(self)@,
                                    exc,
                                    log,
                                    at,
                                ) == semantics::unwind_exception(frame, exc, log, here) by {
                                    assert(continues(log, mid));
                                    assert(semantics::unwind_exception(old(self)@, exc, log, at)
                                        == semantics::unwind_exception(frame, exc, log, here));
                                    assert(semantics::with_exit(context_manager, Some(exc), log, here) is Some);
                                }
                            }
                            return Ok(Some(exit_exc));
                        },
                    },
                    Err(exit_exc) => {
                        proof {
                            assert forall|log: Seq<Event>|
                                #![trigger semantics::unwind_exception(old(self)@, exc, log, at)]
                                continues(log, vm.log()) implies semantics::unwind_exception(
                                old(self)@,
                                exc,
                                log,
                                at,
                            ) == semantics::unwind_exception(frame, exc, log, here) by {
                                assert(continues(log, mid));
                                assert(semantics::unwind_exception(old(self)@, exc, log, at)
                                    == semantics::unwind_exception(frame, exc, log, here));
                                assert(semantics::with_exit(context_manager, Some(exc), log, here) is Some);
                            }
                        }
                        return Ok(Some(exit_exc));
                    },
                },
                Some(Block::Loop { start: _, end: _ }) => {},
                None => {
                    return Ok(Some(exc));
                },
            }
        }
    }

    /// The object that a constant becomes.
    pub fn unwrap_constant<V: VirtualMachine>(
        &self,
        vm: &mut V,
        value: &Constant,
    ) -> (object: PyObjectRef)
        ensures
            continues(final(vm).log(), old(vm).log()),
            forall|log: Seq<Event>|
                #![trigger semantics::constant(*value, log, old(vm).log().len() as int)]
                continues(log, final(vm).log()) ==> semantics::constant(
                    *value,
                    log,
                    old(vm).log().len() as int,
                ) == Some((object, final(vm).log().len() as int)),
        decreases value,
    {
        match value {
            Constant::Integer { value } => vm.new_int(*value),
            Constant::Float { bits } => vm.new_float(*bits),
            Constant::String { value } => vm.new_str(value.as_str()),
            Constant::Boolean { value } => vm.new_bool(*value),
            Constant::Code { code } => vm.new_code(&**code),
            Constant::Tuple { elements } => {
                let mut objects: Vec<PyObjectRef> = Vec::new();
                let ghost at = vm.log().len() as int;
                let ghost before = vm.log();
                let mut i: usize = 0;
                while i < elements.len()
                    invariant
                        i <= elements@.len(),
                        at == before.len(),
                        continues(vm.log(), before),
                        decreases_to!(value => elements@),
                        forall|log: Seq<Event>|
                            #![trigger semantics::constants(elements@, i as nat, log, at)]
                            continues(log, vm.log()) ==> semantics::constants(
                                elements@,
                                i as nat,
                                log,
                                at,
                            ) == Some((objects@, vm.log().len() as int)),
                    decreases elements@.len() - i,
                {
                    let ghost mid = vm.log();
                    let ghost found = objects@;
                    let object = self.unwrap_constant(vm, &elements[i]);
                    objects.push(object);
                    i = i + 1;
                    proof {
                        assert forall|log: Seq<Event>|
                            #![trigger semantics::constants(elements@, i as nat, log, at)]
                            continues(log, vm.log()) implies semantics::constants(
                            elements@,
                            i as nat,
                            log,
                            at,
                        ) == Some((objects@, vm.log().len() as int)) by {
                            assert(continues(log, mid));
                            assert(semantics::constants(elements@, (i - 1) as nat, log, at) == Some(
                                (found, mid.len() as int),
                            ));
                            assert(semantics::constant(elements@[i - 1], log, mid.len() as int)
                                == Some((object, vm.log().len() as int)));
                        }
                    }
                }
                let ghost mid = vm.log();
                let ghost found = objects@;
                let object = vm.new_tuple(objects);
                proof {
                    assert forall|log: Seq<Event>|
                        #![trigger semantics::constant(*value, log, at)]
                        continues(log, vm.log()) implies semantics::constant(*value, log, at)
                            == Some((object, vm.log().len() as int)) by {
                        assert(continues(log, mid));
                        assert(semantics::constants(elements@, elements@.len(), log, at) == Some(
                            (found, mid.len() as int),
                        ));
                    }
                }
                object
            },
            Constant::NoneValue => vm.none(),
        }
    }

    fn import<V: VirtualMachine>(
        &mut self,
        vm: &mut V,
        module: &str,
        symbol: &Option<String>,
    ) -> (result: StepResult)
        ensures
            continues(final(vm).log(), old(vm).log()),
            forall|log: Seq<Event>|
                #![trigger semantics::import(
                    old(self)@,
                    module@,
                    *symbol,
                    log,
                    old(vm).log().len() as int,
                )]
                continues(log, final(vm).log()) ==> agrees(
                    semantics::import(
                        old(self)@,
                        module@,
                        *symbol,
                        log,
                        old(vm).log().len() as int,
                    ),
                    final(self)@,
                    result,
                    final(vm).log().len() as int,
                ),
    {
        let directory = match &self.code.source_path {
            Some(source_path) => ImportDirectory::ContainingFile { path: source_path.clone() },
            None => ImportDirectory::Current,
        };
        match vm.import(directory, module, symbol) {
            Ok(obj) => {
                self.push_value(obj);
                Ok(None)
            },
            Err(exc) => Ok(Some(Err(exc))),
        }
    }

    pub fn store_name<V: VirtualMachine>(
        &mut self,
        vm: &mut V,
        name: &str,
    ) -> (result: StepResult)
        ensures
            continues(final(vm).log(), old(vm).log()),
            forall|log: Seq<Event>|
                #![trigger semantics::store_name(
                    old(self)@,
                    name@,
                    log,
                    old(vm).log().len() as int,
                )]
                continues(log, final(vm).log()) ==> agrees(
                    semantics::store_name(old(self)@, name@, log, old(vm).log().len() as int),
                    final(self)@,
                    result,
                    final(vm).log().len() as int,
                ),
    {
        if self.stack.len() < 1 {
            return Err(Fault::StackUnderflow);
        }
        let obj = self.pop_value();
        vm.set_item(self.locals, name, obj);
        Ok(None)
    }

    fn delete_name<V: VirtualMachine>(
        &mut self,
        vm: &mut V,
        name: &str,
    ) -> (result: StepResult)
        ensures
            continues(final(vm).log(), old(vm).log()),
            forall|log: Seq<Event>|
                #![trigger semantics::delete_name(
                    old(self)@,
                    name@,
                    log,
                    old(vm).log().len() as int,
                )]
                continues(log, final(vm).log()) ==> agrees(
                    semantics::delete_name(old(self)@, name@, log, old(vm).log().len() as int),
                    final(self)@,
                    result,
                    final(vm).log().len() as int,
                ),
    {
        match vm.kind(self.locals) {
            PyObjectKind::Scope { locals } => {
                let name = vm.new_str(name);
                match vm.call_method(locals, "__delitem__", one(name)) {
                    Ok(_) => Ok(None),
                    Err(exc) => Ok(Some(Err(exc))),
                }
            },
            _ => Err(Fault::NotScope),
        }
    }

    /// Looks a name up in the scope and the ones around it, and puts its value onto the stack.
    pub fn load_name<V: VirtualMachine>(&mut self, vm: &mut V, name: &str) -> (result: StepResult)
        ensures
            continues(final(vm).log(), old(vm).log()),
            forall|log: Seq<Event>|
                #![trigger semantics::load_name(old(self)@, name@, log, old(vm).log().len() as int)]
                continues(log, final(vm).log()) ==> agrees(
                    semantics::load_name(old(self)@, name@, log, old(vm).log().len() as int),
                    final(self)@,
                    result,
                    final(vm).log().len() as int,
                ),
    {
        let mut scope = self.locals;
        let mut depth: usize = usize::MAX;
        let ghost at = vm.log().len() as int;
        let ghost before = vm.log();
        while depth > 0
            invariant
                *self == *old(self),
                at == before.len(),
                before == old(vm).log(),
                continues(vm.log(), before),
                forall|log: Seq<Event>|
                    #![trigger semantics::load_name(old(self)@, name@, log, at)]
                    continues(log, vm.log()) ==> semantics::load_name(old(self)@, name@, log, at)
                        == semantics::lookup(
                        old(self)@,
                        name@,
                        scope,
                        depth as nat,
                        log,
                        vm.log().len() as int,
                    ),
            decreases depth,
        {
            let ghost here = scope;
            let ghost mid = vm.log();
            let ghost left = depth as nat;
            if vm.contains_key(scope, name) {
                let item = vm.get_item(scope, name);
                proof {
                    assert forall|log: Seq<Event>|
                        #![trigger semantics::load_name(old(self)@, name@, log, at)]
                        continues(log, vm.log()) implies semantics::load_name(
                        old(self)@,
                        name@,
                        log,
                        at,
                    ) == semantics::lookup(
                        old(self)@,
                        name@,
                        here,
                        left,
                        log,
                        mid.len() as int,
                    ) by {
                        assert(continues(log, mid));
                    }
                }
                return match item {
                    Some(obj) => {
                        self.push_value(obj);
                        Ok(None)
                    },
                    None => Err(Fault::NameVanished),
                };
            } else if vm.has_parent(scope) {
                scope = vm.get_parent(scope);
                depth = depth - 1;
                proof {
                    assert forall|log: Seq<Event>|
                        #![trigger semantics::load_name(old(self)@, name@, log, at)]
                        continues(log, vm.log()) implies semantics::load_name(
                        old(self)@,
                        name@,
                        log,
                        at,
                    ) == semantics::lookup(
                        old(self)@,
                        name@,
                        scope,
                        depth as nat,
                        log,
                        vm.log().len() as int,
                    ) by {
                        assert(continues(log, mid));
                        assert(semantics::load_name(old(self)@, name@, log, at)
                            == semantics::lookup(
                            old(self)@,
                            name@,
                            here,
                            left,
                            log,
                            mid.len() as int,
                        ));
                    }
                }
            } else {
                let mut msg = String::from_str("Has not attribute '");
                msg.append(name);
                msg.append("'");
                let name_error = vm.new_exception(ExceptionType::NameError, msg.as_str());
                proof {
                    assert forall|log: Seq<Event>|
                        #![trigger semantics::load_name(old(self)@, name@, log, at)]
                        continues(log, vm.log()) implies semantics::load_name(
                        old(self)@,
                        name@,
                        log,
                        at,
                    ) == semantics::lookup(
                        old(self)@,
                        name@,
                        here,
                        left,
                        log,
                        mid.len() as int,
                    ) by {
                        assert(continues(log, mid));
                    }
                }
                return Ok(Some(Err(name_error)));
            }
        }
        Err(Fault::ScopesTooDeep)
    }

    fn subscript<V: VirtualMachine>(
        &mut self,
        vm: &mut V,
        a: PyObjectRef,
        b: PyObjectRef,
    ) -> (result: PyResult)
        ensures
            *final(self) == *old(self),
            final(vm).log() == old(vm).log().push(
                Event {
                    request: semantics::method(a, "__getitem__"@, seq![b]),
                    reply: Reply::Result(result),
                },
            ),
    {
        vm.call_method(a, "__getitem__", one(b))
    }

    fn execute_store_subscript<V: VirtualMachine>(
        &mut self,
        vm: &mut V,
    ) -> (result: StepResult)
        ensures
            continues(final(vm).log(), old(vm).log()),
            forall|log: Seq<Event>|
                #![trigger semantics::store_subscript(old(self)@, log, old(vm).log().len() as int)]
                continues(log, final(vm).log()) ==> agrees(
                    semantics::store_subscript(old(self)@, log, old(vm).log().len() as int),
                    final(self)@,
                    result,
                    final(vm).log().len() as int,
                ),
    {
        if self.stack.len() < 3 {
            return Err(Fault::StackUnderflow);
        }
        let idx = self.pop_value();
        let obj = self.pop_value();
        let value = self.pop_value();
        assert(self@.stack =~= old(self)@.drop(3).stack);
        match vm.kind(obj) {
            PyObjectKind::List => match vm.list_set_item(obj, idx, value) {
                Ok(_) => Ok(None),
                Err(exc) => Ok(Some(Err(exc))),
            },
            _ => {
                let obj_text = vm.debug_text(obj);
                let idx_text = vm.debug_text(idx);
                let mut msg = String::from_str("TypeError: __setitem__ assign type ");
                msg.append(obj_text.as_str());
                msg.append(" with index ");
                msg.append(idx_text.as_str());
                msg.append(" is not supported (yet?)");
                let exc = vm.new_exception(ExceptionType::TypeError, msg.as_str());
                Ok(Some(Err(exc)))
            },
        }
    }

    fn execute_delete_subscript<V: VirtualMachine>(
        &mut self,
        vm: &mut V,
    ) -> (result: StepResult)
        ensures
            continues(final(vm).log(), old(vm).log()),
            forall|log: Seq<Event>|
                #![trigger semantics::delete_subscript(old(self)@, log, old(vm).log().len() as int)]
                continues(log, final(vm).log()) ==> agrees(
                    semantics::delete_subscript(old(self)@, log, old(vm).log().len() as int),
                    final(self)@,
                    result,
                    final(vm).log().len() as int,
                ),
    {
        if self.stack.len() < 2 {
            return Err(Fault::StackUnderflow);
        }
        let idx = self.pop_value();
        let obj = self.pop_value();
        assert(self@.stack =~= old(self)@.drop(2).stack);
        match vm.call_method(obj, "__delitem__", one(idx)) {
            Ok(_) => Ok(None),
            Err(exc) => Ok(Some(Err(exc))),
        }
    }

    fn execute_binop<V: VirtualMachine>(
        &mut self,
        vm: &mut V,
        op: BinaryOperator,
    ) -> (result: StepResult)
        ensures
            continues(final(vm).log(), old(vm).log()),
            forall|log: Seq<Event>|
                #![trigger semantics::binop(old(self)@, op, log, old(vm).log().len() as int)]
                continues(log, final(vm).log()) ==> agrees(
                    semantics::binop(old(self)@, op, log, old(vm).log().len() as int),
                    final(self)@,
                    result,
                    final(vm).log().len() as int,
                ),
    {
        if self.stack.len() < 2 {
            return Err(Fault::StackUnderflow);
        }
        let b_ref = self.pop_value();
        let a_ref = self.pop_value();
        assert(self@.stack =~= old(self)@.drop(2).stack);
        let result = match op {
            BinaryOperator::MatrixMultiply => vm.call_method(a_ref, "__matmul__", one(b_ref)),
            BinaryOperator::FloorDivide => vm.call_method(a_ref, "__floordiv__", one(b_ref)),
            BinaryOperator::Subscript => self.subscript(vm, a_ref, b_ref),
            BinaryOperator::Lshift => vm.call_method(a_ref, "__lshift__", one(b_ref)),
            BinaryOperator::Rshift => vm.call_method(a_ref, "__rshift__", one(b_ref)),
            _ => vm.arithmetic(op, a_ref, b_ref),
        };
        match result {
            Ok(value) => {
                self.push_value(value);
                Ok(None)
            },
            Err(exc) => Ok(Some(Err(exc))),
        }
    }

    fn execute_unop<V: VirtualMachine>(
        &mut self,
        vm: &mut V,
        op: UnaryOperator,
    ) -> (result: StepResult)
        ensures
            continues(final(vm).log(), old(vm).log()),
            forall|log: Seq<Event>|
                #![trigger semantics::unop(old(self)@, op, log, old(vm).log().len() as int)]
                continues(log, final(vm).log()) ==> agrees(
                    semantics::unop(old(self)@, op, log, old(vm).log().len() as int),
                    final(self)@,
                    result,
                    final(vm).log().len() as int,
                ),
    {
        if self.stack.len() < 1 {
            return Err(Fault::StackUnderflow);
        }
        let a = self.pop_value();
        let value = match op {
            UnaryOperator::Minus => match vm.kind(a) {
                PyObjectKind::Integer { value } => {
                    if value == i32::MIN {
                        return Err(Fault::IntegerOverflow);
                    }
                    vm.new_int(-value)
                },
                PyObjectKind::Float { bits } => vm.new_float(bits ^ 0x8000_0000_0000_0000),
                _ => return Err(Fault::NotNumeric),
            },
            UnaryOperator::Not => match vm.boolval(a) {
                Ok(value) => vm.new_bool(!value),
                Err(exc) => return Ok(Some(Err(exc))),
            },
            _ => return Err(Fault::UnsupportedOperator),
        };
        self.push_value(value);
        Ok(None)
    }

    fn _eq<V: VirtualMachine>(
        &mut self,
        vm: &mut V,
        a: PyObjectRef,
        b: PyObjectRef,
    ) -> (result: PyResult)
        ensures
            *final(self) == *old(self),
            final(vm).log() == old(vm).log().push(
                Event {
                    request: semantics::method(a, "__eq__"@, seq![b]),
                    reply: Reply::Result(result),
                },
            ),
    {
        vm.call_method(a, "__eq__", one(b))
    }

    fn _ne<V: VirtualMachine>(
        &mut self,
        vm: &mut V,
        a: PyObjectRef,
        b: PyObjectRef,
    ) -> (result: PyResult)
        ensures
            *final(self) == *old(self),
            final(vm).log() == old(vm).log().push(
                Event {
                    request: semantics::method(a, "__ne__"@, seq![b]),
                    reply: Reply::Result(result),
                },
            ),
    {
        vm.call_method(a, "__ne__", one(b))
    }

    fn _lt<V: VirtualMachine>(
        &mut self,
        vm: &mut V,
        a: PyObjectRef,
        b: PyObjectRef,
    ) -> (result: PyResult)
        ensures
            *final(self) == *old(self),
            final(vm).log() == old(vm).log().push(
                Event {
                    request: semantics::method(a, "__lt__"@, seq![b]),
                    reply: Reply::Result(result),
                },
            ),
    {
        vm.call_method(a, "__lt__", one(b))
    }

    fn _le<V: VirtualMachine>(
        &mut self,
        vm: &mut V,
        a: PyObjectRef,
        b: PyObjectRef,
    ) -> (result: PyResult)
        ensures
            *final(self) == *old(self),
            final(vm).log() == old(vm).log().push(
                Event {
                    request: semantics::method(a, "__le__"@, seq![b]),
                    reply: Reply::Result(result),
                },
            ),
    {
        vm.call_method(a, "__le__", one(b))
    }

    fn _gt<V: VirtualMachine>(
        &mut self,
        vm: &mut V,
        a: PyObjectRef,
        b: PyObjectRef,
    ) -> (result: PyResult)
        ensures
            *final(self) == *old(self),
            final(vm).log() == old(vm).log().push(
                Event {
                    request: semantics::method(a, "__gt__"@, seq![b]),
                    reply: Reply::Result(result),
                },
            ),
    {
        vm.call_method(a, "__gt__", one(b))
    }

    fn _ge<V: VirtualMachine>(
        &mut self,
        vm: &mut V,
        a: PyObjectRef,
        b: PyObjectRef,
    ) -> (result: PyResult)
        ensures
            *final(self) == *old(self),
            final(vm).log() == old(vm).log().push(
                Event {
                    request: semantics::method(a, "__ge__"@, seq![b]),
                    reply: Reply::Result(result),
                },
            ),
    {
        vm.call_method(a, "__ge__", one(b))
    }

    /// The identity of an object.
    fn _id(&self, a: PyObjectRef) -> (id: usize)
        ensures
            id == a.id,
    {
        a.id
    }

    fn _membership<V: VirtualMachine>(
        &mut self,
        vm: &mut V,
        needle: PyObjectRef,
        haystack: PyObjectRef,
    ) -> (result: PyResult)
        ensures
            *final(self) == *old(self),
            final(vm).log() == old(vm).log().push(
                Event {
                    request: semantics::membership(needle, haystack),
                    reply: Reply::Result(result),
                },
            ),
    {
        vm.call_method(haystack, "__contains__", one(needle))
    }

    /// The exception that says that an object is no container.
    fn not_a_container<V: VirtualMachine>(
        &mut self,
        vm: &mut V,
        haystack: PyObjectRef,
    ) -> (exc: PyObjectRef)
        ensures
            *final(self) == *old(self),
            continues(final(vm).log(), old(vm).log()),
            forall|log: Seq<Event>|
                #![trigger semantics::not_a_container(
                    old(self)@,
                    haystack,
                    log,
                    old(vm).log().len() as int,
                )]
                continues(log, final(vm).log()) ==> agrees(
                    semantics::not_a_container(
                        old(self)@,
                        haystack,
                        log,
                        old(vm).log().len() as int,
                    ),
                    final(self)@,
                    Ok(Some(Err(exc))),
                    final(vm).log().len() as int,
                ),
    {
        let typ = vm.type_of(haystack);
        let mut msg = vm.name_of_type(typ);
        msg.append(" has no __contains__ method");
        vm.new_exception(ExceptionType::TypeError, msg.as_str())
    }

    fn _in<V: VirtualMachine>(
        &mut self,
        vm: &mut V,
        needle: PyObjectRef,
        haystack: PyObjectRef,
    ) -> (result: PyResult)
        ensures
            *final(self) == *old(self),
            continues(final(vm).log(), old(vm).log()),
            forall|log: Seq<Event>|
                #![trigger semantics::contains(
                    old(self)@,
                    needle,
                    haystack,
                    log,
                    old(vm).log().len() as int,
                )]
                continues(log, final(vm).log()) ==> semantics::contains(
                    old(self)@,
                    needle,
                    haystack,
                    log,
                    old(vm).log().len() as int,
                ) == (match result {
                    Ok(value) => semantics::next(
                        old(self)@.push(value),
                        final(vm).log().len() as int,
                    ),
                    Err(exc) => semantics::raise(old(self)@, exc, final(vm).log().len() as int),
                }),
    {
        let ghost before = vm.log();
        match self._membership(vm, needle, haystack) {
            Ok(found) => Ok(found),
            Err(_) => {
                let ghost mid = vm.log();
                let exc = self.not_a_container(vm, haystack);
                proof {
                    assert forall|log: Seq<Event>|
                        #![trigger semantics::contains(
                            old(self)@,
                            needle,
                            haystack,
                            log,
                            before.len() as int,
                        )]
                        continues(log, vm.log()) implies semantics::contains(
                        old(self)@,
                        needle,
                        haystack,
                        log,
                        before.len() as int,
                    ) == semantics::not_a_container(
                        old(self)@,
                        haystack,
                        log,
                        mid.len() as int,
                    ) by {
                        assert(continues(log, mid));
                    }
                }
                Err(exc)
            },
        }
    }

    fn _not_in<V: VirtualMachine>(
        &mut self,
        vm: &mut V,
        needle: PyObjectRef,
        haystack: PyObjectRef,
    ) -> (result: Result<PyResult, Fault>)
        ensures
            *final(self) == *old(self),
            continues(final(vm).log(), old(vm).log()),
            forall|log: Seq<Event>|
                #![trigger semantics::lacks(
                    old(self)@,
                    needle,
                    haystack,
                    log,
                    old(vm).log().len() as int,
                )]
                continues(log, final(vm).log()) ==> semantics::lacks(
                    old(self)@,
                    needle,
                    haystack,
                    log,
                    old(vm).log().len() as int,
                ) == (match result {
                    Ok(Ok(value)) => semantics::next(
                        old(self)@.push(value),
                        final(vm).log().len() as int,
                    ),
                    Ok(Err(exc)) => semantics::raise(old(self)@, exc, final(vm).log().len() as int),
                    Err(fault) => semantics::fault(old(self)@, fault, final(vm).log().len() as int),
                }),
    {
        let ghost before = vm.log();
        match self._membership(vm, needle, haystack) {
            Ok(found) => match vm.bool_value(found) {
                Some(found) => Ok(Ok(vm.new_bool(!found))),
                None => Err(Fault::NotBoolean),
            },
            Err(_) => {
                let ghost mid = vm.log();
                let exc = self.not_a_container(vm, haystack);
                proof {
                    assert forall|log: Seq<Event>|
                        #![trigger semantics::lacks(
                            old(self)@,
                            needle,
                            haystack,
                            log,
                            before.len() as int,
                        )]
                        continues(log, vm.log()) implies semantics::lacks(
                        old(self)@,
                        needle,
                        haystack,
                        log,
                        before.len() as int,
                    ) == semantics::not_a_container(
                        old(self)@,
                        haystack,
                        log,
                        mid.len() as int,
                    ) by {
                        assert(continues(log, mid));
                    }
                }
                Ok(Err(exc))
            },
        }
    }

    /// Whether two handles name one object.
    fn _is(&self, a: PyObjectRef, b: PyObjectRef) -> (same: bool)
        ensures
            same == (a == b),
    {
        self._id(a) == self._id(b)
    }

    fn _is_not<V: VirtualMachine>(
        &self,
        vm: &mut V,
        a: PyObjectRef,
        b: PyObjectRef,
    ) -> (result: PyResult)
        ensures
            result matches Ok(value) && final(vm).log() == old(vm).log().push(
                Event {
                    request: Request::NewBool { value: a != b },
                    reply: Reply::Object(value),
                },
            ),
    {
        let result_bool = !self._is(a, b);
        Ok(vm.new_bool(result_bool))
    }

    pub fn execute_compare<V: VirtualMachine>(
        &mut self,
        vm: &mut V,
        op: ComparisonOperator,
    ) -> (result: StepResult)
        ensures
            continues(final(vm).log(), old(vm).log()),
            forall|log: Seq<Event>|
                #![trigger semantics::compare(old(self)@, op, log, old(vm).log().len() as int)]
                continues(log, final(vm).log()) ==> agrees(
                    semantics::compare(old(self)@, op, log, old(vm).log().len() as int),
                    final(self)@,
                    result,
                    final(vm).log().len() as int,
                ),
    {
        if self.stack.len() < 2 {
            return Err(Fault::StackUnderflow);
        }
        let b = self.pop_value();
        let a = self.pop_value();
        assert(self@.stack =~= old(self)@.drop(2).stack);
        let result = match op {
            ComparisonOperator::Equal => self._eq(vm, a, b),
            ComparisonOperator::NotEqual => self._ne(vm, a, b),
            ComparisonOperator::Less => self._lt(vm, a, b),
            ComparisonOperator::LessOrEqual => self._le(vm, a, b),
            ComparisonOperator::Greater => self._gt(vm, a, b),
            ComparisonOperator::GreaterOrEqual => self._ge(vm, a, b),
            ComparisonOperator::Is => {
                let same = self._is(a, b);
                Ok(vm.new_bool(same))
            },
            ComparisonOperator::IsNot => self._is_not(vm, a, b),
            ComparisonOperator::In => self._in(vm, a, b),
            ComparisonOperator::NotIn => match self._not_in(vm, a, b) {
                Ok(result) => result,
                Err(fault) => return Err(fault),
            },
        };
        match result {
            Ok(value) => {
                self.push_value(value);
                Ok(None)
            },
            Err(exc) => Ok(Some(Err(exc))),
        }
    }

    fn load_attr<V: VirtualMachine>(
        &mut self,
        vm: &mut V,
        attr_name: &str,
    ) -> (result: StepResult)
        ensures
            continues(final(vm).log(), old(vm).log()),
            forall|log: Seq<Event>|
                #![trigger semantics::load_attr(
                    old(self)@,
                    attr_name@,
                    log,
                    old(vm).log().len() as int,
                )]
                continues(log, final(vm).log()) ==> agrees(
                    semantics::load_attr(old(self)@, attr_name@, log, old(vm).log().len() as int),
                    final(self)@,
                    result,
                    final(vm).log().len() as int,
                ),
    {
        if self.stack.len() < 1 {
            return Err(Fault::StackUnderflow);
        }
        let parent = self.pop_value();
        match vm.get_attribute(parent, attr_name) {
            Ok(obj) => {
                self.push_value(obj);
                Ok(None)
            },
            Err(exc) => Ok(Some(Err(exc))),
        }
    }

    fn store_attr<V: VirtualMachine>(
        &mut self,
        vm: &mut V,
        attr_name: &str,
    ) -> (result: StepResult)
        ensures
            continues(final(vm).log(), old(vm).log()),
            forall|log: Seq<Event>|
                #![trigger semantics::store_attr(
                    old(self)@,
                    attr_name@,
                    log,
                    old(vm).log().len() as int,
                )]
                continues(log, final(vm).log()) ==> agrees(
                    semantics::store_attr(old(self)@, attr_name@, log, old(vm).log().len() as int),
                    final(self)@,
                    result,
                    final(vm).log().len() as int,
                ),
    {
        if self.stack.len() < 2 {
            return Err(Fault::StackUnderflow);
        }
        let parent = self.pop_value();
        let value = self.pop_value();
        assert(self@.stack =~= old(self)@.drop(2).stack);
        vm.set_attr(parent, attr_name, value);
        Ok(None)
    }

    fn delete_attr<V: VirtualMachine>(
        &mut self,
        vm: &mut V,
        attr_name: &str,
    ) -> (result: StepResult)
        ensures
            continues(final(vm).log(), old(vm).log()),
            forall|log: Seq<Event>|
                #![trigger semantics::delete_attr(
                    old(self)@,
                    attr_name@,
                    log,
                    old(vm).log().len() as int,
                )]
                continues(log, final(vm).log()) ==> agrees(
                    semantics::delete_attr(old(self)@, attr_name@, log, old(vm).log().len() as int),
                    final(self)@,
                    result,
                    final(vm).log().len() as int,
                ),
    {
        if self.stack.len() < 1 {
            return Err(Fault::StackUnderflow);
        }
        let parent = self.pop_value();
        let name = vm.new_str(attr_name);
        match vm.call_method(parent, "__delattr__", one(name)) {
            Ok(_) => Ok(None),
            Err(exc) => Ok(Some(Err(exc))),
        }
    }

    /// Makes a dictionary of pairs of key and value.
    fn build_map<V: VirtualMachine>(
        &mut self,
        vm: &mut V,
        size: usize,
    ) -> (result: StepResult)
        ensures
            continues(final(vm).log(), old(vm).log()),
            forall|log: Seq<Event>|
                #![trigger semantics::build_map(old(self)@, size, log, old(vm).log().len() as int)]
                continues(log, final(vm).log()) ==> agrees(
                    semantics::build_map(old(self)@, size, log, old(vm).log().len() as int),
                    final(self)@,
                    result,
                    final(vm).log().len() as int,
                ),
    {
        let mut entries: Vec<(String, PyObjectRef)> = Vec::new();
        let mut left: usize = size;
        let ghost before = vm.log();
        let ghost at = before.len() as int;
        while left > 0
            invariant
                left <= size,
                before == old(vm).log(),
                at == before.len(),
                continues(vm.log(), before),
                distinct_keys(entries@),
                2 * (size - left) <= old(self)@.stack.len(),
                self@ == old(self)@.drop(2 * (size - left)),
                forall|log: Seq<Event>|
                    #![trigger semantics::pairs(
                        old(self)@.stack,
                        size as nat,
                        Map::empty(),
                        log,
                        at,
                    )]
                    continues(log, vm.log()) ==> semantics::pairs(
                        old(self)@.stack,
                        size as nat,
                        Map::empty(),
                        log,
                        at,
                    ) == semantics::pairs(
                        self@.stack,
                        left as nat,
                        dict_of(entries@),
                        log,
                        vm.log().len() as int,
                    ),
            decreases left,
        {
            let ghost mid = vm.log();
            let ghost was = self@.stack;
            let ghost had = dict_of(entries@);
            if self.stack.len() < 2 {
                return Err(Fault::StackUnderflow);
            }
            let obj = self.pop_value();
            let key_pyobj = self.pop_value();
            assert(self@.stack =~= old(self)@.drop(2 * (size - left + 1)).stack);
            assert(self@.stack =~= was.take(was.len() - 2));
            let kind = vm.kind(key_pyobj);
            proof {
                assert forall|log: Seq<Event>|
                    #![trigger semantics::pairs(
                        old(self)@.stack,
                        size as nat,
                        Map::empty(),
                        log,
                        at,
                    )]
                    continues(log, vm.log()) implies semantics::pairs(
                    old(self)@.stack,
                    size as nat,
                    Map::empty(),
                    log,
                    at,
                ) == (match kind {
                    PyObjectKind::String { value } => semantics::pairs(
                        self@.stack,
                        (left - 1) as nat,
                        had.insert(value@, obj),
                        log,
                        vm.log().len() as int,
                    ),
                    _ => Some((Err(Fault::KeyNotString), vm.log().len() as int)),
                }) by {
                    assert(continues(log, mid));
                }
            }
            match kind {
                PyObjectKind::String { value } => {
                    let ghost key = value@;
                    insert_entry(&mut entries, value, obj);
                    assert(dict_of(entries@) == had.insert(key, obj));
                    left = left - 1;
                },
                _ => return Err(Fault::KeyNotString),
            }
        }
        let map_obj = vm.new_dict(entries);
        self.push_value(map_obj);
        Ok(None)
    }

    /// Makes a slice of its bounds.
    fn build_slice<V: VirtualMachine>(
        &mut self,
        vm: &mut V,
        size: usize,
    ) -> (result: StepResult)
        ensures
            continues(final(vm).log(), old(vm).log()),
            forall|log: Seq<Event>|
                #![trigger semantics::build_slice(
                    old(self)@,
                    size,
                    log,
                    old(vm).log().len() as int,
                )]
                continues(log, final(vm).log()) ==> agrees(
                    semantics::build_slice(old(self)@, size, log, old(vm).log().len() as int),
                    final(self)@,
                    result,
                    final(vm).log().len() as int,
                ),
    {
        if size != 2 && size != 3 {
            return Err(Fault::BadSliceSize);
        }
        if self.stack.len() < size {
            return Err(Fault::StackUnderflow);
        }
        let elements = self.pop_multiple(size);
        let mut out: Vec<Option<i32>> = Vec::new();
        let mut i: usize = 0;
        let ghost before = vm.log();
        let ghost at = before.len() as int;
        assert(elements@.take(0) =~= Seq::empty());
        while i < elements.len()
            invariant
                i <= elements@.len() == size,
                size == 2 || size == 3,
                size <= old(self)@.stack.len(),
                elements@ == old(self)@.top(size as int),
                out@.len() == i,
                before == old(vm).log(),
                at == before.len(),
                continues(vm.log(), before),
                forall|log: Seq<Event>|
                    #![trigger semantics::bounds(elements@.take(i as int), log, at)]
                    continues(log, vm.log()) ==> semantics::bounds(
                        elements@.take(i as int),
                        log,
                        at,
                    )
                        == Some((Ok::<Seq<Option<i32>>, Fault>(out@), vm.log().len() as int)),
            decreases elements@.len() - i,
        {
            let ghost mid = vm.log();
            let ghost found = out@;
            let kind = vm.kind(elements[i]);
            assert(elements@.take(i + 1).drop_last() =~= elements@.take(i as int));
            let ghost read = match kind {
                PyObjectKind::Integer { value } => Ok::<Seq<Option<i32>>, Fault>(
                    found.push(Some(value)),
                ),
                PyObjectKind::NoneValue => Ok(found.push(None)),
                _ => Err(Fault::BadSliceBound),
            };
            proof {
                assert forall|log: Seq<Event>|
                    #![trigger semantics::bounds(elements@.take(i + 1), log, at)]
                    continues(log, vm.log()) implies semantics::bounds(
                    elements@.take(i + 1),
                    log,
                    at,
                ) == Some((read, vm.log().len() as int)) by {
                    assert(continues(log, mid));
                    assert(semantics::bounds(elements@.take(i as int), log, at) == Some(
                        (Ok::<Seq<Option<i32>>, Fault>(found), mid.len() as int),
                    ));
                }
            }
            match kind {
                PyObjectKind::Integer { value } => out.push(Some(value)),
                PyObjectKind::NoneValue => out.push(None),
                _ => {
                    proof {
                        assert forall|log: Seq<Event>| continues(log, vm.log()) implies (
                        #[trigger] semantics::bounds(elements@, log, at)) == Some(
                            (read, vm.log().len() as int),
                        ) by {
                            lemma_bounds_stop(elements@, i + 1, log, at);
                            assert(semantics::bounds(elements@.take(i + 1), log, at) == Some(
                                (read, vm.log().len() as int),
                            ));
                        }
                    }
                    return Err(Fault::BadSliceBound);
                },
            }
            i = i + 1;
        }
        assert(elements@.take(i as int) =~= elements@);
        let start = out[0];
        let stop = out[1];
        let step = if out.len() == 3 {
            out[2]
        } else {
            None
        };
        let ghost mid = vm.log();
        let ghost found = out@;
        let obj = vm.new_slice(start, stop, step);
        proof {
            assert forall|log: Seq<Event>|
                #![trigger semantics::build_slice(old(self)@, size, log, at)]
                continues(log, vm.log()) implies semantics::bounds(elements@, log, at) == Some(
                (Ok::<Seq<Option<i32>>, Fault>(found), mid.len() as int),
            ) by {
                assert(continues(log, mid));
                assert(semantics::bounds(elements@.take(i as int), log, at) is Some);
            }
        }
        self.push_value(obj);
        Ok(None)
    }

    /// Puts the topmost value below the ones under it.
    fn rotate(&mut self, amount: usize) -> (result: StepResult)
        ensures
            forall|at: int|
                agrees(
                    #[trigger] semantics::rotate(old(self)@, amount, at),
                    final(self)@,
                    result,
                    at,
                ),
    {
        if amount < 2 {
            return Err(Fault::BadRotate);
        }
        if self.stack.len() < amount {
            return Err(Fault::StackUnderflow);
        }
        let mut values = self.pop_multiple(amount);
        let top = values.pop().unwrap();
        self.push_value(top);
        self.stack.append(&mut values);
        proof {
            let expected = old(self)@.drop(amount as int).push(old(self)@.nth(0)).extend(
                old(self)@.top(amount as int).drop_last(),
            );
            assert(self@.stack =~= expected.stack);
        }
        Ok(None)
    }

    /// Adds the topmost value to a collection below it.
    fn add_to_collection<V: VirtualMachine>(
        &mut self,
        vm: &mut V,
        i: usize,
        name: &str,
    ) -> (result: StepResult)
        ensures
            continues(final(vm).log(), old(vm).log()),
            forall|log: Seq<Event>|
                #![trigger semantics::add_to_collection(
                    old(self)@,
                    i,
                    name@,
                    log,
                    old(vm).log().len() as int,
                )]
                continues(log, final(vm).log()) ==> agrees(
                    semantics::add_to_collection(
                        old(self)@,
                        i,
                        name@,
                        log,
                        old(vm).log().len() as int,
                    ),
                    final(self)@,
                    result,
                    final(vm).log().len() as int,
                ),
    {
        if self.stack.len() <= i {
            return Err(Fault::StackUnderflow);
        }
        let collection = self.nth_value(i);
        let item = self.pop_value();
        match vm.call_method(collection, name, one(item)) {
            Ok(_) => Ok(None),
            Err(exc) => Ok(Some(Err(exc))),
        }
    }

    /// Adds the topmost pair of key and value to a dictionary below it.
    fn map_add<V: VirtualMachine>(&mut self, vm: &mut V, i: usize) -> (result: StepResult)
        ensures
            continues(final(vm).log(), old(vm).log()),
            forall|log: Seq<Event>|
                #![trigger semantics::map_add(old(self)@, i, log, old(vm).log().len() as int)]
                continues(log, final(vm).log()) ==> agrees(
                    semantics::map_add(old(self)@, i, log, old(vm).log().len() as int),
                    final(self)@,
                    result,
                    final(vm).log().len() as int,
                ),
    {
        if self.stack.len() < 2 || self.stack.len() - 2 < i {
            return Err(Fault::StackUnderflow);
        }
        let dict_obj = self.nth_value(i + 1);
        let key = self.pop_value();
        let value = self.pop_value();
        assert(self@.stack =~= old(self)@.drop(2).stack);
        let mut args = one(key);
        args.push(value);
        assert(args@ =~= seq![key, value]);
        match vm.call_method(dict_obj, "__setitem__", args) {
            Ok(_) => Ok(None),
            Err(exc) => Ok(Some(Err(exc))),
        }
    }

    fn return_value<V: VirtualMachine>(&mut self, vm: &mut V) -> (result: StepResult)
        ensures
            continues(final(vm).log(), old(vm).log()),
            forall|log: Seq<Event>|
                #![trigger semantics::return_value(old(self)@, log, old(vm).log().len() as int)]
                continues(log, final(vm).log()) ==> agrees(
                    semantics::return_value(old(self)@, log, old(vm).log().len() as int),
                    final(self)@,
                    result,
                    final(vm).log().len() as int,
                ),
    {
        if self.stack.len() < 1 {
            return Err(Fault::StackUnderflow);
        }
        let value = self.pop_value();
        let ghost rest = self@;
        let ghost at = vm.log().len() as int;
        let unwound = self.unwind_blocks(vm);
        proof {
            assert forall|log: Seq<Event>|
                #![trigger semantics::return_value(old(self)@, log, at)]
                continues(log, vm.log()) implies agrees(
                semantics::unwind_blocks(rest, log, at),
                self@,
                match unwound {
                    None => Ok(None),
                    Some(exception) => Ok(Some(Err(exception))),
                },
                vm.log().len() as int,
            ) by {}
        }
        match unwound {
            Some(exc) => Ok(Some(Err(exc))),
            None => Ok(Some(Ok(ExecutionResult::Return(value)))),
        }
    }

    fn setup_with<V: VirtualMachine>(
        &mut self,
        vm: &mut V,
        end: Label,
    ) -> (result: StepResult)
        ensures
            continues(final(vm).log(), old(vm).log()),
            forall|log: Seq<Event>|
                #![trigger semantics::setup_with(old(self)@, end, log, old(vm).log().len() as int)]
                continues(log, final(vm).log()) ==> agrees(
                    semantics::setup_with(old(self)@, end, log, old(vm).log().len() as int),
                    final(self)@,
                    result,
                    final(vm).log().len() as int,
                ),
    {
        if self.stack.len() < 1 {
            return Err(Fault::StackUnderflow);
        }
        let context_manager = self.pop_value();
        let no_args: Vec<PyObjectRef> = Vec::new();
        assert(no_args@ =~= seq![]);
        match vm.call_method(context_manager, "__enter__", no_args) {
            Ok(obj) => {
                self.push_block(Block::With { end, context_manager });
                self.push_value(obj);
                Ok(None)
            },
            Err(exc) => Ok(Some(Err(exc))),
        }
    }

    fn cleanup_with<V: VirtualMachine>(
        &mut self,
        vm: &mut V,
        end: Label,
    ) -> (result: StepResult)
        ensures
            continues(final(vm).log(), old(vm).log()),
            forall|log: Seq<Event>|
                #![trigger semantics::cleanup_with(
                    old(self)@,
                    end,
                    log,
                    old(vm).log().len() as int,
                )]
                continues(log, final(vm).log()) ==> agrees(
                    semantics::cleanup_with(old(self)@, end, log, old(vm).log().len() as int),
                    final(self)@,
                    result,
                    final(vm).log().len() as int,
                ),
    {
        match self.pop_block() {
            Some(Block::With { end: block_end, context_manager }) => {
                if end != block_end {
                    return Err(Fault::WrongBlock);
                }
                let ghost at = vm.log().len() as int;
                let exited = self.with_exit(vm, context_manager, None);
                proof {
                    assert forall|log: Seq<Event>|
                        #![trigger semantics::cleanup_with(old(self)@, end, log, at)]
                        continues(log, vm.log()) implies semantics::with_exit(
                        context_manager,
                        None,
                        log,
                        at,
                    ) == Some((exited, vm.log().len() as int)) by {}
                }
                match exited {
                    Ok(_) => Ok(None),
                    Err(exc) => Ok(Some(Err(exc))),
                }
            },
            Some(_) => Err(Fault::WrongBlock),
            None => Err(Fault::NoBlock),
        }
    }

    /// Leaves the innermost loop, then goes to its start or its end.
    fn leave_loop<V: VirtualMachine>(
        &mut self,
        vm: &mut V,
        restart: bool,
    ) -> (result: StepResult)
        ensures
            continues(final(vm).log(), old(vm).log()),
            forall|log: Seq<Event>|
                #![trigger semantics::leave_loop(
                    old(self)@,
                    restart,
                    log,
                    old(vm).log().len() as int,
                )]
                continues(log, final(vm).log()) ==> agrees(
                    semantics::leave_loop(old(self)@, restart, log, old(vm).log().len() as int),
                    final(self)@,
                    result,
                    final(vm).log().len() as int,
                ),
    {
        let ghost at = vm.log().len() as int;
        let left = self.unwind_loop(vm);
        let ghost rest = self@;
        proof {
            assert forall|log: Seq<Event>|
                #![trigger semantics::leave_loop(old(self)@, restart, log, at)]
                continues(log, vm.log()) implies semantics::unwind_loop(
                    old(self)@,
                    log,
                    at,
                ) == Some(
                (
                    rest,
                    match left {
                        Ok(block) => Ok::<(Label, Label), Fault>((block->start, block->Loop_end)),
                        Err(fault) => Err(fault),
                    },
                    vm.log().len() as int,
                ),
            ) by {}
        }
        match left {
            Ok(Block::Loop { start, end }) => {
                if restart {
                    self.jump(start)
                } else {
                    self.jump(end)
                }
            },
            Ok(_) => Err(Fault::NoLoop),
            Err(fault) => Err(fault),
        }
    }

    /// Moves the iterator on top of the stack on.
    fn for_iter<V: VirtualMachine>(&mut self, vm: &mut V) -> (result: StepResult)
        ensures
            continues(final(vm).log(), old(vm).log()),
            forall|log: Seq<Event>|
                #![trigger semantics::for_iter(old(self)@, log, old(vm).log().len() as int)]
                continues(log, final(vm).log()) ==> agrees(
                    semantics::for_iter(old(self)@, log, old(vm).log().len() as int),
                    final(self)@,
                    result,
                    final(vm).log().len() as int,
                ),
    {
        if self.stack.len() < 1 {
            return Err(Fault::StackUnderflow);
        }
        let top_of_stack = self.last_value();
        let no_args: Vec<PyObjectRef> = Vec::new();
        assert(no_args@ =~= seq![]);
        match vm.call_method(top_of_stack, "__next__", no_args) {
            Ok(value) => {
                self.push_value(value);
                Ok(None)
            },
            Err(next_error) => {
                if vm.is_instance(next_error, ExceptionType::StopIteration) {
                    self.pop_value();
                    if self.blocks.len() < 1 {
                        return Err(Fault::NoBlock);
                    }
                    match self.last_block() {
                        Block::Loop { start: _, end } => self.jump(end),
                        _ => Err(Fault::WrongBlock),
                    }
                } else {
                    Ok(Some(Err(next_error)))
                }
            },
        }
    }

    fn make_function<V: VirtualMachine>(
        &mut self,
        vm: &mut V,
        flags: FunctionOpArg,
    ) -> (result: StepResult)
        ensures
            continues(final(vm).log(), old(vm).log()),
            forall|log: Seq<Event>|
                #![trigger semantics::make_function(
                    old(self)@,
                    flags,
                    log,
                    old(vm).log().len() as int,
                )]
                continues(log, final(vm).log()) ==> agrees(
                    semantics::make_function(old(self)@, flags, log, old(vm).log().len() as int),
                    final(self)@,
                    result,
                    final(vm).log().len() as int,
                ),
    {
        if self.stack.len() < 2 || (flags.has_defaults() && self.stack.len() < 3) {
            return Err(Fault::StackUnderflow);
        }
        let _qualified_name = self.pop_value();
        let code_obj = self.pop_value();
        assert(self@.stack =~= old(self)@.drop(2).stack);
        let defaults = if flags.has_defaults() {
            let defaults = self.pop_value();
            assert(self@.stack =~= old(self)@.drop(3).stack);
            defaults
        } else {
            vm.none()
        };
        let scope = self.locals;
        let obj = vm.new_function(code_obj, scope, defaults);
        self.push_value(obj);
        Ok(None)
    }

    fn call_function<V: VirtualMachine>(
        &mut self,
        vm: &mut V,
        count: usize,
    ) -> (result: StepResult)
        ensures
            continues(final(vm).log(), old(vm).log()),
            forall|log: Seq<Event>|
                #![trigger semantics::call_function(
                    old(self)@,
                    count,
                    log,
                    old(vm).log().len() as int,
                )]
                continues(log, final(vm).log()) ==> agrees(
                    semantics::call_function(old(self)@, count, log, old(vm).log().len() as int),
                    final(self)@,
                    result,
                    final(vm).log().len() as int,
                ),
    {
        if self.stack.len() <= count {
            return Err(Fault::StackUnderflow);
        }
        let args = self.pop_multiple(count);
        let kwargs: Vec<(String, PyObjectRef)> = Vec::new();
        assert(named(kwargs@) =~= seq![]);
        let args = PyFuncArgs { args, kwargs };
        let func_ref = self.pop_value();
        assert(self@.stack =~= old(self)@.drop(count + 1).stack);
        match vm.invoke(func_ref, args) {
            Ok(value) => {
                self.push_value(value);
                Ok(None)
            },
            Err(exc) => Ok(Some(Err(exc))),
        }
    }

    fn call_function_kw<V: VirtualMachine>(
        &mut self,
        vm: &mut V,
        count: usize,
    ) -> (result: StepResult)
        ensures
            continues(final(vm).log(), old(vm).log()),
            forall|log: Seq<Event>|
                #![trigger semantics::call_function_kw(
                    old(self)@,
                    count,
                    log,
                    old(vm).log().len() as int,
                )]
                continues(log, final(vm).log()) ==> agrees(
                    semantics::call_function_kw(old(self)@, count, log, old(vm).log().len() as int),
                    final(self)@,
                    result,
                    final(vm).log().len() as int,
                ),
    {
        if self.stack.len() < 2 || self.stack.len() - 2 < count {
            return Err(Fault::StackUnderflow);
        }
        let ghost before = vm.log();
        let ghost at = before.len() as int;
        let kwarg_names = self.pop_value();
        let args = self.pop_multiple(count);
        let func_ref = self.pop_value();
        assert(self@.stack =~= old(self)@.drop(count + 2).stack);
        let elements = match vm.elements(kwarg_names) {
            Some(elements) => elements,
            None => return Err(Fault::NotSequence),
        };
        let mut found: Vec<String> = Vec::new();
        let mut i: usize = 0;
        assert(elements@.take(0) =~= Seq::empty());
        assert(texts(found@) =~= Seq::empty());
        let ghost start = at + 1;
        let ghost asked = vm.log();
        while i < elements.len()
            invariant
                i <= elements@.len(),
                found@.len() == i,
                start == at + 1 == asked.len(),
                before == old(vm).log(),
                at == before.len(),
                old(self)@.stack.len() >= count + 2,
                kwarg_names == old(self)@.nth(0),
                continues(asked, before),
                asked.len() == before.len() + 1,
                asked[at] == (Event {
                    request: Request::Elements { obj: kwarg_names },
                    reply: Reply::Objects(Some(elements@)),
                }),
                continues(vm.log(), asked),
                forall|log: Seq<Event>|
                    #![trigger semantics::names(elements@.take(i as int), log, start)]
                    continues(log, vm.log()) ==> semantics::names(
                        elements@.take(i as int),
                        log,
                        start,
                    ) == Some((Ok::<Seq<Seq<char>>, Fault>(texts(found@)), vm.log().len() as int)),
            decreases elements@.len() - i,
        {
            let ghost mid = vm.log();
            let ghost had = texts(found@);
            let kind = vm.kind(elements[i]);
            assert(elements@.take(i + 1).drop_last() =~= elements@.take(i as int));
            let ghost read = match &kind {
                PyObjectKind::String { value } => Ok::<Seq<Seq<char>>, Fault>(had.push(value@)),
                _ => Err(Fault::NotString),
            };
            proof {
                assert forall|log: Seq<Event>|
                    #![trigger semantics::names(elements@.take(i + 1), log, start)]
                    continues(log, vm.log()) implies semantics::names(
                    elements@.take(i + 1),
                    log,
                    start,
                ) == Some((read, vm.log().len() as int)) by {
                    assert(continues(log, mid));
                    assert(semantics::names(elements@.take(i as int), log, start) == Some(
                        (Ok::<Seq<Seq<char>>, Fault>(had), mid.len() as int),
                    ));
                }
            }
            match kind {
                PyObjectKind::String { value } => {
                    found.push(value);
                    assert(texts(found@) =~= read->Ok_0);
                },
                _ => {
                    proof {
                        assert forall|log: Seq<Event>|
                            #![trigger semantics::call_function_kw(old(self)@, count, log, at)]
                            continues(log, vm.log()) implies semantics::names(
                            elements@,
                            log,
                            start,
                        ) == Some((read, vm.log().len() as int)) && log[at] == asked[at] by {
                            lemma_names_stop(elements@, i + 1, log, start);
                            assert(semantics::names(elements@.take(i + 1), log, start) == Some(
                                (read, vm.log().len() as int),
                            ));
                        }
                    }
                    return Err(Fault::NotString);
                },
            }
            i = i + 1;
        }
        assert(elements@.take(i as int) =~= elements@);
        let ghost mid = vm.log();
        let ghost had = texts(found@);
        proof {
            assert forall|log: Seq<Event>|
                #![trigger semantics::call_function_kw(old(self)@, count, log, at)]
                continues(log, mid) implies semantics::names(elements@, log, start) == Some(
                (Ok::<Seq<Seq<char>>, Fault>(had), mid.len() as int),
            ) && log[at] == asked[at] by {
                assert(semantics::names(elements@.take(i as int), log, start) is Some);
            }
        }
        if found.len() > args.len() {
            return Err(Fault::MissingArguments);
        }
        let args = PyFuncArgs::new(args, found);
        match vm.invoke(func_ref, args) {
            Ok(value) => {
                assert(forall|log: Seq<Event>| continues(log, vm.log()) ==> continues(log, mid));
                self.push_value(value);
                Ok(None)
            },
            Err(exc) => Ok(Some(Err(exc))),
        }
    }

    /// Takes a value off the stack and jumps if it counts as `wanted`.
    fn jump_if<V: VirtualMachine>(
        &mut self,
        vm: &mut V,
        wanted: bool,
        target: Label,
    ) -> (result: StepResult)
        ensures
            continues(final(vm).log(), old(vm).log()),
            forall|log: Seq<Event>|
                #![trigger semantics::jump_if(
                    old(self)@,
                    wanted,
                    target,
                    log,
                    old(vm).log().len() as int,
                )]
                continues(log, final(vm).log()) ==> agrees(
                    semantics::jump_if(old(self)@, wanted, target, log, old(vm).log().len() as int),
                    final(self)@,
                    result,
                    final(vm).log().len() as int,
                ),
    {
        if self.stack.len() < 1 {
            return Err(Fault::StackUnderflow);
        }
        let obj = self.pop_value();
        match vm.boolval(obj) {
            Ok(value) => {
                if value == wanted {
                    self.jump(target)
                } else {
                    Ok(None)
                }
            },
            Err(exc) => Ok(Some(Err(exc))),
        }
    }

    fn raise<V: VirtualMachine>(&mut self, vm: &mut V, argc: usize) -> (result: StepResult)
        ensures
            continues(final(vm).log(), old(vm).log()),
            forall|log: Seq<Event>|
                #![trigger semantics::raise_instruction(
                    old(self)@,
                    argc,
                    log,
                    old(vm).log().len() as int,
                )]
                continues(log, final(vm).log()) ==> agrees(
                    semantics::raise_instruction(old(self)@, argc, log, old(vm).log().len() as int),
                    final(self)@,
                    result,
                    final(vm).log().len() as int,
                ),
    {
        if argc != 1 {
            return Err(Fault::RaiseArity);
        }
        if self.stack.len() < 1 {
            return Err(Fault::StackUnderflow);
        }
        let exception = self.pop_value();
        if vm.is_instance(exception, ExceptionType::BaseException) {
            Ok(Some(Err(exception)))
        } else {
            let text = vm.debug_text(exception);
            let mut msg = String::from_str("Can only raise BaseException derived types, not ");
            msg.append(text.as_str());
            let type_error = vm.new_exception(ExceptionType::TypeError, msg.as_str());
            Ok(Some(Err(type_error)))
        }
    }

    /// Prints the topmost value, unless it is `None`.
    fn print_expr<V: VirtualMachine>(&mut self, vm: &mut V) -> (result: StepResult)
        ensures
            continues(final(vm).log(), old(vm).log()),
            forall|log: Seq<Event>|
                #![trigger semantics::print_expr(old(self)@, log, old(vm).log().len() as int)]
                continues(log, final(vm).log()) ==> agrees(
                    semantics::print_expr(old(self)@, log, old(vm).log().len() as int),
                    final(self)@,
                    result,
                    final(vm).log().len() as int,
                ),
    {
        if self.stack.len() < 1 {
            return Err(Fault::StackUnderflow);
        }
        let expr = self.pop_value();
        match vm.kind(expr) {
            PyObjectKind::NoneValue => Ok(None),
            _ => match vm.to_repr(expr) {
                Ok(repr) => match vm.print(repr) {
                    Ok(_) => Ok(None),
                    Err(exc) => Err(Fault::PrintRaised(exc)),
                },
                Err(exc) => Err(Fault::ReprRaised(exc)),
            },
        }
    }

    fn store_locals<V: VirtualMachine>(&mut self, vm: &mut V) -> (result: StepResult)
        ensures
            continues(final(vm).log(), old(vm).log()),
            forall|log: Seq<Event>|
                #![trigger semantics::store_locals(old(self)@, log, old(vm).log().len() as int)]
                continues(log, final(vm).log()) ==> agrees(
                    semantics::store_locals(old(self)@, log, old(vm).log().len() as int),
                    final(self)@,
                    result,
                    final(vm).log().len() as int,
                ),
    {
        if self.stack.len() < 1 {
            return Err(Fault::StackUnderflow);
        }
        let locals = self.pop_value();
        match vm.kind(self.locals) {
            PyObjectKind::Scope { locals: _ } => {
                vm.set_scope_locals(self.locals, locals);
                Ok(None)
            },
            _ => Err(Fault::NotScope),
        }
    }

    /// Pushes the elements in `from..to`, the last one first.
    fn push_reversed(&mut self, elements: &Vec<PyObjectRef>, from: usize, to: usize)
        requires
            from <= to <= elements@.len(),
        ensures
            final(self)@ == old(self)@.extend(elements@.subrange(from as int, to as int).reverse()),
    {
        let mut at: usize = to;
        while at > from
            invariant
                from <= at <= to <= elements@.len(),
                self@ == old(self)@.extend(elements@.subrange(at as int, to as int).reverse()),
            decreases at,
        {
            at = at - 1;
            self.push_value(elements[at]);
            assert(self@.stack =~= old(self)@.extend(
                elements@.subrange(at as int, to as int).reverse(),
            ).stack);
        }
    }

    /// Puts the elements of a sequence onto the stack.
    fn unpack<V: VirtualMachine>(
        &mut self,
        vm: &mut V,
        size: Option<usize>,
    ) -> (result: StepResult)
        ensures
            continues(final(vm).log(), old(vm).log()),
            forall|log: Seq<Event>|
                #![trigger semantics::unpack(old(self)@, size, log, old(vm).log().len() as int)]
                continues(log, final(vm).log()) ==> agrees(
                    semantics::unpack(old(self)@, size, log, old(vm).log().len() as int),
                    final(self)@,
                    result,
                    final(vm).log().len() as int,
                ),
    {
        if self.stack.len() < 1 {
            return Err(Fault::StackUnderflow);
        }
        let value = self.pop_value();
        let elements = match vm.elements(value) {
            Some(elements) => elements,
            None => return Err(Fault::NotSequence),
        };
        if let Some(size) = size {
            if elements.len() != size {
                let exc = vm.new_exception(
                    ExceptionType::ValueError,
                    "Wrong number of values to unpack",
                );
                return Ok(Some(Err(exc)));
            }
        }
        self.push_reversed(&elements, 0, elements.len());
        assert(elements@.subrange(0, elements@.len() as int) =~= elements@);
        Ok(None)
    }

    /// Puts the first and the last elements of a sequence, and a list of the others, onto the stack.
    fn unpack_ex<V: VirtualMachine>(
        &mut self,
        vm: &mut V,
        before: usize,
        after: usize,
    ) -> (result: StepResult)
        ensures
            continues(final(vm).log(), old(vm).log()),
            forall|log: Seq<Event>|
                #![trigger semantics::unpack_ex(
                    old(self)@,
                    before,
                    after,
                    log,
                    old(vm).log().len() as int,
                )]
                continues(log, final(vm).log()) ==> agrees(
                    semantics::unpack_ex(
                        old(self)@,
                        before,
                        after,
                        log,
                        old(vm).log().len() as int,
                    ),
                    final(self)@,
                    result,
                    final(vm).log().len() as int,
                ),
    {
        if usize::MAX - before < after {
            return Err(Fault::UnpackOverflow);
        }
        let min_expected: usize = before + after;
        if self.stack.len() < 1 {
            return Err(Fault::StackUnderflow);
        }
        let value = self.pop_value();
        let ghost rest = self@;
        let elements = match vm.elements(value) {
            Some(elements) => elements,
            None => return Err(Fault::NotSequence),
        };
        if elements.len() < min_expected {
            let expected_text = decimal_text(min_expected);
            let got_text = decimal_text(elements.len());
            let mut msg = String::from_str("Not enough values to unpack (expected at least ");
            msg.append(expected_text.as_str());
            msg.append(", got ");
            msg.append(got_text.as_str());
            let exc = vm.new_exception(ExceptionType::ValueError, msg.as_str());
            return Ok(Some(Err(exc)));
        }
        let last: usize = elements.len() - after;
        self.push_reversed(&elements, last, elements.len());
        let mut middle: Vec<PyObjectRef> = Vec::new();
        let mut i: usize = before;
        while i < last
            invariant
                before <= i <= last <= elements@.len(),
                middle@ == elements@.subrange(before as int, i as int),
            decreases last - i,
        {
            middle.push(elements[i]);
            i = i + 1;
            assert(middle@ =~= elements@.subrange(before as int, i as int));
        }
        let t = vm.new_list(middle);
        self.push_value(t);
        self.push_reversed(&elements, 0, before);
        proof {
            assert(elements@.subrange(last as int, elements@.len() as int) =~= elements@.skip(
                last as int,
            ));
            assert(elements@.subrange(0, before as int) =~= elements@.take(before as int));
        }
        Ok(None)
    }

    /// Executes the next instruction.
    pub fn execute_instruction<V: VirtualMachine>(&mut self, vm: &mut V) -> (result: StepResult)
        ensures
            continues(final(vm).log(), old(vm).log()),
            forall|log: Seq<Event>|
                #![trigger semantics::execute_next(old(self)@, log, old(vm).log().len() as int)]
                continues(log, final(vm).log()) ==> agrees(
                    semantics::execute_next(old(self)@, log, old(vm).log().len() as int),
                    final(self)@,
                    result,
                    final(vm).log().len() as int,
                ),
    {
        let at = self.lasti;
        if at >= self.code.instructions.len() {
            return Err(Fault::NoInstruction);
        }
        self.fetch_instruction();
        match &self.code.instructions[at] {
            Instruction::LoadConst { value } => {
                let obj = self.unwrap_constant(vm, value);
                self.push_value(obj);
                Ok(None)
            },
            Instruction::Import { name, symbol } => {
                let name = name.clone();
                let symbol = clone_symbol(symbol);
                self.import(vm, name.as_str(), &symbol)
            },
            Instruction::LoadName { name } => {
                let name = name.clone();
                self.load_name(vm, name.as_str())
            },
            Instruction::StoreName { name } => {
                let name = name.clone();
                self.store_name(vm, name.as_str())
            },
            Instruction::DeleteName { name } => {
                let name = name.clone();
                self.delete_name(vm, name.as_str())
            },
            Instruction::StoreSubscript => self.execute_store_subscript(vm),
            Instruction::DeleteSubscript => self.execute_delete_subscript(vm),
            Instruction::Pop => {
                if self.stack.len() < 1 {
                    return Err(Fault::StackUnderflow);
                }
                self.pop_value();
                Ok(None)
            },
            Instruction::Duplicate => {
                if self.stack.len() < 1 {
                    return Err(Fault::StackUnderflow);
                }
                let value = self.last_value();
                self.push_value(value);
                Ok(None)
            },
            Instruction::Rotate { amount } => {
                let amount: usize = *amount;
                self.rotate(amount)
            },
            Instruction::BuildList { size } => {
                let size: usize = *size;
                if self.stack.len() < size {
                    return Err(Fault::StackUnderflow);
                }
                let elements = self.pop_multiple(size);
                let list_obj = vm.new_list(elements);
                self.push_value(list_obj);
                Ok(None)
            },
            Instruction::BuildSet { size } => {
                let size: usize = *size;
                if self.stack.len() < size {
                    return Err(Fault::StackUnderflow);
                }
                let elements = self.pop_multiple(size);
                let py_obj = vm.new_set(elements);
                self.push_value(py_obj);
                Ok(None)
            },
            Instruction::BuildTuple { size } => {
                let size: usize = *size;
                if self.stack.len() < size {
                    return Err(Fault::StackUnderflow);
                }
                let elements = self.pop_multiple(size);
                let tuple_obj = vm.new_tuple(elements);
                self.push_value(tuple_obj);
                Ok(None)
            },
            Instruction::BuildMap { size } => {
                let size: usize = *size;
                self.build_map(vm, size)
            },
            Instruction::BuildSlice { size } => {
                let size: usize = *size;
                self.build_slice(vm, size)
            },
            Instruction::ListAppend { i } => {
                let i: usize = *i;
                self.add_to_collection(vm, i, "append")
            },
            Instruction::SetAdd { i } => {
                let i: usize = *i;
                self.add_to_collection(vm, i, "add")
            },
            Instruction::MapAdd { i } => {
                let i: usize = *i;
                self.map_add(vm, i)
            },
            Instruction::BinaryOperation { op } => {
                let op = *op;
                self.execute_binop(vm, op)
            },
            Instruction::LoadAttr { name } => {
                let name = name.clone();
                self.load_attr(vm, name.as_str())
            },
            Instruction::StoreAttr { name } => {
                let name = name.clone();
                self.store_attr(vm, name.as_str())
            },
            Instruction::DeleteAttr { name } => {
                let name = name.clone();
                self.delete_attr(vm, name.as_str())
            },
            Instruction::UnaryOperation { op } => {
                let op = *op;
                self.execute_unop(vm, op)
            },
            Instruction::CompareOperation { op } => {
                let op = *op;
                self.execute_compare(vm, op)
            },
            Instruction::ReturnValue => self.return_value(vm),
            Instruction::YieldValue => {
                if self.stack.len() < 1 {
                    return Err(Fault::StackUnderflow);
                }
                let value = self.pop_value();
                Ok(Some(Ok(ExecutionResult::Yield(value))))
            },
            Instruction::SetupLoop { start, end } => {
                let block = Block::Loop { start: *start, end: *end };
                self.push_block(block);
                Ok(None)
            },
            Instruction::SetupExcept { handler } => {
                let block = Block::TryExcept { handler: *handler };
                self.push_block(block);
                Ok(None)
            },
            Instruction::SetupWith { end } => {
                let end: Label = *end;
                self.setup_with(vm, end)
            },
            Instruction::CleanupWith { end } => {
                let end: Label = *end;
                self.cleanup_with(vm, end)
            },
            Instruction::PopBlock => {
                self.pop_block();
                Ok(None)
            },
            Instruction::GetIter => {
                if self.stack.len() < 1 {
                    return Err(Fault::StackUnderflow);
                }
                let iterated_obj = self.pop_value();
                match vm.get_iter(iterated_obj) {
                    Ok(iter_obj) => {
                        self.push_value(iter_obj);
                        Ok(None)
                    },
                    Err(exc) => Ok(Some(Err(exc))),
                }
            },
            Instruction::ForIter => self.for_iter(vm),
            Instruction::MakeFunction { flags } => {
                let flags = *flags;
                self.make_function(vm, flags)
            },
            Instruction::CallFunction { count } => {
                let count: usize = *count;
                self.call_function(vm, count)
            },
            Instruction::CallFunctionKw { count } => {
                let count: usize = *count;
                self.call_function_kw(vm, count)
            },
            Instruction::Jump { target } => {
                let target: Label = *target;
                self.jump(target)
            },
            Instruction::JumpIf { target } => {
                let target: Label = *target;
                self.jump_if(vm, true, target)
            },
            Instruction::JumpIfFalse { target } => {
                let target: Label = *target;
                self.jump_if(vm, false, target)
            },
            Instruction::Raise { argc } => {
                let argc: usize = *argc;
                self.raise(vm, argc)
            },
            Instruction::Break => self.leave_loop(vm, false),
            Instruction::Pass => Ok(None),
            Instruction::Continue => self.leave_loop(vm, true),
            Instruction::PrintExpr => self.print_expr(vm),
            Instruction::LoadBuildClass => {
                let rustfunc = vm.build_class_function();
                self.push_value(rustfunc);
                Ok(None)
            },
            Instruction::StoreLocals => self.store_locals(vm),
            Instruction::UnpackSequence { size } => {
                let size: usize = *size;
                self.unpack(vm, Some(size))
            },
            Instruction::UnpackEx { before, after } => {
                let before: usize = *before;
                let after: usize = *after;
                self.unpack_ex(vm, before, after)
            },
            Instruction::Unpack => self.unpack(vm, None),
        }
    }

    /// Adds the place where an exception passed to its traceback.
    fn add_traceback<V: VirtualMachine>(
        &self,
        vm: &mut V,
        location: Location,
        exception: PyObjectRef,
    ) -> (result: Result<
        (),
        Fault,
    >)
        ensures
            continues(final(vm).log(), old(vm).log()),
            forall|log: Seq<Event>|
                #![trigger semantics::add_traceback(
                    self@.code,
                    location.row,
                    exception,
                    log,
                    old(vm).log().len() as int,
                )]
                continues(log, final(vm).log()) ==> semantics::add_traceback(
                    self@.code,
                    location.row,
                    exception,
                    log,
                    old(vm).log().len() as int,
                ) == Some(
                    (
                        match result {
                            Ok(_) => None,
                            Err(fault) => Some(fault),
                        },
                        final(vm).log().len() as int,
                    ),
                ),
    {
        if !vm.is_instance(exception, ExceptionType::BaseException) {
            return Err(Fault::NotException);
        }
        let traceback = match vm.get_attribute(exception, "__traceback__") {
            Ok(traceback) => traceback,
            Err(exc) => return Err(Fault::TracebackRaised(exc)),
        };
        let file = match &self.code.source_path {
            Some(source_path) => vm.new_str(source_path.as_str()),
            None => vm.new_str("<unknown>"),
        };
        let line = vm.new_int(location.get_row() as i32);
        let name = vm.new_str(self.code.obj_name.as_str());
        let pos = vm.new_tuple(three(file, line, name));
        match vm.list_append(traceback, pos) {
            Ok(_) => Ok(()),
            Err(exc) => Err(Fault::TracebackRaised(exc)),
        }
    }

    /// Executes an instruction. An exception that it raises goes to the innermost block that
    /// handles it; without one it ends the run.
    fn run_turn<V: VirtualMachine>(&mut self, vm: &mut V) -> (result: StepResult)
        ensures
            continues(final(vm).log(), old(vm).log()),
            forall|log: Seq<Event>|
                #![trigger semantics::turn(old(self)@, log, old(vm).log().len() as int)]
                continues(log, final(vm).log()) ==> agrees(
                    semantics::turn(old(self)@, log, old(vm).log().len() as int),
                    final(self)@,
                    result,
                    final(vm).log().len() as int,
                ),
    {
        if self.lasti >= self.code.locations.len() {
            return Err(Fault::NoLocation);
        }
        let ghost before = vm.log();
        let ghost at = before.len() as int;
        let lineno = self.get_lineno();
        let result = self.execute_instruction(vm);
        let ghost executed = self@;
        let ghost mid = vm.log();
        proof {
            law_turn_keeps_code_and_scope(old(self)@, mid, at);
            assert(agrees(
                semantics::execute_next(old(self)@, mid, at),
                executed,
                result,
                mid.len() as int,
            ));
        }
        match result {
            Ok(Some(Err(exception))) => {
                let noted = self.add_traceback(vm, lineno, exception);
                let ghost traced = vm.log();
                assert forall|log: Seq<Event>|
                    #![trigger semantics::turn(old(self)@, log, at)]
                    continues(log, traced) implies semantics::turn(old(self)@, log, at) == (
                match noted {
                    Ok(_) => semantics::unwind_exception(
                        executed,
                        exception,
                        log,
                        traced.len() as int,
                    ),
                    Err(reason) => semantics::fault(executed, reason, traced.len() as int),
                }) by {
                    assert(continues(log, mid));
                    let step = semantics::execute_next(old(self)@, log, at);
                    assert(agrees(step, executed, result, mid.len() as int));
                }
                match noted {
                    Ok(_) => {},
                    Err(fault) => return Err(fault),
                }
                let unwound = self.unwind_exception(vm, exception);
                assert(forall|log: Seq<Event>| continues(log, vm.log()) ==> continues(log, traced));
                match unwound {
                    Ok(None) => Ok(None),
                    Ok(Some(exception)) => Ok(Some(Err(exception))),
                    Err(fault) => Err(fault),
                }
            },
            result => result,
        }
    }

    /// Runs the frame until it returns, yields, or raises an exception that no block handles.
    pub fn run_frame<V: VirtualMachine>(&mut self, vm: &mut V) -> (result: Result<
        FrameResult,
        Fault,
    >)
        ensures
            continues(final(vm).log(), old(vm).log()),
            forall|log: Seq<Event>|
                #![trigger semantics::complete_run(old(self)@, log, old(vm).log().len() as int)]
                continues(log, final(vm).log()) ==> agrees(
                    semantics::complete_run(old(self)@, log, old(vm).log().len() as int),
                    final(self)@,
                    match result {
                        Ok(result) => Ok(Some(result)),
                        Err(fault) => Err(fault),
                    },
                    final(vm).log().len() as int,
                ),
    {
        let ghost before = vm.log();
        let ghost at = before.len() as int;
        let mut turns: u64 = u64::MAX;
        while turns > 0
            invariant
                before == old(vm).log(),
                at == before.len(),
                continues(vm.log(), before),
                forall|log: Seq<Event>|
                    #![trigger semantics::complete_run(old(self)@, log, at)]
                    continues(log, vm.log()) ==> semantics::complete_run(old(self)@, log, at)
                        == semantics::finish(
                        semantics::run(self@, turns as nat, log, vm.log().len() as int),
                    ),
            decreases turns,
        {
            let ghost frame = self@;
            let ghost mid = vm.log();
            let ghost left = turns as nat;
            let result = self.run_turn(vm);
            turns = turns - 1;
            proof {
                assert forall|log: Seq<Event>|
                    #![trigger semantics::complete_run(old(self)@, log, at)]
                    continues(log, vm.log()) implies semantics::complete_run(old(self)@, log, at)
                    == (match result {
                    Ok(None) => semantics::finish(
                        semantics::run(self@, turns as nat, log, vm.log().len() as int),
                    ),
                    _ => semantics::turn(frame, log, mid.len() as int),
                }) by {
                    assert(continues(log, mid));
                    assert(agrees(
                        semantics::turn(frame, log, mid.len() as int),
                        self@,
                        result,
                        vm.log().len() as int,
                    ));
                    assert(semantics::complete_run(old(self)@, log, at) == semantics::finish(
                        semantics::run(frame, left, log, mid.len() as int),
                    ));
                }
            }
            match result {
                Ok(None) => {},
                Ok(Some(result)) => return Ok(result),
                Err(fault) => return Err(fault),
            }
        }
        Err(Fault::TooManyTurns)
    }

    /// Runs a frame that has to return a value.
    pub fn run_frame_full<V: VirtualMachine>(&mut self, vm: &mut V) -> (result: Result<
        PyResult,
        Fault,
    >)
        ensures
            continues(final(vm).log(), old(vm).log()),
            ({
                let step = semantics::complete_run(
                    old(self)@,
                    final(vm).log(),
                    old(vm).log().len() as int,
                );
                &&& step.at == final(vm).log().len()
                &&& match step.outcome {
                    Outcome::Done(Ok(ExecutionResult::Return(value))) => result == Ok::<
                        PyResult,
                        Fault,
                    >(Ok(value)) && final(self)@ == step.frame,
                    Outcome::Done(Ok(ExecutionResult::Yield(_))) => result == Err::<
                        PyResult,
                        Fault,
                    >(Fault::UnexpectedYield),
                    Outcome::Done(Err(exception)) => result == Ok::<PyResult, Fault>(Err(exception))
                        && final(self)@ == step.frame,
                    Outcome::Fault(fault) => result == Err::<PyResult, Fault>(fault),
                    _ => false,
                }
            }),
    {
        let run = self.run_frame(vm);
        assert(continues(vm.log(), vm.log()));
        match run {
            Ok(Ok(ExecutionResult::Return(value))) => Ok(Ok(value)),
            Ok(Ok(ExecutionResult::Yield(_))) => Err(Fault::UnexpectedYield),
            Ok(Err(err)) => Ok(Err(err)),
            Err(fault) => Err(fault),
        }
    }

    /// The values on the stack as text.
    fn stack_text<V: VirtualMachine>(&self, vm: &mut V) -> (text: String)
        ensures
            continues(final(vm).log(), old(vm).log()),
            forall|log: Seq<Event>|
                #![trigger semantics::stack_text(self@.stack, log, old(vm).log().len() as int)]
                continues(log, final(vm).log()) ==> semantics::stack_text(
                    self@.stack,
                    log,
                    old(vm).log().len() as int,
                ) == Some((text@, final(vm).log().len() as int)),
    {
        let mut text = String::new();
        let mut i: usize = 0;
        let ghost before = vm.log();
        let ghost at = before.len() as int;
        assert(self@.stack.take(0) =~= Seq::empty());
        while i < self.stack.len()
            invariant
                i <= self.stack@.len(),
                before == old(vm).log(),
                at == before.len(),
                continues(vm.log(), before),
                forall|log: Seq<Event>|
                    #![trigger semantics::stack_text(self@.stack.take(i as int), log, at)]
                    continues(log, vm.log()) ==> semantics::stack_text(
                        self@.stack.take(i as int),
                        log,
                        at,
                    ) == Some((text@, vm.log().len() as int)),
            decreases self.stack@.len() - i,
        {
            let ghost mid = vm.log();
            let ghost was = text@;
            let shown = vm.str_text(self.stack[i]);
            text.append("\n  > ");
            text.append(shown.as_str());
            proof {
                assert(self@.stack.take(i + 1).drop_last() =~= self@.stack.take(i as int));
                assert forall|log: Seq<Event>|
                    #![trigger semantics::stack_text(self@.stack.take(i + 1), log, at)]
                    continues(log, vm.log()) implies semantics::stack_text(
                    self@.stack.take(i + 1),
                    log,
                    at,
                ) == Some((text@, vm.log().len() as int)) by {
                    assert(continues(log, mid));
                    assert(semantics::stack_text(self@.stack.take(i as int), log, at) == Some(
                        (was, mid.len() as int),
                    ));
                }
            }
            i = i + 1;
        }
        assert(self@.stack.take(i as int) =~= self@.stack);
        text
    }

    /// The blocks as text.
    fn blocks_text<V: VirtualMachine>(&self, vm: &mut V) -> (text: String)
        ensures
            continues(final(vm).log(), old(vm).log()),
            forall|log: Seq<Event>|
                #![trigger semantics::blocks_text(self@.blocks, log, old(vm).log().len() as int)]
                continues(log, final(vm).log()) ==> semantics::blocks_text(
                    self@.blocks,
                    log,
                    old(vm).log().len() as int,
                ) == Some((text@, final(vm).log().len() as int)),
    {
        let mut text = String::new();
        let mut i: usize = 0;
        let ghost before = vm.log();
        let ghost at = before.len() as int;
        assert(self@.blocks.take(0) =~= Seq::empty());
        while i < self.blocks.len()
            invariant
                i <= self.blocks@.len(),
                before == old(vm).log(),
                at == before.len(),
                continues(vm.log(), before),
                forall|log: Seq<Event>|
                    #![trigger semantics::blocks_text(self@.blocks.take(i as int), log, at)]
                    continues(log, vm.log()) ==> semantics::blocks_text(
                        self@.blocks.take(i as int),
                        log,
                        at,
                    ) == Some((text@, vm.log().len() as int)),
            decreases self.blocks@.len() - i,
        {
            let ghost mid = vm.log();
            let ghost was = text@;
            let shown = block_text(vm, self.blocks[i]);
            text.append("\n  > ");
            text.append(shown.as_str());
            proof {
                assert(self@.blocks.take(i + 1).drop_last() =~= self@.blocks.take(i as int));
                assert forall|log: Seq<Event>|
                    #![trigger semantics::blocks_text(self@.blocks.take(i + 1), log, at)]
                    continues(log, vm.log()) implies semantics::blocks_text(
                    self@.blocks.take(i + 1),
                    log,
                    at,
                ) == Some((text@, vm.log().len() as int)) by {
                    assert(continues(log, mid));
                    assert(semantics::blocks_text(self@.blocks.take(i as int), log, at) == Some(
                        (was, mid.len() as int),
                    ));
                    assert(semantics::block_text(self@.blocks[i as int], log, mid.len() as int)
                        == Some((shown@, vm.log().len() as int)));
                }
            }
            i = i + 1;
        }
        assert(self@.blocks.take(i as int) =~= self@.blocks);
        text
    }

    /// The variables as text.
    fn locals_text<V: VirtualMachine>(&self, vm: &mut V) -> (result: Result<String, Fault>)
        ensures
            continues(final(vm).log(), old(vm).log()),
            forall|log: Seq<Event>|
                #![trigger semantics::locals_text(self@.locals, log, old(vm).log().len() as int)]
                continues(log, final(vm).log()) ==> semantics::locals_text(
                    self@.locals,
                    log,
                    old(vm).log().len() as int,
                ) == Some(
                    (
                        match result {
                            Ok(text) => Ok(text@),
                            Err(fault) => Err(fault),
                        },
                        final(vm).log().len() as int,
                    ),
                ),
    {
        let ghost before = vm.log();
        let locals = match vm.kind(self.locals) {
            PyObjectKind::Scope { locals } => locals,
            _ => return Err(Fault::NotScope),
        };
        let items = match vm.dict_items(locals) {
            Some(items) => items,
            None => return Err(Fault::NotDict),
        };
        let ghost all = named(items@);
        let ghost asked = vm.log();
        let ghost at = asked.len() as int;
        let mut text = String::new();
        let mut i: usize = 0;
        assert(all.take(0) =~= Seq::empty());
        while i < items.len()
            invariant
                i <= items@.len(),
                all == named(items@),
                at == asked.len(),
                continues(vm.log(), asked),
                forall|log: Seq<Event>|
                    #![trigger semantics::items_text(all.take(i as int), log, at)]
                    continues(log, vm.log()) ==> semantics::items_text(all.take(i as int), log, at)
                        == Some((text@, vm.log().len() as int)),
            decreases items@.len() - i,
        {
            let ghost mid = vm.log();
            let ghost was = text@;
            let shown = vm.str_text(items[i].1);
            text.append("\n  ");
            text.append(items[i].0.as_str());
            text.append(" = ");
            text.append(shown.as_str());
            proof {
                assert(all.take(i + 1).drop_last() =~= all.take(i as int));
                assert(all[i as int] == (items@[i as int].0@, items@[i as int].1));
                assert forall|log: Seq<Event>|
                    #![trigger semantics::items_text(all.take(i + 1), log, at)]
                    continues(log, vm.log()) implies semantics::items_text(all.take(i + 1), log, at)
                    == Some((text@, vm.log().len() as int)) by {
                    assert(continues(log, mid));
                    assert(semantics::items_text(all.take(i as int), log, at) == Some(
                        (was, mid.len() as int),
                    ));
                }
            }
            i = i + 1;
        }
        proof {
            assert(all.take(i as int) =~= all);
            assert forall|log: Seq<Event>|
                #![trigger semantics::locals_text(self@.locals, log, before.len() as int)]
                continues(log, vm.log()) implies semantics::items_text(all, log, at) == Some(
                (text@, vm.log().len() as int),
            ) && continues(log, asked) by {
                assert(semantics::items_text(all.take(i as int), log, at) is Some);
            }
        }
        Ok(text)
    }

    /// The frame as text, for developers.
    pub fn describe<V: VirtualMachine>(&self, vm: &mut V) -> (result: Result<String, Fault>)
        ensures
            continues(final(vm).log(), old(vm).log()),
            forall|log: Seq<Event>|
                #![trigger semantics::frame_text(self@, log, old(vm).log().len() as int)]
                continues(log, final(vm).log()) ==> semantics::frame_text(
                    self@,
                    log,
                    old(vm).log().len() as int,
                ) == Some(
                    (
                        match result {
                            Ok(text) => Ok(text@),
                            Err(fault) => Err(fault),
                        },
                        final(vm).log().len() as int,
                    ),
                ),
    {
        let ghost first = vm.log();
        let stack_str = self.stack_text(vm);
        let ghost second = vm.log();
        let block_str = self.blocks_text(vm);
        let ghost third = vm.log();
        let local_str = self.locals_text(vm);
        proof {
            assert forall|log: Seq<Event>|
                #![trigger semantics::frame_text(self@, log, first.len() as int)]
                continues(
                    log,
                    vm.log(),
                ) implies continues(log, second) && continues(log, third) by {}
        }
        match local_str {
            Ok(local_str) => {
                let mut text = String::from_str("Frame Object { \n Stack:");
                text.append(stack_str.as_str());
                text.append("\n Blocks:");
                text.append(block_str.as_str());
                text.append("\n Locals:");
                text.append(local_str.as_str());
                text.append("\n}");
                Ok(text)
            },
            Err(fault) => Err(fault),
        }
    }
}

} // verus!
