//! The instruction set that a frame executes.
use std::collections::HashMap;

use vstd::prelude::*;

use crate::location::Location;

verus! {

/// A jump target; the code object's label map says where it leads.
pub type Label = usize;

#[derive(Clone, Copy, Debug, PartialEq, Eq, Structural)]
pub enum BinaryOperator {
    Power,
    Multiply,
    MatrixMultiply,
    Divide,
    FloorDivide,
    Modulo,
    Add,
    Subtract,
    Subscript,
    Lshift,
    Rshift,
    And,
    Xor,
    Or,
}

#[derive(Clone, Copy, Debug, PartialEq, Eq, Structural)]
pub enum UnaryOperator {
    Not,
    Invert,
    Minus,
    Plus,
}

#[derive(Clone, Copy, Debug, PartialEq, Eq, Structural)]
pub enum ComparisonOperator {
    Greater,
    GreaterOrEqual,
    Less,
    LessOrEqual,
    Equal,
    NotEqual,
    In,
    NotIn,
    Is,
    IsNot,
}

/// What a `MakeFunction` finds on the stack besides the code and the name.
#[derive(Clone, Copy, Debug, PartialEq, Eq, Structural)]
pub struct FunctionOpArg {
    pub bits: u8,
}

/// The bit that says that a tuple of default values lies below the code.
pub const HAS_DEFAULTS: u8 = 0x01;

impl FunctionOpArg {
    pub open spec fn with_defaults(self) -> bool {
        self.bits & HAS_DEFAULTS == HAS_DEFAULTS
    }

    pub fn has_defaults(&self) -> (has: bool)
        ensures
            has == self.with_defaults(),
    {
        self.bits & HAS_DEFAULTS == HAS_DEFAULTS
    }
}

/// A value that the compiler put into the code.
#[derive(Debug)]
#[allow(inconsistent_fields)]
pub enum Constant {
    Integer { value: i32 },
    /// The bits of an IEEE 754 double.
    Float { bits: u64 },
    String { value: String },
    Boolean { value: bool },
    Code { code: Box<CodeObject> },
    Tuple { elements: Vec<Constant> },
    NoneValue,
}

#[derive(Debug)]
#[allow(inconsistent_fields)]
pub enum Instruction {
    Import { name: String, symbol: Option<String> },
    LoadName { name: String },
    StoreName { name: String },
    DeleteName { name: String },
    StoreSubscript,
    DeleteSubscript,
    StoreAttr { name: String },
    DeleteAttr { name: String },
    LoadConst { value: Constant },
    UnaryOperation { op: UnaryOperator },
    BinaryOperation { op: BinaryOperator },
    LoadAttr { name: String },
    CompareOperation { op: ComparisonOperator },
    Pop,
    Rotate { amount: usize },
    Duplicate,
    GetIter,
    Pass,
    Continue,
    Break,
    Jump { target: Label },
    JumpIf { target: Label },
    JumpIfFalse { target: Label },
    MakeFunction { flags: FunctionOpArg },
    CallFunction { count: usize },
    CallFunctionKw { count: usize },
    ForIter,
    ReturnValue,
    YieldValue,
    SetupLoop { start: Label, end: Label },
    SetupExcept { handler: Label },
    SetupWith { end: Label },
    CleanupWith { end: Label },
    PopBlock,
    Raise { argc: usize },
    BuildTuple { size: usize },
    BuildList { size: usize },
    BuildSet { size: usize },
    BuildMap { size: usize },
    BuildSlice { size: usize },
    ListAppend { i: usize },
    SetAdd { i: usize },
    MapAdd { i: usize },
    PrintExpr,
    LoadBuildClass,
    StoreLocals,
    UnpackSequence { size: usize },
    UnpackEx { before: usize, after: usize },
    Unpack,
}

/// A compiled piece of a program.
#[derive(Debug)]
pub struct CodeObject {
    pub instructions: Vec<Instruction>,
    /// Where each label leads: an index into the instructions.
    pub label_map: HashMap<Label, usize>,
    /// The place in the source that each instruction was compiled from.
    pub locations: Vec<Location>,
    pub source_path: Option<String>,
    /// The name of the object whose code this is.
    pub obj_name: String,
}

impl CodeObject {
    /// A code object without instructions.
    pub fn new(source_path: Option<String>, obj_name: String) -> (code: CodeObject)
        ensures
            code.instructions@ == Seq::<Instruction>::empty(),
            code.label_map@ == Map::<Label, usize>::empty(),
            code.locations@ == Seq::<Location>::empty(),
            code.source_path == source_path,
            code.obj_name == obj_name,
    {
        CodeObject {
            instructions: Vec::new(),
            label_map: HashMap::new(),
            locations: Vec::new(),
            source_path,
            obj_name,
        }
    }
}

} // verus!
