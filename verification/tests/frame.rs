//! Runs of frames on a small machine that owns its objects and notes what it is asked.
use rustpython::bytecode::{
    BinaryOperator, CodeObject, ComparisonOperator, Constant, FunctionOpArg, Instruction,
    UnaryOperator, HAS_DEFAULTS,
};
use rustpython::frame::{copy_code, Block, ExecutionResult, Fault, Frame, FrameResult};
use rustpython::location::Location;
use rustpython::pyobject::{ExceptionType, PyFuncArgs, PyObjectKind, PyObjectRef, PyResult};
use rustpython::replay::{Answer, Replay};
use rustpython::vm::{ImportDirectory, Record, VirtualMachine};

#[derive(Clone, Debug, PartialEq)]
enum Object {
    NoneObject,
    Int(i32),
    Float(u64),
    Str(String),
    Bool(bool),
    Tuple(Vec<PyObjectRef>),
    List(Vec<PyObjectRef>),
    SetOf(Vec<PyObjectRef>),
    Dict(Vec<(String, PyObjectRef)>),
    Slice(Option<i32>, Option<i32>, Option<i32>),
    Code(String),
    Scope { locals: PyObjectRef, parent: Option<PyObjectRef> },
    Exception { typ: ExceptionType, message: String, traceback: PyObjectRef },
    Iterator { items: Vec<PyObjectRef>, at: usize },
    /// A context manager whose exit answers with the object, or raises it.
    Manager { exit: Result<PyObjectRef, PyObjectRef> },
    /// An object whose methods all raise the exception.
    Raising(PyObjectRef),
    Plain(&'static str),
}

struct Machine {
    objects: Vec<Object>,
    notes: Vec<String>,
    printed: Vec<String>,
    codes: Vec<CodeObject>,
}

fn handle(id: usize) -> PyObjectRef {
    PyObjectRef { id }
}

impl Machine {
    fn new() -> Machine {
        let mut machine = Machine {
            objects: vec![],
            notes: vec![],
            printed: vec![],
            codes: vec![],
        };
        machine.add(Object::NoneObject);
        let locals = machine.add(Object::Dict(vec![]));
        machine.add(Object::Scope { locals, parent: None });
        machine
    }

    fn add(&mut self, object: Object) -> PyObjectRef {
        self.objects.push(object);
        handle(self.objects.len() - 1)
    }

    fn get(&self, obj: PyObjectRef) -> Object {
        self.objects[obj.id].clone()
    }

    fn exception(&mut self, typ: ExceptionType, message: &str) -> PyObjectRef {
        let traceback = self.add(Object::List(vec![]));
        self.add(Object::Exception { typ, message: message.to_string(), traceback })
    }

    fn locals_of(&self, scope: PyObjectRef) -> PyObjectRef {
        match self.get(scope) {
            Object::Scope { locals, .. } => locals,
            _ => panic!("not a scope"),
        }
    }

    fn text(&self, obj: PyObjectRef) -> String {
        match self.get(obj) {
            Object::NoneObject => "None".to_string(),
            Object::Int(value) => format!("{}", value),
            Object::Str(value) => value,
            Object::Bool(value) => format!("{}", value),
            other => format!("{:?}", other),
        }
    }
}

const NONE: PyObjectRef = PyObjectRef { id: 0 };
const SCOPE: PyObjectRef = PyObjectRef { id: 2 };

impl VirtualMachine for Machine {
    fn log(&self) -> Record {
        unreachable!()
    }

    fn kind(&mut self, obj: PyObjectRef) -> PyObjectKind {
        match self.get(obj) {
            Object::NoneObject => PyObjectKind::NoneValue,
            Object::Int(value) => PyObjectKind::Integer { value },
            Object::Float(bits) => PyObjectKind::Float { bits },
            Object::Str(value) => PyObjectKind::String { value },
            Object::List(_) => PyObjectKind::List,
            Object::Code(_) => PyObjectKind::Code { code: self.codes.pop().unwrap() },
            Object::Scope { locals, .. } => PyObjectKind::Scope { locals },
            _ => PyObjectKind::Other,
        }
    }

    fn none(&mut self) -> PyObjectRef {
        NONE
    }

    fn new_int(&mut self, value: i32) -> PyObjectRef {
        self.add(Object::Int(value))
    }

    fn new_float(&mut self, bits: u64) -> PyObjectRef {
        self.add(Object::Float(bits))
    }

    fn new_str(&mut self, value: &str) -> PyObjectRef {
        self.add(Object::Str(value.to_string()))
    }

    fn new_bool(&mut self, value: bool) -> PyObjectRef {
        self.add(Object::Bool(value))
    }

    fn new_tuple(&mut self, elements: Vec<PyObjectRef>) -> PyObjectRef {
        self.add(Object::Tuple(elements))
    }

    fn new_list(&mut self, elements: Vec<PyObjectRef>) -> PyObjectRef {
        self.add(Object::List(elements))
    }

    fn new_set(&mut self, elements: Vec<PyObjectRef>) -> PyObjectRef {
        self.add(Object::SetOf(elements))
    }

    fn new_dict(&mut self, entries: Vec<(String, PyObjectRef)>) -> PyObjectRef {
        self.add(Object::Dict(entries))
    }

    fn new_slice(
        &mut self,
        start: Option<i32>,
        stop: Option<i32>,
        step: Option<i32>,
    ) -> PyObjectRef {
        self.add(Object::Slice(start, stop, step))
    }

    fn new_code(&mut self, code: &CodeObject) -> PyObjectRef {
        self.add(Object::Code(code.obj_name.clone()))
    }

    fn new_function(
        &mut self,
        code: PyObjectRef,
        scope: PyObjectRef,
        defaults: PyObjectRef,
    ) -> PyObjectRef {
        self.notes.push(format!("function {} {} {}", code.id, scope.id, defaults.id));
        self.add(Object::Plain("function"))
    }

    fn build_class_function(&mut self) -> PyObjectRef {
        self.add(Object::Plain("__build_class__"))
    }

    fn new_exception(&mut self, exc_type: ExceptionType, message: &str) -> PyObjectRef {
        self.exception(exc_type, message)
    }

    fn is_instance(&mut self, obj: PyObjectRef, exc_type: ExceptionType) -> bool {
        match self.get(obj) {
            Object::Exception { typ, .. } => {
                typ == exc_type || exc_type == ExceptionType::BaseException
            }
            _ => false,
        }
    }

    fn type_of(&mut self, obj: PyObjectRef) -> PyObjectRef {
        let name = match self.get(obj) {
            Object::Int(_) => "int",
            Object::Exception { .. } => "exception",
            _ => "object",
        };
        self.add(Object::Plain(name))
    }

    fn name_of_type(&mut self, typ: PyObjectRef) -> String {
        match self.get(typ) {
            Object::Plain(name) => name.to_string(),
            _ => panic!("not a type"),
        }
    }

    fn debug_text(&mut self, obj: PyObjectRef) -> String {
        format!("<{}>", self.text(obj))
    }

    fn str_text(&mut self, obj: PyObjectRef) -> String {
        self.text(obj)
    }

    fn elements(&mut self, obj: PyObjectRef) -> Option<Vec<PyObjectRef>> {
        match self.get(obj) {
            Object::Tuple(elements) => Some(elements),
            Object::List(elements) => Some(elements),
            _ => None,
        }
    }

    fn dict_items(&mut self, obj: PyObjectRef) -> Option<Vec<(String, PyObjectRef)>> {
        match self.get(obj) {
            Object::Dict(entries) => Some(entries),
            _ => None,
        }
    }

    fn bool_value(&mut self, obj: PyObjectRef) -> Option<bool> {
        match self.get(obj) {
            Object::Bool(value) => Some(value),
            _ => None,
        }
    }

    fn boolval(&mut self, obj: PyObjectRef) -> Result<bool, PyObjectRef> {
        match self.get(obj) {
            Object::NoneObject => Ok(false),
            Object::Bool(value) => Ok(value),
            Object::Int(value) => Ok(value != 0),
            Object::Raising(exception) => Err(exception),
            _ => Ok(true),
        }
    }

    fn call_method(
        &mut self,
        obj: PyObjectRef,
        name: &str,
        args: Vec<PyObjectRef>,
    ) -> PyResult {
        let ids: Vec<usize> = args.iter().map(|arg| arg.id).collect();
        self.notes.push(format!("{} {} {:?}", obj.id, name, ids));
        match (self.get(obj), name) {
            (Object::Raising(exception), _) => Err(exception),
            (Object::Iterator { items, at }, "__next__") => {
                if at < items.len() {
                    let item = items[at];
                    self.objects[obj.id] = Object::Iterator { items, at: at + 1 };
                    Ok(item)
                } else {
                    Err(self.exception(ExceptionType::StopIteration, ""))
                }
            }
            (Object::Manager { .. }, "__enter__") => Ok(obj),
            (Object::Manager { exit }, "__exit__") => exit,
            (Object::Int(a), "__eq__") => {
                let value = self.get(args[0]) == Object::Int(a);
                Ok(self.new_bool(value))
            }
            (Object::Int(a), "__lt__") => match self.get(args[0]) {
                Object::Int(b) => Ok(self.new_bool(a < b)),
                _ => Ok(NONE),
            },
            (Object::List(mut elements), "append") => {
                elements.push(args[0]);
                self.objects[obj.id] = Object::List(elements);
                Ok(NONE)
            }
            (Object::List(elements), "__contains__") => {
                let value = elements.contains(&args[0]);
                Ok(self.new_bool(value))
            }
            (_, "__contains__") => Err(self.exception(ExceptionType::TypeError, "no container")),
            (Object::Dict(mut entries), "__delitem__") => {
                let key = self.text(args[0]);
                if entries.iter().any(|entry| entry.0 == key) {
                    entries.retain(|entry| entry.0 != key);
                    self.objects[obj.id] = Object::Dict(entries);
                    Ok(NONE)
                } else {
                    Err(self.exception(ExceptionType::NameError, "missing"))
                }
            }
            _ => Ok(NONE),
        }
    }

    fn invoke(&mut self, func: PyObjectRef, args: PyFuncArgs) -> PyResult {
        let ids: Vec<usize> = args.args.iter().map(|arg| arg.id).collect();
        let named: Vec<(String, usize)> =
            args.kwargs.iter().map(|kwarg| (kwarg.0.clone(), kwarg.1.id)).collect();
        self.notes.push(format!("call {} {:?} {:?}", func.id, ids, named));
        match self.get(func) {
            Object::Raising(exception) => Err(exception),
            _ => Ok(func),
        }
    }

    fn arithmetic(&mut self, op: BinaryOperator, a: PyObjectRef, b: PyObjectRef) -> PyResult {
        match (op, self.get(a), self.get(b)) {
            (BinaryOperator::Add, Object::Int(a), Object::Int(b)) => Ok(self.new_int(a + b)),
            (BinaryOperator::Subtract, Object::Int(a), Object::Int(b)) => Ok(self.new_int(a - b)),
            _ => Err(self.exception(ExceptionType::TypeError, "unsupported operand")),
        }
    }

    fn get_attribute(&mut self, obj: PyObjectRef, name: &str) -> PyResult {
        match (self.get(obj), name) {
            (Object::Exception { traceback, .. }, "__traceback__") => Ok(traceback),
            _ => {
                let message = format!("no {}", name);
                Err(self.exception(ExceptionType::NameError, &message))
            }
        }
    }

    fn set_attr(&mut self, obj: PyObjectRef, name: &str, value: PyObjectRef) {
        self.notes.push(format!("setattr {} {} {}", obj.id, name, value.id));
    }

    fn set_item(&mut self, scope: PyObjectRef, name: &str, value: PyObjectRef) {
        let locals = self.locals_of(scope);
        if let Object::Dict(entries) = &mut self.objects[locals.id] {
            entries.retain(|entry| entry.0 != name);
            entries.push((name.to_string(), value));
        }
    }

    fn contains_key(&mut self, scope: PyObjectRef, name: &str) -> bool {
        self.get_item(scope, name).is_some()
    }

    fn get_item(&mut self, scope: PyObjectRef, name: &str) -> Option<PyObjectRef> {
        match self.get(self.locals_of(scope)) {
            Object::Dict(entries) => {
                entries.iter().find(|entry| entry.0 == name).map(|entry| entry.1)
            }
            _ => None,
        }
    }

    fn has_parent(&mut self, scope: PyObjectRef) -> bool {
        match self.get(scope) {
            Object::Scope { parent, .. } => parent.is_some(),
            _ => false,
        }
    }

    fn get_parent(&mut self, scope: PyObjectRef) -> PyObjectRef {
        match self.get(scope) {
            Object::Scope { parent: Some(parent), .. } => parent,
            _ => panic!("no parent"),
        }
    }

    fn set_scope_locals(&mut self, scope: PyObjectRef, locals: PyObjectRef) {
        if let Object::Scope { parent, .. } = self.get(scope) {
            self.objects[scope.id] = Object::Scope { locals, parent };
        }
    }

    fn list_set_item(
        &mut self,
        list: PyObjectRef,
        index: PyObjectRef,
        value: PyObjectRef,
    ) -> PyResult {
        match (self.get(list), self.get(index)) {
            (Object::List(mut elements), Object::Int(index)) => {
                elements[index as usize] = value;
                self.objects[list.id] = Object::List(elements);
                Ok(NONE)
            }
            _ => Err(self.exception(ExceptionType::TypeError, "bad index")),
        }
    }

    fn list_append(&mut self, list: PyObjectRef, item: PyObjectRef) -> PyResult {
        match self.get(list) {
            Object::List(mut elements) => {
                elements.push(item);
                self.objects[list.id] = Object::List(elements);
                Ok(NONE)
            }
            _ => Err(self.exception(ExceptionType::TypeError, "no list")),
        }
    }

    fn get_iter(&mut self, obj: PyObjectRef) -> PyResult {
        match self.get(obj) {
            Object::List(items) => Ok(self.add(Object::Iterator { items, at: 0 })),
            _ => Err(self.exception(ExceptionType::TypeError, "not iterable")),
        }
    }

    fn import(
        &mut self,
        directory: ImportDirectory,
        module: &str,
        symbol: &Option<String>,
    ) -> PyResult {
        self.notes.push(format!("import {:?} {} {:?}", directory, module, symbol));
        Ok(self.add(Object::Plain("module")))
    }

    fn to_repr(&mut self, obj: PyObjectRef) -> PyResult {
        match self.get(obj) {
            Object::Raising(exception) => Err(exception),
            _ => {
                let text = self.text(obj);
                Ok(self.new_str(&text))
            }
        }
    }

    fn print(&mut self, obj: PyObjectRef) -> PyResult {
        let text = self.text(obj);
        self.printed.push(text);
        Ok(NONE)
    }
}

/// A frame with the code, each instruction on a row of its own.
fn frame_of(
    mut machine: Machine,
    instructions: Vec<Instruction>,
    labels: &[(usize, usize)],
) -> (Frame, Machine) {
    let mut code = CodeObject::new(Some("dir/file.py".to_string()), "main".to_string());
    for row in 0..instructions.len() {
        code.locations.push(Location::new(row + 1, 1));
    }
    code.instructions = instructions;
    for (label, target) in labels {
        code.label_map.insert(*label, *target);
    }
    machine.codes.push(code);
    let object = machine.add(Object::Code("main".to_string()));
    let mut vm = machine;
    let frame = Frame::new(&mut vm, object, SCOPE).unwrap();
    (frame, vm)
}

/// What came of a run, the machine, and the frame after it.
struct Ran {
    result: Result<FrameResult, Fault>,
    machine: Machine,
    frame: Frame,
}

fn run_on(machine: Machine, code: Vec<Instruction>, labels: &[(usize, usize)]) -> Ran {
    let (mut frame, mut vm) = frame_of(machine, code, labels);
    let result = frame.run_frame(&mut vm);
    Ran { result, machine: vm, frame }
}

fn run(code: Vec<Instruction>, labels: &[(usize, usize)]) -> Ran {
    run_on(Machine::new(), code, labels)
}

impl Ran {
    fn returned(&self) -> Object {
        match self.result {
            Ok(Ok(ExecutionResult::Return(value))) => self.machine.get(value),
            ref other => panic!("{:?}", other),
        }
    }

    fn raised(&self) -> (ExceptionType, String, PyObjectRef) {
        match self.result {
            Ok(Err(exception)) => match self.machine.get(exception) {
                Object::Exception { typ, message, traceback } => (typ, message, traceback),
                other => panic!("{:?}", other),
            },
            ref other => panic!("{:?}", other),
        }
    }

    fn fault(&self) -> Fault {
        match self.result {
            Err(fault) => fault,
            ref other => panic!("{:?}", other),
        }
    }
}

fn number(value: i32) -> Instruction {
    Instruction::LoadConst { value: Constant::Integer { value } }
}

fn string(value: &str) -> Instruction {
    Instruction::LoadConst { value: Constant::String { value: value.to_string() } }
}

fn load(name: &str) -> Instruction {
    Instruction::LoadName { name: name.to_string() }
}

fn store(name: &str) -> Instruction {
    Instruction::StoreName { name: name.to_string() }
}

fn add() -> Instruction {
    Instruction::BinaryOperation { op: BinaryOperator::Add }
}

/// A machine with the object bound to the name.
fn machine_with(name: &str, object: Object) -> Machine {
    let mut machine = Machine::new();
    let value = machine.add(object);
    machine.set_item(SCOPE, name, value);
    machine
}

/// A machine with an exception bound to `e`.
fn machine_with_exception() -> Machine {
    let mut machine = Machine::new();
    let value = machine.exception(ExceptionType::ValueError, "oops");
    machine.set_item(SCOPE, "e", value);
    machine
}

// Values and names.

#[test]
fn adds_constants() {
    let ran = run(vec![number(2), number(3), add(), Instruction::ReturnValue], &[]);
    assert_eq!(ran.returned(), Object::Int(5));
    assert_eq!(ran.frame.lasti, 4);
}

#[test]
fn subtracts_in_order() {
    let ran = run(
        vec![
            number(7),
            number(3),
            Instruction::BinaryOperation { op: BinaryOperator::Subtract },
            Instruction::ReturnValue,
        ],
        &[],
    );
    assert_eq!(ran.returned(), Object::Int(4));
}

#[test]
fn operators_call_methods() {
    for (op, name) in [
        (BinaryOperator::MatrixMultiply, "__matmul__"),
        (BinaryOperator::FloorDivide, "__floordiv__"),
        (BinaryOperator::Subscript, "__getitem__"),
        (BinaryOperator::Lshift, "__lshift__"),
        (BinaryOperator::Rshift, "__rshift__"),
    ] {
        let ran = run(
            vec![
                number(7),
                number(3),
                Instruction::BinaryOperation { op },
                Instruction::ReturnValue,
            ],
            &[],
        );
        assert_eq!(ran.returned(), Object::NoneObject);
        assert_eq!(ran.machine.notes, vec![format!("4 {} [5]", name)]);
    }
}

#[test]
fn stores_and_loads_names() {
    let ran = run(
        vec![number(4), store("a"), load("a"), load("a"), add(), Instruction::ReturnValue],
        &[],
    );
    assert_eq!(ran.returned(), Object::Int(8));
}

#[test]
fn loads_names_of_outer_scopes() {
    let mut machine = Machine::new();
    let value = machine.add(Object::Int(9));
    machine.set_item(SCOPE, "outer", value);
    let locals = machine.add(Object::Dict(vec![]));
    let inner = machine.add(Object::Scope { locals, parent: Some(SCOPE) });
    let (mut frame, mut vm) =
        frame_of(machine, vec![load("outer"), Instruction::ReturnValue], &[]);
    frame.locals = inner;
    assert_eq!(frame.run_frame_full(&mut vm), Ok(Ok(value)));
}

#[test]
fn unknown_name_raises_name_error() {
    let ran = run(vec![load("missing")], &[]);
    let (typ, message, _) = ran.raised();
    assert_eq!(typ, ExceptionType::NameError);
    assert_eq!(message, "Has not attribute 'missing'");
}

#[test]
fn deletes_names() {
    let ran = run(
        vec![
            number(1),
            store("a"),
            Instruction::DeleteName { name: "a".to_string() },
            load("a"),
        ],
        &[],
    );
    assert_eq!(ran.raised().1, "Has not attribute 'a'");
    let ran = run(vec![Instruction::DeleteName { name: "a".to_string() }], &[]);
    assert_eq!(ran.raised().1, "missing");
}

#[test]
fn constants_become_objects() {
    let ran = run(
        vec![
            Instruction::LoadConst {
                value: Constant::Tuple {
                    elements: vec![
                        Constant::NoneValue,
                        Constant::Boolean { value: true },
                        Constant::Float { bits: 1.5f64.to_bits() },
                        Constant::String { value: "s".to_string() },
                        Constant::Code {
                            code: Box::new(CodeObject::new(None, "inner".to_string())),
                        },
                    ],
                },
            },
            Instruction::ReturnValue,
        ],
        &[],
    );
    let elements = match ran.returned() {
        Object::Tuple(elements) => elements,
        other => panic!("{:?}", other),
    };
    let objects: Vec<Object> = elements.iter().map(|element| ran.machine.get(*element)).collect();
    assert_eq!(
        objects,
        vec![
            Object::NoneObject,
            Object::Bool(true),
            Object::Float(1.5f64.to_bits()),
            Object::Str("s".to_string()),
            Object::Code("inner".to_string()),
        ]
    );
}

#[test]
fn attributes_go_to_the_machine() {
    let ran = run(
        vec![
            number(1),
            number(2),
            Instruction::StoreAttr { name: "x".to_string() },
            number(3),
            Instruction::DeleteAttr { name: "y".to_string() },
            number(4),
            Instruction::LoadAttr { name: "z".to_string() },
        ],
        &[],
    );
    assert_eq!(ran.machine.notes, vec!["setattr 5 x 4", "6 __delattr__ [7]"]);
    assert_eq!(ran.raised().1, "no z");
}

#[test]
fn imports_look_beside_the_file() {
    let ran = run(
        vec![
            Instruction::Import { name: "m".to_string(), symbol: Some("s".to_string()) },
            Instruction::ReturnValue,
        ],
        &[],
    );
    assert_eq!(ran.returned(), Object::Plain("module"));
    assert_eq!(
        ran.machine.notes,
        vec!["import ContainingFile { path: \"dir/file.py\" } m Some(\"s\")"]
    );
}

#[test]
fn imports_without_a_file_look_here() {
    let (mut frame, mut vm) = frame_of(
        Machine::new(),
        vec![
            Instruction::Import { name: "m".to_string(), symbol: None },
            Instruction::ReturnValue,
        ],
        &[],
    );
    frame.code.source_path = None;
    assert!(matches!(frame.run_frame_full(&mut vm), Ok(Ok(_))));
    assert_eq!(vm.notes, vec!["import Current m None"]);
}

// The stack.

#[test]
fn duplicate_then_pop_changes_nothing() {
    let ran = run(
        vec![number(1), number(2), Instruction::Duplicate, Instruction::Pop, add(), Instruction::ReturnValue],
        &[],
    );
    assert_eq!(ran.returned(), Object::Int(3));
}

#[test]
fn rotate_moves_the_top_down() {
    let ran = run(
        vec![
            number(1),
            number(2),
            number(3),
            Instruction::Rotate { amount: 3 },
            Instruction::BuildTuple { size: 3 },
            Instruction::ReturnValue,
        ],
        &[],
    );
    assert_eq!(ran.returned(), Object::Tuple(vec![handle(6), handle(4), handle(5)]));
}

#[test]
fn rotations_come_round() {
    let mut code = vec![number(1), number(2), number(3)];
    for _ in 0..3 {
        code.push(Instruction::Rotate { amount: 3 });
    }
    code.push(Instruction::BuildTuple { size: 3 });
    code.push(Instruction::ReturnValue);
    let ran = run(code, &[]);
    assert_eq!(ran.returned(), Object::Tuple(vec![handle(4), handle(5), handle(6)]));
}

#[test]
fn builds_collections() {
    for (build, expected) in [
        (
            Instruction::BuildList { size: 2 },
            Object::List(vec![handle(4), handle(5)]),
        ),
        (
            Instruction::BuildSet { size: 2 },
            Object::SetOf(vec![handle(4), handle(5)]),
        ),
        (
            Instruction::BuildTuple { size: 0 },
            Object::Tuple(vec![]),
        ),
        (
            Instruction::BuildSlice { size: 2 },
            Object::Slice(Some(1), Some(2), None),
        ),
    ] {
        let ran = run(vec![number(1), number(2), build, Instruction::ReturnValue], &[]);
        assert_eq!(ran.returned(), expected);
    }
}

#[test]
fn builds_slices_with_open_bounds() {
    let ran = run(
        vec![
            Instruction::LoadConst { value: Constant::NoneValue },
            number(5),
            number(2),
            Instruction::BuildSlice { size: 3 },
            Instruction::ReturnValue,
        ],
        &[],
    );
    assert_eq!(ran.returned(), Object::Slice(None, Some(5), Some(2)));
}

#[test]
fn builds_dictionaries_where_the_first_pair_counts() {
    let ran = run(
        vec![
            string("a"),
            number(1),
            string("b"),
            number(2),
            string("a"),
            number(3),
            Instruction::BuildMap { size: 3 },
            Instruction::ReturnValue,
        ],
        &[],
    );
    let mut entries = match ran.returned() {
        Object::Dict(entries) => entries,
        other => panic!("{:?}", other),
    };
    entries.sort_by(|a, b| a.0.cmp(&b.0));
    assert_eq!(entries, vec![("a".to_string(), handle(5)), ("b".to_string(), handle(7))]);
}

#[test]
fn adds_to_collections() {
    let ran = run(
        vec![
            Instruction::BuildList { size: 0 },
            number(1),
            Instruction::ListAppend { i: 1 },
            Instruction::ReturnValue,
        ],
        &[],
    );
    assert_eq!(ran.returned(), Object::List(vec![handle(5)]));
    let ran = run(
        vec![
            Instruction::BuildSet { size: 0 },
            number(1),
            Instruction::SetAdd { i: 1 },
            string("v"),
            string("k"),
            Instruction::MapAdd { i: 1 },
            Instruction::ReturnValue,
        ],
        &[],
    );
    assert_eq!(ran.returned(), Object::SetOf(vec![]));
    assert_eq!(ran.machine.notes, vec!["4 add [5]", "4 __setitem__ [7, 6]"]);
}

#[test]
fn stores_into_lists_only() {
    let ran = run(
        vec![
            number(1),
            Instruction::BuildList { size: 1 },
            store("l"),
            number(7),
            load("l"),
            number(0),
            Instruction::StoreSubscript,
            load("l"),
            Instruction::ReturnValue,
        ],
        &[],
    );
    assert_eq!(ran.returned(), Object::List(vec![handle(6)]));
    let ran = run(vec![number(7), number(8), number(0), Instruction::StoreSubscript], &[]);
    let (typ, message, _) = ran.raised();
    assert_eq!(typ, ExceptionType::TypeError);
    assert_eq!(
        message,
        "TypeError: __setitem__ assign type <8> with index <0> is not supported (yet?)"
    );
}

#[test]
fn deletes_subscripts() {
    let ran = run(
        vec![number(7), number(0), Instruction::DeleteSubscript, number(1), Instruction::ReturnValue],
        &[],
    );
    assert_eq!(ran.returned(), Object::Int(1));
    assert_eq!(ran.machine.notes, vec!["4 __delitem__ [5]"]);
}

#[test]
fn unpacks_sequences() {
    let ran = run(
        vec![
            number(1),
            number(2),
            Instruction::BuildTuple { size: 2 },
            Instruction::UnpackSequence { size: 2 },
            Instruction::BuildTuple { size: 2 },
            Instruction::ReturnValue,
        ],
        &[],
    );
    assert_eq!(ran.returned(), Object::Tuple(vec![handle(5), handle(4)]));
    let ran = run(
        vec![
            number(1),
            number(2),
            Instruction::BuildList { size: 2 },
            Instruction::Unpack,
            Instruction::ReturnValue,
        ],
        &[],
    );
    assert_eq!(ran.returned(), Object::Int(1));
    let ran = run(
        vec![
            number(1),
            Instruction::BuildTuple { size: 1 },
            Instruction::UnpackSequence { size: 2 },
        ],
        &[],
    );
    let (typ, message, _) = ran.raised();
    assert_eq!(typ, ExceptionType::ValueError);
    assert_eq!(message, "Wrong number of values to unpack");
}

#[test]
fn unpacks_with_a_starred_middle() {
    let mut code: Vec<Instruction> = (1..6).map(number).collect();
    code.push(Instruction::BuildTuple { size: 5 });
    code.push(Instruction::UnpackEx { before: 1, after: 2 });
    code.push(Instruction::BuildTuple { size: 4 });
    code.push(Instruction::ReturnValue);
    let ran = run(code, &[]);
    let elements = match ran.returned() {
        Object::Tuple(elements) => elements,
        other => panic!("{:?}", other),
    };
    assert_eq!(elements[0], handle(8));
    assert_eq!(elements[1], handle(7));
    assert_eq!(ran.machine.get(elements[2]), Object::List(vec![handle(5), handle(6)]));
    assert_eq!(elements[3], handle(4));
}

#[test]
fn unpacking_too_few_raises_value_error() {
    let ran = run(
        vec![
            number(1),
            Instruction::BuildTuple { size: 1 },
            Instruction::UnpackEx { before: 10, after: 2 },
        ],
        &[],
    );
    let (typ, message, _) = ran.raised();
    assert_eq!(typ, ExceptionType::ValueError);
    assert_eq!(message, "Not enough values to unpack (expected at least 12, got 1");
}

// Operators.

#[test]
fn negates_numbers() {
    let minus = || Instruction::UnaryOperation { op: UnaryOperator::Minus };
    let ran = run(vec![number(5), minus(), Instruction::ReturnValue], &[]);
    assert_eq!(ran.returned(), Object::Int(-5));
    let ran = run(
        vec![
            Instruction::LoadConst { value: Constant::Float { bits: 2.5f64.to_bits() } },
            minus(),
            Instruction::ReturnValue,
        ],
        &[],
    );
    assert_eq!(ran.returned(), Object::Float((-2.5f64).to_bits()));
    assert_eq!(run(vec![number(i32::MIN), minus()], &[]).fault(), Fault::IntegerOverflow);
    assert_eq!(run(vec![string("s"), minus()], &[]).fault(), Fault::NotNumeric);
    let plus = Instruction::UnaryOperation { op: UnaryOperator::Plus };
    assert_eq!(run(vec![number(1), plus], &[]).fault(), Fault::UnsupportedOperator);
}

#[test]
fn not_inverts_truth() {
    let ran = run(
        vec![
            number(0),
            Instruction::UnaryOperation { op: UnaryOperator::Not },
            Instruction::ReturnValue,
        ],
        &[],
    );
    assert_eq!(ran.returned(), Object::Bool(true));
}

fn compared(op: ComparisonOperator, a: i32, b: i32) -> Ran {
    run(
        vec![number(a), number(b), Instruction::CompareOperation { op }, Instruction::ReturnValue],
        &[],
    )
}

#[test]
fn compares_values() {
    assert_eq!(compared(ComparisonOperator::Equal, 1, 1).returned(), Object::Bool(true));
    assert_eq!(compared(ComparisonOperator::Less, 1, 2).returned(), Object::Bool(true));
    assert_eq!(compared(ComparisonOperator::Less, 2, 1).returned(), Object::Bool(false));
    for (op, name) in [
        (ComparisonOperator::NotEqual, "__ne__"),
        (ComparisonOperator::LessOrEqual, "__le__"),
        (ComparisonOperator::Greater, "__gt__"),
        (ComparisonOperator::GreaterOrEqual, "__ge__"),
    ] {
        assert_eq!(compared(op, 1, 2).machine.notes, vec![format!("4 {} [5]", name)]);
    }
}

#[test]
fn identity_is_not_equality() {
    assert_eq!(compared(ComparisonOperator::Is, 1, 1).returned(), Object::Bool(false));
    assert_eq!(compared(ComparisonOperator::IsNot, 1, 1).returned(), Object::Bool(true));
    let ran = run(
        vec![
            number(1),
            Instruction::Duplicate,
            Instruction::CompareOperation { op: ComparisonOperator::Is },
            Instruction::ReturnValue,
        ],
        &[],
    );
    assert_eq!(ran.returned(), Object::Bool(true));
}

#[test]
fn tests_membership() {
    let member = |op| {
        run(
            vec![
                number(1),
                Instruction::Duplicate,
                Instruction::BuildList { size: 1 },
                Instruction::CompareOperation { op },
                Instruction::ReturnValue,
            ],
            &[],
        )
    };
    // The list holds the copy's object, which is the value itself.
    assert_eq!(member(ComparisonOperator::In).returned(), Object::Bool(true));
    assert_eq!(member(ComparisonOperator::NotIn).returned(), Object::Bool(false));
    for op in [ComparisonOperator::In, ComparisonOperator::NotIn] {
        let (typ, message, _) = compared(op, 1, 2).raised();
        assert_eq!(typ, ExceptionType::TypeError);
        assert_eq!(message, "int has no __contains__ method");
    }
}

// Control flow.

#[test]
fn jumps_on_truth() {
    let code = |jump| vec![number(1), jump, number(10), Instruction::ReturnValue, number(20), Instruction::ReturnValue];
    let labels = [(7, 4)];
    let ran = run(code(Instruction::JumpIf { target: 7 }), &labels);
    assert_eq!(ran.returned(), Object::Int(20));
    let ran = run(code(Instruction::JumpIfFalse { target: 7 }), &labels);
    assert_eq!(ran.returned(), Object::Int(10));
    let ran = run(code(Instruction::Jump { target: 7 }), &labels);
    assert_eq!(ran.returned(), Object::Int(20));
    assert_eq!(run(code(Instruction::Jump { target: 8 }), &labels).fault(), Fault::UnknownLabel);
}

/// Sums a list of the numbers one to three.
#[test]
fn loops_over_an_iterator() {
    let code = vec![
        number(0),
        store("sum"),
        number(1),
        number(2),
        number(3),
        Instruction::BuildList { size: 3 },
        Instruction::SetupLoop { start: 1, end: 2 },
        Instruction::GetIter,
        Instruction::ForIter,
        store("x"),
        load("sum"),
        load("x"),
        add(),
        store("sum"),
        Instruction::Jump { target: 1 },
        Instruction::PopBlock,
        load("sum"),
        Instruction::ReturnValue,
    ];
    let ran = run(code, &[(1, 8), (2, 15)]);
    assert_eq!(ran.returned(), Object::Int(6));
}

#[test]
fn iterating_a_number_raises() {
    let ran = run(vec![number(1), Instruction::GetIter], &[]);
    assert_eq!(ran.raised().1, "not iterable");
}

#[test]
fn break_goes_to_the_end_of_the_loop() {
    let code = vec![
        Instruction::SetupLoop { start: 1, end: 2 },
        Instruction::SetupExcept { handler: 3 },
        Instruction::Break,
        number(1),
        Instruction::ReturnValue,
        number(2),
        Instruction::ReturnValue,
    ];
    let mut ran = run(code, &[(1, 3), (2, 5), (3, 3)]);
    assert_eq!(ran.returned(), Object::Int(2));
    assert_eq!(ran.frame.pop_block(), None);
}

#[test]
fn continue_goes_to_the_start_of_the_loop() {
    let code = vec![
        Instruction::SetupLoop { start: 1, end: 2 },
        Instruction::Continue,
        number(2),
        Instruction::ReturnValue,
        number(3),
        Instruction::ReturnValue,
    ];
    let ran = run(code, &[(1, 4), (2, 2)]);
    assert_eq!(ran.returned(), Object::Int(3));
}

#[test]
fn break_without_a_loop_is_a_fault() {
    assert_eq!(run(vec![Instruction::Break], &[]).fault(), Fault::NoLoop);
    assert_eq!(run(vec![Instruction::Continue], &[]).fault(), Fault::NoLoop);
}

#[test]
fn setup_then_pop_block_changes_nothing() {
    let mut ran = run(
        vec![
            Instruction::SetupLoop { start: 1, end: 2 },
            Instruction::SetupExcept { handler: 3 },
            Instruction::PopBlock,
            Instruction::PopBlock,
            Instruction::PopBlock,
            number(1),
            Instruction::YieldValue,
        ],
        &[],
    );
    assert!(matches!(ran.result, Ok(Ok(ExecutionResult::Yield(_)))));
    assert_eq!(ran.frame.pop_block(), None);
}

// Exceptions.

#[test]
fn unhandled_exception_ends_the_run() {
    let ran = run_on(
        machine_with_exception(),
        vec![
            Instruction::SetupLoop { start: 1, end: 1 },
            load("e"),
            Instruction::Raise { argc: 1 },
        ],
        &[(1, 0)],
    );
    let (typ, message, traceback) = ran.raised();
    assert_eq!(typ, ExceptionType::ValueError);
    assert_eq!(message, "oops");
    let lines = match ran.machine.get(traceback) {
        Object::List(lines) => lines,
        other => panic!("{:?}", other),
    };
    assert_eq!(lines.len(), 1);
    let line = match ran.machine.get(lines[0]) {
        Object::Tuple(line) => line,
        other => panic!("{:?}", other),
    };
    let line: Vec<Object> = line.iter().map(|part| ran.machine.get(*part)).collect();
    assert_eq!(
        line,
        vec![
            Object::Str("dir/file.py".to_string()),
            Object::Int(3),
            Object::Str("main".to_string()),
        ]
    );
}

#[test]
fn traceback_without_a_file_says_unknown() {
    let (mut frame, mut vm) = frame_of(
        machine_with_exception(),
        vec![load("e"), Instruction::Raise { argc: 1 }],
        &[],
    );
    frame.code.source_path = None;
    let result = frame.run_frame(&mut vm);
    let machine = vm;
    assert!(matches!(result, Ok(Err(_))));
    assert!(machine.objects.contains(&Object::Str("<unknown>".to_string())));
}

#[test]
fn except_block_handles_the_exception() {
    let mut ran = run_on(
        machine_with_exception(),
        vec![
            Instruction::SetupExcept { handler: 1 },
            Instruction::SetupLoop { start: 2, end: 2 },
            load("e"),
            Instruction::Raise { argc: 1 },
            number(1),
            Instruction::ReturnValue,
        ],
        &[(1, 5), (2, 0)],
    );
    assert!(matches!(ran.returned(), Object::Exception { .. }));
    assert_eq!(ran.frame.pop_block(), None);
}

#[test]
fn raising_what_is_no_exception_raises_type_error() {
    let ran = run(vec![number(5), Instruction::Raise { argc: 1 }], &[]);
    let (typ, message, _) = ran.raised();
    assert_eq!(typ, ExceptionType::TypeError);
    assert_eq!(message, "Can only raise BaseException derived types, not <5>");
    assert_eq!(run(vec![number(5), Instruction::Raise { argc: 2 }], &[]).fault(), Fault::RaiseArity);
}

/// A machine with a context manager bound to `m` and an exception bound to `e`.
fn machine_with_manager(exit: Object, raises: bool) -> Machine {
    let mut machine = machine_with_exception();
    let exit = if raises {
        Err(machine.exception(ExceptionType::TypeError, "exit"))
    } else {
        Ok(machine.add(exit))
    };
    let manager = machine.add(Object::Manager { exit });
    machine.set_item(SCOPE, "m", manager);
    machine
}

fn with_block(body: Vec<Instruction>) -> (Vec<Instruction>, Vec<(usize, usize)>) {
    let mut code = vec![load("m"), Instruction::SetupWith { end: 1 }, Instruction::Pop];
    code.extend(body);
    code.push(Instruction::CleanupWith { end: 1 });
    let end = code.len();
    code.push(number(42));
    code.push(Instruction::ReturnValue);
    (code, vec![(1, end)])
}

#[test]
fn with_block_is_entered_and_left() {
    let (code, labels) = with_block(vec![Instruction::Pass]);
    let ran = run_on(machine_with_manager(Object::NoneObject, false), code, &labels);
    assert_eq!(ran.returned(), Object::Int(42));
    assert_eq!(ran.machine.notes, vec!["6 __enter__ []", "6 __exit__ [0, 0, 0]"]);
}

#[test]
fn with_block_can_handle_the_exception() {
    let (code, labels) = with_block(vec![load("e"), Instruction::Raise { argc: 1 }]);
    let ran = run_on(machine_with_manager(Object::Bool(true), false), code, &labels);
    assert_eq!(ran.returned(), Object::Int(42));
    assert!(ran.machine.notes[1].starts_with("6 __exit__ ["));
}

#[test]
fn with_block_can_let_the_exception_pass() {
    let (code, labels) = with_block(vec![load("e"), Instruction::Raise { argc: 1 }]);
    let ran = run_on(machine_with_manager(Object::Bool(false), false), code, &labels);
    assert_eq!(ran.raised().1, "oops");
}

#[test]
fn exception_of_an_exit_replaces_the_other() {
    let (code, labels) = with_block(vec![load("e"), Instruction::Raise { argc: 1 }]);
    let ran = run_on(machine_with_manager(Object::NoneObject, true), code, &labels);
    assert_eq!(ran.raised().1, "exit");
    let (code, labels) = with_block(vec![Instruction::Pass]);
    let ran = run_on(machine_with_manager(Object::NoneObject, true), code, &labels);
    assert_eq!(ran.raised().1, "exit");
}

#[test]
fn return_leaves_with_blocks() {
    let (code, labels) = with_block(vec![number(7), Instruction::ReturnValue]);
    let mut ran = run_on(machine_with_manager(Object::NoneObject, false), code, &labels);
    assert_eq!(ran.returned(), Object::Int(7));
    assert_eq!(ran.machine.notes, vec!["6 __enter__ []", "6 __exit__ [0, 0, 0]"]);
    assert_eq!(ran.frame.pop_block(), None);
}

#[test]
fn exit_that_raises_within_a_break_is_a_fault() {
    let ran = run_on(
        machine_with_manager(Object::NoneObject, true),
        vec![
            Instruction::SetupLoop { start: 1, end: 1 },
            load("m"),
            Instruction::SetupWith { end: 1 },
            Instruction::Break,
        ],
        &[(1, 0)],
    );
    assert!(matches!(ran.fault(), Fault::ExitRaised(_)));
}

#[test]
fn wrong_blocks_are_faults() {
    let cleanup = || Instruction::CleanupWith { end: 1 };
    assert_eq!(run(vec![cleanup()], &[]).fault(), Fault::NoBlock);
    let ran = run(vec![Instruction::SetupExcept { handler: 1 }, cleanup()], &[]);
    assert_eq!(ran.fault(), Fault::WrongBlock);
    let ran = run(
        vec![
            Instruction::BuildList { size: 0 },
            Instruction::GetIter,
            Instruction::ForIter,
        ],
        &[],
    );
    assert_eq!(ran.fault(), Fault::NoBlock);
}

// Functions and output.

#[test]
fn calls_functions() {
    let mut machine = machine_with("f", Object::Plain("f"));
    let func = machine.get_item(SCOPE, "f").unwrap();
    let ran = run_on(
        machine,
        vec![
            load("f"),
            number(1),
            number(2),
            Instruction::CallFunction { count: 2 },
            Instruction::ReturnValue,
        ],
        &[],
    );
    assert_eq!(ran.returned(), Object::Plain("f"));
    assert_eq!(ran.machine.notes, vec![format!("call {} [5, 6] []", func.id)]);
}

#[test]
fn calls_functions_with_names() {
    let ran = run_on(
        machine_with("f", Object::Plain("f")),
        vec![
            load("f"),
            number(1),
            number(2),
            number(3),
            Instruction::LoadConst {
                value: Constant::Tuple {
                    elements: vec![
                        Constant::String { value: "a".to_string() },
                        Constant::String { value: "b".to_string() },
                    ],
                },
            },
            Instruction::CallFunctionKw { count: 3 },
            Instruction::ReturnValue,
        ],
        &[],
    );
    assert_eq!(ran.machine.notes, vec!["call 3 [5] [(\"b\", 7), (\"a\", 6)]"]);
}

#[test]
fn more_names_than_arguments_is_a_fault() {
    let code = |names| {
        vec![
            load("f"),
            Instruction::LoadConst { value: names },
            Instruction::CallFunctionKw { count: 0 },
        ]
    };
    let machine = || machine_with("f", Object::Plain("f"));
    let names = Constant::Tuple { elements: vec![Constant::String { value: "a".to_string() }] };
    assert_eq!(run_on(machine(), code(names), &[]).fault(), Fault::MissingArguments);
    let names = Constant::Tuple { elements: vec![Constant::Integer { value: 1 }] };
    assert_eq!(run_on(machine(), code(names), &[]).fault(), Fault::NotString);
    let names = Constant::Integer { value: 1 };
    assert_eq!(run_on(machine(), code(names), &[]).fault(), Fault::NotSequence);
}

#[test]
fn exception_of_a_call_is_raised() {
    let mut machine = machine_with_exception();
    let exception = machine.get_item(SCOPE, "e").unwrap();
    let func = machine.add(Object::Raising(exception));
    machine.set_item(SCOPE, "f", func);
    let ran = run_on(machine, vec![load("f"), Instruction::CallFunction { count: 0 }], &[]);
    assert_eq!(ran.raised().1, "oops");
}

#[test]
fn makes_functions() {
    let ran = run(
        vec![
            number(1),
            string("code"),
            string("name"),
            Instruction::MakeFunction { flags: FunctionOpArg { bits: HAS_DEFAULTS } },
            string("code"),
            string("name"),
            Instruction::MakeFunction { flags: FunctionOpArg { bits: 0 } },
            Instruction::ReturnValue,
        ],
        &[],
    );
    assert_eq!(ran.returned(), Object::Plain("function"));
    assert_eq!(ran.machine.notes, vec!["function 5 2 4", "function 8 2 0"]);
}

#[test]
fn loads_the_class_builder() {
    let ran = run(vec![Instruction::LoadBuildClass, Instruction::ReturnValue], &[]);
    assert_eq!(ran.returned(), Object::Plain("__build_class__"));
}

#[test]
fn stores_locals_into_the_scope() {
    let ran = run(
        vec![
            Instruction::BuildMap { size: 0 },
            Instruction::StoreLocals,
            number(3),
            store("a"),
            load("a"),
            Instruction::ReturnValue,
        ],
        &[],
    );
    assert_eq!(ran.returned(), Object::Int(3));
    assert_eq!(ran.machine.get(handle(4)), Object::Dict(vec![("a".to_string(), handle(5))]));
}

#[test]
fn prints_all_but_none() {
    let ran = run(
        vec![
            number(3),
            Instruction::PrintExpr,
            Instruction::LoadConst { value: Constant::NoneValue },
            Instruction::PrintExpr,
            number(0),
            Instruction::ReturnValue,
        ],
        &[],
    );
    assert_eq!(ran.returned(), Object::Int(0));
    assert_eq!(ran.machine.printed, vec!["3"]);
}

// Whole runs.

#[test]
fn a_run_goes_on_behind_a_yield() {
    let (mut frame, mut vm) = frame_of(
        Machine::new(),
        vec![number(1), number(2), Instruction::YieldValue, Instruction::ReturnValue],
        &[],
    );
    assert_eq!(frame.run_frame(&mut vm), Ok(Ok(ExecutionResult::Yield(handle(5)))));
    assert_eq!(frame.lasti, 3);
    assert_eq!(frame.run_frame(&mut vm), Ok(Ok(ExecutionResult::Return(handle(4)))));
}

#[test]
fn a_function_must_not_yield() {
    let (mut frame, mut vm) =
        frame_of(Machine::new(), vec![number(1), Instruction::YieldValue], &[]);
    assert_eq!(frame.run_frame_full(&mut vm), Err(Fault::UnexpectedYield));
}

#[test]
fn a_full_run_gives_value_or_exception() {
    let (mut frame, mut vm) =
        frame_of(Machine::new(), vec![number(1), Instruction::ReturnValue], &[]);
    assert_eq!(frame.run_frame_full(&mut vm), Ok(Ok(handle(4))));
    let (mut frame, mut vm) = frame_of(
        machine_with_exception(),
        vec![load("e"), Instruction::Raise { argc: 1 }],
        &[],
    );
    assert_eq!(frame.run_frame_full(&mut vm), Ok(Err(handle(4))));
}

#[test]
fn faults_of_bad_code() {
    assert_eq!(run(vec![Instruction::Pop], &[]).fault(), Fault::StackUnderflow);
    assert_eq!(run(vec![number(1), Instruction::Rotate { amount: 1 }], &[]).fault(), Fault::BadRotate);
    assert_eq!(run(vec![Instruction::Pass], &[]).fault(), Fault::NoLocation);
    let ran = run(vec![number(1), number(2), Instruction::BuildMap { size: 1 }], &[]);
    assert_eq!(ran.fault(), Fault::KeyNotString);
    let ran = run(vec![number(1), Instruction::BuildSlice { size: 1 }], &[]);
    assert_eq!(ran.fault(), Fault::BadSliceSize);
    let ran = run(vec![number(1), string("s"), Instruction::BuildSlice { size: 2 }], &[]);
    assert_eq!(ran.fault(), Fault::BadSliceBound);
    let ran = run(vec![number(1), Instruction::Unpack], &[]);
    assert_eq!(ran.fault(), Fault::NotSequence);
    let ran = run(vec![number(1), Instruction::UnpackEx { before: usize::MAX, after: 1 }], &[]);
    assert_eq!(ran.fault(), Fault::UnpackOverflow);
}

#[test]
fn faults_of_bad_scopes() {
    let (mut frame, mut vm) = frame_of(
        Machine::new(),
        vec![Instruction::DeleteName { name: "a".to_string() }],
        &[],
    );
    frame.locals = NONE;
    assert_eq!(frame.run_frame(&mut vm), Err(Fault::NotScope));
    assert_eq!(frame.describe(&mut vm), Err(Fault::NotScope));
}

#[test]
fn code_without_an_instruction_is_a_fault() {
    let (mut frame, mut vm) = frame_of(Machine::new(), vec![], &[]);
    frame.code.locations.push(Location::new(1, 1));
    assert_eq!(frame.run_frame(&mut vm), Err(Fault::NoInstruction));
}

#[test]
fn only_code_objects_hold_code() {
    let mut machine = Machine::new();
    let int_object = machine.add(Object::Int(1));
    let mut vm = machine;
    assert!(matches!(copy_code(&mut vm, int_object), Err(Fault::NotCode)));
    assert!(matches!(Frame::new(&mut vm, int_object, SCOPE), Err(Fault::NotCode)));
}

#[test]
fn copies_the_code_of_an_object() {
    let mut machine = Machine::new();
    let object = machine.add(Object::Code("c".to_string()));
    machine.codes.push(CodeObject::new(None, "c".to_string()));
    let mut vm = machine;
    let code = copy_code(&mut vm, object).unwrap();
    assert_eq!(code.obj_name, "c");
    assert_eq!(code.source_path, None);
}

#[test]
fn steps_through_instructions() {
    let (mut frame, _) =
        frame_of(Machine::new(), vec![Instruction::Pass, Instruction::Break], &[]);
    assert_eq!(frame.get_lineno(), Location::new(1, 1));
    assert!(matches!(frame.fetch_instruction(), Instruction::Pass));
    assert_eq!(frame.get_lineno(), Location::new(2, 1));
    assert!(matches!(frame.fetch_instruction(), Instruction::Break));
    assert_eq!(frame.lasti, 2);
}

#[test]
fn works_on_its_stack() {
    let (mut frame, _) = frame_of(Machine::new(), vec![], &[]);
    for id in 10..14 {
        frame.push_value(handle(id));
    }
    assert_eq!(frame.last_value(), handle(13));
    assert_eq!(frame.nth_value(2), handle(11));
    assert_eq!(frame.pop_value(), handle(13));
    assert_eq!(frame.pop_multiple(2), vec![handle(11), handle(12)]);
    assert_eq!(frame.pop_value(), handle(10));
}

#[test]
fn works_on_its_blocks() {
    let (mut frame, _) = frame_of(Machine::new(), vec![], &[]);
    let block = Block::TryExcept { handler: 3 };
    frame.push_block(block);
    assert_eq!(frame.last_block(), block);
    assert_eq!(frame.pop_block(), Some(block));
    assert_eq!(frame.pop_block(), None);
}

#[test]
fn describes_itself() {
    let mut machine = machine_with("a", Object::Int(1));
    let value = machine.add(Object::Str("s".to_string()));
    let manager = machine.add(Object::Int(8));
    let (mut frame, mut vm) = frame_of(machine, vec![], &[]);
    frame.push_value(value);
    frame.push_value(NONE);
    frame.push_block(Block::Loop { start: 1, end: 20 });
    frame.push_block(Block::TryExcept { handler: 345 });
    frame.push_block(Block::With { end: 0, context_manager: manager });
    assert_eq!(
        frame.describe(&mut vm).unwrap(),
        "Frame Object { \n Stack:\n  > s\n  > None\n Blocks:\n  > Loop { start: 1, end: 20 }\n  > \
         TryExcept { handler: 345 }\n  > With { end: 0, context_manager: <8> }\n Locals:\n  a = 1\n}"
    );
}

#[test]
fn describes_only_scopes_of_dictionaries() {
    let mut machine = Machine::new();
    let scope = machine.add(Object::Scope { locals: NONE, parent: None });
    let (mut frame, mut vm) = frame_of(machine, vec![], &[]);
    frame.locals = scope;
    assert_eq!(frame.describe(&mut vm), Err(Fault::NotDict));
}

#[test]
fn break_leaves_with_blocks_whose_exits_are_quiet() {
    let mut ran = run_on(
        machine_with_manager(Object::NoneObject, false),
        vec![
            Instruction::SetupLoop { start: 1, end: 2 },
            load("m"),
            Instruction::SetupWith { end: 1 },
            Instruction::SetupExcept { handler: 1 },
            Instruction::Break,
            number(9),
            Instruction::ReturnValue,
        ],
        &[(1, 0), (2, 5)],
    );
    assert_eq!(ran.returned(), Object::Int(9));
    assert_eq!(ran.machine.notes, vec!["6 __enter__ []", "6 __exit__ [0, 0, 0]"]);
    assert_eq!(ran.frame.pop_block(), None);
}

#[test]
fn shows_where_it_stands() {
    let (mut frame, _) = frame_of(Machine::new(), vec![Instruction::Pass], &[]);
    assert_eq!(frame.get_lasti(), 0);
    assert_eq!(frame.get_locals(), SCOPE);
    assert_eq!(frame.get_code().obj_name, "main");
    frame.push_value(NONE);
    frame.push_block(Block::TryExcept { handler: 3 });
    frame.fetch_instruction();
    assert_eq!(frame.get_lasti(), 1);
    assert_eq!(frame.value_count(), 1);
    assert_eq!(frame.block_count(), 1);
}

#[test]
fn single_steps() {
    let (mut frame, mut vm) = frame_of(
        machine_with("a", Object::Int(1)),
        vec![number(7), Instruction::CompareOperation { op: ComparisonOperator::Is }],
        &[],
    );
    assert_eq!(frame.execute_instruction(&mut vm), Ok(None));
    let value = frame.last_value();
    assert_eq!(vm.get(value), Object::Int(7));
    assert_eq!(frame.store_name(&mut vm, "a"), Ok(None));
    assert_eq!(frame.value_count(), 0);
    assert_eq!(frame.load_name(&mut vm, "a"), Ok(None));
    assert_eq!(frame.last_value(), value);
    frame.push_value(value);
    assert_eq!(frame.execute_compare(&mut vm, ComparisonOperator::IsNot), Ok(None));
    assert_eq!(vm.get(frame.pop_value()), Object::Bool(false));
}

// Replayed runs.

#[test]
fn a_run_is_repeated_from_its_answers() {
    let mut code = CodeObject::new(None, "main".to_string());
    code.instructions = vec![number(1), number(2), add(), Instruction::ReturnValue];
    for row in 0..4 {
        code.locations.push(Location::new(row + 1, 1));
    }
    let mut vm = Replay::new(vec![
        Answer::Kind(PyObjectKind::Code { code }),
        Answer::Object(handle(10)),
        Answer::Object(handle(11)),
        Answer::Result(Ok(handle(12))),
        Answer::Flag(true),
    ]);
    let mut frame = Frame::new(&mut vm, handle(1), handle(2)).unwrap();
    assert_eq!(frame.run_frame(&mut vm), Ok(Ok(ExecutionResult::Return(handle(12)))));
    assert_eq!(vm.left(), 1);
}

#[test]
fn answers_of_another_kind_are_passed_over() {
    let mut vm = Replay::new(vec![Answer::Flag(true), Answer::Text("t".to_string())]);
    assert_eq!(vm.new_int(5), handle(0));
    assert_eq!(vm.left(), 1);
    vm.set_item(handle(1), "a", handle(2));
    assert_eq!(vm.left(), 1);
    assert_eq!(vm.str_text(handle(1)), "t");
    assert_eq!(vm.elements(handle(1)), None);
    assert_eq!(vm.boolval(handle(1)), Ok(false));
    assert_eq!(vm.left(), 0);
}

#[test]
fn code_of_a_constant_is_copied_out() {
    let (frame, _) = frame_of(Machine::new(), vec![], &[]);
    let inner = || CodeObject::new(Some("f".to_string()), "inner".to_string());
    let mut vm = Replay::new(vec![
        Answer::Object(handle(5)),
        Answer::Kind(PyObjectKind::Code { code: inner() }),
    ]);
    let object = frame.unwrap_constant(&mut vm, &Constant::Code { code: Box::new(inner()) });
    assert_eq!(object, handle(5));
    let code = copy_code(&mut vm, object).unwrap();
    assert_eq!(code.obj_name, "inner");
    assert_eq!(code.source_path, Some("f".to_string()));
}

#[test]
fn with_block_decides_beyond_the_loops_within_it() {
    let body = || {
        vec![
            Instruction::SetupLoop { start: 1, end: 1 },
            Instruction::SetupLoop { start: 1, end: 1 },
            load("e"),
            Instruction::Raise { argc: 1 },
        ]
    };
    let (code, labels) = with_block(body());
    let mut ran = run_on(machine_with_manager(Object::Bool(true), false), code, &labels);
    assert_eq!(ran.returned(), Object::Int(42));
    assert_eq!(ran.frame.value_count(), 0);
    assert_eq!(ran.frame.pop_block(), None);
    let exits = ran.machine.notes.iter().filter(|note| note.contains("__exit__")).count();
    assert_eq!(exits, 1);
    let (code, labels) = with_block(body());
    let ran = run_on(machine_with_manager(Object::Bool(false), false), code, &labels);
    assert_eq!(ran.raised().1, "oops");
}

#[test]
fn unwinding_keeps_what_lies_outside() {
    let (mut frame, mut vm) = frame_of(Machine::new(), vec![], &[(1, 0), (2, 30)]);
    let exception = vm.exception(ExceptionType::ValueError, "oops");
    let outer = Block::TryExcept { handler: 1 };
    frame.push_block(outer);
    frame.push_block(Block::TryExcept { handler: 2 });
    frame.push_block(Block::Loop { start: 1, end: 1 });
    frame.push_value(NONE);
    assert_eq!(frame.unwind_exception(&mut vm, exception), Ok(None));
    assert_eq!(frame.get_lasti(), 30);
    assert_eq!(frame.pop_multiple(2), vec![NONE, exception]);
    assert_eq!(frame.pop_block(), Some(outer));
    assert_eq!(frame.unwind_exception(&mut vm, exception), Ok(Some(exception)));
    assert_eq!(frame.get_lasti(), 30);
    assert_eq!(frame.value_count(), 0);
}

/// Unwinding takes no stack of the program, however many blocks are open.
#[test]
fn unwinds_very_many_blocks() {
    let count = 300_000;
    let entered = |last: Vec<Instruction>| {
        let mut code: Vec<Instruction> = vec![];
        for _ in 0..count {
            code.push(Instruction::SetupExcept { handler: 1 });
        }
        code.extend(last);
        code
    };
    let mut ran = run(entered(vec![number(1), Instruction::ReturnValue]), &[]);
    assert_eq!(ran.returned(), Object::Int(1));
    assert_eq!(ran.frame.pop_block(), None);
    assert_eq!(run(entered(vec![Instruction::Break]), &[]).fault(), Fault::NoLoop);
    let (mut frame, mut vm) = frame_of(Machine::new(), vec![], &[]);
    for _ in 0..count {
        frame.push_block(Block::Loop { start: 1, end: 1 });
    }
    let exception = vm.exception(ExceptionType::ValueError, "oops");
    assert_eq!(frame.unwind_exception(&mut vm, exception), Ok(Some(exception)));
    assert_eq!(frame.block_count(), 0);
}
