//! The machine: a call stack of frames, a heap, and a table of loaded
//! classes.
//!
//! The machine runs one instruction of the top frame at a time. Invoking a
//! method puts a new frame on top, returning takes the top frame off; a frame
//! that runs off the end of its bytecode is taken off as if it had returned.
//! A class is initialised the first time one of its static fields is touched:
//! it is marked first, and its initialiser, if it has one, then runs as a
//! frame of its own.
//!
//! Nothing bounds how long a program runs, so the machine counts: every
//! instruction uses up one of `steps_left`, and a machine that has none left
//! stops with `StepLimitExceeded`.

use crate::bytes::ByteReader;
use crate::class_file::entry_point;
use crate::class_file::find_member;
use crate::class_file::parse_class;
use crate::class_file::ClassFile;
use crate::class_file::ClassFileView;
use crate::descriptors::parse_method;
use crate::descriptors::MethodDescriptor;
use crate::error::Error;
use crate::heap::Heap;
use crate::heap::HeapView;
use crate::op_code::begin_init;
use crate::op_code::exec_instruction;
use crate::op_code::handle_op_code;
use crate::op_code::machine_as;
use crate::op_code::return_void;
use crate::op_code::start_init;
use crate::op_code::step_keeps;
use crate::op_code::step_return_void;
use crate::raw::pool_class_name;
use crate::resolved::views;
use crate::resolved::Method;
use crate::text::str_eq;
use crate::types::frame_for;
use crate::types::DataType;
use crate::types::FrameView;
use crate::types::StackFrame;
use vstd::prelude::*;

verus! {

/// A loaded class: the class file and whether the class has been
/// initialised.
#[derive(Debug)]
pub struct Class {
    pub file: ClassFile,
    pub initialised: bool,
}

/// The mathematical value of a [`Class`].
pub struct ClassView {
    pub file: ClassFileView,
    pub initialised: bool,
}

impl View for Class {
    type V = ClassView;

    open spec fn view(&self) -> ClassView {
        ClassView { file: self.file@, initialised: self.initialised }
    }
}

impl Class {
    /// A class that has been loaded from `file` and not yet initialised.
    pub fn new(file: ClassFile) -> (class: Self)
        ensures
            class@ == (ClassView { file: file@, initialised: false }),
    {
        Class { file, initialised: false }
    }
}

/// The name of the class `c`.
pub open spec fn class_name(c: ClassView) -> Result<Seq<char>, Error> {
    pool_class_name(c.file.constant_pool, c.file.this_class)
}

/// Whether `c` is the class of the name `name`.
pub open spec fn class_named(c: ClassView, name: Seq<char>) -> bool {
    class_name(c) == Ok::<Seq<char>, Error>(name)
}

/// Whether `i` is the position of the first of `classes` that has the name
/// `name`.
pub open spec fn is_first_class(classes: Seq<ClassView>, name: Seq<char>, i: int) -> bool {
    &&& 0 <= i < classes.len()
    &&& class_named(classes[i], name)
    &&& forall|j: int| 0 <= j < i ==> !class_named(#[trigger] classes[j], name)
}

/// The position of the class of the name `name` in `classes`.
pub open spec fn find_class(classes: Seq<ClassView>, name: Seq<char>) -> Option<usize> {
    if exists|i: int| is_first_class(classes, name, i) {
        Some((choose|i: int| is_first_class(classes, name, i)) as usize)
    } else {
        None
    }
}

/// Whether no two of `classes` have the same name.
pub open spec fn distinct_classes(classes: Seq<ClassView>) -> bool {
    forall|i: int, j: int|
        0 <= i < j < classes.len() && class_name(#[trigger] classes[i]) is Ok ==> class_name(
            classes[i],
        ) != class_name(#[trigger] classes[j])
}

/// Whether the class table `after` holds the classes of `before`, in their
/// places, with none of them less initialised than it was.
pub open spec fn classes_kept(before: Seq<ClassView>, after: Seq<ClassView>) -> bool {
    &&& after.len() == before.len()
    &&& forall|i: int|
        0 <= i < before.len() ==> (#[trigger] after[i]).file == before[i].file && (
        before[i].initialised ==> after[i].initialised)
}

/// The position of the class of the name `name` in `classes`.
pub fn class_index(classes: &Vec<Class>, name: &str) -> (res: Option<usize>)
    ensures
        res == find_class(views(classes@), name@),
{
    let ghost all = views(classes@);
    let mut i: usize = 0;
    while i < classes.len()
        invariant
            i <= classes.len(),
            all == views(classes@),
            forall|j: int| 0 <= j < i ==> !class_named(#[trigger] all[j], name@),
        decreases classes.len() - i,
    {
        assert(all[i as int] == classes@[i as int]@);
        let found = match classes[i].file.this_class() {
            Ok(text) => str_eq(text, name),
            Err(_) => false,
        };
        if found {
            proof {
                assert(is_first_class(all, name@, i as int));
                let k = choose|k: int| is_first_class(all, name@, k);
                assert(k == i) by {
                    if k < i {
                        assert(!class_named(all[k], name@));
                    } else if i < k {
                        assert(!class_named(all[i as int], name@));
                    }
                }
            }
            return Some(i);
        }
        i = i + 1;
    }
    assert(forall|k: int| !is_first_class(all, name@, k));
    None
}

/// The machine.
#[derive(Debug)]
pub struct Jvm {
    /// The call stack; the frame that runs is its last element.
    pub stack: Vec<StackFrame>,
    pub heap: Heap,
    /// The loaded classes. No two have the same name.
    pub classes: Vec<Class>,
    /// The name of the class whose `main` is the program.
    pub entry_class: Option<String>,
    /// The number of instructions that the machine may still run.
    pub steps_left: u64,
    /// The value that the last frame to leave an empty call stack behind
    /// returned, if it returned one.
    pub returned: Option<DataType>,
}

/// The mathematical value of a [`Jvm`].
pub struct MachineView {
    pub stack: Seq<FrameView>,
    pub heap: HeapView,
    pub classes: Seq<ClassView>,
    pub entry_class: Option<Seq<char>>,
    pub steps_left: u64,
    pub returned: Option<DataType>,
}

impl View for Jvm {
    type V = MachineView;

    open spec fn view(&self) -> MachineView {
        MachineView {
            stack: views(self.stack@),
            heap: self.heap@,
            classes: views(self.classes@),
            entry_class: match self.entry_class {
                Some(name) => Some(name@),
                None => None,
            },
            steps_left: self.steps_left,
            returned: self.returned,
        }
    }
}

impl MachineView {
    /// The frame that runs.
    pub open spec fn top(self) -> FrameView {
        self.stack.last()
    }

    /// The machine with `f` in place of the frame that runs.
    pub open spec fn with_top(self, f: FrameView) -> MachineView {
        MachineView { stack: self.stack.update(self.stack.len() - 1, f), ..self }
    }

    /// The machine after one step: the instruction at the program counter of
    /// the top frame runs, or, where the top frame has run off the end of its
    /// bytecode, the frame is taken off.
    pub open spec fn step(self) -> Result<MachineView, Error> {
        if self.stack.len() == 0 {
            Err(Error::NoActiveFrame)
        } else if self.top().pc >= self.top().code.len() {
            Ok(return_void(self))
        } else {
            exec_instruction(self, self.top().code[self.top().pc as int])
        }
    }

    /// The machine with one step less to go.
    pub open spec fn tick(self) -> MachineView {
        MachineView { steps_left: (self.steps_left - 1) as u64, ..self }
    }

    /// The machine after it has run until no more than `base` frames are
    /// left on the call stack. Every step uses up one of the steps that are
    /// left; a machine that has to step and has none left fails with
    /// `StepLimitExceeded`. (A step leaves the number of steps alone, so the
    /// test after it always holds; it is there to make plain that the
    /// definition ends.)
    pub open spec fn run_until(self, base: nat) -> Result<MachineView, Error>
        decreases self.steps_left,
    {
        if self.stack.len() <= base {
            Ok(self)
        } else if self.steps_left == 0 {
            Err(Error::StepLimitExceeded)
        } else {
            match self.tick().step() {
                Err(e) => Err(e),
                Ok(next) => if next.steps_left < self.steps_left {
                    next.run_until(base)
                } else {
                    Err(Error::StepLimitExceeded)
                },
            }
        }
    }

    /// The frame in which the method of the name `name` and the descriptor
    /// `descriptor` of the class at `class` begins.
    pub open spec fn method_frame(
        self,
        class: usize,
        name: Seq<char>,
        descriptor: Seq<char>,
    ) -> Result<FrameView, Error> {
        if class >= self.classes.len() {
            Err(Error::ClassNotFound)
        } else {
            match find_member(
                self.classes[class as int].file.constant_pool,
                self.classes[class as int].file.methods,
                name,
                descriptor,
            ) {
                None => Err(Error::MethodNotFound),
                Some(method) => match frame_for(class, method) {
                    Err(e) => Err(e),
                    Ok(frame) => match parse_method(method.descriptor) {
                        Err(e) => Err(e),
                        Ok(_) => Ok(frame),
                    },
                },
            }
        }
    }

    /// The machine after the method of the name `name` and the descriptor
    /// `descriptor` of the class at `class` has run in a frame of its own,
    /// from its first instruction until that frame has left the call stack.
    pub open spec fn run_method(
        self,
        class: usize,
        name: Seq<char>,
        descriptor: Seq<char>,
    ) -> Result<MachineView, Error> {
        match self.method_frame(class, name, descriptor) {
            Err(e) => Err(e),
            Ok(frame) => (MachineView { stack: self.stack.push(frame), ..self }).run_until(
                self.stack.len(),
            ),
        }
    }

    /// The machine after the program has run: the entry point of the entry
    /// class, from its first instruction until its frame has left the call
    /// stack.
    pub open spec fn run(self) -> Result<MachineView, Error> {
        match self.entry_class {
            None => Err(Error::EntryClassNotSet),
            Some(name) => match find_class(self.classes, name) {
                None => Err(Error::ClassNotFound),
                Some(class) => if entry_point(self.classes[class as int].file) is None {
                    Err(Error::EntryPointNotFound)
                } else {
                    (MachineView { returned: None, ..self }).run_method(
                        class,
                        "main"@,
                        "([Ljava/lang/String;)V"@,
                    )
                },
            },
        }
    }

    /// The machine after the class of the name `name` has been initialised,
    /// and whether this is what initialised it. A class that is initialised
    /// already is left alone. One that is not is marked, and its initialiser,
    /// if it has one, runs until its frame has left the call stack.
    pub open spec fn init_class(self, name: Seq<char>) -> Result<(MachineView, bool), Error> {
        match find_class(self.classes, name) {
            None => Err(Error::ClassNotFound),
            Some(class) => if self.classes[class as int].initialised {
                Ok((self, false))
            } else {
                match begin_init(self, class) {
                    Err(e) => Err(e),
                    Ok(started) => match started.run_until(self.stack.len()) {
                        Err(e) => Err(e),
                        Ok(done) => Ok((done, true)),
                    },
                }
            },
        }
    }

    /// The machine after the class `file` has been loaded: it takes the place
    /// of the class of the same name, or is added where there is none.
    pub open spec fn load(self, file: ClassFileView) -> Result<MachineView, Error> {
        let class = ClassView { file, initialised: false };
        match class_name(class) {
            Err(e) => Err(e),
            Ok(name) => match find_class(self.classes, name) {
                Some(i) => Ok(MachineView { classes: self.classes.update(i as int, class), ..self }),
                None => Ok(MachineView { classes: self.classes.push(class), ..self }),
            },
        }
    }
}

/// The classes stay what they are while the machine runs: none is lost, and
/// none becomes uninitialised again.
pub proof fn lemma_classes_kept_trans(a: Seq<ClassView>, b: Seq<ClassView>, c: Seq<ClassView>)
    requires
        classes_kept(a, b),
        classes_kept(b, c),
    ensures
        classes_kept(a, c),
{
}

/// The position at which a class of a given name is found depends on the
/// class files alone.
pub proof fn lemma_find_class_kept(before: Seq<ClassView>, after: Seq<ClassView>, name: Seq<char>)
    requires
        classes_kept(before, after),
    ensures
        find_class(after, name) == find_class(before, name),
{
    assert forall|i: int| is_first_class(before, name, i) == is_first_class(after, name, i) by {
        if 0 <= i < before.len() {
            assert(after[i].file == before[i].file);
            assert forall|j: int| 0 <= j < i implies class_named(after[j], name) == class_named(
                before[j],
                name,
            ) by {
                assert(after[j].file == before[j].file);
            }
        }
    }
}

impl Jvm {
    /// A machine with no frames, an empty heap that may grow without bound,
    /// no classes, no entry class, and as many steps to go as can be counted.
    pub fn new() -> (jvm: Self)
        ensures
            jvm@.stack.len() == 0,
            jvm@.heap.cells.len() == 0,
            jvm@.heap.max_size == usize::MAX,
            jvm@.classes.len() == 0,
            jvm@.entry_class is None,
            jvm@.steps_left == u64::MAX,
            jvm@.returned is None,
    {
        Jvm {
            stack: Vec::new(),
            heap: Heap::default(),
            classes: Vec::new(),
            entry_class: None,
            steps_left: u64::MAX,
            returned: None,
        }
    }

    /// Loads the class `file`: it takes the place of the class of the same
    /// name, or is added where there is none. Returns the name of the class.
    pub fn load_class(&mut self, file: ClassFile) -> (res: Result<String, Error>)
        ensures
            match old(self)@.load(file@) {
                Ok(m) => res matches Ok(name) && final(self)@ == m && class_named(
                    ClassView { file: file@, initialised: false },
                    name@,
                ),
                Err(e) => res matches Err(g) && g == e && final(self)@ == old(self)@,
            },
            distinct_classes(old(self)@.classes) ==> distinct_classes(final(self)@.classes),
    {
        let ghost before = self@;
        let class = Class::new(file);
        let ghost c = class@;
        let name = match class.file.this_class() {
            Ok(text) => text.to_owned(),
            Err(e) => {
                return Err(e);
            },
        };
        assert(class_name(c) == Ok::<Seq<char>, Error>(name@));
        let found = class_index(&self.classes, name.as_str());
        assert(found == find_class(before.classes, name@));
        match found {
            Some(i) => {
                proof {
                    assert(exists|k: int| is_first_class(before.classes, name@, k));
                    let k = choose|k: int| is_first_class(before.classes, name@, k);
                    assert(is_first_class(before.classes, name@, k));
                    assert(before.classes.len() == self.classes.len());
                    assert(i == k);
                    assert(class_name(before.classes[i as int]) == class_name(c));
                }
                self.classes[i] = class;
                assert(self@.classes =~= before.classes.update(i as int, c));
                assert(distinct_classes(before.classes) ==> distinct_classes(self@.classes)) by {
                    if distinct_classes(before.classes) {
                        assert forall|a: int, b: int|
                            0 <= a < b < self@.classes.len() && class_name(
                                #[trigger] self@.classes[a],
                            ) is Ok implies class_name(self@.classes[a]) != class_name(
                            #[trigger] self@.classes[b],
                        ) by {
                            assert(class_name(self@.classes[a]) == class_name(before.classes[a]));
                            assert(class_name(self@.classes[b]) == class_name(before.classes[b]));
                        }
                    }
                }
            },
            None => {
                self.classes.push(class);
                assert(self@.classes =~= before.classes.push(c));
                assert(distinct_classes(before.classes) ==> distinct_classes(self@.classes)) by {
                    if distinct_classes(before.classes) {
                        assert forall|a: int, b: int|
                            0 <= a < b < self@.classes.len() && class_name(
                                #[trigger] self@.classes[a],
                            ) is Ok implies class_name(self@.classes[a]) != class_name(
                            #[trigger] self@.classes[b],
                        ) by {
                            if b == before.classes.len() {
                                if class_named(before.classes[a], name@) {
                                    lemma_some_first_class(before.classes, name@, a);
                                }
                            } else {
                                assert(self@.classes[a] == before.classes[a]);
                                assert(self@.classes[b] == before.classes[b]);
                            }
                        }
                    }
                }
            },
        }
        Ok(name)
    }

    /// Decodes the class file `bytes` and loads the class. Returns the name
    /// of the class.
    pub fn load_class_from_bytes(&mut self, bytes: &[u8]) -> (res: Result<String, Error>)
        ensures
            match parse_class(bytes@) {
                Err(e) => res matches Err(g) && g == e && final(self)@ == old(self)@,
                Ok(file) => match old(self)@.load(file) {
                    Ok(m) => res matches Ok(name) && final(self)@ == m && class_named(
                        ClassView { file, initialised: false },
                        name@,
                    ),
                    Err(e) => res matches Err(g) && g == e && final(self)@ == old(self)@,
                },
            },
            distinct_classes(old(self)@.classes) ==> distinct_classes(final(self)@.classes),
    {
        let mut reader = ByteReader::new(bytes);
        let file = ClassFile::read_from(&mut reader)?;
        self.load_class(file)
    }

    /// What is done for a call of the native method `method` of the class
    /// `class`: nothing, for no native method is provided. The call fails
    /// with `NativeMethod`.
    pub fn handle_native_method(class: &str, method: &Method) -> (res: Result<(), Error>)
        ensures
            res == Err::<(), Error>(Error::NativeMethod),
    {
        Err(Error::NativeMethod)
    }

    /// Chooses the class whose `main` is the program.
    pub fn set_entry_class(&mut self, class: &str)
        ensures
            final(self)@ == (MachineView { entry_class: Some(class@), ..old(self)@ }),
    {
        self.entry_class = Some(class.to_owned());
    }

    /// Runs one step: the instruction at the program counter of the top
    /// frame, or, where the top frame has run off the end of its bytecode,
    /// the taking off of that frame.
    pub fn step(&mut self) -> (res: Result<(), Error>)
        ensures
            step_keeps(old(self)@, final(self)@),
            machine_as(old(self)@.step(), res, final(self)@),
    {
        let depth = self.stack.len();
        if depth == 0 {
            return Err(Error::NoActiveFrame);
        }
        assert(self@.top() == self.stack@[depth - 1]@);
        let pc = self.stack[depth - 1].pc;
        if pc >= self.stack[depth - 1].code.len() {
            step_return_void(self);
            Ok(())
        } else {
            let instruction = self.stack[depth - 1].code[pc];
            handle_op_code(instruction, self, depth - 1)
        }
    }

    /// Runs until no more than `base` frames are left on the call stack.
    pub fn run_code(&mut self, base: usize) -> (res: Result<(), Error>)
        ensures
            classes_kept(old(self)@.classes, final(self)@.classes),
            machine_as(old(self)@.run_until(base as nat), res, final(self)@),
    {
        while self.stack.len() > base
            invariant
                classes_kept(old(self)@.classes, self@.classes),
                old(self)@.run_until(base as nat) == self@.run_until(base as nat),
            decreases self.steps_left,
        {
            if self.steps_left == 0 {
                return Err(Error::StepLimitExceeded);
            }
            let ghost before = self@;
            self.steps_left = self.steps_left - 1;
            assert(self@ == before.tick());
            let res = self.step();
            proof {
                lemma_classes_kept_trans(old(self)@.classes, before.classes, self@.classes);
            }
            match res {
                Err(e) => {
                    return Err(e);
                },
                Ok(_) => {},
            }
        }
        Ok(())
    }

    /// Runs the method of the name `name` and the descriptor `descriptor` of
    /// the class at `class` in a frame of its own, from its first instruction
    /// until that frame has left the call stack.
    pub fn run_method(&mut self, class: usize, name: &str, descriptor: &str) -> (res: Result<
        (),
        Error,
    >)
        ensures
            classes_kept(old(self)@.classes, final(self)@.classes),
            machine_as(old(self)@.run_method(class, name@, descriptor@), res, final(self)@),
    {
        let ghost before = self@;
        if class >= self.classes.len() {
            return Err(Error::ClassNotFound);
        }
        assert(before.classes[class as int] == self.classes@[class as int]@);
        let frame = {
            let method = match self.classes[class].file.find_method(name, descriptor) {
                Some(method) => method,
                None => {
                    return Err(Error::MethodNotFound);
                },
            };
            let frame = StackFrame::for_method(class, &method)?;
            let _ = MethodDescriptor::from_str(method.descriptor)?;
            frame
        };
        let base = self.stack.len();
        self.stack.push(frame);
        assert(self@.stack =~= before.stack.push(frame@));
        self.run_code(base)
    }

    /// Runs the program: the entry point of the entry class, from its first
    /// instruction until its frame has left the call stack. Returns what the
    /// entry point returned, if it returned a value to no caller.
    pub fn run(&mut self) -> (res: Result<Option<DataType>, Error>)
        ensures
            classes_kept(old(self)@.classes, final(self)@.classes),
            match old(self)@.run() {
                Ok(m) => res == Ok::<Option<DataType>, Error>(m.returned) && final(self)@ == m,
                Err(e) => res == Err::<Option<DataType>, Error>(e),
            },
    {
        let ghost before = self@;
        let class = match &self.entry_class {
            None => {
                return Err(Error::EntryClassNotSet);
            },
            Some(name) => match class_index(&self.classes, name.as_str()) {
                None => {
                    return Err(Error::ClassNotFound);
                },
                Some(class) => class,
            },
        };
        assert(before.classes[class as int] == self.classes@[class as int]@);
        if self.classes[class].file.find_entry_point().is_none() {
            return Err(Error::EntryPointNotFound);
        }
        self.returned = None;
        self.run_method(class, "main", "([Ljava/lang/String;)V")?;
        Ok(self.returned)
    }

    /// Initialises the class of the name `name` if it is not initialised
    /// yet, and returns whether this call is what initialised it. Whatever
    /// comes back, the class is marked as initialised from then on.
    pub fn init_class(&mut self, class_name: &str) -> (res: Result<bool, Error>)
        ensures
            classes_kept(old(self)@.classes, final(self)@.classes),
            find_class(old(self)@.classes, class_name@) matches Some(class) ==> (final(
                self
            ))@.classes[class as int].initialised,
            match old(self)@.init_class(class_name@) {
                Ok((m, first)) => res == Ok::<bool, Error>(first) && final(self)@ == m,
                Err(e) => res == Err::<bool, Error>(e),
            },
    {
        let ghost before = self@;
        let class = match class_index(&self.classes, class_name) {
            Some(class) => class,
            None => {
                return Err(Error::ClassNotFound);
            },
        };
        proof {
            let k = choose|k: int| is_first_class(before.classes, class_name@, k);
            assert(is_first_class(before.classes, class_name@, k));
        }
        assert(before.classes[class as int] == self.classes@[class as int]@);
        if self.classes[class].initialised {
            return Ok(false);
        }
        let base = self.stack.len();
        let started = start_init(self, class);
        let ghost middle = self@;
        match started {
            Err(e) => {
                return Err(e);
            },
            Ok(_) => {},
        }
        let res = self.run_code(base);
        proof {
            lemma_classes_kept_trans(before.classes, middle.classes, self@.classes);
        }
        match res {
            Err(e) => Err(e),
            Ok(_) => Ok(true),
        }
    }
}

/// A class that has a name is found under it, at its own place or before.
pub proof fn lemma_some_first_class(classes: Seq<ClassView>, name: Seq<char>, i: int)
    requires
        0 <= i < classes.len(),
        class_named(classes[i], name),
    ensures
        exists|k: int| is_first_class(classes, name, k),
    decreases i,
{
    if exists|j: int| 0 <= j < i && class_named(classes[j], name) {
        let j = choose|j: int| 0 <= j < i && class_named(classes[j], name);
        lemma_some_first_class(classes, name, j);
    } else {
        assert(is_first_class(classes, name, i));
    }
}

} // verus!
