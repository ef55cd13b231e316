//! The control-flow graphs that the translation walks.
//!
//! A [`Program`] lists its functions. A function that can be walked has blocks,
//! each a list of statements and one terminator. Functions, blocks and locals are
//! referred to by their position.

use vstd::prelude::*;

verus! {

/// A storage location of a function: a local variable and, where the location
/// lies inside the variable, the path of fields that leads to it.
#[derive(Clone, Copy, PartialEq, Eq, Structural, Debug)]
pub struct Location {
    /// The local variable: the root of the location.
    pub local: usize,
    /// The path of fields that is selected from the variable, if any. Paths are
    /// known by number: within a function, two paths have the same number exactly
    /// if they select the same fields in the same order.
    pub path: Option<usize>,
}

/// A statement of a block. Only what it does to synchronization handles matters.
#[derive(Clone, Copy, Debug)]
pub enum Statement {
    /// The target receives a copy of, a reference to or the moved value of the
    /// source, or what the source points to.
    Alias { target: Location, source: Location },
    /// Any other statement.
    Other,
}

/// An argument of a call.
#[derive(Clone, Copy, Debug)]
pub struct Operand {
    /// The location that the argument is read from, unless it is a constant.
    pub location: Option<Location>,
    /// The function that the argument stands for, where it is a function or a
    /// closure.
    pub function: Option<usize>,
}

/// The end of a block.
#[derive(Debug)]
#[allow(inconsistent_fields)]
pub enum Terminator {
    Goto { target: usize },
    Switch { targets: Vec<usize> },
    Call {
        callee: usize,
        args: Vec<Operand>,
        destination: Location,
        target: Option<usize>,
        cleanup: Option<usize>,
    },
    Return,
    Unwind,
    Unreachable,
}

#[derive(Debug)]
pub struct BasicBlock {
    pub statements: Vec<Statement>,
    pub terminator: Terminator,
}

#[derive(Debug)]
pub struct Function {
    /// The qualified name of the function.
    pub name: String,
    /// Whether the function is foreign: it has no blocks to walk.
    pub foreign: bool,
    pub blocks: Vec<BasicBlock>,
    /// The places of the named variables of the function whose type holds a
    /// mutex, in the order in which the function declares them. Where the function
    /// runs as a thread, those of them that lie in what the closure captured receive
    /// the mutexes of the thread.
    pub mutex_places: Vec<Location>,
}

#[derive(Debug)]
pub struct Program {
    pub functions: Vec<Function>,
    /// The function at which the program starts, if there is one.
    pub entry: Option<usize>,
}

impl Operand {
    /// The function that the argument stands for, if any, exists.
    pub open spec fn wf(&self, functions: nat) -> bool {
        self.function matches Some(f) ==> f < functions
    }
}

impl Terminator {
    /// Every block and function that the terminator names exists.
    pub open spec fn wf(&self, blocks: nat, functions: nat) -> bool {
        match *self {
            Terminator::Goto { target } => target < blocks,
            Terminator::Switch { targets } => forall|i: int|
                0 <= i < targets@.len() ==> targets@[i] < blocks,
            Terminator::Call { callee, args, destination, target, cleanup } => {
                &&& callee < functions
                &&& target matches Some(t) ==> t < blocks
                &&& cleanup matches Some(c) ==> c < blocks
                &&& forall|i: int| 0 <= i < args@.len() ==> (#[trigger] args@[i]).wf(functions)
            },
            _ => true,
        }
    }

    /// Tells whether every block and function that the terminator names exists.
    pub fn check(&self, blocks: usize, functions: usize) -> (ok: bool)
        ensures
            ok == self.wf(blocks as nat, functions as nat),
    {
        match self {
            Terminator::Goto { target } => *target < blocks,
            Terminator::Switch { targets } => {
                let mut i: usize = 0;
                while i < targets.len()
                    invariant
                        i <= targets@.len(),
                        forall|k: int| 0 <= k < i ==> targets@[k] < blocks,
                        self.wf(blocks as nat, functions as nat) <==> (forall|k: int|
                            0 <= k < targets@.len() ==> targets@[k] < blocks),
                    decreases targets@.len() - i,
                {
                    if targets[i] >= blocks {
                        assert(!(targets@[i as int] < blocks));
                        return false;
                    }
                    i += 1;
                }
                true
            },
            Terminator::Call { callee, args, destination, target, cleanup } => {
                if *callee >= functions {
                    return false;
                }
                if let Some(t) = target {
                    if *t >= blocks {
                        return false;
                    }
                }
                if let Some(c) = cleanup {
                    if *c >= blocks {
                        return false;
                    }
                }
                let mut i: usize = 0;
                while i < args.len()
                    invariant
                        i <= args@.len(),
                        forall|k: int| 0 <= k < i ==> (#[trigger] args@[k]).wf(functions as nat),
                        self.wf(blocks as nat, functions as nat) <==> (forall|k: int|
                            0 <= k < args@.len() ==> (#[trigger] args@[k]).wf(functions as nat)),
                    decreases args@.len() - i,
                {
                    if let Some(f) = args[i].function {
                        if f >= functions {
                            assert(!args@[i as int].wf(functions as nat));
                            return false;
                        }
                    }
                    i += 1;
                }
                true
            },
            _ => true,
        }
    }
}

impl Function {
    /// Every block and function that a terminator of the function names exists.
    pub open spec fn wf(&self, functions: nat) -> bool {
        forall|b: int|
            0 <= b < self.blocks@.len() ==> (#[trigger] self.blocks@[b]).terminator.wf(
                self.blocks@.len(),
                functions,
            )
    }

    /// Tells whether every block and function that a terminator of the function
    /// names exists.
    pub fn check(&self, functions: usize) -> (ok: bool)
        ensures
            ok == self.wf(functions as nat),
    {
        let mut b: usize = 0;
        while b < self.blocks.len()
            invariant
                b <= self.blocks@.len(),
                forall|k: int|
                    0 <= k < b ==> (#[trigger] self.blocks@[k]).terminator.wf(
                        self.blocks@.len(),
                        functions as nat,
                    ),
            decreases self.blocks@.len() - b,
        {
            if !self.blocks[b].terminator.check(self.blocks.len(), functions) {
                return false;
            }
            b += 1;
        }
        true
    }
}

impl Program {
    /// Every function and block that the program names exists.
    pub open spec fn wf(&self) -> bool {
        &&& self.entry matches Some(entry) ==> entry < self.functions@.len()
        &&& forall|f: int|
            0 <= f < self.functions@.len() ==> (#[trigger] self.functions@[f]).wf(
                self.functions@.len(),
            )
    }

    /// Tells whether every function and block that the program names exists.
    pub fn check(&self) -> (ok: bool)
        ensures
            ok == self.wf(),
    {
        if let Some(entry) = self.entry {
            if entry >= self.functions.len() {
                return false;
            }
        }
        let mut f: usize = 0;
        while f < self.functions.len()
            invariant
                f <= self.functions@.len(),
                forall|k: int|
                    0 <= k < f ==> (#[trigger] self.functions@[k]).wf(self.functions@.len()),
            decreases self.functions@.len() - f,
        {
            if !self.functions[f].check(self.functions.len()) {
                return false;
            }
            f += 1;
        }
        true
    }
}

} // verus!
