use vstd::prelude::*;

verus! {

/// The handle of a basic block: its index in the blocks of its function.
#[derive(Debug, Clone, Copy, PartialEq, Eq, Structural)]
pub struct BBId(pub usize);

/// The handle of a function: its index in the functions of the module.
#[derive(Debug, Clone, Copy, PartialEq, Eq, Structural)]
pub struct FuncId(pub usize);

/// The handle of a global: its index in the globals of the module.
#[derive(Debug, Clone, Copy, PartialEq, Eq, Structural)]
pub struct GlobalId(pub usize);

/// The handle of an instruction: its index in the instructions of its
/// function.
#[derive(Debug, Clone, Copy, PartialEq, Eq, Structural)]
pub struct InstId(pub usize);

/// The handle of a parameter: its index in the parameters of its function.
#[derive(Debug, Clone, Copy, PartialEq, Eq, Structural)]
pub struct ParamId(pub usize);

impl Default for BBId {
    fn default() -> (out: Self)
        ensures
            out == BBId(0),
    {
        BBId(0)
    }
}

impl Default for FuncId {
    fn default() -> (out: Self)
        ensures
            out == FuncId(0),
    {
        FuncId(0)
    }
}

} // verus!
