use vstd::prelude::*;
use vstd::string::StringExecFns;

use crate::ir::arena::{FuncId, GlobalId};
use crate::ir::constant::{Constant, ConstantView};
use crate::ir::func::{FuncView, IrFunc};
use crate::ir::ty::{IrTy, IrTyView};

verus! {

/// A global variable: the type of its address, its name, and the constant
/// that it starts with.
#[derive(Debug)]
pub struct Global {
    pub ty: IrTy,
    pub name: String,
    pub init: Constant,
}

/// A global as a mathematical value.
pub struct GlobalView {
    pub name: Seq<char>,
    pub ty: IrTyView,
    pub init: ConstantView,
}

/// A module as a mathematical value.
pub struct ModuleView {
    pub funcs: Seq<FuncView>,
    pub globals: Seq<GlobalView>,
}

impl Global {
    pub open spec fn view(&self) -> GlobalView {
        GlobalView { name: self.name@, ty: self.ty@, init: self.init@ }
    }

    pub fn new(ty: IrTy, name: &str, init: Constant) -> (out: Global)
        ensures
            out.ty == ty,
            out.name@ == name@,
            out.init == init,
    {
        Global { ty, name: String::from_str(name), init }
    }
}

/// The functions and globals of a program. Nothing is ever taken out, so a
/// handle stays good.
#[derive(Debug)]
pub struct Module {
    pub funcs: Vec<IrFunc>,
    pub globals: Vec<Global>,
}

impl Module {
    pub open spec fn view(&self) -> ModuleView {
        ModuleView {
            funcs: Seq::new(self.funcs@.len(), |i: int| self.funcs@[i]@),
            globals: Seq::new(self.globals@.len(), |i: int| self.globals@[i]@),
        }
    }

    pub fn new() -> (out: Module)
        ensures
            out.funcs@.len() == 0,
            out.globals@.len() == 0,
    {
        Module { funcs: Vec::new(), globals: Vec::new() }
    }

    pub fn get_func(&self, id: FuncId) -> (out: Option<&IrFunc>)
        ensures
            match out {
                Some(func) => id.0 < self.funcs@.len() && *func == self.funcs@[id.0 as int],
                None => id.0 >= self.funcs@.len(),
            },
    {
        if id.0 < self.funcs.len() {
            Some(&self.funcs[id.0])
        } else {
            None
        }
    }

    pub fn get_global(&self, id: GlobalId) -> (out: Option<&Global>)
        ensures
            match out {
                Some(global) => id.0 < self.globals@.len() && *global == self.globals@[id.0 as int],
                None => id.0 >= self.globals@.len(),
            },
    {
        if id.0 < self.globals.len() {
            Some(&self.globals[id.0])
        } else {
            None
        }
    }

    /// Adds a function after the ones that are there.
    pub fn build_func(&mut self, func: IrFunc) -> (out: FuncId)
        ensures
            out == FuncId(old(self).funcs@.len() as usize),
            final(self).funcs@ == old(self).funcs@.push(func),
            final(self).globals == old(self).globals,
    {
        let id = FuncId(self.funcs.len());
        self.funcs.push(func);
        id
    }

    /// Adds a global after the ones that are there.
    pub fn build_global(&mut self, global: Global) -> (out: GlobalId)
        ensures
            out == GlobalId(old(self).globals@.len() as usize),
            final(self).globals@ == old(self).globals@.push(global),
            final(self).funcs == old(self).funcs,
    {
        let id = GlobalId(self.globals.len());
        self.globals.push(global);
        id
    }
}

} // verus!
