use vstd::prelude::*;
use crate::memory::MemoryImage;

verus! {

/// A running process, by id and name.
#[derive(Clone, Debug)]
pub struct ProcessInfo {
    pub pid: u32,
    pub name: String,
}

/// A loaded image: name, base address, image size.
#[derive(Clone, Debug)]
pub struct ModuleInfo {
    pub name: String,
    pub base_address: usize,
    pub size: usize,
}

/// No module is loaded in the target.
#[derive(Clone, Copy, Debug, PartialEq, Eq, Structural)]
pub enum ModuleError {
    NoModules,
}

impl ModuleInfo {
    /// A copy of this module's description.
    pub fn duplicate(&self) -> (r: ModuleInfo)
        ensures
            r.name@ == self.name@,
            r.base_address == self.base_address,
            r.size == self.size,
    {
        ModuleInfo { name: self.name.clone(), base_address: self.base_address, size: self.size }
    }
}

/// The main module of a target: the first of its loaded modules.
pub fn get_main_module(modules: &Vec<ModuleInfo>) -> (r: Result<ModuleInfo, ModuleError>)
    ensures
        r is Ok <==> modules@.len() > 0,
        r is Ok ==> r->Ok_0.name@ == modules@[0].name@ && r->Ok_0.base_address
            == modules@[0].base_address && r->Ok_0.size == modules@[0].size,
        r is Err ==> r->Err_0 == ModuleError::NoModules,
{
    if modules.len() == 0 {
        Err(ModuleError::NoModules)
    } else {
        Ok(modules[0].duplicate())
    }
}

/// An opened target: its id and name, its address space and its loaded
/// modules (the main module first).
pub struct Process {
    pub pid: u32,
    pub name: String,
    pub memory: MemoryImage,
    pub modules: Vec<ModuleInfo>,
}

impl Process {
    pub open spec fn wf(self) -> bool {
        self.memory.wf()
    }

    pub fn new(pid: u32, name: String, memory: MemoryImage, modules: Vec<ModuleInfo>) -> (r:
        Process)
        ensures
            r.pid == pid,
            r.name == name,
            r.memory == memory,
            r.modules == modules,
    {
        Process { pid, name, memory, modules }
    }

    /// A process described by `info`, with the given address space and modules.
    pub fn from_info(info: &ProcessInfo, memory: MemoryImage, modules: Vec<ModuleInfo>) -> (r:
        Process)
        ensures
            r.pid == info.pid,
            r.name@ == info.name@,
            r.memory == memory,
            r.modules == modules,
    {
        Process { pid: info.pid, name: info.name.clone(), memory, modules }
    }
}

} // verus!
