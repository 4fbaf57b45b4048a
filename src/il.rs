// Intermediate Language
use vstd::prelude::*;

verus! {

/// The position of a node in an instruction tree.
pub struct InstructionId(usize);

impl InstructionId {
    pub closed spec fn index(&self) -> nat {
        self.0 as nat
    }
}

pub struct InstructionTree {
    nodes: Vec<Instruction>,
    root: Option<InstructionId>,
}

pub struct Register;

pub enum Instruction {
    SetRegister(Register, InstructionId),  // Register = Expression
    Load(InstructionId),  // Load from memory
    Store(InstructionId, InstructionId),  // Store into memory
    Push(InstructionId),
    Pop(InstructionId),
    ConstantInt32(u32),
}

impl InstructionTree {
    /// The nodes, in the order in which they were added.
    pub closed spec fn nodes(&self) -> Seq<Instruction> {
        self.nodes@
    }

    /// The root node, if one was set.
    pub closed spec fn root(&self) -> Option<InstructionId> {
        self.root
    }

    /// The root, where there is one, names a node of the tree.
    pub open spec fn wf(&self) -> bool {
        self.root() matches Some(id) ==> id.index() < self.nodes().len()
    }

    /// Creates an empty tree
    pub fn new() -> (r: InstructionTree)
        ensures
            r.wf(),
            r.nodes() == Seq::<Instruction>::empty(),
            r.root() is None,
    {
        InstructionTree { nodes: Vec::new(), root: None }
    }

    /// Adds an instruction node and returns the ID
    pub fn add_node(&mut self, instruction: Instruction) -> (r: InstructionId)
        ensures
            final(self).nodes() == old(self).nodes().push(instruction),
            final(self).root() == old(self).root(),
            r.index() == old(self).nodes().len(),
            old(self).wf() ==> final(self).wf(),
    {
        self.nodes.push(instruction);
        InstructionId(self.nodes.len() - 1)
    }

    /// Sets the root node from an instruction ID. This MUST be a valid ID.
    pub fn set_root(&mut self, id: InstructionId)
        requires
            id.index() < old(self).nodes().len(),
        ensures
            final(self).nodes() == old(self).nodes(),
            final(self).root() == Some(id),
            final(self).wf(),
    {
        self.root = Some(id);
    }

    /// Adds an instruction node and sets it as root
    pub fn add_root(&mut self, instruction: Instruction)
        ensures
            final(self).nodes() == old(self).nodes().push(instruction),
            final(self).root() matches Some(id) && id.index() == old(self).nodes().len(),
            final(self).wf(),
    {
        let id = self.add_node(instruction);
        self.set_root(id);
    }
}

} // verus!
