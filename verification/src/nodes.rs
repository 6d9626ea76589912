use crate::felt::Felt;
use vstd::prelude::*;

verus! {

/// What an advice injection asks of the advice provider.
#[derive(Clone, Copy, Debug, PartialEq, Eq, Structural)]
pub enum AdviceInjectorNode {
    PushU64div,
    PushExt2intt,
    PushSmtGet,
    PushMapVal,
    PushMtNode,
    InsertMem,
    InsertHdword { domain: u8 },
}

/// One operation of the instruction set. A depth that the source writes as a
/// parameter is part of the variant, so no variant holds a depth outside its
/// family's legal set.
#[derive(Debug, PartialEq, Eq)]
pub enum Instruction {
    // assertions, field and boolean operations
    Assert,
    AssertEq,
    Assertz,
    Add,
    Sub,
    Mul,
    Div,
    Neg,
    Inv,
    Not,
    And,
    Or,
    Xor,
    Eq,
    Neq,
    Lt,
    Lte,
    Gt,
    Gte,
    // 32-bit operations
    U32CheckedAdd,
    U32WrappingAdd,
    U32OverflowingAdd,
    U32CheckedSub,
    U32WrappingSub,
    U32OverflowingSub,
    U32CheckedMul,
    U32WrappingMul,
    U32OverflowingMul,
    // stack manipulation
    Drop,
    DropW,
    PadW,
    CSwap,
    CSwapW,
    CDrop,
    CDropW,
    // `dup`
    Dup0,
    Dup1,
    Dup2,
    Dup3,
    Dup4,
    Dup5,
    Dup6,
    Dup7,
    Dup8,
    Dup9,
    Dup10,
    Dup11,
    Dup12,
    Dup13,
    Dup14,
    Dup15,
    // `dupw`
    DupW0,
    DupW1,
    DupW2,
    DupW3,
    // `swap`
    Swap,
    Swap2,
    Swap3,
    Swap4,
    Swap5,
    Swap6,
    Swap7,
    Swap8,
    Swap9,
    Swap10,
    Swap11,
    Swap12,
    Swap13,
    Swap14,
    Swap15,
    // `swapw`
    SwapW,
    SwapW2,
    SwapW3,
    // `movup`
    MovUp2,
    MovUp3,
    MovUp4,
    MovUp5,
    MovUp6,
    MovUp7,
    MovUp8,
    MovUp9,
    MovUp10,
    MovUp11,
    MovUp12,
    MovUp13,
    MovUp14,
    MovUp15,
    // `movdn`
    MovDn2,
    MovDn3,
    MovDn4,
    MovDn5,
    MovDn6,
    MovDn7,
    MovDn8,
    MovDn9,
    MovDn10,
    MovDn11,
    MovDn12,
    MovDn13,
    MovDn14,
    MovDn15,
    // `movupw`
    MovUpW2,
    MovUpW3,
    // `movdnw`
    MovDnW2,
    MovDnW3,
    // constants and local memory
    /// Pushes the constants, the first one deepest.
    PushConstants(Vec<Felt>),
    LocLoad(Felt),
    LocStore(Felt),
    // advice
    AdvInject(AdviceInjectorNode),
    // procedure calls
    /// Executes the local procedure with this index.
    ExecLocal(u16),
    /// Executes the imported procedure with this content address.
    ExecImported([u8; 24]),
    /// Calls the local procedure with this index in a new context.
    CallLocal(u16),
    /// Calls the imported procedure with this content address in a new context.
    CallImported([u8; 24]),
}

/// What an instruction is to a specification. Every instruction but the
/// constant list holds plain data only and stands for itself; the constant
/// list is modelled by the sequence of its constants.
pub enum InstructionView {
    Constants(Seq<Felt>),
    Fixed(Instruction),
}

impl View for Instruction {
    type V = InstructionView;

    open spec fn view(&self) -> InstructionView {
        match self {
            Instruction::PushConstants(constants) => InstructionView::Constants(constants@),
            _ => InstructionView::Fixed(*self),
        }
    }
}

impl InstructionView {
    /// The model of some instruction whose field elements are canonical and
    /// whose constants a 64-bit number can count.
    pub open spec fn wf(self) -> bool {
        match self {
            InstructionView::Constants(constants) => constants.len() <= u64::MAX && forall|i: int|
                0 <= i < constants.len() ==> (#[trigger] constants[i]).is_canonical(),
            InstructionView::Fixed(Instruction::PushConstants(_)) => false,
            InstructionView::Fixed(Instruction::LocLoad(index)) => index.is_canonical(),
            InstructionView::Fixed(Instruction::LocStore(index)) => index.is_canonical(),
            InstructionView::Fixed(_) => true,
        }
    }
}

/// One node of the control-flow tree: an instruction, or a composite that
/// owns the nodes of its bodies.
#[derive(Debug, PartialEq, Eq)]
pub enum Node {
    Instruction(Instruction),
    /// Runs the first body if the top of the stack is one, else the second.
    IfElse(Vec<Node>, Vec<Node>),
    /// Runs the body the given number of times.
    Repeat(u32, Vec<Node>),
    /// Runs the body as long as the top of the stack is one.
    While(Vec<Node>),
}

/// What a node is to a specification.
pub enum NodeView {
    Instruction(InstructionView),
    IfElse(Seq<NodeView>, Seq<NodeView>),
    Repeat(u32, Seq<NodeView>),
    While(Seq<NodeView>),
}

/// The models of a sequence of nodes.
pub open spec fn nodes_view(nodes: Seq<Node>) -> Seq<NodeView>
    decreases nodes,
{
    Seq::new(
        nodes.len(),
        |i: int|
            if 0 <= i < nodes.len() {
                nodes[i]@
            } else {
                NodeView::While(Seq::empty())
            },
    )
}

impl View for Node {
    type V = NodeView;

    open spec fn view(&self) -> NodeView
        decreases self,
    {
        match self {
            Node::Instruction(instruction) => NodeView::Instruction(instruction@),
            Node::IfElse(then_body, else_body) => NodeView::IfElse(
                nodes_view(then_body@),
                nodes_view(else_body@),
            ),
            Node::Repeat(count, body) => NodeView::Repeat(*count, nodes_view(body@)),
            Node::While(body) => NodeView::While(nodes_view(body@)),
        }
    }
}

impl NodeView {
    /// Every instruction in the tree is well formed.
    pub open spec fn wf(self) -> bool
        decreases self,
    {
        match self {
            NodeView::Instruction(instruction) => instruction.wf(),
            NodeView::IfElse(then_body, else_body) => nodes_wf(then_body) && nodes_wf(else_body),
            NodeView::Repeat(_, body) => nodes_wf(body),
            NodeView::While(body) => nodes_wf(body),
        }
    }
}

/// Every node of the sequence is well formed, and a 64-bit number can count
/// them.
pub open spec fn nodes_wf(nodes: Seq<NodeView>) -> bool
    decreases nodes,
{
    nodes.len() <= u64::MAX && forall|i: int| 0 <= i < nodes.len() ==> (#[trigger] nodes[i]).wf()
}

/// A procedure: its name, whether its module exports it, the number of local
/// slots it declares, its index in the order of declaration, and its body.
#[derive(Debug, PartialEq, Eq)]
pub struct ProcedureAst {
    pub name: Vec<u8>,
    pub is_export: bool,
    pub num_locals: u32,
    pub index: u16,
    pub body: Vec<Node>,
}

/// What a procedure is to a specification.
pub struct ProcView {
    pub name: Seq<u8>,
    pub is_export: bool,
    pub num_locals: u32,
    pub index: u16,
    pub body: Seq<NodeView>,
}

impl View for ProcedureAst {
    type V = ProcView;

    open spec fn view(&self) -> ProcView {
        ProcView {
            name: self.name@,
            is_export: self.is_export,
            num_locals: self.num_locals,
            index: self.index,
            body: nodes_view(self.body@),
        }
    }
}

impl ProcView {
    /// The body is well formed, and a 64-bit number can hold the name's length.
    pub open spec fn wf(self) -> bool {
        self.name.len() <= u64::MAX && nodes_wf(self.body)
    }
}

} // verus!
