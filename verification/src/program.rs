//! The instruction set and its mathematical model.

use vstd::prelude::*;

verus! {

/// One entry of a `CreateUI` property list.
#[derive(Debug, PartialEq, Eq)]
pub enum Property {
    /// A one-byte numeric payload.
    Number { property_id: u8, value: u8 },
    /// A text payload.
    Text { property_id: u8, text: String },
}

/// The model of a [`Property`].
pub enum PropertyView {
    Number { property_id: u8, value: u8 },
    Text { property_id: u8, text: Seq<char> },
}

impl View for Property {
    type V = PropertyView;

    open spec fn view(&self) -> PropertyView {
        match *self {
            Property::Number { property_id, value } => PropertyView::Number { property_id, value },
            Property::Text { property_id, text } => PropertyView::Text { property_id, text: text@ },
        }
    }
}

impl Clone for Property {
    fn clone(&self) -> (copy: Self)
        ensures
            copy@ == self@,
    {
        match self {
            Property::Number { property_id, value } => Property::Number {
                property_id: *property_id,
                value: *value,
            },
            Property::Text { property_id, text } => Property::Text {
                property_id: *property_id,
                text: text.clone(),
            },
        }
    }
}

/// The models of a list of properties, in order.
pub open spec fn property_views(properties: Seq<Property>) -> Seq<PropertyView> {
    properties.map_values(|p: Property| p@)
}

/// A copy of a list of properties.
pub fn copy_properties(properties: &Vec<Property>) -> (copy: Vec<Property>)
    ensures
        property_views(copy@) == property_views(properties@),
{
    let mut copy: Vec<Property> = Vec::new();
    let mut i: usize = 0;
    while i < properties.len()
        invariant
            i <= properties.len(),
            copy@.len() == i,
            forall|j: int| 0 <= j < i ==> copy@[j]@ == properties@[j]@,
        decreases properties.len() - i,
    {
        copy.push(properties[i].clone());
        i = i + 1;
    }
    copy
}

/// One decoded instruction.
#[derive(Debug, PartialEq, Eq)]
pub enum Instruction {
    Let { var_id: u8, value: u8 },
    Assign { var_id: u8, value: u8 },
    Print { var_id: u8 },
    Add { dest_id: u8, src1_id: u8, src2_id: u8 },
    CreateUI { element_type: u8, element_id: u8, property_count: u8, properties: Vec<Property> },
    SetUIProperty { element_id: u8, property_id: u8, value: u8 },
    OnUIEvent { element_id: u8, event_type: u8, handler_id: u8 },
    ShowUI,
    CheckForUpdate,
    ApplyUpdate,
    Unknown(u8),
}

/// The model of an [`Instruction`].
pub enum InstructionView {
    Let { var_id: u8, value: u8 },
    Assign { var_id: u8, value: u8 },
    Print { var_id: u8 },
    Add { dest_id: u8, src1_id: u8, src2_id: u8 },
    CreateUI {
        element_type: u8,
        element_id: u8,
        property_count: u8,
        properties: Seq<PropertyView>,
    },
    SetUIProperty { element_id: u8, property_id: u8, value: u8 },
    OnUIEvent { element_id: u8, event_type: u8, handler_id: u8 },
    ShowUI,
    CheckForUpdate,
    ApplyUpdate,
    Unknown(u8),
}

impl View for Instruction {
    type V = InstructionView;

    open spec fn view(&self) -> InstructionView {
        match *self {
            Instruction::Let { var_id, value } => InstructionView::Let { var_id, value },
            Instruction::Assign { var_id, value } => InstructionView::Assign { var_id, value },
            Instruction::Print { var_id } => InstructionView::Print { var_id },
            Instruction::Add { dest_id, src1_id, src2_id } => InstructionView::Add {
                dest_id,
                src1_id,
                src2_id,
            },
            Instruction::CreateUI {
                element_type,
                element_id,
                property_count,
                properties,
            } => InstructionView::CreateUI {
                element_type,
                element_id,
                property_count,
                properties: property_views(properties@),
            },
            Instruction::SetUIProperty {
                element_id,
                property_id,
                value,
            } => InstructionView::SetUIProperty { element_id, property_id, value },
            Instruction::OnUIEvent {
                element_id,
                event_type,
                handler_id,
            } => InstructionView::OnUIEvent { element_id, event_type, handler_id },
            Instruction::ShowUI => InstructionView::ShowUI,
            Instruction::CheckForUpdate => InstructionView::CheckForUpdate,
            Instruction::ApplyUpdate => InstructionView::ApplyUpdate,
            Instruction::Unknown(op) => InstructionView::Unknown(op),
        }
    }
}

impl Clone for Instruction {
    fn clone(&self) -> (copy: Self)
        ensures
            copy@ == self@,
    {
        match self {
            Instruction::Let { var_id, value } => Instruction::Let {
                var_id: *var_id,
                value: *value,
            },
            Instruction::Assign { var_id, value } => Instruction::Assign {
                var_id: *var_id,
                value: *value,
            },
            Instruction::Print { var_id } => Instruction::Print { var_id: *var_id },
            Instruction::Add { dest_id, src1_id, src2_id } => Instruction::Add {
                dest_id: *dest_id,
                src1_id: *src1_id,
                src2_id: *src2_id,
            },
            Instruction::CreateUI {
                element_type,
                element_id,
                property_count,
                properties,
            } => Instruction::CreateUI {
                element_type: *element_type,
                element_id: *element_id,
                property_count: *property_count,
                properties: copy_properties(properties),
            },
            Instruction::SetUIProperty {
                element_id,
                property_id,
                value,
            } => Instruction::SetUIProperty {
                element_id: *element_id,
                property_id: *property_id,
                value: *value,
            },
            Instruction::OnUIEvent { element_id, event_type, handler_id } => Instruction::OnUIEvent {
                element_id: *element_id,
                event_type: *event_type,
                handler_id: *handler_id,
            },
            Instruction::ShowUI => Instruction::ShowUI,
            Instruction::CheckForUpdate => Instruction::CheckForUpdate,
            Instruction::ApplyUpdate => Instruction::ApplyUpdate,
            Instruction::Unknown(op) => Instruction::Unknown(*op),
        }
    }
}

/// The models of a list of instructions, in order.
pub open spec fn instruction_views(instructions: Seq<Instruction>) -> Seq<InstructionView> {
    instructions.map_values(|i: Instruction| i@)
}

/// A decoded program: the format version and the instructions in stream order.
#[derive(Debug, PartialEq, Eq)]
pub struct Program {
    pub version: u8,
    pub instructions: Vec<Instruction>,
}

/// The model of a [`Program`].
pub struct ProgramView {
    pub version: u8,
    pub instructions: Seq<InstructionView>,
}

impl View for Program {
    type V = ProgramView;

    open spec fn view(&self) -> ProgramView {
        ProgramView { version: self.version, instructions: instruction_views(self.instructions@) }
    }
}

impl Clone for Program {
    fn clone(&self) -> (copy: Self)
        ensures
            copy@ == self@,
    {
        let mut instructions: Vec<Instruction> = Vec::new();
        let mut i: usize = 0;
        while i < self.instructions.len()
            invariant
                i <= self.instructions.len(),
                instructions@.len() == i,
                forall|j: int| 0 <= j < i ==> instructions@[j]@ == self.instructions@[j]@,
            decreases self.instructions.len() - i,
        {
            instructions.push(self.instructions[i].clone());
            i = i + 1;
        }
        assert(instruction_views(instructions@) =~= instruction_views(self.instructions@));
        Program { version: self.version, instructions }
    }
}

} // verus!
