//! The UI tree builder: element descriptors, the registry of pending
//! elements, and the forest that `ShowUI` assembles.

use crate::program::{
    property_views, Instruction, InstructionView, Program, Property, PropertyView,
};
use std::collections::HashMap;
use vstd::prelude::*;

verus! {

broadcast use vstd::std_specs::hash::group_hash_axioms;

/// The element type of a button.
pub const BUTTON: u8 = 1;

/// The element type of a label.
pub const LABEL: u8 = 2;

/// The element type of a line of text that can be edited.
pub const INPUT: u8 = 3;

/// The element type of a layout that puts its children one below the other.
pub const LAYOUT: u8 = 4;

/// The event type of a click.
pub const EVENT_CLICK: u8 = 1;

/// The event type of a change of value.
pub const EVENT_CHANGE: u8 = 2;

/// The id of the element that `ShowUI` shows as a root.
pub const ROOT_ID: u8 = 0;

/// A UI element descriptor.
#[derive(Debug, PartialEq, Eq)]
pub struct GuiElement {
    pub element_type: u8,
    pub element_id: u8,
    /// The numeric properties, in the order in which they were declared.
    pub properties: Vec<(u8, u8)>,
    /// The text properties, by property id.
    pub string_properties: HashMap<u8, String>,
    pub handler_id: Option<u8>,
    pub children: Vec<GuiElement>,
    pub value: Option<String>,
}

/// The model of a [`GuiElement`].
pub struct GuiElementView {
    pub element_type: u8,
    pub element_id: u8,
    pub properties: Seq<(u8, u8)>,
    pub string_properties: Map<u8, Seq<char>>,
    pub handler_id: Option<u8>,
    pub children: Seq<GuiElementView>,
    pub value: Option<Seq<char>>,
}

/// The model of a map of texts.
pub open spec fn text_map(texts: Map<u8, String>) -> Map<u8, Seq<char>> {
    Map::new(|k: u8| texts.contains_key(k), |k: u8| texts[k]@)
}

/// The model of an optional text.
pub open spec fn text_option(text: Option<String>) -> Option<Seq<char>> {
    match text {
        Some(s) => Some(s@),
        None => None,
    }
}

/// The model of an element: its fields, with the models of its children.
pub open spec fn element_view(element: GuiElement) -> GuiElementView
    decreases element,
{
    GuiElementView {
        element_type: element.element_type,
        element_id: element.element_id,
        properties: element.properties@,
        string_properties: text_map(element.string_properties@),
        handler_id: element.handler_id,
        children: Seq::new(
            element.children@.len(),
            |i: int|
                if 0 <= i < element.children.len() {
                    element_view(element.children[i])
                } else {
                    arbitrary()
                },
        ),
        value: text_option(element.value),
    }
}

impl View for GuiElement {
    type V = GuiElementView;

    open spec fn view(&self) -> GuiElementView {
        element_view(*self)
    }
}

/// A copy of an element, with copies of its children.
pub fn copy_element(element: &GuiElement) -> (copy: GuiElement)
    ensures
        copy@ == element@,
    decreases element,
{
    let mut properties: Vec<(u8, u8)> = Vec::new();
    let mut i: usize = 0;
    while i < element.properties.len()
        invariant
            i <= element.properties.len(),
            properties@ == element.properties@.take(i as int),
        decreases element.properties.len() - i,
    {
        properties.push(element.properties[i]);
        i = i + 1;
    }
    assert(element.properties@.take(element.properties.len() as int) =~= element.properties@);
    let mut children: Vec<GuiElement> = Vec::new();
    let mut k: usize = 0;
    while k < element.children.len()
        invariant
            k <= element.children.len(),
            children@.len() == k,
            forall|j: int| 0 <= j < k ==> children@[j]@ == element.children@[j]@,
        decreases element.children.len() - k,
    {
        children.push(copy_element(&element.children[k]));
        k = k + 1;
    }
    let copy = GuiElement {
        element_type: element.element_type,
        element_id: element.element_id,
        properties,
        string_properties: element.string_properties.clone(),
        handler_id: element.handler_id,
        children,
        value: match &element.value {
            Some(text) => Some(text.clone()),
            None => None,
        },
    };
    assert(copy@.children =~= element@.children);
    copy
}

impl Clone for GuiElement {
    fn clone(&self) -> (copy: Self)
        ensures
            copy@ == self@,
    {
        copy_element(self)
    }
}

/// The models of a list of elements, in order.
pub open spec fn element_views(elements: Seq<GuiElement>) -> Seq<GuiElementView> {
    elements.map_values(|e: GuiElement| e@)
}

/// The model of a registry of elements.
pub open spec fn element_map(elements: Map<u8, GuiElement>) -> Map<u8, GuiElementView> {
    Map::new(|k: u8| elements.contains_key(k), |k: u8| elements[k]@)
}

/// The numeric entries of a property list, in order.
pub open spec fn numeric_properties(properties: Seq<PropertyView>) -> Seq<(u8, u8)>
    decreases properties.len(),
{
    if properties.len() == 0 {
        Seq::empty()
    } else {
        let before = numeric_properties(properties.drop_last());
        match properties.last() {
            PropertyView::Number { property_id, value } => before.push((property_id, value)),
            PropertyView::Text { .. } => before,
        }
    }
}

/// The text entries of a property list, by property id. Of two entries with
/// one id the later stays.
pub open spec fn text_properties(properties: Seq<PropertyView>) -> Map<u8, Seq<char>>
    decreases properties.len(),
{
    if properties.len() == 0 {
        Map::empty()
    } else {
        let before = text_properties(properties.drop_last());
        match properties.last() {
            PropertyView::Number { .. } => before,
            PropertyView::Text { property_id, text } => before.insert(property_id, text),
        }
    }
}

/// The element that `CreateUI` declares.
pub open spec fn created_element(
    element_type: u8,
    element_id: u8,
    properties: Seq<PropertyView>,
) -> GuiElementView {
    GuiElementView {
        element_type,
        element_id,
        properties: numeric_properties(properties),
        string_properties: text_properties(properties),
        handler_id: None,
        children: Seq::empty(),
        value: None,
    }
}

/// The state of the builder.
pub struct BuilderView {
    /// The elements that were declared and not shown yet, by id.
    pub pending: Map<u8, GuiElementView>,
    /// The trees that were shown, one for each `ShowUI` that found a root.
    pub forest: Seq<GuiElementView>,
}

/// A root and the registry after the pending element `id`, if there is one,
/// has left the registry and become the last child of the root.
pub open spec fn adopt(state: (GuiElementView, Map<u8, GuiElementView>), id: u8) -> (
    GuiElementView,
    Map<u8, GuiElementView>,
) {
    let (root, pending) = state;
    if pending.contains_key(id) {
        (GuiElementView { children: root.children.push(pending[id]), ..root }, pending.remove(id))
    } else {
        state
    }
}

/// The state after `ShowUI`: the pending element 0 leaves the registry and
/// becomes a root, with the pending elements 1, 2 and 3 as its children, in
/// this order, each of which leaves the registry too. Without a pending
/// element 0 nothing changes.
pub open spec fn show(state: BuilderView) -> BuilderView {
    if state.pending.contains_key(ROOT_ID) {
        let start = (state.pending[ROOT_ID], state.pending.remove(ROOT_ID));
        let (root, pending) = adopt(adopt(adopt(start, 1), 2), 3);
        BuilderView { pending, forest: state.forest.push(root) }
    } else {
        state
    }
}

/// The state after one instruction.
pub open spec fn build_step(state: BuilderView, instruction: InstructionView) -> BuilderView {
    match instruction {
        InstructionView::CreateUI { element_type, element_id, properties, .. } => BuilderView {
            pending: state.pending.insert(
                element_id,
                created_element(element_type, element_id, properties),
            ),
            ..state
        },
        InstructionView::OnUIEvent { element_id, event_type, handler_id } => {
            if state.pending.contains_key(element_id) && (event_type == EVENT_CLICK || event_type
                == EVENT_CHANGE) {
                BuilderView {
                    pending: state.pending.insert(
                        element_id,
                        GuiElementView {
                            handler_id: Some(handler_id),
                            ..state.pending[element_id]
                        },
                    ),
                    ..state
                }
            } else {
                state
            }
        },
        InstructionView::ShowUI => show(state),
        _ => state,
    }
}

/// The state after a run of instructions, from an empty registry and an empty
/// forest.
pub open spec fn build(instructions: Seq<InstructionView>) -> BuilderView
    decreases instructions.len(),
{
    if instructions.len() == 0 {
        BuilderView { pending: Map::empty(), forest: Seq::empty() }
    } else {
        build_step(build(instructions.drop_last()), instructions.last())
    }
}

/// An event type other than click and change sets no handler: the instruction
/// changes nothing.
pub proof fn other_events_set_no_handler(
    state: BuilderView,
    element_id: u8,
    event_type: u8,
    handler_id: u8,
)
    requires
        event_type != EVENT_CLICK,
        event_type != EVENT_CHANGE,
    ensures
        build_step(state, InstructionView::OnUIEvent { element_id, event_type, handler_id })
            == state,
{
}

/// An event for an element that is not pending changes nothing.
pub proof fn event_without_target_is_ignored(
    state: BuilderView,
    element_id: u8,
    event_type: u8,
    handler_id: u8,
)
    requires
        !state.pending.contains_key(element_id),
    ensures
        build_step(state, InstructionView::OnUIEvent { element_id, event_type, handler_id })
            == state,
{
}

/// A pending element with an id above 3 is never shown: whatever the
/// instruction, it is still pending after it.
pub proof fn other_ids_stay_pending(state: BuilderView, instruction: InstructionView, id: u8)
    requires
        id > 3,
        state.pending.contains_key(id),
    ensures
        build_step(state, instruction).pending.contains_key(id),
{
}

/// Two elements with different ids may be declared in either order.
pub proof fn creation_order_does_not_matter(
    state: BuilderView,
    first: InstructionView,
    second: InstructionView,
)
    requires
        first is CreateUI,
        second is CreateUI,
        first->CreateUI_element_id != second->CreateUI_element_id,
    ensures
        build_step(build_step(state, first), second) == build_step(
            build_step(state, second),
            first,
        ),
{
    assert(build_step(build_step(state, first), second).pending =~= build_step(
        build_step(state, second),
        first,
    ).pending);
}

/// The pending element `id` as a list: empty if there is none.
pub open spec fn pending_one(pending: Map<u8, GuiElementView>, id: u8) -> Seq<GuiElementView> {
    if pending.contains_key(id) {
        seq![pending[id]]
    } else {
        Seq::empty()
    }
}

/// `ShowUI` with a pending element 0 adds one tree: that element, with the
/// pending elements 1, 2 and 3 after the children it had, in this order. These
/// four leave the registry, and every other pending element stays as it is.
pub proof fn show_attaches_one_two_three(state: BuilderView)
    requires
        state.pending.contains_key(ROOT_ID),
    ensures
        show(state).forest.len() == state.forest.len() + 1,
        show(state).forest.drop_last() == state.forest,
        show(state).forest.last() == (GuiElementView {
            children: state.pending[ROOT_ID].children + pending_one(state.pending, 1)
                + pending_one(state.pending, 2) + pending_one(state.pending, 3),
            ..state.pending[ROOT_ID]
        }),
        forall|id: u8| id <= 3 ==> !show(state).pending.contains_key(id),
        forall|id: u8|
            id > 3 ==> (show(state).pending.contains_key(id) <==> state.pending.contains_key(id)),
        forall|id: u8|
            id > 3 && state.pending.contains_key(id) ==> show(state).pending[id]
                == state.pending[id],
{
    let start = (state.pending[ROOT_ID], state.pending.remove(ROOT_ID));
    let one = adopt(start, 1);
    let two = adopt(one, 2);
    let three = adopt(two, 3);
    assert(three.0.children =~= state.pending[ROOT_ID].children + pending_one(state.pending, 1)
        + pending_one(state.pending, 2) + pending_one(state.pending, 3));
}

/// A pending element is filed under its own id and has no children.
pub open spec fn pending_in_order(pending: Map<u8, GuiElementView>) -> bool {
    forall|id: u8| #[trigger]
        pending.contains_key(id) ==> pending[id].element_id == id && pending[id].children.len()
            == 0
}

/// A shown tree has the root id, and its children are some of the elements 1,
/// 2 and 3, by rising id, without children of their own.
pub open spec fn shown_in_order(root: GuiElementView) -> bool {
    &&& root.element_id == ROOT_ID
    &&& forall|i: int|
        0 <= i < root.children.len() ==> 1 <= (#[trigger] root.children[i]).element_id <= 3
            && root.children[i].children.len() == 0
    &&& forall|i: int, j: int|
        0 <= i < j < root.children.len() ==> (#[trigger] root.children[i]).element_id < (
        #[trigger] root.children[j]).element_id
}

/// The shape of what a builder holds.
pub open spec fn in_order(state: BuilderView) -> bool {
    &&& pending_in_order(state.pending)
    &&& forall|i: int| 0 <= i < state.forest.len() ==> shown_in_order(#[trigger] state.forest[i])
}

/// One instruction keeps the shape of what the builder holds.
pub proof fn lemma_step_keeps_order(state: BuilderView, instruction: InstructionView)
    requires
        in_order(state),
    ensures
        in_order(build_step(state, instruction)),
{
    let after = build_step(state, instruction);
    match instruction {
        InstructionView::ShowUI => {
            if state.pending.contains_key(ROOT_ID) {
                let start = (state.pending[ROOT_ID], state.pending.remove(ROOT_ID));
                let one = adopt(start, 1);
                let two = adopt(one, 2);
                let three = adopt(two, 3);
                assert(pending_in_order(start.1));
                assert(pending_in_order(one.1));
                assert(pending_in_order(two.1));
                assert(pending_in_order(three.1));
                assert(shown_in_order(start.0));
                assert(shown_in_order(one.0));
                assert(shown_in_order(two.0) && forall|i: int|
                    0 <= i < two.0.children.len() ==> (#[trigger] two.0.children[i]).element_id
                        <= 2);
                assert(shown_in_order(three.0));
                assert forall|i: int| 0 <= i < after.forest.len() implies shown_in_order(
                    #[trigger] after.forest[i],
                ) by {
                    if i < state.forest.len() {
                        assert(after.forest[i] == state.forest[i]);
                    }
                }
            }
        },
        _ => {},
    }
}

/// Whatever the program, and in whatever order it declares its elements: the
/// children of a shown tree are some of the elements 1, 2 and 3, by rising
/// id. An element with another id is never a child.
pub proof fn only_one_two_three_are_attached(instructions: Seq<InstructionView>)
    ensures
        in_order(build(instructions)),
    decreases instructions.len(),
{
    if instructions.len() > 0 {
        only_one_two_three_are_attached(instructions.drop_last());
        lemma_step_keeps_order(build(instructions.drop_last()), instructions.last());
    }
}

/// The element that `CreateUI` declares.
fn create_element(element_type: u8, element_id: u8, properties: &Vec<Property>) -> (element:
    GuiElement)
    ensures
        element@ == created_element(element_type, element_id, property_views(properties@)),
{
    let mut numbers: Vec<(u8, u8)> = Vec::new();
    let mut texts: HashMap<u8, String> = HashMap::new();
    let ghost all = property_views(properties@);
    let mut i: usize = 0;
    while i < properties.len()
        invariant
            i <= properties.len(),
            all == property_views(properties@),
            numbers@ == numeric_properties(all.take(i as int)),
            text_map(texts@) == text_properties(all.take(i as int)),
        decreases properties.len() - i,
    {
        assert(all.take(i + 1).drop_last() =~= all.take(i as int));
        match &properties[i] {
            Property::Number { property_id, value } => {
                numbers.push((*property_id, *value));
            },
            Property::Text { property_id, text } => {
                texts.insert(*property_id, text.clone());
            },
        }
        i = i + 1;
    }
    assert(all.take(properties.len() as int) =~= all);
    let element = GuiElement {
        element_type,
        element_id,
        properties: numbers,
        string_properties: texts,
        handler_id: None,
        children: Vec::new(),
        value: None,
    };
    assert(element@.children =~= Seq::<GuiElementView>::empty());
    element
}

/// Moves the pending element `id`, if there is one, to the end of the
/// children of `root`.
fn adopt_child(root: &mut GuiElement, pending: &mut HashMap<u8, GuiElement>, id: u8)
    ensures
        (final(root)@, element_map(final(pending)@)) == adopt(
            (old(root)@, element_map(old(pending)@)),
            id,
        ),
{
    match pending.remove(&id) {
        Some(child) => {
            root.children.push(child);
            assert(root@.children =~= old(root)@.children.push(child@));
        },
        None => {},
    }
}

/// The UI tree builder.
pub struct UiBuilder {
    pending: HashMap<u8, GuiElement>,
    elements: Vec<GuiElement>,
}

impl View for UiBuilder {
    type V = BuilderView;

    closed spec fn view(&self) -> BuilderView {
        BuilderView {
            pending: element_map(self.pending@),
            forest: element_views(self.elements@),
        }
    }
}

impl UiBuilder {
    /// A builder with nothing pending and nothing shown.
    pub fn new() -> (builder: Self)
        ensures
            builder@ == build(Seq::empty()),
    {
        let builder = UiBuilder { pending: HashMap::new(), elements: Vec::new() };
        assert(builder@.pending =~= Map::<u8, GuiElementView>::empty());
        assert(builder@.forest =~= Seq::<GuiElementView>::empty());
        builder
    }

    /// Executes one instruction.
    pub fn step(&mut self, instruction: &Instruction)
        ensures
            final(self)@ == build_step(old(self)@, instruction@),
    {
        match instruction {
            Instruction::CreateUI { element_type, element_id, property_count: _, properties } => {
                let element = create_element(*element_type, *element_id, properties);
                self.pending.insert(*element_id, element);
                assert(element_map(self.pending@) =~= element_map(old(self).pending@).insert(
                    *element_id,
                    element@,
                ));
            },
            Instruction::OnUIEvent { element_id, event_type, handler_id } => {
                if *event_type == EVENT_CLICK || *event_type == EVENT_CHANGE {
                    match self.pending.remove(element_id) {
                        Some(mut element) => {
                            element.handler_id = Some(*handler_id);
                            self.pending.insert(*element_id, element);
                            assert(element_map(self.pending@) =~= element_map(
                                old(self).pending@,
                            ).insert(
                                *element_id,
                                GuiElementView {
                                    handler_id: Some(*handler_id),
                                    ..element_map(old(self).pending@)[*element_id]
                                },
                            ));
                        },
                        None => {
                            assert(element_map(self.pending@) =~= element_map(old(self).pending@));
                        },
                    }
                }
            },
            Instruction::ShowUI => {
                match self.pending.remove(&ROOT_ID) {
                    Some(mut root) => {
                        assert(element_map(self.pending@) =~= element_map(
                            old(self).pending@,
                        ).remove(ROOT_ID));
                        adopt_child(&mut root, &mut self.pending, 1);
                        adopt_child(&mut root, &mut self.pending, 2);
                        adopt_child(&mut root, &mut self.pending, 3);
                        self.elements.push(root);
                        assert(element_views(self.elements@) =~= element_views(
                            old(self).elements@,
                        ).push(root@));
                    },
                    None => {
                        assert(element_map(self.pending@) =~= element_map(old(self).pending@));
                    },
                }
            },
            _ => {},
        }
    }

    /// The trees that were shown, in the order in which they were shown.
    pub fn finish(self) -> (elements: Vec<GuiElement>)
        ensures
            element_views(elements@) == self@.forest,
    {
        self.elements
    }
}

/// Builds the forest that a program declares and shows.
pub fn build_forest(program: &Program) -> (elements: Vec<GuiElement>)
    ensures
        element_views(elements@) == build(program@.instructions).forest,
{
    let mut builder = UiBuilder::new();
    let ghost all = program@.instructions;
    let mut i: usize = 0;
    while i < program.instructions.len()
        invariant
            i <= program.instructions.len(),
            all == program@.instructions,
            builder@ == build(all.take(i as int)),
        decreases program.instructions.len() - i,
    {
        assert(all.take(i + 1).drop_last() =~= all.take(i as int));
        builder.step(&program.instructions[i]);
        i = i + 1;
    }
    assert(all.take(program.instructions.len() as int) =~= all);
    builder.finish()
}

} // verus!
