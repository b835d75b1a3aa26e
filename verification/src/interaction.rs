//! What the rendering frontend shows for an element, and what its reports of
//! clicks and changes do to the interaction state.

use crate::decoder::TEXT_PROPERTY;
use crate::gui::{
    build, build_forest, element_views, text_map, GuiElement, GuiElementView, BUTTON, INPUT, LABEL,
    LAYOUT,
};
use crate::program::Program;
use crate::text::{decimal_digits, decimal_text};
use std::collections::HashMap;
use vstd::prelude::*;

verus! {

broadcast use vstd::std_specs::hash::group_hash_axioms;

/// The label whose state takes the value of an input that changed.
pub const ECHO_LABEL_ID: u8 = 1;

/// The forest of a program, with the interaction state of its elements.
pub struct NodeCoGuiApp {
    pub elements: Vec<GuiElement>,
    /// The current text of the inputs that were shown, by element id.
    pub input_states: HashMap<u8, String>,
    /// The texts that labels without a text property show, by element id.
    pub label_states: HashMap<u8, String>,
}

/// Builds the forest that a program declares and shows, with an empty
/// interaction state.
pub fn execute_program_gui(program: &Program) -> (app: NodeCoGuiApp)
    ensures
        element_views(app.elements@) == build(program@.instructions).forest,
        app.input_states@ == Map::<u8, String>::empty(),
        app.label_states@ == Map::<u8, String>::empty(),
{
    NodeCoGuiApp {
        elements: build_forest(program),
        input_states: HashMap::new(),
        label_states: HashMap::new(),
    }
}

/// What the frontend draws for one element.
#[derive(Debug, PartialEq, Eq)]
pub enum Widget {
    Button { text: String },
    Label { text: String },
    /// A line of text that can be edited.
    Input { text: String },
    /// The children of the element, one below the other.
    Vertical,
    /// Nothing: the element has no known type.
    Nothing,
}

/// The model of a [`Widget`].
pub enum WidgetView {
    Button { text: Seq<char> },
    Label { text: Seq<char> },
    Input { text: Seq<char> },
    Vertical,
    Nothing,
}

impl View for Widget {
    type V = WidgetView;

    open spec fn view(&self) -> WidgetView {
        match *self {
            Widget::Button { text } => WidgetView::Button { text: text@ },
            Widget::Label { text } => WidgetView::Label { text: text@ },
            Widget::Input { text } => WidgetView::Input { text: text@ },
            Widget::Vertical => WidgetView::Vertical,
            Widget::Nothing => WidgetView::Nothing,
        }
    }
}

/// The value of the first numeric property with the given id.
pub open spec fn first_numeric(properties: Seq<(u8, u8)>, property_id: u8) -> Option<u8>
    decreases properties.len(),
{
    if properties.len() == 0 {
        None
    } else if properties[0].0 == property_id {
        Some(properties[0].1)
    } else {
        first_numeric(properties.drop_first(), property_id)
    }
}

/// The text that an element declares: its text property 1 or else, in
/// decimal, its first numeric property 1.
pub open spec fn declared_text(element: GuiElementView) -> Option<Seq<char>> {
    if element.string_properties.contains_key(TEXT_PROPERTY) {
        Some(element.string_properties[TEXT_PROPERTY])
    } else {
        match first_numeric(element.properties, TEXT_PROPERTY) {
            Some(value) => Some(decimal_digits(value)),
            None => None,
        }
    }
}

/// The text of a label: its text property 1 or else its label state or else,
/// in decimal, its first numeric property 1 or else `Label`.
pub open spec fn label_text(element: GuiElementView, label_states: Map<u8, Seq<char>>) -> Seq<
    char,
> {
    if element.string_properties.contains_key(TEXT_PROPERTY) {
        element.string_properties[TEXT_PROPERTY]
    } else if label_states.contains_key(element.element_id) {
        label_states[element.element_id]
    } else {
        match first_numeric(element.properties, TEXT_PROPERTY) {
            Some(value) => decimal_digits(value),
            None => "Label"@,
        }
    }
}

/// The text with which the state of an input starts.
pub open spec fn initial_input(element: GuiElementView) -> Seq<char> {
    match declared_text(element) {
        Some(text) => text,
        None => Seq::empty(),
    }
}

/// The input states after an element was shown: an input without a state gets
/// its initial text.
pub open spec fn touched(element: GuiElementView, input_states: Map<u8, Seq<char>>) -> Map<
    u8,
    Seq<char>,
> {
    if element.element_type == INPUT && !input_states.contains_key(element.element_id) {
        input_states.insert(element.element_id, initial_input(element))
    } else {
        input_states
    }
}

/// What the frontend draws for an element.
pub open spec fn widget_of(
    element: GuiElementView,
    input_states: Map<u8, Seq<char>>,
    label_states: Map<u8, Seq<char>>,
) -> WidgetView {
    if element.element_type == BUTTON {
        WidgetView::Button {
            text: match declared_text(element) {
                Some(text) => text,
                None => "Button"@,
            },
        }
    } else if element.element_type == LABEL {
        WidgetView::Label { text: label_text(element, label_states) }
    } else if element.element_type == INPUT {
        WidgetView::Input { text: touched(element, input_states)[element.element_id] }
    } else if element.element_type == LAYOUT {
        WidgetView::Vertical
    } else {
        WidgetView::Nothing
    }
}

/// Looks up the first numeric property with the given id.
fn find_numeric(properties: &Vec<(u8, u8)>, property_id: u8) -> (value: Option<u8>)
    ensures
        value == first_numeric(properties@, property_id),
{
    let mut i: usize = 0;
    assert(properties@.skip(0) =~= properties@);
    while i < properties.len()
        invariant
            i <= properties.len(),
            first_numeric(properties@, property_id) == first_numeric(
                properties@.skip(i as int),
                property_id,
            ),
        decreases properties.len() - i,
    {
        if properties[i].0 == property_id {
            return Some(properties[i].1);
        }
        assert(properties@.skip(i as int).drop_first() =~= properties@.skip(i + 1));
        i = i + 1;
    }
    None
}

/// The text that an element declares, if it declares one.
fn text_declared(element: &GuiElement) -> (text: Option<String>)
    ensures
        match text {
            Some(t) => declared_text(element@) == Some(t@),
            None => declared_text(element@) is None,
        },
{
    match element.string_properties.get(&TEXT_PROPERTY) {
        Some(text) => Some(text.clone()),
        None => match find_numeric(&element.properties, TEXT_PROPERTY) {
            Some(value) => Some(decimal_text(value)),
            None => None,
        },
    }
}

/// Decides what the frontend draws for one element. An input that is shown
/// for the first time gets its state.
pub fn render_element(
    element: &GuiElement,
    input_states: &mut HashMap<u8, String>,
    label_states: &HashMap<u8, String>,
) -> (widget: Widget)
    ensures
        widget@ == widget_of(element@, text_map(old(input_states)@), text_map(label_states@)),
        text_map(final(input_states)@) == touched(element@, text_map(old(input_states)@)),
{
    if element.element_type == BUTTON {
        let text = match text_declared(element) {
            Some(text) => text,
            None => "Button".to_owned(),
        };
        Widget::Button { text }
    } else if element.element_type == LABEL {
        let text = match element.string_properties.get(&TEXT_PROPERTY) {
            Some(text) => text.clone(),
            None => match label_states.get(&element.element_id) {
                Some(text) => text.clone(),
                None => match find_numeric(&element.properties, TEXT_PROPERTY) {
                    Some(value) => decimal_text(value),
                    None => "Label".to_owned(),
                },
            },
        };
        Widget::Label { text }
    } else if element.element_type == INPUT {
        let current = match input_states.get(&element.element_id) {
            Some(text) => Some(text.clone()),
            None => None,
        };
        let text = match current {
            Some(text) => text,
            None => {
                let text = match text_declared(element) {
                    Some(text) => text,
                    None => String::new(),
                };
                input_states.insert(element.element_id, text.clone());
                text
            },
        };
        Widget::Input { text }
    } else if element.element_type == LAYOUT {
        Widget::Vertical
    } else {
        Widget::Nothing
    }
}

/// A call of a handler that an interaction asks for.
#[derive(Debug, Clone, Copy, PartialEq, Eq)]
pub struct HandlerCall {
    pub element_id: u8,
    pub handler_id: u8,
}

/// The call that a click on an element asks for: one for a button with a
/// handler.
pub open spec fn click_call(element: GuiElementView) -> Option<HandlerCall> {
    if element.element_type == BUTTON && element.handler_id is Some {
        Some(HandlerCall { element_id: element.element_id, handler_id: element.handler_id->0 })
    } else {
        None
    }
}

/// The call that a change of an element's value asks for: one for an input
/// with a handler.
pub open spec fn change_call(element: GuiElementView) -> Option<HandlerCall> {
    if element.element_type == INPUT && element.handler_id is Some {
        Some(HandlerCall { element_id: element.element_id, handler_id: element.handler_id->0 })
    } else {
        None
    }
}

/// The input states after the value of an element changed.
pub open spec fn changed_inputs(
    element: GuiElementView,
    value: Seq<char>,
    input_states: Map<u8, Seq<char>>,
) -> Map<u8, Seq<char>> {
    if element.element_type == INPUT {
        input_states.insert(element.element_id, value)
    } else {
        input_states
    }
}

/// The label states after the value of an element changed: the new value of
/// an input with a handler is echoed to the label 1.
pub open spec fn changed_labels(
    element: GuiElementView,
    value: Seq<char>,
    label_states: Map<u8, Seq<char>>,
) -> Map<u8, Seq<char>> {
    if change_call(element) is Some {
        label_states.insert(ECHO_LABEL_ID, value)
    } else {
        label_states
    }
}

/// Takes the report of a click on an element.
pub fn button_clicked(element: &GuiElement) -> (call: Option<HandlerCall>)
    ensures
        call == click_call(element@),
{
    if element.element_type == BUTTON {
        match element.handler_id {
            Some(handler_id) => Some(HandlerCall { element_id: element.element_id, handler_id }),
            None => None,
        }
    } else {
        None
    }
}

/// Takes the report that the value of an element changed.
pub fn input_changed(
    element: &GuiElement,
    value: &str,
    input_states: &mut HashMap<u8, String>,
    label_states: &mut HashMap<u8, String>,
) -> (call: Option<HandlerCall>)
    ensures
        call == change_call(element@),
        text_map(final(input_states)@) == changed_inputs(
            element@,
            value@,
            text_map(old(input_states)@),
        ),
        text_map(final(label_states)@) == changed_labels(
            element@,
            value@,
            text_map(old(label_states)@),
        ),
{
    if element.element_type != INPUT {
        return None;
    }
    input_states.insert(element.element_id, value.to_owned());
    match element.handler_id {
        Some(handler_id) => {
            label_states.insert(ECHO_LABEL_ID, value.to_owned());
            Some(HandlerCall { element_id: element.element_id, handler_id })
        },
        None => None,
    }
}

/// What a report of the frontend is about.
#[derive(Debug, Clone, Copy, PartialEq, Eq)]
pub enum InteractionKind {
    Click,
    Change,
}

/// A report of the frontend: the element, what happened to it and, for a
/// change, the new value.
#[derive(Debug, PartialEq, Eq)]
pub struct InteractionEvent {
    pub element_id: u8,
    pub kind: InteractionKind,
    pub new_value: Option<String>,
}

/// The model of an [`InteractionEvent`].
pub struct InteractionEventView {
    pub element_id: u8,
    pub kind: InteractionKind,
    pub new_value: Option<Seq<char>>,
}

impl View for InteractionEvent {
    type V = InteractionEventView;

    open spec fn view(&self) -> InteractionEventView {
        InteractionEventView {
            element_id: self.element_id,
            kind: self.kind,
            new_value: match self.new_value {
                Some(value) => Some(value@),
                None => None,
            },
        }
    }
}

/// The model of a [`NodeCoGuiApp`].
pub struct AppView {
    pub elements: Seq<GuiElementView>,
    pub input_states: Map<u8, Seq<char>>,
    pub label_states: Map<u8, Seq<char>>,
}

impl View for NodeCoGuiApp {
    type V = AppView;

    open spec fn view(&self) -> AppView {
        AppView {
            elements: element_views(self.elements@),
            input_states: text_map(self.input_states@),
            label_states: text_map(self.label_states@),
        }
    }
}

/// The first element with the given id and type among those that are drawn,
/// in the order in which they are drawn: each element before the elements
/// after it, and a layout before its children. The children of an element
/// that is no layout are not drawn.
pub open spec fn find_shown(elements: Seq<GuiElementView>, element_id: u8, element_type: u8)
    -> Option<GuiElementView>
    decreases elements,
{
    if elements.len() == 0 {
        None
    } else {
        let first = elements[0];
        if first.element_id == element_id && first.element_type == element_type {
            Some(first)
        } else {
            let inner = if first.element_type == LAYOUT {
                find_shown(first.children, element_id, element_type)
            } else {
                None
            };
            if inner is Some {
                inner
            } else {
                find_shown(elements.drop_first(), element_id, element_type)
            }
        }
    }
}

/// The element that a report is about: for a click the first button with the
/// id that is drawn, for a change with a new value the first such input.
pub open spec fn event_target(elements: Seq<GuiElementView>, event: InteractionEventView)
    -> Option<GuiElementView> {
    match event.kind {
        InteractionKind::Click => find_shown(elements, event.element_id, BUTTON),
        InteractionKind::Change => if event.new_value is Some {
            find_shown(elements, event.element_id, INPUT)
        } else {
            None
        },
    }
}

/// The call of a handler that a report asks for.
pub open spec fn event_call(app: AppView, event: InteractionEventView) -> Option<HandlerCall> {
    match event_target(app.elements, event) {
        Some(target) => match event.kind {
            InteractionKind::Click => click_call(target),
            InteractionKind::Change => change_call(target),
        },
        None => None,
    }
}

/// The forest and the interaction state after a report.
pub open spec fn after_event(app: AppView, event: InteractionEventView) -> AppView {
    match event_target(app.elements, event) {
        Some(target) => match event.kind {
            InteractionKind::Click => app,
            InteractionKind::Change => AppView {
                elements: app.elements,
                input_states: changed_inputs(target, event.new_value->0, app.input_states),
                label_states: changed_labels(target, event.new_value->0, app.label_states),
            },
        },
        None => app,
    }
}

/// Looks up the first element with the given id and type that is drawn.
fn find_element<'a>(elements: &'a Vec<GuiElement>, element_id: u8, element_type: u8) -> (found:
    Option<&'a GuiElement>)
    ensures
        match found {
            Some(element) => find_shown(element_views(elements@), element_id, element_type)
                == Some(element@),
            None => find_shown(element_views(elements@), element_id, element_type) is None,
        },
    decreases elements,
{
    let ghost all = element_views(elements@);
    let mut i: usize = 0;
    assert(all.skip(0) =~= all);
    while i < elements.len()
        invariant
            i <= elements.len(),
            all == element_views(elements@),
            find_shown(all, element_id, element_type) == find_shown(
                all.skip(i as int),
                element_id,
                element_type,
            ),
        decreases elements.len() - i,
    {
        let element = &elements[i];
        assert(all.skip(i as int).drop_first() =~= all.skip(i + 1));
        if element.element_id == element_id && element.element_type == element_type {
            return Some(element);
        }
        if element.element_type == LAYOUT {
            assert(element@.children =~= element_views(element.children@));
            match find_element(&element.children, element_id, element_type) {
                Some(inner) => {
                    return Some(inner);
                },
                None => {},
            }
        }
        i = i + 1;
    }
    None
}

impl NodeCoGuiApp {
    /// Takes one report of the frontend: updates the interaction state and
    /// returns the call of a handler that the report asks for. A report about
    /// an element that is not drawn, and a change without a new value, do
    /// nothing.
    pub fn handle_event(&mut self, event: &InteractionEvent) -> (call: Option<HandlerCall>)
        ensures
            call == event_call(old(self)@, event@),
            final(self)@ == after_event(old(self)@, event@),
    {
        match event.kind {
            InteractionKind::Click => {
                match find_element(&self.elements, event.element_id, BUTTON) {
                    Some(target) => button_clicked(target),
                    None => None,
                }
            },
            InteractionKind::Change => {
                match &event.new_value {
                    Some(value) => {
                        match find_element(&self.elements, event.element_id, INPUT) {
                            Some(target) => input_changed(
                                target,
                                value.as_str(),
                                &mut self.input_states,
                                &mut self.label_states,
                            ),
                            None => None,
                        }
                    },
                    None => None,
                }
            },
        }
    }
}

} // verus!
