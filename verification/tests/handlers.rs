use nodeco::{
    Dispatch, GuiElement, HandlerCall, HandlerRegistry, InteractionEvent, InteractionKind,
    NodeCoGuiApp,
};
use std::collections::HashMap;

fn element(element_type: u8, element_id: u8, handler_id: Option<u8>) -> GuiElement {
    GuiElement {
        element_type,
        element_id,
        properties: vec![],
        string_properties: HashMap::new(),
        handler_id,
        children: vec![],
        value: None,
    }
}

fn app(elements: Vec<GuiElement>) -> NodeCoGuiApp {
    NodeCoGuiApp { elements, input_states: HashMap::new(), label_states: HashMap::new() }
}

fn click(element_id: u8) -> InteractionEvent {
    InteractionEvent { element_id, kind: InteractionKind::Click, new_value: None }
}

fn change(element_id: u8, value: &str) -> InteractionEvent {
    InteractionEvent {
        element_id,
        kind: InteractionKind::Change,
        new_value: Some(String::from(value)),
    }
}

#[test]
fn unregistered_handler_is_only_reported() {
    let registry: HandlerRegistry<&str> = HandlerRegistry::new();
    assert_eq!(
        registry.dispatch(HandlerCall { element_id: 4, handler_id: 9 }),
        Dispatch::LogOnly { element_id: 4, handler_id: 9 }
    );
}

#[test]
fn registered_action_is_found() {
    let mut registry: HandlerRegistry<&str> = HandlerRegistry::new();
    registry.register(9, "first");
    registry.register(7, "other");
    registry.register(9, "second");
    assert_eq!(
        registry.dispatch(HandlerCall { element_id: 4, handler_id: 9 }),
        Dispatch::Action(&"second")
    );
    assert_eq!(
        registry.dispatch(HandlerCall { element_id: 4, handler_id: 7 }),
        Dispatch::Action(&"other")
    );
    assert_eq!(
        registry.dispatch(HandlerCall { element_id: 4, handler_id: 8 }),
        Dispatch::LogOnly { element_id: 4, handler_id: 8 }
    );
}

#[test]
fn click_on_a_button_in_a_layout() {
    let mut root = element(4, 0, None);
    root.children = vec![element(2, 1, None), element(3, 2, Some(5)), element(1, 3, Some(6))];
    let mut app = app(vec![root]);
    assert_eq!(app.handle_event(&click(3)), Some(HandlerCall { element_id: 3, handler_id: 6 }));
    assert_eq!(app.handle_event(&click(2)), None);
    assert_eq!(app.handle_event(&click(9)), None);
    assert!(app.input_states.is_empty());
    assert!(app.label_states.is_empty());
}

#[test]
fn change_of_an_input_in_a_layout() {
    let mut root = element(4, 0, None);
    root.children = vec![element(2, 1, None), element(3, 2, Some(5)), element(1, 3, Some(6))];
    let mut app = app(vec![root]);
    assert_eq!(
        app.handle_event(&change(2, "typed")),
        Some(HandlerCall { element_id: 2, handler_id: 5 })
    );
    assert_eq!(app.input_states.get(&2), Some(&String::from("typed")));
    assert_eq!(app.label_states.get(&1), Some(&String::from("typed")));
    assert_eq!(app.handle_event(&change(3, "x")), None);
    assert_eq!(app.input_states.len(), 1);
}

#[test]
fn change_without_a_value_does_nothing() {
    let mut app = app(vec![element(3, 0, Some(5))]);
    let event = InteractionEvent { element_id: 0, kind: InteractionKind::Change, new_value: None };
    assert_eq!(app.handle_event(&event), None);
    assert!(app.input_states.is_empty());
}

#[test]
fn children_of_what_is_no_layout_are_not_reached() {
    let mut root = element(1, 0, Some(1));
    root.children = vec![element(1, 3, Some(6))];
    let mut app = app(vec![root]);
    assert_eq!(app.handle_event(&click(3)), None);
    assert_eq!(app.handle_event(&click(0)), Some(HandlerCall { element_id: 0, handler_id: 1 }));
}

#[test]
fn the_first_element_that_is_drawn_takes_the_report() {
    let mut first = element(4, 0, None);
    first.children = vec![element(1, 3, Some(10))];
    let second = element(1, 3, Some(20));
    let mut app = app(vec![first, second]);
    assert_eq!(app.handle_event(&click(3)), Some(HandlerCall { element_id: 3, handler_id: 10 }));
    let mut app = self::app(vec![element(1, 3, None), element(1, 3, Some(20))]);
    assert_eq!(app.handle_event(&click(3)), None);
}
