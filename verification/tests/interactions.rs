use okto::interactions::{
    component_type_equals_kind, response_route, retain_unhandled, wait_handler_runs, ComponentDataKind,
    ComponentKind, IncomingInteraction, InteractionHandler, InteractionKind, ResponseRoute, WaitType,
};

type Waiter<H> = InteractionHandler<H, bool>;

fn click(user: u64, channel: u64, id: &str) -> IncomingInteraction {
    IncomingInteraction::Component {
        user,
        channel,
        custom_id: id.to_owned(),
        data_kind: ComponentDataKind::StringSelect,
    }
}

#[test]
fn a_handler_needs_an_interaction_type() {
    let h = Waiter::builder(()).build().unwrap();
    assert!(!h.accepts(&click(1, 2, "x")));
}

#[test]
fn a_select_handler_checks_user_and_custom_id_prefix() {
    let h = Waiter::builder(())
        .set_component_type(ComponentKind::StringSelect)
        .set_user(1)
        .set_custom_id("1-add-filter".to_owned())
        .build()
        .unwrap();
    assert_eq!(h.interaction_type, Some(InteractionKind::Component));
    assert!(h.accepts(&click(1, 2, "1-add-filter-0")));
    assert!(!h.accepts(&click(3, 2, "1-add-filter-0")));
    assert!(!h.accepts(&click(1, 2, "1-remove-filter-0")));
    assert!(!h.accepts(&IncomingInteraction::Modal { user: 1, channel: 2 }));
    assert!(!h.accepts(&IncomingInteraction::Other(InteractionKind::Command)));
    let button = IncomingInteraction::Component {
        user: 1,
        channel: 2,
        custom_id: "1-add-filter".to_owned(),
        data_kind: ComponentDataKind::Button,
    };
    assert!(!h.accepts(&button));
}

#[test]
fn a_modal_handler_checks_user_and_channel() {
    let h = Waiter::builder(())
        .set_interaction_type(InteractionKind::Modal)
        .set_channel(5)
        .build()
        .unwrap();
    assert!(h.accepts(&IncomingInteraction::Modal { user: 9, channel: 5 }));
    assert!(!h.accepts(&IncomingInteraction::Modal { user: 9, channel: 6 }));
}

#[test]
fn a_component_type_needs_the_component_interaction() {
    let r = Waiter::builder(())
        .set_interaction_type(InteractionKind::Modal)
        .set_component_type(ComponentKind::Button)
        .build();
    assert_eq!(
        r.unwrap_err(),
        "If the component type has been set, the interaction type must be MessageComponent"
    );
}

#[test]
fn handled_handlers_and_their_twins_stop_waiting() {
    let a = Waiter::builder(1).set_user(1).set_interaction_type(InteractionKind::Modal).build().unwrap();
    let b = Waiter::builder(2).set_user(2).set_interaction_type(InteractionKind::Modal).build().unwrap();
    let a2 = Waiter::builder(3).set_user(1).set_interaction_type(InteractionKind::Modal).build().unwrap();
    let handled = vec![a.clone()];
    let left = retain_unhandled(vec![a, b, a2], &handled);
    assert_eq!(left.len(), 1);
    assert_eq!(left[0].handler, 2);
}

#[test]
fn component_kinds_match_their_types() {
    assert!(component_type_equals_kind(ComponentKind::Button, ComponentDataKind::Button));
    assert!(!component_type_equals_kind(ComponentKind::Button, ComponentDataKind::RoleSelect));
    assert!(!component_type_equals_kind(ComponentKind::Unknown(9), ComponentDataKind::Unknown(9)));
}

#[test]
fn responses_take_their_route() {
    assert_eq!(response_route(true, InteractionKind::Component), Some(ResponseRoute::EditComponent));
    assert_eq!(response_route(true, InteractionKind::Modal), None);
    assert_eq!(response_route(false, InteractionKind::Modal), Some(ResponseRoute::CreateModal));
    assert_eq!(response_route(false, InteractionKind::Ping), None);
}

#[test]
fn waiting_handlers_run_on_their_kind_when_the_filter_agrees() {
    assert!(wait_handler_runs(WaitType::Message, WaitType::Message, None));
    assert!(!wait_handler_runs(WaitType::Message, WaitType::Reaction, None));
    assert!(!wait_handler_runs(WaitType::Reaction, WaitType::Reaction, Some(false)));
}

#[test]
fn a_filter_is_asked_last_and_can_refuse() {
    let plain = Waiter::builder(()).set_interaction_type(InteractionKind::Modal).build().unwrap();
    let modal = IncomingInteraction::Modal { user: 1, channel: 2 };
    assert!(plain.takes(&modal, false));
    let filtered = Waiter::builder(()).set_interaction_type(InteractionKind::Modal).set_filter(true).build().unwrap();
    assert!(filtered.filter.is_some());
    assert!(filtered.accepts(&modal));
    assert!(filtered.takes(&modal, true));
    assert!(!filtered.takes(&modal, false));
    assert!(!filtered.takes(&IncomingInteraction::Other(InteractionKind::Command), true));
}
