use okto::interactions::{ComponentKind, InteractionKind};
use okto::menus::{
    modal_values, options_map, Field, InputTextStyle, MenuOption, Modal, SelectMenu, SubmittedComponent,
};

fn opt(key: &str, value: &str) -> MenuOption {
    MenuOption { key: key.to_owned(), value: value.to_owned() }
}

#[test]
fn a_menu_needs_options_and_a_custom_id() {
    let r = SelectMenu::builder(()).build();
    assert_eq!(r.unwrap_err(), "Unsupported amount of options in a select menu");

    let r = SelectMenu::builder(()).set_options(vec![opt("a", "A")]).build();
    assert_eq!(r.unwrap_err(), "a custom_id is required");

    let many: Vec<MenuOption> = (0..126).map(|i| opt(&i.to_string(), "x")).collect();
    let r = SelectMenu::builder(()).set_options(many).set_custom_id("m").build();
    assert_eq!(r.unwrap_err(), "Unsupported amount of options in a select menu");
}

#[test]
fn options_are_sorted_by_text_in_rows_of_25() {
    let options: Vec<MenuOption> = (0..60).map(|i| opt(&format!("k{i}"), &format!("v{:03}", 59 - i))).collect();
    let menu = SelectMenu::builder(())
        .set_options(options)
        .set_custom_id("menu")
        .set_description("Pick one")
        .build()
        .unwrap();
    let layout = menu.layout();
    assert_eq!(layout.content, "Pick one");
    assert_eq!(layout.rows.len(), 3);
    assert_eq!(layout.rows[0].custom_id, "menu-0");
    assert_eq!(layout.rows[2].custom_id, "menu-2");
    assert_eq!(layout.rows[0].options.len(), 25);
    assert_eq!(layout.rows[2].options.len(), 10);
    assert_eq!(layout.rows[0].options[0].value, "v000");
    assert_eq!(layout.rows[0].options[0].key, "k59");
    assert_eq!(layout.rows[2].options[9].value, "v059");
}

#[test]
fn a_menu_without_description_asks_to_select() {
    let menu = SelectMenu::builder(()).set_options(vec![opt("b", "B"), opt("a", "A")]).set_custom_id("c").build().unwrap();
    let layout = menu.layout();
    assert_eq!(layout.content, "Select an option");
    assert_eq!(layout.rows.len(), 1);
    assert_eq!(layout.rows[0].options[0].key, "a");
    assert_eq!(menu.chosen("b").as_deref(), Some("B"));
    assert_eq!(menu.chosen("z"), None);
}

#[test]
fn options_keep_one_entry_per_key() {
    let m = options_map(vec![opt("a", "1"), opt("b", "2"), opt("a", "3")]);
    assert_eq!(m.len(), 2);
    let a = m.iter().find(|o| o.key == "a").unwrap();
    assert_eq!(a.value, "3");
}

#[test]
fn menu_and_modal_handlers_wait_for_their_answers() {
    let menu = SelectMenu::builder(()).set_options(vec![opt("a", "A")]).set_custom_id("id").set_user(7).build().unwrap();
    let h = menu.interaction_handler::<u8, ()>(0u8);
    assert_eq!(h.component_type, Some(ComponentKind::StringSelect));
    assert_eq!(h.user, Some(7));
    assert_eq!(h.custom_id.as_deref(), Some("id"));
    assert!(h.filter.is_none());

    let modal = Modal::builder(()).set_custom_id("form").build().unwrap();
    let h = modal.interaction_handler::<u8, ()>(0u8);
    assert_eq!(h.interaction_type, Some(InteractionKind::Modal));
}

#[test]
fn a_modal_needs_a_custom_id_and_shows_its_fields() {
    assert_eq!(Modal::builder(()).build().unwrap_err(), "a custom_id is required");
    let field = Field::new(InputTextStyle::Short, "added_payload_filter", "New payload filter")
        .set_max_length(20)
        .set_min_length(3)
        .set_placeholder("Put in a word or regex to filter out payloads")
        .set_required();
    let modal = Modal::builder(()).set_custom_id("1-add-payload-filter").add_field(field).build().unwrap();
    let resp = modal.response::<()>();
    assert_eq!(resp.content.as_deref(), Some("Modal"));
    assert_eq!(resp.components.len(), 1);
    assert_eq!(resp.components[0].max_length, Some(20));
    assert_eq!(resp.components[0].required, Some(true));
    let titled = Modal::builder(()).set_custom_id("x").set_title("Payload filter modal").build().unwrap();
    assert_eq!(titled.response::<()>().content.as_deref(), Some("Payload filter modal"));
}

#[test]
fn submitted_values_skip_empty_inputs() {
    let rows = vec![
        vec![SubmittedComponent::InputText { custom_id: "a".into(), value: Some("1".into()) }],
        vec![SubmittedComponent::Other, SubmittedComponent::InputText { custom_id: "b".into(), value: None }],
        vec![SubmittedComponent::InputText { custom_id: "c".into(), value: Some("3".into()) }],
    ];
    let values = modal_values(&rows);
    assert_eq!(values, vec![("a".to_owned(), "1".to_owned()), ("c".to_owned(), "3".to_owned())]);
}
