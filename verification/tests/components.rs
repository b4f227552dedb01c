use okto::components::{
    ButtonStyle, CreateResponse, Emoji, InteractionBuilderKind, InteractionResponseBuilder, StandardButton,
};

#[test]
fn standard_buttons_have_their_labels_and_styles() {
    let last = StandardButton::Last.to_button();
    assert_eq!(last.label, "Last page");
    assert_eq!(last.style, ButtonStyle::Secondary);
    assert_eq!(last.emoji.unwrap().text(), "\u{23ed}");

    let exit = StandardButton::Exit.to_button();
    assert_eq!(exit.label, "Exit");
    assert_eq!(exit.style, ButtonStyle::Danger);

    let submit = StandardButton::Submit.to_button();
    assert_eq!(submit.label, "Submit");
    assert_eq!(submit.style, ButtonStyle::Success);

    assert_eq!(StandardButton::First.to_button().label, "First page");
    assert_eq!(StandardButton::Forward.to_button().label, "Forward one page");
    assert_eq!(StandardButton::Back.to_button().label, "Back one page");
}

#[test]
fn custom_emojis_are_written_with_their_id() {
    let next = StandardButton::Prograde.to_button();
    assert_eq!(next.label, "Next");
    assert_eq!(next.emoji.unwrap().text(), "<:Prograde:433308892584476674>");
    let back = StandardButton::Retrograde.to_button();
    assert_eq!(back.label, "Back");
    assert_eq!(back.emoji.unwrap().text(), "<:Retrograde:433308874343448576>");

    let animated = Emoji::Custom { animated: true, id: 42, name: None };
    assert_eq!(animated.text(), "<a::42>");
    assert_eq!(Emoji::from_char('x').text(), "x");
}

#[test]
fn a_modal_needs_a_custom_id_and_a_title() {
    let b: InteractionResponseBuilder<u8, u8> = InteractionResponseBuilder::new().kind(InteractionBuilderKind::Modal);
    assert_eq!(b.into_create_response().unwrap_err(), "A custom id is required for a modal");

    let b: InteractionResponseBuilder<u8, u8> = InteractionResponseBuilder::new()
        .kind(InteractionBuilderKind::Modal)
        .custom_id("form".to_owned());
    assert_eq!(b.into_create_response().unwrap_err(), "content is required in a modal");

    let b: InteractionResponseBuilder<u8, u8> = InteractionResponseBuilder::new()
        .kind(InteractionBuilderKind::Modal)
        .custom_id("form".to_owned())
        .content("Title".to_owned())
        .components(vec![1, 2]);
    match b.into_create_response().unwrap() {
        CreateResponse::Modal { custom_id, title, components } => {
            assert_eq!(custom_id, "form");
            assert_eq!(title, "Title");
            assert_eq!(components, vec![1, 2]);
        },
        _ => panic!("expected a modal"),
    }
}

#[test]
fn a_message_leaves_out_empty_components() {
    let b: InteractionResponseBuilder<u8, u8> = InteractionResponseBuilder::default()
        .content("hi".to_owned())
        .embed(7)
        .make_ephemeral();
    match b.into_create_response().unwrap() {
        CreateResponse::Message { embed, content, components, ephemeral } => {
            assert_eq!(embed, Some(7));
            assert_eq!(content.as_deref(), Some("hi"));
            assert!(components.is_none());
            assert!(ephemeral);
        },
        _ => panic!("expected a message"),
    }
    let e: InteractionResponseBuilder<u8, u8> = InteractionResponseBuilder::new().components(vec![3]);
    let edit = e.into_edit_response();
    assert_eq!(edit.components, Some(vec![3]));
    assert!(edit.content.is_none());
}
