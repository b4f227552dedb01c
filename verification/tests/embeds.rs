use okto::components::{ButtonStyle, ButtonType, Emoji, StandardButton};
use okto::embeds::{add_button, StatefulEmbed, TimeEmbed};

fn button(label: &str) -> ButtonType {
    ButtonType { style: ButtonStyle::Primary, label: label.to_owned(), emoji: None }
}

#[test]
fn fields_start_with_the_buttons_emoji() {
    let em: StatefulEmbed<(), u8> = StatefulEmbed::new_with_embed(());
    let b = ButtonType { style: ButtonStyle::Primary, label: "Filters".into(), emoji: Some(Emoji::from_char('x')) };
    let em = em.add_field("Filters", "Set filters", false, b, 1);
    let em = em.add_field("Plain", "text", true, button("Plain"), 2);
    assert_eq!(em.fields[0].name, "x Filters");
    assert_eq!(em.fields[1].name, "Plain");
    assert!(em.options[0].is_update);
}

#[test]
fn buttons_go_five_to_a_row() {
    let mut em: StatefulEmbed<(), usize> = StatefulEmbed::new_with_embed(());
    for i in 0..7 {
        em.add_option(button(&format!("b{i}")), i);
    }
    let rows = em.button_rows();
    assert_eq!(rows, vec![vec![0, 1, 2, 3, 4], vec![5, 6]]);
    let empty: StatefulEmbed<(), usize> = StatefulEmbed::new_with_embed(());
    assert!(empty.button_rows().is_empty());
}

#[test]
fn only_the_author_clicks_and_the_first_label_wins() {
    let mut em: StatefulEmbed<(), u8> = StatefulEmbed::new_with_embed(());
    em.add_option(StandardButton::Exit.to_button(), 1);
    em.add_non_update_option(button("Exit"), 2);
    em.add_option(button("Next"), 3);
    assert_eq!(em.clicked_option(10, 10, "Exit"), Some(0));
    assert_eq!(em.clicked_option(10, 11, "Exit"), None);
    assert_eq!(em.clicked_option(10, 10, "Next"), Some(2));
    assert_eq!(em.clicked_option(10, 10, "Nope"), None);
    assert!(!em.options[1].is_update);
}

#[test]
fn the_time_embed_adds_up_button_presses() {
    let t = TimeEmbed::new(());
    assert_eq!(t.description(), "Please start specifying a duration using the buttons below:");
    let steps = TimeEmbed::<()>::steps();
    assert_eq!(steps.len(), 5);
    assert_eq!(steps[1].0.label, "6 hours");
    let t = t.add_duration(steps[0].1).add_duration(steps[3].1);
    assert_eq!(t.duration, 86400 + 900);
    assert_eq!(t.description(), "Setting a reminder for 1 day and 15 minutes before the moment of launch.");
    assert_eq!(add_button("1 hour").style, ButtonStyle::Primary);
}
