//! Buttons, emojis and interaction responses: the values the bot hands to
//! Discord when it answers an interaction.

use vstd::prelude::*;
use crate::text::{nat_to_decimal, push_char, u64_to_decimal};

verus! {

/// The colour scheme of a button.
#[derive(Debug, Clone, Copy, PartialEq, Eq, Structural)]
pub enum ButtonStyle {
    Primary,
    Secondary,
    Success,
    Danger,
}

/// An emoji: a Unicode one, or a custom emoji of a server.
#[derive(Debug, Clone)]
pub enum Emoji {
    Unicode(String),
    Custom { animated: bool, id: u64, name: Option<String> },
}

/// How Discord writes an emoji in a message: a Unicode emoji as itself, a custom
/// one as "<:name:id>", or "<a:name:id>" when it is animated.
pub open spec fn emoji_text(e: Emoji) -> Seq<char> {
    match e {
        Emoji::Unicode(s) => s@,
        Emoji::Custom { animated, id, name } => (if animated {
            "<a:"@
        } else {
            "<:"@
        }) + (match name {
            Some(n) => n@,
            None => Seq::<char>::empty(),
        }) + ":"@ + nat_to_decimal(id as nat) + ">"@,
    }
}

impl Emoji {
    /// The Unicode emoji made of one character.
    pub fn from_char(c: char) -> (r: Emoji)
        ensures
            r matches Emoji::Unicode(s) && s@ == seq![c],
    {
        let mut s = String::new();
        push_char(&mut s, c);
        Emoji::Unicode(s)
    }

    /// The emoji as Discord writes it in a message, as [`emoji_text`] describes.
    pub fn text(&self) -> (r: String)
        ensures
            r@ == emoji_text(*self),
    {
        match self {
            Emoji::Unicode(s) => s.clone(),
            Emoji::Custom { animated, id, name } => {
                let mut r = if *animated {
                    String::from_str("<a:")
                } else {
                    String::from_str("<:")
                };
                match name {
                    Some(n) => r.append(n.as_str()),
                    None => {},
                }
                r.append(":");
                let digits = u64_to_decimal(*id);
                r.append(digits.as_str());
                r.append(">");
                r
            },
        }
    }
}

/// A button: its style, its label (which is also its custom id) and its emoji.
#[derive(Debug, Clone)]
pub struct ButtonType {
    pub style: ButtonStyle,
    pub label: String,
    pub emoji: Option<Emoji>,
}

/// The buttons that come back on many pages.
#[derive(Debug, Clone, Copy, PartialEq, Eq, Structural)]
pub enum StandardButton {
    First,
    Last,
    Forward,
    Back,
    Exit,
    Submit,
    Prograde,
    Retrograde,
}

/// The label of a standard button.
pub open spec fn standard_label(b: StandardButton) -> Seq<char> {
    match b {
        StandardButton::Last => "Last page"@,
        StandardButton::First => "First page"@,
        StandardButton::Forward => "Forward one page"@,
        StandardButton::Back => "Back one page"@,
        StandardButton::Exit => "Exit"@,
        StandardButton::Submit => "Submit"@,
        StandardButton::Prograde => "Next"@,
        StandardButton::Retrograde => "Back"@,
    }
}

/// The style of a standard button: red for leaving, green for submitting, grey
/// otherwise.
pub open spec fn standard_style(b: StandardButton) -> ButtonStyle {
    match b {
        StandardButton::Exit => ButtonStyle::Danger,
        StandardButton::Submit => ButtonStyle::Success,
        _ => ButtonStyle::Secondary,
    }
}

/// The id of the server emoji "Prograde".
pub const PROGRADE_EMOJI_ID: u64 = 433308892584476674;

/// The id of the server emoji "Retrograde".
pub const RETROGRADE_EMOJI_ID: u64 = 433308874343448576;

/// The emoji of a standard button, as Discord writes it.
pub open spec fn standard_emoji(b: StandardButton) -> Seq<char> {
    match b {
        StandardButton::Last => seq!['\u{23ed}'],
        StandardButton::First => seq!['\u{23ee}'],
        StandardButton::Forward => seq!['\u{25b6}'],
        StandardButton::Back => seq!['\u{25c0}'],
        StandardButton::Exit => seq!['\u{2716}'],
        StandardButton::Submit => seq!['\u{2714}'],
        StandardButton::Prograde => "<:Prograde:"@ + nat_to_decimal(PROGRADE_EMOJI_ID as nat) + ">"@,
        StandardButton::Retrograde => "<:Retrograde:"@ + nat_to_decimal(RETROGRADE_EMOJI_ID as nat)
            + ">"@,
    }
}

/// A server emoji that is not animated.
fn custom_emoji(name: &str, id: u64) -> (r: Emoji)
    ensures
        r matches Emoji::Custom { animated, id: i, name: Some(n) } && !animated && i == id && n@
            == name@,
{
    Emoji::Custom { animated: false, id, name: Some(String::from_str(name)) }
}

impl StandardButton {
    /// The button as it is shown.
    pub fn to_button(self) -> (r: ButtonType)
        ensures
            r.label@ == standard_label(self),
            r.style == standard_style(self),
            r.emoji matches Some(e) && emoji_text(e) == standard_emoji(self),
    {
        proof {
            reveal_strlit("<:");
            reveal_strlit(":");
            reveal_strlit(">");
            reveal_strlit("Prograde");
            reveal_strlit("Retrograde");
            reveal_strlit("<:Prograde:");
            reveal_strlit("<:Retrograde:");
            let d = nat_to_decimal(PROGRADE_EMOJI_ID as nat);
            assert("<:"@ + "Prograde"@ + ":"@ + d + ">"@ =~= "<:Prograde:"@ + d + ">"@);
            let d2 = nat_to_decimal(RETROGRADE_EMOJI_ID as nat);
            assert("<:"@ + "Retrograde"@ + ":"@ + d2 + ">"@ =~= "<:Retrograde:"@ + d2 + ">"@);
        }
        match self {
            StandardButton::Last => ButtonType {
                label: String::from_str("Last page"),
                style: ButtonStyle::Secondary,
                emoji: Some(Emoji::from_char('\u{23ed}')),
            },
            StandardButton::First => ButtonType {
                label: String::from_str("First page"),
                style: ButtonStyle::Secondary,
                emoji: Some(Emoji::from_char('\u{23ee}')),
            },
            StandardButton::Forward => ButtonType {
                label: String::from_str("Forward one page"),
                style: ButtonStyle::Secondary,
                emoji: Some(Emoji::from_char('\u{25b6}')),
            },
            StandardButton::Back => ButtonType {
                label: String::from_str("Back one page"),
                style: ButtonStyle::Secondary,
                emoji: Some(Emoji::from_char('\u{25c0}')),
            },
            StandardButton::Exit => ButtonType {
                label: String::from_str("Exit"),
                style: ButtonStyle::Danger,
                emoji: Some(Emoji::from_char('\u{2716}')),
            },
            StandardButton::Submit => ButtonType {
                label: String::from_str("Submit"),
                style: ButtonStyle::Success,
                emoji: Some(Emoji::from_char('\u{2714}')),
            },
            StandardButton::Prograde => ButtonType {
                label: String::from_str("Next"),
                style: ButtonStyle::Secondary,
                emoji: Some(custom_emoji("Prograde", PROGRADE_EMOJI_ID)),
            },
            StandardButton::Retrograde => ButtonType {
                label: String::from_str("Back"),
                style: ButtonStyle::Secondary,
                emoji: Some(custom_emoji("Retrograde", RETROGRADE_EMOJI_ID)),
            },
        }
    }
}

/// Whether a response is a message or a modal form.
#[derive(Debug, Clone, Copy, PartialEq, Eq, Structural)]
pub enum InteractionBuilderKind {
    Message,
    Modal,
}

/// A response to an interaction under construction. `E` is the embed and `R` a
/// row of components, which the caller builds.
#[derive(Debug, Clone)]
pub struct InteractionResponseBuilder<E, R> {
    pub custom_id: Option<String>,
    pub content: Option<String>,
    pub embed: Option<E>,
    pub components: Vec<R>,
    pub kind: InteractionBuilderKind,
    pub ephemeral: bool,
}

/// A response that creates a message or opens a modal.
#[derive(Debug, Clone)]
pub enum CreateResponse<E, R> {
    Modal { custom_id: String, title: String, components: Vec<R> },
    Message { embed: Option<E>, content: Option<String>, components: Option<Vec<R>>, ephemeral: bool },
}

/// A response that edits the message an interaction answered with.
#[derive(Debug, Clone)]
pub struct EditResponse<E, R> {
    pub embed: Option<E>,
    pub content: Option<String>,
    pub components: Option<Vec<R>>,
}

impl<E, R> InteractionResponseBuilder<E, R> {
    /// An empty message response.
    pub fn new() -> (r: Self)
        ensures
            r.custom_id is None,
            r.content is None,
            r.embed is None,
            r.components@.len() == 0,
            r.kind == InteractionBuilderKind::Message,
            !r.ephemeral,
    {
        InteractionResponseBuilder {
            custom_id: None,
            content: None,
            embed: None,
            components: Vec::new(),
            kind: InteractionBuilderKind::Message,
            ephemeral: false,
        }
    }

    /// Sets the custom id.
    pub fn custom_id(self, id: String) -> (r: Self)
        ensures
            r == (Self { custom_id: Some(id), ..self }),
    {
        Self { custom_id: Some(id), ..self }
    }

    /// Sets the text (the title, for a modal).
    pub fn content(self, c: String) -> (r: Self)
        ensures
            r == (Self { content: Some(c), ..self }),
    {
        Self { content: Some(c), ..self }
    }

    /// Sets whether this is a message or a modal.
    pub fn kind(self, t: InteractionBuilderKind) -> (r: Self)
        ensures
            r == (Self { kind: t, ..self }),
    {
        Self { kind: t, ..self }
    }

    /// Sets the embed.
    pub fn embed(self, e: E) -> (r: Self)
        ensures
            r == (Self { embed: Some(e), ..self }),
    {
        Self { embed: Some(e), ..self }
    }

    /// Sets the rows of components.
    pub fn components(self, rows: Vec<R>) -> (r: Self)
        ensures
            r == (Self { components: rows, ..self }),
    {
        Self { components: rows, ..self }
    }

    /// Makes the message visible to the user who interacted only.
    pub fn make_ephemeral(self) -> (r: Self)
        ensures
            r == (Self { ephemeral: true, ..self }),
    {
        Self { ephemeral: true, ..self }
    }

    /// The response that creates a message or opens a modal. A modal needs a custom
    /// id and a title (the content); a message takes what was set, its components
    /// only when there is at least one row.
    pub fn into_create_response(self) -> (r: Result<CreateResponse<E, R>, String>)
        ensures
            self.kind == InteractionBuilderKind::Modal && self.custom_id is None ==> (r matches Err(m)
                && m@ == "A custom id is required for a modal"@),
            self.kind == InteractionBuilderKind::Modal && self.custom_id is Some && self.content is None
                ==> (r matches Err(m) && m@ == "content is required in a modal"@),
            self.kind == InteractionBuilderKind::Modal && self.custom_id is Some && self.content is Some
                ==> (r matches Ok(CreateResponse::Modal { custom_id, title, components })
                && custom_id == self.custom_id->0 && title == self.content->0 && components
                == self.components),
            self.kind == InteractionBuilderKind::Message ==> (r matches Ok(
                CreateResponse::Message { embed, content, components, ephemeral },
            ) && embed == self.embed && content == self.content && ephemeral == self.ephemeral && (
            if self.components@.len() == 0 {
                components is None
            } else {
                components == Some(self.components)
            })),
    {
        if self.kind == InteractionBuilderKind::Modal {
            let id = match self.custom_id {
                Some(id) => id,
                None => {
                    return Err(String::from_str("A custom id is required for a modal"));
                },
            };
            let title = match self.content {
                Some(t) => t,
                None => {
                    return Err(String::from_str("content is required in a modal"));
                },
            };
            return Ok(CreateResponse::Modal { custom_id: id, title, components: self.components });
        }
        let components = if self.components.len() == 0 {
            None
        } else {
            Some(self.components)
        };
        Ok(
            CreateResponse::Message {
                embed: self.embed,
                content: self.content,
                components,
                ephemeral: self.ephemeral,
            },
        )
    }

    /// The response that edits the earlier one: what was set, the components only
    /// when there is at least one row.
    pub fn into_edit_response(self) -> (r: EditResponse<E, R>)
        ensures
            r.embed == self.embed,
            r.content == self.content,
            if self.components@.len() == 0 {
                r.components is None
            } else {
                r.components == Some(self.components)
            },
    {
        let components = if self.components.len() == 0 {
            None
        } else {
            Some(self.components)
        };
        EditResponse { embed: self.embed, content: self.content, components }
    }
}

impl<E, R> Default for InteractionResponseBuilder<E, R> {
    fn default() -> (r: Self)
        ensures
            r.custom_id is None,
            r.content is None,
            r.embed is None,
            r.components@.len() == 0,
            r.kind == InteractionBuilderKind::Message,
            !r.ephemeral,
    {
        Self::new()
    }
}

} // verus!
