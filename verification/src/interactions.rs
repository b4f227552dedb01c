//! Waiting interaction handlers: which one takes an incoming interaction, which
//! remain waiting afterwards, and how a response reaches Discord.

use vstd::prelude::*;
use crate::text::{starts_with_str, str_eq};

verus! {

/// The kind of an interaction.
#[derive(Debug, Clone, Copy, PartialEq, Eq, Structural)]
pub enum InteractionKind {
    Ping,
    Command,
    Component,
    Autocomplete,
    Modal,
    Unknown(u8),
}

/// The type of a message component.
#[derive(Debug, Clone, Copy, PartialEq, Eq, Structural)]
pub enum ComponentKind {
    ActionRow,
    Button,
    StringSelect,
    InputText,
    UserSelect,
    RoleSelect,
    MentionableSelect,
    ChannelSelect,
    Unknown(u8),
}

/// The kind of component an interaction with a component came from.
#[derive(Debug, Clone, Copy, PartialEq, Eq, Structural)]
pub enum ComponentDataKind {
    Button,
    StringSelect,
    UserSelect,
    RoleSelect,
    MentionableSelect,
    ChannelSelect,
    Unknown(u8),
}

/// What a handler looks at in an incoming interaction.
#[derive(Debug, Clone)]
pub enum IncomingInteraction {
    Component { user: u64, channel: u64, custom_id: String, data_kind: ComponentDataKind },
    Modal { user: u64, channel: u64 },
    Other(InteractionKind),
}

/// The kind of an incoming interaction.
pub open spec fn incoming_kind(ev: IncomingInteraction) -> InteractionKind {
    match ev {
        IncomingInteraction::Component { .. } => InteractionKind::Component,
        IncomingInteraction::Modal { .. } => InteractionKind::Modal,
        IncomingInteraction::Other(k) => k,
    }
}

/// A component type names the kind of component an interaction came from; an
/// unknown kind matches no type.
pub open spec fn component_matches(t: ComponentKind, k: ComponentDataKind) -> bool {
    match k {
        ComponentDataKind::Button => t == ComponentKind::Button,
        ComponentDataKind::StringSelect => t == ComponentKind::StringSelect,
        ComponentDataKind::UserSelect => t == ComponentKind::UserSelect,
        ComponentDataKind::ChannelSelect => t == ComponentKind::ChannelSelect,
        ComponentDataKind::RoleSelect => t == ComponentKind::RoleSelect,
        ComponentDataKind::MentionableSelect => t == ComponentKind::MentionableSelect,
        ComponentDataKind::Unknown(_) => false,
    }
}

/// Whether a component type names the kind of component an interaction came from.
pub fn component_type_equals_kind(t: ComponentKind, k: ComponentDataKind) -> (r: bool)
    ensures
        r == component_matches(t, k),
{
    match k {
        ComponentDataKind::Button => t == ComponentKind::Button,
        ComponentDataKind::StringSelect => t == ComponentKind::StringSelect,
        ComponentDataKind::UserSelect => t == ComponentKind::UserSelect,
        ComponentDataKind::ChannelSelect => t == ComponentKind::ChannelSelect,
        ComponentDataKind::RoleSelect => t == ComponentKind::RoleSelect,
        ComponentDataKind::MentionableSelect => t == ComponentKind::MentionableSelect,
        ComponentDataKind::Unknown(_) => false,
    }
}

/// A handler waiting for an interaction, with the conditions an interaction must
/// meet for it; `handler` is what runs then. A `filter`, when set, is asked last
/// and must accept the interaction too.
#[derive(Debug, Clone)]
pub struct InteractionHandler<H, F> {
    pub channel: Option<u64>,
    pub user: Option<u64>,
    pub custom_id: Option<String>,
    pub interaction_type: Option<InteractionKind>,
    pub component_type: Option<ComponentKind>,
    pub handler: H,
    pub filter: Option<F>,
}

/// A set user or channel must be the one of the interaction.
pub open spec fn id_matches(want: Option<u64>, got: u64) -> bool {
    match want {
        Some(w) => w == got,
        None => true,
    }
}

/// Whether handler `h` takes interaction `ev`: its interaction type is set and is
/// the interaction's; for a component the user, channel, component type and custom
/// id prefix that are set must match; for a modal the user and channel; other
/// interactions are never taken.
pub open spec fn handler_accepts<H, F>(h: InteractionHandler<H, F>, ev: IncomingInteraction) -> bool {
    match h.interaction_type {
        None => false,
        Some(t) => t == incoming_kind(ev) && match ev {
            IncomingInteraction::Component { user, channel, custom_id, data_kind } => {
                &&& id_matches(h.user, user)
                &&& id_matches(h.channel, channel)
                &&& match h.component_type {
                    Some(ct) => component_matches(ct, data_kind),
                    None => true,
                }
                &&& match h.custom_id {
                    Some(p) => p@.is_prefix_of(custom_id@),
                    None => true,
                }
            },
            IncomingInteraction::Modal { user, channel } => id_matches(h.user, user) && id_matches(
                h.channel,
                channel,
            ),
            IncomingInteraction::Other(_) => false,
        },
    }
}

/// Whether handler `h` handles interaction `ev`: it accepts it, as
/// [`handler_accepts`] says, and its filter, when it has one, said yes
/// (`filter_passed`; it is not looked at when there is no filter).
pub open spec fn handler_takes<H, F>(h: InteractionHandler<H, F>, ev: IncomingInteraction, filter_passed: bool) -> bool {
    handler_accepts(h, ev) && (h.filter is None || filter_passed)
}

/// The user an interaction comes from, for components and modals.
pub open spec fn sender(ev: IncomingInteraction) -> Option<u64> {
    match ev {
        IncomingInteraction::Component { user, .. } => Some(user),
        IncomingInteraction::Modal { user, .. } => Some(user),
        IncomingInteraction::Other(_) => None,
    }
}

/// The channel an interaction comes from, for components and modals.
pub open spec fn origin_channel(ev: IncomingInteraction) -> Option<u64> {
    match ev {
        IncomingInteraction::Component { channel, .. } => Some(channel),
        IncomingInteraction::Modal { channel, .. } => Some(channel),
        IncomingInteraction::Other(_) => None,
    }
}

/// A handler that waits for one user never takes an interaction of another user,
/// and one that waits in one channel never takes an interaction from another
/// channel, for components as for modals; nor does a filter that said no let one
/// through.
pub proof fn lemma_handler_keeps_to_its_user_and_channel<H, F>(
    h: InteractionHandler<H, F>,
    ev: IncomingInteraction,
    filter_passed: bool,
)
    ensures
        h.user matches Some(u) && sender(ev) matches Some(v) && u != v ==> !handler_accepts(h, ev),
        h.channel matches Some(c) && origin_channel(ev) matches Some(d) && c != d ==> !handler_accepts(h, ev),
        sender(ev) is None ==> !handler_accepts(h, ev),
        h.filter is Some && !filter_passed ==> !handler_takes(h, ev, filter_passed),
        handler_takes(h, ev, filter_passed) ==> handler_accepts(h, ev),
{
}

/// A modal handler takes every modal of its user in its channel, where those are
/// set; a component handler takes every component of its user in its channel
/// whose custom id starts with its own and whose type is its own, where set.
pub proof fn lemma_handler_takes_what_it_waits_for<H, F>(h: InteractionHandler<H, F>, ev: IncomingInteraction)
    requires
        sender(ev) matches Some(v) && (h.user is None || h.user == Some(v)),
        origin_channel(ev) matches Some(d) && (h.channel is None || h.channel == Some(d)),
        ev is Modal ==> h.interaction_type == Some(InteractionKind::Modal),
        ev matches IncomingInteraction::Component { custom_id, data_kind, .. } ==> {
            &&& h.interaction_type == Some(InteractionKind::Component)
            &&& (h.custom_id matches Some(p) ==> p@.is_prefix_of(custom_id@))
            &&& (h.component_type matches Some(t) ==> component_matches(t, data_kind))
        },
    ensures
        handler_accepts(h, ev),
        handler_takes(h, ev, true),
{
}

/// Two handlers wait for the same interactions: same channel, user, custom id,
/// interaction type and component type.
pub open spec fn same_criteria<H, F>(a: InteractionHandler<H, F>, b: InteractionHandler<H, F>) -> bool {
    &&& a.channel == b.channel
    &&& a.user == b.user
    &&& match (a.custom_id, b.custom_id) {
        (Some(x), Some(y)) => x@ == y@,
        (None, None) => true,
        _ => false,
    }
    &&& a.interaction_type == b.interaction_type
    &&& a.component_type == b.component_type
}

/// Some handler in `hs` waits for the same interactions as `h`.
pub open spec fn criteria_in<H, F>(h: InteractionHandler<H, F>, hs: Seq<InteractionHandler<H, F>>) -> bool {
    exists|j: int| 0 <= j < hs.len() && same_criteria(h, #[trigger] hs[j])
}

/// Two optional strings hold the same text, or are both absent.
fn same_opt_text(a: &Option<String>, b: &Option<String>) -> (r: bool)
    ensures
        r == match (*a, *b) {
            (Some(x), Some(y)) => x@ == y@,
            (None, None) => true,
            _ => false,
        },
{
    match (a, b) {
        (Some(x), Some(y)) => str_eq(x.as_str(), y.as_str()),
        (None, None) => true,
        _ => false,
    }
}

impl<H, F> InteractionHandler<H, F> {
    /// Starts building a handler that runs `handler`.
    pub fn builder(handler: H) -> (r: InteractionHandlerBuilder<H, F>)
        ensures
            r.inner.channel is None && r.inner.user is None && r.inner.custom_id is None,
            r.inner.interaction_type is None && r.inner.component_type is None,
            r.inner.handler == handler,
            r.inner.filter is None,
    {
        InteractionHandlerBuilder::new(handler)
    }

    /// Whether this handler takes the interaction, as [`handler_accepts`] says.
    pub fn accepts(&self, ev: &IncomingInteraction) -> (r: bool)
        ensures
            r == handler_accepts(*self, *ev),
    {
        let t = match self.interaction_type {
            None => {
                return false;
            },
            Some(t) => t,
        };
        match ev {
            IncomingInteraction::Component { user, channel, custom_id, data_kind } => {
                if t != InteractionKind::Component {
                    return false;
                }
                match self.user {
                    Some(u) => if u != *user {
                        return false;
                    },
                    None => {},
                }
                match self.channel {
                    Some(c) => if c != *channel {
                        return false;
                    },
                    None => {},
                }
                match self.component_type {
                    Some(ct) => if !component_type_equals_kind(ct, *data_kind) {
                        return false;
                    },
                    None => {},
                }
                match &self.custom_id {
                    Some(p) => starts_with_str(custom_id.as_str(), p.as_str()),
                    None => true,
                }
            },
            IncomingInteraction::Modal { user, channel } => {
                if t != InteractionKind::Modal {
                    return false;
                }
                match self.user {
                    Some(u) => if u != *user {
                        return false;
                    },
                    None => {},
                }
                match self.channel {
                    Some(c) => c == *channel,
                    None => true,
                }
            },
            IncomingInteraction::Other(_) => false,
        }
    }

    /// Whether this handler handles the interaction, as [`handler_takes`] says:
    /// `filter_passed` is what its filter said of the interaction, asked only once
    /// [`Self::accepts`] held; it is ignored when the handler has no filter.
    pub fn takes(&self, ev: &IncomingInteraction, filter_passed: bool) -> (r: bool)
        ensures
            r == handler_takes(*self, *ev, filter_passed),
    {
        self.accepts(ev) && (self.filter.is_none() || filter_passed)
    }

    /// Whether two handlers wait for the same interactions (the handlers' `==`).
    pub fn same_target(&self, other: &Self) -> (r: bool)
        ensures
            r == same_criteria(*self, *other),
    {
        self.channel == other.channel && self.user == other.user && same_opt_text(
            &self.custom_id,
            &other.custom_id,
        ) && self.interaction_type == other.interaction_type && self.component_type
            == other.component_type
    }
}

/// Whether some handler of `hs` waits for the same interactions as `h`.
fn criteria_listed<H, F>(h: &InteractionHandler<H, F>, hs: &Vec<InteractionHandler<H, F>>) -> (r: bool)
    ensures
        r == criteria_in(*h, hs@),
{
    let mut j: usize = 0;
    while j < hs.len()
        invariant
            j <= hs@.len(),
            forall|k: int| 0 <= k < j ==> !same_criteria(*h, #[trigger] hs@[k]),
        decreases hs@.len() - j,
    {
        if h.same_target(&hs[j]) {
            return true;
        }
        j = j + 1;
    }
    false
}

/// The handlers that keep waiting after an interaction was handled: every waiting
/// handler that waits for other interactions than all the handlers that took it,
/// in their order.
pub fn retain_unhandled<H, F>(
    waiting: Vec<InteractionHandler<H, F>>,
    handled: &Vec<InteractionHandler<H, F>>,
) -> (r: Vec<InteractionHandler<H, F>>)
    ensures
        r@ == waiting@.filter(|h: InteractionHandler<H, F>| !criteria_in(h, handled@)),
{
    let ghost orig = waiting@;
    let ghost pred = |h: InteractionHandler<H, F>| !criteria_in(h, handled@);
    let mut input = waiting;
    let mut out: Vec<InteractionHandler<H, F>> = Vec::new();
    let ghost mut c: int = 0;
    assert(orig.take(0) =~= Seq::<InteractionHandler<H, F>>::empty());
    assert(orig.skip(0) =~= orig);
    while input.len() > 0
        invariant
            0 <= c <= orig.len(),
            input@ == orig.skip(c),
            out@ == orig.take(c).filter(pred),
            pred == (|h: InteractionHandler<H, F>| !criteria_in(h, handled@)),
        decreases input@.len(),
    {
        let h = input.remove(0);
        proof {
            assert(h == orig[c]);
            assert(input@ =~= orig.skip(c + 1));
            assert(orig.take(c + 1) =~= orig.take(c).push(h));
            orig.take(c).lemma_filter_push(h, pred);
        }
        if !criteria_listed(&h, handled) {
            out.push(h);
        }
        proof {
            c = c + 1;
        }
    }
    assert(orig.take(c) =~= orig);
    out
}

/// Builds an [`InteractionHandler`].
#[derive(Debug, Clone)]
pub struct InteractionHandlerBuilder<H, F> {
    pub inner: InteractionHandler<H, F>,
}

impl<H, F> InteractionHandlerBuilder<H, F> {
    /// A handler with no condition set yet.
    pub fn new(handler: H) -> (r: Self)
        ensures
            r.inner.channel is None && r.inner.user is None && r.inner.custom_id is None,
            r.inner.interaction_type is None && r.inner.component_type is None,
            r.inner.handler == handler,
            r.inner.filter is None,
    {
        InteractionHandlerBuilder {
            inner: InteractionHandler {
                channel: None,
                user: None,
                custom_id: None,
                interaction_type: None,
                component_type: None,
                handler,
                filter: None,
            },
        }
    }

    /// Waits for interactions in one channel only.
    pub fn set_channel(self, channel: u64) -> (r: Self)
        ensures
            r.inner == (InteractionHandler { channel: Some(channel), ..self.inner }),
    {
        Self { inner: InteractionHandler { channel: Some(channel), ..self.inner } }
    }

    /// Waits for interactions of one user only.
    pub fn set_user(self, user: u64) -> (r: Self)
        ensures
            r.inner == (InteractionHandler { user: Some(user), ..self.inner }),
    {
        Self { inner: InteractionHandler { user: Some(user), ..self.inner } }
    }

    /// Waits for components whose custom id starts with `custom_id` only.
    pub fn set_custom_id(self, custom_id: String) -> (r: Self)
        ensures
            r.inner == (InteractionHandler { custom_id: Some(custom_id), ..self.inner }),
    {
        Self { inner: InteractionHandler { custom_id: Some(custom_id), ..self.inner } }
    }

    /// Waits for one kind of interaction only.
    pub fn set_interaction_type(self, interaction_type: InteractionKind) -> (r: Self)
        ensures
            r.inner == (InteractionHandler { interaction_type: Some(interaction_type), ..self.inner }),
    {
        Self { inner: InteractionHandler { interaction_type: Some(interaction_type), ..self.inner } }
    }

    /// Waits for one type of component only; when no interaction type was set, it
    /// becomes the component interaction.
    pub fn set_component_type(self, component_type: ComponentKind) -> (r: Self)
        ensures
            r.inner == (InteractionHandler {
                component_type: Some(component_type),
                interaction_type: match self.inner.interaction_type {
                    Some(t) => Some(t),
                    None => Some(InteractionKind::Component),
                },
                ..self.inner
            }),
    {
        let interaction_type = match self.inner.interaction_type {
            Some(t) => Some(t),
            None => Some(InteractionKind::Component),
        };
        Self {
            inner: InteractionHandler {
                component_type: Some(component_type),
                interaction_type,
                ..self.inner
            },
        }
    }

    /// Asks `filter` as well, after every other condition has held.
    pub fn set_filter(self, filter: F) -> (r: Self)
        ensures
            r.inner == (InteractionHandler { filter: Some(filter), ..self.inner }),
    {
        Self { inner: InteractionHandler { filter: Some(filter), ..self.inner } }
    }

    /// The handler; refused when a component type was set together with an
    /// interaction type other than the component interaction.
    pub fn build(self) -> (r: Result<InteractionHandler<H, F>, String>)
        ensures
            (self.inner.component_type is Some && self.inner.interaction_type is Some
                && self.inner.interaction_type->0 != InteractionKind::Component) ==> (r matches Err(m)
                && m@
                == "If the component type has been set, the interaction type must be MessageComponent"@),
            !(self.inner.component_type is Some && self.inner.interaction_type is Some
                && self.inner.interaction_type->0 != InteractionKind::Component) ==> r == Ok::<
                InteractionHandler<H, F>,
                String,
            >(self.inner),
    {
        if self.inner.component_type.is_some() {
            match self.inner.interaction_type {
                Some(t) => if t != InteractionKind::Component {
                    return Err(
                        String::from_str(
                            "If the component type has been set, the interaction type must be MessageComponent",
                        ),
                    );
                },
                None => {},
            }
        }
        Ok(self.inner)
    }
}

/// How a response reaches Discord.
#[derive(Debug, Clone, Copy, PartialEq, Eq, Structural)]
pub enum ResponseRoute {
    EditComponent,
    EditCommand,
    CreateComponent,
    CreateModal,
    CreateCommand,
}

/// The route of a response: an update edits the answer to a component or a command;
/// a new response answers a component, a modal or a command. Other interactions
/// cannot be answered.
pub open spec fn route_of(update: bool, kind: InteractionKind) -> Option<ResponseRoute> {
    if update {
        match kind {
            InteractionKind::Component => Some(ResponseRoute::EditComponent),
            InteractionKind::Command => Some(ResponseRoute::EditCommand),
            _ => None,
        }
    } else {
        match kind {
            InteractionKind::Component => Some(ResponseRoute::CreateComponent),
            InteractionKind::Modal => Some(ResponseRoute::CreateModal),
            InteractionKind::Command => Some(ResponseRoute::CreateCommand),
            _ => None,
        }
    }
}

/// Picks the route of a response, as [`route_of`] says; `None` for an interaction
/// that cannot be answered that way.
pub fn response_route(update: bool, kind: InteractionKind) -> (r: Option<ResponseRoute>)
    ensures
        r == route_of(update, kind),
{
    if update {
        match kind {
            InteractionKind::Component => Some(ResponseRoute::EditComponent),
            InteractionKind::Command => Some(ResponseRoute::EditCommand),
            _ => None,
        }
    } else {
        match kind {
            InteractionKind::Component => Some(ResponseRoute::CreateComponent),
            InteractionKind::Modal => Some(ResponseRoute::CreateModal),
            InteractionKind::Command => Some(ResponseRoute::CreateCommand),
            _ => None,
        }
    }
}

/// What a waiting handler waits for: a message or a reaction.
#[derive(Debug, Clone, Copy, PartialEq, Eq, Structural)]
pub enum WaitType {
    Message,
    Reaction,
}

/// Whether a waiting handler runs on a payload: the payload must be of the kind it
/// waits for, and its filter, when it has one, must accept the payload
/// (`filter_passed` is what the filter said, `None` when there is no filter).
pub fn wait_handler_runs(wait_type: WaitType, payload: WaitType, filter_passed: Option<bool>) -> (r: bool)
    ensures
        r == (wait_type == payload && match filter_passed {
            Some(b) => b,
            None => true,
        }),
{
    if wait_type != payload {
        return false;
    }
    match filter_passed {
        Some(b) => b,
        None => true,
    }
}

} // verus!
