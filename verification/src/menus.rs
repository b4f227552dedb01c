//! Select menus and modal forms: their validation when built, the rows they are
//! shown in, the handler that waits for the answer, and the answer itself.

use vstd::prelude::*;
use crate::components::{InteractionBuilderKind, InteractionResponseBuilder};
use crate::interactions::{ComponentKind, InteractionHandler, InteractionKind};
use crate::lexical::{TextKey, sort_by_text, text_sorted};
use crate::text::{nat_to_decimal, u64_to_decimal};

verus! {

/// A copy of an optional text.
fn copy_text(o: &Option<String>) -> (r: Option<String>)
    ensures
        r == *o,
{
    match o {
        Some(s) => Some(s.clone()),
        None => None,
    }
}

/// An option of a select menu: the key it stands for and the text shown for it.
#[derive(Debug, Clone)]
pub struct MenuOption {
    pub key: String,
    pub value: String,
}

impl TextKey for MenuOption {
    open spec fn text_key(&self) -> Seq<char> {
        self.value@
    }

    fn key_str(&self) -> (r: &str) {
        self.value.as_str()
    }
}

impl MenuOption {
    /// A copy of this option.
    pub fn copied(&self) -> (r: MenuOption)
        ensures
            r == *self,
    {
        MenuOption { key: self.key.clone(), value: self.value.clone() }
    }
}

/// No two options have the same key.
pub open spec fn distinct_keys(opts: Seq<MenuOption>) -> bool {
    forall|i: int, j: int| 0 <= i < j < opts.len() ==> (#[trigger] opts[i]).key@ != (#[trigger] opts[j]).key@
}

/// The text the last option with key `k` gives it, if some option has that key.
pub open spec fn last_value(opts: Seq<MenuOption>, k: Seq<char>) -> Option<Seq<char>>
    decreases opts.len(),
{
    if opts.len() == 0 {
        None
    } else if opts.last().key@ == k {
        Some(opts.last().value@)
    } else {
        last_value(opts.drop_last(), k)
    }
}

/// Replacing the option of a key in options with distinct keys changes what that
/// key gives and nothing else.
proof fn lemma_last_value_update(s: Seq<MenuOption>, j: int, e: MenuOption, k: Seq<char>)
    requires
        distinct_keys(s),
        0 <= j < s.len(),
        s[j].key@ == e.key@,
    ensures
        last_value(s.update(j, e), k) == (if k == e.key@ { Some(e.value@) } else { last_value(s, k) }),
    decreases s.len(),
{
    let t = s.update(j, e);
    if j == s.len() - 1 {
        assert(t.drop_last() =~= s.drop_last());
    } else {
        assert(t.drop_last() =~= s.drop_last().update(j, e));
        assert(t.last() == s.last());
        assert(s.last().key@ != e.key@) by {
            assert(s[j].key@ != s[s.len() - 1].key@);
        }
        assert(distinct_keys(s.drop_last())) by {
            assert forall|a: int, b: int| 0 <= a < b < s.drop_last().len() implies (#[trigger] s.drop_last()[a]).key@
                != (#[trigger] s.drop_last()[b]).key@ by {
                assert(s[a].key@ != s[b].key@);
            }
        }
        lemma_last_value_update(s.drop_last(), j, e, k);
    }
}

/// No option has key `k`.
proof fn lemma_last_value_absent(s: Seq<MenuOption>, k: Seq<char>)
    requires
        forall|i: int| 0 <= i < s.len() ==> (#[trigger] s[i]).key@ != k,
    ensures
        last_value(s, k) is None,
    decreases s.len(),
{
    if s.len() > 0 {
        assert(s.last().key@ != k);
        lemma_last_value_absent(s.drop_last(), k);
    }
}

/// The options as a map keyed by their keys keeps them: one option per key, with
/// the text of the last option that had the key, as [`last_value`] says.
pub fn options_map(opts: Vec<MenuOption>) -> (r: Vec<MenuOption>)
    ensures
        distinct_keys(r@),
        forall|k: Seq<char>| #[trigger] last_value(r@, k) == last_value(opts@, k),
{
    let mut out: Vec<MenuOption> = Vec::new();
    let mut i: usize = 0;
    assert(opts@.take(0) =~= Seq::<MenuOption>::empty());
    while i < opts.len()
        invariant
            i <= opts@.len(),
            distinct_keys(out@),
            forall|k: Seq<char>| #[trigger] last_value(out@, k) == last_value(opts@.take(i as int), k),
        decreases opts@.len() - i,
    {
        let x = opts[i].copied();
        proof {
            assert(opts@.take(i + 1).drop_last() =~= opts@.take(i as int));
            assert(opts@.take(i + 1).last() == x);
        }
        let mut j: usize = 0;
        while j < out.len() && !crate::text::str_eq(out[j].key.as_str(), x.key.as_str())
            invariant
                j <= out@.len(),
                forall|q: int| 0 <= q < j ==> (#[trigger] out@[q]).key@ != x.key@,
            decreases out@.len() - j,
        {
            j = j + 1;
        }
        let ghost before = out@;
        if j < out.len() {
            assert(before[j as int].key@ == x.key@);
            out.set(j, x);
            proof {
                assert forall|k: Seq<char>| #[trigger] last_value(out@, k) == last_value(opts@.take(i + 1), k) by {
                    lemma_last_value_update(before, j as int, x, k);
                }
                assert forall|a: int, b: int| 0 <= a < b < out@.len() implies (#[trigger] out@[a]).key@
                    != (#[trigger] out@[b]).key@ by {
                    assert(before[a].key@ != before[b].key@);
                }
            }
        } else {
            out.push(x);
            proof {
                assert(out@.drop_last() =~= before);
                assert forall|k: Seq<char>| #[trigger] last_value(out@, k) == last_value(opts@.take(i + 1), k) by {
                    assert(out@.last() == x);
                    assert(out@.drop_last() == before);
                    assert(last_value(before, k) == last_value(opts@.take(i as int), k));
                }
                assert forall|a: int, b: int| 0 <= a < b < out@.len() implies (#[trigger] out@[a]).key@
                    != (#[trigger] out@[b]).key@ by {
                    if b == out@.len() - 1 {
                        assert(before[a].key@ != x.key@);
                    } else {
                        assert(before[a].key@ != before[b].key@);
                    }
                }
            }
        }
        i = i + 1;
    }
    assert(opts@.take(opts@.len() as int) =~= opts@);
    out
}

/// A select menu; `handler` runs with the key and text of the chosen option.
#[derive(Debug, Clone)]
pub struct SelectMenu<H> {
    pub description: Option<String>,
    pub user_id: Option<u64>,
    pub options: Vec<MenuOption>,
    pub ephemeral: bool,
    pub custom_id: Option<String>,
    pub handler: H,
}

/// A row of a select menu: its custom id and its options.
#[derive(Debug, Clone)]
pub struct MenuRow {
    pub custom_id: String,
    pub options: Vec<MenuOption>,
}

/// The custom id of row `i` of a menu: the menu's custom id (or "select-row"), a
/// dash and the row number.
pub open spec fn row_id(custom_id: Option<String>, i: int) -> Seq<char> {
    (match custom_id {
        Some(c) => c@,
        None => "select-row"@,
    }) + "-"@ + nat_to_decimal(i as nat)
}

/// `rows` lays out `sorted` in rows of 25 options, at most five rows.
pub open spec fn menu_rows(rows: Seq<MenuRow>, sorted: Seq<MenuOption>, custom_id: Option<String>) -> bool {
    &&& rows.len() == (if sorted.len() >= 125 { 5 } else { (sorted.len() + 24) / 25 })
    &&& forall|i: int| 0 <= i < rows.len() ==> {
        &&& (#[trigger] rows[i]).custom_id@ == row_id(custom_id, i)
        &&& rows[i].options@ == sorted.subrange(
            25 * i,
            if 25 * i + 25 <= sorted.len() { 25 * i + 25 } else { sorted.len() as int },
        )
    }
}

/// The text shown above a menu: its description, or "Select an option".
pub open spec fn menu_content(description: Option<String>) -> Seq<char> {
    match description {
        Some(d) => d@,
        None => "Select an option"@,
    }
}

/// What is shown of a menu.
#[derive(Debug, Clone)]
pub struct MenuLayout {
    pub content: String,
    pub rows: Vec<MenuRow>,
}

impl<H> SelectMenu<H> {
    /// Starts building a menu whose choice runs `handler`.
    pub fn builder(handler: H) -> (r: SelectMenuBuilder<H>)
        ensures
            r.inner.description is None && r.inner.user_id is None && r.inner.custom_id is None,
            r.inner.options@.len() == 0 && !r.inner.ephemeral,
            r.inner.handler == handler,
    {
        SelectMenuBuilder::new(handler)
    }

    /// What is shown: the description (or "Select an option") and the options sorted
    /// by their text, in rows of 25, at most five rows, as [`menu_rows`] describes.
    pub fn layout(&self) -> (r: MenuLayout)
        ensures
            r.content@ == menu_content(self.description),
            exists|sorted: Seq<MenuOption>|
                #![trigger sorted.to_multiset()]
                text_sorted(sorted) && sorted.to_multiset() == self.options@.to_multiset() && menu_rows(
                    r.rows@,
                    sorted,
                    self.custom_id,
                ),
    {
        let mut copy: Vec<MenuOption> = Vec::new();
        let mut i: usize = 0;
        while i < self.options.len()
            invariant
                i <= self.options@.len(),
                copy@ == self.options@.take(i as int),
            decreases self.options@.len() - i,
        {
            copy.push(self.options[i].copied());
            i = i + 1;
            proof {
                assert(copy@ =~= self.options@.take(i as int));
            }
        }
        assert(copy@ =~= self.options@);
        let sorted = sort_by_text(copy);
        let n = sorted.len();
        let mut rows: Vec<MenuRow> = Vec::new();
        let mut start: usize = 0;
        let mut row_no: u64 = 0;
        while start < n && row_no < 5
            invariant
                n == sorted@.len(),
                start == (if 25 * row_no <= n { 25 * row_no } else { n as int }),
                row_no <= 5,
                row_no > 0 ==> 25 * (row_no - 1) < n,
                rows@.len() == row_no,
                forall|k: int| 0 <= k < rows@.len() ==> {
                    &&& (#[trigger] rows@[k]).custom_id@ == row_id(self.custom_id, k)
                    &&& rows@[k].options@ == sorted@.subrange(
                        25 * k,
                        if 25 * k + 25 <= n { 25 * k + 25 } else { n as int },
                    )
                },
            decreases 5 - row_no,
        {
            let end = if n - start > 25 { start + 25 } else { n };
            let mut opts: Vec<MenuOption> = Vec::new();
            let mut k = start;
            while k < end
                invariant
                    start <= k <= end,
                    end <= n,
                    n == sorted@.len(),
                    opts@ == sorted@.subrange(start as int, k as int),
                decreases end - k,
            {
                opts.push(sorted[k].copied());
                k = k + 1;
                proof {
                    assert(opts@ =~= sorted@.subrange(start as int, k as int));
                }
            }
            let mut id = match &self.custom_id {
                Some(c) => c.clone(),
                None => String::from_str("select-row"),
            };
            id.append("-");
            let digits = u64_to_decimal(row_no);
            id.append(digits.as_str());
            rows.push(MenuRow { custom_id: id, options: opts });
            start = end;
            row_no = row_no + 1;
        }
        proof {
            assert(rows@.len() == (if n >= 125 { 5 } else { (n + 24) / 25 }));
        }
        let content = match &self.description {
            Some(d) => d.clone(),
            None => String::from_str("Select an option"),
        };
        MenuLayout { content, rows }
    }

    /// The text of the option with a given key, if the menu has one.
    pub fn chosen(&self, key: &str) -> (r: Option<String>)
        ensures
            match r {
                Some(v) => exists|i: int| 0 <= i < self.options@.len() && (#[trigger] self.options@[i]).key@ == key@
                    && self.options@[i].value@ == v@,
                None => forall|i: int| 0 <= i < self.options@.len() ==> (#[trigger] self.options@[i]).key@ != key@,
            },
    {
        let mut i: usize = 0;
        while i < self.options.len()
            invariant
                i <= self.options@.len(),
                forall|j: int| 0 <= j < i ==> (#[trigger] self.options@[j]).key@ != key@,
            decreases self.options@.len() - i,
        {
            if crate::text::str_eq(self.options[i].key.as_str(), key) {
                return Some(self.options[i].value.clone());
            }
            i = i + 1;
        }
        None
    }

    /// The handler that waits for the choice: a string select, of the menu's user
    /// and with the menu's custom id, when they are set.
    pub fn interaction_handler<G, F>(&self, handler: G) -> (r: InteractionHandler<G, F>)
        ensures
            r.channel is None,
            r.user == self.user_id,
            r.custom_id == self.custom_id,
            r.interaction_type == Some(InteractionKind::Component),
            r.component_type == Some(ComponentKind::StringSelect),
            r.handler == handler,
            r.filter is None,
    {
        let b = InteractionHandler::builder(handler).set_component_type(ComponentKind::StringSelect);
        let b = match self.user_id {
            Some(u) => b.set_user(u),
            None => b,
        };
        let b = match &self.custom_id {
            Some(c) => b.set_custom_id(c.clone()),
            None => b,
        };
        b.inner
    }
}

/// Builds a [`SelectMenu`].
#[derive(Debug, Clone)]
pub struct SelectMenuBuilder<H> {
    pub inner: SelectMenu<H>,
}

impl<H> SelectMenuBuilder<H> {
    /// A menu with no option, description, user or custom id yet.
    pub fn new(handler: H) -> (r: Self)
        ensures
            r.inner.description is None && r.inner.user_id is None && r.inner.custom_id is None,
            r.inner.options@.len() == 0 && !r.inner.ephemeral,
            r.inner.handler == handler,
    {
        SelectMenuBuilder {
            inner: SelectMenu {
                description: None,
                user_id: None,
                options: Vec::new(),
                ephemeral: false,
                custom_id: None,
                handler,
            },
        }
    }

    /// The menu; refused without options or with more than 125 (five rows of 25),
    /// and then without a custom id.
    pub fn build(self) -> (r: Result<SelectMenu<H>, String>)
        ensures
            (self.inner.options@.len() == 0 || self.inner.options@.len() > 125) ==> (r matches Err(m)
                && m@ == "Unsupported amount of options in a select menu"@),
            (1 <= self.inner.options@.len() <= 125 && self.inner.custom_id is None) ==> (r matches Err(
                m,
            ) && m@ == "a custom_id is required"@),
            (1 <= self.inner.options@.len() <= 125 && self.inner.custom_id is Some) ==> r == Ok::<
                SelectMenu<H>,
                String,
            >(self.inner),
    {
        if self.inner.options.len() == 0 || self.inner.options.len() > 125 {
            return Err(String::from_str("Unsupported amount of options in a select menu"));
        }
        if self.inner.custom_id.is_none() {
            return Err(String::from_str("a custom_id is required"));
        }
        Ok(self.inner)
    }

    /// Sets the text above the menu.
    pub fn set_description(self, description: &str) -> (r: Self)
        ensures
            r.inner.description matches Some(d) && d@ == description@,
            r.inner == (SelectMenu { description: r.inner.description, ..self.inner }),
    {
        Self { inner: SelectMenu { description: Some(String::from_str(description)), ..self.inner } }
    }

    /// Sets the custom id.
    pub fn set_custom_id(self, custom_id: &str) -> (r: Self)
        ensures
            r.inner.custom_id matches Some(c) && c@ == custom_id@,
            r.inner == (SelectMenu { custom_id: r.inner.custom_id, ..self.inner }),
    {
        Self { inner: SelectMenu { custom_id: Some(String::from_str(custom_id)), ..self.inner } }
    }

    /// Lets one user choose only.
    pub fn set_user(self, user_id: u64) -> (r: Self)
        ensures
            r.inner == (SelectMenu { user_id: Some(user_id), ..self.inner }),
    {
        Self { inner: SelectMenu { user_id: Some(user_id), ..self.inner } }
    }

    /// Sets the options, kept as a map keyed by their keys: one option per key,
    /// as [`options_map`] says.
    pub fn set_options(self, options: Vec<MenuOption>) -> (r: Self)
        ensures
            distinct_keys(r.inner.options@),
            forall|k: Seq<char>| #[trigger] last_value(r.inner.options@, k) == last_value(options@, k),
            r.inner == (SelectMenu { options: r.inner.options, ..self.inner }),
    {
        let options = options_map(options);
        Self { inner: SelectMenu { options, ..self.inner } }
    }

    /// Shows the menu to the user who interacted only.
    pub fn make_ephemeral(self) -> (r: Self)
        ensures
            r.inner == (SelectMenu { ephemeral: true, ..self.inner }),
    {
        Self { inner: SelectMenu { ephemeral: true, ..self.inner } }
    }
}

/// The style of a text input.
#[derive(Debug, Clone, Copy, PartialEq, Eq, Structural)]
pub enum InputTextStyle {
    Short,
    Paragraph,
}

/// A text input of a modal.
#[derive(Debug, Clone)]
pub struct Field {
    pub style: InputTextStyle,
    pub custom_id: String,
    pub label: String,
    pub required: Option<bool>,
    pub min_length: Option<u16>,
    pub max_length: Option<u16>,
    pub placeholder: Option<String>,
}

impl Field {
    /// A text input with a custom id and a label.
    pub fn new(style: InputTextStyle, custom_id: &str, label: &str) -> (r: Field)
        ensures
            r.style == style && r.custom_id@ == custom_id@ && r.label@ == label@,
            r.required is None && r.min_length is None && r.max_length is None && r.placeholder is None,
    {
        Field {
            style,
            custom_id: String::from_str(custom_id),
            label: String::from_str(label),
            required: None,
            min_length: None,
            max_length: None,
            placeholder: None,
        }
    }

    /// Makes the input required.
    pub fn set_required(self) -> (r: Field)
        ensures
            r == (Field { required: Some(true), ..self }),
    {
        Field { required: Some(true), ..self }
    }

    /// Sets the least number of characters.
    pub fn set_min_length(self, min_length: u16) -> (r: Field)
        ensures
            r == (Field { min_length: Some(min_length), ..self }),
    {
        Field { min_length: Some(min_length), ..self }
    }

    /// Sets the largest number of characters.
    pub fn set_max_length(self, max_length: u16) -> (r: Field)
        ensures
            r == (Field { max_length: Some(max_length), ..self }),
    {
        Field { max_length: Some(max_length), ..self }
    }

    /// Sets the text shown while the input is empty.
    pub fn set_placeholder(self, placeholder: &str) -> (r: Field)
        ensures
            r.placeholder matches Some(p) && p@ == placeholder@,
            r == (Field { placeholder: r.placeholder, ..self }),
    {
        Field { placeholder: Some(String::from_str(placeholder)), ..self }
    }

    /// A copy of this input.
    pub fn copied(&self) -> (r: Field)
        ensures
            r == *self,
    {
        Field {
            style: self.style,
            custom_id: self.custom_id.clone(),
            label: self.label.clone(),
            required: self.required,
            min_length: self.min_length,
            max_length: self.max_length,
            placeholder: copy_text(&self.placeholder),
        }
    }
}

/// A modal form; `handler` runs with the custom ids and values of its inputs.
#[derive(Debug, Clone)]
pub struct Modal<H> {
    pub title: Option<String>,
    pub user_id: Option<u64>,
    pub fields: Vec<Field>,
    pub custom_id: Option<String>,
    pub handler: H,
}

/// A component of a submitted modal.
#[derive(Debug, Clone)]
pub enum SubmittedComponent {
    InputText { custom_id: String, value: Option<String> },
    Other,
}

/// The filled-in inputs of a row of a submitted modal, as (custom id, value).
pub open spec fn row_values(row: Seq<SubmittedComponent>) -> Seq<(Seq<char>, Seq<char>)>
    decreases row.len(),
{
    if row.len() == 0 {
        Seq::empty()
    } else {
        row_values(row.drop_last()) + match row.last() {
            SubmittedComponent::InputText { custom_id, value: Some(v) } => seq![(custom_id@, v@)],
            _ => Seq::empty(),
        }
    }
}

/// The filled-in inputs of a submitted modal, row by row.
pub open spec fn submitted_values(rows: Seq<Seq<SubmittedComponent>>) -> Seq<(Seq<char>, Seq<char>)>
    decreases rows.len(),
{
    if rows.len() == 0 {
        Seq::empty()
    } else {
        submitted_values(rows.drop_last()) + row_values(rows.last())
    }
}

/// The (custom id, value) pairs of the filled-in inputs of a submitted modal, in
/// order; inputs left empty and other components are skipped.
pub fn modal_values(rows: &Vec<Vec<SubmittedComponent>>) -> (r: Vec<(String, String)>)
    ensures
        r@.map_values(|p: (String, String)| (p.0@, p.1@)) == submitted_values(
            rows@.map_values(|v: Vec<SubmittedComponent>| v@),
        ),
{
    let ghost view = |p: (String, String)| (p.0@, p.1@);
    let ghost rv = rows@.map_values(|v: Vec<SubmittedComponent>| v@);
    let mut r: Vec<(String, String)> = Vec::new();
    let mut i: usize = 0;
    assert(rv.take(0) =~= Seq::<Seq<SubmittedComponent>>::empty());
    while i < rows.len()
        invariant
            i <= rows@.len(),
            rv == rows@.map_values(|v: Vec<SubmittedComponent>| v@),
            view == (|p: (String, String)| (p.0@, p.1@)),
            r@.map_values(view) == submitted_values(rv.take(i as int)),
        decreases rows@.len() - i,
    {
        let row = &rows[i];
        let ghost before = r@.map_values(view);
        let mut k: usize = 0;
        assert(row@.take(0) =~= Seq::<SubmittedComponent>::empty());
        while k < row.len()
            invariant
                k <= row@.len(),
                view == (|p: (String, String)| (p.0@, p.1@)),
                r@.map_values(view) == before + row_values(row@.take(k as int)),
            decreases row@.len() - k,
        {
            let ghost prev = r@;
            match &row[k] {
                SubmittedComponent::InputText { custom_id, value: Some(v) } => {
                    r.push((custom_id.clone(), v.clone()));
                    assert(r@.map_values(view) =~= prev.map_values(view).push((custom_id@, v@)));
                },
                _ => {
                    assert(r@.map_values(view) =~= prev.map_values(view));
                },
            }
            assert(row@.take(k + 1).drop_last() =~= row@.take(k as int));
            k = k + 1;
            assert(r@.map_values(view) =~= before + row_values(row@.take(k as int)));
        }
        assert(row@.take(row@.len() as int) =~= row@);
        assert(rv.take(i + 1).drop_last() =~= rv.take(i as int));
        assert(rv.take(i + 1).last() == row@);
        i = i + 1;
    }
    assert(rv.take(rows@.len() as int) =~= rv);
    r
}

impl<H> Modal<H> {
    /// Starts building a modal whose answer runs `handler`.
    pub fn builder(handler: H) -> (r: ModalBuilder<H>)
        ensures
            r.inner.title is None && r.inner.user_id is None && r.inner.custom_id is None,
            r.inner.fields@.len() == 0,
            r.inner.handler == handler,
    {
        ModalBuilder::new(handler)
    }

    /// The response that opens the modal: its title (or "Modal"), a row for each
    /// input, in order, and its custom id when it has one.
    pub fn response<E>(&self) -> (r: InteractionResponseBuilder<E, Field>)
        ensures
            r.kind == InteractionBuilderKind::Modal,
            r.content matches Some(t) && t@ == (match self.title {
                Some(t) => t@,
                None => "Modal"@,
            }),
            r.components@ == self.fields@,
            r.custom_id == self.custom_id,
            r.embed is None,
            !r.ephemeral,
    {
        let title = match &self.title {
            Some(t) => t.clone(),
            None => String::from_str("Modal"),
        };
        let mut rows: Vec<Field> = Vec::new();
        let mut i: usize = 0;
        while i < self.fields.len()
            invariant
                i <= self.fields@.len(),
                rows@ == self.fields@.take(i as int),
            decreases self.fields@.len() - i,
        {
            rows.push(self.fields[i].copied());
            i = i + 1;
            proof {
                assert(rows@ =~= self.fields@.take(i as int));
            }
        }
        assert(rows@ =~= self.fields@);
        InteractionResponseBuilder {
            custom_id: copy_text(&self.custom_id),
            content: Some(title),
            embed: None,
            components: rows,
            kind: InteractionBuilderKind::Modal,
            ephemeral: false,
        }
    }

    /// The handler that waits for the submitted modal, of the modal's user and with
    /// its custom id, when they are set.
    pub fn interaction_handler<G, F>(&self, handler: G) -> (r: InteractionHandler<G, F>)
        ensures
            r.channel is None,
            r.user == self.user_id,
            r.custom_id == self.custom_id,
            r.interaction_type == Some(InteractionKind::Modal),
            r.component_type is None,
            r.handler == handler,
            r.filter is None,
    {
        let b = InteractionHandler::builder(handler).set_interaction_type(InteractionKind::Modal);
        let b = match self.user_id {
            Some(u) => b.set_user(u),
            None => b,
        };
        let b = match &self.custom_id {
            Some(c) => b.set_custom_id(c.clone()),
            None => b,
        };
        b.inner
    }
}

/// Builds a [`Modal`].
#[derive(Debug, Clone)]
pub struct ModalBuilder<H> {
    pub inner: Modal<H>,
}

impl<H> ModalBuilder<H> {
    /// A modal with no input, title, user or custom id yet.
    pub fn new(handler: H) -> (r: Self)
        ensures
            r.inner.title is None && r.inner.user_id is None && r.inner.custom_id is None,
            r.inner.fields@.len() == 0,
            r.inner.handler == handler,
    {
        ModalBuilder {
            inner: Modal { title: None, user_id: None, fields: Vec::new(), custom_id: None, handler },
        }
    }

    /// The modal; refused without a custom id.
    pub fn build(self) -> (r: Result<Modal<H>, String>)
        ensures
            self.inner.custom_id is None ==> (r matches Err(m) && m@ == "a custom_id is required"@),
            self.inner.custom_id is Some ==> r == Ok::<Modal<H>, String>(self.inner),
    {
        if self.inner.custom_id.is_none() {
            return Err(String::from_str("a custom_id is required"));
        }
        Ok(self.inner)
    }

    /// Sets the title.
    pub fn set_title(self, title: &str) -> (r: Self)
        ensures
            r.inner.title matches Some(t) && t@ == title@,
            r.inner == (Modal { title: r.inner.title, ..self.inner }),
    {
        Self { inner: Modal { title: Some(String::from_str(title)), ..self.inner } }
    }

    /// Sets the custom id.
    pub fn set_custom_id(self, custom_id: &str) -> (r: Self)
        ensures
            r.inner.custom_id matches Some(c) && c@ == custom_id@,
            r.inner == (Modal { custom_id: r.inner.custom_id, ..self.inner }),
    {
        Self { inner: Modal { custom_id: Some(String::from_str(custom_id)), ..self.inner } }
    }

    /// Lets one user answer only.
    pub fn set_user(self, user_id: u64) -> (r: Self)
        ensures
            r.inner == (Modal { user_id: Some(user_id), ..self.inner }),
    {
        Self { inner: Modal { user_id: Some(user_id), ..self.inner } }
    }

    /// Adds an input below the others.
    pub fn add_field(self, field: Field) -> (r: Self)
        ensures
            r.inner.fields@ == self.inner.fields@.push(field),
            r.inner == (Modal { fields: r.inner.fields, ..self.inner }),
    {
        let mut fields = self.inner.fields;
        fields.push(field);
        Self { inner: Modal { fields, ..self.inner } }
    }
}

} // verus!
