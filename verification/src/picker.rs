//! What the picker decides: which symbols are listed, and what each message
//! from the window does to the picker and asks of the window.
//!
//! The window itself is not here. It turns its events into messages, hands
//! them to `Picker::update`, and carries out the action that comes back.

use vstd::prelude::*;
use crate::catalog::{entries_in_group, group_members, indices, resolved, SymbolEntry};
use crate::history::{promoted, BmojiOptions};

verus! {

/// The tabs of the picker.
#[derive(Clone, Copy, Debug, PartialEq, Eq, Structural)]
pub enum EmojiCategory {
    History,
    Activities,
    AnimalsAndNature,
    Flags,
    FoodAndDrink,
    Objects,
    PeopleAndBody,
    SmileysAndEmotion,
    Symbols,
    TravelAndPlaces,
}

/// The catalog group that a tab lists; the history tab lists no group.
pub open spec fn group_name(category: EmojiCategory) -> Option<Seq<char>> {
    match category {
        EmojiCategory::History => None,
        EmojiCategory::Activities => Some("Activities"@),
        EmojiCategory::AnimalsAndNature => Some("Animals & Nature"@),
        EmojiCategory::Flags => Some("Flags"@),
        EmojiCategory::FoodAndDrink => Some("Food & Drink"@),
        EmojiCategory::Objects => Some("Objects"@),
        EmojiCategory::PeopleAndBody => Some("People & Body"@),
        EmojiCategory::SmileysAndEmotion => Some("Smileys & Emotion"@),
        EmojiCategory::Symbols => Some("Symbols"@),
        EmojiCategory::TravelAndPlaces => Some("Travel & Places"@),
    }
}

impl EmojiCategory {
    /// The catalog group that the tab lists; the history tab lists no
    /// group.
    pub fn group(&self) -> (r: Option<&'static str>)
        ensures
            match r {
                Some(name) => group_name(*self) == Some(name@),
                None => group_name(*self) is None,
            },
    {
        match self {
            EmojiCategory::History => None,
            EmojiCategory::Activities => Some("Activities"),
            EmojiCategory::AnimalsAndNature => Some("Animals & Nature"),
            EmojiCategory::Flags => Some("Flags"),
            EmojiCategory::FoodAndDrink => Some("Food & Drink"),
            EmojiCategory::Objects => Some("Objects"),
            EmojiCategory::PeopleAndBody => Some("People & Body"),
            EmojiCategory::SmileysAndEmotion => Some("Smileys & Emotion"),
            EmojiCategory::Symbols => Some("Symbols"),
            EmojiCategory::TravelAndPlaces => Some("Travel & Places"),
        }
    }

    /// The tab shown at start: the history where something was picked
    /// before, the smileys otherwise.
    pub fn initial(history_is_empty: bool) -> (r: EmojiCategory)
        ensures
            r == if history_is_empty {
                EmojiCategory::SmileysAndEmotion
            } else {
                EmojiCategory::History
            },
    {
        if history_is_empty {
            EmojiCategory::SmileysAndEmotion
        } else {
            EmojiCategory::History
        }
    }
}

/// A symbol on offer: an entry of the catalog, or one variant of an entry.
#[derive(Clone, Copy, Debug, PartialEq, Eq, Structural)]
pub enum Item {
    /// The entry at this position of the catalog.
    Entry(usize),
    /// Of the entry at the first position, the variant at the second.
    Variant(usize, usize),
}

/// Whether the catalog holds the item.
pub open spec fn item_in(catalog: Seq<SymbolEntry>, item: Item) -> bool {
    match item {
        Item::Entry(at) => at < catalog.len(),
        Item::Variant(of, at) => of < catalog.len() && at < catalog[of as int].variants@.len(),
    }
}

/// The key of an item that the catalog holds.
pub open spec fn item_key(catalog: Seq<SymbolEntry>, item: Item) -> Seq<char> {
    match item {
        Item::Entry(at) => catalog[at as int].key@,
        Item::Variant(of, at) => catalog[of as int].variants@[at as int].key@,
    }
}

/// Whether picking the item offers its variants instead of the item: it
/// is an entry, and it has variants.
pub open spec fn offers_variants(catalog: Seq<SymbolEntry>, item: Item) -> bool {
    match item {
        Item::Entry(at) => at < catalog.len() && catalog[at as int].variants@.len() > 0,
        Item::Variant(_, _) => false,
    }
}

/// The entries at the given positions, as items.
pub open spec fn entry_items(positions: Seq<int>) -> Seq<Item> {
    Seq::new(positions.len(), |i: int| Item::Entry(positions[i] as usize))
}

/// The variants of the entry at `of`, as items; none where the catalog has
/// no such entry.
pub open spec fn variant_items(catalog: Seq<SymbolEntry>, of: usize) -> Seq<Item> {
    if of < catalog.len() {
        Seq::new(catalog[of as int].variants@.len(), |i: int| Item::Variant(of, i as usize))
    } else {
        Seq::empty()
    }
}

/// What the picker holds, as values.
pub struct PickerModel {
    pub has_been_interacted: bool,
    pub search_query: Seq<char>,
    pub variant_picker: Option<usize>,
    pub category: EmojiCategory,
    pub history: Seq<Seq<char>>,
}

/// The items on offer. While the variants of an entry are offered, they
/// are the list. Otherwise, an empty search text lists the shown tab: the
/// history, or the entries of the tab's group that are not variants; any
/// other search text lists what the search found.
pub open spec fn listed(picker: PickerModel, catalog: Seq<SymbolEntry>, found: Seq<int>) -> Seq<
    Item,
> {
    match picker.variant_picker {
        Some(of) => variant_items(catalog, of),
        None => if picker.search_query.len() == 0 {
            match group_name(picker.category) {
                None => entry_items(resolved(catalog, picker.history)),
                Some(group) => entry_items(group_members(catalog, group)),
            }
        } else {
            entry_items(found)
        },
    }
}

/// The first of the items, if there is one.
pub open spec fn first_of(items: Seq<Item>) -> Option<Item> {
    if items.len() > 0 {
        Some(items[0])
    } else {
        None
    }
}

/// What the window reports, as far as the picker tells events apart.
#[derive(Clone, Copy, Debug, PartialEq, Eq, Structural)]
pub enum InputEvent {
    /// The escape key was released.
    EscapeReleased,
    /// The enter key was released.
    EnterReleased,
    /// The left mouse button was pressed.
    LeftButtonPressed,
    /// The window gained the focus.
    WindowFocused,
    /// The window lost the focus.
    WindowUnfocused,
    /// The pointer moved.
    CursorMoved,
    /// A modifier key changed.
    ModifiersChanged,
    /// The pointer entered the window.
    CursorEntered,
    /// Any other event of the mouse.
    Mouse,
    /// Any other event of the keyboard.
    Keyboard,
    /// A touch.
    Touch,
    /// Anything else.
    Other,
}

/// What happened.
#[derive(Debug)]
pub enum BmojiMessage {
    /// The search text changed.
    Search(String),
    /// The search text was submitted.
    OnSearchEnter,
    /// The symbol with this key was chosen.
    Glyph(String),
    /// The variants of the entry at this position were asked for.
    ShowGlyphVariants(usize),
    /// The window reported an event.
    Event(InputEvent),
    /// Another tab was chosen.
    CategoryChanged(EmojiCategory),
}

/// A message, as values.
pub enum MessageModel {
    Search(Seq<char>),
    OnSearchEnter,
    Glyph(Seq<char>),
    ShowGlyphVariants(usize),
    Event(InputEvent),
    CategoryChanged(EmojiCategory),
}

impl View for BmojiMessage {
    type V = MessageModel;

    open spec fn view(&self) -> MessageModel {
        match *self {
            BmojiMessage::Search(text) => MessageModel::Search(text@),
            BmojiMessage::OnSearchEnter => MessageModel::OnSearchEnter,
            BmojiMessage::Glyph(key) => MessageModel::Glyph(key@),
            BmojiMessage::ShowGlyphVariants(of) => MessageModel::ShowGlyphVariants(of),
            BmojiMessage::Event(event) => MessageModel::Event(event),
            BmojiMessage::CategoryChanged(category) => MessageModel::CategoryChanged(category),
        }
    }
}

/// What the picker asks of the window.
#[derive(Debug)]
pub enum Action {
    /// Nothing.
    Nothing,
    /// Put the focus on the search field.
    FocusSearch,
    /// Bring the window to the front.
    GainFocus,
    /// Write the options out and close the window.
    SaveAndQuit,
    /// Put the key on the clipboard, write the options out and close the
    /// window.
    CopyAndQuit(String),
}

/// An action, as values.
pub enum ActionModel {
    Nothing,
    FocusSearch,
    GainFocus,
    SaveAndQuit,
    CopyAndQuit(Seq<char>),
}

impl View for Action {
    type V = ActionModel;

    open spec fn view(&self) -> ActionModel {
        match *self {
            Action::Nothing => ActionModel::Nothing,
            Action::FocusSearch => ActionModel::FocusSearch,
            Action::GainFocus => ActionModel::GainFocus,
            Action::SaveAndQuit => ActionModel::SaveAndQuit,
            Action::CopyAndQuit(key) => ActionModel::CopyAndQuit(key@),
        }
    }
}

/// Whether the message confirms the first item on offer.
pub open spec fn confirms(message: MessageModel) -> bool {
    message is OnSearchEnter || message == MessageModel::Event(InputEvent::EnterReleased)
}

/// The key that the message picks for good, if it picks one: the key it
/// names, or the key of the first item on offer, where that item is in the
/// catalog and does not offer variants instead.
pub open spec fn picked_key(
    message: MessageModel,
    catalog: Seq<SymbolEntry>,
    first: Option<Item>,
) -> Option<Seq<char>> {
    match message {
        MessageModel::Glyph(key) => Some(key),
        _ => if confirms(message) && first is Some && item_in(catalog, first->0)
            && !offers_variants(catalog, first->0) {
            Some(item_key(catalog, first->0))
        } else {
            None
        },
    }
}

/// Whether the message counts as the user having done something.
pub open spec fn is_interaction(message: MessageModel) -> bool {
    match message {
        MessageModel::Search(_) => true,
        MessageModel::OnSearchEnter => true,
        MessageModel::Glyph(_) => false,
        MessageModel::ShowGlyphVariants(_) => true,
        MessageModel::CategoryChanged(_) => true,
        MessageModel::Event(event) => match event {
            InputEvent::EnterReleased => true,
            InputEvent::LeftButtonPressed => true,
            InputEvent::Mouse => true,
            InputEvent::Keyboard => true,
            InputEvent::Touch => true,
            _ => false,
        },
    }
}

/// The entry whose variants are offered after the message.
pub open spec fn next_variant_picker(
    picker: PickerModel,
    message: MessageModel,
    catalog: Seq<SymbolEntry>,
    first: Option<Item>,
) -> Option<usize> {
    match message {
        MessageModel::Search(_) => None,
        MessageModel::CategoryChanged(_) => None,
        MessageModel::Event(InputEvent::LeftButtonPressed) => None,
        MessageModel::ShowGlyphVariants(of) => Some(of),
        _ => if confirms(message) && first is Some && offers_variants(catalog, first->0) {
            match first->0 {
                Item::Entry(at) => Some(at),
                Item::Variant(_, _) => picker.variant_picker,
            }
        } else {
            picker.variant_picker
        },
    }
}

/// The picker after a message.
pub open spec fn next_picker(
    picker: PickerModel,
    message: MessageModel,
    catalog: Seq<SymbolEntry>,
    first: Option<Item>,
) -> PickerModel {
    PickerModel {
        has_been_interacted: picker.has_been_interacted || is_interaction(message),
        search_query: match message {
            MessageModel::Search(text) => text,
            _ => picker.search_query,
        },
        variant_picker: next_variant_picker(picker, message, catalog, first),
        category: match message {
            MessageModel::CategoryChanged(category) => category,
            _ => picker.category,
        },
        history: match picked_key(message, catalog, first) {
            Some(key) => promoted(picker.history, key),
            None => picker.history,
        },
    }
}

/// What a message asks of the window.
pub open spec fn action_for(
    picker: PickerModel,
    message: MessageModel,
    catalog: Seq<SymbolEntry>,
    first: Option<Item>,
) -> ActionModel {
    match picked_key(message, catalog, first) {
        Some(key) => ActionModel::CopyAndQuit(key),
        None => match message {
            MessageModel::Search(_) => ActionModel::FocusSearch,
            MessageModel::CategoryChanged(_) => ActionModel::FocusSearch,
            MessageModel::Event(InputEvent::LeftButtonPressed) => ActionModel::FocusSearch,
            MessageModel::Event(InputEvent::EscapeReleased) => ActionModel::SaveAndQuit,
            MessageModel::Event(InputEvent::WindowUnfocused) => if picker.has_been_interacted {
                ActionModel::SaveAndQuit
            } else {
                ActionModel::Nothing
            },
            MessageModel::Event(InputEvent::CursorEntered) => ActionModel::GainFocus,
            _ => ActionModel::Nothing,
        },
    }
}

/// The picker: what was typed, what is shown, and what is kept.
#[derive(Debug)]
pub struct Picker {
    /// Whether the user has done anything yet.
    pub has_been_interacted: bool,
    /// The search text.
    pub search_query: String,
    /// The entry whose variants are offered, if any are.
    pub variant_picker: Option<usize>,
    /// The tab that is shown.
    pub category: EmojiCategory,
    /// What is kept between runs.
    pub options: BmojiOptions,
}

impl View for Picker {
    type V = PickerModel;

    open spec fn view(&self) -> PickerModel {
        PickerModel {
            has_been_interacted: self.has_been_interacted,
            search_query: self.search_query@,
            variant_picker: self.variant_picker,
            category: self.category,
            history: self.options.history@,
        }
    }
}

/// The entries at the given positions, as items.
pub fn items_of(positions: &Vec<usize>) -> (r: Vec<Item>)
    ensures
        r@ == entry_items(indices(positions@)),
{
    let mut out: Vec<Item> = Vec::new();
    let mut i: usize = 0;
    while i < positions.len()
        invariant
            i <= positions.len(),
            out@.len() == i,
            forall|j: int| 0 <= j < i ==> out@[j] == Item::Entry(positions@[j]),
        decreases positions.len() - i,
    {
        out.push(Item::Entry(positions[i]));
        i += 1;
    }
    assert(out@ =~= entry_items(indices(positions@)));
    out
}

/// The variants of the entry at `of`, as items.
pub fn variants_of(catalog: &Vec<SymbolEntry>, of: usize) -> (r: Vec<Item>)
    ensures
        r@ == variant_items(catalog@, of),
{
    let mut out: Vec<Item> = Vec::new();
    if of < catalog.len() {
        let count: usize = catalog[of].variants.len();
        let mut i: usize = 0;
        while i < count
            invariant
                i <= count,
                of < catalog.len(),
                count == catalog@[of as int].variants@.len(),
                out@.len() == i,
                forall|j: int| 0 <= j < i ==> out@[j] == Item::Variant(of, j as usize),
            decreases count - i,
        {
            out.push(Item::Variant(of, i));
            i += 1;
        }
    }
    assert(out@ =~= variant_items(catalog@, of));
    out
}

/// The key of an item; `None` where the catalog does not hold the item.
pub fn key_of<'a>(catalog: &'a Vec<SymbolEntry>, item: Item) -> (r: Option<&'a str>)
    ensures
        match r {
            Some(key) => item_in(catalog@, item) && key@ == item_key(catalog@, item),
            None => !item_in(catalog@, item),
        },
{
    match item {
        Item::Entry(at) => {
            if at < catalog.len() {
                Some(catalog[at].key.as_str())
            } else {
                None
            }
        },
        Item::Variant(of, at) => {
            if of < catalog.len() && at < catalog[of].variants.len() {
                Some(catalog[of].variants[at].key.as_str())
            } else {
                None
            }
        },
    }
}

/// Whether picking the item offers its variants instead.
pub fn has_variants(catalog: &Vec<SymbolEntry>, item: Item) -> (r: bool)
    ensures
        r == offers_variants(catalog@, item),
{
    match item {
        Item::Entry(at) => at < catalog.len() && catalog[at].variants.len() > 0,
        Item::Variant(_, _) => false,
    }
}

impl Picker {
    /// The picker at start, with the options that were kept.
    pub fn new(options: BmojiOptions) -> (r: Picker)
        ensures
            r@ == (PickerModel {
                has_been_interacted: false,
                search_query: Seq::empty(),
                variant_picker: None,
                category: if options.history@.len() == 0 {
                    EmojiCategory::SmileysAndEmotion
                } else {
                    EmojiCategory::History
                },
                history: options.history@,
            }),
    {
        let category = EmojiCategory::initial(options.history.is_empty());
        Picker {
            has_been_interacted: false,
            search_query: String::new(),
            variant_picker: None,
            category,
            options,
        }
    }

    /// Whether the list on offer is what a search finds, so that a search
    /// has to run before `current_list`.
    pub fn needs_search(&self) -> (r: bool)
        ensures
            r == (self@.variant_picker is None && self@.search_query.len() > 0),
    {
        self.variant_picker.is_none() && !self.search_query.as_str().is_empty()
    }

    /// The items on offer and the first of them, which the enter key
    /// confirms. `found` is what the search found for the search text; it
    /// is looked at only where `needs_search` holds.
    pub fn current_list(&self, catalog: &Vec<SymbolEntry>, found: &Vec<usize>) -> (r: (
        Vec<Item>,
        Option<Item>,
    ))
        ensures
            r.0@ == listed(self@, catalog@, indices(found@)),
            r.1 == first_of(r.0@),
    {
        let items = match self.variant_picker {
            Some(of) => variants_of(catalog, of),
            None => {
                if self.search_query.as_str().is_empty() {
                    match self.category.group() {
                        None => items_of(&self.options.history.emojis(catalog)),
                        Some(group) => items_of(&entries_in_group(catalog, group)),
                    }
                } else {
                    items_of(found)
                }
            },
        };
        let first = if items.len() > 0 {
            Some(items[0])
        } else {
            None
        };
        (items, first)
    }

    /// Takes a message in: changes the picker and says what the window is
    /// to do. `first` is the first item on offer, as `current_list` gave
    /// it.
    pub fn update(
        &mut self,
        message: BmojiMessage,
        catalog: &Vec<SymbolEntry>,
        first: Option<Item>,
    ) -> (r: Action)
        ensures
            final(self)@ == next_picker(old(self)@, message@, catalog@, first),
            r@ == action_for(old(self)@, message@, catalog@, first),
    {
        match message {
            BmojiMessage::Search(query) => {
                self.search_query = query;
                self.variant_picker = None;
                self.has_been_interacted = true;
                Action::FocusSearch
            },
            BmojiMessage::Glyph(glyph) => self.copy_and_quit(glyph),
            BmojiMessage::ShowGlyphVariants(of) => {
                self.has_been_interacted = true;
                self.variant_picker = Some(of);
                Action::Nothing
            },
            BmojiMessage::CategoryChanged(category) => {
                self.category = category;
                self.variant_picker = None;
                self.has_been_interacted = true;
                Action::FocusSearch
            },
            BmojiMessage::OnSearchEnter => self.confirm(catalog, first),
            BmojiMessage::Event(event) => {
                match event {
                    InputEvent::EscapeReleased => Action::SaveAndQuit,
                    InputEvent::EnterReleased => self.confirm(catalog, first),
                    InputEvent::LeftButtonPressed => {
                        self.variant_picker = None;
                        self.has_been_interacted = true;
                        Action::FocusSearch
                    },
                    InputEvent::WindowFocused => Action::Nothing,
                    InputEvent::WindowUnfocused => {
                        if self.has_been_interacted {
                            Action::SaveAndQuit
                        } else {
                            Action::Nothing
                        }
                    },
                    InputEvent::CursorMoved => Action::Nothing,
                    InputEvent::ModifiersChanged => Action::Nothing,
                    InputEvent::CursorEntered => Action::GainFocus,
                    InputEvent::Mouse => {
                        self.has_been_interacted = true;
                        Action::Nothing
                    },
                    InputEvent::Keyboard => {
                        self.has_been_interacted = true;
                        Action::Nothing
                    },
                    InputEvent::Touch => {
                        self.has_been_interacted = true;
                        Action::Nothing
                    },
                    InputEvent::Other => Action::Nothing,
                }
            },
        }
    }

    /// Records the pick and asks for it to be copied.
    pub fn copy_and_quit(&mut self, glyph: String) -> (r: Action)
        ensures
            final(self)@ == (PickerModel {
                history: promoted(old(self)@.history, glyph@),
                ..old(self)@
            }),
            r@ == ActionModel::CopyAndQuit(glyph@),
    {
        self.options.history.add(glyph.clone());
        Action::CopyAndQuit(glyph)
    }

    /// Confirms the first item on offer: picks it, or offers its variants
    /// where it has some.
    pub fn confirm(&mut self, catalog: &Vec<SymbolEntry>, first: Option<Item>) -> (r: Action)
        ensures
            final(self)@ == next_picker(
                old(self)@,
                MessageModel::OnSearchEnter,
                catalog@,
                first,
            ),
            r@ == action_for(old(self)@, MessageModel::OnSearchEnter, catalog@, first),
    {
        self.has_been_interacted = true;
        match first {
            Some(item) => {
                if has_variants(catalog, item) {
                    match item {
                        Item::Entry(at) => {
                            self.variant_picker = Some(at);
                        },
                        Item::Variant(_, _) => {},
                    }
                    Action::Nothing
                } else {
                    match key_of(catalog, item) {
                        Some(key) => {
                            let glyph = String::from_str(key);
                            self.copy_and_quit(glyph)
                        },
                        None => Action::Nothing,
                    }
                }
            },
            None => Action::Nothing,
        }
    }
}

} // verus!
