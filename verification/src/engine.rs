//! The navigation engine: what a decoded token does to the state of a
//! conversation, and what is shown next.
//!
//! The engine does no lookups and sends nothing. It answers a click with a
//! [`Reaction`] that tells its caller what to do; after a lookup of a menu
//! item's children the caller hands the result to [`menu_item_selected`],
//! which moves the conversation on and returns the next [`Screen`].

use crate::calendar::{Date, Ymd};
use crate::dialogue::{DialogueState, DialogueStateStore, DialogueStateView};
use crate::domain::{CatalogFailure, MenuItem, MenuItemId, OrgId};
use crate::keyboard::{
    date_picker, is_date_picker_of, is_menu_of, lemma_one_date_picker, lemma_one_menu, make_menu,
    Button, DateButton, DateLabel,
};
use crate::token::{decodes_to, CallbackToken, DecodeError};
use vstd::prelude::*;

verus! {

/// The number of days that a date picker offers.
pub const DATE_WINDOW: usize = 5;

/// The one organization whose catalog is browsed.
pub fn organization() -> (org: OrgId)
    ensures
        org == OrgId(0),
{
    OrgId(0)
}

/// What the caller is to do about a click.
#[derive(Debug, PartialEq, Eq)]
pub enum Reaction {
    /// The click carried no data. Nothing happens.
    EmptyData,
    /// The data is no token. The user is told that the click could not be
    /// processed; no state changes.
    DecodeFailed(DecodeError),
    /// Look up the children of `item`, then call [`menu_item_selected`]
    /// with `path`, `item` and what the lookup gave.
    LookUpChildren { path: Vec<MenuItemId>, item: MenuItemId },
    /// The order is complete: hand it over with its date.
    Finalize { order: Vec<MenuItemId>, date: Date },
    /// The token does not fit the state the conversation is in. The click is
    /// ignored.
    ProtocolViolation { state: DialogueState },
}

/// The mathematical value of a [`Reaction`].
pub enum ReactionView {
    EmptyData,
    DecodeFailed(DecodeError),
    LookUpChildren { path: Seq<MenuItemId>, item: MenuItemId },
    Finalize { order: Seq<MenuItemId>, date: Date },
    ProtocolViolation { state: DialogueStateView },
}

impl View for Reaction {
    type V = ReactionView;

    open spec fn view(&self) -> ReactionView {
        match self {
            Reaction::EmptyData => ReactionView::EmptyData,
            Reaction::DecodeFailed(e) => ReactionView::DecodeFailed(*e),
            Reaction::LookUpChildren { path, item } => ReactionView::LookUpChildren {
                path: path@,
                item: *item,
            },
            Reaction::Finalize { order, date } => ReactionView::Finalize {
                order: order@,
                date: *date,
            },
            Reaction::ProtocolViolation { state } => ReactionView::ProtocolViolation {
                state: state@,
            },
        }
    }
}

/// The state of a conversation in a store: `Start` if the store has not
/// seen it.
pub open spec fn state_of(states: Map<i64, DialogueStateView>, conversation: i64) -> DialogueStateView {
    if states.contains_key(conversation) {
        states[conversation]
    } else {
        DialogueStateView::Start
    }
}

/// The reaction to a token that arrives in a state. A menu selection is
/// answered by a lookup while the user browses; a date selection completes
/// an order that awaits its date; any other pair is a violation.
pub open spec fn routed(state: DialogueStateView, token: CallbackToken) -> ReactionView {
    match (token, state) {
        (
            CallbackToken::MenuSelected { menu_item_id },
            DialogueStateView::Start,
        ) => ReactionView::LookUpChildren { path: Seq::empty(), item: menu_item_id },
        (
            CallbackToken::MenuSelected { menu_item_id },
            DialogueStateView::ReceivingMenu(path),
        ) => ReactionView::LookUpChildren { path, item: menu_item_id },
        (
            CallbackToken::DateSelected { date },
            DialogueStateView::ReceivingDate { order },
        ) => ReactionView::Finalize { order, date },
        _ => ReactionView::ProtocolViolation { state },
    }
}

/// The state that a token leaves a conversation in, before any lookup: a
/// completed order starts the conversation anew, and nothing else changes
/// the state.
pub open spec fn state_after(state: DialogueStateView, token: CallbackToken) -> DialogueStateView {
    match routed(state, token) {
        ReactionView::Finalize { .. } => DialogueStateView::Start,
        _ => state,
    }
}

/// The state that a conversation enters when `item` has been selected
/// after `path` and has `children` children: an item with children opens
/// its submenu, an item without is a service that awaits its date.
pub open spec fn entered(path: Seq<MenuItemId>, item: MenuItemId, children: nat) -> DialogueStateView {
    if children > 0 {
        DialogueStateView::ReceivingMenu(path.push(item))
    } else {
        DialogueStateView::ReceivingDate { order: path.push(item) }
    }
}

/// The reaction to a token in a state.
pub fn route(state: DialogueState, token: CallbackToken) -> (reaction: Reaction)
    ensures
        reaction@ == routed(state@, token),
{
    match token {
        CallbackToken::MenuSelected { menu_item_id } => match state {
            DialogueState::Start => Reaction::LookUpChildren {
                path: Vec::new(),
                item: menu_item_id,
            },
            DialogueState::ReceivingMenu(path) => Reaction::LookUpChildren {
                path,
                item: menu_item_id,
            },
            other => Reaction::ProtocolViolation { state: other },
        },
        CallbackToken::DateSelected { date } => match state {
            DialogueState::ReceivingDate { order } => Reaction::Finalize { order, date },
            other => Reaction::ProtocolViolation { state: other },
        },
    }
}

/// Feeds a token to a conversation.
pub fn advance(store: &mut DialogueStateStore, conversation: i64, token: CallbackToken) -> (reaction:
    Reaction)
    ensures
        reaction@ == routed(state_of(old(store)@, conversation), token),
        final(store)@ == old(store)@.insert(
            conversation,
            state_after(state_of(old(store)@, conversation), token),
        ),
{
    let state = store.get_or_default(conversation);
    let reaction = route(state, token);
    match &reaction {
        Reaction::Finalize { .. } => {
            store.set(conversation, DialogueState::Start);
        },
        _ => {},
    }
    reaction
}

/// Handles a click on a button: decodes its data and feeds the token to
/// the conversation. Data that is no token never reaches the conversation.
pub fn handle_callback_query(
    store: &mut DialogueStateStore,
    conversation: i64,
    data: Option<&str>,
) -> (reaction: Reaction)
    ensures
        match data {
            None => reaction@ == ReactionView::EmptyData && final(store)@ == old(store)@,
            Some(text) => exists|outcome: Result<CallbackToken, DecodeError>| #[trigger]
                decodes_to(text@, outcome) && match outcome {
                    Err(e) => reaction@ == ReactionView::DecodeFailed(e) && final(store)@ == old(
                        store,
                    )@,
                    Ok(token) => {
                        &&& reaction@ == routed(state_of(old(store)@, conversation), token)
                        &&& final(store)@ == old(store)@.insert(
                            conversation,
                            state_after(state_of(old(store)@, conversation), token),
                        )
                    },
                },
        },
{
    match data {
        None => Reaction::EmptyData,
        Some(text) => {
            let outcome = CallbackToken::decode(text);
            match outcome {
                Err(e) => Reaction::DecodeFailed(e),
                Ok(token) => advance(store, conversation, token),
            }
        },
    }
}

/// What is shown next.
#[derive(Debug, PartialEq, Eq)]
pub enum Screen {
    /// The submenu of the selected item.
    Menu(Vec<Button>),
    /// The days to pick from.
    DatePicker(Vec<DateButton>),
}

/// The mathematical value of a [`Screen`]: what each button shows and
/// carries.
pub enum ScreenView {
    Menu(Seq<(Seq<char>, Seq<char>)>),
    DatePicker(Seq<(Ymd, DateLabel, Seq<char>)>),
}

impl View for Screen {
    type V = ScreenView;

    open spec fn view(&self) -> ScreenView {
        match self {
            Screen::Menu(buttons) => ScreenView::Menu(buttons@.map_values(|b: Button| b@)),
            Screen::DatePicker(buttons) => ScreenView::DatePicker(
                buttons@.map_values(|b: DateButton| b@),
            ),
        }
    }
}

/// Whether `screen` is what follows the selection of an item with the
/// given children on the day `today`: the menu of the children, or, for an
/// item without children, the date picker that starts tomorrow.
pub open spec fn shows(screen: Screen, children: Seq<MenuItem>, today: Ymd) -> bool {
    match screen {
        Screen::Menu(buttons) => children.len() > 0 && is_menu_of(buttons@, children),
        Screen::DatePicker(buttons) => children.len() == 0 && is_date_picker_of(
            buttons@,
            today,
            0,
            DATE_WINDOW as int,
        ),
    }
}

/// Moves a conversation on after the lookup that a menu selection asked
/// for. A lookup that failed changes nothing and is handed back.
pub fn menu_item_selected(
    store: &mut DialogueStateStore,
    conversation: i64,
    path: Vec<MenuItemId>,
    item: MenuItemId,
    lookup: Result<Vec<MenuItem>, CatalogFailure>,
    today: Date,
) -> (outcome: Result<Screen, CatalogFailure>)
    ensures
        match lookup {
            Err(failure) => outcome == Err::<Screen, CatalogFailure>(failure) && final(store)@
                == old(store)@,
            Ok(children) => {
                &&& outcome matches Ok(screen) && shows(screen, children@, today@)
                &&& final(store)@ == old(store)@.insert(
                    conversation,
                    entered(path@, item, children@.len()),
                )
            },
        },
{
    let children = match lookup {
        Ok(children) => children,
        Err(failure) => {
            return Err(failure);
        },
    };
    let mut new_items = path;
    new_items.push(item);
    if !children.is_empty() {
        store.set(conversation, DialogueState::ReceivingMenu(new_items));
        Ok(Screen::Menu(make_menu(children.as_slice())))
    } else {
        store.set(conversation, DialogueState::ReceivingDate { order: new_items });
        Ok(Screen::DatePicker(date_picker(today, 0, DATE_WINDOW)))
    }
}

/// An item without children leads to the choice of a date, and only such an
/// item does: no conversation enters an empty submenu.
pub proof fn lemma_leaf_awaits_date(path: Seq<MenuItemId>, item: MenuItemId, children: nat)
    ensures
        children == 0 <==> entered(path, item, children) is ReceivingDate,
        children > 0 <==> entered(path, item, children) is ReceivingMenu,
        entered(path, item, children) == if children == 0 {
            DialogueStateView::ReceivingDate { order: path.push(item) }
        } else {
            DialogueStateView::ReceivingMenu(path.push(item))
        },
{
}

/// The engine is deterministic: what is shown after a selection depends on
/// the children of the selected item and on the day alone. Two screens that
/// follow the same selection are the same.
pub proof fn lemma_one_screen(first: Screen, second: Screen, children: Seq<MenuItem>, today: Ymd)
    requires
        shows(first, children, today),
        shows(second, children, today),
    ensures
        first@ == second@,
{
    match (first, second) {
        (Screen::Menu(a), Screen::Menu(b)) => {
            lemma_one_menu(a@, b@, children);
        },
        (Screen::DatePicker(a), Screen::DatePicker(b)) => {
            lemma_one_date_picker(a@, b@, today, 0, DATE_WINDOW as int);
        },
        _ => {},
    }
}

} // verus!
