//! Where each conversation stands, and the store that remembers it.

use crate::domain::MenuItemId;
use std::collections::HashMap;
use vstd::prelude::*;

verus! {

broadcast use vstd::std_specs::hash::group_hash_axioms;

/// Where a conversation stands.
#[derive(Debug, PartialEq, Eq)]
pub enum DialogueState {
    /// Nothing has been chosen yet.
    Start,
    /// The user is inside a submenu; the path holds the items chosen so
    /// far, in the order in which they were chosen.
    ReceivingMenu(Vec<MenuItemId>),
    /// A service has been chosen, and a date is awaited.
    ReceivingDate { order: Vec<MenuItemId> },
    /// A later window of dates is awaited. No transition leads here yet.
    ReceivingDateAfter { order: Vec<MenuItemId> },
}

/// The mathematical value of a [`DialogueState`].
pub enum DialogueStateView {
    Start,
    ReceivingMenu(Seq<MenuItemId>),
    ReceivingDate { order: Seq<MenuItemId> },
    ReceivingDateAfter { order: Seq<MenuItemId> },
}

impl View for DialogueState {
    type V = DialogueStateView;

    open spec fn view(&self) -> DialogueStateView {
        match self {
            DialogueState::Start => DialogueStateView::Start,
            DialogueState::ReceivingMenu(path) => DialogueStateView::ReceivingMenu(path@),
            DialogueState::ReceivingDate { order } => DialogueStateView::ReceivingDate {
                order: order@,
            },
            DialogueState::ReceivingDateAfter { order } => DialogueStateView::ReceivingDateAfter {
                order: order@,
            },
        }
    }
}

/// A copy of a list of identifiers.
pub(crate) fn copy_of(ids: &Vec<MenuItemId>) -> (copy: Vec<MenuItemId>)
    ensures
        copy@ == ids@,
{
    let mut copy: Vec<MenuItemId> = Vec::new();
    let mut at: usize = 0;
    while at < ids.len()
        invariant
            at <= ids@.len(),
            copy@ == ids@.subrange(0, at as int),
        decreases ids@.len() - at,
    {
        copy.push(ids[at]);
        at = at + 1;
    }
    copy
}

impl Clone for DialogueState {
    fn clone(&self) -> (copy: Self)
        ensures
            copy@ == self@,
    {
        match self {
            DialogueState::Start => DialogueState::Start,
            DialogueState::ReceivingMenu(path) => DialogueState::ReceivingMenu(copy_of(path)),
            DialogueState::ReceivingDate { order } => DialogueState::ReceivingDate {
                order: copy_of(order),
            },
            DialogueState::ReceivingDateAfter { order } => DialogueState::ReceivingDateAfter {
                order: copy_of(order),
            },
        }
    }
}

impl Default for DialogueState {
    /// A conversation begins at `Start`.
    fn default() -> (state: Self)
        ensures
            state@ == DialogueStateView::Start,
    {
        DialogueState::Start
    }
}

/// The state of every conversation that has been seen, by the
/// conversation's identifier. Nothing is ever removed, and nothing outlives
/// the store.
pub struct DialogueStateStore {
    states: HashMap<i64, DialogueState>,
}

impl View for DialogueStateStore {
    type V = Map<i64, DialogueStateView>;

    closed spec fn view(&self) -> Map<i64, DialogueStateView> {
        self.states@.map_values(|state: DialogueState| state@)
    }
}

impl DialogueStateStore {
    /// A store that has seen no conversation.
    pub fn new() -> (store: Self)
        ensures
            store@ == Map::<i64, DialogueStateView>::empty(),
    {
        let store = DialogueStateStore { states: HashMap::new() };
        store
    }

    /// The state of a conversation. A conversation that the store has not
    /// seen is at `Start`, and is remembered as such from now on.
    pub fn get_or_default(&mut self, conversation: i64) -> (state: DialogueState)
        ensures
            state@ == if old(self)@.contains_key(conversation) {
                old(self)@[conversation]
            } else {
                DialogueStateView::Start
            },
            final(self)@ == old(self)@.insert(conversation, state@),
    {
        let found: Option<DialogueState> = match self.states.get(&conversation) {
            Some(state) => Some(state.clone()),
            None => None,
        };
        match found {
            Some(state) => state,
            None => {
                self.states.insert(conversation, DialogueState::Start);
                DialogueState::Start
            },
        }
    }

    /// Replaces the state of a conversation. The last write wins.
    pub fn set(&mut self, conversation: i64, state: DialogueState)
        ensures
            final(self)@ == old(self)@.insert(conversation, state@),
    {
        self.states.insert(conversation, state);
    }
}

} // verus!
