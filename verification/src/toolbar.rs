//! The log window's title bar toolbar: which services its picker offers, and which one is picked.
//!
//! The toolbar decides nothing for itself. The entries that its picker offers are rebuilt from the
//! published states every time they change, the same way [`crate::tray`] rebuilds its menu, and
//! every selection is passed straight on to the frontend, as a [`Selection`] it can read as it
//! starts up and an event carrying every change after that.

use vstd::prelude::*;

use crate::logs::{optional_text, updates, Selection};
use crate::names::{copied_list, entries, same_list, texts};
use crate::supervisor::ServiceStates;
use crate::text::{lists_in_order, same_text, sorted_keys};

verus! {

/// What a change to the services on offer leaves for the picker on screen to be set to.
#[derive(Clone, Debug, PartialEq, Eq)]
pub struct Refresh {
    /// The entries the picker should offer.
    pub names: Vec<String>,
    /// The entry it should have picked.
    pub selected: Option<String>,
}

/// What came of taking a list of services.
#[derive(Clone, Debug, PartialEq, Eq)]
pub struct Settlement {
    /// What the picker on screen should be set to, or `None` when it is to be left alone.
    pub refresh: Option<Refresh>,
    /// Whether the selection changed, so that the frontend has to be told about it.
    pub announce: bool,
}

/// The entry that a picker offering `names` settles on: the previous one where it is still on
/// offer, else the first.
pub open spec fn settled(names: Seq<Seq<char>>, previous: Option<Seq<char>>) -> Option<Seq<char>> {
    match previous {
        Some(name) if names.contains(name) => previous,
        _ => if names.len() > 0 {
            Some(names[0])
        } else {
            None
        },
    }
}

/// Takes `names` as the services on offer, recording them in `shown`, settling the selection on
/// one of them and publishing it; answers with what the picker on screen should then be set to.
///
/// A list `shown` already holds is left alone: states are published on every service state change,
/// but only a reload changes which services exist, and rebuilding the entries in the ordinary case
/// would tear them down under an open menu.
///
/// The whole list is replaced rather than patched, because a reload can add and remove services,
/// not just reorder them.
///
/// Publishing before answering is what keeps the picker and the frontend from being set from
/// different values: the only thing the caller has to put in the view is the [`Refresh`] handed
/// back here, which carries the selection that has already gone out. It is also why there being no
/// picker on screen at this moment is harmless: an item built later reads the same published
/// selection back out of [`Selection`].
pub fn settle_services(
    selection: &mut Selection,
    shown: &mut Vec<String>,
    names: &[String],
) -> (settlement: Settlement)
    ensures
        texts(final(shown)@) == texts(names@),
        if texts(old(shown)@) == texts(names@) {
            &&& settlement.refresh is None
            &&& !settlement.announce
            &&& final(selection)@ == old(selection)@
        } else {
            &&& settlement.refresh matches Some(refresh)
            &&& texts(refresh.names@) == texts(names@)
            &&& optional_text(refresh.selected) == settled(texts(names@), old(selection)@)
            &&& final(selection)@ == settled(texts(names@), old(selection)@)
            &&& settlement.announce == (final(selection)@ != old(selection)@)
        },
{
    if same_list(shown.as_slice(), names) {
        return Settlement { refresh: None, announce: false };
    }
    *shown = copied_list(names);
    let previous = selection.current();
    let selected = match &previous {
        Some(previous) => settled_selection(names, Some(previous.as_str())),
        None => settled_selection(names, None),
    };
    let announce = publish(selection, selected.clone());
    Settlement { refresh: Some(Refresh { names: copied_list(names), selected }), announce }
}

/// Publishes `selected` for the frontend. Answers whether it has to be told, which is not so when
/// that is the selection already published.
pub fn publish(selection: &mut Selection, selected: Option<String>) -> (announce: bool)
    ensures
        updates(old(selection)@, optional_text(selected), announce, final(selection)@),
{
    selection.update(selected)
}

/// The entry a picker offering `names` settles on, given the `previous` selection.
///
/// A picker selects the first entry as it is added, so a selection the new list no longer offers
/// becomes the first of that list. This is that rule written down separately, so that it can be
/// applied, and reported to the frontend, at a moment when no picker exists to read it back from.
#[must_use]
pub fn settled_selection(names: &[String], previous: Option<&str>) -> (selected: Option<String>)
    ensures
        optional_text(selected) == settled(
            texts(names@),
            match previous {
                Some(previous) => Some(previous@),
                None => None,
            },
        ),
{
    if let Some(name) = previous {
        let mut i: usize = 0;
        while i < names.len()
            invariant
                i <= names.len(),
                previous == Some(name),
                forall|j: int| 0 <= j < i ==> #[trigger] texts(names@)[j] != name@,
            decreases names.len() - i,
        {
            if same_text(names[i].as_str(), name) {
                assert(texts(names@)[i as int] == name@);
                return Some(name.to_owned());
            }
            i = i + 1;
        }
        assert(!texts(names@).contains(name@));
    }
    if names.len() > 0 {
        assert(texts(names@)[0] == names@[0]@);
        Some(names[0].clone())
    } else {
        None
    }
}

/// Every service name in `states`, sorted.
///
/// The states arrive as a map, so the order they were declared in is not available; sorting keeps
/// the picker's entries from moving under the pointer every time a service changes state, and it
/// is the same order the tray menu lists services in.
#[must_use]
pub fn service_names(states: &ServiceStates) -> (names: Vec<String>)
    ensures
        lists_in_order(texts(names@), entries(*states)),
{
    sorted_keys(states)
}

/// What is picked is on offer, and something is picked whenever anything is.
pub proof fn law_selection_is_on_offer(names: Seq<Seq<char>>, previous: Option<Seq<char>>)
    ensures
        settled(names, previous) matches Some(name) ==> names.contains(name),
        settled(names, previous) is Some <==> names.len() > 0,
{
    if names.len() > 0 {
        assert(names.contains(names[0]));
    }
}

/// Settling twice on one list is settling once: what was picked stays picked.
pub proof fn law_settling_is_stable(names: Seq<Seq<char>>, previous: Option<Seq<char>>)
    ensures
        settled(names, settled(names, previous)) == settled(names, previous),
{
    law_selection_is_on_offer(names, previous);
}

/// A service that is picked stays picked for as long as it is on offer.
pub proof fn law_picked_service_is_kept(names: Seq<Seq<char>>, picked: Seq<char>)
    requires
        names.contains(picked),
    ensures
        settled(names, Some(picked)) == Some(picked),
{
}

/// A selection that is not on offer any more, or was never made, falls to the first service.
pub proof fn law_selection_falls_to_the_first_service(
    names: Seq<Seq<char>>,
    previous: Option<Seq<char>>,
)
    requires
        names.len() > 0,
        previous is None || !names.contains(previous->0),
    ensures
        settled(names, previous) == Some(names.first()),
{
}

} // verus!
