//! Which tickets are shown for a selection in the panel of buckets and
//! filters: where they are taken from, and how they are brought together.

use vstd::prelude::*;
use crate::bucket_panel_location::{
    BucketPanelLocation,
    BucketPanelLocationType,
};
use crate::filter::Filter;
use crate::text::texts;
use crate::ticket::Ticket;

verus! {

/// Where tickets are taken from without a filter.
#[derive(PartialEq, Eq, Debug)]
pub enum TicketSource {
    /// All tickets of all adapters.
    All,
    /// All tickets of the adapter with the given name.
    Adapter(String),
}

/// What a ticket source stands for: all adapters, or the name of one.
pub open spec fn source_model(source: TicketSource) -> Option<Seq<char>> {
    match source {
        TicketSource::All => None,
        TicketSource::Adapter(name) => Some(name@),
    }
}

/// What the ticket sources stand for.
pub open spec fn source_models(sources: Seq<TicketSource>) -> Seq<Option<Seq<char>>> {
    sources.map_values(|source: TicketSource| source_model(source))
}

/// What is to be done for a selection in the panel: the sources of which all
/// tickets are taken, in order, and the names of the filters that are then
/// applied.
pub struct SelectionPlan {
    pub sources: Vec<TicketSource>,
    pub filters: Vec<String>,
}

/// Whether the adapter of the given name is selected as a whole.
pub open spec fn adapter_selected(locations: Seq<BucketPanelLocation>, adapter: Seq<char>) -> bool {
    exists|i: int|
        0 <= i < locations.len() && (#[trigger] locations[i]).entry_type
            == BucketPanelLocationType::Adapter && locations[i].adapter@ == adapter
}

/// The plan for the locations from the given one on: the sources and the
/// names of the filters. A reset ends the selection; the selection of all
/// tickets takes them all and ends it; an adapter gives its tickets; a filter
/// is applied; an entry is applied as a filter unless its adapter is selected
/// as a whole.
pub open spec fn planned(locations: Seq<BucketPanelLocation>, from: int) -> (
    Seq<Option<Seq<char>>>,
    Seq<Seq<char>>,
)
    decreases locations.len() - from,
{
    if from < 0 || from >= locations.len() {
        (Seq::empty(), Seq::empty())
    } else {
        let location = locations[from];
        let rest = planned(locations, from + 1);
        match location.entry_type {
            BucketPanelLocationType::Reset => (Seq::empty(), Seq::empty()),
            BucketPanelLocationType::All => (seq![None], Seq::empty()),
            BucketPanelLocationType::Adapter => (seq![Some(location.adapter@)] + rest.0, rest.1),
            BucketPanelLocationType::Entry => if adapter_selected(locations, location.adapter@) {
                rest
            } else {
                (rest.0, seq![location.section@] + rest.1)
            },
            BucketPanelLocationType::Filter => (rest.0, seq![location.section@] + rest.1),
        }
    }
}

/// Whether the adapter of the given name is selected as a whole.
fn is_adapter_selected(locations: &Vec<BucketPanelLocation>, adapter: &String) -> (r: bool)
    ensures
        r == adapter_selected(locations@, adapter@),
{
    let mut i: usize = 0;
    while i < locations.len()
        invariant
            i <= locations.len(),
            forall|j: int|
                0 <= j < i ==> !((#[trigger] locations@[j]).entry_type
                    == BucketPanelLocationType::Adapter && locations@[j].adapter@ == adapter@),
        decreases locations.len() - i,
    {
        if locations[i].entry_type == BucketPanelLocationType::Adapter && locations[i].adapter
            == *adapter {
            return true;
        }
        i += 1;
    }
    false
}

/// Decides what is to be done for a selection in the panel. Nothing where
/// nothing is selected.
pub fn selection_plan(locations: &Vec<BucketPanelLocation>) -> (r: Option<SelectionPlan>)
    ensures
        match r {
            Some(plan) => locations@.len() > 0 && source_models(plan.sources@) == planned(
                locations@,
                0,
            ).0 && texts(plan.filters@) == planned(locations@, 0).1,
            None => locations@.len() == 0,
        },
{
    if locations.len() == 0 {
        return None;
    }
    let mut sources: Vec<TicketSource> = Vec::new();
    let mut filters: Vec<String> = Vec::new();
    let mut i: usize = 0;
    let mut ended = false;
    proof {
        assert(source_models(sources@) + planned(locations@, 0).0 =~= planned(locations@, 0).0);
        assert(texts(filters@) + planned(locations@, 0).1 =~= planned(locations@, 0).1);
    }
    while i < locations.len() && !ended
        invariant
            i <= locations.len(),
            !ended ==> planned(locations@, 0).0 == source_models(sources@) + planned(
                locations@,
                i as int,
            ).0,
            !ended ==> planned(locations@, 0).1 == texts(filters@) + planned(
                locations@,
                i as int,
            ).1,
            ended ==> planned(locations@, 0).0 == source_models(sources@),
            ended ==> planned(locations@, 0).1 == texts(filters@),
        decreases locations.len() - i, !ended as int,
    {
        let location = &locations[i];
        let ghost before_sources = source_models(sources@);
        let ghost before_filters = texts(filters@);
        let ghost rest = planned(locations@, i + 1);
        match location.entry_type {
            BucketPanelLocationType::Reset => {
                ended = true;
                proof {
                    assert(before_sources + Seq::empty() =~= before_sources);
                    assert(before_filters + Seq::empty() =~= before_filters);
                }
            },
            BucketPanelLocationType::All => {
                sources.push(TicketSource::All);
                ended = true;
                proof {
                    assert(source_models(sources@) =~= before_sources + seq![
                        None::<Seq<char>>,
                    ]);
                    assert(before_filters + Seq::empty() =~= before_filters);
                }
            },
            BucketPanelLocationType::Adapter => {
                sources.push(TicketSource::Adapter(location.adapter.clone()));
                proof {
                    assert(source_models(sources@) =~= before_sources.push(
                        Some(location.adapter@),
                    ));
                    assert(before_sources + (seq![Some(location.adapter@)] + rest.0)
                        =~= source_models(sources@) + rest.0);
                }
                i += 1;
            },
            BucketPanelLocationType::Entry => {
                if !is_adapter_selected(locations, &location.adapter) {
                    filters.push(location.section.clone());
                    proof {
                        assert(texts(filters@) =~= before_filters.push(location.section@));
                        assert(before_filters + (seq![location.section@] + rest.1) =~= texts(
                            filters@,
                        ) + rest.1);
                    }
                }
                i += 1;
            },
            BucketPanelLocationType::Filter => {
                filters.push(location.section.clone());
                proof {
                    assert(texts(filters@) =~= before_filters.push(location.section@));
                    assert(before_filters + (seq![location.section@] + rest.1) =~= texts(
                        filters@,
                    ) + rest.1);
                }
                i += 1;
            },
        }
    }
    proof {
        if !ended {
            assert(source_models(sources@) + Seq::empty() =~= source_models(sources@));
            assert(texts(filters@) + Seq::empty() =~= texts(filters@));
        }
    }
    Some(SelectionPlan { sources, filters })
}

/// A list of tickets with one more, behind those whose number is not greater.
pub open spec fn inserted(tickets: Seq<Ticket>, ticket: Ticket) -> Seq<Ticket>
    decreases tickets.len(),
{
    if tickets.len() == 0 {
        seq![ticket]
    } else if tickets.last().id <= ticket.id {
        tickets.push(ticket)
    } else {
        inserted(tickets.drop_last(), ticket).push(tickets.last())
    }
}

/// The tickets in the order of their numbers; those of the same number stay
/// in the order in which they stand.
pub open spec fn sorted_by_id(tickets: Seq<Ticket>) -> Seq<Ticket>
    decreases tickets.len(),
{
    if tickets.len() == 0 {
        tickets
    } else {
        inserted(sorted_by_id(tickets.drop_last()), tickets.last())
    }
}

/// Whether two tickets are the same ticket: of the same adapter, with the
/// same number.
pub open spec fn same_ticket(first: Ticket, second: Ticket) -> bool {
    first.adapter@ == second.adapter@ && first.id == second.id
}

/// The tickets without those that are the same as the one kept before them.
pub open spec fn without_repeats(tickets: Seq<Ticket>) -> Seq<Ticket>
    decreases tickets.len(),
{
    if tickets.len() == 0 {
        tickets
    } else {
        let kept = without_repeats(tickets.drop_last());
        if kept.len() > 0 && same_ticket(kept.last(), tickets.last()) {
            kept
        } else {
            kept.push(tickets.last())
        }
    }
}

/// Whether the numbers of the tickets do not go down.
pub open spec fn in_order_of_id(tickets: Seq<Ticket>) -> bool {
    forall|i: int, j: int| 0 <= i <= j < tickets.len() ==> tickets[i].id <= tickets[j].id
}

/// A ticket put into tickets in order keeps them in order, and adds itself
/// and nothing else.
pub proof fn lemma_inserted(tickets: Seq<Ticket>, ticket: Ticket)
    requires
        in_order_of_id(tickets),
    ensures
        in_order_of_id(inserted(tickets, ticket)),
        inserted(tickets, ticket).len() == tickets.len() + 1,
        inserted(tickets, ticket).to_multiset() == tickets.to_multiset().insert(ticket),
    decreases tickets.len(),
{
    broadcast use vstd::seq_lib::group_to_multiset_ensures;

    if tickets.len() == 0 {
        assert(tickets =~= Seq::empty());
    } else if tickets.last().id <= ticket.id {
        let after = tickets.push(ticket);
        assert forall|i: int, j: int| 0 <= i <= j < after.len() implies after[i].id
            <= after[j].id by {
            if j == tickets.len() && i < tickets.len() {
                assert(tickets[i].id <= tickets[tickets.len() - 1].id);
            }
        }
    } else {
        let init = tickets.drop_last();
        assert forall|i: int, j: int| 0 <= i <= j < init.len() implies init[i].id
            <= init[j].id by {
            assert(tickets[i].id <= tickets[j].id);
        }
        lemma_inserted(init, ticket);
        let middle = inserted(init, ticket);
        let after = middle.push(tickets.last());
        assert(tickets =~= init.push(tickets.last()));
        assert forall|i: int, j: int| 0 <= i <= j < after.len() implies after[i].id
            <= after[j].id by {
            if j == middle.len() && i < middle.len() {
                // every ticket of the middle is the new one or one of the first
                assert(middle.to_multiset().count(middle[i]) > 0);
                if middle[i] != ticket {
                    assert(init.to_multiset().count(middle[i]) > 0);
                    assert(init.contains(middle[i]));
                    let at = choose|at: int| 0 <= at < init.len() && init[at] == middle[i];
                    assert(tickets[at].id <= tickets[tickets.len() - 1].id);
                }
            }
        }
        assert(after.to_multiset() =~= tickets.to_multiset().insert(ticket));
    }
}

/// Sorting brings the tickets into the order of their numbers, and neither
/// adds a ticket nor loses one.
pub proof fn law_sorted_by_id(tickets: Seq<Ticket>)
    ensures
        in_order_of_id(sorted_by_id(tickets)),
        sorted_by_id(tickets).len() == tickets.len(),
        sorted_by_id(tickets).to_multiset() == tickets.to_multiset(),
    decreases tickets.len(),
{
    broadcast use vstd::seq_lib::group_to_multiset_ensures;

    if tickets.len() > 0 {
        law_sorted_by_id(tickets.drop_last());
        lemma_inserted(sorted_by_id(tickets.drop_last()), tickets.last());
        assert(tickets =~= tickets.drop_last().push(tickets.last()));
    }
}

/// Puts a ticket into a list behind the tickets whose number is not greater.
fn insert_by_id(tickets: &mut Vec<Ticket>, ticket: Ticket)
    ensures
        final(tickets)@ == inserted(old(tickets)@, ticket),
{
    let mut at: usize = tickets.len();
    proof {
        assert(tickets@.take(at as int) =~= tickets@);
        assert(inserted(tickets@.take(at as int), ticket) + tickets@.skip(at as int) =~= inserted(
            tickets@,
            ticket,
        ));
    }
    while at > 0 && tickets[at - 1].id > ticket.id
        invariant
            at <= tickets@.len(),
            tickets@ == old(tickets)@,
            inserted(tickets@, ticket) == inserted(tickets@.take(at as int), ticket)
                + tickets@.skip(at as int),
        decreases at,
    {
        proof {
            let first = tickets@.take(at as int);
            assert(first.drop_last() =~= tickets@.take(at - 1));
            assert(first.last() == tickets@[at - 1]);
            assert(inserted(first.drop_last(), ticket).push(first.last()) + tickets@.skip(
                at as int,
            ) =~= inserted(first.drop_last(), ticket) + tickets@.skip(at - 1));
        }
        at -= 1;
    }
    proof {
        let first = tickets@.take(at as int);
        assert(inserted(first, ticket) == first.push(ticket));
        assert(first.push(ticket) + tickets@.skip(at as int) =~= tickets@.insert(
            at as int,
            ticket,
        ));
    }
    tickets.insert(at, ticket);
}

/// The items in the opposite order.
fn reversed<T>(items: Vec<T>) -> (r: Vec<T>)
    ensures
        r@ == items@.reverse(),
{
    let mut items = items;
    let ghost whole = items@;
    let mut r: Vec<T> = Vec::new();
    while items.len() > 0
        invariant
            items@.len() <= whole.len(),
            items@ == whole.take(items@.len() as int),
            r@ == whole.skip(items@.len() as int).reverse(),
        decreases items@.len(),
    {
        let item = items.pop().unwrap();
        r.push(item);
        proof {
            assert(items@ =~= whole.take(items@.len() as int));
            assert(r@ =~= whole.skip(items@.len() as int).reverse());
        }
    }
    proof {
        assert(whole.skip(0) =~= whole);
    }
    r
}

/// Brings tickets that were gathered from several sources together: in the
/// order of their numbers, each ticket once.
pub fn merge_tickets(tickets: Vec<Ticket>) -> (r: Vec<Ticket>)
    ensures
        r@ == without_repeats(sorted_by_id(tickets@)),
{
    let ghost whole = tickets@;
    let mut sorted: Vec<Ticket> = Vec::new();
    // the tickets are taken from the end, so that they can be moved
    let mut gathered = reversed(tickets);
    proof {
        assert(whole.skip(0) =~= whole);
    }
    proof {
        assert(whole.take(0) =~= Seq::<Ticket>::empty());
    }
    while gathered.len() > 0
        invariant
            gathered@.len() <= whole.len(),
            gathered@ == whole.skip(whole.len() - gathered@.len()).reverse(),
            sorted@ == sorted_by_id(whole.take(whole.len() - gathered@.len())),
        decreases gathered@.len(),
    {
        let ghost done = whole.len() - gathered@.len();
        let ghost before = gathered@;
        let ticket = gathered.pop().unwrap();
        proof {
            assert(ticket == whole[done]);
            assert(gathered@ =~= whole.skip(done + 1).reverse());
            assert(whole.take(done + 1).drop_last() =~= whole.take(done));
            assert(whole.take(done + 1).last() == ticket);
        }
        insert_by_id(&mut sorted, ticket);
    }
    proof {
        assert(whole.take(whole.len() as int) =~= whole);
    }
    let ghost ordered = sorted@;
    let mut kept: Vec<Ticket> = Vec::new();
    let mut sorted = reversed(sorted);
    proof {
        assert(ordered.skip(0) =~= ordered);
    }
    proof {
        assert(ordered.take(0) =~= Seq::<Ticket>::empty());
    }
    while sorted.len() > 0
        invariant
            sorted@.len() <= ordered.len(),
            sorted@ == ordered.skip(ordered.len() - sorted@.len()).reverse(),
            kept@ == without_repeats(ordered.take(ordered.len() - sorted@.len())),
        decreases sorted@.len(),
    {
        let ghost done = ordered.len() - sorted@.len();
        let ticket = sorted.pop().unwrap();
        proof {
            assert(ticket == ordered[done]);
            assert(sorted@ =~= ordered.skip(done + 1).reverse());
            assert(ordered.take(done + 1).drop_last() =~= ordered.take(done));
            assert(ordered.take(done + 1).last() == ticket);
        }
        let repeated = kept.len() > 0 && kept[kept.len() - 1].adapter == ticket.adapter
            && kept[kept.len() - 1].id == ticket.id;
        if !repeated {
            kept.push(ticket);
        }
    }
    proof {
        assert(ordered.take(ordered.len() as int) =~= ordered);
    }
    kept
}

/// The filters whose name is one of the given names, in the order in which
/// the filters stand.
pub open spec fn filters_named(filters: Seq<Filter>, names: Seq<Seq<char>>) -> Seq<Filter>
    decreases filters.len(),
{
    if filters.len() == 0 {
        filters
    } else if names.contains(filters.last().identifier.name@) {
        filters_named(filters.drop_last(), names).push(filters.last())
    } else {
        filters_named(filters.drop_last(), names)
    }
}

/// Whether the name is one of the given names.
fn is_named(names: &Vec<String>, name: &String) -> (r: bool)
    ensures
        r == texts(names@).contains(name@),
{
    let mut i: usize = 0;
    while i < names.len()
        invariant
            i <= names.len(),
            forall|j: int| 0 <= j < i ==> texts(names@)[j] != name@,
        decreases names.len() - i,
    {
        if names[i] == *name {
            assert(texts(names@)[i as int] == name@);
            return true;
        }
        i += 1;
    }
    false
}

/// Picks from the filters those whose name is one of the given names.
pub fn filter_list_by_name(filters: Vec<Filter>, filter_names: &Vec<String>) -> (matching: Vec<
    Filter,
>)
    ensures
        matching@ == filters_named(filters@, texts(filter_names@)),
{
    let ghost whole = filters@;
    let mut matching: Vec<Filter> = Vec::new();
    let mut filters = reversed(filters);
    proof {
        assert(whole.skip(0) =~= whole);
    }
    proof {
        assert(whole.take(0) =~= Seq::<Filter>::empty());
    }
    while filters.len() > 0
        invariant
            filters@.len() <= whole.len(),
            filters@ == whole.skip(whole.len() - filters@.len()).reverse(),
            matching@ == filters_named(
                whole.take(whole.len() - filters@.len()),
                texts(filter_names@),
            ),
        decreases filters@.len(),
    {
        let ghost done = whole.len() - filters@.len();
        let filter = filters.pop().unwrap();
        proof {
            assert(filter == whole[done]);
            assert(filters@ =~= whole.skip(done + 1).reverse());
            assert(whole.take(done + 1).drop_last() =~= whole.take(done));
            assert(whole.take(done + 1).last() == filter);
        }
        if is_named(filter_names, &filter.identifier.name) {
            matching.push(filter);
        }
    }
    proof {
        assert(whole.take(whole.len() as int) =~= whole);
    }
    matching
}

} // verus!
