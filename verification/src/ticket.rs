//! Tickets.

use vstd::prelude::*;
use crate::bucket::Bucket;
use crate::state::State;
use crate::tag::Tag;
use crate::text::texts;

verus! {

/// A ticket. Times are in seconds since the epoch.
#[derive(Eq, PartialOrd, Ord, Debug, PartialEq, Clone)]
pub struct Ticket {
    pub adapter: String,
    pub id: i64,
    pub bucket_id: u64,
    pub title: String,
    pub assigned_to: String,
    pub state_name: String,
    pub description: String,
    pub tags: Vec<String>,
    pub created_at: i64,
    pub due_at: i64,
}

/// Whether one of `strings` has the text of `wanted`.
fn holds_text(strings: &Vec<String>, wanted: &String) -> (found: bool)
    ensures
        found == texts(strings@).contains(wanted@),
{
    let mut i: usize = 0;
    while i < strings.len()
        invariant
            i <= strings.len(),
            forall|j: int| 0 <= j < i ==> texts(strings@)[j] != wanted@,
        decreases strings.len() - i,
    {
        if strings[i] == *wanted {
            assert(texts(strings@)[i as int] == wanted@);
            return true;
        }
        i += 1;
    }
    false
}

/// The names of the given tags, in order.
pub open spec fn tag_names(tags: Seq<&Tag>) -> Seq<Seq<char>> {
    tags.map_values(|tag: &Tag| tag.name@)
}

impl Ticket {
    /// A ticket with nothing filled in, created and due at the given time in
    /// seconds since the epoch.
    pub fn created_at(now: i64) -> (r: Ticket)
        ensures
            r.adapter@ == Seq::<char>::empty(),
            r.id == 0,
            r.bucket_id == 0,
            r.title@ == Seq::<char>::empty(),
            r.assigned_to@ == Seq::<char>::empty(),
            r.state_name@ == Seq::<char>::empty(),
            r.description@ == Seq::<char>::empty(),
            r.tags@ == Seq::<String>::empty(),
            r.created_at == now,
            r.due_at == now,
    {
        Ticket {
            adapter: String::new(),
            id: 0,
            bucket_id: 0,
            title: String::new(),
            assigned_to: String::new(),
            state_name: String::new(),
            description: String::new(),
            created_at: now,
            due_at: now,
            tags: Vec::new(),
        }
    }

    /// The ticket as one of the adapter with the given name.
    pub fn with_adapter_name(self, adapter: String) -> (r: Ticket)
        ensures
            r == (Ticket { adapter, ..self }),
    {
        let mut ticket = self;
        ticket.adapter = adapter;
        ticket
    }

    /// The ticket with the given number, title and description.
    pub fn with_details(self, id: i64, title: String, description: String) -> (r: Ticket)
        ensures
            r == (Ticket { id, title, description, ..self }),
    {
        let mut ticket = self;
        ticket.id = id;
        ticket.title = title;
        ticket.description = description;
        ticket
    }

    /// The ticket in the given bucket.
    pub fn with_bucket(self, bucket: &Bucket) -> (r: Ticket)
        ensures
            r == (Ticket { bucket_id: bucket.identifier.id, ..self }),
    {
        let mut ticket = self;
        ticket.bucket_id = bucket.identifier.id;
        ticket
    }

    /// The ticket in the given state.
    pub fn with_state(self, state: &State) -> (r: Ticket)
        ensures
            r == (Ticket { state_name: r.state_name, ..self }),
            r.state_name@ == state.identifier.name@,
    {
        let mut ticket = self;
        ticket.state_name = state.identifier.name.clone();
        ticket
    }

    /// The ticket with the names of the given tags behind those it has.
    pub fn with_tags(self, tags: Vec<&Tag>) -> (r: Ticket)
        ensures
            r == (Ticket { tags: r.tags, ..self }),
            texts(r.tags@) == texts(self.tags@) + tag_names(tags@),
    {
        let mut ticket = self;
        let mut i: usize = 0;
        proof {
            assert(texts(ticket.tags@) =~= texts(self.tags@) + tag_names(tags@).take(0));
        }
        while i < tags.len()
            invariant
                i <= tags.len(),
                ticket == (Ticket { tags: ticket.tags, ..self }),
                texts(ticket.tags@) == texts(self.tags@) + tag_names(tags@).take(i as int),
            decreases tags.len() - i,
        {
            let ghost before = ticket.tags@;
            ticket.tags.push(tags[i].name.clone());
            proof {
                assert(texts(ticket.tags@) =~= texts(before).push(tags@[i as int].name@));
                assert(tag_names(tags@).take(i + 1) =~= tag_names(tags@).take(i as int).push(
                    tags@[i as int].name@,
                ));
            }
            i += 1;
        }
        proof {
            assert(tag_names(tags@).take(tags@.len() as int) =~= tag_names(tags@));
        }
        ticket
    }

    /// The ticket assigned to the given user.
    pub fn with_assignee(self, assignee: String) -> (r: Ticket)
        ensures
            r == (Ticket { assigned_to: assignee, ..self }),
    {
        let mut ticket = self;
        ticket.assign_to(assignee);
        ticket
    }

    /// Adds the name of the tag, unless the ticket has it.
    pub fn add_tag(&mut self, tag: &Tag)
        ensures
            *final(self) == (Ticket { tags: final(self).tags, ..*old(self) }),
            texts(final(self).tags@) == if texts(old(self).tags@).contains(tag.name@) {
                texts(old(self).tags@)
            } else {
                texts(old(self).tags@).push(tag.name@)
            },
    {
        if !holds_text(&self.tags, &tag.name) {
            self.tags.push(tag.name.clone());
            assert(texts(self.tags@) =~= texts(old(self).tags@).push(tag.name@));
        }
    }

    /// Assigns the ticket to the given user.
    pub fn assign_to(&mut self, assignee: String)
        ensures
            *final(self) == (Ticket { assigned_to: assignee, ..*old(self) }),
    {
        self.assigned_to = assignee;
    }
}

} // verus!
