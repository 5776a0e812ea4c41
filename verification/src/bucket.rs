//! Buckets: the containers that tickets lie in.

use vstd::prelude::*;

verus! {

/// What tells one bucket from all others: the adapter it belongs to and its
/// number there.
#[derive(PartialEq, Clone, Eq, Hash, PartialOrd, Ord, Debug)]
pub struct BucketIdentifier {
    pub adapter: String,
    pub id: u64,
}

impl Default for BucketIdentifier {
    fn default() -> (r: Self)
        ensures
            r.adapter@ == Seq::<char>::empty(),
            r.id == 0,
    {
        BucketIdentifier { adapter: String::new(), id: 0 }
    }
}

impl BucketIdentifier {
    /// The identifier of the bucket with the given number in the given adapter.
    pub fn new(adapter: &String, id: u64) -> (r: BucketIdentifier)
        ensures
            r.adapter@ == adapter@,
            r.id == id,
    {
        BucketIdentifier { adapter: adapter.clone(), id }
    }
}

/// A container of tickets, with the time of its last change in seconds since the epoch.
#[derive(Eq, PartialOrd, Ord, Debug, PartialEq, Clone)]
pub struct Bucket {
    pub identifier: BucketIdentifier,
    pub name: String,
    pub last_change: i64,
}

impl Bucket {
    /// A bucket without a name, an adapter or a number, last changed at the
    /// given time in seconds since the epoch.
    pub fn changed_at(last_change: i64) -> (r: Bucket)
        ensures
            r.identifier.adapter@ == Seq::<char>::empty(),
            r.identifier.id == 0,
            r.name@ == Seq::<char>::empty(),
            r.last_change == last_change,
    {
        Bucket { identifier: BucketIdentifier::default(), name: String::new(), last_change }
    }

    /// The bucket as one of the adapter with the given name.
    pub fn with_adapter_name(self, adapter: String) -> (r: Bucket)
        ensures
            r == (Bucket {
                identifier: BucketIdentifier { adapter, ..self.identifier },
                ..self
            }),
    {
        let mut bucket = self;
        bucket.identifier.adapter = adapter;
        bucket
    }

    /// The bucket with the given number and name.
    pub fn with_details(self, id: u64, name: String) -> (r: Bucket)
        ensures
            r == (Bucket { identifier: BucketIdentifier { id, ..self.identifier }, name, ..self }),
    {
        let mut bucket = self;
        bucket.identifier.id = id;
        bucket.name = name;
        bucket
    }
}

} // verus!
