//! Collecting per-block statistics into batches for the database.
use vstd::prelude::*;

verus! {

/// How many block statistics are written to the database at once.
pub const DATABASE_BATCH_SIZE: usize = 100;

/// What pushing `item` does to the pending items: either they fill a batch,
/// which is handed out and leaves nothing pending, or `item` joins them.
pub open spec fn batch_step<T>(pending: Seq<T>, item: T) -> (Option<Seq<T>>, Seq<T>) {
    if pending.len() + 1 >= DATABASE_BATCH_SIZE {
        (Some(pending.push(item)), Seq::empty())
    } else {
        (None, pending.push(item))
    }
}

/// The batches handed out, and what stays pending, when `items` are pushed
/// one after another onto `pending`.
pub open spec fn batch_run<T>(pending: Seq<T>, items: Seq<T>) -> (Seq<Seq<T>>, Seq<T>)
    decreases items.len(),
{
    if items.len() == 0 {
        (Seq::empty(), pending)
    } else {
        let (before, rest) = batch_run(pending, items.drop_last());
        let (full, next) = batch_step(rest, items.last());
        match full {
            Some(b) => (before.push(b), next),
            None => (before, next),
        }
    }
}

/// All batches, one after another.
pub open spec fn concat_all<T>(batches: Seq<Seq<T>>) -> Seq<T>
    decreases batches.len(),
{
    if batches.len() == 0 {
        Seq::empty()
    } else {
        concat_all(batches.drop_last()) + batches.last()
    }
}

/// Statistics waiting to be written, fewer than a full batch.
pub struct StatBatcher<T> {
    buffer: Vec<T>,
}

impl<T> StatBatcher<T> {
    #[verifier::type_invariant]
    spec fn inv(self) -> bool {
        self.buffer@.len() < DATABASE_BATCH_SIZE
    }

    /// The items pushed but not yet handed out, in the order they came.
    pub closed spec fn pending(self) -> Seq<T> {
        self.buffer@
    }

    /// Nothing pending.
    pub fn new() -> (b: StatBatcher<T>)
        ensures
            b.pending() == Seq::<T>::empty(),
    {
        StatBatcher { buffer: Vec::new() }
    }

    /// The number of pending items.
    pub fn len(&self) -> (n: usize)
        ensures
            n == self.pending().len(),
            n < DATABASE_BATCH_SIZE,
    {
        proof {
            use_type_invariant(self);
        }
        self.buffer.len()
    }

    /// Adds `item`. Once `DATABASE_BATCH_SIZE` items are pending they are
    /// handed out, in order, as a batch to write.
    pub fn push(&mut self, item: T) -> (full: Option<Vec<T>>)
        ensures
            (match full {
                Some(b) => Some(b@),
                None => None,
            }, final(self).pending()) == batch_step(old(self).pending(), item),
            final(self).pending().len() < DATABASE_BATCH_SIZE,
    {
        proof {
            use_type_invariant(&*self);
        }
        let mut buffer: Vec<T> = Vec::new();
        std::mem::swap(&mut buffer, &mut self.buffer);
        buffer.push(item);
        if buffer.len() >= DATABASE_BATCH_SIZE {
            Some(buffer)
        } else {
            self.buffer = buffer;
            None
        }
    }

    /// Hands out what is still pending once no more items come, or nothing
    /// when nothing is pending.
    pub fn finish(self) -> (rest: Option<Vec<T>>)
        ensures
            rest is None <==> self.pending().len() == 0,
            rest matches Some(r) ==> r@ == self.pending(),
    {
        if self.buffer.len() == 0 {
            None
        } else {
            Some(self.buffer)
        }
    }
}

/// Batching loses, repeats and reorders nothing: the batches handed out,
/// followed by what stays pending, are exactly the pending items followed by
/// the items pushed. Every batch handed out holds `DATABASE_BATCH_SIZE`
/// items, and fewer than that stay pending.
pub proof fn law_batches_preserve_items<T>(pending: Seq<T>, items: Seq<T>)
    requires
        pending.len() < DATABASE_BATCH_SIZE,
    ensures
        concat_all(batch_run(pending, items).0) + batch_run(pending, items).1 == pending + items,
        forall|i: int|
            0 <= i < batch_run(pending, items).0.len() ==> (#[trigger] batch_run(
                pending,
                items,
            ).0[i]).len() == DATABASE_BATCH_SIZE,
        batch_run(pending, items).1.len() < DATABASE_BATCH_SIZE,
    decreases items.len(),
{
    if items.len() > 0 {
        law_batches_preserve_items(pending, items.drop_last());
        let (before, rest) = batch_run(pending, items.drop_last());
        let (full, next) = batch_step(rest, items.last());
        assert(items.drop_last().push(items.last()) =~= items);
        let x = items.last();
        let c = concat_all(before);
        assert((c + rest).push(x) =~= c + rest.push(x));
        assert((pending + items.drop_last()).push(x) =~= pending + items.drop_last().push(x));
        match full {
            Some(b) => {
                assert(before.push(b).drop_last() =~= before);
                assert(concat_all(before.push(b)) == concat_all(before) + b);
                assert(c + rest.push(x) + Seq::<T>::empty() =~= c + rest.push(x));
            },
            None => {
                assert(c + rest.push(x) == pending + items);
            },
        }
    }
}

} // verus!
