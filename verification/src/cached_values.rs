//! Cached values, and how much memory they take up.

use std::sync::Arc;

use vstd::prelude::*;

verus! {

/// A protobuf message of some type: the URL that identifies the type, and the
/// serialized message.
#[derive(Debug)]
pub struct AnyMessage {
    pub type_url: String,
    pub value: Vec<u8>,
}

/// A cached protobuf message.
pub struct ProstAny(pub Arc<AnyMessage>);

/// What has been visited in a computation of deep sizes.
#[verifier::external_type_specification]
#[verifier::external_body]
pub struct ExContext(deepsize::Context);

/// Calls `deepsize::DeepSizeOf::deep_size_of_children` on a `String`, which returns
/// its capacity in bytes: at least the length of the text, and at most `isize::MAX`.
/// How much more than the length it is depends on the allocations before. The context
/// stays as it is: there is nothing to visit in a text.
#[verifier::external_body]
pub(crate) fn string_size(s: &String, context: &mut deepsize::Context) -> (r: usize)
    ensures
        s@.len() <= r <= isize::MAX,
        *final(context) == *old(context),
{
    deepsize::DeepSizeOf::deep_size_of_children(s, context)
}

/// Calls `deepsize::DeepSizeOf::deep_size_of_children` on a `Vec<u8>`, which returns
/// its capacity: at least the length of the vector, and at most `isize::MAX`. How
/// much more than the length it is depends on the allocations before. The context stays
/// as it is: there is nothing to visit in a byte.
#[verifier::external_body]
pub(crate) fn bytes_size(bytes: &Vec<u8>, context: &mut deepsize::Context) -> (r: usize)
    ensures
        bytes@.len() <= r <= isize::MAX,
        *final(context) == *old(context),
{
    deepsize::DeepSizeOf::deep_size_of_children(bytes, context)
}

/// `size` is what a call of `string_size` returns for `s`.
pub closed spec fn is_string_size(s: &String, size: usize) -> bool {
    exists|context: &mut deepsize::Context| call_ensures(string_size, (s, context), size)
}

/// `size` is what a call of `bytes_size` returns for `bytes`.
pub closed spec fn is_bytes_size(bytes: &Vec<u8>, size: usize) -> bool {
    exists|context: &mut deepsize::Context| call_ensures(bytes_size, (bytes, context), size)
}

impl ProstAny {
    /// The size of a message whose parts have the given sizes.
    pub fn size_of_parts(type_url_size: usize, value_size: usize) -> (r: usize)
        requires
            type_url_size + value_size <= usize::MAX,
        ensures
            r == type_url_size + value_size,
    {
        type_url_size + value_size
    }

    /// How much memory the message takes up on the heap: what is measured of its type
    /// URL and of its value, together. Neither holds anything that is shared, so the
    /// context stays as it is.
    pub fn deep_size_of_children(&self, context: &mut deepsize::Context) -> (r: usize)
        ensures
            exists|type_url_size: usize, value_size: usize| #[trigger]
                is_string_size(&self.0.type_url, type_url_size) && #[trigger] is_bytes_size(
                    &self.0.value,
                    value_size,
                ) && r == type_url_size + value_size,
            self.0.type_url@.len() + self.0.value@.len() <= r,
            *final(context) == *old(context),
    {
        let type_url_size: usize = string_size(&self.0.type_url, context);
        assert(is_string_size(&self.0.type_url, type_url_size));
        let value_size: usize = bytes_size(&self.0.value, context);
        assert(is_bytes_size(&self.0.value, value_size));
        Self::size_of_parts(type_url_size, value_size)
    }
}

/// A batch of records with a common schema: a collection of columns, which the
/// library does not look into.
#[verifier::external_body]
pub struct SegmentBatch(pub arrow_array::RecordBatch);

/// Calls `arrow_array::RecordBatch::get_array_memory_size`. Nothing is said of the
/// result: it depends on how the buffers of the batch were allocated.
#[verifier::external_body]
pub(crate) fn batch_size(batch: &SegmentBatch) -> (r: usize)
{
    batch.0.get_array_memory_size()
}

/// `size` is what a call of `batch_size` returns for `batch`.
pub closed spec fn is_batch_size(batch: &SegmentBatch, size: usize) -> bool {
    call_ensures(batch_size, (batch,), size)
}

/// The sizes are those of the batches, measured one by one.
pub open spec fn are_batch_sizes(batches: Seq<SegmentBatch>, sizes: Seq<usize>) -> bool {
    &&& sizes.len() == batches.len()
    &&& forall|i: int| 0 <= i < sizes.len() ==> is_batch_size(&batches[i], #[trigger] sizes[i])
}

/// The sum of the sizes.
pub open spec fn total(sizes: Seq<usize>) -> nat {
    sizes.fold_left(0, |sum: nat, size: usize| sum + size as nat)
}

/// Newtype for cached zonemap segment batches.
///
/// Stored under one UUID per segment. The cache returns this wrapped in an `Arc`, so
/// there is deliberately no inner one: that would only buy a second allocation with
/// no extra sharing capability.
pub struct ZoneMapStatsBatches(pub Vec<SegmentBatch>);

impl ZoneMapStatsBatches {
    /// The size of batches that have the given sizes, unless it exceeds a `usize`.
    pub fn size_of_batches(sizes: &Vec<usize>) -> (r: Option<usize>)
        ensures
            match r {
                Some(size) => size == total(sizes@),
                None => total(sizes@) > usize::MAX,
            },
    {
        let mut sum: usize = 0;
        let mut i: usize = 0;
        while i < sizes.len()
            invariant
                i <= sizes.len(),
                sum == total(sizes@.take(i as int)),
            decreases sizes.len() - i,
        {
            assert(sizes@.take(i + 1).drop_last() =~= sizes@.take(i as int));
            match sum.checked_add(sizes[i]) {
                Some(next) => {
                    sum = next;
                },
                None => {
                    proof {
                        lemma_total_grows(sizes@, i + 1);
                    }
                    return None;
                },
            }
            i = i + 1;
        }
        assert(sizes@.take(sizes@.len() as int) =~= sizes@);
        Some(sum)
    }

    /// The size of each batch, in order.
    fn batch_sizes(&self) -> (r: Vec<usize>)
        ensures
            are_batch_sizes(self.0@, r@),
    {
        let mut sizes: Vec<usize> = Vec::new();
        let mut i: usize = 0;
        while i < self.0.len()
            invariant
                i <= self.0.len(),
                are_batch_sizes(self.0@.take(i as int), sizes@),
            decreases self.0.len() - i,
        {
            sizes.push(batch_size(&self.0[i]));
            i = i + 1;
        }
        sizes
    }

    /// How much memory the batches take up, unless it exceeds a `usize`.
    ///
    /// The buffers of a batch are shared. Its size is the (possibly over-counted) full
    /// size of the buffers behind it, which is the safer direction for a byte budget:
    /// over-eviction is a soft failure, under-eviction can run out of memory.
    pub fn deep_size_of_children(&self) -> (r: Option<usize>)
        ensures
            exists|sizes: Seq<usize>| #[trigger]
                are_batch_sizes(self.0@, sizes) && match r {
                    Some(size) => size == total(sizes),
                    None => total(sizes) > usize::MAX,
                },
    {
        let sizes = self.batch_sizes();
        Self::size_of_batches(&sizes)
    }
}

/// The sum of more sizes is no less.
proof fn lemma_total_grows(sizes: Seq<usize>, n: int)
    requires
        0 <= n <= sizes.len(),
    ensures
        total(sizes.take(n)) <= total(sizes),
    decreases sizes.len() - n,
{
    if n == sizes.len() {
        assert(sizes.take(n) =~= sizes);
    } else {
        lemma_total_grows(sizes, n + 1);
        assert(sizes.take(n + 1).drop_last() =~= sizes.take(n));
    }
}

/// No batches take up nothing, and one more batch takes up its size more.
pub proof fn lemma_total_push(sizes: Seq<usize>, size: usize)
    ensures
        total(Seq::<usize>::empty()) == 0,
        total(sizes.push(size)) == total(sizes) + size,
{
    assert(sizes.push(size).drop_last() =~= sizes);
}

/// The size of batches that stand together is the sum of the sizes of either part.
pub proof fn lemma_total_adds_up(first: Seq<usize>, second: Seq<usize>)
    ensures
        total(first + second) == total(first) + total(second),
    decreases second.len(),
{
    if second.len() == 0 {
        assert(first + second =~= first);
        lemma_total_push(first, 0);
        assert(second =~= Seq::empty());
    } else {
        lemma_total_adds_up(first, second.drop_last());
        lemma_total_push(first + second.drop_last(), second.last());
        lemma_total_push(second.drop_last(), second.last());
        assert((first + second.drop_last()).push(second.last()) =~= first + second);
        assert(second.drop_last().push(second.last()) =~= second);
    }
}

/// Every batch is measured, by itself and in its place.
pub proof fn lemma_every_batch_is_measured(
    batches: Seq<SegmentBatch>,
    sizes: Seq<usize>,
    i: int,
)
    requires
        are_batch_sizes(batches, sizes),
        0 <= i < batches.len(),
    ensures
        sizes.len() == batches.len(),
        is_batch_size(&batches[i], sizes[i]),
{
}

/// The size of a batch is what the measurement of that batch returns.
pub(crate) proof fn lemma_batch_size_is_measured(batch: &SegmentBatch, size: usize)
    requires
        is_batch_size(batch, size),
    ensures
        call_ensures(batch_size, (batch,), size),
{
}

/// The size of a text is what the measurement of that text returns.
pub(crate) proof fn lemma_string_size_is_measured(s: &String, size: usize)
    requires
        is_string_size(s, size),
    ensures
        exists|context: &mut deepsize::Context| call_ensures(string_size, (s, context), size),
        s@.len() <= size <= isize::MAX,
{
}

/// The size of bytes is what the measurement of those bytes returns.
pub(crate) proof fn lemma_bytes_size_is_measured(bytes: &Vec<u8>, size: usize)
    requires
        is_bytes_size(bytes, size),
    ensures
        exists|context: &mut deepsize::Context| call_ensures(bytes_size, (bytes, context), size),
        bytes@.len() <= size <= isize::MAX,
{
}

} // verus!
