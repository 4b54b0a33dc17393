use std::sync::Arc;

use arrow_array::{ArrayRef, Int32Array, RecordBatch};
use deepsize::{Context, DeepSizeOf};
use lance_support::cached_values::{AnyMessage, ProstAny, SegmentBatch, ZoneMapStatsBatches};

struct Probe(ProstAny);

impl DeepSizeOf for Probe {
    fn deep_size_of_children(&self, context: &mut Context) -> usize {
        let before = format!("{:?}", context);
        let size = self.0.deep_size_of_children(context);
        assert_eq!(format!("{:?}", context), before);
        assert_eq!(self.0.deep_size_of_children(context), size);
        size
    }
}

fn heap_size(type_url: String, value: Vec<u8>) -> usize {
    let probe = Probe(ProstAny(Arc::new(AnyMessage { type_url, value })));
    probe.deep_size_of() - std::mem::size_of::<Probe>()
}

#[test]
fn a_message_takes_up_the_capacity_of_its_parts() {
    let mut type_url = String::with_capacity(40);
    type_url.push_str("type.googleapis.com/x");
    let mut value = Vec::with_capacity(100);
    value.extend_from_slice(&[1, 2, 3]);
    let expected = type_url.capacity() + value.capacity();
    assert_eq!(heap_size(type_url, value), expected);
    assert_eq!(heap_size(String::new(), Vec::new()), 0);
    assert_eq!(ProstAny::size_of_parts(40, 100), 140);
}

fn batch(values: Vec<i32>) -> RecordBatch {
    RecordBatch::try_from_iter(vec![("a", Arc::new(Int32Array::from(values)) as ArrayRef)]).unwrap()
}

#[test]
fn batches_take_up_the_sum_of_their_sizes() {
    let a = batch(vec![1, 2, 3]);
    let b = batch((0..1000).collect());
    let expected = a.get_array_memory_size() + b.get_array_memory_size();
    assert!(expected > 4000);
    let segment = ZoneMapStatsBatches(vec![SegmentBatch(a), SegmentBatch(b)]);
    assert_eq!(segment.deep_size_of_children(), Some(expected));
    assert_eq!(ZoneMapStatsBatches(vec![]).deep_size_of_children(), Some(0));
}

#[test]
fn sizes_that_do_not_fit_have_no_sum() {
    assert_eq!(ZoneMapStatsBatches::size_of_batches(&vec![1, 2, 3]), Some(6));
    assert_eq!(
        ZoneMapStatsBatches::size_of_batches(&vec![usize::MAX, 0]),
        Some(usize::MAX)
    );
    assert_eq!(ZoneMapStatsBatches::size_of_batches(&vec![usize::MAX, 1]), None);
}

fn assert_send_sync<T: Send + Sync>() {}

#[test]
fn zonemap_stats_are_send_and_sync() {
    assert_send_sync::<ZoneMapStatsBatches>();
}
