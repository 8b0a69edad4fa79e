use double_buffer::buffer::DoubleBuffer;
use double_buffer::cache::Entry;

fn sorted_by_key<T>(mut v: Vec<Entry<T>>) -> Vec<Entry<T>> {
    v.sort_by(|a, b| a.key.cmp(&b.key));
    v
}

#[test]
fn read_returns_values_and_swaps_buffers() {
    let mut buffer = DoubleBuffer::new();
    let entries = vec![Entry::new("key1", "value1"), Entry::new("key2", "value2")];
    buffer.save(entries);
    let entries = vec![Entry::new("key3", "value3")];
    buffer.save(entries);

    let values = buffer.read();

    let expected = vec![
        Entry::new("key1", "value1"),
        Entry::new("key2", "value2"),
        Entry::new("key3", "value3"),
    ];
    assert_eq!(sorted_by_key(values), sorted_by_key(expected));
}

#[test]
fn drained_buffer_reads_empty() {
    let mut buffer = DoubleBuffer::new();
    buffer.save(vec![Entry::new("key1", "value1"), Entry::new("key2", "value2")]);
    buffer.save(vec![Entry::new("key3", "value3")]);

    let values = buffer.read();
    assert_eq!(values.len(), 3);

    let again = buffer.read();
    assert!(again.is_empty());
}

#[test]
fn fresh_buffer_reads_empty() {
    let mut buffer: DoubleBuffer<u32> = DoubleBuffer::new();
    assert!(buffer.read().is_empty());
    assert!(buffer.read().is_empty());
}

#[test]
fn overwrite_returns_second_value() {
    let mut buffer = DoubleBuffer::new();
    buffer.save(vec![Entry::new("k1", "a")]);
    buffer.save(vec![Entry::new("k1", "b")]);

    let values = buffer.read();
    assert_eq!(values, vec![Entry::new("k1", "b")]);
}

#[test]
fn last_write_wins_across_saves() {
    let mut buffer = DoubleBuffer::new();
    buffer.save(vec![Entry::new("a", 1), Entry::new("b", 2)]);
    buffer.save(vec![Entry::new("a", 3)]);
    buffer.save(vec![Entry::new("b", 4), Entry::new("a", 5)]);

    let values = buffer.read();
    let expected = vec![Entry::new("a", 5), Entry::new("b", 4)];
    assert_eq!(sorted_by_key(values), sorted_by_key(expected));
}

#[test]
fn last_write_wins_within_one_save() {
    let mut buffer = DoubleBuffer::new();
    buffer.save(vec![Entry::new("a", 1), Entry::new("b", 2), Entry::new("a", 3)]);

    let values = buffer.read();
    let expected = vec![Entry::new("a", 3), Entry::new("b", 2)];
    assert_eq!(sorted_by_key(values), sorted_by_key(expected));
}

#[test]
fn no_duplication_across_reads() {
    let mut buffer = DoubleBuffer::new();
    buffer.save(vec![Entry::new("a", 1)]);
    let first = buffer.read();
    assert_eq!(first, vec![Entry::new("a", 1)]);

    buffer.save(vec![Entry::new("b", 2), Entry::new("a", 9)]);
    let second = buffer.read();
    let expected = vec![Entry::new("a", 9), Entry::new("b", 2)];
    assert_eq!(sorted_by_key(second), sorted_by_key(expected));

    assert!(buffer.read().is_empty());
}

#[test]
fn many_writers_distinct_keys_all_kept() {
    let writers: usize = 3;
    let per_writer: usize = 4;
    let mut buffer = DoubleBuffer::new();
    let mut expected = Vec::new();
    for w in 0..writers {
        for m in 0..per_writer {
            let key = format!("writer{}-item{}", w, m);
            buffer.save(vec![Entry::new(&key, w * per_writer + m)]);
            expected.push(Entry::new(&key, w * per_writer + m));
        }
    }

    let values = buffer.read();
    assert_eq!(values.len(), writers * per_writer);
    assert_eq!(sorted_by_key(values), sorted_by_key(expected));
}
