use flatmap::flatten::flat_map;
use flatmap::producer::Producer;
use flatmap::producer::VecProducer;
use flatmap::transform::CallCounter;
use flatmap::transform::StrChars;
use flatmap::transform::VecIdentity;

fn collect_string(items: Vec<char>) -> String {
    items.into_iter().collect()
}

#[test]
fn test_empty() {
    assert_eq!(
        flat_map(VecProducer::new(Vec::<Vec<i8>>::new()), VecIdentity).collect_all(),
        vec![]
    );
}

#[test]
fn test_nested() {
    assert_eq!(
        flat_map(
            VecProducer::new(vec![vec![1, 2], vec![2], vec![3], vec![4]]),
            VecIdentity
        )
        .collect_all(),
        vec![1, 2, 2, 3, 4]
    );
}

#[test]
fn test_str() {
    assert_eq!(
        collect_string(flat_map(VecProducer::new(vec!["a", "b", "c"]), StrChars).collect_all()),
        "abc"
    );
}

#[test]
fn test_empty_first() {
    assert_eq!(
        collect_string(flat_map(VecProducer::new(vec!["", "b", "c"]), StrChars).collect_all()),
        "bc"
    );
}

#[test]
fn test_empty_last() {
    assert_eq!(
        collect_string(flat_map(VecProducer::new(vec!["a", "b", ""]), StrChars).collect_all()),
        "ab"
    );
}

#[test]
fn test_empty_middle() {
    assert_eq!(
        collect_string(
            flat_map(
                VecProducer::new(vec!["alpha", "", "beta", "", "", "gamma"]),
                StrChars
            )
            .collect_all()
        ),
        "alphabetagamma"
    );
}

#[test]
fn test_long_str() {
    assert_eq!(
        collect_string(
            flat_map(VecProducer::new(vec!["abc", "def", "ghi"]), StrChars).collect_all()
        ),
        "abcdefghi"
    );
}

#[test]
fn flat_map_primitive() {
    assert_eq!(
        vec!["abc", "def", "ghi"]
            .into_iter()
            .map(|s| s.chars())
            .flatten()
            .collect::<String>()
            .len(),
        9
    )
}

#[test]
fn all_empty_inners_exhaust_immediately() {
    assert_eq!(
        collect_string(flat_map(VecProducer::new(vec!["", "", ""]), StrChars).collect_all()),
        ""
    );
}

#[test]
fn empty_outer_signals_exhaustion_on_first_pull() {
    let mut it = flat_map(VecProducer::new(Vec::<Vec<u32>>::new()), VecIdentity);
    assert_eq!(it.next(), None);
}

#[test]
fn pulls_yield_items_in_order() {
    let mut it = flat_map(
        VecProducer::new(vec![vec![10, 11], vec![], vec![12]]),
        VecIdentity,
    );
    assert_eq!(it.next(), Some(10));
    assert_eq!(it.next(), Some(11));
    assert_eq!(it.next(), Some(12));
    assert_eq!(it.next(), None);
}

#[test]
fn transform_is_applied_lazily() {
    let mut it = flat_map(
        VecProducer::new(vec![vec![10, 11], vec![12]]),
        CallCounter::new(VecIdentity),
    );
    // The first pull needs the first outer item, so the transform runs once.
    assert_eq!(it.next(), Some(10));
    assert_eq!(it.func.calls, 1);
    // The second pull is served from the held inner producer: no new call.
    assert_eq!(it.next(), Some(11));
    assert_eq!(it.func.calls, 1);
    // Only when the first inner sequence is drained is the next outer item
    // transformed.
    assert_eq!(it.next(), Some(12));
    assert_eq!(it.func.calls, 2);
}

#[test]
fn exhaustion_is_idempotent_and_stops_calling_the_transform() {
    let mut it = flat_map(
        VecProducer::new(vec![vec![5u8], vec![]]),
        CallCounter::new(VecIdentity),
    );
    assert_eq!(it.next(), Some(5));
    assert_eq!(it.next(), None);
    let calls_at_exhaustion = it.func.calls;
    assert_eq!(it.next(), None);
    assert_eq!(it.next(), None);
    assert_eq!(it.func.calls, calls_at_exhaustion);
}

#[test]
fn counting_wrapper_hands_items_through_unchanged() {
    let plain = flat_map(VecProducer::new(vec![vec![1, 2], vec![3]]), VecIdentity).collect_all();
    let counted = flat_map(
        VecProducer::new(vec![vec![1, 2], vec![3]]),
        CallCounter::new(VecIdentity),
    )
    .collect_all();
    assert_eq!(plain, counted);
}

#[test]
fn vec_producer_yields_front_to_back() {
    let mut p = VecProducer::new(vec![7u16, 8, 9]);
    assert_eq!(p.next(), Some(7));
    assert_eq!(p.next(), Some(8));
    assert_eq!(p.next(), Some(9));
    assert_eq!(p.next(), None);
    assert_eq!(p.next(), None);
}
