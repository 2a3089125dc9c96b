use mousestats::codec::{counters_from_fields, decode, encode, fields};
use mousestats::counters::Data;
use mousestats::event::Bucket;

fn sample() -> Data {
    Data {
        left: 1,
        right: 2,
        middle: 3,
        side: 4,
        extra: 5,
        wheel_up: 6,
        wheel_down: 7,
        swipe_right: 8,
        swipe_left: 9,
        swipe_up: 10,
        swipe_down: u64::MAX,
    }
}

#[test]
fn text_round_trip() {
    let d = sample();
    let text = encode(&d);
    assert_eq!(decode(&text), Some(d));
    let z = Data::zero();
    assert_eq!(decode(&encode(&z)), Some(z));
}

#[test]
fn encoded_text_is_pretty_in_field_order() {
    let text = encode(&sample());
    assert!(text.starts_with("{\n  \"left\": 1,\n  \"right\": 2,\n"));
    assert!(text.contains("\"swipe_down\": 18446744073709551615"));
    assert!(text.ends_with("\n}"));
}

#[test]
fn fields_in_file_order() {
    let fs = fields(&sample());
    assert_eq!(fs.len(), 11);
    assert_eq!(fs[0], ("left".to_string(), 1));
    assert_eq!(fs[6], ("wheel_down".to_string(), 7));
    assert_eq!(fs[10], ("swipe_down".to_string(), u64::MAX));
    assert_eq!(Bucket::SwipeUp.name(), "swipe_up");
}

#[test]
fn fields_read_back() {
    let fs: Vec<(String, Option<u64>)> =
        fields(&sample()).into_iter().map(|(k, v)| (k, Some(v))).collect();
    assert_eq!(counters_from_fields(&fs), Some(sample()));
    let mut missing = fs.clone();
    missing.remove(3);
    assert_eq!(counters_from_fields(&missing), None);
    let mut not_number = fs.clone();
    not_number[0].1 = None;
    assert_eq!(counters_from_fields(&not_number), None);
}

#[test]
fn first_of_repeated_fields_counts() {
    let mut fs: Vec<(String, Option<u64>)> =
        fields(&sample()).into_iter().map(|(k, v)| (k, Some(v))).collect();
    fs.push(("left".to_string(), Some(77)));
    assert_eq!(counters_from_fields(&fs).unwrap().left, 1);
}

#[test]
fn repeated_name_in_text_keeps_last_value() {
    let text = encode(&sample()).replacen("{", "{\"left\": 40,", 1);
    assert_eq!(decode(&text).unwrap().left, 1);
    let text = encode(&sample()).replacen("\n}", ",\n  \"left\": 40\n}", 1);
    assert_eq!(decode(&text).unwrap().left, 40);
}
