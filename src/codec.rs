//! The statistics file: a JSON object from counter names to counts.
use vstd::prelude::*;

use crate::counters::Data;
use crate::event::Bucket;

verus! {

#[verifier::external_type_specification]
#[verifier::external_body]
pub struct ExJsonError(serde_json::Error);

/// The fields of `text` read as a JSON object: each name with the value as an
/// unsigned integer where it is one. Each name comes once, in the place where
/// it first stands, with the last value given for it. `None` where `text` is
/// not a JSON object.
pub uninterp spec fn json_object_fields(text: Seq<char>) -> Option<Seq<(Seq<char>, Option<u64>)>>;

/// The pretty-printed JSON object with the given fields, in order.
pub uninterp spec fn pretty_json_object(fields: Seq<(Seq<char>, u64)>) -> Seq<char>;

/// The view of fields read back from a file.
pub open spec fn read_view(fs: Seq<(String, Option<u64>)>) -> Seq<(Seq<char>, Option<u64>)> {
    fs.map_values(|p: (String, Option<u64>)| (p.0@, p.1))
}

/// The view of fields to be written to a file.
pub open spec fn write_view(fs: Seq<(String, u64)>) -> Seq<(Seq<char>, u64)> {
    fs.map_values(|p: (String, u64)| (p.0@, p.1))
}

/// Relies on serde_json::from_str into a serde_json::Map, then
/// serde_json::Value::as_u64 on each value: the fields of a JSON object.
#[verifier::external_body]
fn parse_object(text: &str) -> (r: Result<Vec<(String, Option<u64>)>, serde_json::Error>)
    ensures
        r.is_ok() == json_object_fields(text@).is_some(),
        r matches Ok(fs) ==> read_view(fs@) == json_object_fields(text@).unwrap(),
{
    serde_json::from_str::<serde_json::Map<String, serde_json::Value>>(text).map(
        |m| m.into_iter().map(|(k, v)| (k, v.as_u64())).collect(),
    )
}

/// Whether no two fields share a name.
pub open spec fn names_distinct(fs: Seq<(Seq<char>, u64)>) -> bool {
    forall|i: int, j: int| 0 <= i < fs.len() && 0 <= j < fs.len() && i != j ==> fs[i].0 != fs[j].0
}

/// Relies on serde_json::to_string_pretty of a serde_json::Value object that
/// holds the fields in order (the map keeps the order of insertion): it fails
/// only for map keys that are not strings or a failing `Serialize` impl, and
/// reading the printed text back gives the same names and numbers.
#[verifier::external_body]
fn print_object(fields: &Vec<(String, u64)>) -> (r: Result<String, serde_json::Error>)
    ensures
        r is Ok,
        r matches Ok(t) ==> t@ == pretty_json_object(write_view(fields@)),
        r is Ok && names_distinct(write_view(fields@)) ==> json_object_fields(r.unwrap()@) == Some(
            read_back(write_view(fields@)),
        ),
{
    let m: serde_json::Map<String, serde_json::Value> = fields.iter().map(
        |(k, v)| (k.clone(), serde_json::Value::from(*v)),
    ).collect();
    serde_json::to_string_pretty(&serde_json::Value::Object(m))
}

/// The name of a counter in the file.
pub open spec fn field_name(b: Bucket) -> Seq<char> {
    match b {
        Bucket::Left => "left"@,
        Bucket::Right => "right"@,
        Bucket::Middle => "middle"@,
        Bucket::Side => "side"@,
        Bucket::Extra => "extra"@,
        Bucket::WheelUp => "wheel_up"@,
        Bucket::WheelDown => "wheel_down"@,
        Bucket::SwipeRight => "swipe_right"@,
        Bucket::SwipeLeft => "swipe_left"@,
        Bucket::SwipeUp => "swipe_up"@,
        Bucket::SwipeDown => "swipe_down"@,
    }
}

/// The counters in the order in which they are written.
pub open spec fn file_order() -> Seq<Bucket> {
    seq![
        Bucket::Left,
        Bucket::Right,
        Bucket::Middle,
        Bucket::Side,
        Bucket::Extra,
        Bucket::WheelUp,
        Bucket::WheelDown,
        Bucket::SwipeRight,
        Bucket::SwipeLeft,
        Bucket::SwipeUp,
        Bucket::SwipeDown,
    ]
}

/// The fields that stand for `d`: each counter's name and value, in file order.
pub open spec fn fields_of(d: Data) -> Seq<(Seq<char>, u64)> {
    file_order().map_values(|b: Bucket| (field_name(b), d.count(b)))
}

/// The value of the first field named `name` at index `i` or later.
pub open spec fn field_from(fs: Seq<(Seq<char>, Option<u64>)>, name: Seq<char>, i: int) -> Option<
    Option<u64>,
>
    decreases fs.len() - i,
{
    if i < 0 || i >= fs.len() {
        None
    } else if fs[i].0 == name {
        Some(fs[i].1)
    } else {
        field_from(fs, name, i + 1)
    }
}

/// The count under `name`: `None` where no field has that name or the first
/// one that has it does not hold an unsigned integer.
pub open spec fn field_count(fs: Seq<(Seq<char>, Option<u64>)>, name: Seq<char>) -> Option<u64> {
    match field_from(fs, name, 0) {
        Some(Some(v)) => Some(v),
        _ => None,
    }
}

/// The counters that the fields describe: each counter has a field with its
/// name and an unsigned integer value; other fields are ignored.
pub open spec fn counters_of(fs: Seq<(Seq<char>, Option<u64>)>) -> Option<Data> {
    if forall|b: Bucket| #[trigger] field_count(fs, field_name(b)).is_some() {
        Some(
            Data {
                left: field_count(fs, field_name(Bucket::Left)).unwrap(),
                right: field_count(fs, field_name(Bucket::Right)).unwrap(),
                middle: field_count(fs, field_name(Bucket::Middle)).unwrap(),
                side: field_count(fs, field_name(Bucket::Side)).unwrap(),
                extra: field_count(fs, field_name(Bucket::Extra)).unwrap(),
                wheel_up: field_count(fs, field_name(Bucket::WheelUp)).unwrap(),
                wheel_down: field_count(fs, field_name(Bucket::WheelDown)).unwrap(),
                swipe_right: field_count(fs, field_name(Bucket::SwipeRight)).unwrap(),
                swipe_left: field_count(fs, field_name(Bucket::SwipeLeft)).unwrap(),
                swipe_up: field_count(fs, field_name(Bucket::SwipeUp)).unwrap(),
                swipe_down: field_count(fs, field_name(Bucket::SwipeDown)).unwrap(),
            },
        )
    } else {
        None
    }
}

/// What a file's text holds: the counters, or `None` where the text is not a
/// JSON object with an unsigned integer for every counter.
pub open spec fn decoded(text: Seq<char>) -> Option<Data> {
    match json_object_fields(text) {
        Some(fs) => counters_of(fs),
        None => None,
    }
}

impl Bucket {
    /// The name of this counter in the file.
    pub fn name(&self) -> (r: &'static str)
        ensures
            r@ == field_name(*self),
    {
        match self {
            Bucket::Left => "left",
            Bucket::Right => "right",
            Bucket::Middle => "middle",
            Bucket::Side => "side",
            Bucket::Extra => "extra",
            Bucket::WheelUp => "wheel_up",
            Bucket::WheelDown => "wheel_down",
            Bucket::SwipeRight => "swipe_right",
            Bucket::SwipeLeft => "swipe_left",
            Bucket::SwipeUp => "swipe_up",
            Bucket::SwipeDown => "swipe_down",
        }
    }
}

/// The count stored under counter `b`'s name, if there is one.
fn find_count(fs: &Vec<(String, Option<u64>)>, b: Bucket) -> (r: Option<u64>)
    ensures
        r == field_count(read_view(fs@), field_name(b)),
{
    let name = b.name().to_owned();
    let ghost view = read_view(fs@);
    let mut i: usize = 0;
    while i < fs.len()
        invariant
            i <= fs.len(),
            view == read_view(fs@),
            name@ == field_name(b),
            field_from(view, name@, 0) == field_from(view, name@, i as int),
        decreases fs.len() - i,
    {
        if fs[i].0 == name {
            return fs[i].1;
        }
        i = i + 1;
    }
    None
}

/// Reads the counters out of the fields of a file.
pub fn counters_from_fields(fs: &Vec<(String, Option<u64>)>) -> (r: Option<Data>)
    ensures
        r == counters_of(read_view(fs@)),
{
    let ghost view = read_view(fs@);
    let left = find_count(fs, Bucket::Left);
    let right = find_count(fs, Bucket::Right);
    let middle = find_count(fs, Bucket::Middle);
    let side = find_count(fs, Bucket::Side);
    let extra = find_count(fs, Bucket::Extra);
    let wheel_up = find_count(fs, Bucket::WheelUp);
    let wheel_down = find_count(fs, Bucket::WheelDown);
    let swipe_right = find_count(fs, Bucket::SwipeRight);
    let swipe_left = find_count(fs, Bucket::SwipeLeft);
    let swipe_up = find_count(fs, Bucket::SwipeUp);
    let swipe_down = find_count(fs, Bucket::SwipeDown);
    match (left, right, middle, side, extra, wheel_up, wheel_down, swipe_right, swipe_left, swipe_up, swipe_down) {
        (
            Some(left),
            Some(right),
            Some(middle),
            Some(side),
            Some(extra),
            Some(wheel_up),
            Some(wheel_down),
            Some(swipe_right),
            Some(swipe_left),
            Some(swipe_up),
            Some(swipe_down),
        ) => {
            assert(forall|b: Bucket| #[trigger] field_count(view, field_name(b)).is_some());
            Some(
                Data {
                    left,
                    right,
                    middle,
                    side,
                    extra,
                    wheel_up,
                    wheel_down,
                    swipe_right,
                    swipe_left,
                    swipe_up,
                    swipe_down,
                },
            )
        },
        _ => None,
    }
}

/// Reads the counters out of a file's text.
pub fn decode(text: &str) -> (r: Option<Data>)
    ensures
        r == decoded(text@),
{
    match parse_object(text) {
        Ok(fs) => counters_from_fields(&fs),
        Err(_) => None,
    }
}

/// The fields that stand for `d`, in file order.
pub fn fields(d: &Data) -> (r: Vec<(String, u64)>)
    ensures
        write_view(r@) == fields_of(*d),
{
    let order = [
        Bucket::Left,
        Bucket::Right,
        Bucket::Middle,
        Bucket::Side,
        Bucket::Extra,
        Bucket::WheelUp,
        Bucket::WheelDown,
        Bucket::SwipeRight,
        Bucket::SwipeLeft,
        Bucket::SwipeUp,
        Bucket::SwipeDown,
    ];
    assert(order@ == file_order());
    let mut r: Vec<(String, u64)> = Vec::new();
    let mut i: usize = 0;
    while i < 11
        invariant
            i <= 11,
            order@ == file_order(),
            write_view(r@) == fields_of(*d).take(i as int),
        decreases 11 - i,
    {
        let b = order[i];
        let name = b.name().to_owned();
        let ghost before = r@;
        r.push((name, d.get(b)));
        assert(r@ == before.push((name, d.count(b))));
        assert(b == file_order()[i as int]);
        assert(write_view(r@) =~= write_view(before).push((field_name(b), d.count(b))));
        assert(fields_of(*d).take(i + 1) =~= fields_of(*d).take(i as int).push(
            fields_of(*d)[i as int],
        ));
        assert(write_view(r@) =~= fields_of(*d).take(i + 1));
        i = i + 1;
    }
    assert(fields_of(*d).take(11) =~= fields_of(*d));
    r
}

/// The text of the file that stores `d`; reading it back gives `d`.
pub fn encode(d: &Data) -> (r: String)
    ensures
        r@ == pretty_json_object(fields_of(*d)),
        decoded(r@) == Some(*d),
{
    let fs = fields(d);
    proof {
        lemma_fields_names_distinct(*d);
        lemma_fields_round_trip(*d);
    }
    match print_object(&fs) {
        Ok(t) => t,
        Err(_) => String::new(),
    }
}

/// The fields as they are read back when every value is an unsigned integer.
pub open spec fn read_back(fs: Seq<(Seq<char>, u64)>) -> Seq<(Seq<char>, Option<u64>)> {
    fs.map_values(|p: (Seq<char>, u64)| (p.0, Some(p.1)))
}

/// No two counters share a name.
pub proof fn lemma_field_names_distinct(b1: Bucket, b2: Bucket)
    ensures
        field_name(b1) == field_name(b2) ==> b1 == b2,
{
    reveal_strlit("left");
    reveal_strlit("right");
    reveal_strlit("middle");
    reveal_strlit("side");
    reveal_strlit("extra");
    reveal_strlit("wheel_up");
    reveal_strlit("wheel_down");
    reveal_strlit("swipe_right");
    reveal_strlit("swipe_left");
    reveal_strlit("swipe_up");
    reveal_strlit("swipe_down");
    if field_name(b1) == field_name(b2) {
        assert(field_name(b1).len() == field_name(b2).len());
        assert(field_name(b1)[0] == field_name(b2)[0]);
        if field_name(b1).len() > 6 {
            assert(field_name(b1)[6] == field_name(b2)[6]);
            assert(field_name(b1)[7] == field_name(b2)[7]);
        }
    }
}

/// The first field named `name` from index `i` on is the one at index `k`.
proof fn lemma_field_from_first(fs: Seq<(Seq<char>, Option<u64>)>, name: Seq<char>, i: int, k: int)
    requires
        0 <= i <= k < fs.len(),
        fs[k].0 == name,
        forall|j: int| i <= j < k ==> fs[j].0 != name,
    ensures
        field_from(fs, name, i) == Some(fs[k].1),
    decreases k - i,
{
    if i < k {
        lemma_field_from_first(fs, name, i + 1, k);
    }
}

/// Reading back the fields written for `d`, each with the number written,
/// gives `d` again.
pub proof fn lemma_fields_round_trip(d: Data)
    ensures
        counters_of(read_back(fields_of(d))) == Some(d),
{
    let fs = read_back(fields_of(d));
    assert forall|b: Bucket| #[trigger] field_count(fs, field_name(b)) == Some(d.count(b)) by {
        let k: int = match b {
            Bucket::Left => 0,
            Bucket::Right => 1,
            Bucket::Middle => 2,
            Bucket::Side => 3,
            Bucket::Extra => 4,
            Bucket::WheelUp => 5,
            Bucket::WheelDown => 6,
            Bucket::SwipeRight => 7,
            Bucket::SwipeLeft => 8,
            Bucket::SwipeUp => 9,
            Bucket::SwipeDown => 10,
        };
        assert(file_order()[k] == b);
        assert forall|j: int| 0 <= j < k implies fs[j].0 != field_name(b) by {
            lemma_field_names_distinct(file_order()[j], b);
        }
        lemma_field_from_first(fs, field_name(b), 0, k);
    }
    assert(forall|b: Bucket| #[trigger] field_count(fs, field_name(b)).is_some());
}

/// The fields written for `d` have distinct names.
pub proof fn lemma_fields_names_distinct(d: Data)
    ensures
        names_distinct(fields_of(d)),
{
    let fs = fields_of(d);
    assert forall|i: int, j: int|
        0 <= i < fs.len() && 0 <= j < fs.len() && i != j implies fs[i].0 != fs[j].0 by {
        lemma_field_names_distinct(file_order()[i], file_order()[j]);
    }
}

} // verus!
