//! Rendering tool results for the terminal: as an aligned table, as CSV, or
//! as Markdown tables.
//!
//! A result is a JSON value. When it has a `data` member, that member is
//! rendered; an object holding a non-empty array of objects is rendered as a
//! table of that array, one column per key of its first element.
//!
//! A number under a key that ends in `_at` is a timestamp (in milliseconds
//! above 10^10, else in seconds) and is shown in local time; the local-time
//! texts come from the `chrono` crate and are handed to the renderers in a
//! [`TimeTable`].

use vstd::prelude::*;
use crate::text::{
    chars_to_string, decimal, join, join_chars, push_chars, push_decimal, push_str, str_to_chars,
};

verus! {

// ---------------------------------------------------------------------------
// JSON values
// ---------------------------------------------------------------------------

/// A JSON number: an integer that fits in `i64`, else one that fits in
/// `u64`, else any other number, kept as the text JSON writes for it.
#[derive(Debug, Clone)]
pub enum JsonNumber {
    Int(i64),
    UInt(u64),
    Float(String),
}

/// A JSON object: its members in order, and its compact JSON text.
#[derive(Debug)]
pub struct JsonObject {
    pub entries: Vec<(String, JsonValue)>,
    pub json: String,
}

/// A JSON value.
#[derive(Debug)]
pub enum JsonValue {
    Null,
    Bool(bool),
    Number(JsonNumber),
    String(String),
    Array(Vec<JsonValue>),
    Object(JsonObject),
}

/// The value of the first member named `key`.
pub open spec fn member(es: Seq<(String, JsonValue)>, key: Seq<char>) -> Option<JsonValue>
    decreases es.len(),
{
    if es.len() == 0 {
        None
    } else if es[0].0@ == key {
        Some(es[0].1)
    } else {
        member(es.drop_first(), key)
    }
}

/// The member `key` of an object (`None` for any other value).
pub open spec fn get(v: JsonValue, key: Seq<char>) -> Option<JsonValue> {
    match v {
        JsonValue::Object(o) => member(o.entries@, key),
        _ => None,
    }
}

/// The member `key` of an object, or `null`.
pub open spec fn get_or_null(es: Seq<(String, JsonValue)>, key: Seq<char>) -> JsonValue {
    match member(es, key) {
        Some(v) => v,
        None => JsonValue::Null,
    }
}

/// The member `data` if there is one, else the value itself.
pub open spec fn data_of(v: JsonValue) -> JsonValue {
    match get(v, "data"@) {
        Some(d) => d,
        None => v,
    }
}

/// The keys of an object's members, in order.
pub open spec fn keys(es: Seq<(String, JsonValue)>) -> Seq<Seq<char>> {
    es.map_values(|e: (String, JsonValue)| e.0@)
}

/// The first member whose name is `key`.
pub(crate) fn member_exec<'a>(es: &'a Vec<(String, JsonValue)>, key: &str) -> (r: Option<&'a JsonValue>)
    ensures
        match r {
            Some(v) => member(es@, key@) == Some(*v),
            None => member(es@, key@) is None,
        },
{
    let mut i: usize = 0;
    assert(es@.skip(0) =~= es@);
    while i < es.len()
        invariant
            i <= es@.len(),
            member(es@, key@) == member(es@.skip(i as int), key@),
        decreases es@.len() - i,
    {
        assert(es@.skip(i as int)[0] == es@[i as int]);
        if crate::text::str_eq(es[i].0.as_str(), key) {
            return Some(&es[i].1);
        }
        assert(es@.skip(i as int).drop_first() =~= es@.skip(i + 1));
        i = i + 1;
    }
    None
}

// ---------------------------------------------------------------------------
// Formatting one value
// ---------------------------------------------------------------------------

/// The local-time texts of timestamps: for a number `n`, the text of `n`
/// read as milliseconds and the text of `n` read as seconds, each `None`
/// where no date-time has that timestamp.
pub struct TimeTable {
    pub entries: Vec<(i64, Option<String>, Option<String>)>,
}

/// The texts that a table gives for `n` (none when it has no entry).
pub open spec fn stamp_texts(t: Seq<(i64, Option<String>, Option<String>)>, n: i64) -> (
    Option<Seq<char>>,
    Option<Seq<char>>,
)
    decreases t.len(),
{
    if t.len() == 0 {
        (None, None)
    } else if t[0].0 == n {
        (crate::ir::opt_view(t[0].1), crate::ir::opt_view(t[0].2))
    } else {
        stamp_texts(t.drop_first(), n)
    }
}

/// Whether a key names a timestamp.
pub open spec fn is_time_key(key: Seq<char>) -> bool {
    key.len() >= 3 && key.subrange(key.len() - 3, key.len() as int) == "_at"@
}

/// An integer in decimal, with a sign when negative.
pub open spec fn int_text(n: int) -> Seq<char> {
    if n < 0 {
        "-"@ + decimal((-n) as nat)
    } else {
        decimal(n as nat)
    }
}

/// A positive timestamp: the local time of `n` milliseconds when `n` is
/// above 10^10 and that time exists, else of `n` seconds when that exists,
/// else the number.
pub open spec fn stamp_text(n: i64, t: Seq<(i64, Option<String>, Option<String>)>) -> Seq<char> {
    let (ms, secs) = stamp_texts(t, n);
    if n > 10_000_000_000 && ms is Some {
        ms->0
    } else if secs is Some {
        secs->0
    } else {
        int_text(n as int)
    }
}

/// How a value is shown in a cell; `key` is the name it stands under.
pub open spec fn spec_format_value(
    key: Seq<char>,
    v: JsonValue,
    t: Seq<(i64, Option<String>, Option<String>)>,
) -> Seq<char>
    decreases v, 1nat, 0nat,
{
    match v {
        JsonValue::Null => Seq::empty(),
        JsonValue::Bool(b) => if b {
            "true"@
        } else {
            "false"@
        },
        JsonValue::Number(JsonNumber::Int(n)) => if is_time_key(key) {
            if n <= 0 {
                "-"@
            } else {
                stamp_text(n, t)
            }
        } else {
            int_text(n as int)
        },
        JsonValue::Number(JsonNumber::UInt(u)) => decimal(u as nat),
        JsonValue::Number(JsonNumber::Float(s)) => s@,
        JsonValue::String(s) => s@,
        JsonValue::Array(a) => "["@ + format_items(a, a.len() as nat, t) + "]"@,
        JsonValue::Object(o) => match member(o.entries@, "name"@) {
            Some(JsonValue::String(s)) => s@,
            _ => match member(o.entries@, "id"@) {
                Some(JsonValue::String(s)) => s@,
                _ => o.json@,
            },
        },
    }
}

/// The first `i` items of an array, each shown under the empty key, joined
/// by `, `.
pub open spec fn format_items(
    a: Vec<JsonValue>,
    i: nat,
    t: Seq<(i64, Option<String>, Option<String>)>,
) -> Seq<char>
    decreases a, 0nat, i,
{
    if i == 0 || i > a.len() {
        Seq::empty()
    } else if i == 1 {
        spec_format_value(Seq::empty(), a@[0], t)
    } else {
        format_items(a, (i - 1) as nat, t) + ", "@ + spec_format_value(Seq::empty(), a@[i - 1], t)
    }
}

/// The texts that a table gives for `n`.
fn stamp_texts_exec(t: &TimeTable, n: i64) -> (r: (Option<String>, Option<String>))
    ensures
        (crate::ir::opt_view(r.0), crate::ir::opt_view(r.1)) == stamp_texts(t.entries@, n),
{
    let es = &t.entries;
    let mut i: usize = 0;
    assert(es@.skip(0) =~= es@);
    while i < es.len()
        invariant
            i <= es@.len(),
            es@ == t.entries@,
            stamp_texts(es@, n) == stamp_texts(es@.skip(i as int), n),
        decreases es@.len() - i,
    {
        assert(es@.skip(i as int)[0] == es@[i as int]);
        if es[i].0 == n {
            let a = crate::ir::clone_opt(&es[i].1);
            let b = crate::ir::clone_opt(&es[i].2);
            assert(stamp_texts(es@.skip(i as int), n) == (
                crate::ir::opt_view(es@[i as int].1),
                crate::ir::opt_view(es@[i as int].2),
            ));
            return (a, b);
        }
        assert(es@.skip(i as int).drop_first() =~= es@.skip(i + 1));
        i = i + 1;
    }
    (None, None)
}

/// Appends an integer in decimal.
fn push_int(out: &mut Vec<char>, n: i64)
    ensures
        final(out)@ == old(out)@ + int_text(n as int),
{
    if n < 0 {
        push_str(out, "-");
        let m: u128 = (0i128 - (n as i128)) as u128;
        push_decimal(out, m);
    } else {
        push_decimal(out, n as u128);
    }
}

/// Whether a key names a timestamp.
fn is_time_key_exec(key: &str) -> (b: bool)
    ensures
        b == is_time_key(key@),
{
    let k = str_to_chars(key);
    let n = k.len();
    if n < 3 {
        return false;
    }
    proof {
        reveal_strlit("_at");
    }
    let r = k[n - 3] == '_' && k[n - 2] == 'a' && k[n - 1] == 't';
    if r {
        assert(k@.subrange(n - 3, n as int) =~= "_at"@);
    } else {
        assert(k@.subrange(n - 3, n as int) != "_at"@) by {
            if k@.subrange(n - 3, n as int) == "_at"@ {
                assert(k@.subrange(n - 3, n as int)[0] == '_');
                assert(k@.subrange(n - 3, n as int)[1] == 'a');
                assert(k@.subrange(n - 3, n as int)[2] == 't');
            }
        }
    }
    r
}

/// Appends how a value is shown in a cell.
fn push_value(out: &mut Vec<char>, key: &str, v: &JsonValue, t: &TimeTable)
    ensures
        final(out)@ == old(out)@ + spec_format_value(key@, *v, t.entries@),
    decreases *v, 1nat, 0nat,
{
    match v {
        JsonValue::Null => {},
        JsonValue::Bool(b) => {
            if *b {
                push_str(out, "true");
            } else {
                push_str(out, "false");
            }
        },
        JsonValue::Number(JsonNumber::Int(n)) => {
            if is_time_key_exec(key) {
                if *n <= 0 {
                    push_str(out, "-");
                } else {
                    let (ms, secs) = stamp_texts_exec(t, *n);
                    if *n > 10_000_000_000 && ms.is_some() {
                        match ms {
                            Some(s) => push_str(out, s.as_str()),
                            None => {},
                        }
                    } else {
                        match secs {
                            Some(s) => push_str(out, s.as_str()),
                            None => push_int(out, *n),
                        }
                    }
                }
            } else {
                push_int(out, *n);
            }
        },
        JsonValue::Number(JsonNumber::UInt(u)) => push_decimal(out, *u as u128),
        JsonValue::Number(JsonNumber::Float(s)) => push_str(out, s.as_str()),
        JsonValue::String(s) => push_str(out, s.as_str()),
        JsonValue::Array(a) => {
            push_str(out, "[");
            push_items(out, a, t);
            push_str(out, "]");
        },
        JsonValue::Object(o) => {
            match member_exec(&o.entries, "name") {
                Some(JsonValue::String(s)) => push_str(out, s.as_str()),
                _ => match member_exec(&o.entries, "id") {
                    Some(JsonValue::String(s)) => push_str(out, s.as_str()),
                    _ => push_str(out, o.json.as_str()),
                },
            }
        },
    }
}

/// Appends the items of an array joined by `, `.
fn push_items(out: &mut Vec<char>, a: &Vec<JsonValue>, t: &TimeTable)
    ensures
        final(out)@ == old(out)@ + format_items(*a, a@.len(), t.entries@),
    decreases *a, 0nat, a@.len(),
{
    let ghost start = out@;
    let mut i: usize = 0;
    while i < a.len()
        invariant
            i <= a@.len(),
            out@ == start + format_items(*a, i as nat, t.entries@),
        decreases a@.len() - i,
    {
        assert(decreases_to!(*a => a@[i as int]));
        if i > 0 {
            push_str(out, ", ");
        }
        push_value(out, "", &a[i], t);
        proof {
            reveal_strlit("");
            assert(""@ =~= Seq::<char>::empty());
        }
        i = i + 1;
    }
}

/// How a value is shown in a cell, with the local-time texts of `t`.
pub fn format_value_with(key: &str, value: &JsonValue, t: &TimeTable) -> (r: String)
    ensures
        r@ == spec_format_value(key@, *value, t.entries@),
{
    let mut out: Vec<char> = Vec::new();
    push_value(&mut out, key, value, t);
    chars_to_string(out.as_slice())
}


// ---------------------------------------------------------------------------
// Local time
// ---------------------------------------------------------------------------

/// The local date-time of a Unix timestamp as `YYYY-MM-DD hh:mm:ss`, with
/// `chrono` (`DateTime::from_timestamp`, then `with_timezone(&Local)` and
/// `format`); `None` where `from_timestamp` has no date-time for it. Which
/// date and time it names depends on the machine's time zone, so that is
/// not stated. What is stated holds in every zone: for every positive
/// timestamp up to 10^11 seconds with a valid nanosecond part there is a
/// text (`from_timestamp` is `Some` for in-range seconds and nanoseconds
/// below 10^9, and `with_timezone` and `format` do not fail), and it has
/// the shape of `%Y-%m-%d %H:%M:%S` for a year of four digits (the range
/// ends in the year 5138; `%Y` pads a year below 1000 to four digits).
#[verifier::external_body]
fn local_time_text(secs: i64, nanos: u32) -> (r: Option<String>)
    ensures
        0 < secs <= 100_000_000_000 && nanos < 1_000_000_000 ==> datetime_present(r),
{
    chrono::DateTime::from_timestamp(secs, nanos).map(
        |dt| dt.with_timezone(&chrono::Local).format("%Y-%m-%d %H:%M:%S").to_string(),
    )
}

/// Whether `s` has the shape `YYYY-MM-DD hh:mm:ss`: nineteen characters,
/// digits but for `-` at 4 and 7, a space at 10 and `:` at 13 and 16.
pub open spec fn is_datetime_text(s: Seq<char>) -> bool {
    &&& s.len() == 19
    &&& forall|i: int|
        0 <= i < 19 && i != 4 && i != 7 && i != 10 && i != 13 && i != 16 ==> '0' <= #[trigger] s[i]
            && s[i] <= '9'
    &&& s[4] == '-' && s[7] == '-'
    &&& s[10] == ' '
    &&& s[13] == ':' && s[16] == ':'
}

/// Whether an optional text is there and has the shape of a date-time.
pub open spec fn datetime_present(o: Option<String>) -> bool {
    o matches Some(t) && is_datetime_text(t@)
}

/// The timestamp a member gives itself: its value, where that is a positive
/// integer under a time key.
pub open spec fn own_stamp(e: (String, JsonValue)) -> Seq<i64> {
    key_stamp(e.0@, e.1)
}

/// The timestamp a value gives itself under `key`: the value, where that is
/// a positive integer and `key` a time key.
pub open spec fn key_stamp(key: Seq<char>, v: JsonValue) -> Seq<i64> {
    match v {
        JsonValue::Number(JsonNumber::Int(n)) => if n > 0 && is_time_key(key) {
            seq![n]
        } else {
            Seq::empty()
        },
        _ => Seq::empty(),
    }
}

/// Whether a table has one entry per timestamp of `ns`, in order, with no
/// millisecond text for a timestamp at or below 10^10, a millisecond text
/// for one above 10^10 and up to 10^14, and a seconds text for a positive
/// one up to 10^11, each of these texts of the shape `YYYY-MM-DD hh:mm:ss`.
pub open spec fn table_fits(t: Seq<(i64, Option<String>, Option<String>)>, ns: Seq<i64>) -> bool {
    &&& t.len() == ns.len()
    &&& forall|i: int|
        0 <= i < t.len() ==> {
            &&& (#[trigger] t[i]).0 == ns[i]
            &&& ns[i] <= 10_000_000_000 ==> t[i].1 is None
            &&& 10_000_000_000 < ns[i] <= 100_000_000_000_000 ==> datetime_present(t[i].1)
            &&& 0 < ns[i] <= 100_000_000_000 ==> datetime_present(t[i].2)
        }
}

/// The positive integers under time keys anywhere in `v`, in document order
/// (a member's own value before those inside it).
pub open spec fn stamps(v: JsonValue) -> Seq<i64>
    decreases v, 1nat, 0nat,
{
    match v {
        JsonValue::Array(a) => item_stamps(a, a.len() as nat),
        JsonValue::Object(o) => member_stamps(o.entries, o.entries.len() as nat),
        _ => Seq::empty(),
    }
}

/// The timestamps of the first `i` items of an array.
pub open spec fn item_stamps(a: Vec<JsonValue>, i: nat) -> Seq<i64>
    decreases a, 0nat, i,
{
    if i == 0 || i > a.len() {
        Seq::empty()
    } else {
        item_stamps(a, (i - 1) as nat) + stamps(a@[i - 1])
    }
}

/// The timestamps of the first `i` members of an object.
pub open spec fn member_stamps(es: Vec<(String, JsonValue)>, i: nat) -> Seq<i64>
    decreases es, 0nat, i,
{
    if i == 0 || i > es.len() {
        Seq::empty()
    } else {
        proof {
            assert(decreases_to!(es => es@[i - 1]));
        }
        member_stamps(es, (i - 1) as nat) + own_stamp(es@[i - 1]) + stamps(es@[i - 1].1)
    }
}

/// Appends the timestamps that values under time keys need, anywhere in `v`.
#[verifier::loop_isolation(false)]
fn collect_stamps(v: &JsonValue, acc: &mut Vec<i64>)
    ensures
        final(acc)@ == old(acc)@ + stamps(*v),
    decreases *v,
{
    let ghost start = acc@;
    match v {
        JsonValue::Array(a) => {
            let mut i: usize = 0;
            while i < a.len()
                invariant
                    i <= a@.len(),
                    acc@ == start + item_stamps(*a, i as nat),
                decreases a@.len() - i,
            {
                assert(decreases_to!(*v => a@[i as int]));
                collect_stamps(&a[i], acc);
                assert(start + item_stamps(*a, (i + 1) as nat) =~= start + item_stamps(*a, i as nat)
                    + stamps(a@[i as int]));
                i = i + 1;
            }
        },
        JsonValue::Object(o) => {
            let mut i: usize = 0;
            while i < o.entries.len()
                invariant
                    i <= o.entries@.len(),
                    acc@ == start + member_stamps(o.entries, i as nat),
                decreases o.entries@.len() - i,
            {
                assert(decreases_to!(*v => o.entries@[i as int].1));
                let ghost mid = acc@;
                match &o.entries[i].1 {
                    JsonValue::Number(JsonNumber::Int(n)) => {
                        if *n > 0 && is_time_key_exec(o.entries[i].0.as_str()) {
                            acc.push(*n);
                        }
                    },
                    _ => {},
                }
                assert(acc@ =~= mid + own_stamp(o.entries@[i as int]));
                collect_stamps(&o.entries[i].1, acc);
                assert(start + member_stamps(o.entries, (i + 1) as nat) =~= start + member_stamps(
                    o.entries,
                    i as nat,
                ) + own_stamp(o.entries@[i as int]) + stamps(o.entries@[i as int].1));
                i = i + 1;
            }
        },
        _ => {
            assert(acc@ =~= start + stamps(*v));
        },
    }
}

/// The local-time texts of the timestamps `ns`: one entry per timestamp, in
/// order, with the text of the timestamp read as milliseconds (none at or
/// below 10^10) and read as seconds.
fn stamp_table(ns: &Vec<i64>) -> (t: TimeTable)
    ensures
        table_fits(t.entries@, ns@),
{
    let mut entries: Vec<(i64, Option<String>, Option<String>)> = Vec::new();
    let mut i: usize = 0;
    while i < ns.len()
        invariant
            i <= ns@.len(),
            entries@.len() == i,
            forall|k: int|
                0 <= k < i ==> {
                    &&& (#[trigger] entries@[k]).0 == ns@[k]
                    &&& ns@[k] <= 10_000_000_000 ==> entries@[k].1 is None
                    &&& 10_000_000_000 < ns@[k] <= 100_000_000_000_000 ==> datetime_present(
                        entries@[k].1,
                    )
                    &&& 0 < ns@[k] <= 100_000_000_000 ==> datetime_present(entries@[k].2)
                },
        decreases ns@.len() - i,
    {
        let n = ns[i];
        let ms = if n > 10_000_000_000 {
            local_time_text(n / 1000, ((n % 1000) * 1_000_000) as u32)
        } else {
            None
        };
        let secs = if n > 0 {
            local_time_text(n, 0)
        } else {
            None
        };
        entries.push((n, ms, secs));
        i = i + 1;
    }
    TimeTable { entries }
}

/// The local-time texts of every timestamp under a time key in `v`, in the
/// order of [`stamps`] (see [`stamp_table`]).
fn time_table(v: &JsonValue) -> (t: TimeTable)
    ensures
        table_fits(t.entries@, stamps(*v)),
{
    let mut ns: Vec<i64> = Vec::new();
    collect_stamps(v, &mut ns);
    assert(ns@ =~= stamps(*v));
    stamp_table(&ns)
}

/// How a value is shown in a cell, in local time.
pub fn format_value(key: &str, value: &JsonValue) -> (r: String)
    ensures
        exists|t: Seq<(i64, Option<String>, Option<String>)>|
            table_fits(t, key_stamp(key@, *value) + stamps(*value)) && r@ == spec_format_value(
                key@,
                *value,
                t,
            ),
{
    let mut ns: Vec<i64> = Vec::new();
    match value {
        JsonValue::Number(JsonNumber::Int(n)) => {
            if *n > 0 && is_time_key_exec(key) {
                ns.push(*n);
            }
        },
        _ => {},
    }
    assert(ns@ =~= key_stamp(key@, *value));
    collect_stamps(value, &mut ns);
    let t = stamp_table(&ns);
    let r = format_value_with(key, value, &t);
    assert(r@ == spec_format_value(key@, *value, t.entries@));
    r
}


// ---------------------------------------------------------------------------
// The aligned table
// ---------------------------------------------------------------------------

/// `s` padded with spaces to `w` characters.
pub open spec fn pad(s: Seq<char>, w: nat) -> Seq<char> {
    if s.len() < w {
        s + crate::text::repeat_char(' ', (w - s.len()) as nat)
    } else {
        s
    }
}

/// A column width after one more cell: a cell longer (in bytes) than the
/// width sets it to the cell's length, at most 40.
pub open spec fn next_width(w: nat, cell: Seq<char>) -> nat {
    let l = crate::text::utf8_len(cell);
    if l > w {
        if l < 40 {
            l
        } else {
            40
        }
    } else {
        w
    }
}

/// The width of a column: its name's length in bytes, then each cell in turn.
pub open spec fn col_width(init: nat, cells: Seq<Seq<char>>) -> nat
    decreases cells.len(),
{
    if cells.len() == 0 {
        init
    } else {
        next_width(col_width(init, cells.drop_last()), cells.last())
    }
}

/// A cell in a column of width `w`: cut to `w - 1` characters and ended by
/// `…` when it is longer than `w` bytes, else padded to `w` characters.
pub open spec fn fit_cell(c: Seq<char>, w: nat) -> Seq<char> {
    if crate::text::utf8_len(c) > w {
        c.take(if c.len() < w - 1 {
            c.len() as int
        } else {
            w - 1
        }) + "…"@
    } else {
        pad(c, w)
    }
}

/// Column `i` of a list of rows.
pub open spec fn column(rows: Seq<Seq<Seq<char>>>, i: int) -> Seq<Seq<char>> {
    rows.map_values(|r: Seq<Seq<char>>| r[i])
}

/// The widths of the columns.
pub open spec fn widths(cols: Seq<Seq<char>>, rows: Seq<Seq<Seq<char>>>) -> Seq<nat> {
    Seq::new(cols.len(), |i: int| col_width(crate::text::utf8_len(cols[i]), column(rows, i)))
}

/// A table: the padded column names joined by ` | `, a rule of dashes
/// joined by `-+-`, and one line per row.
pub open spec fn layout(cols: Seq<Seq<char>>, rows: Seq<Seq<Seq<char>>>) -> Seq<Seq<char>> {
    let w = widths(cols, rows);
    seq![
        join(Seq::new(cols.len(), |i: int| pad(cols[i], w[i])), " | "@),
        join(Seq::new(cols.len(), |i: int| crate::text::repeat_char('-', w[i])), "-+-"@),
    ] + rows.map_values(
        |r: Seq<Seq<char>>| join(Seq::new(cols.len(), |i: int| fit_cell(r[i], w[i])), " | "@),
    )
}

/// The cells of the objects among `items`, one per column, in order.
pub open spec fn object_rows(
    items: Seq<JsonValue>,
    cols: Seq<Seq<char>>,
    t: Seq<(i64, Option<String>, Option<String>)>,
) -> Seq<Seq<Seq<char>>>
    decreases items.len(),
{
    if items.len() == 0 {
        Seq::empty()
    } else {
        object_rows(items.drop_last(), cols, t) + match items.last() {
            JsonValue::Object(o) => seq![
                Seq::new(cols.len(), |i: int| spec_format_value(cols[i], get_or_null(o.entries@, cols[i]), t)),
            ],
            _ => Seq::empty(),
        }
    }
}

/// The lines of an array: `(empty)`, a table of its objects when its first
/// item is an object, else one line per item.
pub open spec fn array_lines(items: Seq<JsonValue>, t: Seq<(i64, Option<String>, Option<String>)>) -> Seq<Seq<char>> {
    if items.len() == 0 {
        seq!["(empty)"@]
    } else {
        match items[0] {
            JsonValue::Object(first) => layout(
                keys(first.entries@),
                object_rows(items, keys(first.entries@), t),
            ),
            _ => items.map_values(|v: JsonValue| spec_format_value(Seq::empty(), v, t)),
        }
    }
}

/// The first member whose value is a non-empty array.
pub open spec fn first_array(es: Seq<(String, JsonValue)>) -> Option<(Seq<char>, Vec<JsonValue>)>
    decreases es.len(),
{
    if es.len() == 0 {
        None
    } else {
        match es[0].1 {
            JsonValue::Array(a) => if a.len() > 0 {
                Some((es[0].0@, a))
            } else {
                first_array(es.drop_first())
            },
            _ => first_array(es.drop_first()),
        }
    }
}

/// The table rendering of a result.
pub open spec fn spec_table_lines(v: JsonValue, t: Seq<(i64, Option<String>, Option<String>)>) -> Seq<Seq<char>> {
    match data_of(v) {
        JsonValue::Array(a) => array_lines(a@, t),
        JsonValue::Object(o) => match first_array(o.entries@) {
            Some((k, a)) => seq![k + ":"@] + array_lines(a@, t),
            None => o.entries@.map_values(
                |e: (String, JsonValue)| e.0@ + ": "@ + spec_format_value(e.0@, e.1, t),
            ),
        },
        d => seq![spec_format_value(Seq::empty(), d, t)],
    }
}


/// The views of rows of cells.
pub open spec fn rows_view(rows: Seq<Vec<Vec<char>>>) -> Seq<Seq<Seq<char>>> {
    rows.map_values(|r: Vec<Vec<char>>| crate::text::pieces_view(r@))
}

proof fn lemma_width_zero(init: nat, cells: Seq<Seq<char>>)
    ensures
        col_width(init, cells) == 0 ==> init == 0 && forall|k: int|
            0 <= k < cells.len() ==> crate::text::utf8_len(#[trigger] cells[k]) == 0,
    decreases cells.len(),
{
    if cells.len() > 0 {
        lemma_width_zero(init, cells.drop_last());
        if col_width(init, cells) == 0 {
            assert forall|k: int| 0 <= k < cells.len() implies crate::text::utf8_len(#[trigger] cells[k])
                == 0 by {
                if k < cells.len() - 1 {
                    assert(cells[k] == cells.drop_last()[k]);
                }
            }
        }
    }
}

/// Number of bytes of the UTF-8 encoding of `s`.
fn utf8_len_exec(s: &[char]) -> (r: u128)
    ensures
        r == crate::text::utf8_len(s@),
        r <= 4 * s@.len(),
{
    let mut r: u128 = 0;
    let mut i: usize = 0;
    assert(s@.take(0) =~= Seq::<char>::empty());
    while i < s.len()
        invariant
            i <= s@.len(),
            r == crate::text::utf8_len(s@.take(i as int)),
            r <= 4 * i,
        decreases s@.len() - i,
    {
        assert(s@.take(i + 1).drop_last() =~= s@.take(i as int));
        assert(s@.take(i + 1).last() == s@[i as int]);
        r = r + crate::text::char_width(s[i]) as u128;
        i = i + 1;
    }
    assert(s@.take(s@.len() as int) =~= s@);
    r
}

/// Appends `n` copies of `c`.
fn push_copies(out: &mut Vec<char>, c: char, n: u128)
    ensures
        final(out)@ == old(out)@ + crate::text::repeat_char(c, n as nat),
{
    let ghost start = out@;
    let mut k: u128 = 0;
    while k < n
        invariant
            k <= n,
            out@ == start + crate::text::repeat_char(c, k as nat),
        decreases n - k,
    {
        out.push(c);
        k = k + 1;
        assert(out@ =~= start + crate::text::repeat_char(c, k as nat));
    }
}

/// `s` padded with spaces to `w` characters.
pub(crate) fn padded_chars(s: &[char], w: u128) -> (r: Vec<char>)
    ensures
        r@ == pad(s@, w as nat),
{
    let mut out: Vec<char> = Vec::new();
    push_chars(&mut out, s);
    if (s.len() as u128) < w {
        push_copies(&mut out, ' ', w - s.len() as u128);
    }
    out
}

/// A cell fitted to a column of width `w`.
fn fitted(c: &[char], w: u128) -> (r: Vec<char>)
    requires
        crate::text::utf8_len(c@) > w ==> w >= 1,
    ensures
        r@ == fit_cell(c@, w as nat),
{
    if utf8_len_exec(c) > w {
        let keep: usize = if (c.len() as u128) < w - 1 {
            c.len()
        } else {
            (w - 1) as usize
        };
        let mut out = crate::text::slice_chars(c, 0, keep);
        assert(out@ =~= c@.take(keep as int));
        push_str(&mut out, "…");
        out
    } else {
        padded_chars(c, w)
    }
}

/// The width of column `i`.
fn col_width_exec(col: &Vec<char>, rows: &Vec<Vec<Vec<char>>>, i: usize) -> (w: u128)
    requires
        forall|k: int| 0 <= k < rows@.len() ==> i < (#[trigger] rows@[k])@.len(),
    ensures
        w == col_width(crate::text::utf8_len(col@), column(rows_view(rows@), i as int)),
        w <= 4 * col@.len() || w <= 40,
{
    let ghost cells = column(rows_view(rows@), i as int);
    let mut w = utf8_len_exec(col.as_slice());
    let mut k: usize = 0;
    assert(cells.take(0) =~= Seq::<Seq<char>>::empty());
    while k < rows.len()
        invariant
            k <= rows@.len(),
            cells == column(rows_view(rows@), i as int),
            forall|j: int| 0 <= j < rows@.len() ==> i < (#[trigger] rows@[j])@.len(),
            w == col_width(crate::text::utf8_len(col@), cells.take(k as int)),
            w <= 4 * col@.len() || w <= 40,
        decreases rows@.len() - k,
    {
        assert(cells[k as int] == rows@[k as int]@[i as int]@);
        assert(cells.take(k + 1).drop_last() =~= cells.take(k as int));
        assert(cells.take(k + 1).last() == cells[k as int]);
        let l = utf8_len_exec(rows[k][i].as_slice());
        if l > w {
            w = if l < 40 {
                l
            } else {
                40
            };
        }
        k = k + 1;
    }
    assert(cells.take(rows@.len() as int) =~= cells);
    w
}

/// A table of the given column names and rows of cells.
fn layout_exec(cols: &Vec<Vec<char>>, rows: &Vec<Vec<Vec<char>>>) -> (r: Vec<Vec<char>>)
    requires
        forall|k: int| 0 <= k < rows@.len() ==> (#[trigger] rows@[k])@.len() == cols@.len(),
    ensures
        crate::text::pieces_view(r@) == layout(crate::text::pieces_view(cols@), rows_view(rows@)),
{
    let ghost cv = crate::text::pieces_view(cols@);
    let ghost rv = rows_view(rows@);
    let ghost ws = widths(cv, rv);
    let mut wv: Vec<u128> = Vec::new();
    let mut i: usize = 0;
    while i < cols.len()
        invariant
            i <= cols@.len(),
            cv == crate::text::pieces_view(cols@),
            rv == rows_view(rows@),
            ws == widths(cv, rv),
            forall|k: int| 0 <= k < rows@.len() ==> (#[trigger] rows@[k])@.len() == cols@.len(),
            wv@.len() == i,
            forall|j: int| 0 <= j < i ==> wv@[j] == ws[j],
        decreases cols@.len() - i,
    {
        let w = col_width_exec(&cols[i], rows, i);
        wv.push(w);
        i = i + 1;
    }
    let mut head: Vec<Vec<char>> = Vec::new();
    let mut rule: Vec<Vec<char>> = Vec::new();
    let mut j: usize = 0;
    while j < cols.len()
        invariant
            j <= cols@.len(),
            wv@.len() == cols@.len(),
            cv == crate::text::pieces_view(cols@),
            forall|k: int| 0 <= k < cols@.len() ==> wv@[k] == ws[k],
            crate::text::pieces_view(head@) == Seq::new(j as nat, |k: int| pad(cv[k], ws[k])),
            crate::text::pieces_view(rule@) == Seq::new(j as nat, |k: int| crate::text::repeat_char('-', ws[k])),
        decreases cols@.len() - j,
    {
        let ghost h0 = crate::text::pieces_view(head@);
        let ghost r0 = crate::text::pieces_view(rule@);
        assert(cv[j as int] == cols@[j as int]@);
        let pj = padded_chars(cols[j].as_slice(), wv[j]);
        let ghost pjv = pj@;
        head.push(pj);
        let mut d: Vec<char> = Vec::new();
        push_copies(&mut d, '-', wv[j]);
        let ghost dv = d@;
        rule.push(d);
        assert(crate::text::pieces_view(head@) =~= h0.push(pjv));
        assert(crate::text::pieces_view(rule@) =~= r0.push(dv));
        assert(crate::text::pieces_view(head@) =~= Seq::new((j + 1) as nat, |k: int| pad(cv[k], ws[k])));
        assert(crate::text::pieces_view(rule@) =~= Seq::new(
            (j + 1) as nat,
            |k: int| crate::text::repeat_char('-', ws[k]),
        ));
        j = j + 1;
    }
    let mut out: Vec<Vec<char>> = Vec::new();
    out.push(join_chars(&head, " | "));
    out.push(join_chars(&rule, "-+-"));
    let mut r: usize = 0;
    while r < rows.len()
        invariant
            r <= rows@.len(),
            wv@.len() == cols@.len(),
            cv == crate::text::pieces_view(cols@),
            rv == rows_view(rows@),
            ws == widths(cv, rv),
            forall|k: int| 0 <= k < cols@.len() ==> wv@[k] == ws[k],
            forall|k: int| 0 <= k < rows@.len() ==> (#[trigger] rows@[k])@.len() == cols@.len(),
            crate::text::pieces_view(out@) == layout(cv, rv).take(r + 2),
        decreases rows@.len() - r,
    {
        let mut cells: Vec<Vec<char>> = Vec::new();
        let mut c: usize = 0;
        while c < cols.len()
            invariant
                c <= cols@.len(),
                r < rows@.len(),
                wv@.len() == cols@.len(),
                rv == rows_view(rows@),
                ws == widths(cv, rv),
                cv == crate::text::pieces_view(cols@),
                forall|k: int| 0 <= k < cols@.len() ==> wv@[k] == ws[k],
                forall|k: int| 0 <= k < rows@.len() ==> (#[trigger] rows@[k])@.len() == cols@.len(),
                crate::text::pieces_view(cells@) == Seq::new(c as nat, |k: int| fit_cell(rv[r as int][k], ws[k])),
            decreases cols@.len() - c,
        {
            let ghost c0 = crate::text::pieces_view(cells@);
            assert(rv[r as int][c as int] == rows@[r as int]@[c as int]@);
            proof {
                lemma_width_zero(crate::text::utf8_len(cv[c as int]), column(rv, c as int));
                assert(column(rv, c as int)[r as int] == rv[r as int][c as int]);
                assert(ws[c as int] == col_width(crate::text::utf8_len(cv[c as int]), column(rv, c as int)));
            }
            let fc = fitted(rows[r][c].as_slice(), wv[c]);
            let ghost fcv = fc@;
            cells.push(fc);
            assert(crate::text::pieces_view(cells@) =~= c0.push(fcv));
            assert(crate::text::pieces_view(cells@) =~= Seq::new(
                (c + 1) as nat,
                |k: int| fit_cell(rv[r as int][k], ws[k]),
            ));
            c = c + 1;
        }
        let ghost o0 = crate::text::pieces_view(out@);
        assert(cells@.map_values(|x: Vec<char>| x@) =~= Seq::new(
            cols@.len() as nat,
            |k: int| fit_cell(rv[r as int][k], ws[k]),
        ));
        let line = join_chars(&cells, " | ");
        let ghost lv = line@;
        out.push(line);
        assert(crate::text::pieces_view(out@) =~= o0.push(lv));
        assert(layout(cv, rv)[r + 2] == lv);
        assert(crate::text::pieces_view(out@) =~= layout(cv, rv).take(r + 3));
        r = r + 1;
    }
    assert(layout(cv, rv).take((rows@.len() + 2) as int) =~= layout(cv, rv));
    out
}


/// The member `data` if there is one, else the value itself.
fn data_of_exec(v: &JsonValue) -> (r: &JsonValue)
    ensures
        *r == data_of(*v),
{
    match v {
        JsonValue::Object(o) => match member_exec(&o.entries, "data") {
            Some(d) => d,
            None => v,
        },
        _ => v,
    }
}

/// The keys of an object's members.
fn keys_exec(es: &Vec<(String, JsonValue)>) -> (r: Vec<String>)
    ensures
        crate::schema::strings_view(r@) == keys(es@),
{
    let mut out: Vec<String> = Vec::new();
    let mut i: usize = 0;
    while i < es.len()
        invariant
            i <= es@.len(),
            crate::schema::strings_view(out@) == keys(es@).take(i as int),
        decreases es@.len() - i,
    {
        let ghost o0 = crate::schema::strings_view(out@);
        out.push(es[i].0.clone());
        assert(crate::schema::strings_view(out@) =~= o0.push(es@[i as int].0@));
        assert(keys(es@).take(i + 1) =~= keys(es@).take(i as int).push(es@[i as int].0@));
        i = i + 1;
    }
    assert(keys(es@).take(es@.len() as int) =~= keys(es@));
    out
}

/// The cells of one object, one per column.
fn object_cells(es: &Vec<(String, JsonValue)>, cols: &Vec<String>, t: &TimeTable) -> (r: Vec<Vec<char>>)
    ensures
        crate::text::pieces_view(r@) == Seq::new(
            cols@.len() as nat,
            |i: int| spec_format_value(cols@[i]@, get_or_null(es@, cols@[i]@), t.entries@),
        ),
{
    let null = JsonValue::Null;
    let mut out: Vec<Vec<char>> = Vec::new();
    let mut i: usize = 0;
    while i < cols.len()
        invariant
            i <= cols@.len(),
            null == JsonValue::Null,
            crate::text::pieces_view(out@) == Seq::new(
                i as nat,
                |k: int| spec_format_value(cols@[k]@, get_or_null(es@, cols@[k]@), t.entries@),
            ),
        decreases cols@.len() - i,
    {
        let v = match member_exec(es, cols[i].as_str()) {
            Some(x) => x,
            None => &null,
        };
        let mut cell: Vec<char> = Vec::new();
        push_value(&mut cell, cols[i].as_str(), v, t);
        let ghost o0 = crate::text::pieces_view(out@);
        let ghost cv = cell@;
        out.push(cell);
        assert(crate::text::pieces_view(out@) =~= o0.push(cv));
        i = i + 1;
        assert(crate::text::pieces_view(out@) =~= Seq::new(
            i as nat,
            |k: int| spec_format_value(cols@[k]@, get_or_null(es@, cols@[k]@), t.entries@),
        ));
    }
    out
}

/// The cells of the objects among `items`.
fn object_rows_exec(items: &Vec<JsonValue>, cols: &Vec<String>, t: &TimeTable) -> (r: Vec<Vec<Vec<char>>>)
    ensures
        rows_view(r@) == object_rows(items@, crate::schema::strings_view(cols@), t.entries@),
        forall|k: int| 0 <= k < r@.len() ==> (#[trigger] r@[k])@.len() == cols@.len(),
{
    let ghost cv = crate::schema::strings_view(cols@);
    let mut out: Vec<Vec<Vec<char>>> = Vec::new();
    let mut i: usize = 0;
    assert(items@.take(0) =~= Seq::<JsonValue>::empty());
    while i < items.len()
        invariant
            i <= items@.len(),
            cv == crate::schema::strings_view(cols@),
            rows_view(out@) == object_rows(items@.take(i as int), cv, t.entries@),
            forall|k: int| 0 <= k < out@.len() ==> (#[trigger] out@[k])@.len() == cols@.len(),
        decreases items@.len() - i,
    {
        assert(items@.take(i + 1).drop_last() =~= items@.take(i as int));
        assert(items@.take(i + 1).last() == items@[i as int]);
        match &items[i] {
            JsonValue::Object(o) => {
                let row = object_cells(&o.entries, cols, t);
                let ghost o0 = rows_view(out@);
                let ghost rv = crate::text::pieces_view(row@);
                assert(rv =~= Seq::new(
                    cv.len(),
                    |k: int| spec_format_value(cv[k], get_or_null(o.entries@, cv[k]), t.entries@),
                ));
                out.push(row);
                assert(rows_view(out@) =~= o0 + seq![rv]);
            },
            _ => {},
        }
        i = i + 1;
    }
    assert(items@.take(items@.len() as int) =~= items@);
    out
}

/// The lines of an array.
fn array_lines_exec(items: &Vec<JsonValue>, t: &TimeTable) -> (r: Vec<Vec<char>>)
    ensures
        crate::text::pieces_view(r@) == array_lines(items@, t.entries@),
{
    if items.len() == 0 {
        let mut out: Vec<Vec<char>> = Vec::new();
        out.push(str_to_chars("(empty)"));
        assert(crate::text::pieces_view(out@) =~= seq!["(empty)"@]);
        return out;
    }
    match &items[0] {
        JsonValue::Object(first) => {
            let cols = keys_exec(&first.entries);
            let rows = object_rows_exec(items, &cols, t);
            let mut colv: Vec<Vec<char>> = Vec::new();
            let mut i: usize = 0;
            while i < cols.len()
                invariant
                    i <= cols@.len(),
                    crate::text::pieces_view(colv@) == crate::schema::strings_view(cols@).take(i as int),
                decreases cols@.len() - i,
            {
                let ghost c0 = crate::text::pieces_view(colv@);
                let cc = str_to_chars(cols[i].as_str());
                colv.push(cc);
                assert(crate::text::pieces_view(colv@) =~= c0.push(cols@[i as int]@));
                assert(crate::schema::strings_view(cols@).take(i + 1) =~= crate::schema::strings_view(cols@).take(
                    i as int,
                ).push(cols@[i as int]@));
                assert(crate::text::pieces_view(colv@) =~= crate::schema::strings_view(cols@).take(i + 1));
                i = i + 1;
            }
            assert(crate::schema::strings_view(cols@).take(cols@.len() as int) =~= crate::schema::strings_view(cols@));
            layout_exec(&colv, &rows)
        },
        _ => {
            let mut out: Vec<Vec<char>> = Vec::new();
            let mut i: usize = 0;
            while i < items.len()
                invariant
                    i <= items@.len(),
                    crate::text::pieces_view(out@) == items@.take(i as int).map_values(
                        |v: JsonValue| spec_format_value(Seq::empty(), v, t.entries@),
                    ),
                decreases items@.len() - i,
            {
                let mut cell: Vec<char> = Vec::new();
                push_value(&mut cell, "", &items[i], t);
                proof {
                    reveal_strlit("");
                    assert(""@ =~= Seq::<char>::empty());
                }
                let ghost o0 = crate::text::pieces_view(out@);
                let ghost cv = cell@;
                out.push(cell);
                assert(crate::text::pieces_view(out@) =~= o0.push(cv));
                assert(items@.take(i + 1).map_values(|v: JsonValue| spec_format_value(Seq::empty(), v, t.entries@))
                    =~= items@.take(i as int).map_values(
                    |v: JsonValue| spec_format_value(Seq::empty(), v, t.entries@),
                ).push(cv));
                i = i + 1;
            }
            assert(items@.take(items@.len() as int) =~= items@);
            out
        },
    }
}

/// Strings holding the given lines.
fn lines_to_strings(v: &Vec<Vec<char>>) -> (r: Vec<String>)
    ensures
        crate::schema::strings_view(r@) == crate::text::pieces_view(v@),
{
    let r = crate::text::pieces_to_strings(v);
    assert(crate::schema::strings_view(r@) =~= crate::text::pieces_view(v@));
    r
}

/// The table rendering of a result, with the local-time texts of `t`.
#[verifier::loop_isolation(false)]
pub fn table_lines_with(value: &JsonValue, t: &TimeTable) -> (r: Vec<String>)
    ensures
        crate::schema::strings_view(r@) == spec_table_lines(*value, t.entries@),
{
    let d = data_of_exec(value);
    match d {
        JsonValue::Array(a) => lines_to_strings(&array_lines_exec(a, t)),
        JsonValue::Object(o) => {
            let es = &o.entries;
            let mut i: usize = 0;
            assert(es@.skip(0) =~= es@);
            while i < es.len()
                invariant
                    i <= es@.len(),
                    first_array(es@) == first_array(es@.skip(i as int)),
                decreases es@.len() - i,
            {
                assert(es@.skip(i as int)[0] == es@[i as int]);
                assert(es@.skip(i as int).drop_first() =~= es@.skip(i + 1));
                match &es[i].1 {
                    JsonValue::Array(a) => {
                        if a.len() > 0 {
                            let mut out: Vec<Vec<char>> = Vec::new();
                            let mut head = str_to_chars(es[i].0.as_str());
                            push_str(&mut head, ":");
                            out.push(head);
                            let rest = array_lines_exec(a, t);
                            let ghost o0 = crate::text::pieces_view(out@);
                            let mut rest = rest;
                            let ghost rv = crate::text::pieces_view(rest@);
                            out.append(&mut rest);
                            assert(crate::text::pieces_view(out@) =~= o0 + rv);
                            assert(first_array(es@.skip(i as int)) == Some((es@[i as int].0@, *a)));
                            assert(crate::text::pieces_view(out@) =~= spec_table_lines(*value, t.entries@));
                            return lines_to_strings(&out);
                        }
                    },
                    _ => {},
                }
                i = i + 1;
            }
            let mut out: Vec<Vec<char>> = Vec::new();
            let mut k: usize = 0;
            while k < es.len()
                invariant
                    k <= es@.len(),
                    crate::text::pieces_view(out@) == es@.take(k as int).map_values(
                        |e: (String, JsonValue)| e.0@ + ": "@ + spec_format_value(e.0@, e.1, t.entries@),
                    ),
                decreases es@.len() - k,
            {
                let mut line = str_to_chars(es[k].0.as_str());
                push_str(&mut line, ": ");
                push_value(&mut line, es[k].0.as_str(), &es[k].1, t);
                let ghost o0 = crate::text::pieces_view(out@);
                let ghost lv = line@;
                out.push(line);
                assert(crate::text::pieces_view(out@) =~= o0.push(lv));
                assert(es@.take(k + 1).map_values(
                    |e: (String, JsonValue)| e.0@ + ": "@ + spec_format_value(e.0@, e.1, t.entries@),
                ) =~= es@.take(k as int).map_values(
                    |e: (String, JsonValue)| e.0@ + ": "@ + spec_format_value(e.0@, e.1, t.entries@),
                ).push(lv));
                k = k + 1;
            }
            assert(es@.take(es@.len() as int) =~= es@);
            lines_to_strings(&out)
        },
        _ => {
            let mut line: Vec<char> = Vec::new();
            push_value(&mut line, "", d, t);
            proof {
                reveal_strlit("");
                assert(""@ =~= Seq::<char>::empty());
            }
            let mut out: Vec<Vec<char>> = Vec::new();
            out.push(line);
            assert(crate::text::pieces_view(out@) =~= spec_table_lines(*value, t.entries@));
            lines_to_strings(&out)
        },
    }
}

/// The table rendering of a result, in local time: the table of its
/// `data` member (or of itself), line by line.
pub fn table_lines(value: &JsonValue) -> (r: Vec<String>)
    ensures
        exists|t: Seq<(i64, Option<String>, Option<String>)>|
            table_fits(t, stamps(*value)) && crate::schema::strings_view(r@) == spec_table_lines(*value, t),
{
    let t = time_table(value);
    table_lines_with(value, &t)
}


// ---------------------------------------------------------------------------
// CSV and Markdown
// ---------------------------------------------------------------------------

/// `s` with every `"` doubled.
pub open spec fn double_quotes(s: Seq<char>) -> Seq<char>
    decreases s.len(),
{
    if s.len() == 0 {
        Seq::empty()
    } else {
        double_quotes(s.drop_last()) + if s.last() == '"' {
            seq!['"', '"']
        } else {
            seq![s.last()]
        }
    }
}

/// A CSV field: quoted, with its quotes doubled, when it holds `,` or `"`.
pub open spec fn csv_cell(c: Seq<char>) -> Seq<char> {
    if c.contains(',') || c.contains('"') {
        "\""@ + double_quotes(c) + "\""@
    } else {
        c
    }
}

/// The keys of the first item of an array, when it is an object.
pub open spec fn first_keys(a: Vec<JsonValue>) -> Seq<Seq<char>> {
    if a.len() > 0 {
        match a@[0] {
            JsonValue::Object(f) => keys(f.entries@),
            _ => Seq::empty(),
        }
    } else {
        Seq::empty()
    }
}

/// The first member holding a non-empty array whose first item is an object.
pub open spec fn first_object_array(es: Seq<(String, JsonValue)>) -> Option<Vec<JsonValue>>
    decreases es.len(),
{
    if es.len() == 0 {
        None
    } else {
        match es[0].1 {
            JsonValue::Array(a) => if a.len() > 0 && a@[0] is Object {
                Some(a)
            } else {
                first_object_array(es.drop_first())
            },
            _ => first_object_array(es.drop_first()),
        }
    }
}

/// The CSV rendering of a result: the table of the first member of its
/// `data` (or of itself) that holds a non-empty array of objects, one line
/// per row; `None` when there is no such member.
pub open spec fn spec_csv_lines(v: JsonValue, t: Seq<(i64, Option<String>, Option<String>)>) -> Option<Seq<Seq<char>>> {
    match data_of(v) {
        JsonValue::Object(o) => match first_object_array(o.entries@) {
            Some(a) => {
                let cols = first_keys(a);
                Some(
                    seq![join(cols, ","@)] + object_rows(a@, cols, t).map_values(
                        |r: Seq<Seq<char>>| join(r.map_values(|c: Seq<char>| csv_cell(c)), ","@),
                    ),
                )
            },
            None => None,
        },
        _ => None,
    }
}

/// A Markdown table of an array of objects.
pub open spec fn md_table(a: Vec<JsonValue>, t: Seq<(i64, Option<String>, Option<String>)>) -> Seq<Seq<char>> {
    let cols = first_keys(a);
    seq![
        "| "@ + join(cols, " | "@) + " |"@,
        "| "@ + join(Seq::new(cols.len(), |i: int| "---"@), " | "@) + " |"@,
    ] + object_rows(a@, cols, t).map_values(|r: Seq<Seq<char>>| "| "@ + join(r, " | "@) + " |"@)
}

/// The Markdown lines of the members from the first on, and whether the
/// JSON of the value is still to be shown after them.
pub open spec fn md_scan(es: Seq<(String, JsonValue)>, t: Seq<(i64, Option<String>, Option<String>)>) -> (
    Seq<Seq<char>>,
    bool,
)
    decreases es.len(),
{
    if es.len() == 0 {
        (Seq::empty(), true)
    } else {
        match es[0].1 {
            JsonValue::Array(a) => if a.len() > 0 {
                let head = seq!["## "@ + es[0].0@, Seq::empty()];
                if a@[0] is Object {
                    (head + md_table(a, t), false)
                } else {
                    let (r, fb) = md_scan(es.drop_first(), t);
                    (head + r, fb)
                }
            } else {
                md_scan(es.drop_first(), t)
            },
            _ => md_scan(es.drop_first(), t),
        }
    }
}

/// The Markdown rendering of a result: a `##` heading for each member of
/// its `data` (or of itself) that holds a non-empty array, up to the first
/// whose items are objects, which is shown as a table; and whether the JSON
/// of the value is to follow (when no such member was found).
pub open spec fn spec_markdown_lines(v: JsonValue, t: Seq<(i64, Option<String>, Option<String>)>) -> (
    Seq<Seq<char>>,
    bool,
) {
    match data_of(v) {
        JsonValue::Object(o) => md_scan(o.entries@, t),
        _ => (Seq::empty(), true),
    }
}

/// A CSV field.
fn csv_cell_exec(c: &Vec<char>) -> (r: Vec<char>)
    ensures
        r@ == csv_cell(c@),
{
    let mut special = false;
    let mut i: usize = 0;
    while i < c.len()
        invariant
            i <= c@.len(),
            special == (c@.take(i as int).contains(',') || c@.take(i as int).contains('"')),
        decreases c@.len() - i,
    {
        assert(c@.take(i + 1) =~= c@.take(i as int).push(c@[i as int]));
        if c[i] == ',' || c[i] == '"' {
            special = true;
            assert(c@.take(i + 1)[i as int] == c@[i as int]);
        }
        i = i + 1;
    }
    assert(c@.take(c@.len() as int) =~= c@);
    if !special {
        return c.clone();
    }
    let mut out: Vec<char> = Vec::new();
    out.push('"');
    let ghost start = out@;
    let mut k: usize = 0;
    assert(c@.take(0) =~= Seq::<char>::empty());
    while k < c.len()
        invariant
            k <= c@.len(),
            out@ == start + double_quotes(c@.take(k as int)),
        decreases c@.len() - k,
    {
        assert(c@.take(k + 1).drop_last() =~= c@.take(k as int));
        if c[k] == '"' {
            out.push('"');
            out.push('"');
        } else {
            out.push(c[k]);
        }
        k = k + 1;
        assert(out@ =~= start + double_quotes(c@.take(k as int)));
    }
    out.push('"');
    proof {
        reveal_strlit("\"");
    }
    assert(out@ =~= csv_cell(c@));
    out
}

proof fn lemma_first_object_array(es: Seq<(String, JsonValue)>)
    ensures
        first_object_array(es) matches Some(a) ==> a.len() > 0 && a@[0] is Object,
    decreases es.len(),
{
    if es.len() > 0 {
        lemma_first_object_array(es.drop_first());
    }
}

/// The index of the first member holding a non-empty array of objects.
fn first_object_array_exec(es: &Vec<(String, JsonValue)>) -> (r: Option<usize>)
    ensures
        match r {
            Some(i) => i < es@.len() && (es@[i as int].1 matches JsonValue::Array(a)
                && first_object_array(es@) == Some(a)),
            None => first_object_array(es@) is None,
        },
{
    let mut i: usize = 0;
    assert(es@.skip(0) =~= es@);
    while i < es.len()
        invariant
            i <= es@.len(),
            first_object_array(es@) == first_object_array(es@.skip(i as int)),
        decreases es@.len() - i,
    {
        assert(es@.skip(i as int)[0] == es@[i as int]);
        assert(es@.skip(i as int).drop_first() =~= es@.skip(i + 1));
        match &es[i].1 {
            JsonValue::Array(a) => {
                if a.len() > 0 && matches!(a[0], JsonValue::Object(_)) {
                    return Some(i);
                }
            },
            _ => {},
        }
        i = i + 1;
    }
    None
}

/// The CSV rendering of a result, with the local-time texts of `t`.
pub fn csv_lines_with(value: &JsonValue, t: &TimeTable) -> (r: Option<Vec<String>>)
    ensures
        match r {
            Some(v) => spec_csv_lines(*value, t.entries@) == Some(crate::schema::strings_view(v@)),
            None => spec_csv_lines(*value, t.entries@) is None,
        },
{
    let d = data_of_exec(value);
    match d {
        JsonValue::Object(o) => {
            proof {
                lemma_first_object_array(o.entries@);
            }
            match first_object_array_exec(&o.entries) {
            Some(i) => match &o.entries[i].1 {
                JsonValue::Array(a) => match &a[0] {
                    JsonValue::Object(first) => {
                        let cols = keys_exec(&first.entries);
                        let rows = object_rows_exec(a, &cols, t);
                        let mut colv: Vec<Vec<char>> = Vec::new();
                        let mut k: usize = 0;
                        while k < cols.len()
                            invariant
                                k <= cols@.len(),
                                crate::text::pieces_view(colv@) == crate::schema::strings_view(cols@).take(k as int),
                            decreases cols@.len() - k,
                        {
                            let ghost c0 = crate::text::pieces_view(colv@);
                            let cc = str_to_chars(cols[k].as_str());
                            colv.push(cc);
                            assert(crate::text::pieces_view(colv@) =~= c0.push(cols@[k as int]@));
                            assert(crate::schema::strings_view(cols@).take(k + 1) =~= crate::schema::strings_view(
                                cols@,
                            ).take(k as int).push(cols@[k as int]@));
                            k = k + 1;
                        }
                        assert(crate::schema::strings_view(cols@).take(cols@.len() as int)
                            =~= crate::schema::strings_view(cols@));
                        let ghost cv = crate::schema::strings_view(cols@);
                        let ghost rv = rows_view(rows@);
                        let mut out: Vec<Vec<char>> = Vec::new();
                        assert(colv@.map_values(|x: Vec<char>| x@) =~= cv);
                        out.push(join_chars(&colv, ","));
                        let mut r: usize = 0;
                        while r < rows.len()
                            invariant
                                r <= rows@.len(),
                                rv == rows_view(rows@),
                                crate::text::pieces_view(out@) == seq![join(cv, ","@)] + rv.take(r as int).map_values(
                                    |row: Seq<Seq<char>>| join(row.map_values(|c: Seq<char>| csv_cell(c)), ","@),
                                ),
                            decreases rows@.len() - r,
                        {
                            let mut cells: Vec<Vec<char>> = Vec::new();
                            let mut c: usize = 0;
                            while c < rows[r].len()
                                invariant
                                    r < rows@.len(),
                                    c <= rows@[r as int]@.len(),
                                    rv == rows_view(rows@),
                                    cells@.map_values(|x: Vec<char>| x@) == rv[r as int].take(c as int).map_values(
                                        |x: Seq<char>| csv_cell(x),
                                    ),
                                decreases rows@[r as int]@.len() - c,
                            {
                                let ghost c0 = cells@.map_values(|x: Vec<char>| x@);
                                let cell = csv_cell_exec(&rows[r][c]);
                                let ghost cellv = cell@;
                                cells.push(cell);
                                assert(rv[r as int][c as int] == rows@[r as int]@[c as int]@);
                                assert(cells@.map_values(|x: Vec<char>| x@) =~= c0.push(cellv));
                                assert(rv[r as int].take(c + 1).map_values(|x: Seq<char>| csv_cell(x))
                                    =~= rv[r as int].take(c as int).map_values(|x: Seq<char>| csv_cell(x)).push(
                                    cellv,
                                ));
                                c = c + 1;
                            }
                            assert(rv[r as int].take(rows@[r as int]@.len() as int) =~= rv[r as int]);
                            let ghost o0 = crate::text::pieces_view(out@);
                            let line = join_chars(&cells, ",");
                            let ghost lv = line@;
                            out.push(line);
                            assert(crate::text::pieces_view(out@) =~= o0.push(lv));
                            assert(rv.take(r + 1) =~= rv.take(r as int).push(rv[r as int]));
                            r = r + 1;
                        }
                        assert(rv.take(rows@.len() as int) =~= rv);
                        assert(first_keys(*a) == cv);
                        Some(lines_to_strings(&out))
                    },
                    _ => None,
                },
                _ => None,
            },
            None => None,
        }
        },
        _ => None,
    }
}


/// The column names of an array whose first item is an object, as
/// character vectors.
fn first_columns(a: &Vec<JsonValue>) -> (r: (Vec<String>, Vec<Vec<char>>))
    requires
        a@.len() > 0,
        a@[0] is Object,
    ensures
        crate::schema::strings_view(r.0@) == first_keys(*a),
        crate::text::pieces_view(r.1@) == first_keys(*a),
{
    match &a[0] {
        JsonValue::Object(first) => {
            let cols = keys_exec(&first.entries);
            let mut colv: Vec<Vec<char>> = Vec::new();
            let mut k: usize = 0;
            while k < cols.len()
                invariant
                    k <= cols@.len(),
                    crate::text::pieces_view(colv@) == crate::schema::strings_view(cols@).take(k as int),
                decreases cols@.len() - k,
            {
                let ghost c0 = crate::text::pieces_view(colv@);
                let cc = str_to_chars(cols[k].as_str());
                colv.push(cc);
                assert(crate::text::pieces_view(colv@) =~= c0.push(cols@[k as int]@));
                assert(crate::schema::strings_view(cols@).take(k + 1) =~= crate::schema::strings_view(
                    cols@,
                ).take(k as int).push(cols@[k as int]@));
                k = k + 1;
            }
            assert(crate::schema::strings_view(cols@).take(cols@.len() as int) =~= crate::schema::strings_view(
                cols@,
            ));
            (cols, colv)
        },
        _ => (Vec::new(), Vec::new()),
    }
}

/// `"| " + parts joined by " | " + " |"`.
fn md_row(parts: &Vec<Vec<char>>) -> (r: Vec<char>)
    ensures
        r@ == "| "@ + join(crate::text::pieces_view(parts@), " | "@) + " |"@,
{
    let mut out: Vec<char> = Vec::new();
    push_str(&mut out, "| ");
    let j = join_chars(parts, " | ");
    assert(parts@.map_values(|x: Vec<char>| x@) =~= crate::text::pieces_view(parts@));
    push_chars(&mut out, j.as_slice());
    push_str(&mut out, " |");
    out
}

/// A Markdown table of an array of objects.
fn md_table_exec(a: &Vec<JsonValue>, t: &TimeTable) -> (r: Vec<Vec<char>>)
    requires
        a@.len() > 0,
        a@[0] is Object,
    ensures
        crate::text::pieces_view(r@) == md_table(*a, t.entries@),
{
    let (cols, colv) = first_columns(a);
    let ghost cv = first_keys(*a);
    let rows = object_rows_exec(a, &cols, t);
    let ghost rv = rows_view(rows@);
    let mut out: Vec<Vec<char>> = Vec::new();
    out.push(md_row(&colv));
    let mut dashes: Vec<Vec<char>> = Vec::new();
    let mut k: usize = 0;
    while k < colv.len()
        invariant
            k <= colv@.len(),
            crate::text::pieces_view(dashes@) == Seq::new(k as nat, |i: int| "---"@),
        decreases colv@.len() - k,
    {
        let ghost d0 = crate::text::pieces_view(dashes@);
        let d = str_to_chars("---");
        dashes.push(d);
        assert(crate::text::pieces_view(dashes@) =~= d0.push("---"@));
        assert(crate::text::pieces_view(dashes@) =~= Seq::new((k + 1) as nat, |i: int| "---"@));
        k = k + 1;
    }
    out.push(md_row(&dashes));
    let mut r: usize = 0;
    while r < rows.len()
        invariant
            r <= rows@.len(),
            rv == rows_view(rows@),
            cv == first_keys(*a),
            crate::text::pieces_view(out@) == seq![
                "| "@ + join(cv, " | "@) + " |"@,
                "| "@ + join(Seq::new(cv.len(), |i: int| "---"@), " | "@) + " |"@,
            ] + rv.take(r as int).map_values(|row: Seq<Seq<char>>| "| "@ + join(row, " | "@) + " |"@),
        decreases rows@.len() - r,
    {
        let ghost o0 = crate::text::pieces_view(out@);
        let line = md_row(&rows[r]);
        let ghost lv = line@;
        assert(crate::text::pieces_view(rows@[r as int]@) == rv[r as int]);
        out.push(line);
        assert(crate::text::pieces_view(out@) =~= o0.push(lv));
        assert(rv.take(r + 1) =~= rv.take(r as int).push(rv[r as int]));
        r = r + 1;
    }
    assert(rv.take(rows@.len() as int) =~= rv);
    out
}

/// The Markdown rendering of a result, with the local-time texts of `t`:
/// its lines, and whether the JSON of the value is to follow them.
#[verifier::loop_isolation(false)]
pub fn markdown_lines_with(value: &JsonValue, t: &TimeTable) -> (r: (Vec<String>, bool))
    ensures
        (crate::schema::strings_view(r.0@), r.1) == spec_markdown_lines(*value, t.entries@),
{
    let d = data_of_exec(value);
    let mut out: Vec<Vec<char>> = Vec::new();
    match d {
        JsonValue::Object(o) => {
            let es = &o.entries;
            let mut i: usize = 0;
            assert(es@.skip(0) =~= es@);
            assert(crate::text::pieces_view(out@) =~= Seq::<Seq<char>>::empty());
            while i < es.len()
                invariant
                    i <= es@.len(),
                    md_scan(es@, t.entries@) == (
                        crate::text::pieces_view(out@) + md_scan(es@.skip(i as int), t.entries@).0,
                        md_scan(es@.skip(i as int), t.entries@).1,
                    ),
                decreases es@.len() - i,
            {
                assert(es@.skip(i as int)[0] == es@[i as int]);
                assert(es@.skip(i as int).drop_first() =~= es@.skip(i + 1));
                match &es[i].1 {
                    JsonValue::Array(a) => {
                        if a.len() > 0 {
                            let ghost o0 = crate::text::pieces_view(out@);
                            let mut head = str_to_chars("## ");
                            push_str(&mut head, es[i].0.as_str());
                            let ghost hv = head@;
                            out.push(head);
                            out.push(Vec::new());
                            assert(crate::text::pieces_view(out@) =~= o0 + seq![hv, Seq::empty()]);
                            if matches!(a[0], JsonValue::Object(_)) {
                                let ghost o1 = crate::text::pieces_view(out@);
                                let mut tbl = md_table_exec(a, t);
                                let ghost tv = crate::text::pieces_view(tbl@);
                                out.append(&mut tbl);
                                assert(crate::text::pieces_view(out@) =~= o1 + tv);
                                assert(crate::text::pieces_view(out@) =~= o0 + (seq![hv, Seq::empty()] + tv));
                                return (lines_to_strings(&out), false);
                            }
                            let ghost rest = md_scan(es@.skip(i + 1), t.entries@);
                            assert(o0 + (seq![hv, Seq::<char>::empty()] + rest.0) =~= crate::text::pieces_view(
                                out@,
                            ) + rest.0);
                        }
                    },
                    _ => {},
                }
                i = i + 1;
            }
            assert(crate::text::pieces_view(out@) + Seq::<Seq<char>>::empty() =~= crate::text::pieces_view(out@));
            (lines_to_strings(&out), true)
        },
        _ => {
            assert(crate::text::pieces_view(out@) =~= Seq::<Seq<char>>::empty());
            (lines_to_strings(&out), true)
        },
    }
}

/// The CSV rendering of a result in local time (`None`: show its JSON).
pub fn csv_lines(value: &JsonValue) -> (r: Option<Vec<String>>)
    ensures
        exists|t: Seq<(i64, Option<String>, Option<String>)>|
            table_fits(t, stamps(*value)) && match r {
                Some(v) => spec_csv_lines(*value, t) == Some(crate::schema::strings_view(v@)),
                None => spec_csv_lines(*value, t) is None,
            },
{
    let t = time_table(value);
    csv_lines_with(value, &t)
}

/// The Markdown rendering of a result in local time, and whether its JSON
/// is to follow.
pub fn markdown_lines(value: &JsonValue) -> (r: (Vec<String>, bool))
    ensures
        exists|t: Seq<(i64, Option<String>, Option<String>)>|
            table_fits(t, stamps(*value)) && (crate::schema::strings_view(r.0@), r.1)
                == spec_markdown_lines(*value, t),
{
    let t = time_table(value);
    markdown_lines_with(value, &t)
}

/// The objects of an array, in array order.
pub open spec fn objects_of(items: Seq<JsonValue>) -> Seq<JsonValue> {
    items.filter(|x: JsonValue| x is Object)
}

/// The Markdown row of an object under the columns `cols`: each column's
/// member shown as a cell, between `| ` and ` |`.
pub open spec fn md_row_of(o: JsonValue, cols: Seq<Seq<char>>, t: Seq<(i64, Option<String>, Option<String>)>) -> Seq<char> {
    match o {
        JsonValue::Object(ob) => "| "@ + join(
            Seq::new(cols.len(), |i: int| spec_format_value(cols[i], get_or_null(ob.entries@, cols[i]), t)),
            " | "@,
        ) + " |"@,
        _ => Seq::empty(),
    }
}

proof fn lemma_object_rows_are_objects(
    items: Seq<JsonValue>,
    cols: Seq<Seq<char>>,
    t: Seq<(i64, Option<String>, Option<String>)>,
)
    ensures
        object_rows(items, cols, t).map_values(|r: Seq<Seq<char>>| "| "@ + join(r, " | "@) + " |"@)
            == objects_of(items).map_values(|o: JsonValue| md_row_of(o, cols, t)),
    decreases items.len(),
{
    reveal(Seq::filter);
    let f = |r: Seq<Seq<char>>| "| "@ + join(r, " | "@) + " |"@;
    let g = |o: JsonValue| md_row_of(o, cols, t);
    if items.len() == 0 {
        assert(objects_of(items) =~= Seq::<JsonValue>::empty());
        assert(object_rows(items, cols, t).map_values(f) =~= objects_of(items).map_values(g));
    } else {
        let init = items.drop_last();
        lemma_object_rows_are_objects(init, cols, t);
        let prev_rows = object_rows(init, cols, t);
        let prev_objs = objects_of(init);
        assert(objects_of(items) == if items.last() is Object {
            prev_objs.push(items.last())
        } else {
            prev_objs
        });
        match items.last() {
            JsonValue::Object(o) => {
                let cells = Seq::new(
                    cols.len(),
                    |i: int| spec_format_value(cols[i], get_or_null(o.entries@, cols[i]), t),
                );
                assert(object_rows(items, cols, t) == prev_rows + seq![cells]);
                assert(f(cells) == g(items.last()));
                assert((prev_rows + seq![cells]).map_values(f) =~= prev_rows.map_values(f).push(f(cells)));
                assert(prev_objs.push(items.last()).map_values(g) =~= prev_objs.map_values(g).push(
                    g(items.last()),
                ));
            },
            _ => {
                assert(object_rows(items, cols, t) =~= prev_rows);
            },
        }
    }
}

/// The Markdown table of an array has a header line, a rule line, and then
/// one row per object of the array, in array order: line `k + 2` shows the
/// `k`-th object under the columns of the first item's keys. Items that
/// are not objects give no row.
pub proof fn law_markdown_table_rows(a: Vec<JsonValue>, t: Seq<(i64, Option<String>, Option<String>)>)
    ensures
        md_table(a, t).len() == objects_of(a@).len() + 2,
        forall|k: int|
            0 <= k < objects_of(a@).len() ==> #[trigger] md_table(a, t)[k + 2] == md_row_of(
                objects_of(a@)[k],
                first_keys(a),
                t,
            ),
{
    lemma_object_rows_are_objects(a@, first_keys(a), t);
    let rows = object_rows(a@, first_keys(a), t).map_values(
        |r: Seq<Seq<char>>| "| "@ + join(r, " | "@) + " |"@,
    );
    let objs = objects_of(a@).map_values(|o: JsonValue| md_row_of(o, first_keys(a), t));
    assert(rows == objs);
    assert forall|k: int| 0 <= k < objects_of(a@).len() implies #[trigger] md_table(a, t)[k + 2] == md_row_of(
        objects_of(a@)[k],
        first_keys(a),
        t,
    ) by {
        assert(md_table(a, t)[k + 2] == rows[k]);
        assert(objs[k] == md_row_of(objects_of(a@)[k], first_keys(a), t));
    }
}

/// The cells of an object under the columns `cols`, one per column.
pub open spec fn cells_of(o: JsonValue, cols: Seq<Seq<char>>, t: Seq<(i64, Option<String>, Option<String>)>) -> Seq<Seq<char>> {
    match o {
        JsonValue::Object(ob) => Seq::new(
            cols.len(),
            |i: int| spec_format_value(cols[i], get_or_null(ob.entries@, cols[i]), t),
        ),
        _ => Seq::empty(),
    }
}

/// The rows of an array of results are its objects, one row each, in array
/// order, each holding the object's cells under the columns.
pub proof fn law_one_row_per_object(
    items: Seq<JsonValue>,
    cols: Seq<Seq<char>>,
    t: Seq<(i64, Option<String>, Option<String>)>,
)
    ensures
        object_rows(items, cols, t) == objects_of(items).map_values(|o: JsonValue| cells_of(o, cols, t)),
    decreases items.len(),
{
    reveal(Seq::filter);
    let g = |o: JsonValue| cells_of(o, cols, t);
    if items.len() == 0 {
        assert(objects_of(items) =~= Seq::<JsonValue>::empty());
        assert(object_rows(items, cols, t) =~= objects_of(items).map_values(g));
    } else {
        let init = items.drop_last();
        law_one_row_per_object(init, cols, t);
        let prev_rows = object_rows(init, cols, t);
        let prev_objs = objects_of(init);
        assert(objects_of(items) == if items.last() is Object {
            prev_objs.push(items.last())
        } else {
            prev_objs
        });
        match items.last() {
            JsonValue::Object(o) => {
                assert(object_rows(items, cols, t) == prev_rows + seq![g(items.last())]);
                assert(prev_objs.push(items.last()).map_values(g) =~= prev_objs.map_values(g).push(
                    g(items.last()),
                ));
                assert(prev_rows + seq![g(items.last())] =~= prev_rows.push(g(items.last())));
            },
            _ => {
                assert(object_rows(items, cols, t) =~= prev_rows);
            },
        }
    }
}

/// The CSV of a result has its header line and then one line per object of
/// the array it shows.
pub proof fn law_csv_one_line_per_object(v: JsonValue, t: Seq<(i64, Option<String>, Option<String>)>)
    ensures
        spec_csv_lines(v, t) matches Some(ls) ==> (data_of(v) matches JsonValue::Object(o) && first_object_array(
            o.entries@,
        ) matches Some(a) && ls.len() == objects_of(a@).len() + 1),
{
    if let JsonValue::Object(o) = data_of(v) {
        if let Some(a) = first_object_array(o.entries@) {
            law_one_row_per_object(a@, first_keys(a), t);
        }
    }
}

/// The aligned table of an array whose first item is an object has its
/// header line, its rule, and then one line per object of the array.
pub proof fn law_table_one_line_per_object(items: Seq<JsonValue>, t: Seq<(i64, Option<String>, Option<String>)>)
    requires
        items.len() > 0,
        items[0] is Object,
    ensures
        array_lines(items, t).len() == objects_of(items).len() + 2,
{
    let cols = keys(items[0]->Object_0.entries@);
    law_one_row_per_object(items, cols, t);
}

} // verus!
