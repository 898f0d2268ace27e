//! A JSON value model, its canonical form, and its compact text encoding.
//!
//! Canonical form: object keys sorted by scalar sequence with the last write of a
//! key winning, recursively; array order kept. The text encoding has no
//! insignificant whitespace and escapes exactly the characters JSON requires.

use crate::text::{
    chars_lt, chars_of, compare_chars, decimal, KeyOrder, lemma_chars_lt_asymmetric,
    lemma_chars_lt_irreflexive, decimal_chars, hex_char, hex_digit, i64_to_string, same_text,
    signed_decimal,
};
use vstd::prelude::*;
use vstd::std_specs::cmp::PartialEqSpecImpl;

verus! {

/// A JSON number. Non-negative integers are `Unsigned`, negative ones `Negative`,
/// and every other number carries its rendered decimal text.
#[derive(Debug, PartialEq, Eq)]
pub enum JsonNumber {
    Unsigned(u64),
    Negative(i64),
    Decimal(String),
}

/// A JSON value. Object entries keep insertion order; a key written twice
/// resolves to its last value, as a map insertion would.
#[derive(Debug)]
pub enum JsonValue {
    Null,
    Bool(bool),
    Number(JsonNumber),
    String(String),
    Array(Vec<JsonValue>),
    Object(Vec<(String, JsonValue)>),
}

/// The mathematical content of a JSON number.
pub enum NumberView {
    Unsigned(u64),
    Negative(i64),
    Decimal(Seq<char>),
}

/// The mathematical content of a JSON value.
pub enum JsonView {
    Null,
    Bool(bool),
    Number(NumberView),
    Text(Seq<char>),
    Array(Seq<JsonView>),
    Object(Seq<(Seq<char>, JsonView)>),
}

pub open spec fn number_view(n: JsonNumber) -> NumberView {
    match n {
        JsonNumber::Unsigned(u) => NumberView::Unsigned(u),
        JsonNumber::Negative(i) => NumberView::Negative(i),
        JsonNumber::Decimal(t) => NumberView::Decimal(t@),
    }
}

pub open spec fn json_view(v: JsonValue) -> JsonView
    decreases v, 0nat,
{
    match v {
        JsonValue::Null => JsonView::Null,
        JsonValue::Bool(b) => JsonView::Bool(b),
        JsonValue::Number(n) => JsonView::Number(number_view(n)),
        JsonValue::String(s) => JsonView::Text(s@),
        JsonValue::Array(items) => JsonView::Array(items_view(items@, items@.len() as nat)),
        JsonValue::Object(entries) => JsonView::Object(
            entries_view(entries@, entries@.len() as nat),
        ),
    }
}

pub open spec fn items_view(items: Seq<JsonValue>, n: nat) -> Seq<JsonView>
    decreases items, n,
{
    if n == 0 || n > items.len() {
        Seq::empty()
    } else {
        items_view(items, (n - 1) as nat).push(json_view(items[n - 1]))
    }
}

pub open spec fn entries_view(entries: Seq<(String, JsonValue)>, n: nat) -> Seq<
    (Seq<char>, JsonView),
>
    decreases entries, n,
{
    if n == 0 || n > entries.len() {
        Seq::empty()
    } else {
        entries_view(entries, (n - 1) as nat).push(
            (entries[n - 1].0@, json_view(entries[n - 1].1)),
        )
    }
}

impl View for JsonValue {
    type V = JsonView;

    open spec fn view(&self) -> JsonView {
        json_view(*self)
    }
}

pub proof fn lemma_items_view_len(items: Seq<JsonValue>, n: nat)
    requires
        n <= items.len(),
    ensures
        items_view(items, n).len() == n,
        forall|k: int| 0 <= k < n ==> #[trigger] items_view(items, n)[k] == json_view(items[k]),
    decreases n,
{
    if n > 0 {
        lemma_items_view_len(items, (n - 1) as nat);
    }
}

pub proof fn lemma_entries_view_len(entries: Seq<(String, JsonValue)>, n: nat)
    requires
        n <= entries.len(),
    ensures
        entries_view(entries, n).len() == n,
        forall|k: int|
            0 <= k < n ==> #[trigger] entries_view(entries, n)[k] == (
                entries[k].0@,
                json_view(entries[k].1),
            ),
    decreases n,
{
    if n > 0 {
        lemma_entries_view_len(entries, (n - 1) as nat);
    }
}

// ---------------------------------------------------------------------------
// Lookup
// ---------------------------------------------------------------------------

/// The value a key resolves to: its last occurrence.
pub open spec fn lookup(entries: Seq<(Seq<char>, JsonView)>, key: Seq<char>) -> Option<JsonView>
    decreases entries.len(),
{
    if entries.len() == 0 {
        None
    } else if entries.last().0 == key {
        Some(entries.last().1)
    } else {
        lookup(entries.drop_last(), key)
    }
}

/// The member of an object under `key`, or `None` for a non-object.
pub open spec fn member(v: JsonView, key: Seq<char>) -> Option<JsonView> {
    match v {
        JsonView::Object(entries) => lookup(entries, key),
        _ => None,
    }
}

impl JsonValue {
    /// The member under `key` of an object, as `Value::get` with a string index.
    pub fn get(&self, key: &str) -> (r: Option<&JsonValue>)
        ensures
            match r {
                Some(v) => member(self@, key@) == Some(v@),
                None => member(self@, key@) is None,
            },
    {
        match self {
            JsonValue::Object(entries) => {
                proof {
                    lemma_entries_view_len(entries@, entries@.len() as nat);
                }
                let mut i: usize = entries.len();
                while i > 0
                    invariant
                        i <= entries.len(),
                        self@ == JsonView::Object(entries_view(entries@, entries@.len() as nat)),
                        lookup(entries_view(entries@, entries@.len() as nat), key@) == lookup(
                            entries_view(entries@, i as nat),
                            key@,
                        ),
                    decreases i,
                {
                    proof {
                        lemma_entries_view_len(entries@, i as nat);
                    }
                    if same_text(entries[i - 1].0.as_str(), key) {
                        return Some(&entries[i - 1].1);
                    }
                    assert(entries_view(entries@, i as nat).drop_last() =~= entries_view(
                        entries@,
                        (i - 1) as nat,
                    ));
                    i = i - 1;
                }
                None
            },
            _ => None,
        }
    }

    /// The text of a string value, as `Value::as_str`.
    pub fn as_text(&self) -> (r: Option<&String>)
        ensures
            match r {
                Some(s) => self@ == JsonView::Text(s@),
                None => !(self@ is Text),
            },
    {
        match self {
            JsonValue::String(s) => Some(s),
            _ => None,
        }
    }

    /// The number of a non-negative integer value, as `Value::as_u64`.
    pub fn as_u64(&self) -> (r: Option<u64>)
        ensures
            match r {
                Some(n) => self@ == JsonView::Number(NumberView::Unsigned(n)),
                None => !(self@ matches JsonView::Number(NumberView::Unsigned(_))),
            },
    {
        match self {
            JsonValue::Number(JsonNumber::Unsigned(n)) => Some(*n),
            _ => None,
        }
    }

    /// The elements of an array value, as `Value::as_array`.
    pub fn as_items(&self) -> (r: Option<&Vec<JsonValue>>)
        ensures
            match r {
                Some(items) => self@ == JsonView::Array(items_view(items@, items@.len() as nat)),
                None => !(self@ is Array),
            },
    {
        match self {
            JsonValue::Array(items) => Some(items),
            _ => None,
        }
    }
}


// ---------------------------------------------------------------------------
// Canonical form
// ---------------------------------------------------------------------------

/// Sorted insertion of one entry: an equal key is replaced, a new key lands
/// before the first larger one.
pub open spec fn insert_entry(list: Seq<(Seq<char>, JsonView)>, key: Seq<char>, value: JsonView) -> Seq<
    (Seq<char>, JsonView),
>
    decreases list.len(),
{
    if list.len() == 0 {
        seq![(key, value)]
    } else if chars_lt(key, list[0].0) {
        seq![(key, value)] + list
    } else if key == list[0].0 {
        seq![(key, value)] + list.drop_first()
    } else {
        seq![list[0]] + insert_entry(list.drop_first(), key, value)
    }
}

/// The canonical form: every object's entries sorted by key, the last write of
/// a key winning, recursively; arrays keep their order.
pub open spec fn canonical(v: JsonView) -> JsonView
    decreases v, 0nat,
{
    match v {
        JsonView::Array(items) => JsonView::Array(canonical_items(items, items.len())),
        JsonView::Object(entries) => JsonView::Object(canonical_entries(entries, entries.len())),
        _ => v,
    }
}

pub open spec fn canonical_items(items: Seq<JsonView>, n: nat) -> Seq<JsonView>
    decreases items, n,
{
    if n == 0 || n > items.len() {
        Seq::empty()
    } else {
        canonical_items(items, (n - 1) as nat).push(canonical(items[n - 1]))
    }
}

pub open spec fn canonical_entries(entries: Seq<(Seq<char>, JsonView)>, n: nat) -> Seq<
    (Seq<char>, JsonView),
>
    decreases entries, n,
{
    if n == 0 || n > entries.len() {
        Seq::empty()
    } else {
        insert_entry(
            canonical_entries(entries, (n - 1) as nat),
            entries[n - 1].0,
            canonical(entries[n - 1].1),
        )
    }
}

// ---------------------------------------------------------------------------
// Text
// ---------------------------------------------------------------------------

/// The escape sequence for one string character.
pub open spec fn escape_char(c: char) -> Seq<char> {
    if c == '"' {
        seq!['\\', '"']
    } else if c == '\\' {
        seq!['\\', '\\']
    } else if c == '\n' {
        seq!['\\', 'n']
    } else if c == '\r' {
        seq!['\\', 'r']
    } else if c == '\t' {
        seq!['\\', 't']
    } else if (c as u32) == 8 {
        seq!['\\', 'b']
    } else if (c as u32) == 12 {
        seq!['\\', 'f']
    } else if (c as u32) < 32 {
        seq![
            '\\',
            'u',
            '0',
            '0',
            hex_digit(((c as u32) / 16) as nat),
            hex_digit(((c as u32) % 16) as nat),
        ]
    } else {
        seq![c]
    }
}

pub open spec fn escape(s: Seq<char>) -> Seq<char>
    decreases s.len(),
{
    if s.len() == 0 {
        Seq::empty()
    } else {
        escape(s.drop_last()) + escape_char(s.last())
    }
}

/// A JSON string literal.
pub open spec fn quoted(s: Seq<char>) -> Seq<char> {
    seq!['"'] + escape(s) + seq!['"']
}

pub open spec fn number_text(n: NumberView) -> Seq<char> {
    match n {
        NumberView::Unsigned(u) => decimal(u as nat),
        NumberView::Negative(i) => signed_decimal(i as int),
        NumberView::Decimal(t) => if is_zero_decimal(t) {
            seq!['0']
        } else {
            t
        },
    }
}

/// The part of a decimal text before its exponent, if it has one.
pub open spec fn mantissa(t: Seq<char>) -> Seq<char>
    decreases t.len(),
{
    if t.len() == 0 || t[0] == 'e' || t[0] == 'E' {
        Seq::empty()
    } else {
        seq![t[0]] + mantissa(t.drop_first())
    }
}

/// Whether a decimal text denotes zero, of either sign: its mantissa has a
/// digit, and every digit of it is `0`. Such a number is written `0`, so
/// `-0.0` and `0.0`, the same quantity, write the same text.
pub open spec fn is_zero_decimal(t: Seq<char>) -> bool {
    let m = mantissa(t);
    &&& exists|i: int| 0 <= i < m.len() && m[i] == '0'
    &&& forall|i: int|
        0 <= i < m.len() ==> m[i] == '0' || m[i] == '.' || (i == 0 && (m[i] == '-' || m[i] == '+'))
}

proof fn lemma_mantissa_step(t: Seq<char>, k: int)
    requires
        0 <= k < t.len(),
        forall|j: int| 0 <= j < k ==> t[j] != 'e' && t[j] != 'E',
    ensures
        mantissa(t).len() >= k,
        forall|j: int| 0 <= j < k ==> mantissa(t)[j] == t[j],
        (t[k] == 'e' || t[k] == 'E') ==> mantissa(t).len() == k,
        (t[k] != 'e' && t[k] != 'E') ==> mantissa(t).len() > k && mantissa(t)[k] == t[k],
    decreases k,
{
    if k > 0 {
        let d = t.drop_first();
        assert forall|j: int| 0 <= j < k - 1 implies d[j] != 'e' && d[j] != 'E' by {
            assert(d[j] == t[j + 1]);
        }
        lemma_mantissa_step(d, k - 1);
        assert(t[0] != 'e' && t[0] != 'E');
        assert(mantissa(t) == seq![t[0]] + mantissa(d));
        assert forall|j: int| 0 <= j < k implies mantissa(t)[j] == t[j] by {
            if j > 0 {
                assert(mantissa(t)[j] == mantissa(d)[j - 1]);
                assert(d[j - 1] == t[j]);
            }
        }
        if t[k] != 'e' && t[k] != 'E' {
            assert(mantissa(t)[k] == mantissa(d)[k - 1]);
        }
    }
}

proof fn lemma_mantissa_whole(t: Seq<char>)
    requires
        forall|j: int| 0 <= j < t.len() ==> t[j] != 'e' && t[j] != 'E',
    ensures
        mantissa(t) == t,
    decreases t.len(),
{
    if t.len() > 0 {
        let d = t.drop_first();
        assert forall|j: int| 0 <= j < d.len() implies d[j] != 'e' && d[j] != 'E' by {
            assert(d[j] == t[j + 1]);
        }
        lemma_mantissa_whole(d);
        assert(seq![t[0]] + d =~= t);
    }
}

/// Whether a decimal text denotes zero.
fn zero_decimal(t: &Vec<char>) -> (r: bool)
    ensures
        r == is_zero_decimal(t@),
{
    let mut i: usize = 0;
    let mut zero_digit = false;
    let mut only_zero = true;
    while i < t.len()
        invariant
            i <= t@.len(),
            forall|j: int| 0 <= j < i ==> t@[j] != 'e' && t@[j] != 'E',
            zero_digit <==> exists|j: int| 0 <= j < i && t@[j] == '0',
            only_zero <==> forall|j: int|
                0 <= j < i ==> t@[j] == '0' || t@[j] == '.' || (j == 0 && (t@[j] == '-' || t@[j] == '+')),
        decreases t@.len() - i,
    {
        let c = t[i];
        if c == 'e' || c == 'E' {
            proof {
                lemma_mantissa_step(t@, i as int);
                let m = mantissa(t@);
                assert(m =~= t@.take(i as int));
            }
            return zero_digit && only_zero;
        }
        if c == '0' {
            zero_digit = true;
        } else if !(c == '.' || (i == 0 && (c == '-' || c == '+'))) {
            only_zero = false;
        }
        i = i + 1;
    }
    proof {
        lemma_mantissa_whole(t@);
    }
    zero_digit && only_zero
}

/// The compact text of a JSON value, entries in their stored order.
pub open spec fn json_text(v: JsonView) -> Seq<char>
    decreases v, 0nat,
{
    match v {
        JsonView::Null => seq!['n', 'u', 'l', 'l'],
        JsonView::Bool(b) => if b {
            seq!['t', 'r', 'u', 'e']
        } else {
            seq!['f', 'a', 'l', 's', 'e']
        },
        JsonView::Number(n) => number_text(n),
        JsonView::Text(s) => quoted(s),
        JsonView::Array(items) => seq!['['] + items_text(items, items.len()) + seq![']'],
        JsonView::Object(entries) => seq!['{'] + entries_text(entries, entries.len()) + seq!['}'],
    }
}

pub open spec fn items_text(items: Seq<JsonView>, n: nat) -> Seq<char>
    decreases items, n,
{
    if n == 0 || n > items.len() {
        Seq::empty()
    } else if n == 1 {
        json_text(items[0])
    } else {
        items_text(items, (n - 1) as nat) + seq![','] + json_text(items[n - 1])
    }
}

pub open spec fn entries_text(entries: Seq<(Seq<char>, JsonView)>, n: nat) -> Seq<char>
    decreases entries, n,
{
    if n == 0 || n > entries.len() {
        Seq::empty()
    } else if n == 1 {
        quoted(entries[0].0) + seq![':'] + json_text(entries[0].1)
    } else {
        entries_text(entries, (n - 1) as nat) + seq![','] + quoted(entries[n - 1].0) + seq![':']
            + json_text(entries[n - 1].1)
    }
}

fn push_literal(out: &mut Vec<char>, lit: &Vec<char>)
    ensures
        final(out)@ == old(out)@ + lit@,
{
    let mut i: usize = 0;
    while i < lit.len()
        invariant
            i <= lit.len(),
            out@ == old(out)@ + lit@.subrange(0, i as int),
        decreases lit.len() - i,
    {
        out.push(lit[i]);
        assert(old(out)@ + lit@.subrange(0, i + 1) =~= old(out)@ + lit@.subrange(0, i as int)
            + seq![lit@[i as int]]);
        i = i + 1;
    }
    assert(lit@.subrange(0, lit@.len() as int) =~= lit@);
}

fn write_escaped_char(c: char, out: &mut Vec<char>)
    ensures
        final(out)@ == old(out)@ + escape_char(c),
{
    let u = c as u32;
    if c == '"' {
        out.push('\\');
        out.push('"');
    } else if c == '\\' {
        out.push('\\');
        out.push('\\');
    } else if c == '\n' {
        out.push('\\');
        out.push('n');
    } else if c == '\r' {
        out.push('\\');
        out.push('r');
    } else if c == '\t' {
        out.push('\\');
        out.push('t');
    } else if u == 8 {
        out.push('\\');
        out.push('b');
    } else if u == 12 {
        out.push('\\');
        out.push('f');
    } else if u < 32 {
        out.push('\\');
        out.push('u');
        out.push('0');
        out.push('0');
        out.push(hex_char((u / 16) as u8));
        out.push(hex_char((u % 16) as u8));
    } else {
        out.push(c);
    }
    assert(final(out)@ =~= old(out)@ + escape_char(c)) by {
        assert(out@ =~= old(out)@ + escape_char(c));
    }
}

/// Writes a JSON string literal.
pub fn write_json_string(s: &str, out: &mut Vec<char>)
    ensures
        final(out)@ == old(out)@ + quoted(s@),
{
    let chars = chars_of(s);
    out.push('"');
    let mut i: usize = 0;
    while i < chars.len()
        invariant
            i <= chars.len(),
            chars@ == s@,
            out@ == old(out)@ + seq!['"'] + escape(chars@.subrange(0, i as int)),
        decreases chars.len() - i,
    {
        write_escaped_char(chars[i], out);
        assert(chars@.subrange(0, i + 1).drop_last() =~= chars@.subrange(0, i as int));
        i = i + 1;
    }
    out.push('"');
    assert(chars@.subrange(0, chars@.len() as int) =~= chars@);
    assert(out@ =~= old(out)@ + quoted(s@));
}

fn write_number(n: &JsonNumber, out: &mut Vec<char>)
    ensures
        final(out)@ == old(out)@ + number_text(number_view(*n)),
{
    match n {
        JsonNumber::Unsigned(u) => {
            let digits = decimal_chars(*u);
            push_literal(out, &digits);
        },
        JsonNumber::Negative(i) => {
            let text = i64_to_string(*i);
            let chars = chars_of(text.as_str());
            push_literal(out, &chars);
        },
        JsonNumber::Decimal(t) => {
            let chars = chars_of(t.as_str());
            if zero_decimal(&chars) {
                push_literal(out, &vec!['0']);
            } else {
                push_literal(out, &chars);
            }
        },
    }
}

/// Writes the compact text of a value, entries in their stored order.
pub fn write_json(v: &JsonValue, out: &mut Vec<char>)
    ensures
        final(out)@ == old(out)@ + json_text(v@),
    decreases v,
{
    match v {
        JsonValue::Null => {
            push_literal(out, &vec!['n', 'u', 'l', 'l']);
        },
        JsonValue::Bool(b) => {
            if *b {
                push_literal(out, &vec!['t', 'r', 'u', 'e']);
            } else {
                push_literal(out, &vec!['f', 'a', 'l', 's', 'e']);
            }
        },
        JsonValue::Number(n) => {
            write_number(n, out);
        },
        JsonValue::String(s) => {
            write_json_string(s.as_str(), out);
        },
        JsonValue::Array(items) => {
            let ghost start = out@;
            let ghost views = items_view(items@, items@.len() as nat);
            proof {
                lemma_items_view_len(items@, items@.len() as nat);
            }
            out.push('[');
            let mut i: usize = 0;
            while i < items.len()
                invariant
                    i <= items.len(),
                    *v == JsonValue::Array(*items),
                    views == items_view(items@, items@.len() as nat),
                    views.len() == items@.len(),
                    forall|k: int| 0 <= k < items@.len() ==> #[trigger] views[k] == json_view(items@[k]),
                    out@ == start + seq!['['] + items_text(views, i as nat),
                decreases items.len() - i,
            {
                if i > 0 {
                    out.push(',');
                }
                proof {
                    assert(decreases_to!(*v => (*v)->Array_0));
                    assert(decreases_to!(*items => items@));
                    assert(decreases_to!(items@ => items@[i as int]));
                }
                write_json(&items[i], out);
                assert(out@ =~= start + seq!['['] + items_text(views, (i + 1) as nat));
                i = i + 1;
            }
            out.push(']');
            assert(out@ =~= start + json_text(v@));
        },
        JsonValue::Object(entries) => {
            let ghost start = out@;
            let ghost views = entries_view(entries@, entries@.len() as nat);
            proof {
                lemma_entries_view_len(entries@, entries@.len() as nat);
            }
            out.push('{');
            let mut i: usize = 0;
            while i < entries.len()
                invariant
                    i <= entries.len(),
                    *v == JsonValue::Object(*entries),
                    views == entries_view(entries@, entries@.len() as nat),
                    views.len() == entries@.len(),
                    forall|k: int|
                        0 <= k < entries@.len() ==> #[trigger] views[k] == (
                            entries@[k].0@,
                            json_view(entries@[k].1),
                        ),
                    out@ == start + seq!['{'] + entries_text(views, i as nat),
                decreases entries.len() - i,
            {
                if i > 0 {
                    out.push(',');
                }
                write_json_string(entries[i].0.as_str(), out);
                out.push(':');
                proof {
                    assert(decreases_to!(*v => (*v)->Object_0));
                    assert(decreases_to!(*entries => entries@));
                    assert(decreases_to!(entries@ => entries@[i as int]));
                    assert(decreases_to!(entries@[i as int] => entries@[i as int].1));
                }
                write_json(&entries[i].1, out);
                assert(out@ =~= start + seq!['{'] + entries_text(views, (i + 1) as nat));
                i = i + 1;
            }
            out.push('}');
            assert(out@ =~= start + json_text(v@));
        },
    }
}


pub proof fn lemma_items_view_prefix(s: Seq<JsonValue>, t: Seq<JsonValue>, n: nat)
    requires
        n <= s.len(),
        n <= t.len(),
        s.subrange(0, n as int) == t.subrange(0, n as int),
    ensures
        items_view(s, n) == items_view(t, n),
    decreases n,
{
    if n > 0 {
        assert(s.subrange(0, n - 1) =~= s.subrange(0, n as int).subrange(0, n - 1));
        assert(t.subrange(0, n - 1) =~= t.subrange(0, n as int).subrange(0, n - 1));
        lemma_items_view_prefix(s, t, (n - 1) as nat);
        assert(s[n - 1] == s.subrange(0, n as int)[n - 1]);
        assert(t[n - 1] == t.subrange(0, n as int)[n - 1]);
    }
}

/// The view of a vector of entries.
pub open spec fn entries_of(s: Seq<(String, JsonValue)>) -> Seq<(Seq<char>, JsonView)> {
    entries_view(s, s.len())
}

/// The view of a vector of items.
pub open spec fn items_of(s: Seq<JsonValue>) -> Seq<JsonView> {
    items_view(s, s.len())
}

pub proof fn lemma_entries_of(s: Seq<(String, JsonValue)>)
    ensures
        entries_of(s).len() == s.len(),
        forall|k: int|
            0 <= k < s.len() ==> #[trigger] entries_of(s)[k] == (s[k].0@, json_view(s[k].1)),
{
    lemma_entries_view_len(s, s.len());
}

pub proof fn lemma_items_of(s: Seq<JsonValue>)
    ensures
        items_of(s).len() == s.len(),
        forall|k: int| 0 <= k < s.len() ==> #[trigger] items_of(s)[k] == json_view(s[k]),
{
    lemma_items_view_len(s, s.len());
}

proof fn lemma_insert_entry_skip(
    list: Seq<(Seq<char>, JsonView)>,
    key: Seq<char>,
    value: JsonView,
    j: int,
)
    requires
        0 <= j <= list.len(),
        forall|k: int| 0 <= k < j ==> chars_lt(#[trigger] list[k].0, key),
    ensures
        insert_entry(list, key, value) == list.subrange(0, j) + insert_entry(
            list.subrange(j, list.len() as int),
            key,
            value,
        ),
    decreases j,
{
    if j > 0 {
        assert(chars_lt(list[0].0, key));
        lemma_chars_lt_asymmetric(list[0].0, key);
        lemma_chars_lt_irreflexive(key);
        let rest = list.drop_first();
        assert forall|k: int| 0 <= k < j - 1 implies chars_lt(#[trigger] rest[k].0, key) by {
            assert(rest[k] == list[k + 1]);
        }
        lemma_insert_entry_skip(rest, key, value, j - 1);
        assert(rest.subrange(j - 1, rest.len() as int) =~= list.subrange(j, list.len() as int));
        assert(list.subrange(0, j) =~= seq![list[0]] + rest.subrange(0, j - 1));
    } else {
        assert(list.subrange(0, list.len() as int) =~= list);
    }
}

/// Sorted insertion into an object's entry vector.
pub(crate) fn insert_sorted(list: &mut Vec<(String, JsonValue)>, key: String, value: JsonValue)
    ensures
        entries_of(final(list)@) == insert_entry(entries_of(old(list)@), key@, value@),
{
    let key_chars = chars_of(key.as_str());
    let ghost old_entries = entries_of(list@);
    proof {
        lemma_entries_of(list@);
    }
    let mut j: usize = 0;
    let mut found = KeyOrder::Greater;
    while j < list.len()
        invariant
            j <= list.len(),
            list@ == old(list)@,
            key_chars@ == key@,
            old_entries == entries_of(list@),
            forall|k: int| 0 <= k < j ==> chars_lt(#[trigger] old_entries[k].0, key@),
        ensures
            j <= list.len(),
            list@ == old(list)@,
            forall|k: int| 0 <= k < j ==> chars_lt(#[trigger] old_entries[k].0, key@),
            j < list.len() ==> (found == KeyOrder::Equal ==> old_entries[j as int].0 == key@),
            j < list.len() ==> (found == KeyOrder::Greater ==> chars_lt(
                key@,
                old_entries[j as int].0,
            )),
            j < list.len() ==> found != KeyOrder::Less,
        decreases list.len() - j,
    {
        let here = chars_of(list[j].0.as_str());
        let order = compare_chars(&here, &key_chars);
        proof {
            lemma_entries_of(list@);
        }
        if order != KeyOrder::Less {
            found = order;
            break;
        }
        j = j + 1;
    }
    proof {
        lemma_insert_entry_skip(old_entries, key@, value@, j as int);
        lemma_entries_of(old(list)@);
    }
    let ghost rest = old_entries.subrange(j as int, old_entries.len() as int);
    if j == list.len() {
        list.push((key, value));
        proof {
            lemma_entries_of(list@);
            assert(entries_of(list@) =~= old_entries.subrange(0, j as int) + insert_entry(
                rest,
                key@,
                value@,
            ));
        }
    } else if found == KeyOrder::Equal {
        list.set(j, (key, value));
        proof {
            lemma_entries_of(list@);
            assert(rest[0] == old_entries[j as int]);
            lemma_chars_lt_irreflexive(key@);
            assert(insert_entry(rest, key@, value@) == seq![(key@, value@)] + rest.drop_first());
            assert(entries_of(list@) =~= old_entries.subrange(0, j as int) + insert_entry(
                rest,
                key@,
                value@,
            ));
        }
    } else {
        list.insert(j, (key, value));
        proof {
            lemma_entries_of(list@);
            assert(rest[0] == old_entries[j as int]);
            assert(entries_of(list@) =~= old_entries.subrange(0, j as int) + insert_entry(
                rest,
                key@,
                value@,
            ));
        }
    }
}

fn copy_number(n: &JsonNumber) -> (r: JsonNumber)
    ensures
        number_view(r) == number_view(*n),
{
    match n {
        JsonNumber::Unsigned(u) => JsonNumber::Unsigned(*u),
        JsonNumber::Negative(i) => JsonNumber::Negative(*i),
        JsonNumber::Decimal(t) => JsonNumber::Decimal(t.clone()),
    }
}

/// The canonical form of a value, as a new value.
pub fn canonicalize(v: &JsonValue) -> (r: JsonValue)
    ensures
        r@ == canonical(v@),
    decreases v,
{
    match v {
        JsonValue::Null => JsonValue::Null,
        JsonValue::Bool(b) => JsonValue::Bool(*b),
        JsonValue::Number(n) => JsonValue::Number(copy_number(n)),
        JsonValue::String(s) => JsonValue::String(s.clone()),
        JsonValue::Array(items) => {
            let ghost views = items_of(items@);
            proof {
                lemma_items_of(items@);
            }
            let mut out: Vec<JsonValue> = Vec::new();
            let mut i: usize = 0;
            while i < items.len()
                invariant
                    *v == JsonValue::Array(*items),
                    i <= items.len(),
                    out.len() == i,
                    views == items_of(items@),
                    views.len() == items@.len(),
                    forall|k: int| 0 <= k < items@.len() ==> #[trigger] views[k] == json_view(items@[k]),
                    items_of(out@) == canonical_items(views, i as nat),
                decreases items.len() - i,
            {
                proof {
                    assert(decreases_to!(*v => (*v)->Array_0));
                    assert(decreases_to!(*items => items@));
                    assert(decreases_to!(items@ => items@[i as int]));
                }
                let c = canonicalize(&items[i]);
                let ghost before = out@;
                out.push(c);
                proof {
                    assert(out@.subrange(0, i as int) =~= before.subrange(0, i as int));
                    lemma_items_view_prefix(out@, before, i as nat);
                    assert(items_of(out@) == items_view(out@, i as nat).push(json_view(c)));
                }
                i = i + 1;
            }
            assert(items_of(out@) == canonical_items(views, views.len()));
            JsonValue::Array(out)
        },
        JsonValue::Object(entries) => {
            let ghost views = entries_of(entries@);
            proof {
                lemma_entries_of(entries@);
            }
            let mut out: Vec<(String, JsonValue)> = Vec::new();
            let mut i: usize = 0;
            while i < entries.len()
                invariant
                    *v == JsonValue::Object(*entries),
                    i <= entries.len(),
                    views == entries_of(entries@),
                    views.len() == entries@.len(),
                    forall|k: int|
                        0 <= k < entries@.len() ==> #[trigger] views[k] == (
                            entries@[k].0@,
                            json_view(entries@[k].1),
                        ),
                    entries_of(out@) == canonical_entries(views, i as nat),
                decreases entries.len() - i,
            {
                proof {
                    assert(decreases_to!(*v => (*v)->Object_0));
                    assert(decreases_to!(*entries => entries@));
                    assert(decreases_to!(entries@ => entries@[i as int]));
                    assert(decreases_to!(entries@[i as int] => entries@[i as int].1));
                }
                let c = canonicalize(&entries[i].1);
                let key = entries[i].0.clone();
                insert_sorted(&mut out, key, c);
                i = i + 1;
            }
            JsonValue::Object(out)
        },
    }
}

/// A copy of a value with the same content.
pub fn copy_json(v: &JsonValue) -> (r: JsonValue)
    ensures
        r@ == v@,
    decreases v,
{
    match v {
        JsonValue::Null => JsonValue::Null,
        JsonValue::Bool(b) => JsonValue::Bool(*b),
        JsonValue::Number(n) => JsonValue::Number(copy_number(n)),
        JsonValue::String(s) => JsonValue::String(s.clone()),
        JsonValue::Array(items) => {
            let mut out: Vec<JsonValue> = Vec::new();
            let mut i: usize = 0;
            proof {
                lemma_items_of(items@);
            }
            while i < items.len()
                invariant
                    *v == JsonValue::Array(*items),
                    i <= items.len(),
                    out.len() == i,
                    forall|k: int| 0 <= k < i ==> #[trigger] json_view(out@[k]) == json_view(items@[k]),
                decreases items.len() - i,
            {
                proof {
                    assert(decreases_to!(*v => (*v)->Array_0));
                    assert(decreases_to!(*items => items@));
                    assert(decreases_to!(items@ => items@[i as int]));
                }
                let c = copy_json(&items[i]);
                out.push(c);
                i = i + 1;
            }
            proof {
                lemma_items_of(out@);
                assert(items_of(out@) =~= items_of(items@));
            }
            JsonValue::Array(out)
        },
        JsonValue::Object(entries) => {
            let mut out: Vec<(String, JsonValue)> = Vec::new();
            let mut i: usize = 0;
            proof {
                lemma_entries_of(entries@);
            }
            while i < entries.len()
                invariant
                    *v == JsonValue::Object(*entries),
                    i <= entries.len(),
                    out.len() == i,
                    forall|k: int|
                        0 <= k < i ==> (#[trigger] out@[k]).0@ == entries@[k].0@ && json_view(
                            out@[k].1,
                        ) == json_view(entries@[k].1),
                decreases entries.len() - i,
            {
                proof {
                    assert(decreases_to!(*v => (*v)->Object_0));
                    assert(decreases_to!(*entries => entries@));
                    assert(decreases_to!(entries@ => entries@[i as int]));
                    assert(decreases_to!(entries@[i as int] => entries@[i as int].1));
                }
                let c = copy_json(&entries[i].1);
                let key = entries[i].0.clone();
                out.push((key, c));
                i = i + 1;
            }
            proof {
                lemma_entries_of(out@);
                assert(entries_of(out@) =~= entries_of(entries@));
            }
            JsonValue::Object(out)
        },
    }
}

impl Clone for JsonValue {
    fn clone(&self) -> (r: Self)
        ensures
            r@ == self@,
    {
        copy_json(self)
    }
}


// ---------------------------------------------------------------------------
// Construction helpers
// ---------------------------------------------------------------------------

/// A text value.
pub open spec fn text_view(s: Seq<char>) -> JsonView {
    JsonView::Text(s)
}

/// An unsigned number.
pub open spec fn count_view(n: u64) -> JsonView {
    JsonView::Number(NumberView::Unsigned(n))
}

/// A string value.
pub fn text_value(s: &str) -> (r: JsonValue)
    ensures
        r@ == JsonView::Text(s@),
{
    JsonValue::String(String::from_str(s))
}

/// An optional string value: `null` when absent.
pub fn optional_text(s: Option<&str>) -> (r: JsonValue)
    ensures
        r@ == match s {
            Some(t) => JsonView::Text(t@),
            None => JsonView::Null,
        },
{
    match s {
        Some(t) => text_value(t),
        None => JsonValue::Null,
    }
}

/// An unsigned number value.
pub fn unsigned_value(n: u64) -> (r: JsonValue)
    ensures
        r@ == JsonView::Number(NumberView::Unsigned(n)),
{
    JsonValue::Number(JsonNumber::Unsigned(n))
}

/// An array of string values.
pub fn text_array(items: &[String]) -> (r: JsonValue)
    ensures
        r@ == JsonView::Array(Seq::new(items@.len(), |k: int| JsonView::Text(items@[k]@))),
{
    let mut out: Vec<JsonValue> = Vec::new();
    let mut i: usize = 0;
    while i < items.len()
        invariant
            i <= items.len(),
            out.len() == i,
            forall|k: int| 0 <= k < i ==> #[trigger] json_view(out@[k]) == JsonView::Text(items@[k]@),
        decreases items.len() - i,
    {
        out.push(text_value(items[i].as_str()));
        i = i + 1;
    }
    proof {
        lemma_items_of(out@);
    }
    let r = JsonValue::Array(out);
    assert(r@ == JsonView::Array(items_of(out@)));
    assert(items_of(out@) =~= Seq::new(items@.len(), |k: int| JsonView::Text(items@[k]@)));
    r
}

/// An object of one entry.
pub fn object1(k1: &str, v1: JsonValue) -> (r: JsonValue)
    ensures
        r@ == JsonView::Object(seq![(k1@, v1@)]),
{
    let entries = vec![(String::from_str(k1), v1)];
    proof {
        lemma_entries_of(entries@);
    }
    let r = JsonValue::Object(entries);
    assert(entries_of(entries@) =~= seq![(k1@, v1@)]);
    r
}

/// An object of two entries.
pub fn object2(k1: &str, v1: JsonValue, k2: &str, v2: JsonValue) -> (r: JsonValue)
    ensures
        r@ == JsonView::Object(seq![(k1@, v1@), (k2@, v2@)]),
{
    let entries = vec![(String::from_str(k1), v1), (String::from_str(k2), v2)];
    proof {
        lemma_entries_of(entries@);
    }
    let r = JsonValue::Object(entries);
    assert(entries_of(entries@) =~= seq![(k1@, v1@), (k2@, v2@)]);
    r
}

/// An object of three entries.
pub fn object3(k1: &str, v1: JsonValue, k2: &str, v2: JsonValue, k3: &str, v3: JsonValue) -> (r:
    JsonValue)
    ensures
        r@ == JsonView::Object(seq![(k1@, v1@), (k2@, v2@), (k3@, v3@)]),
{
    let entries = vec![
        (String::from_str(k1), v1),
        (String::from_str(k2), v2),
        (String::from_str(k3), v3),
    ];
    proof {
        lemma_entries_of(entries@);
    }
    let r = JsonValue::Object(entries);
    assert(entries_of(entries@) =~= seq![(k1@, v1@), (k2@, v2@), (k3@, v3@)]);
    r
}

/// An object built from entries in order.
pub fn object_of(entries: Vec<(String, JsonValue)>) -> (r: JsonValue)
    ensures
        r@ == JsonView::Object(entries_of(entries@)),
{
    JsonValue::Object(entries)
}

/// An object entry.
pub fn field(key: &str, value: JsonValue) -> (r: (String, JsonValue))
    ensures
        r.0@ == key@,
        r.1@ == value@,
{
    (String::from_str(key), value)
}

/// An array of the given values in order.
pub fn array_of(items: Vec<JsonValue>) -> (r: JsonValue)
    ensures
        r@ == JsonView::Array(items@.map_values(|v: JsonValue| v@)),
{
    proof {
        lemma_items_of(items@);
        assert(items_of(items@) =~= items@.map_values(|v: JsonValue| v@));
    }
    JsonValue::Array(items)
}

/// Whether two values have the same content.
pub fn json_equal(a: &JsonValue, b: &JsonValue) -> (r: bool)
    ensures
        r == (a@ == b@),
    decreases a,
{
    match (a, b) {
        (JsonValue::Null, JsonValue::Null) => true,
        (JsonValue::Bool(x), JsonValue::Bool(y)) => *x == *y,
        (JsonValue::Number(x), JsonValue::Number(y)) => match (x, y) {
            (JsonNumber::Unsigned(p), JsonNumber::Unsigned(q)) => *p == *q,
            (JsonNumber::Negative(p), JsonNumber::Negative(q)) => *p == *q,
            (JsonNumber::Decimal(p), JsonNumber::Decimal(q)) => same_text(p.as_str(), q.as_str()),
            _ => false,
        },
        (JsonValue::String(x), JsonValue::String(y)) => same_text(x.as_str(), y.as_str()),
        (JsonValue::Array(xs), JsonValue::Array(ys)) => {
            proof {
                lemma_items_of(xs@);
                lemma_items_of(ys@);
            }
            if xs.len() != ys.len() {
                return false;
            }
            let mut i: usize = 0;
            while i < xs.len()
                invariant
                    i <= xs.len(),
                    xs.len() == ys.len(),
                    *a == JsonValue::Array(*xs),
                    *b == JsonValue::Array(*ys),
                    items_of(xs@).len() == xs@.len(),
                    items_of(ys@).len() == ys@.len(),
                    forall|k: int| 0 <= k < xs@.len() ==> #[trigger] items_of(xs@)[k] == json_view(xs@[k]),
                    forall|k: int| 0 <= k < ys@.len() ==> #[trigger] items_of(ys@)[k] == json_view(ys@[k]),
                    forall|k: int| 0 <= k < i ==> items_of(xs@)[k] == items_of(ys@)[k],
                decreases xs.len() - i,
            {
                proof {
                    assert(decreases_to!(*a => (*a)->Array_0));
                    assert(decreases_to!(*xs => xs@));
                    assert(decreases_to!(xs@ => xs@[i as int]));
                }
                if !json_equal(&xs[i], &ys[i]) {
                    assert(items_of(xs@)[i as int] != items_of(ys@)[i as int]);
                    return false;
                }
                i = i + 1;
            }
            assert(items_of(xs@) =~= items_of(ys@));
            true
        },
        (JsonValue::Object(xs), JsonValue::Object(ys)) => {
            proof {
                lemma_entries_of(xs@);
                lemma_entries_of(ys@);
            }
            if xs.len() != ys.len() {
                return false;
            }
            let mut i: usize = 0;
            while i < xs.len()
                invariant
                    i <= xs.len(),
                    xs.len() == ys.len(),
                    *a == JsonValue::Object(*xs),
                    *b == JsonValue::Object(*ys),
                    entries_of(xs@).len() == xs@.len(),
                    entries_of(ys@).len() == ys@.len(),
                    forall|k: int|
                        0 <= k < xs@.len() ==> #[trigger] entries_of(xs@)[k] == (
                            xs@[k].0@,
                            json_view(xs@[k].1),
                        ),
                    forall|k: int|
                        0 <= k < ys@.len() ==> #[trigger] entries_of(ys@)[k] == (
                            ys@[k].0@,
                            json_view(ys@[k].1),
                        ),
                    forall|k: int| 0 <= k < i ==> entries_of(xs@)[k] == entries_of(ys@)[k],
                decreases xs.len() - i,
            {
                proof {
                    assert(decreases_to!(*a => (*a)->Object_0));
                    assert(decreases_to!(*xs => xs@));
                    assert(decreases_to!(xs@ => xs@[i as int]));
                    assert(decreases_to!(xs@[i as int] => xs@[i as int].1));
                }
                if !same_text(xs[i].0.as_str(), ys[i].0.as_str()) {
                    assert(entries_of(xs@)[i as int] != entries_of(ys@)[i as int]);
                    return false;
                }
                if !json_equal(&xs[i].1, &ys[i].1) {
                    assert(entries_of(xs@)[i as int] != entries_of(ys@)[i as int]);
                    return false;
                }
                i = i + 1;
            }
            assert(entries_of(xs@) =~= entries_of(ys@));
            true
        },
        _ => false,
    }
}

impl PartialEq for JsonValue {
    fn eq(&self, other: &Self) -> (r: bool) {
        json_equal(self, other)
    }
}

impl PartialEqSpecImpl for JsonValue {
    open spec fn obeys_eq_spec() -> bool {
        true
    }

    open spec fn eq_spec(&self, other: &Self) -> bool {
        self@ == other@
    }
}

impl Eq for JsonValue {
}

} // verus!
