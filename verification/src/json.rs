//! Flat JSON objects: what they hold, and the text that stands for them.

use crate::fields::{
    field_views, number_view, text_view, Field, FieldValue, FieldView, ValueView,
};
use crate::text::decimal;
use vstd::prelude::*;

verus! {

/// `serde_json::Value`: any JSON value.
#[verifier::external_type_specification]
#[verifier::external_body]
pub struct ExJsonValue(serde_json::Value);

/// `serde_json::Map`: a JSON object under construction.
#[verifier::external_type_specification]
#[verifier::external_body]
#[verifier::reject_recursive_types(K)]
#[verifier::reject_recursive_types(V)]
pub struct ExJsonMap<K, V>(serde_json::Map<K, V>);

/// The entries of a JSON object that holds unsigned numbers and strings only, in their order.
pub uninterp spec fn object_entries(map: serde_json::Map<String, serde_json::Value>) -> Seq<
    FieldView,
>;

/// Whether a JSON object holds nothing but unsigned numbers and strings.
pub uninterp spec fn holds_scalars(map: serde_json::Map<String, serde_json::Value>) -> bool;

/// Whether an entry goes by `name`.
pub open spec fn has_key(entries: Seq<FieldView>, name: Seq<char>) -> bool {
    exists|i: int| 0 <= i < entries.len() && (#[trigger] entries[i]).name == name
}

/// The entries after one more assignment: a known key keeps its place and takes the new value,
/// a new key comes last.
pub open spec fn with_entry(entries: Seq<FieldView>, entry: FieldView) -> Seq<FieldView> {
    if has_key(entries, entry.name) {
        entries.map_values(|e: FieldView| if e.name == entry.name { entry } else { e })
    } else {
        entries.push(entry)
    }
}

/// The hexadecimal digit of a number below sixteen, in lowercase.
pub open spec fn hex_char(d: u32) -> char {
    if d < 10 {
        ('0' as u32 + d) as char
    } else {
        ('a' as u32 + d - 10) as char
    }
}

/// A character as it stands inside a JSON string.
pub open spec fn escaped(c: char) -> Seq<char> {
    if c == '"' || c == '\\' {
        seq!['\\', c]
    } else if c == '\u{8}' {
        seq!['\\', 'b']
    } else if c == '\u{9}' {
        seq!['\\', 't']
    } else if c == '\u{a}' {
        seq!['\\', 'n']
    } else if c == '\u{c}' {
        seq!['\\', 'f']
    } else if c == '\u{d}' {
        seq!['\\', 'r']
    } else if ' ' > c {
        seq!['\\', 'u', '0', '0', hex_char(c as u32 / 16), hex_char(c as u32 % 16)]
    } else {
        seq![c]
    }
}

/// A text as it stands inside a JSON string.
pub open spec fn escaped_text(s: Seq<char>) -> Seq<char>
    decreases s.len(),
{
    if s.len() == 0 {
        Seq::empty()
    } else {
        escaped_text(s.drop_last()) + escaped(s.last())
    }
}

/// A text as a JSON string.
pub open spec fn quoted(s: Seq<char>) -> Seq<char> {
    seq!['"'] + escaped_text(s) + seq!['"']
}

/// One entry of a JSON object.
pub open spec fn member_text(entry: FieldView) -> Seq<char> {
    quoted(entry.name) + seq![':'] + match entry.value {
        ValueView::Number(n) => decimal(n as nat),
        ValueView::Text(s) => quoted(s),
    }
}

/// The entries of a JSON object, separated by commas.
pub open spec fn members_text(entries: Seq<FieldView>) -> Seq<char>
    decreases entries.len(),
{
    if entries.len() == 0 {
        Seq::empty()
    } else if entries.len() == 1 {
        member_text(entries[0])
    } else {
        members_text(entries.drop_last()) + seq![','] + member_text(entries.last())
    }
}

/// The compact JSON text of an object with these entries.
pub open spec fn json_text(entries: Seq<FieldView>) -> Seq<char> {
    seq!['{'] + members_text(entries) + seq!['}']
}

/// Calls `serde_json::Map::new`: the object has no entries, and so none that is no scalar.
#[verifier::external_body]
fn new_object() -> (r: serde_json::Map<String, serde_json::Value>)
    ensures
        holds_scalars(r),
        object_entries(r) == Seq::<FieldView>::empty(),
{
    serde_json::Map::new()
}

/// Calls `serde_json::Map::insert` with a number. The map keeps the order of insertion (feature
/// `preserve_order`): a known key keeps its place and takes the new value, a new key comes last.
#[verifier::external_body]
fn insert_number(map: &mut serde_json::Map<String, serde_json::Value>, name: &str, n: u64)
    requires
        holds_scalars(*old(map)),
    ensures
        holds_scalars(*final(map)),
        object_entries(*final(map)) == with_entry(object_entries(*old(map)), number_view(name@, n)),
{
    map.insert(name.to_owned(), serde_json::Value::from(n));
}

/// Calls `serde_json::Map::insert` with a string. The map keeps the order of insertion (feature
/// `preserve_order`): a known key keeps its place and takes the new value, a new key comes last.
#[verifier::external_body]
fn insert_text(map: &mut serde_json::Map<String, serde_json::Value>, name: &str, s: &str)
    requires
        holds_scalars(*old(map)),
    ensures
        holds_scalars(*final(map)),
        object_entries(*final(map)) == with_entry(object_entries(*old(map)), text_view(name@, s@)),
{
    map.insert(name.to_owned(), serde_json::Value::from(s));
}

/// Calls `serde_json::to_string` on an object of unsigned numbers and strings. It always succeeds: only keys that are no
/// strings, or values that refuse, make it fail. The text is the compact form: the entries in their
/// order without any space, numbers in decimal, in strings the quote, the backslash and the control
/// characters below the space escaped, by a letter where JSON has one and by four hexadecimal
/// digits otherwise.
#[verifier::external_body]
fn object_text(map: &serde_json::Map<String, serde_json::Value>) -> (r: Option<String>)
    requires
        holds_scalars(*map),
    ensures
        r is Some,
        r matches Some(s) ==> s@ == json_text(object_entries(*map)),
{
    serde_json::to_string(map).ok()
}

/// The entries of the object that a list of fields makes.
pub open spec fn object_of(fields: Seq<FieldView>) -> Seq<FieldView>
    decreases fields.len(),
{
    if fields.len() == 0 {
        Seq::empty()
    } else {
        with_entry(object_of(fields.drop_last()), fields.last())
    }
}

/// The JSON text of a list of fields, as one flat object.
pub fn to_json(fields: &Vec<Field>) -> (r: String)
    ensures
        r@ == json_text(object_of(field_views(fields@))),
{
    let mut map = new_object();
    let mut i: usize = 0;
    while i < fields.len()
        invariant
            i <= fields@.len(),
            holds_scalars(map),
            object_entries(map) == object_of(field_views(fields@).take(i as int)),
        decreases fields@.len() - i,
    {
        let ghost views = field_views(fields@);
        assert(views.take(i + 1).drop_last() =~= views.take(i as int));
        let field = &fields[i];
        match &field.value {
            FieldValue::Number(n) => insert_number(&mut map, field.name.as_str(), *n),
            FieldValue::Text(s) => insert_text(&mut map, field.name.as_str(), s.as_str()),
        }
        i = i + 1;
    }
    assert(field_views(fields@).take(i as int) =~= field_views(fields@));
    object_text(&map).unwrap()
}

/// Whether no two entries share a key.
pub open spec fn distinct_keys(entries: Seq<FieldView>) -> bool {
    forall|i: int, j: int|
        0 <= i < j < entries.len() ==> (#[trigger] entries[i]).name != (#[trigger] entries[j]).name
}

/// Fields with distinct keys all come out, each in its place.
pub proof fn law_distinct_fields_are_kept(fields: Seq<FieldView>)
    requires
        distinct_keys(fields),
    ensures
        object_of(fields) == fields,
    decreases fields.len(),
{
    if fields.len() > 0 {
        law_distinct_fields_are_kept(fields.drop_last());
        assert(!has_key(fields.drop_last(), fields.last().name));
        assert(fields.drop_last().push(fields.last()) =~= fields);
    } else {
        assert(fields =~= Seq::empty());
    }
}

/// Whether a text holds no control character below the space.
pub open spec fn no_controls(s: Seq<char>) -> bool {
    forall|i: int| 0 <= i < s.len() ==> #[trigger] s[i] >= ' '
}

proof fn lemma_escaped(c: char)
    ensures
        no_controls(escaped(c)),
{
    if ' ' > c {
        assert(c as u32 / 16 < 16 && c as u32 % 16 < 16);
    }
}

proof fn lemma_escaped_text(s: Seq<char>)
    ensures
        no_controls(escaped_text(s)),
    decreases s.len(),
{
    if s.len() > 0 {
        lemma_escaped_text(s.drop_last());
        lemma_escaped(s.last());
    }
}

proof fn lemma_decimal_digits(n: nat)
    ensures
        no_controls(decimal(n)),
    decreases n,
{
    if n >= 10 {
        lemma_decimal_digits(n / 10);
    }
}

proof fn lemma_members_text(entries: Seq<FieldView>)
    ensures
        no_controls(members_text(entries)),
    decreases entries.len(),
{
    if entries.len() > 0 {
        let last = entries.last();
        lemma_escaped_text(last.name);
        match last.value {
            ValueView::Number(n) => lemma_decimal_digits(n as nat),
            ValueView::Text(s) => lemma_escaped_text(s),
        }
        assert(no_controls(member_text(last)));
        lemma_members_text(entries.drop_last());
    }
}

/// JSON text holds no control character, whatever the strings in it hold.
pub proof fn law_json_has_no_control_characters(entries: Seq<FieldView>)
    ensures
        no_controls(json_text(entries)),
{
    lemma_members_text(entries);
}

/// Text without a quote, a backslash or a control character stands in JSON as it is.
pub proof fn law_plain_text_is_not_escaped(s: Seq<char>)
    requires
        forall|i: int| 0 <= i < s.len() ==> ' ' <= #[trigger] s[i] <= '~' && s[i] != '"' && s[i] != '\\',
    ensures
        quoted(s) == seq!['"'] + s + seq!['"'],
{
    lemma_plain_text(s);
}

proof fn lemma_plain_text(s: Seq<char>)
    requires
        forall|i: int| 0 <= i < s.len() ==> ' ' <= #[trigger] s[i] <= '~' && s[i] != '"' && s[i] != '\\',
    ensures
        escaped_text(s) == s,
    decreases s.len(),
{
    if s.len() > 0 {
        lemma_plain_text(s.drop_last());
        assert(' ' <= s[s.len() - 1] <= '~' && s[s.len() - 1] != '"' && s[s.len() - 1] != '\\');
        assert(escaped_text(s) =~= s);
    } else {
        assert(escaped_text(s) =~= s);
    }
}

/// A quote or a backslash inside a text never ends it: each stands behind a backslash.
pub proof fn law_quotes_are_escaped(s: Seq<char>, c: char)
    requires
        c == '"' || c == '\\',
    ensures
        escaped_text(s.push(c)) == escaped_text(s) + seq!['\\', c],
{
    assert(s.push(c).drop_last() =~= s);
}

/// An object is written member by member: the name in quotes, a colon, and the number in digits or
/// the text in quotes.
pub proof fn law_members_follow_one_another(entries: Seq<FieldView>, name: Seq<char>, n: u64, s: Seq<char>)
    ensures
        entries.len() > 0 ==> json_text(entries.push(number_view(name, n))) == json_text(
            entries,
        ).drop_last() + seq![','] + quoted(name) + seq![':'] + decimal(n as nat) + seq!['}'],
        entries.len() > 0 ==> json_text(entries.push(text_view(name, s))) == json_text(
            entries,
        ).drop_last() + seq![','] + quoted(name) + seq![':'] + quoted(s) + seq!['}'],
        json_text(seq![number_view(name, n)]) == seq!['{'] + quoted(name) + seq![':'] + decimal(
            n as nat,
        ) + seq!['}'],
{
    let number = entries.push(number_view(name, n));
    let text = entries.push(text_view(name, s));
    assert(number.drop_last() =~= entries);
    assert(text.drop_last() =~= entries);
    if entries.len() > 0 {
        assert(json_text(entries).drop_last() =~= seq!['{'] + members_text(entries));
        assert(json_text(number) =~= json_text(entries).drop_last() + seq![','] + quoted(name) + seq![
            ':',
        ] + decimal(n as nat) + seq!['}']);
        assert(json_text(text) =~= json_text(entries).drop_last() + seq![','] + quoted(name) + seq![
            ':',
        ] + quoted(s) + seq!['}']);
    }
    assert(json_text(seq![number_view(name, n)]) =~= seq!['{'] + quoted(name) + seq![':'] + decimal(
        n as nat,
    ) + seq!['}']);
}

} // verus!
