//! JSON text: what the library writes itself, and what it has from `serde_json`.
//!
//! A `serde_json::Value` stays opaque. Contracts speak of it through its compact text, which
//! determines it: an object is printed with its keys in order, a string with one fixed escaping
//! and a number in one fixed notation.

use crate::text::{
    decimal, decimal_text, fails, gives, joined3, opt_view, signed_decimal, signed_text, opt_views,
    views,
};
use vstd::prelude::*;
use vstd::string::*;
use vstd::utf8::*;

verus! {

broadcast use vstd::string::group_string_axioms;

// ---------------------------------------------------------------------------------------------
// Notation
// ---------------------------------------------------------------------------------------------

/// The lowercase hexadecimal digit of `d`.
pub open spec fn hex_digit(d: int) -> char
    recommends
        0 <= d < 16,
{
    if d < 10 {
        ('0' as u32 + d) as char
    } else {
        ('a' as u32 + d - 10) as char
    }
}

/// One character as it stands inside a JSON string.
pub open spec fn json_escaped(c: char) -> Seq<char> {
    if c == '"' {
        seq!['\\', '"']
    } else if c == '\\' {
        seq!['\\', '\\']
    } else if c as u32 == 0x08 {
        seq!['\\', 'b']
    } else if c as u32 == 0x09 {
        seq!['\\', 't']
    } else if c as u32 == 0x0a {
        seq!['\\', 'n']
    } else if c as u32 == 0x0c {
        seq!['\\', 'f']
    } else if c as u32 == 0x0d {
        seq!['\\', 'r']
    } else if (c as u32) < 0x20 {
        seq!['\\', 'u', '0', '0', hex_digit(c as int / 16), hex_digit(c as int % 16)]
    } else {
        seq![c]
    }
}

/// The inside of a JSON string that stands for `s`.
pub open spec fn json_escapes(s: Seq<char>) -> Seq<char>
    decreases s.len(),
{
    if s.len() == 0 {
        s
    } else {
        json_escapes(s.drop_last()) + json_escaped(s.last())
    }
}

/// `s` as a JSON string, with its quotes.
pub open spec fn json_quoted(s: Seq<char>) -> Seq<char> {
    seq!['"'] + json_escapes(s) + seq!['"']
}

/// Whether a character stands for itself inside a JSON string.
pub open spec fn is_plain(c: char) -> bool {
    c != '"' && c != '\\' && c as u32 >= 0x20
}

/// A text without quotes, backslashes and control characters is quoted as it is.
pub proof fn plain_texts_are_quoted_as_they_are(s: Seq<char>)
    requires
        forall|i: int| 0 <= i < s.len() ==> is_plain(#[trigger] s[i]),
    ensures
        json_quoted(s) == seq!['"'] + s + seq!['"'],
    decreases s.len(),
{
    if s.len() > 0 {
        let t = s.drop_last();
        assert forall|i: int| 0 <= i < t.len() implies is_plain(#[trigger] t[i]) by {
            assert(t[i] == s[i]);
        }
        plain_texts_are_quoted_as_they_are(t);
        assert(json_escapes(t) =~= json_quoted(t).subrange(1, json_quoted(t).len() - 1));
        assert(t =~= (seq!['"'] + t + seq!['"']).subrange(1, json_quoted(t).len() - 1));
        assert(is_plain(s.last()));
        assert(json_escapes(s) =~= s);
    }
}

/// The members of a JSON object, in a row: `"key":value`, separated by commas.
pub open spec fn json_members(ms: Seq<(Seq<char>, Seq<char>)>) -> Seq<char>
    decreases ms.len(),
{
    if ms.len() == 0 {
        Seq::empty()
    } else if ms.len() == 1 {
        json_quoted(ms[0].0) + seq![':'] + ms[0].1
    } else {
        json_members(ms.drop_last()) + seq![','] + json_quoted(ms.last().0) + seq![':']
            + ms.last().1
    }
}

/// A JSON object with the given members, in this order.
pub open spec fn json_object(ms: Seq<(Seq<char>, Seq<char>)>) -> Seq<char> {
    seq!['{'] + json_members(ms) + seq!['}']
}

/// The elements of a JSON array, in a row.
pub open spec fn json_elements(vs: Seq<Seq<char>>) -> Seq<char>
    decreases vs.len(),
{
    if vs.len() == 0 {
        Seq::empty()
    } else if vs.len() == 1 {
        vs[0]
    } else {
        json_elements(vs.drop_last()) + seq![','] + vs.last()
    }
}

/// A JSON array with the given elements.
pub open spec fn json_array(vs: Seq<Seq<char>>) -> Seq<char> {
    seq!['['] + json_elements(vs) + seq![']']
}

/// What reading a JSON text up to some place shows.
pub struct Scan {
    /// Whether the place is inside a string.
    pub inside: bool,
    /// Whether the last character, inside a string, escapes the next one.
    pub escaped: bool,
    /// How many arrays and objects are open.
    pub depth: int,
    /// The most that were open at once.
    pub deepest: int,
    /// Whether the last character is a digit of a number.
    pub digit: bool,
    /// Whether a number with a decimal point or an exponent occurred.
    pub fraction: bool,
}

/// A scan after one more character.
pub open spec fn scanned(q: Scan, c: char) -> Scan {
    if q.inside {
        Scan { inside: q.escaped || c != '"', escaped: !q.escaped && c == '\\', ..q }
    } else {
        let depth = if c == '{' || c == '[' {
            q.depth + 1
        } else if c == '}' || c == ']' {
            q.depth - 1
        } else {
            q.depth
        };
        Scan {
            inside: c == '"',
            escaped: false,
            depth,
            deepest: if depth > q.deepest {
                depth
            } else {
                q.deepest
            },
            digit: '0' <= c <= '9',
            fraction: q.fraction || c == '.' || q.digit && c == 'e',
        }
    }
}

/// The scan of a whole text.
pub open spec fn scan(s: Seq<char>) -> Scan
    decreases s.len(),
{
    if s.len() == 0 {
        Scan { inside: false, escaped: false, depth: 0, deepest: 0, digit: false, fraction: false }
    } else {
        scanned(scan(s.drop_last()), s.last())
    }
}

/// How deep the arrays and objects of a JSON text are nested.
pub open spec fn nesting(s: Seq<char>) -> int {
    scan(s).deepest
}

/// Whether a number of a JSON text has a decimal point or an exponent.
pub open spec fn has_fraction(s: Seq<char>) -> bool {
    scan(s).fraction
}

// ---------------------------------------------------------------------------------------------
// What serde_json computes
// ---------------------------------------------------------------------------------------------

/// `serde_json::Value`, opaque here.
#[verifier::external_type_specification]
#[verifier::external_body]
pub struct ExValue(serde_json::Value);

/// What a `serde_json::Value` holds, as its compact text.
pub uninterp spec fn value_text(v: serde_json::Value) -> Seq<char>;

/// What `serde_json::from_str::<Value>` reads from a text: the compact text of the value, or the
/// message of the error.
pub uninterp spec fn json_parse(text: Seq<char>) -> Result<Seq<char>, Seq<char>>;

/// What `Value::get` with a string index gives on the value with this compact text: the compact
/// text of the member.
pub uninterp spec fn json_member(value: Seq<char>, key: Seq<char>) -> Option<Seq<char>>;

/// What `Value::as_str` gives on the value with this compact text.
pub uninterp spec fn json_string(value: Seq<char>) -> Option<Seq<char>>;

/// Whether a text is the compact text of a value, and reading it gives that value.
pub open spec fn is_json(v: Seq<char>) -> bool {
    gives(json_parse(v), v)
}

/// Members that an object can be read back from: distinct keys, and values in compact notation
/// that are strings or nest less deep than the parser allows.
pub open spec fn readable_members(ms: Seq<(Seq<char>, Seq<char>)>) -> bool {
    &&& forall|i: int, j: int| 0 <= i < j < ms.len() ==> ms[i].0 != ms[j].0
    &&& forall|i: int|
        0 <= i < ms.len() ==> {
            ||| is_string_text(#[trigger] ms[i].1)
            ||| is_json(ms[i].1) && nesting(ms[i].1) <= 126
        }
}

/// Whether a text is a quoted string.
pub open spec fn is_string_text(v: Seq<char>) -> bool {
    exists|s: Seq<char>| v == #[trigger] json_quoted(s)
}

/// Whether the object with these members parses, and gives each member back and no other.
pub open spec fn reads_back(ms: Seq<(Seq<char>, Seq<char>)>) -> bool {
    &&& json_parse(json_object(ms)) is Ok
    &&& forall|i: int|
        0 <= i < ms.len() ==> json_member(json_parse(json_object(ms))->Ok_0, ms[i].0) == Some(
            #[trigger] ms[i].1,
        )
    &&& forall|key: Seq<char>|
        (forall|i: int| 0 <= i < ms.len() ==> ms[i].0 != key) ==> (#[trigger] json_member(
            json_parse(json_object(ms))->Ok_0,
            key,
        )) is None
}

/// Whether the text `quoted` stands for the string `s` wherever it is read: by itself, and as a
/// member of an object, which is then read back member by member.
pub open spec fn string_reads_back(quoted: Seq<char>, s: Seq<char>) -> bool {
    &&& json_string(quoted) == Some(s)
    &&& forall|ms: Seq<(Seq<char>, Seq<char>)>, i: int|
        #![trigger readable_members(ms), ms[i]]
        readable_members(ms) && 0 <= i < ms.len() && ms[i].1 == quoted ==> reads_back(ms)
}

/// `serde_json::to_string` on a string slice. It never fails: the text is written to memory. The
/// contract claims the escaping that `serde_json` documents for strings, that `Value::as_str`
/// gives the string back from the quoted text, and that an object with the quoted text among its
/// members is read back member by member.
#[verifier::external_body]
pub(crate) fn quote(s: &str) -> (r: Result<String, String>)
    ensures
        r is Ok,
        r->Ok_0@ == json_quoted(s@),
        string_reads_back(r->Ok_0@, s@),
{
    serde_json::to_string(s).map_err(|e| e.to_string())
}

/// `serde_json::from_str::<Value>`. The contract names the outcome.
#[verifier::external_body]
pub(crate) fn parse(text: &str) -> (r: Result<serde_json::Value, String>)
    ensures
        match r {
            Ok(v) => gives(json_parse(text@), value_text(v)),
            Err(e) => fails(json_parse(text@), e@),
        },
{
    serde_json::from_str(text).map_err(|e| e.to_string())
}

/// `serde_json::from_slice::<Value>`, without its error. The contract claims that bytes are read
/// exactly when they are UTF-8 and their text is, and give the same value.
#[verifier::external_body]
pub(crate) fn parse_bytes(bytes: &[u8]) -> (r: Option<serde_json::Value>)
    ensures
        match r {
            Some(v) => valid_utf8(bytes@) && gives(
                json_parse(decode_utf8(bytes@)),
                value_text(v),
            ),
            None => !valid_utf8(bytes@) || json_parse(decode_utf8(bytes@)) is Err,
        },
{
    serde_json::from_slice(bytes).ok()
}

/// `Value::get` with a string index. The contract names the member.
#[verifier::external_body]
pub(crate) fn member<'a>(v: &'a serde_json::Value, key: &str) -> (r: Option<&'a serde_json::Value>)
    ensures
        match r {
            Some(m) => json_member(value_text(*v), key@) == Some(value_text(*m)),
            None => json_member(value_text(*v), key@) is None,
        },
{
    v.get(key)
}

/// `Value::as_str`. The contract names the string.
#[verifier::external_body]
pub(crate) fn string_value(v: &serde_json::Value) -> (r: Option<&str>)
    ensures
        match r {
            Some(s) => json_string(value_text(*v)) == Some(s@),
            None => json_string(value_text(*v)) is None,
        },
{
    v.as_str()
}

/// `Value`'s `Display`: the compact text. The contract claims that the text is read back as the
/// same value, when it nests no deeper than the reader allows and all its numbers are integers. Of
/// a number with a fraction or an exponent it claims nothing: the reader may give a neighbour.
#[verifier::external_body]
pub(crate) fn print(v: &serde_json::Value) -> (r: String)
    ensures
        r@ == value_text(*v),
        nesting(r@) <= 127 && !has_fraction(r@) ==> is_json(r@),
{
    v.to_string()
}

/// `Value`'s `Clone`. The contract claims that the copy has the same compact text.
#[verifier::external_body]
pub(crate) fn copy_value(v: &serde_json::Value) -> (r: serde_json::Value)
    ensures
        value_text(r) == value_text(*v),
{
    v.clone()
}

/// `Value::Null`. The contract claims its compact text.
#[verifier::external_body]
pub(crate) fn null_value() -> (r: serde_json::Value)
    ensures
        value_text(r) == "null"@,
{
    serde_json::Value::Null
}

// ---------------------------------------------------------------------------------------------
// Writing
// ---------------------------------------------------------------------------------------------

/// `s` as a JSON string, with its quotes.
pub fn quoted(s: &str) -> (r: String)
    ensures
        r@ == json_quoted(s@),
        string_reads_back(r@, s@),
{
    match quote(s) {
        Ok(r) => r,
        Err(_) => String::new(),
    }
}

/// A JSON object while it is written: the members so far.
pub struct ObjectWriter {
    text: String,
    members: Ghost<Seq<(Seq<char>, Seq<char>)>>,
}

impl ObjectWriter {
    /// The members written so far: keys, and values as JSON text.
    pub closed spec fn members(&self) -> Seq<(Seq<char>, Seq<char>)> {
        self.members@
    }

    /// The text is the text of the members.
    pub closed spec fn wf(&self) -> bool {
        self.text@ == json_members(self.members@)
    }

    /// An object without members.
    pub fn new() -> (r: ObjectWriter)
        ensures
            r.wf(),
            r.members() == Seq::<(Seq<char>, Seq<char>)>::empty(),
    {
        ObjectWriter { text: String::new(), members: Ghost(Seq::empty()) }
    }

    /// Adds a member whose value is JSON text already.
    pub fn value(&mut self, key: &str, value: &str)
        requires
            old(self).wf(),
        ensures
            final(self).wf(),
            final(self).members() == old(self).members().push((key@, value@)),
    {
        let ghost before = self.members@;
        let ghost after = before.push((key@, value@));
        let first = self.text.as_str().is_empty();
        let name = quoted(key);
        proof {
            reveal_strlit(",");
            reveal_strlit(":");
            assert(","@ =~= seq![',']);
            assert(":"@ =~= seq![':']);
            assert(after.drop_last() =~= before);
            if before.len() > 0 {
                lemma_members_nonempty(before);
            }
        }
        if !first {
            self.text.append(",");
        }
        self.text.append(name.as_str());
        self.text.append(":");
        self.text.append(value);
        self.members = Ghost(after);
        assert(self.text@ =~= json_members(after));
    }

    /// Adds a string member.
    pub fn string(&mut self, key: &str, value: &str)
        requires
            old(self).wf(),
        ensures
            final(self).wf(),
            final(self).members() == old(self).members().push((key@, json_quoted(value@))),
            string_reads_back(json_quoted(value@), value@),
    {
        let text = quoted(value);
        self.value(key, text.as_str());
    }

    /// The finished object.
    pub fn finish(self) -> (r: String)
        requires
            self.wf(),
        ensures
            r@ == json_object(self.members()),
    {
        proof {
            reveal_strlit("{");
            reveal_strlit("}");
            assert("{"@ =~= seq!['{']);
            assert("}"@ =~= seq!['}']);
        }
        joined3("{", self.text.as_str(), "}")
    }
}

/// A truth value in JSON.
pub open spec fn bool_text(b: bool) -> Seq<char> {
    if b {
        "true"@
    } else {
        "false"@
    }
}

/// Values that have a JSON text.
pub trait ToJson: View + Sized {
    /// The JSON text that stands for the view `v`.
    spec fn text_of(v: Self::V) -> Seq<char>;

    /// The value as JSON text.
    fn to_json(&self) -> (r: String)
        ensures
            r@ == Self::text_of(self@),
    ;
}

impl ToJson for String {
    open spec fn text_of(v: Seq<char>) -> Seq<char> {
        json_quoted(v)
    }

    fn to_json(&self) -> (r: String) {
        quoted(self.as_str())
    }
}

impl ToJson for u8 {
    open spec fn text_of(v: u8) -> Seq<char> {
        decimal_text(v as nat)
    }

    fn to_json(&self) -> (r: String) {
        decimal(*self as u64)
    }
}

impl ToJson for u32 {
    open spec fn text_of(v: u32) -> Seq<char> {
        decimal_text(v as nat)
    }

    fn to_json(&self) -> (r: String) {
        decimal(*self as u64)
    }
}

impl ToJson for u64 {
    open spec fn text_of(v: u64) -> Seq<char> {
        decimal_text(v as nat)
    }

    fn to_json(&self) -> (r: String) {
        decimal(*self)
    }
}

impl ToJson for i64 {
    open spec fn text_of(v: i64) -> Seq<char> {
        signed_text(v as int)
    }

    fn to_json(&self) -> (r: String) {
        signed_decimal(*self)
    }
}

impl ToJson for bool {
    open spec fn text_of(v: bool) -> Seq<char> {
        bool_text(v)
    }

    fn to_json(&self) -> (r: String) {
        if *self {
            "true".to_owned()
        } else {
            "false".to_owned()
        }
    }
}

/// The JSON array of the values with these views.
pub open spec fn array_text<T: ToJson>(vs: Seq<T::V>) -> Seq<char> {
    json_array(Seq::new(vs.len(), |i: int| T::text_of(vs[i])))
}

/// The values as a JSON array.
pub fn array<T: ToJson>(v: &Vec<T>) -> (r: String)
    ensures
        r@ == array_text::<T>(views(v@)),
{
    let ghost all = Seq::new(v@.len(), |i: int| T::text_of(v@[i]@));
    let mut inside = String::new();
    let mut i: usize = 0;
    proof {
        reveal_strlit(",");
        assert(","@ =~= seq![',']);
    }
    while i < v.len()
        invariant
            0 <= i <= v@.len(),
            all == Seq::new(v@.len(), |k: int| T::text_of(v@[k]@)),
            inside@ == json_elements(all.take(i as int)),
            ","@ == seq![','],
        decreases v@.len() - i,
    {
        let element = v[i].to_json();
        if i > 0 {
            inside.append(",");
        }
        inside.append(element.as_str());
        proof {
            assert(all.take(i + 1).drop_last() =~= all.take(i as int));
            assert(all.take(i + 1).last() == element@);
            assert(inside@ =~= json_elements(all.take(i + 1)));
        }
        i = i + 1;
    }
    proof {
        reveal_strlit("[");
        reveal_strlit("]");
        assert("["@ =~= seq!['[']);
        assert("]"@ =~= seq![']']);
        assert(all.take(i as int) =~= all);
        assert(all =~= Seq::new(views(v@).len(), |k: int| T::text_of(views(v@)[k])));
    }
    joined3("[", inside.as_str(), "]")
}

/// Some bytes as a JSON array of numbers.
pub fn byte_array(v: &Vec<u8>) -> (r: String)
    ensures
        r@ == array_text::<u8>(v@),
{
    assert(views(v@) =~= v@);
    array(v)
}

/// Texts under names, as the members of an object.
pub open spec fn quoted_values(pairs: Seq<(Seq<char>, Seq<char>)>) -> Seq<(Seq<char>, Seq<char>)> {
    Seq::new(pairs.len(), |i: int| (pairs[i].0, json_quoted(pairs[i].1)))
}

/// Texts under names, as a JSON object.
pub fn named_object(pairs: &Vec<(String, String)>) -> (r: String)
    ensures
        r@ == json_object(quoted_values(views(pairs@))),
{
    let ghost all = quoted_values(views(pairs@));
    let mut w = ObjectWriter::new();
    let mut i: usize = 0;
    while i < pairs.len()
        invariant
            0 <= i <= pairs@.len(),
            all == quoted_values(views(pairs@)),
            w.wf(),
            w.members() == all.take(i as int),
        decreases pairs@.len() - i,
    {
        w.string(pairs[i].0.as_str(), pairs[i].1.as_str());
        assert(w.members() =~= all.take(i + 1));
        i = i + 1;
    }
    assert(all.take(i as int) =~= all);
    w.finish()
}

/// The member for an optional value: none when it is absent.
pub open spec fn optional_member<T: ToJson>(key: Seq<char>, v: Option<T::V>) -> Seq<
    (Seq<char>, Seq<char>),
> {
    match v {
        Some(x) => seq![(key, T::text_of(x))],
        None => Seq::empty(),
    }
}

/// The member for an optional list of texts: none when it is absent.
pub open spec fn optional_texts(key: Seq<char>, v: Option<Seq<Seq<char>>>) -> Seq<
    (Seq<char>, Seq<char>),
> {
    match v {
        Some(x) => seq![(key, array_text::<String>(x))],
        None => Seq::empty(),
    }
}

impl ObjectWriter {
    /// Adds a member when there is a value.
    pub fn optional<T: ToJson>(&mut self, key: &str, value: &Option<T>)
        requires
            old(self).wf(),
        ensures
            final(self).wf(),
            final(self).members() == old(self).members() + optional_member::<T>(
                key@,
                opt_view(*value),
            ),
    {
        if let Some(x) = value {
            self.value(key, x.to_json().as_str());
        }
        assert(self.members() =~= old(self).members() + optional_member::<T>(
            key@,
            opt_view(*value),
        ));
    }

    /// Adds a list of texts when there is one.
    pub fn optional_texts(&mut self, key: &str, value: &Option<Vec<String>>)
        requires
            old(self).wf(),
        ensures
            final(self).wf(),
            final(self).members() == old(self).members() + optional_texts(key@, opt_views(*value)),
    {
        if let Some(x) = value {
            self.value(key, array(x).as_str());
        }
        assert(self.members() =~= old(self).members() + optional_texts(key@, opt_views(*value)));
    }
}

proof fn lemma_members_nonempty(ms: Seq<(Seq<char>, Seq<char>)>)
    requires
        ms.len() > 0,
    ensures
        json_members(ms).len() > 0,
{
    assert(json_quoted(ms.last().0).len() >= 2);
    assert(json_quoted(ms[0].0).len() >= 2);
}

// ---------------------------------------------------------------------------------------------
// Laws
// ---------------------------------------------------------------------------------------------

proof fn escapes_come_first(c: char, s: Seq<char>)
    ensures
        json_escapes(seq![c] + s) == json_escaped(c) + json_escapes(s),
    decreases s.len(),
{
    reveal_with_fuel(json_escapes, 2);
    let all = seq![c] + s;
    if s.len() == 0 {
        assert(all.drop_last() =~= Seq::empty());
        assert(all.last() == c);
        assert(json_escapes(all) =~= json_escaped(c) + json_escapes(s));
    } else {
        let rest = s.drop_last();
        escapes_come_first(c, rest);
        assert(all.drop_last() =~= seq![c] + rest);
        assert(all.last() == s.last());
        assert(json_escapes(all) =~= json_escaped(c) + json_escapes(s));
    }
}

/// The character that a letter behind a backslash stands for.
pub open spec fn escape_meaning(c: char) -> char {
    if c == 'b' {
        8u8 as char
    } else if c == 't' {
        9u8 as char
    } else if c == 'n' {
        10u8 as char
    } else if c == 'f' {
        12u8 as char
    } else if c == 'r' {
        13u8 as char
    } else {
        c
    }
}

/// The value of a lowercase hexadecimal digit.
pub open spec fn digit_meaning(c: char) -> int {
    if '0' <= c <= '9' {
        c as int - '0' as int
    } else {
        c as int - 'a' as int + 10
    }
}

/// What the inside of a JSON string stands for: a backslash changes what the character behind it
/// means, or announces four digits; every other character stands for itself.
pub open spec fn meaning(t: Seq<char>) -> Seq<char>
    decreases t.len(),
{
    if t.len() == 0 {
        Seq::empty()
    } else if t[0] != '\\' {
        seq![t[0]] + meaning(t.skip(1))
    } else if t.len() >= 6 && t[1] == 'u' {
        seq![
            (0x1000 * digit_meaning(t[2]) + 0x100 * digit_meaning(t[3]) + 0x10 * digit_meaning(t[4])
                + digit_meaning(t[5])) as char,
        ] + meaning(t.skip(6))
    } else if t.len() >= 2 {
        seq![escape_meaning(t[1])] + meaning(t.skip(2))
    } else {
        Seq::empty()
    }
}

proof fn escaped_characters_mean_themselves(c: char, r: Seq<char>)
    ensures
        meaning(json_escaped(c) + r) == seq![c] + meaning(r),
{
    let e = json_escaped(c);
    let t = e + r;
    let d = c as int;
    assert(t.skip(e.len() as int) =~= r);
    assert(t[0] == e[0]);
    if is_plain(c) {
        assert(e =~= seq![c]);
    } else if c == '"' || c == '\\' || d == 8 || d == 9 || d == 10 || d == 12 || d == 13 {
        assert(e.len() == 2);
        assert(t[1] == e[1]);
        assert(escape_meaning(t[1]) == c);
    } else {
        assert(e.len() == 6);
        assert(t[1] == e[1] && t[2] == e[2] && t[3] == e[3] && t[4] == e[4] && t[5] == e[5]);
        assert(0 <= d < 0x20);
        assert(digit_meaning(hex_digit(d / 16)) == d / 16);
        assert(digit_meaning(hex_digit(d % 16)) == d % 16);
        assert(digit_meaning('0') == 0);
        assert(16 * (d / 16) + d % 16 == d);
        assert((d as char) == c);
    }
}

proof fn escapes_mean_the_text(s: Seq<char>)
    ensures
        meaning(json_escapes(s)) == s,
    decreases s.len(),
{
    if s.len() == 0 {
        assert(meaning(json_escapes(s)) =~= s);
    } else {
        let rest = s.skip(1);
        escapes_mean_the_text(rest);
        assert(seq![s[0]] + rest =~= s);
        escapes_come_first(s[0], rest);
        escaped_characters_mean_themselves(s[0], json_escapes(rest));
    }
}

/// A quoted text means the text that was quoted, whatever characters it holds. So two texts that are
/// quoted alike are the same.
pub proof fn quoted_texts_mean_themselves(s: Seq<char>, other: Seq<char>)
    ensures
        json_quoted(s).first() == '"' && json_quoted(s).last() == '"',
        meaning(json_quoted(s).subrange(1, json_quoted(s).len() - 1)) == s,
        json_quoted(s) == json_quoted(other) ==> s == other,
{
    escapes_mean_the_text(s);
    escapes_mean_the_text(other);
    assert(json_quoted(s).subrange(1, json_quoted(s).len() - 1) =~= json_escapes(s));
    assert(json_quoted(other).subrange(1, json_quoted(other).len() - 1) =~= json_escapes(other));
}

proof fn escapes_stay_inside(s: Seq<char>)
    ensures
        scan(seq!['"'] + json_escapes(s)) == (Scan {
            inside: true,
            escaped: false,
            depth: 0,
            deepest: 0,
            digit: false,
            fraction: false,
        }),
    decreases s.len(),
{
    if s.len() == 0 {
        scans_go_on(Seq::empty(), '"');
        assert(seq!['"'] + json_escapes(s) =~= Seq::empty().push('"'));
    } else {
        let rest = s.drop_last();
        escapes_stay_inside(rest);
        let before = seq!['"'] + json_escapes(rest);
        escaped_characters_stay_inside(before, json_escaped(s.last()), s.last());
        assert(seq!['"'] + json_escapes(s) =~= before + json_escaped(s.last()));
    }
}

proof fn scans_go_on(s: Seq<char>, c: char)
    ensures
        scan(s.push(c)) == scanned(scan(s), c),
{
    assert(s.push(c).drop_last() =~= s);
}

proof fn escaped_characters_stay_inside(before: Seq<char>, e: Seq<char>, c: char)
    requires
        scan(before).inside && !scan(before).escaped,
        e == json_escaped(c),
    ensures
        scan(before + e) == scan(before),
{
    let a = before.push(e[0]);
    scans_go_on(before, e[0]);
    if e.len() == 1 {
        assert(before + e =~= a);
    } else {
        let b = a.push(e[1]);
        scans_go_on(a, e[1]);
        if e.len() == 2 {
            assert(before + e =~= b);
        } else {
            let d = b.push(e[2]);
            let f = d.push(e[3]);
            let g = f.push(e[4]);
            scans_go_on(b, e[2]);
            scans_go_on(d, e[3]);
            scans_go_on(f, e[4]);
            scans_go_on(g, e[5]);
            assert(e.len() == 6);
            assert(before + e =~= g.push(e[5]));
            assert(e[4] != '"' && e[4] != '\\' && e[5] != '"' && e[5] != '\\');
        }
    }
}

/// A quoted text opens nothing and is no number, whatever it holds: braces, brackets, quotes and
/// points inside it do not count.
pub proof fn quoted_texts_nest_nothing(s: Seq<char>)
    ensures
        nesting(json_quoted(s)) == 0,
        !has_fraction(json_quoted(s)),
        !scan(json_quoted(s)).inside,
{
    escapes_stay_inside(s);
    assert(json_quoted(s).drop_last() =~= seq!['"'] + json_escapes(s));
}

/// Members stand in an object in their order, each as its quoted name, a colon and its text, with
/// commas between them and braces round them; elements stand so in an array, between brackets.
pub proof fn objects_and_arrays_keep_the_order(
    ms: Seq<(Seq<char>, Seq<char>)>,
    m: (Seq<char>, Seq<char>),
    vs: Seq<Seq<char>>,
    v: Seq<char>,
)
    ensures
        json_object(Seq::empty()) == seq!['{', '}'],
        json_object(seq![m]) == seq!['{'] + json_quoted(m.0) + seq![':'] + m.1 + seq!['}'],
        ms.len() > 0 ==> json_object(ms.push(m)) == json_object(ms).drop_last() + seq![',']
            + json_object(seq![m]).skip(1),
        json_array(Seq::empty()) == seq!['[', ']'],
        json_array(seq![v]) == seq!['['] + v + seq![']'],
        vs.len() > 0 ==> json_array(vs.push(v)) == json_array(vs).drop_last() + seq![','] + v
            + seq![']'],
{
    assert(json_object(Seq::empty()) =~= seq!['{', '}']);
    assert(json_array(Seq::empty()) =~= seq!['[', ']']);
    assert(json_object(seq![m]) =~= seq!['{'] + json_quoted(m.0) + seq![':'] + m.1 + seq!['}']);
    assert(json_array(seq![v]) =~= seq!['['] + v + seq![']']);
    if ms.len() > 0 {
        assert(ms.push(m).drop_last() =~= ms);
        assert(json_object(ms.push(m)) =~= json_object(ms).drop_last() + seq![','] + json_object(
            seq![m],
        ).skip(1));
    }
    if vs.len() > 0 {
        assert(vs.push(v).drop_last() =~= vs);
        assert(json_array(vs.push(v)) =~= json_array(vs).drop_last() + seq![','] + v + seq![']']);
    }
}

/// Lists stand in arrays element by element and in order: texts quoted, bytes in decimal notation,
/// and other values as their own text. Texts under names stand quoted under the same names, and a
/// truth value is its word.
pub proof fn values_stand_as_they_are<T: ToJson>(
    texts: Seq<Seq<char>>,
    bytes: Seq<u8>,
    values: Seq<T::V>,
    pairs: Seq<(Seq<char>, Seq<char>)>,
)
    ensures
        array_text::<String>(texts) == json_array(texts.map_values(|s: Seq<char>| json_quoted(s))),
        array_text::<u8>(bytes) == json_array(bytes.map_values(|b: u8| decimal_text(b as nat))),
        array_text::<T>(values) == json_array(values.map_values(|v: T::V| T::text_of(v))),
        quoted_values(pairs) == pairs.map_values(
            |p: (Seq<char>, Seq<char>)| (p.0, json_quoted(p.1)),
        ),
        bool_text(true) == "true"@ && bool_text(false) == "false"@,
{
    assert(Seq::new(texts.len(), |i: int| <String as ToJson>::text_of(texts[i]))
        =~= texts.map_values(|s: Seq<char>| json_quoted(s)));
    assert(Seq::new(bytes.len(), |i: int| <u8 as ToJson>::text_of(bytes[i])) =~= bytes.map_values(
        |b: u8| decimal_text(b as nat),
    ));
    assert(Seq::new(values.len(), |i: int| T::text_of(values[i])) =~= values.map_values(
        |v: T::V| T::text_of(v),
    ));
    assert(quoted_values(pairs) =~= pairs.map_values(
        |p: (Seq<char>, Seq<char>)| (p.0, json_quoted(p.1)),
    ));
}

} // verus!
