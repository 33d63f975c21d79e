//! The wire format's value model and grammar: a compact JSON subset — objects
//! of string keys whose values are strings, 64-bit integers, booleans, null,
//! or one nested flat object — written one object per line.
//!
//! The serializer and parser are verified against spec-level grammar
//! functions, and a round-trip proof shows the parser inverts the serializer
//! on every valid value.

use vstd::prelude::*;

use crate::text::{chars_to_string, dec_seq, digit_char, int_seq, push_i64_dec, str_to_chars};

verus! {

/// A JSON scalar value as carried in protocol fields.
pub enum JsonScalar {
    Null,
    Bool(bool),
    Int(i64),
    Str(String),
}

/// Spec-level scalar value.
pub ghost enum ScalarVal {
    Null,
    Bool(bool),
    Int(int),
    Str(Seq<char>),
}

impl View for JsonScalar {
    type V = ScalarVal;

    open spec fn view(&self) -> ScalarVal {
        match self {
            JsonScalar::Null => ScalarVal::Null,
            JsonScalar::Bool(b) => ScalarVal::Bool(*b),
            JsonScalar::Int(i) => ScalarVal::Int(*i as int),
            JsonScalar::Str(s) => ScalarVal::Str(s@),
        }
    }
}

/// A flat JSON object: fields in order, scalar values.
pub struct JsonObject {
    pub fields: Vec<(String, JsonScalar)>,
}

/// Spec-level object contents.
pub type ObjVal = Seq<(Seq<char>, ScalarVal)>;

impl View for JsonObject {
    type V = ObjVal;

    open spec fn view(&self) -> ObjVal {
        self.fields@.map_values(|f: (String, JsonScalar)| (f.0@, f.1@))
    }
}

/// A value at the top level of a protocol object: a scalar or a nested
/// flat object.
pub enum JsonItem {
    Scalar(JsonScalar),
    Object(JsonObject),
}

/// Spec-level top-level value.
pub ghost enum ItemVal {
    Scalar(ScalarVal),
    Object(ObjVal),
}

impl View for JsonItem {
    type V = ItemVal;

    open spec fn view(&self) -> ItemVal {
        match self {
            JsonItem::Scalar(s) => ItemVal::Scalar(s@),
            JsonItem::Object(o) => ItemVal::Object(o@),
        }
    }
}

/// Spec-level contents of a top-level object.
pub type TopVal = Seq<(Seq<char>, ItemVal)>;

// ---------------------------------------------------------------------------
// Validity: what the serializer handles and the round trip covers.
// ---------------------------------------------------------------------------
/// A character a wire string may carry: printable, or one of the three
/// whitespace characters the writer escapes.
pub open spec fn char_ok(c: char) -> bool {
    c as u32 >= 0x20 || c == '\n' || c == '\r' || c == '\t'
}

/// Every character of the string is representable on the wire.
pub open spec fn str_ok(s: Seq<char>) -> bool {
    forall|i: int| 0 <= i < s.len() ==> char_ok(#[trigger] s[i])
}

/// The scalar is representable: strings carry only representable
/// characters and integers fit in 64 signed bits.
pub open spec fn scalar_ok(v: ScalarVal) -> bool {
    match v {
        ScalarVal::Null => true,
        ScalarVal::Bool(_) => true,
        ScalarVal::Int(i) => i64::MIN <= i <= i64::MAX,
        ScalarVal::Str(s) => str_ok(s),
    }
}

/// Every key and value of the object is representable.
pub open spec fn obj_ok(fs: ObjVal) -> bool {
    forall|i: int|
        0 <= i < fs.len() ==> str_ok(#[trigger] fs[i].0) && scalar_ok(fs[i].1)
}

/// The top-level value is representable.
pub open spec fn item_ok(v: ItemVal) -> bool {
    match v {
        ItemVal::Scalar(s) => scalar_ok(s),
        ItemVal::Object(o) => obj_ok(o),
    }
}

/// Every key and value of the top-level object is representable.
pub open spec fn top_ok(fs: TopVal) -> bool {
    forall|i: int|
        0 <= i < fs.len() ==> str_ok(#[trigger] fs[i].0) && item_ok(fs[i].1)
}

// ---------------------------------------------------------------------------
// Serialization, at the spec level.
// ---------------------------------------------------------------------------
/// How one character is written inside a quoted string.
pub open spec fn esc_char(c: char) -> Seq<char> {
    if c == '"' {
        seq!['\\', '"']
    } else if c == '\\' {
        seq!['\\', '\\']
    } else if c == '\n' {
        seq!['\\', 'n']
    } else if c == '\r' {
        seq!['\\', 'r']
    } else if c == '\t' {
        seq!['\\', 't']
    } else {
        seq![c]
    }
}

/// The body of a quoted string: each character escaped as needed.
pub open spec fn ser_str_body(s: Seq<char>) -> Seq<char>
    decreases s.len(),
{
    if s.len() == 0 {
        Seq::empty()
    } else {
        esc_char(s[0]) + ser_str_body(s.skip(1))
    }
}

/// A quoted string.
pub open spec fn ser_string(s: Seq<char>) -> Seq<char> {
    seq!['"'] + ser_str_body(s) + seq!['"']
}

/// A serialized scalar.
pub open spec fn ser_scalar(v: ScalarVal) -> Seq<char> {
    match v {
        ScalarVal::Null => seq!['n', 'u', 'l', 'l'],
        ScalarVal::Bool(b) => if b {
            seq!['t', 'r', 'u', 'e']
        } else {
            seq!['f', 'a', 'l', 's', 'e']
        },
        ScalarVal::Int(i) => int_seq(i),
        ScalarVal::Str(s) => ser_string(s),
    }
}

/// One `key:value` field with a scalar value.
pub open spec fn ser_field(f: (Seq<char>, ScalarVal)) -> Seq<char> {
    ser_string(f.0) + seq![':'] + ser_scalar(f.1)
}

/// Comma-separated fields with scalar values.
pub open spec fn ser_fields(fs: ObjVal) -> Seq<char>
    decreases fs.len(),
{
    if fs.len() == 0 {
        Seq::empty()
    } else if fs.len() == 1 {
        ser_field(fs[0])
    } else {
        ser_field(fs[0]) + seq![','] + ser_fields(fs.skip(1))
    }
}

/// A braced object with scalar values.
pub open spec fn ser_object(fs: ObjVal) -> Seq<char> {
    seq!['{'] + ser_fields(fs) + seq!['}']
}

/// A serialized top-level value.
pub open spec fn ser_item(v: ItemVal) -> Seq<char> {
    match v {
        ItemVal::Scalar(s) => ser_scalar(s),
        ItemVal::Object(o) => ser_object(o),
    }
}

/// One `key:value` field with a top-level value.
pub open spec fn ser_top_field(f: (Seq<char>, ItemVal)) -> Seq<char> {
    ser_string(f.0) + seq![':'] + ser_item(f.1)
}

/// Comma-separated fields with top-level values.
pub open spec fn ser_top_fields(fs: TopVal) -> Seq<char>
    decreases fs.len(),
{
    if fs.len() == 0 {
        Seq::empty()
    } else if fs.len() == 1 {
        ser_top_field(fs[0])
    } else {
        ser_top_field(fs[0]) + seq![','] + ser_top_fields(fs.skip(1))
    }
}

/// A braced top-level object.
pub open spec fn ser_top_object(fs: TopVal) -> Seq<char> {
    seq!['{'] + ser_top_fields(fs) + seq!['}']
}

// ---------------------------------------------------------------------------
// Serialization, executable.
// ---------------------------------------------------------------------------
proof fn lemma_ser_str_body_push(s: Seq<char>, c: char)
    ensures
        ser_str_body(s.push(c)) == ser_str_body(s) + esc_char(c),
    decreases s.len(),
{
    if s.len() == 0 {
        assert(s.push(c)[0] == c);
        assert(s.push(c).skip(1) =~= Seq::<char>::empty());
        assert(ser_str_body(s.push(c)) == esc_char(c) + ser_str_body(Seq::<char>::empty()));
        assert(esc_char(c) + Seq::<char>::empty() =~= esc_char(c));
        assert(ser_str_body(s) + esc_char(c) =~= esc_char(c));
    } else {
        lemma_ser_str_body_push(s.skip(1), c);
        assert(s.push(c).skip(1) =~= s.skip(1).push(c));
        assert(ser_str_body(s.push(c)) =~= ser_str_body(s) + esc_char(c));
    }
}

/// Appends the escaped body of `s` to `out`.
fn emit_str_body(out: &mut Vec<char>, s: &String)
    ensures
        final(out)@ == old(out)@ + ser_str_body(s@),
{
    let cs = str_to_chars(s.as_str());
    let mut i: usize = 0;
    while i < cs.len()
        invariant
            cs@ == s@,
            i <= cs@.len(),
            out@ == old(out)@ + ser_str_body(s@.subrange(0, i as int)),
        decreases cs@.len() - i,
    {
        let c = cs[i];
        if c == '"' {
            out.push('\\');
            out.push('"');
        } else if c == '\\' {
            out.push('\\');
            out.push('\\');
        } else if c == '\n' {
            out.push('\\');
            out.push('n');
        } else if c == '\r' {
            out.push('\\');
            out.push('r');
        } else if c == '\t' {
            out.push('\\');
            out.push('t');
        } else {
            out.push(c);
        }
        proof {
            lemma_ser_str_body_push(s@.subrange(0, i as int), s@[i as int]);
            assert(s@.subrange(0, i + 1) =~= s@.subrange(0, i as int).push(s@[i as int]));
            assert(out@ =~= old(out)@ + ser_str_body(s@.subrange(0, i + 1)));
        }
        i = i + 1;
    }
    assert(s@.subrange(0, s@.len() as int) =~= s@);
}

/// Appends the quoted form of `s` to `out`.
pub fn emit_string(out: &mut Vec<char>, s: &String)
    ensures
        final(out)@ == old(out)@ + ser_string(s@),
{
    out.push('"');
    emit_str_body(out, s);
    out.push('"');
    assert(final(out)@ =~= old(out)@ + ser_string(s@));
}

/// Appends a serialized scalar to `out`.
fn emit_scalar(out: &mut Vec<char>, v: &JsonScalar)
    ensures
        final(out)@ == old(out)@ + ser_scalar(v@),
{
    match v {
        JsonScalar::Null => {
            out.push('n');
            out.push('u');
            out.push('l');
            out.push('l');
            assert(final(out)@ =~= old(out)@ + ser_scalar(v@));
        },
        JsonScalar::Bool(b) => {
            if *b {
                out.push('t');
                out.push('r');
                out.push('u');
                out.push('e');
            } else {
                out.push('f');
                out.push('a');
                out.push('l');
                out.push('s');
                out.push('e');
            }
            assert(final(out)@ =~= old(out)@ + ser_scalar(v@));
        },
        JsonScalar::Int(i) => {
            push_i64_dec(out, *i);
        },
        JsonScalar::Str(s) => {
            emit_string(out, s);
        },
    }
}

/// Appends the fields of `o` starting at index `i`, comma-separated.
fn emit_fields_from(out: &mut Vec<char>, o: &JsonObject, i: usize)
    requires
        i < o.fields@.len(),
    ensures
        final(out)@ == old(out)@ + ser_fields(o@.skip(i as int)),
    decreases o.fields@.len() - i,
{
    let n = o.fields.len();
    let f = &o.fields[i];
    emit_string(out, &f.0);
    out.push(':');
    emit_scalar(out, &f.1);
    if i + 1 < n {
        out.push(',');
        emit_fields_from(out, o, i + 1);
        assert(o@.skip(i as int)[0] == (o.fields@[i as int].0@, o.fields@[i as int].1@));
        assert(o@.skip(i as int).skip(1) =~= o@.skip(i + 1));
        assert(final(out)@ =~= old(out)@ + ser_fields(o@.skip(i as int)));
    } else {
        assert(o@.skip(i as int).len() == 1);
        assert(o@.skip(i as int)[0] == (o.fields@[i as int].0@, o.fields@[i as int].1@));
        assert(final(out)@ =~= old(out)@ + ser_fields(o@.skip(i as int)));
    }
}

/// Appends a braced object to `out`.
pub fn emit_object(out: &mut Vec<char>, o: &JsonObject)
    ensures
        final(out)@ == old(out)@ + ser_object(o@),
{
    out.push('{');
    if o.fields.len() > 0 {
        emit_fields_from(out, o, 0);
        assert(o@.skip(0) =~= o@);
    }
    out.push('}');
    assert(final(out)@ =~= old(out)@ + ser_object(o@));
}

/// Appends a serialized top-level value to `out`.
pub fn emit_item(out: &mut Vec<char>, v: &JsonItem)
    ensures
        final(out)@ == old(out)@ + ser_item(v@),
{
    match v {
        JsonItem::Scalar(s) => emit_scalar(out, s),
        JsonItem::Object(o) => emit_object(out, o),
    }
}

/// Renders a top-level object (such as a whole protocol message) as a
/// single compact line, without a trailing newline.
pub fn top_object_to_chars(fields: &Vec<(String, JsonItem)>) -> (r: Vec<char>)
    ensures
        r@ == ser_top_object(top_view(fields)),
{
    let mut out: Vec<char> = Vec::new();
    out.push('{');
    if fields.len() > 0 {
        emit_top_fields_from(&mut out, fields, 0);
        assert(top_view(fields).skip(0) =~= top_view(fields));
    }
    out.push('}');
    assert(out@ =~= ser_top_object(top_view(fields)));
    out
}

/// Spec view of a top-level field list.
pub open spec fn top_view(fields: &Vec<(String, JsonItem)>) -> TopVal {
    fields@.map_values(|f: (String, JsonItem)| (f.0@, f.1@))
}

// ---------------------------------------------------------------------------
// Parsing, at the spec level. Each function consumes from the front of the
// input and returns the parsed value with the unconsumed remainder.
// ---------------------------------------------------------------------------
/// The unescaped meaning of the character after a backslash.
pub open spec fn unesc_char(c: char) -> Option<char> {
    if c == '"' {
        Some('"')
    } else if c == '\\' {
        Some('\\')
    } else if c == 'n' {
        Some('\n')
    } else if c == 'r' {
        Some('\r')
    } else if c == 't' {
        Some('\t')
    } else {
        None
    }
}

/// Parses a quoted string's body up to and including the closing quote.
pub open spec fn parse_str_body(s: Seq<char>) -> Option<(Seq<char>, Seq<char>)>
    decreases s.len(),
{
    if s.len() == 0 {
        None
    } else if s[0] == '"' {
        Some((Seq::empty(), s.skip(1)))
    } else if s[0] == '\\' {
        if s.len() < 2 {
            None
        } else {
            match unesc_char(s[1]) {
                Some(c) => match parse_str_body(s.skip(2)) {
                    Some((t, r)) => Some((seq![c] + t, r)),
                    None => None,
                },
                None => None,
            }
        }
    } else if (s[0] as u32) < 0x20 {
        None
    } else {
        match parse_str_body(s.skip(1)) {
            Some((t, r)) => Some((seq![s[0]] + t, r)),
            None => None,
        }
    }
}

/// A decimal digit.
pub open spec fn is_digit(c: char) -> bool {
    '0' <= c && c <= '9'
}

/// The value of a decimal digit.
pub open spec fn digit_val(c: char) -> nat
    recommends
        is_digit(c),
{
    (c as u32 - 48) as nat
}

/// Splits the longest digit prefix from the rest.
pub open spec fn take_digits(s: Seq<char>) -> (Seq<char>, Seq<char>)
    decreases s.len(),
{
    if s.len() == 0 || !is_digit(s[0]) {
        (Seq::empty(), s)
    } else {
        let (d, r) = take_digits(s.skip(1));
        (seq![s[0]] + d, r)
    }
}

/// The number a digit string denotes.
pub open spec fn digits_val(ds: Seq<char>) -> nat
    decreases ds.len(),
{
    if ds.len() == 0 {
        0
    } else {
        digits_val(ds.drop_last()) * 10 + digit_val(ds.last())
    }
}

/// Parses an optionally signed decimal integer that fits in 64 signed bits.
pub open spec fn parse_int(s: Seq<char>) -> Option<(int, Seq<char>)> {
    if s.len() > 0 && s[0] == '-' {
        let (ds, r) = take_digits(s.skip(1));
        if ds.len() == 0 {
            None
        } else if -(digits_val(ds) as int) < i64::MIN {
            None
        } else {
            Some((-(digits_val(ds) as int), r))
        }
    } else {
        let (ds, r) = take_digits(s);
        if ds.len() == 0 {
            None
        } else if digits_val(ds) > i64::MAX {
            None
        } else {
            Some((digits_val(ds) as int, r))
        }
    }
}

/// `s` begins with `p`.
pub open spec fn begins_with(s: Seq<char>, p: Seq<char>) -> bool {
    p.len() <= s.len() && s.subrange(0, p.len() as int) == p
}

/// Parses one scalar.
pub open spec fn parse_scalar(s: Seq<char>) -> Option<(ScalarVal, Seq<char>)> {
    if s.len() == 0 {
        None
    } else if s[0] == '"' {
        match parse_str_body(s.skip(1)) {
            Some((b, r)) => Some((ScalarVal::Str(b), r)),
            None => None,
        }
    } else if begins_with(s, seq!['t', 'r', 'u', 'e']) {
        Some((ScalarVal::Bool(true), s.skip(4)))
    } else if begins_with(s, seq!['f', 'a', 'l', 's', 'e']) {
        Some((ScalarVal::Bool(false), s.skip(5)))
    } else if begins_with(s, seq!['n', 'u', 'l', 'l']) {
        Some((ScalarVal::Null, s.skip(4)))
    } else {
        match parse_int(s) {
            Some((i, r)) => Some((ScalarVal::Int(i), r)),
            None => None,
        }
    }
}

/// Parses a nonempty field list with scalar values, up to and including
/// the closing brace.
pub open spec fn parse_fields(s: Seq<char>) -> Option<(ObjVal, Seq<char>)>
    decreases s.len(),
{
    if s.len() == 0 || s[0] != '"' {
        None
    } else {
        match parse_str_body(s.skip(1)) {
            None => None,
            Some((k, r1)) => if r1.len() == 0 || r1[0] != ':' {
                None
            } else {
                match parse_scalar(r1.skip(1)) {
                    None => None,
                    Some((v, r2)) => if r2.len() == 0 {
                        None
                    } else if r2[0] == '}' {
                        Some((seq![(k, v)], r2.skip(1)))
                    } else if r2[0] == ',' {
                        // The recursive argument is provably shorter; the
                        // guard lets the recursion stand on its own.
                        if r2.skip(1).len() < s.len() {
                            match parse_fields(r2.skip(1)) {
                                Some((fs, r3)) => Some((seq![(k, v)] + fs, r3)),
                                None => None,
                            }
                        } else {
                            None
                        }
                    } else {
                        None
                    },
                }
            },
        }
    }
}

/// Parses a braced object with scalar values.
pub open spec fn parse_object(s: Seq<char>) -> Option<(ObjVal, Seq<char>)> {
    if s.len() == 0 || s[0] != '{' {
        None
    } else if s.len() >= 2 && s[1] == '}' {
        Some((Seq::empty(), s.skip(2)))
    } else {
        parse_fields(s.skip(1))
    }
}

/// Parses a top-level value: a nested object or a scalar.
pub open spec fn parse_item(s: Seq<char>) -> Option<(ItemVal, Seq<char>)> {
    if s.len() > 0 && s[0] == '{' {
        match parse_object(s) {
            Some((o, r)) => Some((ItemVal::Object(o), r)),
            None => None,
        }
    } else {
        match parse_scalar(s) {
            Some((v, r)) => Some((ItemVal::Scalar(v), r)),
            None => None,
        }
    }
}

/// Parses a nonempty top-level field list, up to and including the
/// closing brace.
pub open spec fn parse_top_fields(s: Seq<char>) -> Option<(TopVal, Seq<char>)>
    decreases s.len(),
{
    if s.len() == 0 || s[0] != '"' {
        None
    } else {
        match parse_str_body(s.skip(1)) {
            None => None,
            Some((k, r1)) => if r1.len() == 0 || r1[0] != ':' {
                None
            } else {
                match parse_item(r1.skip(1)) {
                    None => None,
                    Some((v, r2)) => if r2.len() == 0 {
                        None
                    } else if r2[0] == '}' {
                        Some((seq![(k, v)], r2.skip(1)))
                    } else if r2[0] == ',' {
                        if r2.skip(1).len() < s.len() {
                            match parse_top_fields(r2.skip(1)) {
                                Some((fs, r3)) => Some((seq![(k, v)] + fs, r3)),
                                None => None,
                            }
                        } else {
                            None
                        }
                    } else {
                        None
                    },
                }
            },
        }
    }
}

/// Parses a braced top-level object.
pub open spec fn parse_top_object(s: Seq<char>) -> Option<(TopVal, Seq<char>)> {
    if s.len() == 0 || s[0] != '{' {
        None
    } else if s.len() >= 2 && s[1] == '}' {
        Some((Seq::empty(), s.skip(2)))
    } else {
        parse_top_fields(s.skip(1))
    }
}

/// Parses a whole line as one top-level object with nothing after it.
pub open spec fn parse_top_line(s: Seq<char>) -> Option<TopVal> {
    match parse_top_object(s) {
        Some((fs, r)) => if r.len() == 0 {
            Some(fs)
        } else {
            None
        },
        None => None,
    }
}

// ---------------------------------------------------------------------------
// Field lookup.
// ---------------------------------------------------------------------------
/// The value of the first field named `k`, if any.
pub open spec fn lookup_field(o: ObjVal, k: Seq<char>) -> Option<ScalarVal>
    decreases o.len(),
{
    if o.len() == 0 {
        None
    } else if o[0].0 == k {
        Some(o[0].1)
    } else {
        lookup_field(o.skip(1), k)
    }
}

/// The string value of the first field named `k`; `None` when the field is
/// missing or not a string.
pub open spec fn lookup_str(o: ObjVal, k: Seq<char>) -> Option<Seq<char>> {
    match lookup_field(o, k) {
        Some(ScalarVal::Str(s)) => Some(s),
        _ => None,
    }
}

impl JsonScalar {
    /// A field-for-field copy.
    pub fn duplicate(&self) -> (r: JsonScalar)
        ensures
            r@ == self@,
    {
        match self {
            JsonScalar::Null => JsonScalar::Null,
            JsonScalar::Bool(b) => JsonScalar::Bool(*b),
            JsonScalar::Int(i) => JsonScalar::Int(*i),
            JsonScalar::Str(s) => JsonScalar::Str(s.clone()),
        }
    }
}

impl JsonObject {
    /// A field-for-field copy.
    pub fn duplicate(&self) -> (r: JsonObject)
        ensures
            r@ == self@,
    {
        let n = self.fields.len();
        let mut fields: Vec<(String, JsonScalar)> = Vec::new();
        let mut i: usize = 0;
        while i < n
            invariant
                n == self.fields@.len(),
                i <= n,
                fields@.len() == i,
                forall|k: int|
                    0 <= k < i ==> (#[trigger] fields@[k]).0@ == self.fields@[k].0@
                        && fields@[k].1@ == self.fields@[k].1@,
            decreases n - i,
        {
            let f = &self.fields[i];
            fields.push((f.0.clone(), f.1.duplicate()));
            i = i + 1;
        }
        let r = JsonObject { fields };
        assert(r@ =~= self@);
        r
    }

    /// The value of the first field named `key`, if any.
    pub fn get_field(&self, key: &String) -> (r: Option<&JsonScalar>)
        ensures
            match r {
                Some(v) => lookup_field(self@, key@) == Some(v@),
                None => lookup_field(self@, key@) == None::<ScalarVal>,
            },
    {
        let n = self.fields.len();
        let mut i: usize = 0;
        assert(self@.skip(0) =~= self@);
        while i < n
            invariant
                n == self.fields@.len(),
                i <= n,
                lookup_field(self@, key@) == lookup_field(self@.skip(i as int), key@),
            decreases n - i,
        {
            let f = &self.fields[i];
            proof {
                assert(self@.skip(i as int)[0] == (self.fields@[i as int].0@,
                self.fields@[i as int].1@));
                assert(self@.skip(i as int).skip(1) =~= self@.skip(i + 1));
            }
            if f.0 == *key {
                return Some(&f.1);
            }
            i = i + 1;
        }
        assert(self@.skip(n as int).len() == 0);
        None
    }

    /// An owned copy of the string value of the first field named `key`,
    /// if that field exists and is a string.
    pub fn get_str(&self, key: &String) -> (r: Option<String>)
        ensures
            match r {
                Some(s) => lookup_str(self@, key@) == Some(s@),
                None => lookup_str(self@, key@) == None::<Seq<char>>,
            },
    {
        let n = self.fields.len();
        let mut i: usize = 0;
        assert(self@.skip(0) =~= self@);
        while i < n
            invariant
                n == self.fields@.len(),
                i <= n,
                lookup_field(self@, key@) == lookup_field(self@.skip(i as int), key@),
            decreases n - i,
        {
            let f = &self.fields[i];
            proof {
                assert(self@.skip(i as int)[0] == (self.fields@[i as int].0@,
                self.fields@[i as int].1@));
                assert(self@.skip(i as int).skip(1) =~= self@.skip(i + 1));
            }
            if f.0 == *key {
                match &f.1 {
                    JsonScalar::Str(s) => {
                        return Some(s.clone());
                    },
                    _ => {
                        return None;
                    },
                }
            }
            i = i + 1;
        }
        assert(self@.skip(n as int).len() == 0);
        None
    }
}

// ---------------------------------------------------------------------------
// Round trip: the parser inverts the serializer on every valid value.
// ---------------------------------------------------------------------------
/// Parsing a serialized string body (with its closing quote) yields the
/// original characters and leaves `rest` untouched.
pub proof fn lemma_parse_str_body_inverts(s: Seq<char>, rest: Seq<char>)
    requires
        str_ok(s),
    ensures
        parse_str_body(ser_str_body(s) + seq!['"'] + rest) == Some((s, rest)),
    decreases s.len(),
{
    let input = ser_str_body(s) + seq!['"'] + rest;
    if s.len() == 0 {
        assert(input =~= seq!['"'] + rest);
        assert(input[0] == '"');
        assert(input.skip(1) =~= rest);
        assert(parse_str_body(input) == Some((Seq::<char>::empty(), rest)));
    } else {
        let c = s[0];
        assert(char_ok(c));
        let tail = s.skip(1);
        assert(str_ok(tail));
        lemma_parse_str_body_inverts(tail, rest);
        assert(ser_str_body(s) == esc_char(c) + ser_str_body(tail));
        if c == '"' || c == '\\' || c == '\n' || c == '\r' || c == '\t' {
            let e: char = if c == '"' {
                '"'
            } else if c == '\\' {
                '\\'
            } else if c == '\n' {
                'n'
            } else if c == '\r' {
                'r'
            } else {
                't'
            };
            assert(esc_char(c) =~= seq!['\\', e]);
            assert(unesc_char(e) == Some(c));
            assert(input =~= seq!['\\', e] + (ser_str_body(tail) + seq!['"'] + rest));
            assert(input[0] == '\\');
            assert(input[1] == e);
            assert(input.len() >= 2);
            assert(input.skip(2) =~= ser_str_body(tail) + seq!['"'] + rest);
            assert(parse_str_body(input.skip(2)) == Some((tail, rest)));
            assert(seq![c] + tail =~= s);
            assert(parse_str_body(input) == Some((s, rest)));
        } else {
            assert(esc_char(c) =~= seq![c]);
            assert(input =~= seq![c] + (ser_str_body(tail) + seq!['"'] + rest));
            assert(input[0] == c);
            assert(c as u32 >= 0x20);
            assert(input.skip(1) =~= ser_str_body(tail) + seq!['"'] + rest);
            assert(parse_str_body(input.skip(1)) == Some((tail, rest)));
            assert(seq![c] + tail =~= s);
            assert(parse_str_body(input) == Some((s, rest)));
        }
    }
}

/// Every character of a decimal rendering is a digit.
proof fn lemma_dec_seq_digits(n: nat)
    ensures
        dec_seq(n).len() >= 1,
        forall|i: int| 0 <= i < dec_seq(n).len() ==> is_digit(#[trigger] dec_seq(n)[i]),
    decreases n,
{
    if n < 10 {
        assert(dec_seq(n) =~= seq![digit_char(n)]);
        assert(is_digit(digit_char(n)));
    } else {
        lemma_dec_seq_digits(n / 10);
        assert(is_digit(digit_char(n % 10)));
        assert(forall|i: int|
            0 <= i < dec_seq(n).len() ==> is_digit(#[trigger] dec_seq(n)[i])) by {
            assert(dec_seq(n) == dec_seq(n / 10) + seq![digit_char(n % 10)]);
        }
    }
}

/// Splitting digits off an all-digit prefix consumes exactly the prefix
/// when the rest does not begin with a digit.
proof fn lemma_take_digits_all(ds: Seq<char>, rest: Seq<char>)
    requires
        forall|i: int| 0 <= i < ds.len() ==> is_digit(#[trigger] ds[i]),
        rest.len() == 0 || !is_digit(rest[0]),
    ensures
        take_digits(ds + rest) == (ds, rest),
    decreases ds.len(),
{
    let input = ds + rest;
    if ds.len() == 0 {
        assert(input =~= rest);
        assert(take_digits(input) == (Seq::<char>::empty(), rest));
        assert((Seq::<char>::empty(), rest) == (ds, rest));
    } else {
        assert(input[0] == ds[0]);
        assert(is_digit(ds[0]));
        assert(input.skip(1) =~= ds.skip(1) + rest);
        lemma_take_digits_all(ds.skip(1), rest);
        assert(seq![ds[0]] + ds.skip(1) =~= ds);
        assert(take_digits(input) == (ds, rest));
    }
}

/// The decimal rendering denotes the number it was made from.
proof fn lemma_digits_val_dec_seq(n: nat)
    ensures
        digits_val(dec_seq(n)) == n,
    decreases n,
{
    if n < 10 {
        assert(dec_seq(n) =~= seq![digit_char(n)]);
        assert(dec_seq(n).drop_last() =~= Seq::<char>::empty());
        assert(dec_seq(n).last() == digit_char(n));
        assert(digit_char(n) as u32 == n + 48);
        assert(digit_val(digit_char(n)) == n);
        assert(digits_val(dec_seq(n)) == digits_val(Seq::<char>::empty()) * 10 + digit_val(
            digit_char(n),
        ));
    } else {
        lemma_digits_val_dec_seq(n / 10);
        let whole = dec_seq(n);
        assert(whole == dec_seq(n / 10) + seq![digit_char(n % 10)]);
        lemma_dec_seq_digits(n / 10);
        assert(whole.drop_last() =~= dec_seq(n / 10));
        assert(whole.last() == digit_char(n % 10));
        assert(digit_val(digit_char(n % 10)) == n % 10);
        assert(digits_val(whole) == (n / 10) * 10 + n % 10);
    }
}

/// Parsing a serialized integer yields the integer back when the rest does
/// not begin with a digit.
pub proof fn lemma_parse_int_inverts(i: int, rest: Seq<char>)
    requires
        i64::MIN <= i <= i64::MAX,
        rest.len() == 0 || !is_digit(rest[0]),
    ensures
        parse_int(int_seq(i) + rest) == Some((i, rest)),
{
    if i >= 0 {
        let input = dec_seq(i as nat) + rest;
        assert(int_seq(i) + rest =~= input);
        lemma_dec_seq_digits(i as nat);
        assert(input[0] == dec_seq(i as nat)[0]);
        assert(is_digit(input[0]));
        assert(input[0] != '-');
        lemma_take_digits_all(dec_seq(i as nat), rest);
        lemma_digits_val_dec_seq(i as nat);
        assert(parse_int(input) == Some((i, rest)));
    } else {
        let m = (-i) as nat;
        let input = seq!['-'] + dec_seq(m) + rest;
        assert(int_seq(i) + rest =~= input);
        assert(input[0] == '-');
        assert(input.skip(1) =~= dec_seq(m) + rest);
        lemma_dec_seq_digits(m);
        lemma_take_digits_all(dec_seq(m), rest);
        lemma_digits_val_dec_seq(m);
        assert(digits_val(dec_seq(m)) == m);
        assert(-(m as int) == i);
        assert(parse_int(input) == Some((i, rest)));
    }
}

/// Parsing a serialized scalar yields the scalar back, provided the rest
/// does not begin with a digit (so a number is not extended).
pub proof fn lemma_parse_scalar_inverts(v: ScalarVal, rest: Seq<char>)
    requires
        scalar_ok(v),
        rest.len() == 0 || !is_digit(rest[0]),
    ensures
        parse_scalar(ser_scalar(v) + rest) == Some((v, rest)),
{
    let input = ser_scalar(v) + rest;
    match v {
        ScalarVal::Null => {
            assert(input =~= seq!['n', 'u', 'l', 'l'] + rest);
            assert(begins_with(input, seq!['n', 'u', 'l', 'l'])) by {
                assert(input.subrange(0, 4) =~= seq!['n', 'u', 'l', 'l']);
            }
            assert(input[0] != '"');
            assert(!begins_with(input, seq!['t', 'r', 'u', 'e'])) by {
                assert(input[0] == 'n');
            }
            assert(!begins_with(input, seq!['f', 'a', 'l', 's', 'e'])) by {
                assert(input[0] == 'n');
            }
            assert(input.skip(4) =~= rest);
        },
        ScalarVal::Bool(b) => {
            if b {
                assert(input =~= seq!['t', 'r', 'u', 'e'] + rest);
                assert(begins_with(input, seq!['t', 'r', 'u', 'e'])) by {
                    assert(input.subrange(0, 4) =~= seq!['t', 'r', 'u', 'e']);
                }
                assert(input[0] != '"');
                assert(input.skip(4) =~= rest);
            } else {
                assert(input =~= seq!['f', 'a', 'l', 's', 'e'] + rest);
                assert(begins_with(input, seq!['f', 'a', 'l', 's', 'e'])) by {
                    assert(input.subrange(0, 5) =~= seq!['f', 'a', 'l', 's', 'e']);
                }
                assert(input[0] != '"');
                assert(!begins_with(input, seq!['t', 'r', 'u', 'e'])) by {
                    assert(input[0] == 'f');
                }
                assert(input.skip(5) =~= rest);
            }
        },
        ScalarVal::Int(i) => {
            lemma_parse_int_inverts(i, rest);
            if i >= 0 {
                lemma_dec_seq_digits(i as nat);
                assert(input[0] == dec_seq(i as nat)[0]) by {
                    assert(int_seq(i) == dec_seq(i as nat));
                }
                assert(is_digit(input[0]));
            } else {
                assert(input[0] == '-') by {
                    assert(int_seq(i)[0] == '-');
                }
            }
            assert(input[0] != '"' && input[0] != 't' && input[0] != 'f' && input[0] != 'n');
            assert(!begins_with(input, seq!['t', 'r', 'u', 'e']));
            assert(!begins_with(input, seq!['f', 'a', 'l', 's', 'e']));
            assert(!begins_with(input, seq!['n', 'u', 'l', 'l']));
            assert(parse_scalar(input) == Some((v, rest)));
        },
        ScalarVal::Str(s) => {
            assert(input =~= seq!['"'] + (ser_str_body(s) + seq!['"'] + rest));
            assert(input[0] == '"');
            assert(input.skip(1) =~= ser_str_body(s) + seq!['"'] + rest);
            lemma_parse_str_body_inverts(s, rest);
            assert(parse_scalar(input) == Some((v, rest)));
        },
    }
}

/// Parsing serialized fields (with the closing brace) yields the fields.
proof fn lemma_parse_fields_inverts(fs: ObjVal, rest: Seq<char>)
    requires
        obj_ok(fs),
        fs.len() >= 1,
    ensures
        parse_fields(ser_fields(fs) + seq!['}'] + rest) == Some((fs, rest)),
    decreases fs.len(),
{
    let input = ser_fields(fs) + seq!['}'] + rest;
    let k = fs[0].0;
    let v = fs[0].1;
    assert(str_ok(k) && scalar_ok(v));
    if fs.len() == 1 {
        assert(ser_fields(fs) == ser_field(fs[0]));
        let after_key = seq![':'] + ser_scalar(v) + seq!['}'] + rest;
        assert(input =~= seq!['"'] + (ser_str_body(k) + seq!['"'] + after_key));
        assert(input[0] == '"');
        assert(input.skip(1) =~= ser_str_body(k) + seq!['"'] + after_key);
        lemma_parse_str_body_inverts(k, after_key);
        assert(after_key[0] == ':');
        let after_colon = ser_scalar(v) + (seq!['}'] + rest);
        assert(after_key.skip(1) =~= after_colon);
        lemma_parse_scalar_inverts(v, seq!['}'] + rest);
        let r2 = seq!['}'] + rest;
        assert(r2[0] == '}');
        assert(r2.skip(1) =~= rest);
        assert(seq![(k, v)] =~= fs);
        assert(parse_fields(input) == Some((fs, rest)));
    } else {
        assert(ser_fields(fs) == ser_field(fs[0]) + seq![','] + ser_fields(fs.skip(1)));
        let tail_ser = ser_fields(fs.skip(1)) + seq!['}'] + rest;
        let after_key = seq![':'] + ser_scalar(v) + seq![','] + tail_ser;
        assert(input =~= seq!['"'] + (ser_str_body(k) + seq!['"'] + after_key));
        assert(input[0] == '"');
        assert(input.skip(1) =~= ser_str_body(k) + seq!['"'] + after_key);
        lemma_parse_str_body_inverts(k, after_key);
        assert(after_key[0] == ':');
        let after_colon = ser_scalar(v) + (seq![','] + tail_ser);
        assert(after_key.skip(1) =~= after_colon);
        lemma_parse_scalar_inverts(v, seq![','] + tail_ser);
        let r2 = seq![','] + tail_ser;
        assert(r2[0] == ',');
        assert(r2[0] != '}');
        assert(r2.skip(1) =~= tail_ser);
        assert(obj_ok(fs.skip(1))) by {
            assert(forall|i: int|
                0 <= i < fs.skip(1).len() ==> #[trigger] fs.skip(1)[i] == fs[i + 1]);
        }
        lemma_parse_fields_inverts(fs.skip(1), rest);
        assert(tail_ser.len() < input.len()) by {
            assert(input.len() == ser_field(fs[0]).len() + 1 + tail_ser.len());
            assert(ser_field(fs[0]).len() >= 1);
        }
        assert(seq![(k, v)] + fs.skip(1) =~= fs);
        assert(parse_fields(input) == Some((fs, rest)));
    }
}

/// Parsing a serialized object yields the object's fields.
pub proof fn lemma_parse_object_inverts(o: ObjVal, rest: Seq<char>)
    requires
        obj_ok(o),
    ensures
        parse_object(ser_object(o) + rest) == Some((o, rest)),
{
    let input = ser_object(o) + rest;
    assert(input[0] == '{') by {
        assert(ser_object(o)[0] == '{');
    }
    if o.len() == 0 {
        assert(ser_object(o) =~= seq!['{', '}']);
        assert(input =~= seq!['{', '}'] + rest);
        assert(input[1] == '}');
        assert(input.skip(2) =~= rest);
        assert(parse_object(input) == Some((o, rest))) by {
            assert(o =~= Seq::<(Seq<char>, ScalarVal)>::empty());
        }
    } else {
        let body = ser_fields(o) + seq!['}'] + rest;
        assert(input =~= seq!['{'] + body);
        assert(ser_fields(o)[0] == '"') by {
            assert(ser_fields(o) == if o.len() == 1 {
                ser_field(o[0])
            } else {
                ser_field(o[0]) + seq![','] + ser_fields(o.skip(1))
            });
            assert(ser_field(o[0])[0] == '"');
        }
        assert(input[1] == '"');
        assert(input[1] != '}');
        assert(input.skip(1) =~= body);
        lemma_parse_fields_inverts(o, rest);
        assert(parse_object(input) == Some((o, rest)));
    }
}

/// Parsing a serialized top-level value yields the value back.
proof fn lemma_parse_item_inverts(v: ItemVal, rest: Seq<char>)
    requires
        item_ok(v),
        rest.len() == 0 || !is_digit(rest[0]),
    ensures
        parse_item(ser_item(v) + rest) == Some((v, rest)),
{
    let input = ser_item(v) + rest;
    match v {
        ItemVal::Object(o) => {
            assert(input[0] == '{') by {
                assert(ser_object(o)[0] == '{');
            }
            lemma_parse_object_inverts(o, rest);
        },
        ItemVal::Scalar(s) => {
            lemma_parse_scalar_inverts(s, rest);
            assert(input[0] != '{') by {
                match s {
                    ScalarVal::Null => assert(ser_scalar(s)[0] == 'n'),
                    ScalarVal::Bool(b) => if b {
                        assert(ser_scalar(s)[0] == 't');
                    } else {
                        assert(ser_scalar(s)[0] == 'f');
                    },
                    ScalarVal::Int(i) => if i >= 0 {
                        lemma_dec_seq_digits(i as nat);
                        assert(is_digit(ser_scalar(s)[0]));
                    } else {
                        assert(ser_scalar(s)[0] == '-');
                    },
                    ScalarVal::Str(_) => assert(ser_scalar(s)[0] == '"'),
                }
            }
        },
    }
}

/// Parsing serialized top-level fields (with the closing brace) yields
/// the fields.
proof fn lemma_parse_top_fields_inverts(fs: TopVal, rest: Seq<char>)
    requires
        top_ok(fs),
        fs.len() >= 1,
    ensures
        parse_top_fields(ser_top_fields(fs) + seq!['}'] + rest) == Some((fs, rest)),
    decreases fs.len(),
{
    let input = ser_top_fields(fs) + seq!['}'] + rest;
    let k = fs[0].0;
    let v = fs[0].1;
    assert(str_ok(k) && item_ok(v));
    if fs.len() == 1 {
        assert(ser_top_fields(fs) == ser_top_field(fs[0]));
        let after_key = seq![':'] + ser_item(v) + seq!['}'] + rest;
        assert(input =~= seq!['"'] + (ser_str_body(k) + seq!['"'] + after_key));
        assert(input[0] == '"');
        assert(input.skip(1) =~= ser_str_body(k) + seq!['"'] + after_key);
        lemma_parse_str_body_inverts(k, after_key);
        assert(after_key[0] == ':');
        let after_colon = ser_item(v) + (seq!['}'] + rest);
        assert(after_key.skip(1) =~= after_colon);
        lemma_parse_item_inverts(v, seq!['}'] + rest);
        let r2 = seq!['}'] + rest;
        assert(r2[0] == '}');
        assert(r2.skip(1) =~= rest);
        assert(seq![(k, v)] =~= fs);
        assert(parse_top_fields(input) == Some((fs, rest)));
    } else {
        assert(ser_top_fields(fs) == ser_top_field(fs[0]) + seq![','] + ser_top_fields(fs.skip(1)));
        let tail_ser = ser_top_fields(fs.skip(1)) + seq!['}'] + rest;
        let after_key = seq![':'] + ser_item(v) + seq![','] + tail_ser;
        assert(input =~= seq!['"'] + (ser_str_body(k) + seq!['"'] + after_key));
        assert(input[0] == '"');
        assert(input.skip(1) =~= ser_str_body(k) + seq!['"'] + after_key);
        lemma_parse_str_body_inverts(k, after_key);
        assert(after_key[0] == ':');
        let after_colon = ser_item(v) + (seq![','] + tail_ser);
        assert(after_key.skip(1) =~= after_colon);
        lemma_parse_item_inverts(v, seq![','] + tail_ser);
        let r2 = seq![','] + tail_ser;
        assert(r2[0] == ',');
        assert(r2[0] != '}');
        assert(r2.skip(1) =~= tail_ser);
        assert(top_ok(fs.skip(1))) by {
            assert(forall|i: int|
                0 <= i < fs.skip(1).len() ==> #[trigger] fs.skip(1)[i] == fs[i + 1]);
        }
        lemma_parse_top_fields_inverts(fs.skip(1), rest);
        assert(tail_ser.len() < input.len()) by {
            assert(input.len() == ser_top_field(fs[0]).len() + 1 + tail_ser.len());
            assert(ser_top_field(fs[0]).len() >= 1);
        }
        assert(seq![(k, v)] + fs.skip(1) =~= fs);
        assert(parse_top_fields(input) == Some((fs, rest)));
    }
}

/// Parsing the serialized line of a top-level object yields its fields:
/// the wire codec's round trip.
pub proof fn lemma_parse_top_line_inverts(fs: TopVal)
    requires
        top_ok(fs),
    ensures
        parse_top_line(ser_top_object(fs)) == Some(fs),
{
    let input = ser_top_object(fs);
    assert(input[0] == '{');
    if fs.len() == 0 {
        assert(input =~= seq!['{', '}']);
        assert(input[1] == '}');
        assert(input.skip(2) =~= Seq::<char>::empty());
        assert(parse_top_object(input) == Some((fs, Seq::<char>::empty()))) by {
            assert(fs =~= Seq::<(Seq<char>, ItemVal)>::empty());
        }
    } else {
        let body = ser_top_fields(fs) + seq!['}'] + Seq::<char>::empty();
        assert(input =~= seq!['{'] + body);
        assert(ser_top_fields(fs)[0] == '"') by {
            assert(ser_top_fields(fs) == if fs.len() == 1 {
                ser_top_field(fs[0])
            } else {
                ser_top_field(fs[0]) + seq![','] + ser_top_fields(fs.skip(1))
            });
            assert(ser_top_field(fs[0])[0] == '"');
        }
        assert(input[1] == '"');
        assert(input[1] != '}');
        assert(input.skip(1) =~= body);
        lemma_parse_top_fields_inverts(fs, Seq::<char>::empty());
        assert(parse_top_object(input) == Some((fs, Seq::<char>::empty())));
    }
}

// ---------------------------------------------------------------------------
// Parsing, executable. Each function is proven to return exactly what the
// spec-level parser says for the suffix it was handed.
// ---------------------------------------------------------------------------
/// Prepends already-accepted characters to a string-body parse result.
spec fn opt_prepend(acc: Seq<char>, r: Option<(Seq<char>, Seq<char>)>) -> Option<
    (Seq<char>, Seq<char>),
> {
    match r {
        Some((b, rest)) => Some((acc + b, rest)),
        None => None,
    }
}

/// Parses a quoted string's body beginning at `pos` (just after the
/// opening quote).
fn p_str_body(s: &Vec<char>, pos: usize) -> (r: Option<(String, usize)>)
    requires
        pos <= s@.len(),
    ensures
        match r {
            Some((b, p2)) => pos <= p2 <= s@.len() && parse_str_body(s@.skip(pos as int))
                == Some((b@, s@.skip(p2 as int))),
            None => parse_str_body(s@.skip(pos as int)) == None::<(Seq<char>, Seq<char>)>,
        },
{
    let n = s.len();
    let mut acc: Vec<char> = Vec::new();
    let mut i: usize = pos;
    while i < n
        invariant
            n == s@.len(),
            pos <= i <= n,
            parse_str_body(s@.skip(pos as int)) == opt_prepend(
                acc@,
                parse_str_body(s@.skip(i as int)),
            ),
        decreases n - i,
    {
        let c = s[i];
        assert(s@.skip(i as int)[0] == c);
        if c == '"' {
            proof {
                assert(s@.skip(i as int).skip(1) =~= s@.skip(i + 1));
                assert(parse_str_body(s@.skip(i as int)) == Some(
                    (Seq::<char>::empty(), s@.skip(i + 1)),
                ));
                assert(acc@ + Seq::<char>::empty() =~= acc@);
            }
            return Some((chars_to_string(&acc), i + 1));
        } else if c == '\\' {
            if i + 1 >= n {
                proof {
                    assert(s@.skip(i as int).len() < 2);
                }
                return None;
            }
            let e = s[i + 1];
            assert(s@.skip(i as int)[1] == e);
            let u: char;
            if e == '"' {
                u = '"';
            } else if e == '\\' {
                u = '\\';
            } else if e == 'n' {
                u = '\n';
            } else if e == 'r' {
                u = '\r';
            } else if e == 't' {
                u = '\t';
            } else {
                proof {
                    assert(unesc_char(e) == None::<char>);
                }
                return None;
            }
            assert(unesc_char(e) == Some(u));
            proof {
                assert(s@.skip(i as int).skip(2) =~= s@.skip(i + 2));
                match parse_str_body(s@.skip(i + 2)) {
                    Some((t, r2)) => {
                        assert(parse_str_body(s@.skip(i as int)) == Some((seq![u] + t, r2)));
                        assert(acc@ + (seq![u] + t) =~= acc@.push(u) + t);
                    },
                    None => {},
                }
            }
            acc.push(u);
            i = i + 2;
        } else if (c as u32) < 0x20 {
            proof {
                assert(parse_str_body(s@.skip(i as int)) == None::<(Seq<char>, Seq<char>)>);
            }
            return None;
        } else {
            proof {
                assert(s@.skip(i as int).skip(1) =~= s@.skip(i + 1));
                match parse_str_body(s@.skip(i + 1)) {
                    Some((t, r2)) => {
                        assert(parse_str_body(s@.skip(i as int)) == Some((seq![c] + t, r2)));
                        assert(acc@ + (seq![c] + t) =~= acc@.push(c) + t);
                    },
                    None => {},
                }
            }
            acc.push(c);
            i = i + 1;
        }
    }
    assert(s@.skip(i as int).len() == 0);
    None
}

/// Scans a run of digits from `pos`, reporting the accumulated value, an
/// overflow flag, and where the run ends.
fn p_digits(s: &Vec<char>, pos: usize) -> (r: (u64, bool, usize))
    requires
        pos <= s@.len(),
    ensures
        pos <= r.2 <= s@.len(),
        take_digits(s@.skip(pos as int)) == (
            s@.subrange(pos as int, r.2 as int),
            s@.skip(r.2 as int),
        ),
        !r.1 ==> r.0 as nat == digits_val(s@.subrange(pos as int, r.2 as int)),
        r.1 ==> digits_val(s@.subrange(pos as int, r.2 as int)) > u64::MAX,
{
    let n = s.len();
    let mut acc: u64 = 0;
    let mut ovf: bool = false;
    let mut i: usize = pos;
    while i < n && s[i] >= '0' && s[i] <= '9'
        invariant
            n == s@.len(),
            pos <= i <= n,
            take_digits(s@.skip(pos as int)) == (
                s@.subrange(pos as int, i as int) + take_digits(s@.skip(i as int)).0,
                take_digits(s@.skip(i as int)).1,
            ),
            !ovf ==> acc as nat == digits_val(s@.subrange(pos as int, i as int)),
            ovf ==> digits_val(s@.subrange(pos as int, i as int)) > u64::MAX,
        decreases n - i,
    {
        let c = s[i];
        let d: u64 = ((c as u8) - 48) as u64;
        proof {
            assert(s@.skip(i as int)[0] == c);
            assert(is_digit(c));
            assert(digit_val(c) == d as nat);
            let q = s@.subrange(pos as int, i as int);
            let q2 = s@.subrange(pos as int, i + 1);
            assert(q2 =~= q.push(c));
            assert(q2.drop_last() =~= q);
            assert(q2.last() == c);
            assert(digits_val(q2) == digits_val(q) * 10 + digit_val(c));
            assert(s@.skip(i as int).skip(1) =~= s@.skip(i + 1));
            assert(take_digits(s@.skip(i as int)).0 == seq![c] + take_digits(s@.skip(i + 1)).0);
            assert(take_digits(s@.skip(i as int)).1 == take_digits(s@.skip(i + 1)).1);
            assert(q + (seq![c] + take_digits(s@.skip(i + 1)).0) =~= q2 + take_digits(
                s@.skip(i + 1),
            ).0);
        }
        if ovf {
        } else if acc > u64::MAX / 10 {
            ovf = true;
        } else {
            let shifted = acc * 10;
            if shifted > u64::MAX - d {
                ovf = true;
                proof {
                    let q = s@.subrange(pos as int, i as int);
                    assert(digits_val(q.push(s@[i as int])) > u64::MAX);
                }
            } else {
                acc = shifted + d;
            }
        }
        proof {
            assert(s@.skip(i as int).skip(1) =~= s@.skip(i + 1));
        }
        i = i + 1;
    }
    proof {
        if i == n {
            assert(s@.skip(i as int).len() == 0);
        } else {
            assert(s@.skip(i as int)[0] == s@[i as int]);
            assert(!is_digit(s@[i as int]));
        }
        assert(take_digits(s@.skip(i as int)) == (Seq::<char>::empty(), s@.skip(i as int)));
        assert(s@.subrange(pos as int, i as int) + Seq::<char>::empty() =~= s@.subrange(
            pos as int,
            i as int,
        ));
    }
    (acc, ovf, i)
}

/// Parses an optionally signed decimal integer beginning at `pos`.
fn p_int(s: &Vec<char>, pos: usize) -> (r: Option<(i64, usize)>)
    requires
        pos <= s@.len(),
    ensures
        match r {
            Some((v, p2)) => pos <= p2 <= s@.len() && parse_int(s@.skip(pos as int)) == Some(
                (v as int, s@.skip(p2 as int)),
            ),
            None => parse_int(s@.skip(pos as int)) == None::<(int, Seq<char>)>,
        },
{
    let n = s.len();
    if pos < n && s[pos] == '-' {
        assert(s@.skip(pos as int)[0] == '-');
        assert(s@.skip(pos as int).skip(1) =~= s@.skip(pos + 1));
        let (acc, ovf, end) = p_digits(s, pos + 1);
        let ghost ds = s@.subrange(pos + 1, end as int);
        if end == pos + 1 {
            assert(ds.len() == 0);
            return None;
        }
        if ovf {
            assert(digits_val(ds) > u64::MAX);
            return None;
        }
        if acc > 9223372036854775808u64 {
            assert(-(digits_val(ds) as int) < i64::MIN);
            return None;
        }
        let v: i64 = if acc == 9223372036854775808u64 {
            i64::MIN
        } else {
            -(acc as i64)
        };
        assert(v as int == -(digits_val(ds) as int));
        Some((v, end))
    } else {
        proof {
            if pos < n {
                assert(s@.skip(pos as int)[0] == s@[pos as int]);
            }
        }
        let (acc, ovf, end) = p_digits(s, pos);
        let ghost ds = s@.subrange(pos as int, end as int);
        if end == pos {
            assert(ds.len() == 0);
            return None;
        }
        if ovf {
            assert(digits_val(ds) > i64::MAX);
            return None;
        }
        if acc > i64::MAX as u64 {
            assert(digits_val(ds) > i64::MAX);
            return None;
        }
        let v: i64 = acc as i64;
        assert(v as int == digits_val(ds) as int);
        Some((v, end))
    }
}

/// `lit` occurs in `s` at `pos`.
fn p_lit4(s: &Vec<char>, pos: usize, a: char, b: char, c: char, d: char) -> (r: bool)
    requires
        pos <= s@.len(),
    ensures
        r == begins_with(s@.skip(pos as int), seq![a, b, c, d]),
{
    let n = s.len();
    if n - pos < 4 {
        assert(!begins_with(s@.skip(pos as int), seq![a, b, c, d]));
        return false;
    }
    let ok = s[pos] == a && s[pos + 1] == b && s[pos + 2] == c && s[pos + 3] == d;
    proof {
        let suf = s@.skip(pos as int);
        if ok {
            assert(suf.subrange(0, 4) =~= seq![a, b, c, d]);
        } else {
            assert(suf[0] == s@[pos as int] && suf[1] == s@[pos + 1] && suf[2] == s@[pos + 2]
                && suf[3] == s@[pos + 3]);
            assert(suf.subrange(0, 4)[0] == suf[0] && suf.subrange(0, 4)[1] == suf[1]
                && suf.subrange(0, 4)[2] == suf[2] && suf.subrange(0, 4)[3] == suf[3]);
        }
    }
    ok
}

/// `false` occurs in `s` at `pos`.
fn p_lit_false(s: &Vec<char>, pos: usize) -> (r: bool)
    requires
        pos <= s@.len(),
    ensures
        r == begins_with(s@.skip(pos as int), seq!['f', 'a', 'l', 's', 'e']),
{
    let n = s.len();
    if n - pos < 5 {
        assert(!begins_with(s@.skip(pos as int), seq!['f', 'a', 'l', 's', 'e']));
        return false;
    }
    let ok = s[pos] == 'f' && s[pos + 1] == 'a' && s[pos + 2] == 'l' && s[pos + 3] == 's' && s[pos
        + 4] == 'e';
    proof {
        let suf = s@.skip(pos as int);
        if ok {
            assert(suf.subrange(0, 5) =~= seq!['f', 'a', 'l', 's', 'e']);
        } else {
            assert(suf[0] == s@[pos as int] && suf[1] == s@[pos + 1] && suf[2] == s@[pos + 2]
                && suf[3] == s@[pos + 3] && suf[4] == s@[pos + 4]);
            assert(suf.subrange(0, 5)[0] == suf[0] && suf.subrange(0, 5)[1] == suf[1]
                && suf.subrange(0, 5)[2] == suf[2] && suf.subrange(0, 5)[3] == suf[3]
                && suf.subrange(0, 5)[4] == suf[4]);
        }
    }
    ok
}

/// Parses one scalar beginning at `pos`.
fn p_scalar(s: &Vec<char>, pos: usize) -> (r: Option<(JsonScalar, usize)>)
    requires
        pos <= s@.len(),
    ensures
        match r {
            Some((v, p2)) => pos <= p2 <= s@.len() && parse_scalar(s@.skip(pos as int)) == Some(
                (v@, s@.skip(p2 as int)),
            ),
            None => parse_scalar(s@.skip(pos as int)) == None::<(ScalarVal, Seq<char>)>,
        },
{
    let n = s.len();
    if pos >= n {
        assert(s@.skip(pos as int).len() == 0);
        return None;
    }
    let c = s[pos];
    assert(s@.skip(pos as int)[0] == c);
    if c == '"' {
        assert(s@.skip(pos as int).skip(1) =~= s@.skip(pos + 1));
        match p_str_body(s, pos + 1) {
            Some((b, p2)) => Some((JsonScalar::Str(b), p2)),
            None => None,
        }
    } else if p_lit4(s, pos, 't', 'r', 'u', 'e') {
        assert(s@.skip(pos as int).skip(4) =~= s@.skip(pos + 4));
        Some((JsonScalar::Bool(true), pos + 4))
    } else if p_lit_false(s, pos) {
        assert(s@.skip(pos as int).skip(5) =~= s@.skip(pos + 5));
        Some((JsonScalar::Bool(false), pos + 5))
    } else if p_lit4(s, pos, 'n', 'u', 'l', 'l') {
        assert(s@.skip(pos as int).skip(4) =~= s@.skip(pos + 4));
        Some((JsonScalar::Null, pos + 4))
    } else {
        match p_int(s, pos) {
            Some((v, p2)) => Some((JsonScalar::Int(v), p2)),
            None => None,
        }
    }
}

/// Prepends already-parsed fields to a field-list parse result.
spec fn opt_prepend_obj(acc: ObjVal, r: Option<(ObjVal, Seq<char>)>) -> Option<
    (ObjVal, Seq<char>),
> {
    match r {
        Some((fs, rest)) => Some((acc + fs, rest)),
        None => None,
    }
}

/// Parses a nonempty scalar field list beginning at `pos` (just after the
/// opening brace), through the closing brace.
fn p_fields(s: &Vec<char>, pos: usize) -> (r: Option<(JsonObject, usize)>)
    requires
        pos <= s@.len(),
    ensures
        match r {
            Some((o, p2)) => pos <= p2 <= s@.len() && parse_fields(s@.skip(pos as int)) == Some(
                (o@, s@.skip(p2 as int)),
            ),
            None => parse_fields(s@.skip(pos as int)) == None::<(ObjVal, Seq<char>)>,
        },
{
    let n = s.len();
    let mut fields: Vec<(String, JsonScalar)> = Vec::new();
    let mut cur: usize = pos;
    loop
        invariant
            n == s@.len(),
            pos <= cur <= n,
            parse_fields(s@.skip(pos as int)) == opt_prepend_obj(
                obj_fields_view(&fields),
                parse_fields(s@.skip(cur as int)),
            ),
        decreases n - cur,
    {
        if cur >= n {
            assert(s@.skip(cur as int).len() == 0);
            return None;
        }
        if s[cur] != '"' {
            assert(s@.skip(cur as int)[0] != '"');
            return None;
        }
        assert(s@.skip(cur as int)[0] == '"');
        assert(s@.skip(cur as int).skip(1) =~= s@.skip(cur + 1));
        let key: String;
        let after_key: usize;
        match p_str_body(s, cur + 1) {
            Some((k, p2)) => {
                key = k;
                after_key = p2;
            },
            None => {
                return None;
            },
        }
        if after_key >= n {
            assert(s@.skip(after_key as int).len() == 0);
            return None;
        }
        if s[after_key] != ':' {
            assert(s@.skip(after_key as int)[0] != ':');
            return None;
        }
        assert(s@.skip(after_key as int)[0] == ':');
        assert(s@.skip(after_key as int).skip(1) =~= s@.skip(after_key + 1));
        let val: JsonScalar;
        let after_val: usize;
        match p_scalar(s, after_key + 1) {
            Some((v, p2)) => {
                val = v;
                after_val = p2;
            },
            None => {
                return None;
            },
        }
        if after_val >= n {
            assert(s@.skip(after_val as int).len() == 0);
            return None;
        }
        let t = s[after_val];
        assert(s@.skip(after_val as int)[0] == t);
        if t == '}' {
            let ghost before = obj_fields_view(&fields);
            proof {
                assert(s@.skip(after_val as int).skip(1) =~= s@.skip(after_val + 1));
                assert(parse_fields(s@.skip(cur as int)) == Some(
                    (seq![(key@, val@)], s@.skip(after_val + 1)),
                ));
                assert(before + seq![(key@, val@)] =~= before.push((key@, val@)));
            }
            fields.push((key, val));
            proof {
                assert(obj_fields_view(&fields) =~= before.push((key@, val@)));
            }
            let o = JsonObject { fields };
            assert(o@ == obj_fields_view(&o.fields));
            return Some((o, after_val + 1));
        } else if t == ',' {
            let ghost before = obj_fields_view(&fields);
            proof {
                assert(s@.skip(after_val as int).skip(1) =~= s@.skip(after_val + 1));
                assert(s@.skip(after_val + 1).len() < s@.skip(cur as int).len());
                match parse_fields(s@.skip(after_val + 1)) {
                    Some((fs2, r2)) => {
                        assert(parse_fields(s@.skip(cur as int)) == Some(
                            (seq![(key@, val@)] + fs2, r2),
                        ));
                        assert(before + (seq![(key@, val@)] + fs2) =~= before.push((key@, val@))
                            + fs2);
                    },
                    None => {},
                }
            }
            fields.push((key, val));
            proof {
                assert(obj_fields_view(&fields) =~= before.push((key@, val@)));
            }
            cur = after_val + 1;
        } else {
            return None;
        }
    }
}

/// Spec view of a scalar field list.
pub open spec fn obj_fields_view(fields: &Vec<(String, JsonScalar)>) -> ObjVal {
    fields@.map_values(|f: (String, JsonScalar)| (f.0@, f.1@))
}

/// Parses a braced scalar object beginning at `pos`.
fn p_object(s: &Vec<char>, pos: usize) -> (r: Option<(JsonObject, usize)>)
    requires
        pos <= s@.len(),
    ensures
        match r {
            Some((o, p2)) => pos <= p2 <= s@.len() && parse_object(s@.skip(pos as int)) == Some(
                (o@, s@.skip(p2 as int)),
            ),
            None => parse_object(s@.skip(pos as int)) == None::<(ObjVal, Seq<char>)>,
        },
{
    let n = s.len();
    if pos >= n {
        assert(s@.skip(pos as int).len() == 0);
        return None;
    }
    if s[pos] != '{' {
        assert(s@.skip(pos as int)[0] != '{');
        return None;
    }
    assert(s@.skip(pos as int)[0] == '{');
    if pos + 1 < n && s[pos + 1] == '}' {
        proof {
            assert(s@.skip(pos as int)[1] == '}');
            assert(s@.skip(pos as int).skip(2) =~= s@.skip(pos + 2));
        }
        let o = JsonObject { fields: Vec::new() };
        assert(o@ =~= Seq::<(Seq<char>, ScalarVal)>::empty());
        return Some((o, pos + 2));
    }
    proof {
        if pos + 1 < n {
            assert(s@.skip(pos as int)[1] == s@[pos + 1]);
        } else {
            assert(s@.skip(pos as int).len() < 2);
        }
        assert(s@.skip(pos as int).skip(1) =~= s@.skip(pos + 1));
    }
    p_fields(s, pos + 1)
}

/// Parses a top-level value (scalar or nested object) beginning at `pos`.
fn p_item(s: &Vec<char>, pos: usize) -> (r: Option<(JsonItem, usize)>)
    requires
        pos <= s@.len(),
    ensures
        match r {
            Some((v, p2)) => pos <= p2 <= s@.len() && parse_item(s@.skip(pos as int)) == Some(
                (v@, s@.skip(p2 as int)),
            ),
            None => parse_item(s@.skip(pos as int)) == None::<(ItemVal, Seq<char>)>,
        },
{
    let n = s.len();
    if pos < n && s[pos] == '{' {
        assert(s@.skip(pos as int)[0] == '{');
        match p_object(s, pos) {
            Some((o, p2)) => Some((JsonItem::Object(o), p2)),
            None => None,
        }
    } else {
        proof {
            if pos < n {
                assert(s@.skip(pos as int)[0] == s@[pos as int]);
            } else {
                assert(s@.skip(pos as int).len() == 0);
            }
        }
        match p_scalar(s, pos) {
            Some((v, p2)) => Some((JsonItem::Scalar(v), p2)),
            None => None,
        }
    }
}

/// Prepends already-parsed top-level fields to a parse result.
spec fn opt_prepend_top(acc: TopVal, r: Option<(TopVal, Seq<char>)>) -> Option<
    (TopVal, Seq<char>),
> {
    match r {
        Some((fs, rest)) => Some((acc + fs, rest)),
        None => None,
    }
}

/// Parses a nonempty top-level field list beginning at `pos` (just after
/// the opening brace), through the closing brace.
fn p_top_fields(s: &Vec<char>, pos: usize) -> (r: Option<(Vec<(String, JsonItem)>, usize)>)
    requires
        pos <= s@.len(),
    ensures
        match r {
            Some((fs, p2)) => pos <= p2 <= s@.len() && parse_top_fields(s@.skip(pos as int))
                == Some((top_view(&fs), s@.skip(p2 as int))),
            None => parse_top_fields(s@.skip(pos as int)) == None::<(TopVal, Seq<char>)>,
        },
{
    let n = s.len();
    let mut fields: Vec<(String, JsonItem)> = Vec::new();
    let mut cur: usize = pos;
    loop
        invariant
            n == s@.len(),
            pos <= cur <= n,
            parse_top_fields(s@.skip(pos as int)) == opt_prepend_top(
                top_view(&fields),
                parse_top_fields(s@.skip(cur as int)),
            ),
        decreases n - cur,
    {
        if cur >= n {
            assert(s@.skip(cur as int).len() == 0);
            return None;
        }
        if s[cur] != '"' {
            assert(s@.skip(cur as int)[0] != '"');
            return None;
        }
        assert(s@.skip(cur as int)[0] == '"');
        assert(s@.skip(cur as int).skip(1) =~= s@.skip(cur + 1));
        let key: String;
        let after_key: usize;
        match p_str_body(s, cur + 1) {
            Some((k, p2)) => {
                key = k;
                after_key = p2;
            },
            None => {
                return None;
            },
        }
        if after_key >= n {
            assert(s@.skip(after_key as int).len() == 0);
            return None;
        }
        if s[after_key] != ':' {
            assert(s@.skip(after_key as int)[0] != ':');
            return None;
        }
        assert(s@.skip(after_key as int)[0] == ':');
        assert(s@.skip(after_key as int).skip(1) =~= s@.skip(after_key + 1));
        let val: JsonItem;
        let after_val: usize;
        match p_item(s, after_key + 1) {
            Some((v, p2)) => {
                val = v;
                after_val = p2;
            },
            None => {
                return None;
            },
        }
        if after_val >= n {
            assert(s@.skip(after_val as int).len() == 0);
            return None;
        }
        let t = s[after_val];
        assert(s@.skip(after_val as int)[0] == t);
        if t == '}' {
            let ghost before = top_view(&fields);
            proof {
                assert(s@.skip(after_val as int).skip(1) =~= s@.skip(after_val + 1));
                assert(parse_top_fields(s@.skip(cur as int)) == Some(
                    (seq![(key@, val@)], s@.skip(after_val + 1)),
                ));
                assert(before + seq![(key@, val@)] =~= before.push((key@, val@)));
            }
            fields.push((key, val));
            proof {
                assert(top_view(&fields) =~= before.push((key@, val@)));
            }
            return Some((fields, after_val + 1));
        } else if t == ',' {
            let ghost before = top_view(&fields);
            proof {
                assert(s@.skip(after_val as int).skip(1) =~= s@.skip(after_val + 1));
                assert(s@.skip(after_val + 1).len() < s@.skip(cur as int).len());
                match parse_top_fields(s@.skip(after_val + 1)) {
                    Some((fs2, r2)) => {
                        assert(parse_top_fields(s@.skip(cur as int)) == Some(
                            (seq![(key@, val@)] + fs2, r2),
                        ));
                        assert(before + (seq![(key@, val@)] + fs2) =~= before.push((key@, val@))
                            + fs2);
                    },
                    None => {},
                }
            }
            fields.push((key, val));
            proof {
                assert(top_view(&fields) =~= before.push((key@, val@)));
            }
            cur = after_val + 1;
        } else {
            return None;
        }
    }
}

/// Parses a whole character line as one top-level object with nothing
/// after it: the inverse of `top_object_to_chars`.
pub fn parse_top_chars(s: &Vec<char>) -> (r: Option<Vec<(String, JsonItem)>>)
    ensures
        match r {
            Some(fs) => parse_top_line(s@) == Some(top_view(&fs)),
            None => parse_top_line(s@) == None::<TopVal>,
        },
{
    let n = s.len();
    if n == 0 {
        assert(s@.skip(0).len() == 0);
        return None;
    }
    if s[0] != '{' {
        assert(s@.skip(0) =~= s@);
        return None;
    }
    assert(s@.skip(0) =~= s@);
    if n >= 2 && s[1] == '}' {
        if n == 2 {
            proof {
                assert(s@.skip(2).len() == 0);
            }
            let fs: Vec<(String, JsonItem)> = Vec::new();
            assert(top_view(&fs) =~= Seq::<(Seq<char>, ItemVal)>::empty());
            return Some(fs);
        } else {
            proof {
                assert(s@.skip(2).len() > 0);
            }
            return None;
        }
    }
    proof {
        if n >= 2 {
            assert(s@[1] != '}');
        } else {
            assert(s@.len() < 2);
        }
        assert(s@.skip(1) == s@.skip(0).skip(1));
        assert(s@.skip(0).skip(1) =~= s@.skip(1));
    }
    match p_top_fields(s, 1) {
        Some((fs, p2)) => {
            if p2 == n {
                proof {
                    assert(s@.skip(p2 as int).len() == 0);
                }
                Some(fs)
            } else {
                proof {
                    assert(s@.skip(p2 as int).len() > 0);
                }
                None
            }
        },
        None => None,
    }
}

/// Appends the top-level fields starting at index `i`, comma-separated.
fn emit_top_fields_from(out: &mut Vec<char>, fields: &Vec<(String, JsonItem)>, i: usize)
    requires
        i < fields@.len(),
    ensures
        final(out)@ == old(out)@ + ser_top_fields(top_view(fields).skip(i as int)),
    decreases fields@.len() - i,
{
    let n = fields.len();
    let f = &fields[i];
    emit_string(out, &f.0);
    out.push(':');
    emit_item(out, &f.1);
    if i + 1 < n {
        out.push(',');
        emit_top_fields_from(out, fields, i + 1);
        assert(top_view(fields).skip(i as int)[0] == (fields@[i as int].0@, fields@[i as int].1@));
        assert(top_view(fields).skip(i as int).skip(1) =~= top_view(fields).skip(i + 1));
        assert(final(out)@ =~= old(out)@ + ser_top_fields(top_view(fields).skip(i as int)));
    } else {
        assert(top_view(fields).skip(i as int).len() == 1);
        assert(top_view(fields).skip(i as int)[0] == (fields@[i as int].0@, fields@[i as int].1@));
        assert(final(out)@ =~= old(out)@ + ser_top_fields(top_view(fields).skip(i as int)));
    }
}

} // verus!
