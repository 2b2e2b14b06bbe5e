//! One-line JSON objects: strings, whole numbers and booleans, in the order in
//! which they are given.

use vstd::prelude::*;
use vstd::string::*;
use crate::text::{
    dec, dec_is_digits, digit_char, digit_char_value, hex_value, is_hex_digit, push_dec,
};

verus! {

/// What stands for a character inside a JSON string: the character itself, but
/// for the quote, the backslash and the control characters.
pub open spec fn escape_char(c: char) -> Seq<char> {
    if c == '"' {
        seq!['\\', '"']
    } else if c == '\\' {
        seq!['\\', '\\']
    } else if c == '\u{8}' {
        seq!['\\', 'b']
    } else if c == '\u{9}' {
        seq!['\\', 't']
    } else if c == '\u{a}' {
        seq!['\\', 'n']
    } else if c == '\u{c}' {
        seq!['\\', 'f']
    } else if c == '\u{d}' {
        seq!['\\', 'r']
    } else if (c as u32) < 0x20 {
        seq![
            '\\',
            'u',
            '0',
            '0',
            digit_char((c as u32 / 16) as nat, false),
            digit_char((c as u32 % 16) as nat, false),
        ]
    } else {
        seq![c]
    }
}

/// A text with every character escaped.
pub open spec fn escaped(s: Seq<char>) -> Seq<char>
    decreases s.len(),
{
    if s.len() == 0 {
        Seq::empty()
    } else {
        escape_char(s[0]) + escaped(s.skip(1))
    }
}

/// A text as a JSON string.
pub open spec fn json_text(s: Seq<char>) -> Seq<char> {
    seq!['"'] + escaped(s) + seq!['"']
}

/// `serde_json::to_string` of a string slice, which cannot fail: the text in
/// double quotes, where the quote and the backslash are preceded by a
/// backslash, the control characters U+0008, U+0009, U+000A, U+000C and U+000D
/// are written as \b, \t, \n, \f and \r, the others below U+0020 as \u00 and
/// two lower-case hexadecimal digits, and everything else is kept.
#[verifier::external_body]
fn json_string(s: &str) -> (r: String)
    ensures
        r@ == json_text(s@),
{
    serde_json::to_string(s).expect("a string always serialises")
}

/// A value of a field.
pub enum JsonValue {
    Text(Seq<char>),
    Number(int),
    Flag(bool),
}

/// A field: its name and its value.
pub type Field = (Seq<char>, JsonValue);

/// A field with a text.
pub open spec fn text_field(name: Seq<char>, v: Seq<char>) -> Field {
    (name, JsonValue::Text(v))
}

/// A field with a number.
pub open spec fn number_field(name: Seq<char>, v: int) -> Field {
    (name, JsonValue::Number(v))
}

/// A field with a flag.
pub open spec fn flag_field(name: Seq<char>, v: bool) -> Field {
    (name, JsonValue::Flag(v))
}

/// A whole number in decimal.
pub open spec fn int_text(v: int) -> Seq<char> {
    if v < 0 {
        seq!['-'] + dec((-v) as nat)
    } else {
        dec(v as nat)
    }
}

/// A value as it is written.
pub open spec fn value_text(v: JsonValue) -> Seq<char> {
    match v {
        JsonValue::Text(s) => json_text(s),
        JsonValue::Number(n) => int_text(n),
        JsonValue::Flag(b) => if b {
            "true"@
        } else {
            "false"@
        },
    }
}

/// A field as it is written.
pub open spec fn field_text(f: Field) -> Seq<char> {
    json_text(f.0) + seq![':'] + value_text(f.1)
}

/// Fields with commas between them.
pub open spec fn fields_text(fields: Seq<Field>) -> Seq<char>
    decreases fields.len(),
{
    if fields.len() == 0 {
        Seq::empty()
    } else if fields.len() == 1 {
        field_text(fields[0])
    } else {
        fields_text(fields.drop_last()) + seq![','] + field_text(fields.last())
    }
}

/// An object with the given fields.
pub open spec fn object_text(fields: Seq<Field>) -> Seq<char> {
    seq!['{'] + fields_text(fields) + seq!['}']
}

/// A line under construction: an object without its closing brace.
pub struct LineBuilder {
    text: String,
    empty: bool,
    fields: Ghost<Seq<Field>>,
}

impl LineBuilder {
    /// The fields written so far.
    pub closed spec fn fields(self) -> Seq<Field> {
        self.fields@
    }

    /// The text is that of the fields.
    pub closed spec fn wf(self) -> bool {
        &&& self.text@ == seq!['{'] + fields_text(self.fields@)
        &&& self.empty == (self.fields@.len() == 0)
    }

    /// An object without fields.
    pub fn new() -> (r: LineBuilder)
        ensures
            r.wf(),
            r.fields() == Seq::<Field>::empty(),
    {
        let mut text = String::new();
        text.push('{');
        assert(text@ =~= seq!['{'] + fields_text(Seq::empty()));
        LineBuilder { text, empty: true, fields: Ghost(Seq::empty()) }
    }

    /// Write a comma where a field stands before, and the name of the next.
    fn name(&mut self, name: &str)
        requires
            old(self).wf(),
        ensures
            final(self).fields() == old(self).fields(),
            !final(self).empty,
            final(self).text@ == old(self).text@ + (if old(self).fields().len() > 0 {
                seq![',']
            } else {
                Seq::empty()
            }) + json_text(name@) + seq![':'],
    {
        let ghost before = self.text@;
        if !self.empty {
            self.text.push(',');
        }
        let quoted = json_string(name);
        self.text.append(quoted.as_str());
        self.text.push(':');
        self.empty = false;
        assert(self.text@ =~= before + (if self.fields@.len() > 0 {
            seq![',']
        } else {
            Seq::empty()
        }) + json_text(name@) + seq![':']);
    }

    /// Add a field with a text.
    pub fn text(&mut self, name: &str, v: &str)
        requires
            old(self).wf(),
        ensures
            final(self).wf(),
            final(self).fields() == old(self).fields().push(text_field(name@, v@)),
    {
        self.name(name);
        let quoted = json_string(v);
        self.text.append(quoted.as_str());
        let ghost f = text_field(name@, v@);
        proof {
            lemma_push_field(old(self).fields@, f);
            self.fields@ = self.fields@.push(f);
        }
        assert(self.text@ =~= seq!['{'] + fields_text(self.fields@));
    }

    /// Add a field with a number.
    pub fn number(&mut self, name: &str, v: u128)
        requires
            old(self).wf(),
        ensures
            final(self).wf(),
            final(self).fields() == old(self).fields().push(number_field(name@, v as int)),
    {
        self.name(name);
        push_dec(&mut self.text, v);
        let ghost f = number_field(name@, v as int);
        proof {
            lemma_push_field(old(self).fields@, f);
            self.fields@ = self.fields@.push(f);
        }
        assert(self.text@ =~= seq!['{'] + fields_text(self.fields@));
    }

    /// Add a field with a number that can be negative.
    pub fn signed(&mut self, name: &str, v: i32)
        requires
            old(self).wf(),
        ensures
            final(self).wf(),
            final(self).fields() == old(self).fields().push(number_field(name@, v as int)),
    {
        self.name(name);
        if v < 0 {
            self.text.push('-');
            push_dec(&mut self.text, (-(v as i64)) as u128);
        } else {
            push_dec(&mut self.text, v as u128);
        }
        let ghost f = number_field(name@, v as int);
        proof {
            lemma_push_field(old(self).fields@, f);
            self.fields@ = self.fields@.push(f);
        }
        assert(self.text@ =~= seq!['{'] + fields_text(self.fields@));
    }

    /// Add a field with a flag.
    pub fn flag(&mut self, name: &str, v: bool)
        requires
            old(self).wf(),
        ensures
            final(self).wf(),
            final(self).fields() == old(self).fields().push(flag_field(name@, v)),
    {
        self.name(name);
        self.text.append(
            if v {
                "true"
            } else {
                "false"
            },
        );
        let ghost f = flag_field(name@, v);
        proof {
            lemma_push_field(old(self).fields@, f);
            self.fields@ = self.fields@.push(f);
        }
        assert(self.text@ =~= seq!['{'] + fields_text(self.fields@));
    }

    /// The finished line, without its line break.
    pub fn finish(self) -> (r: String)
        requires
            self.wf(),
        ensures
            r@ == object_text(self.fields()),
    {
        let mut text = self.text;
        text.push('}');
        assert(text@ =~= object_text(self.fields@));
        text
    }
}

proof fn lemma_push_field(fields: Seq<Field>, f: Field)
    ensures
        fields_text(fields.push(f)) =~= fields_text(fields) + (if fields.len() > 0 {
            seq![',']
        } else {
            Seq::empty()
        }) + field_text(f),
{
    assert(fields.push(f).drop_last() =~= fields);
}

/// The character that a short escape stands for.
pub open spec fn short_escape(c: char) -> Option<char> {
    if c == '"' || c == '\\' {
        Some(c)
    } else if c == 'b' {
        Some('\u{8}')
    } else if c == 't' {
        Some('\u{9}')
    } else if c == 'n' {
        Some('\u{a}')
    } else if c == 'f' {
        Some('\u{c}')
    } else if c == 'r' {
        Some('\u{d}')
    } else {
        None
    }
}

/// Reads the rest of a JSON string from `i` on: the characters behind those
/// already read, up to the closing quote, and where that ends.
pub open spec fn read_rest(t: Seq<char>, i: int, read: Seq<char>) -> Option<(Seq<char>, int)>
    decreases t.len() - i,
{
    if i < 0 || i >= t.len() {
        None
    } else if t[i] == '"' {
        Some((read, i + 1))
    } else if t[i] != '\\' {
        read_rest(t, i + 1, read.push(t[i]))
    } else if i + 1 < t.len() && short_escape(t[i + 1]) is Some {
        read_rest(t, i + 2, read.push(short_escape(t[i + 1])->0))
    } else if i + 5 < t.len() && t[i + 1] == 'u' && t[i + 2] == '0' && t[i + 3] == '0'
        && is_hex_digit(t[i + 4]) && is_hex_digit(t[i + 5]) {
        read_rest(
            t,
            i + 6,
            read.push(((hex_value(t[i + 4]) * 16 + hex_value(t[i + 5])) as u8) as char),
        )
    } else {
        None
    }
}

/// Reads the JSON string that begins at `i`.
pub open spec fn read_string(t: Seq<char>, i: int) -> Option<(Seq<char>, int)> {
    if 0 <= i < t.len() && t[i] == '"' {
        read_rest(t, i + 1, Seq::empty())
    } else {
        None
    }
}

proof fn lemma_control_char(c: char)
    requires
        (c as u32) < 0x20,
    ensures
        ((c as u32) as u8) as char == c,
{
}

proof fn lemma_read_rest(t: Seq<char>, i: int, s: Seq<char>, read: Seq<char>)
    requires
        0 <= i,
        i + escaped(s).len() < t.len(),
        t.subrange(i, i + escaped(s).len()) == escaped(s),
        t[i + escaped(s).len()] == '"',
    ensures
        read_rest(t, i, read) == Some((read + s, i + escaped(s).len() + 1)),
    decreases s.len(),
{
    if s.len() == 0 {
        assert(read + s =~= read);
    } else {
        let c = s[0];
        let e = escape_char(c);
        let rest = s.skip(1);
        assert(escaped(s) == e + escaped(rest));
        assert forall|k: int| 0 <= k < e.len() implies t[i + k] == e[k] by {
            assert(t.subrange(i, i + escaped(s).len())[k] == t[i + k]);
        }
        assert(t.subrange(i + e.len(), i + e.len() + escaped(rest).len()) =~= escaped(rest)) by {
            assert forall|k: int| 0 <= k < escaped(rest).len() implies t[i + e.len() + k]
                == escaped(rest)[k] by {
                assert(t.subrange(i, i + escaped(s).len())[e.len() + k] == t[i + e.len() + k]);
            }
        }
        lemma_read_rest(t, i + e.len(), rest, read.push(c));
        assert(read.push(c) + rest =~= read + s);
        assert(t[i] == e[0]);
        if e.len() >= 2 {
            assert(t[i + 1] == e[1]);
        }
        if e.len() == 6 {
            assert(t[i + 2] == e[2] && t[i + 3] == e[3] && t[i + 4] == e[4] && t[i + 5] == e[5]);
            digit_char_value((c as u32 / 16) as nat, false);
            digit_char_value((c as u32 % 16) as nat, false);
            let v = hex_value(t[i + 4]) * 16 + hex_value(t[i + 5]);
            assert(v == c as u32);
            lemma_control_char(c);
        }
    }
}

/// A text written as a JSON string reads back as that text, whatever it holds
/// and whatever stands around it.
pub proof fn json_text_reads_back(before: Seq<char>, s: Seq<char>, after: Seq<char>)
    ensures
        read_string(before + json_text(s) + after, before.len() as int) == Some(
            (s, (before.len() + json_text(s).len()) as int),
        ),
{
    let t = before + json_text(s) + after;
    let i = before.len() as int;
    assert(t[i] == '"');
    assert(t.subrange(i + 1, i + 1 + escaped(s).len()) =~= escaped(s));
    assert(t[i + 1 + escaped(s).len()] == '"');
    lemma_read_rest(t, i + 1, s, Seq::empty());
    assert(Seq::<char>::empty() + s =~= s);
}

/// Where the value of field `k` begins in the text of an object.
pub open spec fn value_start(fields: Seq<Field>, k: int) -> int {
    1 + fields_text(fields.take(k)).len() + (if k > 0 {
        1int
    } else {
        0
    }) + json_text(fields[k].0).len() + 1
}

/// The part of an object's text from field `k` on.
proof fn lemma_field_at(fields: Seq<Field>, k: int, n: int) -> (after: Seq<char>)
    requires
        0 <= k < n <= fields.len(),
    ensures
        fields_text(fields.take(n)) == fields_text(fields.take(k)) + (if k > 0 {
            seq![',']
        } else {
            Seq::empty()
        }) + field_text(fields[k]) + after,
    decreases n,
{
    let t = fields.take(n);
    assert(t.drop_last() =~= fields.take(n - 1));
    lemma_push_field(fields.take(n - 1), fields[n - 1]);
    assert(fields.take(n - 1).push(fields[n - 1]) =~= t);
    if k == n - 1 {
        assert(fields_text(t) =~= fields_text(fields.take(k)) + (if k > 0 {
            seq![',']
        } else {
            Seq::empty()
        }) + field_text(fields[k]) + Seq::<char>::empty());
        Seq::empty()
    } else {
        let mid = lemma_field_at(fields, k, n - 1);
        let after = mid + seq![','] + field_text(fields[n - 1]);
        assert(fields_text(t) =~= fields_text(fields.take(k)) + (if k > 0 {
            seq![',']
        } else {
            Seq::empty()
        }) + field_text(fields[k]) + after);
        after
    }
}

/// Every text in a line reads back as what was put in.
pub proof fn every_text_survives(fields: Seq<Field>, k: int)
    requires
        0 <= k < fields.len(),
        fields[k].1 is Text,
    ensures
        read_string(object_text(fields), value_start(fields, k)) matches Some((s, _)) && s == (
        fields[k].1)->Text_0,
{
    let after = lemma_field_at(fields, k, fields.len() as int);
    assert(fields.take(fields.len() as int) =~= fields);
    let v = (fields[k].1)->Text_0;
    let before = seq!['{'] + fields_text(fields.take(k)) + (if k > 0 {
        seq![',']
    } else {
        Seq::empty()
    }) + json_text(fields[k].0) + seq![':'];
    let rest = after + seq!['}'];
    assert(object_text(fields) =~= before + json_text(v) + rest);
    json_text_reads_back(before, v, rest);
}

/// No character is a control character, a line break least of all.
pub open spec fn one_line(t: Seq<char>) -> bool {
    forall|i: int| 0 <= i < t.len() ==> #[trigger] (t[i] as u32) >= 0x20
}

proof fn lemma_one_line_concat(a: Seq<char>, b: Seq<char>)
    requires
        one_line(a),
        one_line(b),
    ensures
        one_line(a + b),
{
    assert forall|i: int| 0 <= i < (a + b).len() implies #[trigger] ((a + b)[i] as u32)
        >= 0x20 by {
        if i < a.len() {
            assert((a[i] as u32) >= 0x20);
        } else {
            assert((b[i - a.len()] as u32) >= 0x20);
        }
    }
}

proof fn lemma_escaped_one_line(s: Seq<char>)
    ensures
        one_line(escaped(s)),
    decreases s.len(),
{
    if s.len() > 0 {
        lemma_escaped_one_line(s.skip(1));
        let e = escape_char(s[0]);
        if (s[0] as u32) < 0x20 {
            digit_char_value((s[0] as u32 / 16) as nat, false);
            digit_char_value((s[0] as u32 % 16) as nat, false);
        }
        assert(one_line(e));
        lemma_one_line_concat(e, escaped(s.skip(1)));
    }
}

proof fn lemma_json_text_one_line(s: Seq<char>)
    ensures
        one_line(json_text(s)),
{
    lemma_escaped_one_line(s);
    lemma_one_line_concat(seq!['"'], escaped(s));
    lemma_one_line_concat(seq!['"'] + escaped(s), seq!['"']);
}

proof fn lemma_field_one_line(f: Field)
    ensures
        one_line(field_text(f)),
{
    lemma_json_text_one_line(f.0);
    lemma_one_line_concat(json_text(f.0), seq![':']);
    match f.1 {
        JsonValue::Text(s) => {
            lemma_json_text_one_line(s);
        },
        JsonValue::Number(n) => {
            let d = dec((if n < 0 {
                -n
            } else {
                n
            }) as nat);
            dec_is_digits((if n < 0 {
                -n
            } else {
                n
            }) as nat);
            assert(one_line(d));
            lemma_one_line_concat(seq!['-'], d);
        },
        JsonValue::Flag(_) => {
            reveal_strlit("true");
            reveal_strlit("false");
        },
    }
    lemma_one_line_concat(json_text(f.0) + seq![':'], value_text(f.1));
}

/// An object takes one line: nothing in it can break the line, whatever its
/// texts hold.
pub proof fn objects_take_one_line(fields: Seq<Field>)
    ensures
        one_line(object_text(fields)),
        one_line(fields_text(fields)),
    decreases fields.len(),
{
    if fields.len() > 0 {
        objects_take_one_line(fields.drop_last());
        lemma_field_one_line(fields.last());
        lemma_one_line_concat(fields_text(fields.drop_last()), seq![',']);
        lemma_one_line_concat(
            fields_text(fields.drop_last()) + seq![','],
            field_text(fields.last()),
        );
    }
    lemma_one_line_concat(seq!['{'], fields_text(fields));
    lemma_one_line_concat(seq!['{'] + fields_text(fields), seq!['}']);
}

} // verus!
