//! The text format in which tool arguments arrive from the model and tool
//! results are sent back: flat JSON objects. The encoder turns a typed
//! result into its exact text; the parser decodes untrusted argument text
//! into string-valued fields, rejecting everything outside the grammar.
use vstd::prelude::*;

verus! {

use vstd::string::StrSliceExecFns;

// ---------------------------------------------------------------------------
// Values of a result object
// ---------------------------------------------------------------------------
/// One field value of an encoded result object.
pub enum FieldValue {
    Null,
    Str(String),
    List(Vec<String>),
}

/// The mathematical model of a field value.
pub enum FieldValueModel {
    Null,
    Str(Seq<char>),
    List(Seq<Seq<char>>),
}

impl View for FieldValue {
    type V = FieldValueModel;

    open spec fn view(&self) -> FieldValueModel {
        match self {
            FieldValue::Null => FieldValueModel::Null,
            FieldValue::Str(s) => FieldValueModel::Str(s@),
            FieldValue::List(v) => FieldValueModel::List(v.deep_view()),
        }
    }
}

/// One `key: value` field of a result object.
pub struct JsonField {
    pub key: String,
    pub value: FieldValue,
}

impl View for JsonField {
    type V = (Seq<char>, FieldValueModel);

    open spec fn view(&self) -> (Seq<char>, FieldValueModel) {
        (self.key@, self.value@)
    }
}

/// A flat JSON object: the shape of every tool result payload.
pub struct JsonObject {
    pub fields: Vec<JsonField>,
}

impl View for JsonObject {
    type V = Seq<(Seq<char>, FieldValueModel)>;

    open spec fn view(&self) -> Seq<(Seq<char>, FieldValueModel)> {
        self.fields@.map_values(|f: JsonField| f@)
    }
}

// ---------------------------------------------------------------------------
// Encoding: spec
// ---------------------------------------------------------------------------
/// The lower-case hexadecimal digit for a value below sixteen.
pub open spec fn hex_char(d: u32) -> char {
    if d < 10 {
        (d + 48) as char
    } else {
        (d + 87) as char
    }
}

/// How one character appears inside a JSON string literal: quotes and
/// backslashes get a two-character escape, control characters get their
/// short escape or a `\u00..` escape, everything else stands as itself.
pub open spec fn escape_char(c: char) -> Seq<char> {
    if c == '"' {
        seq!['\\', '"']
    } else if c == '\\' {
        seq!['\\', '\\']
    } else if c == '\u{8}' {
        seq!['\\', 'b']
    } else if c == '\u{9}' {
        seq!['\\', 't']
    } else if c == '\u{A}' {
        seq!['\\', 'n']
    } else if c == '\u{C}' {
        seq!['\\', 'f']
    } else if c == '\u{D}' {
        seq!['\\', 'r']
    } else if (c as u32) < 32 {
        seq!['\\', 'u', '0', '0', hex_char((c as u32) / 16), hex_char((c as u32) % 16)]
    } else {
        seq![c]
    }
}

pub open spec fn escape_string(s: Seq<char>) -> Seq<char>
    decreases s.len(),
{
    if s.len() == 0 {
        Seq::empty()
    } else {
        escape_char(s[0]) + escape_string(s.drop_first())
    }
}

/// A JSON string literal: the escaped characters between double quotes.
pub open spec fn quote_string(s: Seq<char>) -> Seq<char> {
    seq!['"'] + escape_string(s) + seq!['"']
}

/// A JSON array of string literals, comma separated.
pub open spec fn encode_list(items: Seq<Seq<char>>) -> Seq<char>
    decreases items.len(),
{
    if items.len() == 0 {
        Seq::empty()
    } else if items.len() == 1 {
        quote_string(items[0])
    } else {
        quote_string(items[0]) + seq![','] + encode_list(items.drop_first())
    }
}

pub open spec fn encode_value(v: FieldValueModel) -> Seq<char> {
    match v {
        FieldValueModel::Null => seq!['n', 'u', 'l', 'l'],
        FieldValueModel::Str(s) => quote_string(s),
        FieldValueModel::List(items) => seq!['['] + encode_list(items) + seq![']'],
    }
}

pub open spec fn encode_field(f: (Seq<char>, FieldValueModel)) -> Seq<char> {
    quote_string(f.0) + seq![':'] + encode_value(f.1)
}

pub open spec fn encode_fields(fs: Seq<(Seq<char>, FieldValueModel)>) -> Seq<char>
    decreases fs.len(),
{
    if fs.len() == 0 {
        Seq::empty()
    } else if fs.len() == 1 {
        encode_field(fs[0])
    } else {
        encode_field(fs[0]) + seq![','] + encode_fields(fs.drop_first())
    }
}

/// The exact text of an encoded result object.
pub open spec fn encode_object(fs: Seq<(Seq<char>, FieldValueModel)>) -> Seq<char> {
    seq!['{'] + encode_fields(fs) + seq!['}']
}

// ---------------------------------------------------------------------------
// Encoding: lemmas
// ---------------------------------------------------------------------------
proof fn lemma_escape_snoc(s: Seq<char>, c: char)
    ensures
        escape_string(s.push(c)) == escape_string(s) + escape_char(c),
    decreases s.len(),
{
    if s.len() == 0 {
        assert(s.push(c).drop_first() =~= Seq::<char>::empty());
        assert(escape_string(Seq::<char>::empty()) == Seq::<char>::empty());
        assert(s.push(c)[0] == c);
        assert(escape_string(s.push(c)) =~= escape_char(c));
        assert(escape_string(s) + escape_char(c) =~= escape_char(c));
    } else {
        assert(s.push(c).drop_first() =~= s.drop_first().push(c));
        lemma_escape_snoc(s.drop_first(), c);
        assert(escape_string(s.push(c)) =~= escape_string(s) + escape_char(c));
    }
}

proof fn lemma_encode_list_snoc(items: Seq<Seq<char>>, x: Seq<char>)
    requires
        items.len() >= 1,
    ensures
        encode_list(items.push(x)) == encode_list(items) + seq![','] + quote_string(x),
    decreases items.len(),
{
    if items.len() == 1 {
        assert(items.push(x).drop_first() =~= seq![x]);
        assert(seq![x][0] == x);
        assert(encode_list(seq![x]) == quote_string(x));
        assert(items.push(x)[0] == items[0]);
        assert(encode_list(items) == quote_string(items[0]));
        assert(encode_list(items.push(x)) =~= encode_list(items) + seq![','] + quote_string(x));
    } else {
        assert(items.push(x).drop_first() =~= items.drop_first().push(x));
        lemma_encode_list_snoc(items.drop_first(), x);
        assert(encode_list(items.push(x)) =~= encode_list(items) + seq![','] + quote_string(x));
    }
}

proof fn lemma_encode_fields_snoc(fs: Seq<(Seq<char>, FieldValueModel)>, f: (Seq<char>, FieldValueModel))
    requires
        fs.len() >= 1,
    ensures
        encode_fields(fs.push(f)) == encode_fields(fs) + seq![','] + encode_field(f),
    decreases fs.len(),
{
    if fs.len() == 1 {
        assert(fs.push(f).drop_first() =~= seq![f]);
        assert(seq![f][0] == f);
        assert(encode_fields(seq![f]) == encode_field(f));
        assert(fs.push(f)[0] == fs[0]);
        assert(encode_fields(fs) == encode_field(fs[0]));
        assert(encode_fields(fs.push(f)) =~= encode_fields(fs) + seq![','] + encode_field(f));
    } else {
        assert(fs.push(f).drop_first() =~= fs.drop_first().push(f));
        lemma_encode_fields_snoc(fs.drop_first(), f);
        assert(encode_fields(fs.push(f)) =~= encode_fields(fs) + seq![','] + encode_field(f));
    }
}

// ---------------------------------------------------------------------------
// Encoding: executable
// ---------------------------------------------------------------------------
/// Relies on `String`'s `FromIterator` over `char`: the collected string
/// holds exactly the given characters in order.
#[verifier::external_body]
pub(crate) fn string_from_chars(v: Vec<char>) -> (r: String)
    ensures
        r@ == v@,
{
    v.into_iter().collect()
}

/// The characters of a string slice, in order.
pub fn str_to_chars(s: &str) -> (r: Vec<char>)
    ensures
        r@ == s@,
{
    let n: usize = s.unicode_len();
    let mut r: Vec<char> = Vec::new();
    let mut i: usize = 0;
    while i < n
        invariant
            i <= n,
            n == s@.len(),
            r@ == s@.take(i as int),
        decreases n - i,
    {
        let c = s.get_char(i);
        r.push(c);
        proof {
            assert(s@.take(i + 1 as int) =~= s@.take(i as int).push(s@[i as int]));
        }
        i = i + 1;
    }
    proof {
        assert(s@.take(n as int) =~= s@);
    }
    r
}

fn escape_one(c: char) -> (r: Vec<char>)
    ensures
        r@ == escape_char(c),
{
    let mut r: Vec<char> = Vec::new();
    let u = c as u32;
    if c == '"' {
        r.push('\\');
        r.push('"');
        proof {
            assert(r@ =~= escape_char(c));
        }
    } else if c == '\\' {
        r.push('\\');
        r.push('\\');
        proof {
            assert(r@ =~= escape_char(c));
        }
    } else if u == 8 {
        r.push('\\');
        r.push('b');
        proof {
            assert(r@ =~= escape_char(c));
        }
    } else if u == 9 {
        r.push('\\');
        r.push('t');
        proof {
            assert(r@ =~= escape_char(c));
        }
    } else if u == 10 {
        r.push('\\');
        r.push('n');
        proof {
            assert(r@ =~= escape_char(c));
        }
    } else if u == 12 {
        r.push('\\');
        r.push('f');
        proof {
            assert(r@ =~= escape_char(c));
        }
    } else if u == 13 {
        r.push('\\');
        r.push('r');
        proof {
            assert(r@ =~= escape_char(c));
        }
    } else if u < 32 {
        r.push('\\');
        r.push('u');
        r.push('0');
        r.push('0');
        let hi = u / 16;
        let lo = u % 16;
        let hc: u8 = if hi < 10 { (hi as u8) + 48 } else { (hi as u8) + 87 };
        let lc: u8 = if lo < 10 { (lo as u8) + 48 } else { (lo as u8) + 87 };
        r.push(hc as char);
        r.push(lc as char);
        proof {
            assert(hc as char == hex_char(u / 16));
            assert(lc as char == hex_char(u % 16));
            assert(r@ =~= escape_char(c));
        }
    } else {
        r.push(c);
        proof {
            assert(r@ =~= escape_char(c));
        }
    }
    r
}

fn push_escaped(out: &mut Vec<char>, s: &str)
    ensures
        final(out)@ == old(out)@ + escape_string(s@),
{
    let cs = str_to_chars(s);
    let ghost base = out@;
    let mut i: usize = 0;
    while i < cs.len()
        invariant
            i <= cs.len(),
            cs@ == s@,
            out@ == base + escape_string(s@.take(i as int)),
        decreases cs.len() - i,
    {
        let c = cs[i];
        let mut e = escape_one(c);
        out.append(&mut e);
        proof {
            lemma_escape_snoc(s@.take(i as int), c);
            assert(s@.take(i + 1 as int) =~= s@.take(i as int).push(c));
            assert(out@ =~= base + escape_string(s@.take(i + 1 as int)));
        }
        i = i + 1;
    }
    proof {
        assert(s@.take(s@.len() as int) =~= s@);
    }
}

pub(crate) fn push_quoted(out: &mut Vec<char>, s: &str)
    ensures
        final(out)@ == old(out)@ + quote_string(s@),
{
    out.push('"');
    push_escaped(out, s);
    out.push('"');
    proof {
        assert(out@ =~= old(out)@ + quote_string(s@));
    }
}

fn push_value(out: &mut Vec<char>, v: &FieldValue)
    ensures
        final(out)@ == old(out)@ + encode_value(v@),
{
    match v {
        FieldValue::Null => {
            out.push('n');
            out.push('u');
            out.push('l');
            out.push('l');
            proof {
                assert(out@ =~= old(out)@ + encode_value(v@));
            }
        },
        FieldValue::Str(s) => {
            push_quoted(out, s.as_str());
        },
        FieldValue::List(items) => {
            out.push('[');
            let ghost base = out@;
            let mut i: usize = 0;
            while i < items.len()
                invariant
                    i <= items.len(),
                    out@ == base + encode_list(items.deep_view().take(i as int)),
                decreases items.len() - i,
            {
                if i > 0 {
                    out.push(',');
                }
                push_quoted(out, items[i].as_str());
                proof {
                    let prefix = items.deep_view().take(i as int);
                    assert(items.deep_view().take(i + 1 as int) =~= prefix.push(items@[i as int]@));
                    if i > 0 {
                        lemma_encode_list_snoc(prefix, items@[i as int]@);
                    }
                    assert(out@ =~= base + encode_list(items.deep_view().take(i + 1 as int)));
                }
                i = i + 1;
            }
            out.push(']');
            proof {
                assert(items.deep_view().take(items@.len() as int) =~= items.deep_view());
                assert(out@ =~= old(out)@ + encode_value(v@));
            }
        },
    }
}

/// The exact text of a result object, as advertised by [`encode_object`].
pub fn encode_object_text(o: &JsonObject) -> (r: String)
    ensures
        r@ == encode_object(o@),
{
    let mut out: Vec<char> = Vec::new();
    out.push('{');
    let ghost base = out@;
    let mut i: usize = 0;
    while i < o.fields.len()
        invariant
            i <= o.fields.len(),
            out@ == base + encode_fields(o@.take(i as int)),
        decreases o.fields.len() - i,
    {
        if i > 0 {
            out.push(',');
        }
        let f = &o.fields[i];
        push_quoted(&mut out, f.key.as_str());
        out.push(':');
        push_value(&mut out, &f.value);
        proof {
            let prefix = o@.take(i as int);
            assert(o@.take(i + 1 as int) =~= prefix.push(o.fields@[i as int]@));
            if i > 0 {
                lemma_encode_fields_snoc(prefix, o.fields@[i as int]@);
            }
            assert(out@ =~= base + encode_fields(o@.take(i + 1 as int)));
        }
        i = i + 1;
    }
    out.push('}');
    proof {
        assert(o@.take(o.fields@.len() as int) =~= o@);
        assert(out@ =~= encode_object(o@));
    }
    string_from_chars(out)
}

// ---------------------------------------------------------------------------
// Parsing: spec
// ---------------------------------------------------------------------------
// Tool arguments arrive as text chosen by the model. The accepted grammar is
// a single JSON object whose keys and values are string literals, with the
// usual escapes (including surrogate pairs) and surrounding whitespace.
// Anything else is a decode failure.

/// One parsed `"key": "value"` field of an argument object.
pub struct RawField {
    pub key: String,
    pub value: String,
}

impl View for RawField {
    type V = (Seq<char>, Seq<char>);

    open spec fn view(&self) -> (Seq<char>, Seq<char>) {
        (self.key@, self.value@)
    }
}

pub open spec fn raw_fields_model(v: Seq<RawField>) -> Seq<(Seq<char>, Seq<char>)> {
    v.map_values(|f: RawField| f@)
}

pub open spec fn is_ws(c: char) -> bool {
    c == ' ' || c == '\t' || c == '\n' || c == '\r'
}

/// The first position at or after `i` that holds no whitespace.
pub open spec fn skip_ws(s: Seq<char>, i: int) -> int
    decreases s.len() - i,
{
    if i < 0 || i >= s.len() {
        i
    } else if is_ws(s[i]) {
        skip_ws(s, i + 1)
    } else {
        i
    }
}

pub proof fn lemma_skip_ws_bounds(s: Seq<char>, i: int)
    requires
        0 <= i <= s.len(),
    ensures
        i <= skip_ws(s, i) <= s.len(),
    decreases s.len() - i,
{
    if i < s.len() && is_ws(s[i]) {
        lemma_skip_ws_bounds(s, i + 1);
    }
}

/// The numeric value of a hexadecimal digit, upper or lower case.
pub open spec fn hex_value(c: char) -> Option<u32> {
    let u = c as u32;
    if 48 <= u && u <= 57 {
        Some((u - 48) as u32)
    } else if 97 <= u && u <= 102 {
        Some((u - 87) as u32)
    } else if 65 <= u && u <= 70 {
        Some((u - 55) as u32)
    } else {
        None
    }
}

/// Four hexadecimal digits starting at `i`, as one code unit.
pub open spec fn parse_u_hex(s: Seq<char>, i: int) -> Option<u32> {
    if 0 <= i && i + 4 <= s.len() {
        match (hex_value(s[i]), hex_value(s[i + 1]), hex_value(s[i + 2]), hex_value(s[i + 3])) {
            (Some(a), Some(b), Some(c), Some(d)) => Some(
                ((a * 4096 + b * 256 + c * 16 + d) as u32),
            ),
            _ => None,
        }
    } else {
        None
    }
}

/// The character denoted by an escape sequence whose introducing backslash
/// stands just before position `i`, with the position after the sequence.
/// A `\u` escape naming a high surrogate must be followed by a `\u` escape
/// naming a low surrogate; the pair denotes one supplementary character.
pub open spec fn parse_escape(s: Seq<char>, i: int) -> Option<(char, int)> {
    if i < 0 || i >= s.len() {
        None
    } else {
        let c = s[i];
        if c == '"' {
            Some(('"', i + 1))
        } else if c == '\\' {
            Some(('\\', i + 1))
        } else if c == '/' {
            Some(('/', i + 1))
        } else if c == 'b' {
            Some(('\u{8}', i + 1))
        } else if c == 'f' {
            Some(('\u{C}', i + 1))
        } else if c == 'n' {
            Some(('\n', i + 1))
        } else if c == 'r' {
            Some(('\r', i + 1))
        } else if c == 't' {
            Some(('\t', i + 1))
        } else if c == 'u' {
            match parse_u_hex(s, i + 1) {
                None => None,
                Some(u) => if u < 0xD800 || u > 0xDFFF {
                    Some(((u as char), i + 5))
                } else if u <= 0xDBFF {
                    if i + 11 <= s.len() && s[i + 5] == '\\' && s[i + 6] == 'u' {
                        match parse_u_hex(s, i + 7) {
                            None => None,
                            Some(lo) => if 0xDC00 <= lo && lo <= 0xDFFF {
                                Some(
                                    ((0x10000 + (u - 0xD800) * 0x400 + (lo
                                        - 0xDC00)) as u32 as char, i + 11),
                                )
                            } else {
                                None
                            },
                        }
                    } else {
                        None
                    }
                } else {
                    None
                },
            }
        } else {
            None
        }
    }
}

pub proof fn lemma_parse_escape_bounds(s: Seq<char>, i: int)
    ensures
        parse_escape(s, i) matches Some(p) ==> i < p.1 <= s.len(),
{
}

/// The characters of a string literal body starting at `i` (just after the
/// opening quote), with the position after the closing quote. Unescaped
/// control characters are refused.
pub open spec fn parse_string_body(s: Seq<char>, i: int) -> Option<(Seq<char>, int)>
    decreases s.len() - i,
{
    if i < 0 || i >= s.len() {
        None
    } else if s[i] == '"' {
        Some((Seq::empty(), i + 1))
    } else if s[i] == '\\' {
        match parse_escape(s, i + 1) {
            None => None,
            Some((c, j)) => {
                proof {
                    lemma_parse_escape_bounds(s, i + 1);
                }
                match parse_string_body(s, j) {
                    None => None,
                    Some((rest, k)) => Some((seq![c] + rest, k)),
                }
            },
        }
    } else if (s[i] as u32) < 32 {
        None
    } else {
        match parse_string_body(s, i + 1) {
            None => None,
            Some((rest, k)) => Some((seq![s[i]] + rest, k)),
        }
    }
}

pub proof fn lemma_parse_string_body_bounds(s: Seq<char>, i: int)
    ensures
        parse_string_body(s, i) matches Some(p) ==> i < p.1 <= s.len(),
    decreases s.len() - i,
{
    if 0 <= i && i < s.len() && s[i] == '\\' {
        lemma_parse_escape_bounds(s, i + 1);
        match parse_escape(s, i + 1) {
            None => {},
            Some((c, j)) => {
                lemma_parse_string_body_bounds(s, j);
            },
        }
    } else if 0 <= i && i < s.len() {
        lemma_parse_string_body_bounds(s, i + 1);
    }
}

/// A whole string literal (opening quote at `i`), with the position after it.
pub open spec fn parse_quoted(s: Seq<char>, i: int) -> Option<(Seq<char>, int)> {
    if 0 <= i && i < s.len() && s[i] == '"' {
        parse_string_body(s, i + 1)
    } else {
        None
    }
}

pub proof fn lemma_parse_quoted_bounds(s: Seq<char>, i: int)
    ensures
        parse_quoted(s, i) matches Some(p) ==> i < p.1 <= s.len(),
{
    if 0 <= i && i < s.len() && s[i] == '"' {
        lemma_parse_string_body_bounds(s, i + 1);
    }
}

/// The members of an object from the first key (at `i`, whitespace already
/// skipped) through the closing brace, with the position after the brace.
pub open spec fn parse_members(s: Seq<char>, i: int) -> Option<(Seq<(Seq<char>, Seq<char>)>, int)>
    decreases s.len() - i,
{
    match parse_quoted(s, i) {
        None => None,
        Some((key, j)) => {
            proof {
                lemma_parse_quoted_bounds(s, i);
            }
            let j2 = skip_ws(s, j);
            if j2 < s.len() && s[j2] == ':' {
                proof {
                    lemma_skip_ws_bounds(s, j);
                }
                let j3 = skip_ws(s, j2 + 1);
                match parse_quoted(s, j3) {
                    None => None,
                    Some((val, k)) => {
                        proof {
                            lemma_skip_ws_bounds(s, j2 + 1);
                            lemma_parse_quoted_bounds(s, j3);
                        }
                        let k2 = skip_ws(s, k);
                        if k2 < s.len() && s[k2] == ',' {
                            proof {
                                lemma_skip_ws_bounds(s, k);
                                lemma_skip_ws_bounds(s, k2 + 1);
                            }
                            match parse_members(s, skip_ws(s, k2 + 1)) {
                                None => None,
                                Some((rest, m)) => Some((seq![(key, val)] + rest, m)),
                            }
                        } else if k2 < s.len() && s[k2] == '}' {
                            Some((seq![(key, val)], k2 + 1))
                        } else {
                            None
                        }
                    },
                }
            } else {
                None
            }
        },
    }
}

/// The fields of an argument payload: a single object of string-valued
/// fields, surrounded by nothing but whitespace. `None` on any other text.
pub open spec fn parse_object(s: Seq<char>) -> Option<Seq<(Seq<char>, Seq<char>)>> {
    let i = skip_ws(s, 0);
    if i < s.len() && s[i] == '{' {
        let j = skip_ws(s, i + 1);
        if j < s.len() && s[j] == '}' {
            if skip_ws(s, j + 1) == s.len() {
                Some(Seq::empty())
            } else {
                None
            }
        } else {
            match parse_members(s, j) {
                None => None,
                Some((pairs, k)) => if skip_ws(s, k) == s.len() {
                    Some(pairs)
                } else {
                    None
                },
            }
        }
    } else {
        None
    }
}

// ---------------------------------------------------------------------------
// Parsing: executable
// ---------------------------------------------------------------------------
fn is_ws_char(c: char) -> (r: bool)
    ensures
        r == is_ws(c),
{
    c == ' ' || c == '\t' || c == '\n' || c == '\r'
}

fn skip_ws_at(s: &Vec<char>, i: usize) -> (r: usize)
    requires
        i <= s.len(),
    ensures
        r as int == skip_ws(s@, i as int),
        i <= r <= s.len(),
{
    let mut j = i;
    while j < s.len() && is_ws_char(s[j])
        invariant
            i <= j <= s.len(),
            skip_ws(s@, i as int) == skip_ws(s@, j as int),
        decreases s.len() - j,
    {
        j = j + 1;
    }
    j
}

fn hex_value_at(c: char) -> (r: Option<u32>)
    ensures
        r == hex_value(c),
{
    let u = c as u32;
    if 48 <= u && u <= 57 {
        Some(u - 48)
    } else if 97 <= u && u <= 102 {
        Some(u - 87)
    } else if 65 <= u && u <= 70 {
        Some(u - 55)
    } else {
        None
    }
}

fn take_u_hex(s: &Vec<char>, i: usize) -> (r: Option<u32>)
    requires
        i <= s.len(),
    ensures
        r == parse_u_hex(s@, i as int),
        r matches Some(u) ==> u <= 0xFFFF,
{
    if s.len() >= 4 && i <= s.len() - 4 {
        let a = hex_value_at(s[i]);
        let b = hex_value_at(s[i + 1]);
        let c = hex_value_at(s[i + 2]);
        let d = hex_value_at(s[i + 3]);
        match (a, b, c, d) {
            (Some(a), Some(b), Some(c), Some(d)) => Some(a * 4096 + b * 256 + c * 16 + d),
            _ => None,
        }
    } else {
        None
    }
}

/// Relies on `char::from_u32`: `Some` exactly on Unicode scalar values,
/// returning the character with that code point.
#[verifier::external_body]
fn char_from_code_point(u: u32) -> (r: Option<char>)
    ensures
        r is Some <==> (u < 0xD800 || (0xE000 <= u && u <= 0x10FFFF)),
        r matches Some(c) ==> c as u32 == u,
{
    char::from_u32(u)
}

fn take_escape(s: &Vec<char>, i: usize) -> (r: Option<(char, usize)>)
    requires
        i <= s.len(),
    ensures
        r is None <==> parse_escape(s@, i as int) is None,
        r matches Some(p) ==> parse_escape(s@, i as int) == Some((p.0, p.1 as int)) && i < p.1
            <= s.len(),
{
    proof {
        lemma_parse_escape_bounds(s@, i as int);
    }
    if i >= s.len() {
        return None;
    }
    let c = s[i];
    if c == '"' {
        Some(('"', i + 1))
    } else if c == '\\' {
        Some(('\\', i + 1))
    } else if c == '/' {
        Some(('/', i + 1))
    } else if c == 'b' {
        Some(('\u{8}', i + 1))
    } else if c == 'f' {
        Some(('\u{C}', i + 1))
    } else if c == 'n' {
        Some(('\n', i + 1))
    } else if c == 'r' {
        Some(('\r', i + 1))
    } else if c == 't' {
        Some(('\t', i + 1))
    } else if c == 'u' {
        match take_u_hex(s, i + 1) {
            None => None,
            Some(u) => {
                if u < 0xD800 || u > 0xDFFF {
                    let ch = char_from_code_point(u);
                    match ch {
                        None => {
                            proof {
                                assert(false);
                            }
                            None
                        },
                        Some(ch) => {
                            proof {
                                vstd::utf8::char_u32_cast(ch, u);
                            }
                            Some((ch, i + 5))
                        },
                    }
                } else if u <= 0xDBFF {
                    if s.len() >= 11 && i <= s.len() - 11 && s[i + 5] == '\\' && s[i + 6] == 'u' {
                        match take_u_hex(s, i + 7) {
                            None => None,
                            Some(lo) => {
                                if 0xDC00 <= lo && lo <= 0xDFFF {
                                    let cp = 0x10000 + (u - 0xD800) * 0x400 + (lo - 0xDC00);
                                    let ch = char_from_code_point(cp);
                                    match ch {
                                        None => {
                                            proof {
                                                assert(false);
                                            }
                                            None
                                        },
                                        Some(ch) => {
                                            proof {
                                                vstd::utf8::char_u32_cast(ch, cp);
                                            }
                                            Some((ch, i + 11))
                                        },
                                    }
                                } else {
                                    None
                                }
                            },
                        }
                    } else {
                        None
                    }
                } else {
                    None
                }
            },
        }
    } else {
        None
    }
}

fn take_string_body(s: &Vec<char>, i0: usize) -> (r: Option<(Vec<char>, usize)>)
    requires
        i0 <= s.len(),
    ensures
        r is None <==> parse_string_body(s@, i0 as int) is None,
        r matches Some(p) ==> parse_string_body(s@, i0 as int) == Some((p.0@, p.1 as int)) && p.1
            <= s.len(),
{
    let mut acc: Vec<char> = Vec::new();
    let mut i = i0;
    proof {
        lemma_parse_string_body_bounds(s@, i0 as int);
    }
    loop
        invariant
            i <= s.len(),
            parse_string_body(s@, i as int) is None ==> parse_string_body(s@, i0 as int) is None,
            parse_string_body(s@, i as int) matches Some(p) ==> parse_string_body(s@, i0 as int)
                == Some((acc@ + p.0, p.1)),
            parse_string_body(s@, i0 as int) matches Some(p) ==> p.1 <= s@.len(),
        decreases s.len() - i,
    {
        if i >= s.len() {
            return None;
        }
        let c = s[i];
        if c == '"' {
            proof {
                assert(parse_string_body(s@, i as int) == Some((Seq::<char>::empty(), i + 1 as int)));
                assert(acc@ + Seq::<char>::empty() =~= acc@);
            }
            return Some((acc, i + 1));
        } else if c == '\\' {
            match take_escape(s, i + 1) {
                None => {
                    return None;
                },
                Some((ch, j)) => {
                    proof {
                        let iold = i as int;
                        match parse_string_body(s@, j as int) {
                            Some(p) => {
                                assert(parse_string_body(s@, iold) == Some((seq![ch] + p.0, p.1)));
                                assert(acc@ + (seq![ch] + p.0) =~= acc@.push(ch) + p.0);
                            },
                            None => {},
                        }
                    }
                    acc.push(ch);
                    i = j;
                },
            }
        } else if (c as u32) < 32 {
            return None;
        } else {
            proof {
                let iold = i as int;
                match parse_string_body(s@, iold + 1) {
                    Some(p) => {
                        assert(parse_string_body(s@, iold) == Some((seq![c] + p.0, p.1)));
                        assert(acc@ + (seq![c] + p.0) =~= acc@.push(c) + p.0);
                    },
                    None => {},
                }
            }
            acc.push(c);
            i = i + 1;
        }
    }
}

fn take_quoted(s: &Vec<char>, i: usize) -> (r: Option<(Vec<char>, usize)>)
    requires
        i <= s.len(),
    ensures
        r is None <==> parse_quoted(s@, i as int) is None,
        r matches Some(p) ==> parse_quoted(s@, i as int) == Some((p.0@, p.1 as int)) && i < p.1
            <= s.len(),
{
    proof {
        lemma_parse_quoted_bounds(s@, i as int);
    }
    if i < s.len() && s[i] == '"' {
        take_string_body(s, i + 1)
    } else {
        None
    }
}

fn take_members(s: &Vec<char>, i0: usize) -> (r: Option<(Vec<RawField>, usize)>)
    requires
        i0 <= s.len(),
    ensures
        r is None <==> parse_members(s@, i0 as int) is None,
        r matches Some(p) ==> parse_members(s@, i0 as int) == Some((raw_fields_model(p.0@), p.1 as int))
            && p.1 <= s.len(),
{
    let mut acc: Vec<RawField> = Vec::new();
    let mut i = i0;
    proof {
        assert(raw_fields_model(acc@) =~= Seq::<(Seq<char>, Seq<char>)>::empty());
        match parse_members(s@, i0 as int) {
            Some(p) => {
                assert(raw_fields_model(acc@) + p.0 =~= p.0);
            },
            None => {},
        }
    }
    loop
        invariant
            i <= s.len(),
            parse_members(s@, i as int) is None ==> parse_members(s@, i0 as int) is None,
            parse_members(s@, i as int) matches Some(p) ==> parse_members(s@, i0 as int) == Some(
                (raw_fields_model(acc@) + p.0, p.1),
            ),
        decreases s.len() - i,
    {
        let ghost iold = i as int;
        let kj = match take_quoted(s, i) {
            None => {
                return None;
            },
            Some(kj) => kj,
        };
        let (key, j) = kj;
        let j2 = skip_ws_at(s, j);
        if j2 >= s.len() || s[j2] != ':' {
            return None;
        }
        let j3 = skip_ws_at(s, j2 + 1);
        let vk = match take_quoted(s, j3) {
            None => {
                return None;
            },
            Some(vk) => vk,
        };
        let (val, k) = vk;
        let k2 = skip_ws_at(s, k);
        let ghost pair = (key@, val@);
        let field = RawField { key: string_from_chars(key), value: string_from_chars(val) };
        if k2 < s.len() && s[k2] == ',' {
            let inext = skip_ws_at(s, k2 + 1);
            proof {
                assert(raw_fields_model(acc@.push(field)) =~= raw_fields_model(acc@) + seq![pair]);
                match parse_members(s@, inext as int) {
                    Some(p) => {
                        assert(parse_members(s@, iold) == Some((seq![pair] + p.0, p.1)));
                        assert((raw_fields_model(acc@) + (seq![pair] + p.0)) =~= (raw_fields_model(
                            acc@,
                        ) + seq![pair]) + p.0);
                    },
                    None => {},
                }
            }
            acc.push(field);
            i = inext;
        } else if k2 < s.len() && s[k2] == '}' {
            proof {
                assert(parse_members(s@, iold) == Some((seq![pair], k2 + 1 as int)));
                assert(raw_fields_model(acc@.push(field)) =~= raw_fields_model(acc@) + seq![pair]);
            }
            acc.push(field);
            return Some((acc, k2 + 1));
        } else {
            return None;
        }
    }
}

/// Decode argument text into the fields of a flat string-valued object,
/// exactly when the text lies in the accepted grammar.
pub fn parse_flat_object(raw: &str) -> (r: Option<Vec<RawField>>)
    ensures
        r is None <==> parse_object(raw@) is None,
        r matches Some(v) ==> parse_object(raw@) == Some(raw_fields_model(v@)),
{
    let s = str_to_chars(raw);
    let i = skip_ws_at(&s, 0);
    if i < s.len() && s[i] == '{' {
        let j = skip_ws_at(&s, i + 1);
        if j < s.len() && s[j] == '}' {
            if skip_ws_at(&s, j + 1) == s.len() {
                proof {
                    assert(raw_fields_model(Seq::<RawField>::empty()) =~= Seq::<(
                        Seq<char>,
                        Seq<char>,
                    )>::empty());
                }
                Some(Vec::new())
            } else {
                None
            }
        } else {
            match take_members(&s, j) {
                None => None,
                Some((fields, k)) => {
                    if skip_ws_at(&s, k) == s.len() {
                        Some(fields)
                    } else {
                        None
                    }
                },
            }
        }
    } else {
        None
    }
}

// ---------------------------------------------------------------------------
// Field lookup
// ---------------------------------------------------------------------------
/// How many fields carry the key, from position `i` on.
pub open spec fn key_count_from(pairs: Seq<(Seq<char>, Seq<char>)>, k: Seq<char>, i: int) -> nat
    decreases pairs.len() - i,
{
    if i < 0 || i >= pairs.len() {
        0
    } else {
        (if pairs[i].0 == k {
            1nat
        } else {
            0nat
        }) + key_count_from(pairs, k, i + 1)
    }
}

pub open spec fn key_count(pairs: Seq<(Seq<char>, Seq<char>)>, k: Seq<char>) -> nat {
    key_count_from(pairs, k, 0)
}

/// The value of the first field with the key, from position `i` on.
pub open spec fn key_first_from(pairs: Seq<(Seq<char>, Seq<char>)>, k: Seq<char>, i: int) -> Seq<
    char,
>
    decreases pairs.len() - i,
{
    if i < 0 || i >= pairs.len() {
        Seq::empty()
    } else if pairs[i].0 == k {
        pairs[i].1
    } else {
        key_first_from(pairs, k, i + 1)
    }
}

pub open spec fn key_first(pairs: Seq<(Seq<char>, Seq<char>)>, k: Seq<char>) -> Seq<char> {
    key_first_from(pairs, k, 0)
}

/// Whether two string slices hold the same characters.
pub fn str_eq(a: &str, b: &str) -> (r: bool)
    ensures
        r == (a@ == b@),
{
    let n = a.unicode_len();
    let m = b.unicode_len();
    if n != m {
        return false;
    }
    let mut i: usize = 0;
    while i < n
        invariant
            i <= n,
            n == a@.len() == b@.len(),
            forall|j: int| 0 <= j < i ==> a@[j] == b@[j],
        decreases n - i,
    {
        if a.get_char(i) != b.get_char(i) {
            return false;
        }
        i = i + 1;
    }
    proof {
        assert(a@ =~= b@);
    }
    true
}

/// The value of the field named `key`, provided exactly one field carries
/// that key; `None` when the key is missing or repeated.
pub fn take_unique(fields: &Vec<RawField>, key: &str) -> (r: Option<String>)
    ensures
        r is Some <==> key_count(raw_fields_model(fields@), key@) == 1,
        r matches Some(v) ==> v@ == key_first(raw_fields_model(fields@), key@),
{
    let ghost model = raw_fields_model(fields@);
    let mut cnt: usize = 0;
    let mut found: Option<String> = None;
    let mut i: usize = 0;
    while i < fields.len()
        invariant
            i <= fields.len(),
            model == raw_fields_model(fields@),
            model.len() == fields@.len(),
            cnt <= i,
            key_count(model, key@) == cnt + key_count_from(model, key@, i as int),
            cnt == 0 ==> found is None && key_first(model, key@) == key_first_from(
                model,
                key@,
                i as int,
            ),
            cnt > 0 ==> (found matches Some(v) && v@ == key_first(model, key@)),
        decreases fields.len() - i,
    {
        proof {
            assert(model[i as int] == fields@[i as int]@);
        }
        if str_eq(fields[i].key.as_str(), key) {
            if cnt == 0 {
                found = Some(fields[i].value.clone());
            }
            cnt = cnt + 1;
        }
        i = i + 1;
    }
    if cnt == 1 {
        found
    } else {
        None
    }
}

} // verus!
