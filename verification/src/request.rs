//! Decoding of arithmetic requests from loosely structured text.
//!
//! A request names an operator and up to two operands. The text is searched
//! for labels such as `"op"` or `"a"`; what follows a label is read as far as
//! it looks like a value, and anything missing or malformed falls back to a
//! default. Operands that may be real numbers are handed out as text.

use crate::integer::{decimal_i64, parse_i64};
use crate::text::{
    chars_of, contains, find, first_occurrence, last_occurrence, occurs, pieces, prefix_in, rfind,
    same_text, skip_leading, split, string_of, take_leading, texts, trim, trim_start, trimmed,
    trimmed_start, without_leading, CharClass,
};
use vstd::prelude::*;
use vstd::slice::slice_to_vec;

verus! {

/// `key` between double quotes: the form in which a label stands in the text.
pub open spec fn quoted(key: Seq<char>) -> Seq<char> {
    seq!['"'] + key + seq!['"']
}

/// The label of an integer field: the quoted key with the colon right behind
/// it.
pub open spec fn integer_label(key: Seq<char>) -> Seq<char> {
    quoted(key) + seq![':']
}

/// The integer that stands behind the last label of `key` in `json`.
///
/// Behind the label, the longest run of numeric characters, spaces and minus
/// signs is taken and the white space at its ends dropped. The field is the
/// integer that this text writes, and zero where there is no label or where
/// the text writes no integer of 64 bits.
pub open spec fn integer_field(json: Seq<char>, key: Seq<char>) -> i64 {
    match last_occurrence(json, integer_label(key)) {
        Some(pos) => {
            let rest = json.skip(pos + integer_label(key).len());
            match decimal_i64(trimmed(prefix_in(rest, CharClass::IntegerText))) {
                Some(v) => v,
                None => 0,
            }
        },
        None => 0,
    }
}

/// The text of the value of `key` in `s`: what follows the first colon behind
/// the first quoted `key`, without the white space at its start. There is none
/// where the quoted key, or a colon behind it, is missing.
pub open spec fn value_of(s: Seq<char>, key: Seq<char>) -> Option<Seq<char>> {
    match first_occurrence(s, quoted(key)) {
        Some(pos) => {
            let rest = s.skip(pos + quoted(key).len());
            match first_occurrence(rest, seq![':']) {
                Some(colon) => Some(trimmed_start(rest.skip(colon + 1))),
                None => None,
            }
        },
        None => None,
    }
}

/// What stands between the double quote that opens `v` and the next one.
/// There is none where `v` does not open with a double quote or where no
/// second one closes it.
pub open spec fn quoted_content(v: Seq<char>) -> Option<Seq<char>> {
    if v.len() > 0 && v[0] == '"' {
        match first_occurrence(v.skip(1), seq!['"']) {
            Some(end) => Some(v.skip(1).take(end)),
            None => None,
        }
    } else {
        None
    }
}

/// The name that a request carries where it names no operator.
pub open spec fn default_operator_name() -> Seq<char> {
    "add"@
}

/// The string that stands as the value of `key` in `s`, and the default
/// operator name where `key` has no value or its value is no quoted string.
pub open spec fn string_field(s: Seq<char>, key: Seq<char>) -> Seq<char> {
    match value_of(s, key) {
        Some(v) => match quoted_content(v) {
            Some(content) => content,
            None => default_operator_name(),
        },
        None => default_operator_name(),
    }
}

/// The text of the real number that stands as the value of `key` in `s`: the
/// longest run of numeric characters, points, signs and letters `e` at the
/// start of the value, without white space at its ends. There is none where
/// `key` has no value.
pub open spec fn real_field_text(s: Seq<char>, key: Seq<char>) -> Option<Seq<char>> {
    match value_of(s, key) {
        Some(v) => Some(trimmed(prefix_in(v, CharClass::RealText))),
        None => None,
    }
}

/// Puts `key` between double quotes.
pub fn quote(key: &[char]) -> (label: Vec<char>)
    ensures
        label@ == quoted(key@),
{
    let mut label: Vec<char> = Vec::new();
    label.push('"');
    let mut i: usize = 0;
    while i < key.len()
        invariant
            i <= key.len(),
            label@ == seq!['"'] + key@.take(i as int),
        decreases key.len() - i,
    {
        label.push(key[i]);
        i += 1;
    }
    label.push('"');
    label
}

/// Finds the text of the value of `key` in `s`.
pub fn value_after<'a>(s: &'a [char], key: &[char]) -> (r: Option<&'a [char]>)
    ensures
        match r {
            Some(v) => value_of(s@, key@) == Some(v@),
            None => value_of(s@, key@) is None,
        },
{
    let label = quote(key);
    let colon: Vec<char> = vec![':'];
    assert(colon@ =~= seq![':']);
    match find(s, label.as_slice()) {
        Some(pos) => {
            let rest = &s[pos + label.len()..s.len()];
            match find(rest, colon.as_slice()) {
                Some(at) => Some(trim_start(&rest[at + 1..rest.len()])),
                None => None,
            }
        },
        None => None,
    }
}

/// Reads the quoted string with which `v` opens.
pub fn quoted_text<'a>(v: &'a [char]) -> (r: Option<&'a [char]>)
    ensures
        match r {
            Some(content) => quoted_content(v@) == Some(content@),
            None => quoted_content(v@) is None,
        },
{
    if v.len() > 0 && v[0] == '"' {
        let content = &v[1..v.len()];
        let quote_mark: Vec<char> = vec!['"'];
        assert(quote_mark@ =~= seq!['"']);
        match find(content, quote_mark.as_slice()) {
            Some(end) => Some(&content[0..end]),
            None => None,
        }
    } else {
        None
    }
}

/// Reads the integer field `key` of `json`; zero where it is missing or
/// malformed.
pub fn get_int_from_json(json: &str, key: &str) -> (r: i64)
    ensures
        r == integer_field(json@, key@),
{
    let text = chars_of(json);
    let mut label = quote(chars_of(key).as_slice());
    label.push(':');
    assert(label@ =~= integer_label(key@));
    let s = text.as_slice();
    match rfind(s, label.as_slice()) {
        Some(pos) => {
            let rest = &s[pos + label.len()..s.len()];
            match parse_i64(trim(take_leading(rest, CharClass::IntegerText))) {
                Some(v) => v,
                None => 0,
            }
        },
        None => 0,
    }
}

/// Reads the string field `key` of `s`; the default operator name where it is
/// missing or malformed.
pub fn string_text(s: &[char], key: &[char]) -> (r: Vec<char>)
    ensures
        r@ == string_field(s@, key@),
{
    let content: Option<&[char]> = match value_after(s, key) {
        Some(v) => quoted_text(v),
        None => None,
    };
    match content {
        Some(name) => slice_to_vec(name),
        None => chars_of("add"),
    }
}

/// Reads the string field `key` of `s`; the default operator name where it is
/// missing or malformed.
pub fn parse_string(s: &str, key: &str) -> (r: String)
    ensures
        r@ == string_field(s@, key@),
{
    string_of(string_text(chars_of(s).as_slice(), chars_of(key).as_slice()).as_slice())
}

/// Reads the text of the real field `key` of `s`.
pub fn real_text(s: &[char], key: &[char]) -> (r: Option<String>)
    ensures
        match r {
            Some(t) => real_field_text(s@, key@) == Some(t@),
            None => real_field_text(s@, key@) is None,
        },
{
    match value_after(s, key) {
        Some(v) => Some(string_of(trim(take_leading(v, CharClass::RealText)))),
        None => None,
    }
}

/// Reads the text of the real field `key` of `s`, for the caller to convert.
/// `None` says that the field is missing; a text that writes no number says
/// that it is malformed.
pub fn parse_value_text(s: &str, key: &str) -> (r: Option<String>)
    ensures
        match r {
            Some(t) => real_field_text(s@, key@) == Some(t@),
            None => real_field_text(s@, key@) is None,
        },
{
    real_text(chars_of(s).as_slice(), chars_of(key).as_slice())
}

/// The sum of the integer fields `a` and `b` of `context`.
pub open spec fn operand_sum(context: Seq<char>) -> int {
    integer_field(context, "a"@) + integer_field(context, "b"@)
}

/// Adds the integer fields `a` and `b` of `context`; `None` where the sum does
/// not fit in 64 bits with a sign.
pub fn sum_of_operands(context: &str) -> (r: Option<i64>)
    ensures
        match r {
            Some(sum) => sum == operand_sum(context@),
            None => operand_sum(context@) < i64::MIN || operand_sum(context@) > i64::MAX,
        },
{
    let a = get_int_from_json(context, "a");
    let b = get_int_from_json(context, "b");
    a.checked_add(b)
}

/// The operations that a request can ask for.
#[derive(Clone, Copy, Debug, PartialEq, Eq, Structural)]
pub enum Operator {
    /// The sum of both operands.
    Add,
    /// The product of both operands.
    Mul,
    /// The sine of the first operand.
    Sin,
    /// The cosine of the first operand.
    Cos,
    /// A name that stands for no operation; its result is zero.
    Unknown,
}

/// The operator that `name` stands for.
pub open spec fn operator_named(name: Seq<char>) -> Operator {
    if name == "add"@ {
        Operator::Add
    } else if name == "mul"@ {
        Operator::Mul
    } else if name == "sin"@ {
        Operator::Sin
    } else if name == "cos"@ {
        Operator::Cos
    } else {
        Operator::Unknown
    }
}

/// Tells which operator `name` stands for.
pub fn operator_of(name: &[char]) -> (op: Operator)
    ensures
        op == operator_named(name@),
{
    if same_text(name, chars_of("add").as_slice()) {
        Operator::Add
    } else if same_text(name, chars_of("mul").as_slice()) {
        Operator::Mul
    } else if same_text(name, chars_of("sin").as_slice()) {
        Operator::Sin
    } else if same_text(name, chars_of("cos").as_slice()) {
        Operator::Cos
    } else {
        Operator::Unknown
    }
}

impl Operator {
    /// Tells which operator `name` stands for.
    pub fn from_name(name: &str) -> (op: Operator)
        ensures
            op == operator_named(name@),
    {
        operator_of(chars_of(name).as_slice())
    }
}

/// One decoded request: its operator and the texts of its operands.
#[derive(Debug, PartialEq, Eq)]
pub struct Request {
    /// The operation asked for.
    pub operator: Operator,
    /// The text of the operand `a`, where the request has one.
    pub first: Option<String>,
    /// The text of the operand `b`, where the request has one.
    pub second: Option<String>,
}

/// What a `Request` holds, with its texts as sequences of characters.
pub struct RequestText {
    /// The operation asked for.
    pub operator: Operator,
    /// The text of the operand `a`, where the request has one.
    pub first: Option<Seq<char>>,
    /// The text of the operand `b`, where the request has one.
    pub second: Option<Seq<char>>,
}

/// The characters of an optional string.
pub open spec fn optional_text(t: Option<String>) -> Option<Seq<char>> {
    match t {
        Some(s) => Some(s@),
        None => None,
    }
}

impl View for Request {
    type V = RequestText;

    open spec fn view(&self) -> RequestText {
        RequestText {
            operator: self.operator,
            first: optional_text(self.first),
            second: optional_text(self.second),
        }
    }
}

/// What a sequence of requests holds.
pub open spec fn request_texts(requests: Seq<Request>) -> Seq<RequestText> {
    requests.map_values(|r: Request| r@)
}

/// The request that `input` holds when it holds a single one: the operator
/// named by its string field `op`, and its real fields `a` and `b`.
pub open spec fn single_request(input: Seq<char>) -> RequestText {
    RequestText {
        operator: operator_named(string_field(input, "op"@)),
        first: real_field_text(input, "a"@),
        second: real_field_text(input, "b"@),
    }
}

/// The mark at which the text of a batch is cut: the end of each label `"op"`.
pub open spec fn segment_mark() -> Seq<char> {
    "op\""@
}

/// The operator name at the start of a segment: behind white space, colons
/// and white space again, a quoted string; the default name where none
/// stands there.
pub open spec fn segment_operator_name(part: Seq<char>) -> Seq<char> {
    let value = trimmed_start(without_leading(trimmed_start(part), CharClass::Colon));
    match quoted_content(value) {
        Some(content) => content,
        None => default_operator_name(),
    }
}

/// The request that one segment of a batch holds.
pub open spec fn segment_request(part: Seq<char>) -> RequestText {
    RequestText {
        operator: operator_named(segment_operator_name(part)),
        first: real_field_text(part, "a"@),
        second: real_field_text(part, "b"@),
    }
}

/// The requests of a batch: one for each piece of `input` behind a segment
/// mark, in their order.
pub open spec fn batch_requests(input: Seq<char>) -> Seq<RequestText> {
    pieces(input, segment_mark()).skip(1).map_values(|part: Seq<char>| segment_request(part))
}

/// Whether `input` carries the batch flag, written with or without a space
/// behind the colon.
pub open spec fn has_batch_flag(input: Seq<char>) -> bool {
    occurs(input, "\"batch\": true"@) || occurs(input, "\"batch\":true"@)
}

/// Decodes the single request of `input`.
pub fn decode_single(input: &[char]) -> (r: Request)
    ensures
        r@ == single_request(input@),
{
    let operator = operator_of(string_text(input, chars_of("op").as_slice()).as_slice());
    Request {
        operator,
        first: real_text(input, chars_of("a").as_slice()),
        second: real_text(input, chars_of("b").as_slice()),
    }
}

/// Decodes the request of one segment of a batch.
pub fn decode_segment(part: &[char]) -> (r: Request)
    ensures
        r@ == segment_request(part@),
{
    let value = trim_start(skip_leading(trim_start(part), CharClass::Colon));
    let operator = match quoted_text(value) {
        Some(content) => operator_of(content),
        None => operator_of(chars_of("add").as_slice()),
    };
    Request {
        operator,
        first: real_text(part, chars_of("a").as_slice()),
        second: real_text(part, chars_of("b").as_slice()),
    }
}

/// Decodes the requests of a batch.
pub fn decode_batch(input: &[char]) -> (requests: Vec<Request>)
    ensures
        request_texts(requests@) == batch_requests(input@),
{
    let parts = split(input, chars_of("op\"").as_slice());
    let ghost cut = pieces(input@, segment_mark());
    assert(parts@.len() == texts(parts@).len());
    let mut requests: Vec<Request> = Vec::new();
    let mut i: usize = 1;
    while i < parts.len()
        invariant
            1 <= i <= parts.len(),
            texts(parts@) == cut,
            requests@.len() == i - 1,
            forall|j: int|
                0 <= j < i - 1 ==> (#[trigger] requests@[j])@ == segment_request(cut[j + 1]),
        decreases parts.len() - i,
    {
        let r = decode_segment(parts[i].as_slice());
        requests.push(r);
        i += 1;
    }
    requests
}

/// Whether `input` carries the batch flag.
pub fn has_flag(input: &[char]) -> (r: bool)
    ensures
        r == has_batch_flag(input@),
{
    contains(input, chars_of("\"batch\": true").as_slice()) || contains(
        input,
        chars_of("\"batch\":true").as_slice(),
    )
}

/// Whether `input` carries the batch flag.
pub fn is_batch(input: &str) -> (r: bool)
    ensures
        r == has_batch_flag(input@),
{
    has_flag(chars_of(input).as_slice())
}

/// What a text decodes to: one request, or the requests of a batch.
#[derive(Debug, PartialEq, Eq)]
pub enum Decoded {
    /// The one request of a text without the batch flag.
    Single(Request),
    /// The requests of a text with the batch flag, in their order.
    Batch(Vec<Request>),
}

/// What a `Decoded` holds.
pub enum DecodedText {
    /// The one request of a text without the batch flag.
    Single(RequestText),
    /// The requests of a text with the batch flag, in their order.
    Batch(Seq<RequestText>),
}

impl View for Decoded {
    type V = DecodedText;

    open spec fn view(&self) -> DecodedText {
        match self {
            Decoded::Single(r) => DecodedText::Single(r@),
            Decoded::Batch(rs) => DecodedText::Batch(request_texts(rs@)),
        }
    }
}

/// What `input` decodes to: a batch where it carries the batch flag, a
/// single request where it does not.
pub open spec fn decoded(input: Seq<char>) -> DecodedText {
    if has_batch_flag(input) {
        DecodedText::Batch(batch_requests(input))
    } else {
        DecodedText::Single(single_request(input))
    }
}

/// Decodes `input`.
pub fn decode(input: &str) -> (d: Decoded)
    ensures
        d@ == decoded(input@),
{
    let text = chars_of(input);
    if has_flag(text.as_slice()) {
        Decoded::Batch(decode_batch(text.as_slice()))
    } else {
        Decoded::Single(decode_single(text.as_slice()))
    }
}

} // verus!
