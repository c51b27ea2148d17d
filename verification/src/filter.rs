//! Filters: the predicate tree handed to the query engine, and the
//! translation of a parsed `$filter` into it.
use vstd::prelude::*;
use vstd::string::*;
use odata_params::filters::{CompareOperator, Expr, ParseError, Value};
use crate::error::{ErrorKind, FilterParsingError, ODataError, UnsupportedFeature};
use crate::text::{parse_i64, parsed_i64};

verus! {

/// `odata_params::filters::Expr`, the tree of a parsed filter, with its
/// variants as `odata_params` declares them.
#[verifier::external_type_specification]
pub struct ExExpr(Expr);

/// `odata_params::filters::CompareOperator`, with its variants as
/// `odata_params` declares them.
#[verifier::external_type_specification]
pub struct ExCompareOperator(CompareOperator);

/// `odata_params::filters::ParseError`, with its variants as `odata_params`
/// declares them.
#[verifier::external_type_specification]
pub struct ExParseError(ParseError);

/// `odata_params::filters::Value`, a parsed constant, carried as it is: it
/// holds numbers, dates and UUIDs of other crates, and nothing is known of
/// what is in it but through the functions below.
#[verifier::external_type_specification]
#[verifier::external_body]
pub struct ExValue(Value);

/// A comparison between two values.
#[derive(Clone, Copy, Debug, PartialEq, Eq, Structural)]
pub enum CompareOp {
    Eq,
    NotEq,
    Lt,
    Gt,
    LtEq,
    GtEq,
}

/// A typed constant of a filter.
#[derive(Clone, Debug, PartialEq, Eq)]
pub enum Literal {
    String(String),
    Bool(bool),
    Null,
    Int64(i64),
    /// An instant, in seconds since the Unix epoch.
    EpochSeconds(i64),
    /// A UUID, as its text.
    Uuid(String),
}

/// A predicate or value tree in the query engine's terms.
#[derive(Debug, PartialEq, Eq)]
pub enum Expression {
    And(Box<Expression>, Box<Expression>),
    Or(Box<Expression>, Box<Expression>),
    Not(Box<Expression>),
    Compare(CompareOp, Box<Expression>, Box<Expression>),
    In(Box<Expression>, Vec<Expression>),
    Identifier(String),
    Literal(Literal),
}

/// A constant, with its texts as character sequences.
pub enum LiteralView {
    String(Seq<char>),
    Bool(bool),
    Null,
    Int64(i64),
    EpochSeconds(i64),
    Uuid(Seq<char>),
}

/// A tree, with its texts as character sequences.
pub enum ExprView {
    And(Box<ExprView>, Box<ExprView>),
    Or(Box<ExprView>, Box<ExprView>),
    Not(Box<ExprView>),
    Compare(CompareOp, Box<ExprView>, Box<ExprView>),
    In(Box<ExprView>, Seq<ExprView>),
    Identifier(Seq<char>),
    Literal(LiteralView),
}

impl View for Literal {
    type V = LiteralView;

    open spec fn view(&self) -> LiteralView {
        match self {
            Literal::String(s) => LiteralView::String(s@),
            Literal::Bool(b) => LiteralView::Bool(*b),
            Literal::Null => LiteralView::Null,
            Literal::Int64(v) => LiteralView::Int64(*v),
            Literal::EpochSeconds(v) => LiteralView::EpochSeconds(*v),
            Literal::Uuid(s) => LiteralView::Uuid(s@),
        }
    }
}

/// A tree, with its texts as character sequences.
pub open spec fn expr_view(e: Expression) -> ExprView
    decreases e,
{
    match e {
        Expression::And(l, r) => ExprView::And(Box::new(expr_view(*l)), Box::new(expr_view(*r))),
        Expression::Or(l, r) => ExprView::Or(Box::new(expr_view(*l)), Box::new(expr_view(*r))),
        Expression::Not(inner) => ExprView::Not(Box::new(expr_view(*inner))),
        Expression::Compare(op, l, r) => ExprView::Compare(
            op,
            Box::new(expr_view(*l)),
            Box::new(expr_view(*r)),
        ),
        Expression::In(item, list) => ExprView::In(
            Box::new(expr_view(*item)),
            Seq::new(
                list@.len(),
                |i: int|
                    if 0 <= i < list@.len() {
                        expr_view(list@[i])
                    } else {
                        ExprView::Literal(LiteralView::Null)
                    },
            ),
        ),
        Expression::Identifier(name) => ExprView::Identifier(name@),
        Expression::Literal(value) => ExprView::Literal(value@),
    }
}

impl View for Expression {
    type V = ExprView;

    open spec fn view(&self) -> ExprView {
        expr_view(*self)
    }
}

/// A list of trees, with their texts as character sequences.
pub open spec fn exprs_view(list: Seq<Expression>) -> Seq<ExprView> {
    Seq::new(list.len(), |i: int| list[i]@)
}

/// What a parsed constant is, as far as it can be read without a
/// computation: its kind, and its content where that is a plain value.
pub enum ValueShape {
    Null,
    Bool(bool),
    Number,
    Uuid,
    DateTime,
    Date,
    Time,
    String(Seq<char>),
}

/// A parsed constant taken apart.
pub enum ValueParts {
    Null,
    Bool(bool),
    Number,
    Uuid,
    DateTime,
    Date,
    Time,
    String(String),
}

impl View for ValueParts {
    type V = ValueShape;

    open spec fn view(&self) -> ValueShape {
        match self {
            ValueParts::Null => ValueShape::Null,
            ValueParts::Bool(b) => ValueShape::Bool(*b),
            ValueParts::Number => ValueShape::Number,
            ValueParts::Uuid => ValueShape::Uuid,
            ValueParts::DateTime => ValueShape::DateTime,
            ValueParts::Date => ValueShape::Date,
            ValueParts::Time => ValueShape::Time,
            ValueParts::String(s) => ValueShape::String(s@),
        }
    }
}

/// How much work reading a filter may take, counted in readings of a
/// character: about a second of the parser's time.
pub const MAX_FILTER_WORK: u64 = 1_000_000;

/// How deep the tree of a filter may be: the parser and every walk over the
/// tree go one call deeper with each level, and a stack of two megabytes
/// holds somewhat over a thousand of them.
pub const MAX_FILTER_DEPTH: u64 = 512;

/// How many digits of a numeral are read at the cost of one reading more for
/// each further digit: the parser's work on a numeral grows with the square
/// of its length.
pub const DIGITS_PER_READING: u64 = 8192;

/// Three to the power of `n`.
pub open spec fn pow3(n: nat) -> nat
    decreases n,
{
    if n == 0 {
        1
    } else {
        3 * pow3((n - 1) as nat)
    }
}

/// Where a scan of a filter text stands.
pub struct Scan {
    /// Inside a quoted string.
    pub quoted: bool,
    /// Right after a backslash inside a quoted string.
    pub escaped: bool,
    /// How many parentheses are open.
    pub open: nat,
    /// How many parentheses were open at most.
    pub deepest: nat,
    /// How many times `or`, `and` or `not` was spelled where it can link.
    pub links: nat,
    /// How many digits the numeral under the scan has so far.
    pub run: nat,
    /// The last three characters outside strings, oldest first, blank where
    /// there is none.
    pub third: char,
    pub before: char,
    pub last: char,
    /// How much work the text has asked for so far.
    pub work: nat,
}

/// Whether a character is a letter or an underscore.
pub open spec fn is_word_char(c: char) -> bool {
    ('A' <= c && c <= 'Z') || ('a' <= c && c <= 'z') || c == '_'
}

/// Whether `or` or `and` right after this character can link two parts. A
/// name swallows the letters that follow it, so after a letter the word can
/// only link where the letter ends a constant: `true`, `false`, `null`, a
/// UUID or a `Z`.
pub open spec fn ends_a_part(c: char) -> bool {
    !is_word_char(c) || ('a' <= c && c <= 'f') || ('A' <= c && c <= 'F') || c == 'l' || c == 'L'
        || c == 'Z'
}

/// Whether `not` right after this character can negate a part: at the start
/// of a part, that is after anything but a letter or a digit, or right after
/// another `or`, `and` or `not`.
pub open spec fn starts_a_part(c: char) -> bool {
    !(is_word_char(c) || ('0' <= c && c <= '9')) || c == 'r' || c == 'd' || c == 't'
}

/// Whether a character completes the spelling of `or`, `and` or `not` in a
/// place where the word can make the tree deeper.
pub open spec fn ends_a_link(third: char, before: char, last: char, c: char) -> bool {
    ||| (last == 'o' && c == 'r' && ends_a_part(before))
    ||| (before == 'a' && last == 'n' && c == 'd' && ends_a_part(third))
    ||| (before == 'n' && last == 'o' && c == 't' && starts_a_part(third))
}

/// Whether a character is a decimal digit.
pub open spec fn is_digit(c: char) -> bool {
    '0' <= c && c <= '9'
}

/// The scan after one more character.
///
/// A string runs from a quote to the next quote that no backslash precedes;
/// parentheses, words and numerals count outside strings only. The parser
/// reads what lies between a pair of parentheses up to three times, so a
/// character within `n` pairs asks for three to the `n` readings, and a
/// digit for one more with every `DIGITS_PER_READING` digits before it in its
/// numeral. Each pair of parentheses and each linking `or`, `and` and `not`
/// can make the tree one node deeper.
pub open spec fn scan_step(s: Scan, c: char) -> Scan {
    if s.quoted {
        Scan {
            quoted: s.escaped || c != '\'',
            escaped: !s.escaped && c == '\\',
            work: s.work + pow3(s.open),
            ..s
        }
    } else if c == '\'' {
        Scan {
            quoted: true,
            run: 0,
            third: ' ',
            before: ' ',
            last: ' ',
            work: s.work + pow3(s.open),
            ..s
        }
    } else {
        let open = if c == '(' {
            s.open + 1
        } else if c == ')' && s.open > 0 {
            (s.open - 1) as nat
        } else {
            s.open
        };
        let weight = if c == ')' {
            pow3(s.open)
        } else {
            pow3(open)
        };
        Scan {
            open,
            deepest: if open > s.deepest {
                open
            } else {
                s.deepest
            },
            links: if ends_a_link(s.third, s.before, s.last, c) {
                s.links + 1
            } else {
                s.links
            },
            run: if is_digit(c) {
                s.run + 1
            } else {
                0
            },
            third: s.before,
            before: s.last,
            last: c,
            work: if is_digit(c) {
                s.work + weight * (1 + s.run / DIGITS_PER_READING as nat)
            } else {
                s.work + weight
            },
            ..s
        }
    }
}

/// The scan of the first `n` characters of a text.
pub open spec fn scanned(text: Seq<char>, n: int) -> Scan
    decreases n,
{
    if n <= 0 {
        Scan {
            quoted: false,
            escaped: false,
            open: 0,
            deepest: 0,
            links: 0,
            run: 0,
            third: ' ',
            before: ' ',
            last: ' ',
            work: 0,
        }
    } else {
        scan_step(scanned(text, n - 1), text[n - 1])
    }
}

/// The work that reading a filter text may take.
pub open spec fn filter_work(text: Seq<char>) -> nat {
    scanned(text, text.len() as int).work
}

/// A bound on the depth of the tree that a filter text can denote: the
/// deepest nesting of its parentheses and the number of its linking `or`,
/// `and` and `not`.
pub open spec fn filter_depth(text: Seq<char>) -> nat {
    scanned(text, text.len() as int).deepest + scanned(text, text.len() as int).links
}

/// Whether a filter text can be read: in bounded time and to a tree of
/// bounded depth.
pub open spec fn readable(text: Seq<char>) -> bool {
    filter_work(text) <= MAX_FILTER_WORK && filter_depth(text) <= MAX_FILTER_DEPTH
}

proof fn lemma_scan_grows(text: Seq<char>, n: int, m: int)
    requires
        n <= m,
    ensures
        scanned(text, n).work <= scanned(text, m).work,
        scanned(text, n).deepest <= scanned(text, m).deepest,
        scanned(text, n).links <= scanned(text, m).links,
    decreases m - n,
{
    if n < m {
        lemma_scan_grows(text, n, m - 1);
        let s = scanned(text, m - 1);
        let c = text[m - 1];
        assert(scan_step(s, c).work >= s.work) by (nonlinear_arith)
            requires
                scan_step(s, c).work == s.work + pow3(s.open) || scan_step(s, c).work == s.work
                    + pow3(s.open + 1) || scan_step(s, c).work == s.work + pow3(
                    (s.open - 1) as nat,
                ) || scan_step(s, c).work == s.work + pow3(s.open) * (1 + s.run
                    / DIGITS_PER_READING as nat) || scan_step(s, c).work == s.work + pow3(
                    s.open + 1,
                ) * (1 + s.run / DIGITS_PER_READING as nat) || scan_step(s, c).work == s.work
                    + pow3((s.open - 1) as nat) * (1 + s.run / DIGITS_PER_READING as nat),
        {
        }
    }
}

fn word_char(c: char) -> (r: bool)
    ensures
        r == is_word_char(c),
{
    ('A' <= c && c <= 'Z') || ('a' <= c && c <= 'z') || c == '_'
}

fn part_end(c: char) -> (r: bool)
    ensures
        r == ends_a_part(c),
{
    !word_char(c) || ('a' <= c && c <= 'f') || ('A' <= c && c <= 'F') || c == 'l' || c == 'L' || c
        == 'Z'
}

fn part_start(c: char) -> (r: bool)
    ensures
        r == starts_a_part(c),
{
    !(word_char(c) || ('0' <= c && c <= '9')) || c == 'r' || c == 'd' || c == 't'
}

/// Tells whether a filter text can be read.
pub fn is_readable(text: &str) -> (r: bool)
    ensures
        r == readable(text@),
{
    let mut quoted = false;
    let mut escaped = false;
    let ghost mut open: nat = 0;
    let mut weight: u64 = 1;
    let mut deepest: u64 = 0;
    let mut level: u64 = 0;
    let mut links: u64 = 0;
    let mut run: u64 = 0;
    let mut third: char = ' ';
    let mut before: char = ' ';
    let mut last: char = ' ';
    let mut work: u64 = 0;
    for c in it: text.chars()
        invariant
            it.seq() == text@,
            weight == pow3(open),
            level == open,
            1 <= weight <= MAX_FILTER_WORK,
            work <= MAX_FILTER_WORK,
            run <= work,
            deepest + links <= MAX_FILTER_DEPTH,
            level <= deepest,
            scanned(text@, it.index() as int) == (Scan {
                quoted,
                escaped,
                open,
                deepest: deepest as nat,
                links: links as nat,
                run: run as nat,
                third,
                before,
                last,
                work: work as nat,
            }),
    {
        assert(c == text@[it.index() as int]);
        let mut cost: u64 = weight;
        if quoted {
            quoted = escaped || c != '\'';
            escaped = !escaped && c == '\\';
        } else if c == '\'' {
            quoted = true;
            run = 0;
            third = ' ';
            before = ' ';
            last = ' ';
        } else {
            if (last == 'o' && c == 'r' && part_end(before)) || (before == 'a' && last == 'n' && c
                == 'd' && part_end(third)) || (before == 'n' && last == 'o' && c == 't'
                && part_start(third)) {
                links = links + 1;
            }
            third = before;
            before = last;
            last = c;
            if c == '(' {
                weight = weight * 3;
                cost = weight;
                level = level + 1;
                if level > deepest {
                    deepest = level;
                }
                proof {
                    open = open + 1;
                }
            } else if c == ')' && level > 0 {
                weight = weight / 3;
                level = level - 1;
                proof {
                    open = (open - 1) as nat;
                }
            }
            if '0' <= c && c <= '9' {
                let factor: u64 = 1 + run / DIGITS_PER_READING;
                assert(1 <= weight * factor <= 1_000_000 * 1_000_000) by (nonlinear_arith)
                    requires
                        1 <= weight <= 1_000_000,
                        1 <= factor <= 1_000_000,
                ;
                cost = weight * factor;
                run = run + 1;
            } else {
                run = 0;
            }
        }
        if cost > MAX_FILTER_WORK - work || deepest + links > MAX_FILTER_DEPTH {
            proof {
                lemma_scan_grows(text@, it.index() + 1, text@.len() as int);
            }
            return false;
        }
        work = work + cost;
    }
    true
}

/// The tree that `odata_params` reads from a `$filter`, or the reason why it
/// reads none.
pub uninterp spec fn parsed_filter(text: Seq<char>) -> Result<Expr, ParseError>;

/// The kind of a parsed constant, with its content where that is a boolean
/// or a string.
pub uninterp spec fn value_shape(v: Value) -> ValueShape;

/// The text that `bigdecimal` gives a parsed number.
pub uninterp spec fn number_text(v: Value) -> Seq<char>;

/// The text that `uuid` gives a parsed UUID.
pub uninterp spec fn uuid_text(v: Value) -> Seq<char>;

/// The seconds since the Unix epoch of a parsed date and time.
pub uninterp spec fn datetime_seconds(v: Value) -> i64;

/// The seconds since the Unix epoch of a parsed date at the given time of
/// day in UTC; `None` where `chrono` has no such time of day.
pub uninterp spec fn date_seconds(v: Value, hour: u32, min: u32, sec: u32) -> Option<i64>;

/// `odata_params::filters::parse_str`. Its running time grows threefold
/// with each level of nested parentheses and its stack with the depth of
/// the tree, so texts that ask for too much of either are left out.
#[verifier::external_body]
fn parse_filter(text: &str) -> (r: Result<Expr, ParseError>)
    requires
        readable(text@),
    ensures
        r == parsed_filter(text@),
{
    odata_params::filters::parse_str(text)
}

/// The `Display` text of `odata_params::filters::ParseError`: one fixed
/// sentence for each variant.
#[verifier::external_body]
fn parse_error_text(e: &ParseError) -> (r: String)
    ensures
        r@ == parse_error_message(*e),
{
    e.to_string()
}

/// Tells the variants of `odata_params::filters::Value` apart and hands out
/// the content of a boolean and of a string.
#[verifier::external_body]
fn value_parts(v: &Value) -> (r: ValueParts)
    ensures
        r@ == value_shape(*v),
{
    match v {
        Value::Null => ValueParts::Null,
        Value::Bool(b) => ValueParts::Bool(*b),
        Value::Number(_) => ValueParts::Number,
        Value::Uuid(_) => ValueParts::Uuid,
        Value::DateTime(_) => ValueParts::DateTime,
        Value::Date(_) => ValueParts::Date,
        Value::Time(_) => ValueParts::Time,
        Value::String(s) => ValueParts::String(s.clone()),
    }
}

/// `BigDecimal::to_string` on the number in a `Value::Number`.
#[verifier::external_body]
fn value_number_text(v: &Value) -> (r: String)
    ensures
        value_shape(*v) is Number ==> r@ == number_text(*v),
{
    match v {
        Value::Number(d) => d.to_string(),
        _ => String::new(),
    }
}

/// `Uuid::to_string` on the UUID in a `Value::Uuid`.
#[verifier::external_body]
fn value_uuid_text(v: &Value) -> (r: String)
    ensures
        value_shape(*v) is Uuid ==> r@ == uuid_text(*v),
{
    match v {
        Value::Uuid(u) => u.to_string(),
        _ => String::new(),
    }
}

/// `DateTime::timestamp` on the instant in a `Value::DateTime`.
#[verifier::external_body]
fn value_datetime_seconds(v: &Value) -> (r: i64)
    ensures
        value_shape(*v) is DateTime ==> r == datetime_seconds(*v),
{
    match v {
        Value::DateTime(d) => d.timestamp(),
        _ => 0,
    }
}

/// `NaiveDate::and_hms_opt` on the date in a `Value::Date`, and on what it
/// gives `DateTime::from_naive_utc_and_offset` with `Utc` and
/// `DateTime::timestamp`.
#[verifier::external_body]
fn value_date_seconds(v: &Value, hour: u32, min: u32, sec: u32) -> (r: Option<i64>)
    ensures
        value_shape(*v) is Date ==> r == date_seconds(*v, hour, min, sec),
{
    match v {
        Value::Date(d) => match d.and_hms_opt(hour, min, sec) {
            Some(t) => Some(chrono::DateTime::<chrono::Utc>::from_naive_utc_and_offset(t, chrono::Utc).timestamp()),
            None => None,
        },
        _ => None,
    }
}

/// The sentence that stands for a parse failure.
pub open spec fn parse_error_message(e: ParseError) -> Seq<char> {
    match e {
        ParseError::Parsing => "Error during general parsing."@,
        ParseError::ParsingUuid => "Error parsing a UUID."@,
        ParseError::ParsingNumber => "Error parsing a number."@,
        ParseError::ParsingDate => "Error parsing a date."@,
        ParseError::ParsingTime => "Error parsing a time."@,
        ParseError::ParsingDateTime => "Error parsing a date and time."@,
        ParseError::ParsingTimeZone => "Error parsing a time zone offset."@,
        ParseError::ParsingTimeZoneNamed => "Error parsing a named time zone."@,
        ParseError::ParsingUnicodeCodePoint => "Error parsing a Unicode code point escape sequence."@,
    }
}

/// What is said of a function call in a filter.
pub open spec fn function_not_supported() -> Seq<char> {
    "Function within the filter is not supported"@
}

/// What is said of a time of day in a filter.
pub open spec fn time_not_supported() -> Seq<char> {
    "Time value in filter is not supported"@
}

/// What is said of a filter that cannot be read within the bounds.
pub open spec fn too_much_work() -> Seq<char> {
    "Filter is too long or nested too deeply"@
}

/// What is said of a number that is no 64-bit integer.
pub open spec fn number_not_parsed() -> Seq<char> {
    "Failed to parse number"@
}

/// What is said of a date without a midnight.
pub open spec fn date_not_parsed() -> Seq<char> {
    "Failed to parse date"@
}

/// The operator of the engine that stands for a comparison of the filter.
pub open spec fn translated_op(op: CompareOperator) -> CompareOp {
    match op {
        CompareOperator::Equal => CompareOp::Eq,
        CompareOperator::NotEqual => CompareOp::NotEq,
        CompareOperator::LessThan => CompareOp::Lt,
        CompareOperator::GreaterThan => CompareOp::Gt,
        CompareOperator::LessOrEqual => CompareOp::LtEq,
        CompareOperator::GreaterOrEqual => CompareOp::GtEq,
    }
}

/// The constant of the engine that stands for a constant of the filter.
///
/// A number has to be a 64-bit integer. A date and time is its instant, a
/// date is midnight UTC of its day, both in seconds since the Unix epoch. A
/// time of day has no counterpart.
pub open spec fn translated_value(v: Value) -> Result<LiteralView, ErrorKind> {
    match value_shape(v) {
        ValueShape::String(s) => Ok(LiteralView::String(s)),
        ValueShape::Bool(b) => Ok(LiteralView::Bool(b)),
        ValueShape::Null => Ok(LiteralView::Null),
        ValueShape::Number => match parsed_i64(number_text(v)) {
            Some(n) => Ok(LiteralView::Int64(n)),
            None => Err(ErrorKind::FilterParsingError(number_not_parsed())),
        },
        ValueShape::DateTime => Ok(LiteralView::EpochSeconds(datetime_seconds(v))),
        ValueShape::Date => match date_seconds(v, 0, 0, 0) {
            Some(s) => Ok(LiteralView::EpochSeconds(s)),
            None => Err(ErrorKind::FilterParsingError(date_not_parsed())),
        },
        ValueShape::Uuid => Ok(LiteralView::Uuid(uuid_text(v))),
        ValueShape::Time => Err(ErrorKind::UnsupportedFeature(time_not_supported())),
    }
}

/// The tree of the engine that stands for a parsed filter: the same shape,
/// node for node. A function call has no counterpart. Where several parts
/// fail, the leftmost failure is the answer.
pub open spec fn translated(e: Expr) -> Result<ExprView, ErrorKind>
    decreases e,
{
    match e {
        Expr::Or(l, r) => match translated(*l) {
            Err(x) => Err(x),
            Ok(lv) => match translated(*r) {
                Err(x) => Err(x),
                Ok(rv) => Ok(ExprView::Or(Box::new(lv), Box::new(rv))),
            },
        },
        Expr::And(l, r) => match translated(*l) {
            Err(x) => Err(x),
            Ok(lv) => match translated(*r) {
                Err(x) => Err(x),
                Ok(rv) => Ok(ExprView::And(Box::new(lv), Box::new(rv))),
            },
        },
        Expr::Compare(l, op, r) => match translated(*l) {
            Err(x) => Err(x),
            Ok(lv) => match translated(*r) {
                Err(x) => Err(x),
                Ok(rv) => Ok(ExprView::Compare(translated_op(op), Box::new(lv), Box::new(rv))),
            },
        },
        Expr::Value(v) => match translated_value(v) {
            Err(x) => Err(x),
            Ok(lit) => Ok(ExprView::Literal(lit)),
        },
        Expr::Not(inner) => match translated(*inner) {
            Err(x) => Err(x),
            Ok(v) => Ok(ExprView::Not(Box::new(v))),
        },
        Expr::In(item, list) => match translated(*item) {
            Err(x) => Err(x),
            Ok(iv) => match translated_list(list@, list@.len() as int) {
                Err(x) => Err(x),
                Ok(lv) => Ok(ExprView::In(Box::new(iv), lv)),
            },
        },
        Expr::Identifier(name) => Ok(ExprView::Identifier(name@)),
        Expr::Function(_, _) => Err(ErrorKind::UnsupportedFeature(function_not_supported())),
    }
}

/// The translation of the first `n` trees of a list.
pub open spec fn translated_list(list: Seq<Expr>, n: int) -> Result<Seq<ExprView>, ErrorKind>
    decreases list, n,
{
    if n <= 0 || n > list.len() {
        Ok(Seq::empty())
    } else {
        match translated_list(list, n - 1) {
            Err(x) => Err(x),
            Ok(prev) => match translated(list[n - 1]) {
                Err(x) => Err(x),
                Ok(v) => Ok(prev.push(v)),
            },
        }
    }
}

proof fn lemma_list_error_stays(list: Seq<Expr>, n: int, m: int)
    requires
        0 <= n <= m <= list.len(),
        translated_list(list, n) is Err,
    ensures
        translated_list(list, m) == translated_list(list, n),
    decreases m - n,
{
    if n < m {
        lemma_list_error_stays(list, n, m - 1);
    }
}

/// Whether an outcome is the one a specification asks for.
pub open spec fn expr_result(r: Result<Expression, ODataError>, wanted: Result<ExprView, ErrorKind>) -> bool {
    match r {
        Ok(e) => wanted == Ok::<ExprView, ErrorKind>(e@),
        Err(e) => wanted == Err::<ExprView, ErrorKind>(e@),
    }
}

/// Maps a comparison of the filter to the engine's operator.
pub fn odata_op_to_df_op(op: &CompareOperator) -> (r: CompareOp)
    ensures
        r == translated_op(*op),
{
    match op {
        CompareOperator::Equal => CompareOp::Eq,
        CompareOperator::NotEqual => CompareOp::NotEq,
        CompareOperator::LessThan => CompareOp::Lt,
        CompareOperator::GreaterThan => CompareOp::Gt,
        CompareOperator::LessOrEqual => CompareOp::LtEq,
        CompareOperator::GreaterOrEqual => CompareOp::GtEq,
    }
}

/// Maps a constant of the filter to a constant of the engine.
pub fn odata_value_to_df_value(v: &Value) -> (r: Result<Literal, ODataError>)
    ensures
        match r {
            Ok(lit) => translated_value(*v) == Ok::<LiteralView, ErrorKind>(lit@),
            Err(e) => translated_value(*v) == Err::<LiteralView, ErrorKind>(e@),
        },
{
    match value_parts(v) {
        ValueParts::String(s) => Ok(Literal::String(s)),
        ValueParts::Bool(b) => Ok(Literal::Bool(b)),
        ValueParts::Null => Ok(Literal::Null),
        ValueParts::Number => {
            let text = value_number_text(v);
            match parse_i64(text.as_str()) {
                Some(n) => Ok(Literal::Int64(n)),
                None => Err(
                    ODataError::FilterParsingError(
                        FilterParsingError::new("Failed to parse number"),
                    ),
                ),
            }
        },
        ValueParts::DateTime => Ok(Literal::EpochSeconds(value_datetime_seconds(v))),
        ValueParts::Date => match value_date_seconds(v, 0, 0, 0) {
            Some(s) => Ok(Literal::EpochSeconds(s)),
            None => Err(
                ODataError::FilterParsingError(FilterParsingError::new("Failed to parse date")),
            ),
        },
        ValueParts::Uuid => Ok(Literal::Uuid(value_uuid_text(v))),
        ValueParts::Time => Err(
            ODataError::UnsupportedFeature(
                UnsupportedFeature::new("Time value in filter is not supported"),
            ),
        ),
    }
}

/// Translates a parsed filter into the engine's tree.
pub fn odata_expr_to_df_expr(res: &Expr) -> (r: Result<Expression, ODataError>)
    ensures
        expr_result(r, translated(*res)),
    decreases *res,
{
    match res {
        Expr::Or(l, r) => {
            let lv = odata_expr_to_df_expr(l)?;
            let rv = odata_expr_to_df_expr(r)?;
            Ok(Expression::Or(Box::new(lv), Box::new(rv)))
        },
        Expr::And(l, r) => {
            let lv = odata_expr_to_df_expr(l)?;
            let rv = odata_expr_to_df_expr(r)?;
            Ok(Expression::And(Box::new(lv), Box::new(rv)))
        },
        Expr::Compare(l, op, r) => {
            let lv = odata_expr_to_df_expr(l)?;
            let rv = odata_expr_to_df_expr(r)?;
            Ok(Expression::Compare(odata_op_to_df_op(op), Box::new(lv), Box::new(rv)))
        },
        Expr::Value(v) => {
            let lit = odata_value_to_df_value(v)?;
            Ok(Expression::Literal(lit))
        },
        Expr::Not(e) => {
            let v = odata_expr_to_df_expr(e)?;
            Ok(Expression::Not(Box::new(v)))
        },
        Expr::In(i, l) => {
            let iv = odata_expr_to_df_expr(i)?;
            let mut out: Vec<Expression> = Vec::new();
            let mut k: usize = 0;
            assert(exprs_view(out@) =~= Seq::<ExprView>::empty());
            while k < l.len()
                invariant
                    k <= l@.len(),
                    *res == Expr::In(*i, *l),
                    translated(**i) == Ok::<ExprView, ErrorKind>(iv@),
                    translated_list(l@, k as int) == Ok::<Seq<ExprView>, ErrorKind>(
                        exprs_view(out@),
                    ),
                decreases l@.len() - k,
            {
                let v = match odata_expr_to_df_expr(&l[k]) {
                    Ok(v) => v,
                    Err(x) => {
                        proof {
                            lemma_list_error_stays(l@, k + 1, l@.len() as int);
                        }
                        return Err(x);
                    },
                };
                let ghost before = out@;
                out.push(v);
                assert(exprs_view(out@) =~= exprs_view(before).push(v@));
                k = k + 1;
            }
            let r = Expression::In(Box::new(iv), out);
            assert(r@ == ExprView::In(Box::new(iv@), exprs_view(out@))) by {
                assert(r@->In_1 =~= exprs_view(out@));
            }
            Ok(r)
        },
        Expr::Identifier(s) => Ok(Expression::Identifier(s.clone())),
        Expr::Function(_, _) => Err(
            ODataError::UnsupportedFeature(
                UnsupportedFeature::new("Function within the filter is not supported"),
            ),
        ),
    }
}

/// What a `$filter` text becomes: the translation of the tree that is read
/// from it, or a parsing error with the parser's sentence. A text that
/// cannot be read within the bounds on work and depth is not read at all.
pub open spec fn filter_of(text: Seq<char>) -> Result<ExprView, ErrorKind> {
    if !readable(text) {
        Err(ErrorKind::FilterParsingError(too_much_work()))
    } else {
        match parsed_filter(text) {
            Ok(tree) => translated(tree),
            Err(e) => Err(ErrorKind::FilterParsingError(parse_error_message(e))),
        }
    }
}

/// A text that the grammar rejects is a parsing error, whether it was read
/// or not.
pub proof fn lemma_rejected_filter_is_a_parsing_error(text: Seq<char>)
    requires
        parsed_filter(text) is Err,
    ensures
        filter_of(text) matches Err(e) && e is FilterParsingError,
{
}

/// What a parsed `$filter`, or the failure to parse one, becomes.
pub fn filter_from_parsed(parsed: &Result<Expr, ParseError>) -> (r: Result<Expression, ODataError>)
    ensures
        expr_result(
            r,
            match *parsed {
                Ok(tree) => translated(tree),
                Err(e) => Err(ErrorKind::FilterParsingError(parse_error_message(e))),
            },
        ),
{
    match parsed {
        Ok(tree) => odata_expr_to_df_expr(tree),
        Err(e) => {
            let text = parse_error_text(e);
            Err(ODataError::FilterParsingError(FilterParsingError::new(text.as_str())))
        },
    }
}

/// Reads a `$filter` and translates it.
pub fn decode_filter(text: &str) -> (r: Result<Expression, ODataError>)
    ensures
        expr_result(r, filter_of(text@)),
{
    if !is_readable(text) {
        return Err(
            ODataError::FilterParsingError(
                FilterParsingError::new("Filter is too long or nested too deeply"),
            ),
        );
    }
    let parsed = parse_filter(text);
    filter_from_parsed(&parsed)
}

/// A `$filter` that has been read and translated.
#[derive(Debug)]
pub struct ODataFilter(pub Expression);

impl ODataFilter {
    /// Reads a `$filter` and translates it.
    pub fn from_str(s: &str) -> (r: Result<ODataFilter, ODataError>)
        ensures
            match r {
                Ok(f) => filter_of(s@) == Ok::<ExprView, ErrorKind>(f.0@),
                Err(e) => filter_of(s@) == Err::<ExprView, ErrorKind>(e@),
            },
    {
        match decode_filter(s) {
            Ok(e) => Ok(ODataFilter(e)),
            Err(e) => Err(e),
        }
    }

    /// The tree of the filter.
    pub fn into_expr(self) -> (r: Expression)
        ensures
            r == self.0,
    {
        self.0
    }
}

} // verus!
