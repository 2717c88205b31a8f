//! Output-format selection and the field-level escaping rules of the CSV and
//! JSON wire forms.

use vstd::prelude::*;
use vstd::string::StrSliceExecFns;
use crate::errors::CliError;
use crate::text::append_str;
use crate::text::chars_to_string;
use crate::text::lower_of;
use crate::text::str_contains_char;
use crate::text::str_eq;
use crate::text::to_lower;

verus! {

#[derive(Clone, Copy, Debug, PartialEq, Eq, Structural)]
pub enum OutputFormat {
    Json,
    JsonPretty,
    Csv,
    Bincode,
    Msgpack,
}

/// The format each accepted keyword selects; unrecognized keywords select none.
pub open spec fn format_of_keyword(s: Seq<char>) -> Option<OutputFormat> {
    if s == "json"@ {
        Some(OutputFormat::Json)
    } else if s == "json-pretty"@ || s == "pretty"@ {
        Some(OutputFormat::JsonPretty)
    } else if s == "csv"@ {
        Some(OutputFormat::Csv)
    } else if s == "bincode"@ || s == "bin"@ {
        Some(OutputFormat::Bincode)
    } else if s == "msgpack"@ || s == "messagepack"@ || s == "mp"@ {
        Some(OutputFormat::Msgpack)
    } else {
        None
    }
}

/// Parse the output-format argument, case-insensitively.
pub fn parse_output_format(s: &str) -> (r: Result<OutputFormat, CliError>)
    ensures
        match r {
            Ok(f) => format_of_keyword(lower_of(s@)) == Some(f),
            Err(e) => format_of_keyword(lower_of(s@)) is None && (e matches
            CliError::UnrecognizedFormat { given } && given@ == s@),
        },
{
    let low = to_lower(s);
    let l = low.as_str();
    if str_eq(l, "json") {
        Ok(OutputFormat::Json)
    } else if str_eq(l, "json-pretty") || str_eq(l, "pretty") {
        Ok(OutputFormat::JsonPretty)
    } else if str_eq(l, "csv") {
        Ok(OutputFormat::Csv)
    } else if str_eq(l, "bincode") || str_eq(l, "bin") {
        Ok(OutputFormat::Bincode)
    } else if str_eq(l, "msgpack") || str_eq(l, "messagepack") || str_eq(l, "mp") {
        Ok(OutputFormat::Msgpack)
    } else {
        Err(CliError::UnrecognizedFormat { given: s.to_owned() })
    }
}

/// File listings and point lookups support only the textual formats; the
/// binary formats are rejected for them.
pub fn listing_format_check(f: OutputFormat) -> (r: Result<(), CliError>)
    ensures
        r is Ok <==> (f == OutputFormat::Json || f == OutputFormat::JsonPretty || f
            == OutputFormat::Csv),
        match r {
            Ok(_) => true,
            Err(e) => e is UnsupportedFormatForOperation,
        },
{
    match f {
        OutputFormat::Json => Ok(()),
        OutputFormat::JsonPretty => Ok(()),
        OutputFormat::Csv => Ok(()),
        OutputFormat::Bincode => Err(CliError::UnsupportedFormatForOperation),
        OutputFormat::Msgpack => Err(CliError::UnsupportedFormatForOperation),
    }
}

// ---------------------------------------------------------------------------
// CSV field escaping
// ---------------------------------------------------------------------------

/// A field holding a comma, a double quote or a newline must be quoted.
pub open spec fn needs_csv_quoting(s: Seq<char>) -> bool {
    s.contains(',') || s.contains('"') || s.contains('\n')
}

pub open spec fn csv_escape_char(c: char) -> Seq<char> {
    if c == '"' {
        seq!['"', '"']
    } else {
        seq![c]
    }
}

/// The field's characters with every internal double quote doubled.
pub open spec fn csv_doubled(s: Seq<char>) -> Seq<char>
    decreases s.len(),
{
    if s.len() == 0 {
        Seq::empty()
    } else {
        csv_escape_char(s[0]) + csv_doubled(s.drop_first())
    }
}

pub proof fn lemma_csv_doubled_push(s: Seq<char>, x: char)
    ensures
        csv_doubled(s.push(x)) == csv_doubled(s) + csv_escape_char(x),
    decreases s.len(),
{
    if s.len() == 0 {
        assert(s.push(x)[0] == x);
        assert(s.push(x).drop_first() =~= Seq::<char>::empty());
        assert(csv_doubled(Seq::<char>::empty()) == Seq::<char>::empty());
        assert(csv_doubled(s.push(x)) =~= csv_doubled(s) + csv_escape_char(x));
    } else {
        assert(s.push(x)[0] == s[0]);
        assert(s.push(x).drop_first() =~= s.drop_first().push(x));
        lemma_csv_doubled_push(s.drop_first(), x);
        assert(csv_doubled(s.push(x)) =~= csv_doubled(s) + csv_escape_char(x));
    }
}

/// A CSV field: wrapped in quotes with internal quotes doubled when it holds
/// a comma, quote or newline; emitted unchanged otherwise.
pub open spec fn escape_csv_spec(s: Seq<char>) -> Seq<char> {
    if needs_csv_quoting(s) {
        seq!['"'] + csv_doubled(s) + seq!['"']
    } else {
        s
    }
}

/// Escape one CSV field.
pub fn escape_csv(s: &str) -> (r: String)
    ensures
        r@ == escape_csv_spec(s@),
{
    let needs = str_contains_char(s, ',') || str_contains_char(s, '"') || str_contains_char(
        s,
        '\n',
    );
    if !needs {
        return s.to_owned();
    }
    let mut out: Vec<char> = Vec::new();
    out.push('"');
    let n = s.unicode_len();
    let mut i: usize = 0;
    while i < n
        invariant
            n == s@.len(),
            0 <= i <= n,
            out@ == seq!['"'] + csv_doubled(s@.take(i as int)),
        decreases n - i,
    {
        let c = s.get_char(i);
        if c == '"' {
            out.push('"');
            out.push('"');
        } else {
            out.push(c);
        }
        proof {
            assert(s@.take(i + 1) =~= s@.take(i as int).push(s@[i as int]));
            lemma_csv_doubled_push(s@.take(i as int), s@[i as int]);
            assert(out@ =~= seq!['"'] + csv_doubled(s@.take(i + 1)));
        }
        i = i + 1;
    }
    out.push('"');
    proof {
        assert(s@.take(n as int) =~= s@);
        assert(out@ =~= escape_csv_spec(s@));
    }
    chars_to_string(out)
}

/// Append one escaped CSV field to a line under construction.
pub fn append_csv_field(out: &mut Vec<char>, s: &str)
    ensures
        final(out)@ == old(out)@ + escape_csv_spec(s@),
{
    let esc = escape_csv(s);
    append_str(out, esc.as_str());
}

// ---------------------------------------------------------------------------
// JSON string escaping
// ---------------------------------------------------------------------------

/// The escape applied to each character of a JSON string: quotes, backslashes
/// and the common control characters get a backslash form; every other
/// character stands for itself.
pub open spec fn json_escape_char(c: char) -> Seq<char> {
    if c == '"' {
        seq!['\\', '"']
    } else if c == '\\' {
        seq!['\\', '\\']
    } else if c == '\n' {
        seq!['\\', 'n']
    } else if c == '\r' {
        seq!['\\', 'r']
    } else if c == '\t' {
        seq!['\\', 't']
    } else {
        seq![c]
    }
}

pub open spec fn json_escaped(s: Seq<char>) -> Seq<char>
    decreases s.len(),
{
    if s.len() == 0 {
        Seq::empty()
    } else {
        json_escape_char(s[0]) + json_escaped(s.drop_first())
    }
}

pub proof fn lemma_json_escaped_push(s: Seq<char>, x: char)
    ensures
        json_escaped(s.push(x)) == json_escaped(s) + json_escape_char(x),
    decreases s.len(),
{
    if s.len() == 0 {
        assert(s.push(x)[0] == x);
        assert(s.push(x).drop_first() =~= Seq::<char>::empty());
        assert(json_escaped(Seq::<char>::empty()) == Seq::<char>::empty());
        assert(json_escaped(s.push(x)) =~= json_escaped(s) + json_escape_char(x));
    } else {
        assert(s.push(x)[0] == s[0]);
        assert(s.push(x).drop_first() =~= s.drop_first().push(x));
        lemma_json_escaped_push(s.drop_first(), x);
        assert(json_escaped(s.push(x)) =~= json_escaped(s) + json_escape_char(x));
    }
}

/// A JSON string literal: the escaped characters wrapped in double quotes.
pub open spec fn json_string_spec(s: Seq<char>) -> Seq<char> {
    seq!['"'] + json_escaped(s) + seq!['"']
}

/// Append a JSON string literal holding the characters of `s`.
pub fn append_json_string(out: &mut Vec<char>, s: &str)
    ensures
        final(out)@ == old(out)@ + json_string_spec(s@),
{
    out.push('"');
    let n = s.unicode_len();
    let mut i: usize = 0;
    while i < n
        invariant
            n == s@.len(),
            0 <= i <= n,
            out@ == old(out)@ + seq!['"'] + json_escaped(s@.take(i as int)),
        decreases n - i,
    {
        let c = s.get_char(i);
        if c == '"' {
            out.push('\\');
            out.push('"');
        } else if c == '\\' {
            out.push('\\');
            out.push('\\');
        } else if c == '\n' {
            out.push('\\');
            out.push('n');
        } else if c == '\r' {
            out.push('\\');
            out.push('r');
        } else if c == '\t' {
            out.push('\\');
            out.push('t');
        } else {
            out.push(c);
        }
        proof {
            assert(s@.take(i + 1) =~= s@.take(i as int).push(s@[i as int]));
            lemma_json_escaped_push(s@.take(i as int), s@[i as int]);
            assert(out@ =~= old(out)@ + seq!['"'] + json_escaped(s@.take(i + 1)));
        }
        i = i + 1;
    }
    out.push('"');
    proof {
        assert(s@.take(n as int) =~= s@);
        assert(out@ =~= old(out)@ + json_string_spec(s@));
    }
}

/// The keyword a boolean renders as.
pub open spec fn bool_spec(b: bool) -> Seq<char> {
    if b {
        "true"@
    } else {
        "false"@
    }
}

/// The keyword JSON and CSV use for a boolean.
pub fn bool_keyword(b: bool) -> (r: &'static str)
    ensures
        r@ == bool_spec(b),
{
    if b {
        "true"
    } else {
        "false"
    }
}

} // verus!
