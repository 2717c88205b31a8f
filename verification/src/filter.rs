//! The filter-pattern compiler: classifies a free-text pattern as a glob, a
//! regular expression or a plain substring, and produces a predicate applied
//! to lower-cased candidate paths.

use vstd::prelude::*;
use vstd::string::StrSliceExecFns;
use crate::errors::CliError;
use crate::text::chars_to_string;
use crate::text::contains_seq;
use crate::text::lower_of;
use crate::text::str_contains_char;
use crate::text::str_contains_str;
use crate::text::to_lower;

verus! {

// ---------------------------------------------------------------------------
// Trusted view of the regex engine
// ---------------------------------------------------------------------------

#[verifier::external_type_specification]
#[verifier::external_body]
pub struct ExRegex(regex::Regex);

#[verifier::external_type_specification]
#[verifier::external_body]
pub struct ExRegexError(regex::Error);

/// The pattern a compiled regex was built from (`regex::Regex::as_str`
/// returns exactly this string).
pub uninterp spec fn regex_pattern(re: regex::Regex) -> Seq<char>;

/// Whether the regex engine accepts a pattern; compilation is a function of
/// the pattern string alone.
pub uninterp spec fn regex_valid(pattern: Seq<char>) -> bool;

/// What the regex engine decides for a pattern and a haystack; matching is a
/// function of the two strings alone.
pub uninterp spec fn regex_match_of(pattern: Seq<char>, text: Seq<char>) -> bool;

/// Relies on `regex::Regex::new`: compiling succeeds or fails depending on
/// the pattern alone, and a compiled regex holds exactly that pattern.
#[verifier::external_body]
fn regex_new(p: &str) -> (r: Result<regex::Regex, regex::Error>)
    ensures
        r is Ok <==> regex_valid(p@),
        r matches Ok(re) ==> regex_pattern(re) == p@,
{
    regex::Regex::new(p)
}

/// Relies on `regex::Regex::is_match`: the verdict depends on the compiled
/// pattern and the haystack alone.
#[verifier::external_body]
fn regex_is_match(re: &regex::Regex, text: &str) -> (r: bool)
    ensures
        r == regex_match_of(regex_pattern(*re), text@),
{
    re.is_match(text)
}

// ---------------------------------------------------------------------------
// Classification
// ---------------------------------------------------------------------------

/// A `*` or `?` anywhere marks a glob.
pub open spec fn glob_chars(p: Seq<char>) -> bool {
    p.contains('*') || p.contains('?')
}

/// A leading `^`, or a `[` or `(` anywhere, marks a hand-written expression.
pub open spec fn regex_chars(p: Seq<char>) -> bool {
    (p.len() > 0 && p[0] == '^') || p.contains('[') || p.contains('(')
}

#[derive(Clone, Copy, Debug, PartialEq, Eq, Structural)]
pub enum PatternClass {
    Glob,
    Expression,
    Substring,
}

/// How a pattern is read, in priority order: glob markers first, then
/// expression markers, else a plain substring.
pub open spec fn classify_spec(p: Seq<char>) -> PatternClass {
    if glob_chars(p) {
        PatternClass::Glob
    } else if regex_chars(p) {
        PatternClass::Expression
    } else {
        PatternClass::Substring
    }
}

/// Classify a pattern.
pub fn classify(p: &str) -> (c: PatternClass)
    ensures
        c == classify_spec(p@),
{
    if str_contains_char(p, '*') || str_contains_char(p, '?') {
        PatternClass::Glob
    } else {
        let starts_caret = p.unicode_len() > 0 && p.get_char(0) == '^';
        if starts_caret || str_contains_char(p, '[') || str_contains_char(p, '(') {
            PatternClass::Expression
        } else {
            PatternClass::Substring
        }
    }
}

/// Glob markers take priority even when expression markers are present.
pub proof fn lemma_glob_priority(p: Seq<char>)
    requires
        p.contains('*') || p.contains('?'),
    ensures
        classify_spec(p) == PatternClass::Glob,
{
}

/// A pattern without any marker is matched as a plain substring.
pub proof fn lemma_plain_is_substring(p: Seq<char>)
    requires
        !p.contains('*'),
        !p.contains('?'),
        !p.contains('['),
        !p.contains('('),
        p.len() > 0 ==> p[0] != '^',
    ensures
        classify_spec(p) == PatternClass::Substring,
{
}

// ---------------------------------------------------------------------------
// Glob expansion
// ---------------------------------------------------------------------------

/// What each glob character contributes to the derived expression: path
/// separators and dots are escaped, `*` becomes "any sequence", `?` becomes
/// "any single character".
pub open spec fn glob_expansion_char(c: char) -> Seq<char> {
    if c == '\\' {
        seq!['\\', '\\']
    } else if c == '.' {
        seq!['\\', '.']
    } else if c == '*' {
        seq!['.', '*']
    } else if c == '?' {
        seq!['.']
    } else {
        seq![c]
    }
}

/// The expression a glob pattern expands to, before case folding.
pub open spec fn glob_regex_spec(p: Seq<char>) -> Seq<char>
    decreases p.len(),
{
    if p.len() == 0 {
        Seq::empty()
    } else {
        glob_expansion_char(p[0]) + glob_regex_spec(p.drop_first())
    }
}

proof fn lemma_glob_regex_push(p: Seq<char>, x: char)
    ensures
        glob_regex_spec(p.push(x)) == glob_regex_spec(p) + glob_expansion_char(x),
    decreases p.len(),
{
    if p.len() == 0 {
        assert(p.push(x)[0] == x);
        assert(p.push(x).drop_first() =~= Seq::<char>::empty());
        assert(glob_regex_spec(Seq::<char>::empty()) == Seq::<char>::empty());
        assert(glob_regex_spec(p.push(x)) =~= glob_regex_spec(p) + glob_expansion_char(x));
    } else {
        assert(p.push(x)[0] == p[0]);
        assert(p.push(x).drop_first() =~= p.drop_first().push(x));
        lemma_glob_regex_push(p.drop_first(), x);
        assert(glob_regex_spec(p.push(x)) =~= glob_regex_spec(p) + glob_expansion_char(x));
    }
}

/// Expand a glob pattern into the derived expression text.
fn glob_to_regex(p: &str) -> (r: Vec<char>)
    ensures
        r@ == glob_regex_spec(p@),
{
    let mut out: Vec<char> = Vec::new();
    let n = p.unicode_len();
    let mut i: usize = 0;
    while i < n
        invariant
            n == p@.len(),
            0 <= i <= n,
            out@ == glob_regex_spec(p@.take(i as int)),
        decreases n - i,
    {
        let c = p.get_char(i);
        if c == '\\' {
            out.push('\\');
            out.push('\\');
        } else if c == '.' {
            out.push('\\');
            out.push('.');
        } else if c == '*' {
            out.push('.');
            out.push('*');
        } else if c == '?' {
            out.push('.');
        } else {
            out.push(c);
        }
        proof {
            assert(p@.take(i + 1) =~= p@.take(i as int).push(p@[i as int]));
            lemma_glob_regex_push(p@.take(i as int), p@[i as int]);
            assert(out@ =~= glob_regex_spec(p@.take(i + 1)));
        }
        i = i + 1;
    }
    proof {
        assert(p@.take(n as int) =~= p@);
    }
    out
}

// ---------------------------------------------------------------------------
// The compiled filter
// ---------------------------------------------------------------------------

/// A compiled filter predicate over lower-cased paths.
#[derive(Debug)]
pub enum CompiledFilter {
    /// No pattern was given: everything matches.
    MatchAll,
    /// A plain pattern: case-insensitive containment of the folded needle.
    Substring { needle: String },
    /// A glob-derived or hand-written expression, already folded.
    Pattern { re: regex::Regex },
}

/// Whether a filter accepts a path: containment or an engine match, always
/// against the case-folded path.
pub open spec fn filter_accepts(f: CompiledFilter, path: Seq<char>) -> bool {
    match f {
        CompiledFilter::MatchAll => true,
        CompiledFilter::Substring { needle } => contains_seq(lower_of(path), needle@),
        CompiledFilter::Pattern { re } => regex_match_of(regex_pattern(re), lower_of(path)),
    }
}

/// Compile an optional pattern. Globs expand to an expression and both
/// expression kinds are case-folded before compilation; a pattern the engine
/// rejects is a filter-compilation failure, never a silently ignored filter.
pub fn compile_filter(pattern: Option<&str>) -> (r: Result<CompiledFilter, CliError>)
    ensures
        pattern is None ==> (r matches Ok(f) && f is MatchAll),
        pattern matches Some(p) ==> (classify_spec(p@) == PatternClass::Glob ==> {
            &&& r is Ok <==> regex_valid(lower_of(glob_regex_spec(p@)))
            &&& (r matches Ok(f) ==> f matches CompiledFilter::Pattern { re } && regex_pattern(re)
                == lower_of(glob_regex_spec(p@)))
            &&& (r matches Err(e) ==> e matches CliError::FilterCompilationFailure { pattern: q }
                && q@ == p@)
        }),
        pattern matches Some(p) ==> (classify_spec(p@) == PatternClass::Expression ==> {
            &&& r is Ok <==> regex_valid(lower_of(p@))
            &&& (r matches Ok(f) ==> f matches CompiledFilter::Pattern { re } && regex_pattern(re)
                == lower_of(p@))
            &&& (r matches Err(e) ==> e matches CliError::FilterCompilationFailure { pattern: q }
                && q@ == p@)
        }),
        pattern matches Some(p) ==> (classify_spec(p@) == PatternClass::Substring ==> (r matches
        Ok(f) && f matches CompiledFilter::Substring { needle } && needle@ == lower_of(p@))),
{
    match pattern {
        None => Ok(CompiledFilter::MatchAll),
        Some(p) => {
            match classify(p) {
                PatternClass::Glob => {
                    let expanded = glob_to_regex(p);
                    let text = chars_to_string(expanded);
                    let folded = to_lower(text.as_str());
                    match regex_new(folded.as_str()) {
                        Ok(re) => Ok(CompiledFilter::Pattern { re }),
                        Err(_) => Err(
                            CliError::FilterCompilationFailure { pattern: p.to_owned() },
                        ),
                    }
                },
                PatternClass::Expression => {
                    let folded = to_lower(p);
                    match regex_new(folded.as_str()) {
                        Ok(re) => Ok(CompiledFilter::Pattern { re }),
                        Err(_) => Err(
                            CliError::FilterCompilationFailure { pattern: p.to_owned() },
                        ),
                    }
                },
                PatternClass::Substring => {
                    let folded = to_lower(p);
                    Ok(CompiledFilter::Substring { needle: folded })
                },
            }
        },
    }
}

/// Apply a compiled filter to a candidate path.
pub fn filter_matches(f: &CompiledFilter, path: &str) -> (r: bool)
    ensures
        r == filter_accepts(*f, path@),
{
    match f {
        CompiledFilter::MatchAll => true,
        CompiledFilter::Substring { needle } => {
            let folded = to_lower(path);
            str_contains_str(folded.as_str(), needle.as_str())
        },
        CompiledFilter::Pattern { re } => {
            let folded = to_lower(path);
            regex_is_match(re, folded.as_str())
        },
    }
}

} // verus!
