use vstd::prelude::*;

use crate::json::{child, child_of, equal_text, render, render_json, texts, JsonValue};

verus! {

/// Why an expectation could not be evaluated. Either is a fault of the expectation,
/// not of the document under test.
#[derive(Debug, PartialEq, Eq, Structural)]
pub enum CheckError {
    /// The expectation is none of `is array`, `is object`, `is number`, `is string`,
    /// `HAS <literal>` or `LIKE <regex>`.
    MalformedExpectation,
    /// The regular expression of a `LIKE` expectation does not compile.
    InvalidPattern,
}

/// Whether a regular expression compiles.
pub uninterp spec fn pattern_compiles(pattern: Seq<char>) -> bool;

/// Whether a compiled regular expression matches anywhere in `text`.
pub uninterp spec fn pattern_found(pattern: Seq<char>, text: Seq<char>) -> bool;

/// Relies on `regex::Regex::new`, which compiles `pattern` or reports an error, and on
/// `regex::Regex::is_match`, which tells whether the regex matches anywhere in `text`.
#[verifier::external_body]
fn find_pattern(pattern: &str, text: &str) -> (r: Option<bool>)
    ensures
        r is Some <==> pattern_compiles(pattern@),
        r is Some ==> r->0 == pattern_found(pattern@, text@),
{
    match regex::Regex::new(pattern) {
        Ok(re) => Some(re.is_match(text)),
        Err(_) => None,
    }
}

/// Where the last segment of a path starts, looking back from `i`.
pub open spec fn segment_start(p: Seq<char>, i: int) -> int
    decreases i,
{
    if i <= 0 || p[i - 1] == '/' {
        i
    } else {
        segment_start(p, i - 1)
    }
}

/// What follows the last `/` of a path, or the whole path where it has none.
pub open spec fn last_segment(p: Seq<char>) -> Seq<char> {
    p.subrange(segment_start(p, p.len() as int), p.len() as int)
}

pub open spec fn starts_with(s: Seq<char>, prefix: Seq<char>) -> bool {
    prefix.len() <= s.len() && s.subrange(0, prefix.len() as int) == prefix
}

pub open spec fn is_array_exp() -> Seq<char> {
    "is array"@
}

pub open spec fn is_object_exp() -> Seq<char> {
    "is object"@
}

pub open spec fn is_number_exp() -> Seq<char> {
    "is number"@
}

pub open spec fn is_string_exp() -> Seq<char> {
    "is string"@
}

pub open spec fn has_prefix() -> Seq<char> {
    "HAS "@
}

pub open spec fn like_prefix() -> Seq<char> {
    "LIKE "@
}

/// An expectation that the engine understands.
pub open spec fn well_formed(e: Seq<char>) -> bool {
    ||| e == is_array_exp()
    ||| e == is_object_exp()
    ||| e == is_number_exp()
    ||| e == is_string_exp()
    ||| starts_with(e, has_prefix())
    ||| starts_with(e, like_prefix())
}

/// A text without the one pair of double quotes that encloses it, if it has one.
pub open spec fn unquoted(t: Seq<char>) -> Seq<char> {
    if t.len() >= 2 && t[0] == '"' && t[t.len() - 1] == '"' {
        t.subrange(1, t.len() - 1)
    } else {
        t
    }
}

/// `v` is an array with an item whose JSON text, unquoted, is `lit`.
pub open spec fn array_has(v: JsonValue, lit: Seq<char>) -> bool {
    v is Array && exists|i: int|
        0 <= i < v->Array_0@.len() && #[trigger] unquoted(render(v->Array_0@[i])) == lit
}

/// A child that is there and is not `null`.
pub open spec fn present(item: Option<JsonValue>) -> bool {
    item is Some && !(item->0 is Null)
}

/// What checking `expectation` on the child of `doc` named by the last segment of
/// `path` gives: an error for an expectation that cannot be evaluated, else whether
/// it holds.
pub open spec fn structure_outcome(doc: JsonValue, path: Seq<char>, e: Seq<char>) -> Result<
    bool,
    CheckError,
> {
    if !well_formed(e) {
        Err(CheckError::MalformedExpectation)
    } else {
        let item = child(doc, last_segment(path));
        if !present(item) {
            Ok(false)
        } else {
            let v = item->0;
            if e == is_array_exp() {
                Ok(v is Array)
            } else if e == is_object_exp() {
                Ok(v is Object)
            } else if e == is_number_exp() {
                Ok(v is Number)
            } else if e == is_string_exp() {
                Ok(v is Str)
            } else if starts_with(e, has_prefix()) {
                Ok(array_has(v, e.subrange(4, e.len() as int)))
            } else {
                let pattern = e.subrange(5, e.len() as int);
                if !(v is Str) {
                    Ok(false)
                } else if !pattern_compiles(pattern) {
                    Err(CheckError::InvalidPattern)
                } else {
                    Ok(pattern_found(pattern, v->Str_0@))
                }
            }
        }
    }
}

/// The message recorded for an expectation that does not hold.
pub open spec fn violation(path: Seq<char>, e: Seq<char>) -> Seq<char> {
    "Expected "@ + path + " "@ + e
}

/// The messages after one check: one more exactly where the expectation does not hold.
pub open spec fn after_check(
    errors: Seq<Seq<char>>,
    doc: JsonValue,
    path: Seq<char>,
    e: Seq<char>,
) -> Seq<Seq<char>> {
    if structure_outcome(doc, path, e) == Ok::<bool, CheckError>(false) {
        errors.push(violation(path, e))
    } else {
        errors
    }
}

/// The last segment of a path.
pub fn last_segment_of(path: &str) -> (r: &str)
    ensures
        r@ == last_segment(path@),
{
    let n = path.unicode_len();
    let mut i: usize = n;
    while i > 0 && path.get_char(i - 1) != '/'
        invariant
            i <= n,
            n == path@.len(),
            segment_start(path@, i as int) == segment_start(path@, n as int),
        decreases i,
    {
        i -= 1;
    }
    path.substring_char(i, n)
}

/// Whether `s` begins with `prefix`.
pub fn text_starts_with(s: &str, prefix: &str) -> (r: bool)
    ensures
        r == starts_with(s@, prefix@),
{
    let n = prefix.unicode_len();
    if n > s.unicode_len() {
        return false;
    }
    equal_text(s.substring_char(0, n), prefix)
}

fn unquote(t: &str) -> (r: &str)
    ensures
        r@ == unquoted(t@),
{
    let n = t.unicode_len();
    if n >= 2 && t.get_char(0) == '"' && t.get_char(n - 1) == '"' {
        t.substring_char(1, n - 1)
    } else {
        t
    }
}

/// Whether `candidate` is an array with an item whose JSON text, with one pair of
/// enclosing double quotes taken off, is `value`.
pub fn array_has_value(candidate: &JsonValue, value: &str) -> (r: bool)
    ensures
        r == array_has(*candidate, value@),
{
    match candidate {
        JsonValue::Array(items) => {
            let mut i: usize = 0;
            while i < items.len()
                invariant
                    i <= items@.len(),
                    *candidate == JsonValue::Array(*items),
                    forall|j: int| 0 <= j < i ==> #[trigger] unquoted(render(items@[j])) != value@,
                decreases items@.len() - i,
            {
                let text = render_json(&items[i]);
                let inner = unquote(text.as_str());
                if equal_text(inner, value) {
                    assert(candidate->Array_0@[i as int] == items@[i as int]);
                    assert(unquoted(render(candidate->Array_0@[i as int])) == value@);
                    return true;
                }
                i += 1;
            }
            false
        },
        _ => false,
    }
}

/// Whether `candidate` is a string in which the regular expression `regex` matches.
pub fn text_matches_regex(candidate: &JsonValue, regex: &str) -> (r: Result<bool, CheckError>)
    ensures
        r == (if !(candidate is Str) {
            Ok(false)
        } else if !pattern_compiles(regex@) {
            Err(CheckError::InvalidPattern)
        } else {
            Ok(pattern_found(regex@, candidate->Str_0@))
        }),
{
    match candidate {
        JsonValue::Str(s) => match find_pattern(regex, s.as_str()) {
            Some(found) => Ok(found),
            None => Err(CheckError::InvalidPattern),
        },
        _ => Ok(false),
    }
}

fn evaluate(container: &JsonValue, path: &str, expected: &str) -> (r: Result<bool, CheckError>)
    ensures
        r == structure_outcome(*container, path@, expected@),
{
    let is_array = equal_text(expected, "is array");
    let is_object = equal_text(expected, "is object");
    let is_number = equal_text(expected, "is number");
    let is_string = equal_text(expected, "is string");
    let has = text_starts_with(expected, "HAS ");
    let like = text_starts_with(expected, "LIKE ");
    if !(is_array || is_object || is_number || is_string || has || like) {
        return Err(CheckError::MalformedExpectation);
    }
    let key = last_segment_of(path);
    let item = match child_of(container, key) {
        Some(v) => v,
        None => return Ok(false),
    };
    if matches!(item, JsonValue::Null) {
        return Ok(false);
    }
    if is_array {
        Ok(matches!(item, JsonValue::Array(_)))
    } else if is_object {
        Ok(matches!(item, JsonValue::Object(_)))
    } else if is_number {
        Ok(matches!(item, JsonValue::Number(_)))
    } else if is_string {
        Ok(matches!(item, JsonValue::Str(_)))
    } else if has {
        proof {
            reveal_strlit("HAS ");
        }
        let n = expected.unicode_len();
        Ok(array_has_value(item, expected.substring_char(4, n)))
    } else {
        proof {
            reveal_strlit("LIKE ");
        }
        let n = expected.unicode_len();
        text_matches_regex(item, expected.substring_char(5, n))
    }
}

fn violation_text(path: &str, expected: &str) -> (r: String)
    ensures
        r@ == violation(path@, expected@),
{
    let mut r = String::from_str("Expected ");
    r.append(path);
    r.append(" ");
    r.append(expected);
    r
}

/// Checks `expected` on the child of `container` named by the last segment of `path`.
///
/// Only the last segment is looked up, directly under `container`; the segments before
/// it only make the recorded message readable. A child that is missing or `null` fails
/// any expectation. Where the expectation does not hold, `"Expected <path> <expected>"`
/// is appended to `errors`; an expectation that cannot be evaluated is an error and
/// records nothing.
pub fn check_structure(
    container: &JsonValue,
    path: &str,
    expected: &str,
    errors: &mut Vec<String>,
) -> (r: Result<bool, CheckError>)
    ensures
        r == structure_outcome(*container, path@, expected@),
        texts(final(errors)@) == after_check(texts(old(errors)@), *container, path@, expected@),
{
    let outcome = evaluate(container, path, expected);
    match outcome {
        Ok(false) => {
            let message = violation_text(path, expected);
            let ghost before = errors@;
            errors.push(message);
            assert(texts(errors@) =~= texts(before).push(message@));
        },
        _ => {},
    }
    outcome
}

/// The digit character of `d`.
pub open spec fn digit_char(d: nat) -> char {
    if d == 0 {
        '0'
    } else if d == 1 {
        '1'
    } else if d == 2 {
        '2'
    } else if d == 3 {
        '3'
    } else if d == 4 {
        '4'
    } else if d == 5 {
        '5'
    } else if d == 6 {
        '6'
    } else if d == 7 {
        '7'
    } else if d == 8 {
        '8'
    } else {
        '9'
    }
}

/// The decimal digits of `n`, without leading zeros.
pub open spec fn decimal(n: nat) -> Seq<char>
    decreases n,
{
    if n < 10 {
        seq![digit_char(n)]
    } else {
        decimal(n / 10).push(digit_char(n % 10))
    }
}

fn digit_text(d: usize) -> (r: &'static str)
    requires
        d < 10,
    ensures
        r@ == seq![digit_char(d as nat)],
{
    proof {
        reveal_strlit("0");
        reveal_strlit("1");
        reveal_strlit("2");
        reveal_strlit("3");
        reveal_strlit("4");
        reveal_strlit("5");
        reveal_strlit("6");
        reveal_strlit("7");
        reveal_strlit("8");
        reveal_strlit("9");
    }
    if d == 0 {
        "0"
    } else if d == 1 {
        "1"
    } else if d == 2 {
        "2"
    } else if d == 3 {
        "3"
    } else if d == 4 {
        "4"
    } else if d == 5 {
        "5"
    } else if d == 6 {
        "6"
    } else if d == 7 {
        "7"
    } else if d == 8 {
        "8"
    } else {
        "9"
    }
}

/// Writes `n` in decimal.
pub fn decimal_text(n: usize) -> (r: String)
    ensures
        r@ == decimal(n as nat),
    decreases n,
{
    if n < 10 {
        String::from_str(digit_text(n))
    } else {
        let mut r = decimal_text(n / 10);
        r.append(digit_text(n % 10));
        r
    }
}

/// The path prefix under which the `i`-th derived credential is reported.
pub open spec fn credential_prefix(i: nat) -> Seq<char> {
    "verifiableCredential["@ + decimal(i) + "]"@
}

/// Checks that the derived credential `vc`, the `i`-th of a presentation, has a `type`
/// array holding `VerifiableCredential` and an `@context` array holding the base
/// credentials context, reporting under the paths `verifiableCredential[i]/type` and
/// `verifiableCredential[i]/@context`.
pub fn check_vc(vc: &JsonValue, i: usize, errors: &mut Vec<String>)
    ensures
        texts(final(errors)@) == after_check(
            after_check(
                texts(old(errors)@),
                *vc,
                credential_prefix(i as nat) + "/type"@,
                "HAS VerifiableCredential"@,
            ),
            *vc,
            credential_prefix(i as nat) + "/@context"@,
            "HAS https://www.w3.org/2018/credentials/v1"@,
        ),
{
    let mut prefix = String::from_str("verifiableCredential[");
    let digits = decimal_text(i);
    prefix.append(digits.as_str());
    prefix.append("]");
    let mut type_path = prefix.clone();
    type_path.append("/type");
    let mut context_path = prefix;
    context_path.append("/@context");
    let _ = check_structure(vc, type_path.as_str(), "HAS VerifiableCredential", errors);
    let _ = check_structure(
        vc,
        context_path.as_str(),
        "HAS https://www.w3.org/2018/credentials/v1",
        errors,
    );
}

/// The messages of a batch of `(path, expectation)` checks on `doc`, in order, or the
/// error of the first check that cannot be evaluated.
pub open spec fn batch_outcome(doc: JsonValue, checks: Seq<(String, String)>) -> Result<
    Seq<Seq<char>>,
    CheckError,
>
    decreases checks.len(),
{
    if checks.len() == 0 {
        Ok(seq![])
    } else {
        let c = checks[checks.len() - 1];
        match batch_outcome(doc, checks.subrange(0, checks.len() - 1)) {
            Err(e) => Err(e),
            Ok(messages) => match structure_outcome(doc, c.0@, c.1@) {
                Err(e) => Err(e),
                Ok(held) => Ok(
                    if held {
                        messages
                    } else {
                        messages.push(violation(c.0@, c.1@))
                    },
                ),
            },
        }
    }
}

proof fn lemma_batch_error_stays(doc: JsonValue, checks: Seq<(String, String)>, i: int)
    requires
        0 <= i <= checks.len(),
        batch_outcome(doc, checks.subrange(0, i)) is Err,
    ensures
        batch_outcome(doc, checks) == batch_outcome(doc, checks.subrange(0, i)),
    decreases checks.len() - i,
{
    if i < checks.len() {
        let next = checks.subrange(0, i + 1);
        assert(next.subrange(0, i) =~= checks.subrange(0, i));
        lemma_batch_error_stays(doc, checks, i + 1);
    } else {
        assert(checks.subrange(0, i) =~= checks);
    }
}

/// Runs every check of a batch on `doc` and returns all the messages of the
/// expectations that do not hold, in order; a check that cannot be evaluated makes the
/// whole batch an error.
pub fn check_all(doc: &JsonValue, checks: &Vec<(String, String)>) -> (r: Result<
    Vec<String>,
    CheckError,
>)
    ensures
        match r {
            Ok(messages) => batch_outcome(*doc, checks@) == Ok::<Seq<Seq<char>>, CheckError>(
                texts(messages@),
            ),
            Err(e) => batch_outcome(*doc, checks@) == Err::<Seq<Seq<char>>, CheckError>(e),
        },
{
    let mut errors: Vec<String> = Vec::new();
    let mut i: usize = 0;
    assert(texts(errors@) =~= seq![]);
    while i < checks.len()
        invariant
            i <= checks@.len(),
            batch_outcome(*doc, checks@.subrange(0, i as int)) == Ok::<
                Seq<Seq<char>>,
                CheckError,
            >(texts(errors@)),
        decreases checks@.len() - i,
    {
        let ghost before = errors@;
        let outcome = check_structure(doc, checks[i].0.as_str(), checks[i].1.as_str(), &mut errors);
        assert(checks@.subrange(0, i + 1).subrange(0, i as int) =~= checks@.subrange(0, i as int));
        match outcome {
            Err(e) => {
                proof {
                    lemma_batch_error_stays(*doc, checks@, i + 1);
                }
                return Err(e);
            },
            Ok(_) => {},
        }
        i += 1;
    }
    assert(checks@.subrange(0, checks@.len() as int) =~= checks@);
    Ok(errors)
}

/// An `is array` expectation holds, and records nothing, wherever the addressed child
/// is an array.
pub proof fn lemma_is_array_holds(doc: JsonValue, path: Seq<char>, errors: Seq<Seq<char>>)
    requires
        child(doc, last_segment(path)) is Some,
        child(doc, last_segment(path))->0 is Array,
    ensures
        structure_outcome(doc, path, is_array_exp()) == Ok::<bool, CheckError>(true),
        after_check(errors, doc, path, is_array_exp()) == errors,
{
}

/// A `HAS <literal>` expectation on a child that is there holds exactly when the child
/// is an array with an item whose JSON text, unquoted, is the literal.
pub proof fn lemma_has_holds_iff(doc: JsonValue, path: Seq<char>, lit: Seq<char>)
    requires
        present(child(doc, last_segment(path))),
    ensures
        structure_outcome(doc, path, has_prefix() + lit) == Ok::<bool, CheckError>(
            array_has(child(doc, last_segment(path))->0, lit),
        ),
{
    reveal_strlit("HAS ");
    reveal_strlit("is array");
    reveal_strlit("is object");
    reveal_strlit("is number");
    reveal_strlit("is string");
    let e = has_prefix() + lit;
    assert(e.subrange(0, 4) =~= has_prefix());
    assert(e.subrange(4, e.len() as int) =~= lit);
    assert(e != is_array_exp() && e != is_object_exp() && e != is_number_exp() && e != is_string_exp()) by {
        assert(e[0] == 'H');
        assert(is_array_exp()[0] == 'i');
        assert(is_object_exp()[0] == 'i');
        assert(is_number_exp()[0] == 'i');
        assert(is_string_exp()[0] == 'i');
    }
}

/// A `LIKE <regex>` expectation on a string child, with a regex that compiles, holds
/// exactly when the regex matches somewhere in the string.
pub proof fn lemma_like_holds_iff(doc: JsonValue, path: Seq<char>, pattern: Seq<char>)
    requires
        child(doc, last_segment(path)) is Some,
        child(doc, last_segment(path))->0 is Str,
        pattern_compiles(pattern),
    ensures
        structure_outcome(doc, path, like_prefix() + pattern) == Ok::<bool, CheckError>(
            pattern_found(pattern, child(doc, last_segment(path))->0->Str_0@),
        ),
{
    reveal_strlit("HAS ");
    reveal_strlit("LIKE ");
    reveal_strlit("is array");
    reveal_strlit("is object");
    reveal_strlit("is number");
    reveal_strlit("is string");
    let e = like_prefix() + pattern;
    assert(e.subrange(0, 5) =~= like_prefix());
    assert(e.subrange(5, e.len() as int) =~= pattern);
    assert(e[0] == 'L');
    assert(!starts_with(e, has_prefix())) by {
        assert(e.subrange(0, 4)[0] == 'L');
    }
    assert(e != is_array_exp() && e != is_object_exp() && e != is_number_exp() && e != is_string_exp()) by {
        assert(is_array_exp()[0] == 'i');
        assert(is_object_exp()[0] == 'i');
        assert(is_number_exp()[0] == 'i');
        assert(is_string_exp()[0] == 'i');
    }
}

/// A well-formed expectation on a child that is missing or `null` fails, and records
/// exactly one message, which names the path.
pub proof fn lemma_missing_child_fails(
    doc: JsonValue,
    path: Seq<char>,
    e: Seq<char>,
    errors: Seq<Seq<char>>,
)
    requires
        well_formed(e),
        !present(child(doc, last_segment(path))),
    ensures
        structure_outcome(doc, path, e) == Ok::<bool, CheckError>(false),
        after_check(errors, doc, path, e) == errors.push(violation(path, e)),
{
}

/// A batch whose every expectation fails reports every one of them: one message per
/// check, in order, each naming that check's path and expectation.
pub proof fn lemma_failing_batch_reports_each(doc: JsonValue, checks: Seq<(String, String)>)
    requires
        forall|i: int|
            0 <= i < checks.len() ==> structure_outcome(doc, (#[trigger] checks[i]).0@, checks[i].1@)
                == Ok::<bool, CheckError>(false),
    ensures
        batch_outcome(doc, checks) is Ok,
        batch_outcome(doc, checks)->Ok_0.len() == checks.len(),
        forall|i: int|
            0 <= i < checks.len() ==> batch_outcome(doc, checks)->Ok_0[i] == violation(
                (#[trigger] checks[i]).0@,
                checks[i].1@,
            ),
    decreases checks.len(),
{
    if checks.len() > 0 {
        let front = checks.subrange(0, checks.len() - 1);
        assert forall|i: int| 0 <= i < front.len() implies structure_outcome(doc, (#[trigger] front[i]).0@, front[i].1@)
            == Ok::<bool, CheckError>(false) by {
            assert(front[i] == checks[i]);
        }
        lemma_failing_batch_reports_each(doc, front);
        let c = checks[checks.len() - 1];
        assert(structure_outcome(doc, c.0@, c.1@) == Ok::<bool, CheckError>(false));
        assert forall|i: int| 0 <= i < checks.len() implies batch_outcome(doc, checks)->Ok_0[i] == violation(
            (#[trigger] checks[i]).0@, checks[i].1@) by {
            if i < checks.len() - 1 {
                assert(front[i] == checks[i]);
            }
        }
    }
}

} // verus!
