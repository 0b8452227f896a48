//! Requirement strings and version constraints.
//!
//! The index announces what a package requires as free text
//! (`requests (>=2.0) ; python_version > "3"`); a manifest or a command line
//! names packages as `name@version` or `name==version`. This module turns
//! both into a name and a constraint, and decides whether an installed
//! version meets a constraint.

use crate::error::CobraError;
use crate::text::{
    before, before_window, concat, find, find_in, lemma_find_from, matches_at, same_text, scan,
    skip_leading, slice_text, starts_with, strip_leading, strip_trailing, strip_trailing_window,
    to_chars, trim, trim_window, CharClass,
};
use vstd::prelude::*;

verus! {

/// The requirement without its environment marker (from the first `;`) and
/// its extras (from the first `[`), trimmed after each cut.
pub open spec fn requirement_body(s: Seq<char>) -> Seq<char> {
    trim(before(trim(before(s, ';')), '['))
}

/// The name and the constraint that stand left and right of index `at`.
pub open spec fn split_trimmed(body: Seq<char>, at: int) -> (Seq<char>, Seq<char>) {
    (trim(body.take(at)), trim(body.skip(at)))
}

/// The split of `body` at the first operator, where the operators are tried
/// in the order `==`, `>=`, `<=`, `~=`, `!=`; without an operator the whole
/// body is the name and the constraint is `*`.
pub open spec fn split_at_operator(body: Seq<char>) -> (Seq<char>, Seq<char>) {
    if find(body, "=="@) is Some {
        split_trimmed(body, find(body, "=="@).unwrap())
    } else if find(body, ">="@) is Some {
        split_trimmed(body, find(body, ">="@).unwrap())
    } else if find(body, "<="@) is Some {
        split_trimmed(body, find(body, "<="@).unwrap())
    } else if find(body, "~="@) is Some {
        split_trimmed(body, find(body, "~="@).unwrap())
    } else if find(body, "!="@) is Some {
        split_trimmed(body, find(body, "!="@).unwrap())
    } else {
        (body, "*"@)
    }
}

/// The name and the constraint that a requirement string stands for.
///
/// With a `(` in the body, the name is what precedes it and the constraint
/// what follows it, without the closing parentheses at its end. Otherwise
/// the body is split at its first operator.
pub open spec fn parsed_requirement(s: Seq<char>) -> (Seq<char>, Seq<char>) {
    let body = requirement_body(s);
    let paren = scan(body, CharClass::Except('('), 0);
    if paren < body.len() {
        (trim(body.take(paren)), trim(strip_trailing(body.skip(paren + 1), ')')))
    } else {
        split_at_operator(body)
    }
}

/// Splits the window `lo..hi` of `v` at the first occurrence of `op`.
fn split_window(dep: &str, v: &Vec<char>, lo: usize, hi: usize, op: &str) -> (r: Option<
    (String, String),
>)
    requires
        v@ == dep@,
        lo <= hi <= v.len(),
    ensures
        match r {
            Some(pair) => find(v@.subrange(lo as int, hi as int), op@) is Some && (
                pair.0@,
                pair.1@,
            ) == split_trimmed(
                v@.subrange(lo as int, hi as int),
                find(v@.subrange(lo as int, hi as int), op@).unwrap(),
            ),
            None => find(v@.subrange(lo as int, hi as int), op@) is None,
        },
{
    let ghost body = v@.subrange(lo as int, hi as int);
    let pat = to_chars(op);
    match find_in(v, lo, hi, &pat) {
        Some(at) => {
            let (a, b) = trim_window(v, lo, at);
            let (c, d) = trim_window(v, at, hi);
            proof {
                assert(v@.subrange(lo as int, at as int) =~= body.take(at - lo));
                assert(v@.subrange(at as int, hi as int) =~= body.skip(at - lo));
            }
            Some((slice_text(dep, a, b), slice_text(dep, c, d)))
        },
        None => None,
    }
}

/// Parses a requirement string of the index into a name and a version
/// constraint. The result is never `None`.
pub fn parse_dependency(dep_str: &str) -> (r: Option<(String, String)>)
    ensures
        r matches Some(pair) && (pair.0@, pair.1@) == parsed_requirement(dep_str@),
{
    let v = to_chars(dep_str);
    let n = v.len();
    assert(v@.subrange(0, n as int) =~= dep_str@);
    let semi = before_window(&v, 0, n, ';');
    let (a, b) = trim_window(&v, 0, semi);
    let bracket = before_window(&v, a, b, '[');
    let (lo, hi) = trim_window(&v, a, bracket);
    let ghost body = v@.subrange(lo as int, hi as int);
    assert(body == requirement_body(dep_str@));
    let paren = before_window(&v, lo, hi, '(');
    if paren < hi {
        let (c, d) = trim_window(&v, lo, paren);
        let end = strip_trailing_window(&v, paren + 1, hi, ')');
        let (e, f) = trim_window(&v, paren + 1, end);
        proof {
            assert(v@.subrange(lo as int, paren as int) =~= body.take(paren - lo));
            assert(v@.subrange(paren + 1, hi as int) =~= body.skip(paren - lo + 1));
        }
        return Some((slice_text(dep_str, c, d), slice_text(dep_str, e, f)));
    }
    if let Some(pair) = split_window(dep_str, &v, lo, hi, "==") {
        return Some(pair);
    }
    if let Some(pair) = split_window(dep_str, &v, lo, hi, ">=") {
        return Some(pair);
    }
    if let Some(pair) = split_window(dep_str, &v, lo, hi, "<=") {
        return Some(pair);
    }
    if let Some(pair) = split_window(dep_str, &v, lo, hi, "~=") {
        return Some(pair);
    }
    if let Some(pair) = split_window(dep_str, &v, lo, hi, "!=") {
        return Some(pair);
    }
    Some((slice_text(dep_str, lo, hi), String::from_str("*")))
}

/// The name and the constraint that a package argument stands for:
/// `name@constraint`, else `name==version`, else the bare name with `*`.
pub open spec fn parsed_package_spec(s: Seq<char>) -> (Seq<char>, Seq<char>) {
    let at = scan(s, CharClass::Except('@'), 0);
    if at < s.len() {
        (s.take(at), s.skip(at + 1))
    } else if find(s, "=="@) is Some {
        let i = find(s, "=="@).unwrap();
        (s.take(i), "=="@ + s.skip(i + "=="@.len()))
    } else {
        (s, "*"@)
    }
}

/// Parses a package argument into a name and a version constraint. The
/// result is never an error.
pub fn parse_package_spec(spec: &str) -> (r: Result<(String, String), CobraError>)
    ensures
        r matches Ok(pair) && (pair.0@, pair.1@) == parsed_package_spec(spec@),
{
    let v = to_chars(spec);
    let n = v.len();
    assert(v@.subrange(0, n as int) =~= spec@);
    let at = before_window(&v, 0, n, '@');
    if at < n {
        proof {
            assert(spec@.subrange(0, at as int) =~= spec@.take(at as int));
            assert(spec@.subrange(at + 1, n as int) =~= spec@.skip(at + 1));
        }
        return Ok((slice_text(spec, 0, at), slice_text(spec, at + 1, n)));
    }
    let pin = to_chars("==");
    match find_in(&v, 0, n, &pin) {
        Some(i) => {
            proof {
                lemma_find_from(spec@, pin@, 0);
                assert(spec@.subrange(0, i as int) =~= spec@.take(i as int));
                assert(spec@.subrange(i + pin@.len(), n as int) =~= spec@.skip(i + pin@.len()));
            }
            let version = slice_text(spec, i + pin.len(), n);
            Ok((slice_text(spec, 0, i), concat("==", version.as_str())))
        },
        None => {
            proof {
                assert(spec@.subrange(0, n as int) =~= spec@);
            }
            Ok((slice_text(spec, 0, n), String::from_str("*")))
        },
    }
}

/// Whether a constraint asks the index for its latest version: `*` or the
/// empty constraint.
pub open spec fn is_latest(spec: Seq<char>) -> bool {
    spec == "*"@ || spec.len() == 0
}

/// Whether a constraint asks the index for its latest version.
pub fn wants_latest(version_spec: &str) -> (r: bool)
    ensures
        r == is_latest(version_spec@),
{
    same_text(version_spec, "*") || version_spec.unicode_len() == 0
}

/// The version that a constraint pins: the constraint without its leading
/// operators, stripped in the order `==`, `>=`, `<=`, `~=`, `^`, each as
/// often as it repeats, and trimmed.
pub open spec fn pinned_version(spec: Seq<char>) -> Seq<char> {
    trim(
        strip_leading(
            strip_leading(
                strip_leading(strip_leading(strip_leading(spec, "=="@), ">="@), "<="@),
                "~="@,
            ),
            "^"@,
        ),
    )
}

/// The version that a constraint pins, as the index expects it in a path.
pub fn exact_version(version_spec: &str) -> (version: String)
    ensures
        version@ == pinned_version(version_spec@),
{
    let v = to_chars(version_spec);
    let n = v.len();
    assert(v@.subrange(0, n as int) =~= version_spec@);
    let a = skip_leading(&v, 0, n, &to_chars("=="));
    let b = skip_leading(&v, a, n, &to_chars(">="));
    let c = skip_leading(&v, b, n, &to_chars("<="));
    let d = skip_leading(&v, c, n, &to_chars("~="));
    let e = skip_leading(&v, d, n, &to_chars("^"));
    let (lo, hi) = trim_window(&v, e, n);
    slice_text(version_spec, lo, hi)
}

/// Whether an installed version meets a constraint, as the registry judges
/// it: `*` is met by every version, `==X` by the version `X`, and any other
/// constraint by the version that is spelled like the constraint.
pub open spec fn satisfies(installed: Seq<char>, required: Seq<char>) -> bool {
    if required == "*"@ {
        true
    } else if starts_with(required, "=="@) {
        installed == required.skip("=="@.len() as int)
    } else {
        installed == required
    }
}

/// Whether an installed version meets a constraint, as the registry judges
/// it.
pub fn version_satisfies(installed: &str, required: &str) -> (r: bool)
    ensures
        r == satisfies(installed@, required@),
{
    if same_text(required, "*") {
        return true;
    }
    let v = to_chars(required);
    let n = v.len();
    let pin = to_chars("==");
    assert(v@.subrange(0, n as int) =~= required@);
    if matches_at(&v, 0, n, &pin) {
        let rest = slice_text(required, pin.len(), n);
        assert(required@.subrange(pin@.len() as int, n as int) =~= required@.skip(
            pin@.len() as int,
        ));
        same_text(installed, rest.as_str())
    } else {
        same_text(installed, required)
    }
}

/// Whether an installed version agrees with a constraint of the manifest, as
/// the consistency check judges it: like [`satisfies`], but a lower bound
/// (`>=`) counts as met.
pub open spec fn matches_constraint(installed: Seq<char>, spec: Seq<char>) -> bool {
    if spec == "*"@ {
        true
    } else if starts_with(spec, "=="@) {
        installed == spec.skip("=="@.len() as int)
    } else if starts_with(spec, ">="@) {
        true
    } else {
        installed == spec
    }
}

/// Whether an installed version agrees with a constraint of the manifest.
pub fn version_matches(installed_version: &str, version_spec: &str) -> (r: bool)
    ensures
        r == matches_constraint(installed_version@, version_spec@),
{
    if same_text(version_spec, "*") {
        return true;
    }
    let v = to_chars(version_spec);
    let n = v.len();
    let pin = to_chars("==");
    assert(v@.subrange(0, n as int) =~= version_spec@);
    if matches_at(&v, 0, n, &pin) {
        let rest = slice_text(version_spec, pin.len(), n);
        assert(version_spec@.subrange(pin@.len() as int, n as int) =~= version_spec@.skip(
            pin@.len() as int,
        ));
        return same_text(installed_version, rest.as_str());
    }
    if matches_at(&v, 0, n, &to_chars(">=")) {
        return true;
    }
    same_text(installed_version, version_spec)
}

} // verus!
