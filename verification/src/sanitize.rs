//! Sanitizing text that arrives from a client: every character outside a
//! small class is replaced by a placeholder, one for one.

use vstd::prelude::*;
use crate::text::is_alnum;

verus! {

/// The character that takes the place of every character that is not
/// allowed.
pub open spec fn placeholder() -> char {
    'x'
}

/// The regular expression that matches a character that a label may not
/// hold: anything but an ASCII letter or digit.
pub open spec fn label_pattern() -> Seq<char> {
    "[^A-Za-z0-9]"@
}

/// The regular expression that matches a character that a path may not
/// hold: anything but an ASCII letter, a digit or the separator.
pub open spec fn path_pattern() -> Seq<char> {
    "[^A-Za-z0-9/]"@
}

/// Whether a path may hold `c`.
pub open spec fn is_path_char(c: char) -> bool {
    is_alnum(c) || c == '/'
}

/// `raw` with every character that is not an ASCII letter or digit
/// replaced by the placeholder.
pub open spec fn sanitized_label(raw: Seq<char>) -> Seq<char> {
    raw.map_values(
        |c: char|
            if is_alnum(c) {
                c
            } else {
                placeholder()
            },
    )
}

/// `raw` with every character that is not an ASCII letter, a digit or the
/// separator replaced by the placeholder.
pub open spec fn sanitized_path(raw: Seq<char>) -> Seq<char> {
    raw.map_values(
        |c: char|
            if is_path_char(c) {
                c
            } else {
                placeholder()
            },
    )
}

/// What replacing every match of one of the two patterns by the
/// placeholder leaves of `text`.
pub open spec fn replaced(pattern: Seq<char>, text: Seq<char>) -> Seq<char> {
    if pattern == label_pattern() {
        sanitized_label(text)
    } else {
        sanitized_path(text)
    }
}

/// Replaces every match of `pattern` in `text` by `replacement`.
///
/// Trusted: calls `Regex::new` and `Regex::replace_all` of the `regex`
/// crate. The contract speaks of two patterns only, each a negated class of
/// single characters, and of the replacement `x`, which holds no `$` and is
/// therefore taken literally. Both patterns compile. A negated class
/// matches exactly one character that is not in the class, so replacing
/// all matches replaces each such character by `x` and keeps every other
/// character where it is.
#[verifier::external_body]
fn replace_all(pattern: &str, text: &str, replacement: &str) -> (out: String)
    requires
        pattern@ == label_pattern() || pattern@ == path_pattern(),
        replacement@ == seq![placeholder()],
    ensures
        out@ == replaced(pattern@, text@),
{
    regex::Regex::new(pattern).unwrap().replace_all(text, replacement).into_owned()
}

/// Makes a label of what a client sent: every character that is not an
/// ASCII letter or digit becomes the placeholder. The result is as long as
/// the input and holds letters and digits only.
pub fn sanitize_label(raw: &str) -> (label: String)
    ensures
        label@ == sanitized_label(raw@),
        label@.len() == raw@.len(),
        forall|i: int| 0 <= i < label@.len() ==> is_alnum(#[trigger] label@[i]),
{
    proof {
        reveal_strlit("x");
        assert("x"@ =~= seq![placeholder()]);
    }
    replace_all("[^A-Za-z0-9]", raw, "x")
}

/// Makes a path safe to look up: every character that is not an ASCII
/// letter, a digit or the separator becomes the placeholder.
pub fn sanitize_path(raw: &str) -> (path: String)
    ensures
        path@ == sanitized_path(raw@),
        path@.len() == raw@.len(),
        forall|i: int| 0 <= i < path@.len() ==> is_path_char(#[trigger] path@[i]),
{
    proof {
        reveal_strlit("x");
        reveal_strlit("[^A-Za-z0-9]");
        reveal_strlit("[^A-Za-z0-9/]");
        assert("x"@ =~= seq![placeholder()]);
        assert(path_pattern().len() != label_pattern().len());
    }
    replace_all("[^A-Za-z0-9/]", raw, "x")
}

/// A label is left as it is when it is sanitized as a path: sanitizing a
/// label a second time, by either rule, changes nothing.
pub proof fn lemma_label_is_stable(raw: Seq<char>)
    ensures
        sanitized_path(sanitized_label(raw)) == sanitized_label(raw),
        sanitized_label(sanitized_label(raw)) == sanitized_label(raw),
{
    assert(sanitized_path(sanitized_label(raw)) =~= sanitized_label(raw));
    assert(sanitized_label(sanitized_label(raw)) =~= sanitized_label(raw));
}

/// A label holds neither a separator nor a hyphen.
pub proof fn lemma_label_holds_no_separator(raw: Seq<char>)
    ensures
        !sanitized_label(raw).contains('/'),
        !sanitized_label(raw).contains('-'),
        !sanitized_label(raw).contains('.'),
{
}

/// The label of an accepted request can name a directory: it is a plain
/// name.
pub proof fn lemma_label_is_plain_name(raw: Seq<char>)
    requires
        raw.len() > 0,
    ensures
        crate::paths::is_plain_name(sanitized_label(raw)),
{
    let label = sanitized_label(raw);
    lemma_label_holds_no_separator(raw);
    assert(label[0] != '.');
}

} // verus!
