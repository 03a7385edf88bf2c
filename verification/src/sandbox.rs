//! The path sandbox: the one gate through which every path that reaches
//! the library from outside has to pass.
//!
//! A path is confined to a root when, once each doubled separator in it has
//! been collapsed to a single one, it begins with the root, character for
//! character. Nothing else is checked: the sandbox does not resolve `..`
//! and does not look at the file system.

use vstd::prelude::*;
use crate::text::{chars_of, has_prefix, starts_with, string_of};

verus! {

/// `s` with each doubled separator replaced by a single one, in one pass
/// from the left. A run of three separators therefore leaves two.
pub open spec fn collapsed(s: Seq<char>) -> Seq<char>
    decreases s.len(),
{
    if s.len() == 0 {
        s
    } else if s.len() >= 2 && s[0] == '/' && s[1] == '/' {
        seq!['/'] + collapsed(s.skip(2))
    } else {
        seq![s[0]] + collapsed(s.skip(1))
    }
}

/// Whether `path` lies under `root`.
pub open spec fn confined(root: Seq<char>, path: Seq<char>) -> bool {
    has_prefix(collapsed(path), root)
}

/// Whether `path` lies under `root` and is longer than it: the root itself
/// is not strictly inside.
pub open spec fn strictly_confined(root: Seq<char>, path: Seq<char>) -> bool {
    confined(root, path) && collapsed(path).len() > root.len()
}

/// Whether `s` holds no doubled separator.
pub open spec fn no_doubled_separator(s: Seq<char>) -> bool {
    forall|i: int| 0 <= i && i + 1 < s.len() ==> !(s[i] == '/' && #[trigger] s[i + 1] == '/')
}

/// The prefix under which removable media are mounted.
pub open spec fn media_root() -> Seq<char> {
    seq!['/', 'm', 'e', 'd', 'i', 'a', '/']
}

/// What a client is told of a path that was refused.
pub open spec fn refusal() -> Seq<char> {
    "Invalid path"@
}

/// The message for a path that was refused.
pub fn refusal_message() -> (message: String)
    ensures
        message@ == refusal(),
{
    String::from_str("Invalid path")
}

/// Collapses each doubled separator of `path` to a single one.
pub fn collapse_separators(path: &Vec<char>) -> (out: Vec<char>)
    ensures
        out@ == collapsed(path@),
{
    let mut out: Vec<char> = Vec::new();
    let mut i: usize = 0;
    assert(path@.skip(0) == path@);
    while i < path.len()
        invariant
            i <= path.len(),
            collapsed(path@) == out@ + collapsed(path@.skip(i as int)),
        decreases path.len() - i,
    {
        let ghost rest = path@.skip(i as int);
        if path[i] == '/' && i + 1 < path.len() && path[i + 1] == '/' {
            assert(rest.skip(2) == path@.skip(i + 2));
            out.push('/');
            i = i + 2;
        } else {
            assert(rest.skip(1) == path@.skip(i + 1));
            out.push(path[i]);
            i = i + 1;
        }
    }
    out
}

/// A directory to which paths are confined.
pub struct PathSandbox {
    root: Vec<char>,
}

impl View for PathSandbox {
    type V = Seq<char>;

    /// The root of the sandbox.
    closed spec fn view(&self) -> Seq<char> {
        self.root@
    }
}

impl PathSandbox {
    /// The sandbox rooted at `root`.
    pub fn new(root: &str) -> (sandbox: PathSandbox)
        ensures
            sandbox@ == root@,
    {
        PathSandbox { root: chars_of(root) }
    }

    /// The sandbox of removable media, rooted at `/media/`.
    pub fn removable_media() -> (sandbox: PathSandbox)
        ensures
            sandbox@ == media_root(),
    {
        proof {
            reveal_strlit("/media/");
        }
        let sandbox = PathSandbox::new("/media/");
        assert(sandbox@ =~= media_root());
        sandbox
    }

    /// The root of the sandbox.
    pub fn root(&self) -> (root: String)
        ensures
            root@ == self@,
    {
        string_of(&self.root)
    }

    /// Decides whether `path` is confined to the sandbox. A path shorter
    /// than the root is not.
    pub fn validate(&self, path: &str) -> (ok: bool)
        ensures
            ok == confined(self@, path@),
    {
        self.validate_chars(&chars_of(path))
    }

    /// Decides whether `path`, given as characters, is confined to the
    /// sandbox.
    pub fn validate_chars(&self, path: &Vec<char>) -> (ok: bool)
        ensures
            ok == confined(self@, path@),
    {
        let normal = collapse_separators(path);
        starts_with(&normal, &self.root)
    }

    /// Decides whether `path` is confined to the sandbox and is not the
    /// root itself.
    pub fn holds_strictly(&self, path: &str) -> (ok: bool)
        ensures
            ok == strictly_confined(self@, path@),
    {
        let normal = collapse_separators(&chars_of(path));
        normal.len() > self.root.len() && starts_with(&normal, &self.root)
    }
}

/// Collapsing separators never makes a path longer.
pub proof fn lemma_collapsed_is_no_longer(s: Seq<char>)
    ensures
        collapsed(s).len() <= s.len(),
    decreases s.len(),
{
    if s.len() == 0 {
    } else if s.len() >= 2 && s[0] == '/' && s[1] == '/' {
        lemma_collapsed_is_no_longer(s.skip(2));
    } else {
        lemma_collapsed_is_no_longer(s.skip(1));
    }
}

/// A path shorter than the root is never confined to it.
pub proof fn lemma_short_path_is_rejected(root: Seq<char>, path: Seq<char>)
    requires
        path.len() < root.len(),
    ensures
        !confined(root, path),
{
    lemma_collapsed_is_no_longer(path);
}

/// A path without doubled separators is left as it is.
pub proof fn lemma_collapsed_keeps_clean_path(s: Seq<char>)
    requires
        no_doubled_separator(s),
    ensures
        collapsed(s) == s,
    decreases s.len(),
{
    if s.len() > 0 {
        assert(s.len() >= 2 ==> !(s[0] == '/' && s[0int + 1] == '/'));
        let rest = s.skip(1);
        assert forall|i: int| 0 <= i && i + 1 < rest.len() implies !(rest[i] == '/'
            && #[trigger] rest[i + 1] == '/') by {
            assert(rest[i] == s[i + 1]);
            assert(rest[i + 1] == s[(i + 1) + 1]);
        }
        lemma_collapsed_keeps_clean_path(rest);
        assert(seq![s[0]] + rest == s);
    }
}

/// What a path collapses to is the beginning of what any extension of it
/// collapses to.
pub proof fn lemma_collapsed_extension(s: Seq<char>, rest: Seq<char>)
    ensures
        has_prefix(collapsed(s + rest), collapsed(s)),
    decreases s.len(),
{
    let whole = s + rest;
    if s.len() == 0 {
        assert(collapsed(whole).take(0) == collapsed(s));
    } else if s.len() >= 2 && s[0] == '/' && s[1] == '/' {
        lemma_collapsed_extension(s.skip(2), rest);
        assert(whole.skip(2) == s.skip(2) + rest);
        assert(collapsed(whole).take(collapsed(s).len() as int) == seq!['/'] + collapsed(
            whole.skip(2),
        ).take(collapsed(s.skip(2)).len() as int));
    } else if whole.len() >= 2 && whole[0] == '/' && whole[1] == '/' {
        assert(s.len() == 1);
        assert(collapsed(s.skip(1)) == Seq::<char>::empty());
        assert(collapsed(s) == seq!['/']);
        assert(collapsed(whole).take(1) == seq!['/']);
    } else {
        lemma_collapsed_extension(s.skip(1), rest);
        assert(whole.skip(1) == s.skip(1) + rest);
        assert(collapsed(whole).take(collapsed(s).len() as int) == seq![s[0]] + collapsed(
            whole.skip(1),
        ).take(collapsed(s.skip(1)).len() as int));
    }
}

/// A path that is confined to a root stays confined to it when it is
/// extended: what lies below a confined directory is confined too.
pub proof fn lemma_extension_stays_confined(root: Seq<char>, path: Seq<char>, rest: Seq<char>)
    requires
        confined(root, path),
    ensures
        confined(root, path + rest),
{
    lemma_collapsed_extension(path, rest);
    let short = collapsed(path);
    let long = collapsed(path + rest);
    assert(long.take(root.len() as int) == long.take(short.len() as int).take(root.len() as int));
}

/// A root without doubled separators is confined to itself, and so is
/// everything below it.
pub proof fn lemma_below_clean_root_is_confined(root: Seq<char>, rest: Seq<char>)
    requires
        no_doubled_separator(root),
    ensures
        confined(root, root + rest),
{
    lemma_collapsed_keeps_clean_path(root);
    assert(root.take(root.len() as int) == root);
    lemma_extension_stays_confined(root, root, rest);
}

} // verus!
