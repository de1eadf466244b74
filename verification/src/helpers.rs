//! Names that the whole tree agrees on, and the derivation of the on-disk
//! form of a name that a person typed.

use vstd::prelude::*;
use vstd::string::*;
use crate::paths::PathStyle;
use crate::sequences::{lemma_filter_map_start, lemma_filter_map_step};
use crate::text::chars_of;

verus! {

/// Program that reveals a folder on Windows.
pub const EXPLORER: &'static str = "explorer";

/// Program that reveals a folder elsewhere.
pub const FINDER: &'static str = "finder";

/// Name of the descriptor file at the root of every project.
pub const PROJECT_FILE_NAME: &'static str = "project.yaml";

/// Name of the marker file inside every task directory.
pub const TASK_FILE_NAME: &'static str = "task.yaml";

/// Name of the directory inside a task that holds what the task puts out.
pub const OUTPUT_DIR_NAME: &'static str = "02_output";

/// Name of the descriptor file inside every template directory.
pub const DCC_FILE_NAME: &'static str = "app.yaml";

/// What `str::to_lowercase` of the standard library returns for a text: its
/// lowercase equivalent under the Unicode case mapping, which depends on the
/// text alone.
pub uninterp spec fn lowercase_of(s: Seq<char>) -> Seq<char>;

/// `str::to_lowercase` of the standard library: the result is the Unicode
/// lowercase equivalent of `s`, named `lowercase_of`.
#[verifier::external_body]
fn to_lowercase(s: &str) -> (r: String)
    ensures
        r@ == lowercase_of(s@),
{
    s.to_lowercase()
}

/// Whether `c` is an ASCII letter or digit.
pub open spec fn is_ascii_alphanumeric(c: char) -> bool {
    ('a' <= c && c <= 'z') || ('A' <= c && c <= 'Z') || ('0' <= c && c <= '9')
}

/// What a character becomes in a sanitized name, if it stays at all: ASCII
/// letters and digits stay, `_` and `-` become `_`, the three accented vowels
/// lose their accent, and every other character is dropped.
pub open spec fn sanitized_char(c: char) -> Option<char> {
    if is_ascii_alphanumeric(c) {
        Some(c)
    } else if c == '_' || c == '-' {
        Some('_')
    } else if c == '\u{e5}' || c == '\u{e4}' {
        Some('a')
    } else if c == '\u{f6}' {
        Some('o')
    } else {
        None
    }
}

/// The sanitized form of an already lowercase text: the characters that stay,
/// each in its sanitized form, in their order.
pub open spec fn sanitized(s: Seq<char>) -> Seq<char> {
    s.filter(|c: char| sanitized_char(c) is Some).map_values(|c: char| sanitized_char(c)->0)
}

/// Whether `c` may appear in a sanitized name.
pub open spec fn is_safe_char(c: char) -> bool {
    is_ascii_alphanumeric(c) || c == '_'
}

/// One step of `sanitized`: what the text up to and including index `i` gives.
proof fn lemma_sanitized_step(s: Seq<char>, i: int)
    requires
        0 <= i < s.len(),
    ensures
        sanitized(s.take(i + 1)) == match sanitized_char(s[i]) {
            Some(c) => sanitized(s.take(i)).push(c),
            None => sanitized(s.take(i)),
        },
        sanitized(s.take(0)) == Seq::<char>::empty(),
        s.take(s.len() as int) == s,
{
    lemma_filter_map_step(
        s,
        |c: char| sanitized_char(c) is Some,
        |c: char| sanitized_char(c)->0,
        i,
    );
    lemma_filter_map_start(
        s,
        |c: char| sanitized_char(c) is Some,
        |c: char| sanitized_char(c)->0,
    );
}

/// A sanitized name holds only ASCII letters, digits and `_`; it is empty
/// exactly when no character of the text stays; and it is never longer than
/// the text.
pub proof fn lemma_sanitized_is_safe(s: Seq<char>)
    ensures
        forall|k: int| 0 <= k < sanitized(s).len() ==> is_safe_char(#[trigger] sanitized(s)[k]),
        sanitized(s).len() <= s.len(),
        sanitized(s).len() > 0 <==> exists|i: int| 0 <= i < s.len() && sanitized_char(s[i]) is Some,
    decreases s.len(),
{
    if s.len() == 0 {
        assert(sanitized(s) =~= Seq::<char>::empty()) by {
            reveal(Seq::filter);
        }
    } else {
        let i = s.len() - 1;
        let head = s.take(i);
        lemma_sanitized_is_safe(head);
        lemma_sanitized_step(s, i);
        assert(s.take(i + 1) =~= s);
        if exists|j: int| 0 <= j < head.len() && sanitized_char(head[j]) is Some {
            let j = choose|j: int| 0 <= j < head.len() && sanitized_char(head[j]) is Some;
            assert(sanitized_char(s[j]) is Some);
        }
        if sanitized(s).len() > 0 && sanitized_char(s[i]) is None {
            let j = choose|j: int| 0 <= j < head.len() && sanitized_char(head[j]) is Some;
            assert(sanitized_char(s[j]) is Some);
        }
        if exists|j: int| 0 <= j < s.len() && sanitized_char(s[j]) is Some {
            let j = choose|j: int| 0 <= j < s.len() && sanitized_char(s[j]) is Some;
            if j < i {
                assert(sanitized_char(head[j]) is Some);
            }
        }
    }
}

/// Sanitizing a sanitized name changes nothing.
pub proof fn lemma_sanitized_idempotent(s: Seq<char>)
    ensures
        sanitized(sanitized(s)) == sanitized(s),
{
    let t = sanitized(s);
    lemma_sanitized_is_safe(s);
    lemma_sanitized_of_safe(t);
}

/// A text of safe characters is its own sanitized form.
pub proof fn lemma_sanitized_of_safe(t: Seq<char>)
    requires
        forall|k: int| 0 <= k < t.len() ==> is_safe_char(#[trigger] t[k]),
    ensures
        sanitized(t) == t,
    decreases t.len(),
{
    if t.len() == 0 {
        assert(sanitized(t) =~= t) by {
            reveal(Seq::filter);
        }
    } else {
        let i = t.len() - 1;
        lemma_sanitized_of_safe(t.take(i));
        lemma_sanitized_step(t, i);
        assert(t.take(i + 1) =~= t);
        assert(is_safe_char(t[i]));
        assert(t.take(i).push(t[i]) =~= t);
    }
}

/// Sanitizes one character.
pub fn sanitize_char(c: char) -> (r: Option<char>)
    ensures
        r == sanitized_char(c),
{
    if (c >= 'a' && c <= 'z') || (c >= 'A' && c <= 'Z') || (c >= '0' && c <= '9') {
        Some(c)
    } else if c == '_' || c == '-' {
        Some('_')
    } else if c == '\u{e5}' || c == '\u{e4}' {
        Some('a')
    } else if c == '\u{f6}' {
        Some('o')
    } else {
        None
    }
}

/// Sanitizes a text that is already lowercase.
pub fn sanitize_lowered(s: &str) -> (r: String)
    ensures
        r@ == sanitized(s@),
{
    let v = chars_of(s);
    let mut out = String::new();
    let mut i: usize = 0;
    proof {
        assert(sanitized(v@.take(0)) =~= Seq::<char>::empty()) by {
            reveal(Seq::filter);
        }
    }
    while i < v.len()
        invariant
            i <= v.len(),
            out@ == sanitized(v@.take(i as int)),
        decreases v.len() - i,
    {
        proof {
            lemma_sanitized_step(v@, i as int);
        }
        match sanitize_char(v[i]) {
            Some(c) => out.push(c),
            None => {},
        }
        i += 1;
    }
    proof {
        assert(v@.take(v.len() as int) =~= v@);
    }
    out
}

/// The on-disk form of a name: lowercase first, then sanitized.
pub fn sanitize_string(s: String) -> (r: String)
    ensures
        r@ == sanitized(lowercase_of(s@)),
{
    let lowered = to_lowercase(s.as_str());
    sanitize_lowered(lowered.as_str())
}

/// The program that reveals a folder on this kind of system.
pub open spec fn program_for(style: PathStyle) -> Seq<char> {
    match style {
        PathStyle::Windows => EXPLORER@,
        PathStyle::Posix => FINDER@,
    }
}

/// The program that reveals a folder on this kind of system.
pub fn reveal_program(style: PathStyle) -> (r: &'static str)
    ensures
        r@ == program_for(style),
{
    match style {
        PathStyle::Windows => EXPLORER,
        PathStyle::Posix => FINDER,
    }
}

/// A request to show a path with a program of the system.
#[derive(Debug, PartialEq, Eq)]
pub struct OpenRequest {
    pub path: String,
    pub program: String,
}

impl OpenRequest {
    /// The request to reveal `path` in the file browser of the system.
    pub fn in_file_browser(path: String, style: PathStyle) -> (r: Self)
        ensures
            r.path@ == path@,
            r.program@ == program_for(style),
    {
        OpenRequest { path, program: String::from_str(reveal_program(style)) }
    }
}

} // verus!
