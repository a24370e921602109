use vstd::prelude::*;
use crate::text::{alphanumeric, chars_of, is_letter_or_digit, lowercase_of, string_of};

verus! {

/// The longest name, in characters, that the sanitizer lets through.
pub const MAX_FILENAME_LENGTH: usize = 255;

/// The final component of a path as `std::path::Path::file_name` finds it,
/// or `None` where the path has none, as when it ends in `..`.
pub uninterp spec fn final_component(path: Seq<char>) -> Option<Seq<char>>;

/// `std::path::Path::file_name` returns the last component of a path, without
/// the directories before it, or nothing where the path ends in no ordinary
/// component. Which characters divide a path is a matter of the platform
/// that the library is built for; on one platform the result depends on the
/// characters of `path` alone.
#[verifier::external_body]
fn path_file_name(path: &str) -> (name: Option<String>)
    ensures
        match name {
            Some(n) => final_component(path@) == Some(n@),
            None => final_component(path@) is None,
        },
{
    match std::path::Path::new(path).file_name() {
        Some(name) => match name.to_str() {
            Some(text) => Some(text.to_string()),
            None => None,
        },
        None => None,
    }
}

/// Whether the sanitizer keeps `c` as it is: letters, digits, `.`, `-`, `_`.
pub open spec fn is_safe_char(c: char) -> bool {
    alphanumeric(c) || c == '.' || c == '-' || c == '_'
}

/// A safe character stays; any other becomes `_`.
pub open spec fn replace_unsafe(c: char) -> char {
    if is_safe_char(c) {
        c
    } else {
        '_'
    }
}

/// `s` with each unsafe character replaced, position by position.
pub open spec fn replace_all_unsafe(s: Seq<char>) -> Seq<char> {
    Seq::new(s.len(), |i: int| replace_unsafe(s[i]))
}

/// The index of the last `.` in `s`, or -1 where `s` holds none.
pub open spec fn last_dot(s: Seq<char>) -> int
    decreases s.len(),
{
    if s.len() == 0 {
        -1
    } else if s.last() == '.' {
        s.len() - 1
    } else {
        last_dot(s.drop_last())
    }
}

/// `s` cut down to `MAX_FILENAME_LENGTH` characters. A name within the limit
/// stays whole. A longer one keeps its extension (the last `.` and what
/// follows) and as much of its beginning as then fits; where it has no `.`,
/// or the extension alone is over the limit, it keeps its first
/// `MAX_FILENAME_LENGTH` characters.
pub open spec fn limit_length(s: Seq<char>) -> Seq<char> {
    let dot = last_dot(s);
    if s.len() <= MAX_FILENAME_LENGTH {
        s
    } else if dot >= 0 && s.len() - dot <= MAX_FILENAME_LENGTH {
        s.take(MAX_FILENAME_LENGTH - (s.len() - dot)) + s.skip(dot)
    } else {
        s.take(MAX_FILENAME_LENGTH as int)
    }
}

/// The name under which a file is kept, given the final component of the
/// name it came with: `unknown` where there is none, unsafe characters
/// replaced, and the length limited.
pub open spec fn sanitized_name(component: Option<Seq<char>>) -> Seq<char> {
    limit_length(
        replace_all_unsafe(
            match component {
                Some(c) => c,
                None => "unknown"@,
            },
        ),
    )
}

/// `last_dot` finds a `.` after which no other `.` follows, and -1 only in a
/// text without any.
pub proof fn lemma_last_dot(s: Seq<char>)
    ensures
        -1 <= last_dot(s) < s.len(),
        last_dot(s) >= 0 ==> s[last_dot(s)] == '.',
        forall|j: int| last_dot(s) < j < s.len() ==> s[j] != '.',
    decreases s.len(),
{
    if s.len() > 0 && s.last() != '.' {
        let rest = s.drop_last();
        lemma_last_dot(rest);
        assert forall|j: int| last_dot(s) < j < s.len() implies s[j] != '.' by {
            if j < rest.len() {
                assert(rest[j] == s[j]);
            }
        }
    }
}

/// The index of the last `.` among `chars`, if there is one.
fn find_last_dot(chars: &Vec<char>) -> (dot: Option<usize>)
    ensures
        match dot {
            Some(i) => i == last_dot(chars@) && i < chars@.len(),
            None => last_dot(chars@) == -1,
        },
{
    let mut i: usize = chars.len();
    assert(chars@.take(i as int) =~= chars@);
    while i > 0
        invariant
            i <= chars@.len(),
            last_dot(chars@) == last_dot(chars@.take(i as int)),
        decreases i,
    {
        proof {
            let prefix = chars@.take(i as int);
            assert(prefix.last() == chars@[i - 1]);
            assert(prefix.drop_last() =~= chars@.take(i - 1));
        }
        if chars[i - 1] == '.' {
            return Some(i - 1);
        }
        i -= 1;
    }
    assert(chars@.take(0).len() == 0);
    None
}

/// Replaces each unsafe character of `name` by `_`.
fn replace_unsafe_chars(name: &str) -> (out: Vec<char>)
    ensures
        out@ == replace_all_unsafe(name@),
{
    let chars = chars_of(name);
    let mut out: Vec<char> = Vec::new();
    let mut i: usize = 0;
    while i < chars.len()
        invariant
            chars@ == name@,
            i <= chars@.len(),
            out@.len() == i,
            forall|j: int| 0 <= j < i ==> out@[j] == replace_unsafe(chars@[j]),
        decreases chars@.len() - i,
    {
        let c = chars[i];
        if is_letter_or_digit(c) || c == '.' || c == '-' || c == '_' {
            out.push(c);
        } else {
            out.push('_');
        }
        i += 1;
    }
    assert(out@ =~= replace_all_unsafe(name@));
    out
}

/// Cuts `chars` down to the length limit, keeping the extension where it fits.
fn limit_chars(chars: &Vec<char>) -> (out: String)
    ensures
        out@ == limit_length(chars@),
{
    let len = chars.len();
    if len <= MAX_FILENAME_LENGTH {
        proof {
            assert(chars@.subrange(0, len as int) =~= chars@);
        }
        return string_of(chars, 0, len);
    }
    match find_last_dot(chars) {
        Some(dot) => {
            if len - dot <= MAX_FILENAME_LENGTH {
                let mut out = string_of(chars, 0, MAX_FILENAME_LENGTH - (len - dot));
                let extension = string_of(chars, dot, len);
                out.append(extension.as_str());
                out
            } else {
                string_of(chars, 0, MAX_FILENAME_LENGTH)
            }
        },
        None => string_of(chars, 0, MAX_FILENAME_LENGTH),
    }
}

/// Makes a stored name from the final component of a client's file name.
/// No component at all stands for the name `unknown`.
pub fn sanitize_component(component: Option<&str>) -> (name: String)
    ensures
        name@ == sanitized_name(
            match component {
                Some(c) => Some(c@),
                None => None,
            },
        ),
{
    let replaced = match component {
        Some(c) => replace_unsafe_chars(c),
        None => replace_unsafe_chars("unknown"),
    };
    limit_chars(&replaced)
}

/// Makes a safe name for storage out of a file name that a client sent:
/// directories are dropped, every character but letters, digits, `.`, `-`
/// and `_` becomes `_`, and the length is limited.
pub fn sanitize_filename(filename: &str) -> (name: String)
    ensures
        name@ == sanitized_name(final_component(filename@)),
{
    match path_file_name(filename) {
        Some(component) => sanitize_component(Some(component.as_str())),
        None => sanitize_component(None),
    }
}

/// The extension of `name`: a `.` and, in lower case, what follows the last
/// `.` of `name`. A name without a `.` has none.
pub open spec fn extension_of(name: Seq<char>) -> Option<Seq<char>> {
    if last_dot(name) >= 0 {
        Some(seq!['.'] + lowercase_of(name.skip(last_dot(name) + 1)))
    } else {
        None
    }
}

/// The extension of `name`, with its `.` and in lower case.
pub fn file_extension(name: &str) -> (extension: Option<String>)
    ensures
        match extension {
            Some(e) => extension_of(name@) == Some(e@),
            None => extension_of(name@) is None,
        },
{
    let chars = chars_of(name);
    let len = chars.len();
    match find_last_dot(&chars) {
        Some(dot) => {
            let after = string_of(&chars, dot + 1, len);
            let lower = after.as_str().to_lowercase();
            let mut extension = String::new();
            extension.push('.');
            extension.append(lower.as_str());
            assert(extension@ =~= seq!['.'] + lowercase_of(name@.skip(dot + 1)));
            Some(extension)
        },
        None => None,
    }
}

/// Every character of a sanitized name is a letter, a digit, `.`, `-` or `_`,
/// and the name is no longer than the limit, whatever the client sent.
pub proof fn lemma_sanitized_name_is_safe(component: Option<Seq<char>>)
    ensures
        sanitized_name(component).len() <= MAX_FILENAME_LENGTH,
        forall|i: int|
            0 <= i < sanitized_name(component).len() ==> is_safe_char(
                #[trigger] sanitized_name(component)[i],
            ),
{
    let raw = match component {
        Some(c) => c,
        None => "unknown"@,
    };
    let replaced = replace_all_unsafe(raw);
    assert forall|i: int| 0 <= i < replaced.len() implies is_safe_char(#[trigger] replaced[i]) by {
        assert(replaced[i] == replace_unsafe(raw[i]));
    }
    lemma_last_dot(replaced);
}

/// A `.` of `s` after which no other follows is the one that `last_dot` finds.
pub proof fn lemma_last_dot_is(s: Seq<char>, dot: int)
    requires
        0 <= dot < s.len(),
        s[dot] == '.',
        forall|j: int| dot < j < s.len() ==> s[j] != '.',
    ensures
        last_dot(s) == dot,
{
    lemma_last_dot(s);
}

/// A name over the limit whose extension fits is cut to exactly the limit
/// and keeps its extension: the result begins as the name does, ends with
/// the name's last `.` and all that follows it, and has the same extension.
pub proof fn lemma_truncation_keeps_extension(s: Seq<char>)
    requires
        s.len() > MAX_FILENAME_LENGTH,
        last_dot(s) >= 0,
        s.len() - last_dot(s) <= MAX_FILENAME_LENGTH,
    ensures
        limit_length(s).len() == MAX_FILENAME_LENGTH,
        limit_length(s).skip(MAX_FILENAME_LENGTH - (s.len() - last_dot(s))) == s.skip(last_dot(s)),
        limit_length(s).take(MAX_FILENAME_LENGTH - (s.len() - last_dot(s))) == s.take(
            MAX_FILENAME_LENGTH - (s.len() - last_dot(s)),
        ),
        extension_of(limit_length(s)) == extension_of(s),
{
    lemma_last_dot(s);
    let dot = last_dot(s);
    let kept = MAX_FILENAME_LENGTH - (s.len() - dot);
    let cut = limit_length(s);
    assert(cut =~= s.take(kept) + s.skip(dot));
    assert(cut.skip(kept) =~= s.skip(dot));
    assert(cut.take(kept) =~= s.take(kept));
    assert forall|j: int| kept < j < cut.len() implies cut[j] != '.' by {
        assert(cut[j] == s[dot + (j - kept)]);
    }
    assert(cut[kept] == s[dot]);
    lemma_last_dot_is(cut, kept);
    assert(cut.skip(kept + 1) =~= s.skip(dot + 1));
}

/// No name comes out of the length limit longer than the limit, and a name
/// within it comes out unchanged.
pub proof fn lemma_limit_length_bounds(s: Seq<char>)
    ensures
        limit_length(s).len() <= MAX_FILENAME_LENGTH,
        s.len() <= MAX_FILENAME_LENGTH ==> limit_length(s) == s,
{
    lemma_last_dot(s);
}

} // verus!
