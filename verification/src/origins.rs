use vstd::prelude::*;
use crate::text::{chars_of, string_of};

verus! {

/// What `str::trim` leaves of a text: the text without the white space at
/// its beginning and at its end, white space being what Unicode counts as
/// such.
pub uninterp spec fn trimmed(text: Seq<char>) -> Seq<char>;

/// `str::trim` returns the part of `text` that is left when leading and
/// trailing white space is removed. The result depends on the characters of
/// `text` alone.
pub assume_specification[ str::trim ](text: &str) -> (inner: &str)
    ensures
        inner@ == trimmed(text@),
;

/// Whether `c` may stand in the value of an HTTP header: any character but
/// the ASCII control characters, of which only the tab is taken.
pub open spec fn is_header_char(c: char) -> bool {
    (c >= ' ' && c != '\x7f') || c == '\t'
}

/// Whether `text` can be the value of an HTTP header.
pub open spec fn is_header_value(text: Seq<char>) -> bool {
    forall|i: int| 0 <= i < text.len() ==> is_header_char(#[trigger] text[i])
}

/// `HeaderValue::from_str` of the crate `http`, which `axum` hands on, takes
/// a text as a header value unless one of its bytes is an ASCII control
/// character other than the tab. Every byte of a character beyond ASCII is
/// above these, so the test comes to the same on characters.
#[verifier::external_body]
fn parses_as_header_value(text: &str) -> (valid: bool)
    ensures
        valid == is_header_value(text@),
{
    axum::http::HeaderValue::from_str(text).is_ok()
}

/// The place of the first `,` in `text`, or the length of `text` where it
/// holds none.
pub open spec fn first_comma(text: Seq<char>) -> int
    decreases text.len(),
{
    if text.len() == 0 || text[0] == ',' {
        0
    } else {
        1 + first_comma(text.drop_first())
    }
}

/// The pieces into which the commas of `text` divide it, in order and
/// without the commas. A text without a comma is one piece; an empty piece
/// stands between two commas that touch, and before or after a comma at
/// either end.
pub open spec fn split_on_commas(text: Seq<char>) -> Seq<Seq<char>>
    decreases text.len(),
{
    let comma = first_comma(text);
    if 0 <= comma < text.len() {
        seq![text.take(comma)] + split_on_commas(text.skip(comma + 1))
    } else {
        seq![text]
    }
}

/// A place before which `text` holds no `,`, and which is a `,` or the end
/// of `text`, is the place that `first_comma` names.
pub proof fn lemma_first_comma(text: Seq<char>, at: int)
    requires
        0 <= at <= text.len(),
        forall|j: int| 0 <= j < at ==> text[j] != ',',
        at < text.len() ==> text[at] == ',',
    ensures
        first_comma(text) == at,
    decreases text.len(),
{
    if at > 0 {
        let rest = text.drop_first();
        assert forall|j: int| 0 <= j < at - 1 implies rest[j] != ',' by {
            assert(rest[j] == text[j + 1]);
        }
        lemma_first_comma(rest, at - 1);
    }
}

/// The views of a list of strings.
pub open spec fn text_views(texts: Seq<String>) -> Seq<Seq<char>> {
    Seq::new(texts.len(), |i: int| texts[i]@)
}

/// Divides `text` at its commas.
pub fn split_commas(text: &str) -> (pieces: Vec<String>)
    ensures
        text_views(pieces@) == split_on_commas(text@),
{
    let chars = chars_of(text);
    let n = chars.len();
    let mut pieces: Vec<String> = Vec::new();
    let mut start: usize = 0;
    let mut i: usize = 0;
    assert(chars@.skip(0) =~= chars@);
    assert(text_views(pieces@) =~= Seq::<Seq<char>>::empty());
    while i < n
        invariant
            chars@ == text@,
            n == chars@.len(),
            start <= i <= n,
            forall|j: int| start <= j < i ==> chars@[j] != ',',
            split_on_commas(text@) == text_views(pieces@) + split_on_commas(
                chars@.skip(start as int),
            ),
        decreases n - i,
    {
        if chars[i] == ',' {
            let piece = string_of(&chars, start, i);
            proof {
                let rest = chars@.skip(start as int);
                assert forall|j: int| 0 <= j < i - start implies rest[j] != ',' by {
                    assert(rest[j] == chars@[start + j]);
                }
                lemma_first_comma(rest, i - start);
                assert(rest.take(i - start) =~= chars@.subrange(start as int, i as int));
                assert(rest.skip(i - start + 1) =~= chars@.skip(i + 1));
                assert(text_views(pieces@.push(piece)) =~= text_views(pieces@) + seq![piece@]);
            }
            pieces.push(piece);
            start = i + 1;
        }
        i += 1;
    }
    let piece = string_of(&chars, start, n);
    proof {
        let rest = chars@.skip(start as int);
        assert forall|j: int| 0 <= j < n - start implies rest[j] != ',' by {
            assert(rest[j] == chars@[start + j]);
        }
        lemma_first_comma(rest, n - start);
        assert(rest =~= chars@.subrange(start as int, n as int));
        assert(text_views(pieces@.push(piece)) =~= text_views(pieces@) + seq![piece@]);
    }
    pieces.push(piece);
    pieces
}

/// Each piece without the white space around it.
pub open spec fn trimmed_all(pieces: Seq<Seq<char>>) -> Seq<Seq<char>> {
    Seq::new(pieces.len(), |i: int| trimmed(pieces[i]))
}

/// The test that a text passes if it can be the value of a header.
pub open spec fn header_values() -> spec_fn(Seq<char>) -> bool {
    |text: Seq<char>| is_header_value(text)
}

/// The origins that a configured list names: its pieces between commas,
/// trimmed, as far as they can be header values.
pub open spec fn configured_origins(configured: Seq<char>) -> Seq<Seq<char>> {
    trimmed_all(split_on_commas(configured)).filter(header_values())
}

/// The origins that are allowed where the configuration names none.
pub open spec fn default_origins() -> Seq<Seq<char>> {
    seq!["http://localhost:5000"@, "http://localhost:3000"@]
}

/// The list that stands for a configuration that is not there.
pub open spec fn default_origin_list() -> Seq<char> {
    "http://localhost:5000,http://localhost:3000"@
}

/// The origins from which requests are allowed: those that the configured
/// list names, or the default list where none is configured; and the two
/// default origins where that names none that can be used.
pub open spec fn origins_of(configured: Option<Seq<char>>) -> Seq<Seq<char>> {
    let named = configured_origins(
        match configured {
            Some(list) => list,
            None => default_origin_list(),
        },
    );
    if named.len() == 0 {
        default_origins()
    } else {
        named
    }
}

/// The origins from which cross-origin requests are allowed, given the
/// configured list, if there is one.
pub fn allowed_origins(configured: Option<&str>) -> (origins: Vec<String>)
    ensures
        text_views(origins@) == origins_of(
            match configured {
                Some(list) => Some(list@),
                None => None,
            },
        ),
{
    let list = match configured {
        Some(list) => list,
        None => "http://localhost:5000,http://localhost:3000",
    };
    let pieces = split_commas(list);
    let ghost candidates = trimmed_all(text_views(pieces@));
    let mut origins: Vec<String> = Vec::new();
    let mut i: usize = 0;
    assert(text_views(origins@) =~= candidates.take(0).filter(header_values())) by {
        reveal(Seq::filter);
    }
    while i < pieces.len()
        invariant
            candidates == trimmed_all(text_views(pieces@)),
            i <= pieces@.len(),
            text_views(origins@) == candidates.take(i as int).filter(header_values()),
        decreases pieces@.len() - i,
    {
        let inner = pieces[i].as_str().trim();
        proof {
            assert(candidates[i as int] == inner@);
            assert(candidates.take(i + 1) =~= candidates.take(i as int).push(inner@));
            candidates.take(i as int).lemma_filter_push(inner@, header_values());
        }
        if parses_as_header_value(inner) {
            let origin = String::from_str(inner);
            assert(text_views(origins@.push(origin)) =~= text_views(origins@).push(inner@));
            origins.push(origin);
        }
        i += 1;
    }
    assert(candidates.take(i as int) =~= candidates);
    if origins.len() == 0 {
        let mut defaults: Vec<String> = Vec::new();
        defaults.push(String::from_str("http://localhost:5000"));
        defaults.push(String::from_str("http://localhost:3000"));
        assert(text_views(defaults@) =~= default_origins());
        defaults
    } else {
        origins
    }
}

} // verus!
