//! Resource identifiers and the native paths that they name.

use vstd::prelude::*;

use crate::path::NativePath;
use crate::text::{chars_of, opt_view, same_letter, strip_prefix, lower, is_letter};

verus! {

/// The native path that a URI names.
pub enum UriPath {
    /// The URI has no native path.
    Unconvertible,
    /// The path is no Unicode text.
    NotUnicode,
    Path(NativePath),
}

/// What a [`UriPath`] stands for.
pub ghost enum UriPathView {
    Unconvertible,
    NotUnicode,
    Path(Seq<Seq<char>>),
}

impl View for UriPath {
    type V = UriPathView;

    open spec fn view(&self) -> UriPathView {
        match self {
            UriPath::Unconvertible => UriPathView::Unconvertible,
            UriPath::NotUnicode => UriPathView::NotUnicode,
            UriPath::Path(p) => UriPathView::Path(p@),
        }
    }
}

/// The scheme of a URI, where the text is a URI.
pub uninterp spec fn scheme_of_uri(raw: Seq<char>) -> Option<Seq<char>>;

/// `url::Url::parse` reads a URL, and `Url::scheme` gives its scheme in lower case.
#[verifier::external_body]
pub(crate) fn uri_scheme(raw: &str) -> (r: Option<String>)
    ensures
        opt_view(r) == scheme_of_uri(raw@),
{
    url::Url::parse(raw).ok().map(|uri| uri.scheme().to_owned())
}

/// The native path of a URI on systems with `/` as the root.
pub uninterp spec fn path_of_uri(raw: Seq<char>) -> UriPathView;

/// `url::Url::to_file_path` gives the native path of a URL that
/// `url::Url::parse` has read: on systems with `/` as the root, the segments
/// of its path with percent codes decoded. A text that is no URL has none. The
/// path is taken by its components, so slashes that repeat or end it are not kept.
#[verifier::external_body]
pub(crate) fn uri_file_path(raw: &str) -> (r: UriPath)
    ensures
        r@ == path_of_uri(raw@),
{
    match url::Url::parse(raw).ok().and_then(|uri| uri.to_file_path().ok()) {
        None => UriPath::Unconvertible,
        Some(path) => match path.components().map(|c| c.as_os_str().to_str().map(str::to_owned)).collect() {
            Some(components) => UriPath::Path(NativePath { components }),
            None => UriPath::NotUnicode,
        },
    }
}

/// The path of a URI in text, where the text is a URI.
pub uninterp spec fn path_text_of_uri(raw: Seq<char>) -> Option<Seq<char>>;

/// `url::Url::parse` reads a URL, and `Url::path` gives its path as it is
/// spelled there, with percent codes.
#[verifier::external_body]
pub(crate) fn uri_path_text(raw: &str) -> (r: Option<String>)
    ensures
        opt_view(r) == path_text_of_uri(raw@),
{
    url::Url::parse(raw).ok().map(|uri| uri.path().to_owned())
}

/// The URI of the native path that a URI names, on systems with `/` as the root.
pub uninterp spec fn file_uri_of_uri(raw: Seq<char>) -> Option<Seq<char>>;

/// `url::Url::from_file_path` gives the URL of the native path that
/// `url::Url::to_file_path` finds in a URL that `url::Url::parse` has read.
/// There is none where the text is no URL or its path is not native.
#[verifier::external_body]
pub(crate) fn uri_of_file_path(raw: &str) -> (r: Option<String>)
    ensures
        opt_view(r) == file_uri_of_uri(raw@),
{
    let path = url::Url::parse(raw).ok()?.to_file_path().ok()?;
    url::Url::from_file_path(path).ok().map(|uri| uri.to_string())
}

/// The URI of a directory at a path, on systems with `/` as the root.
pub uninterp spec fn directory_uri_of(path: Seq<char>) -> Option<Seq<char>>;

/// `url::Url::from_directory_path` gives the URL of a directory: the segments of
/// its path behind `file://`, percent-encoded, and a slash at the end. There is
/// none where the path does not start at the root.
#[verifier::external_body]
pub(crate) fn uri_of_directory(path: &str) -> (r: Option<String>)
    ensures
        opt_view(r) == directory_uri_of(path@),
{
    url::Url::from_directory_path(path).ok().map(|uri| uri.to_string())
}

/// The place of the first occurrence of `://`.
pub open spec fn authority_mark(s: Seq<char>, from: int) -> Option<int>
    decreases s.len() - from,
{
    if from + 3 > s.len() {
        None
    } else if s[from] == ':' && s[from + 1] == '/' && s[from + 2] == '/' {
        Some(from)
    } else {
        authority_mark(s, from + 1)
    }
}

/// The place of the first `?` or `#` at or after `from`, or the end.
pub open spec fn path_end(s: Seq<char>, from: int) -> int
    decreases s.len() - from,
{
    if from >= s.len() {
        s.len() as int
    } else if s[from] == '?' || s[from] == '#' {
        from
    } else {
        path_end(s, from + 1)
    }
}

/// What lies between the scheme of a URI and its query or fragment.
pub open spec fn uri_body(s: Seq<char>) -> Seq<char> {
    let start = match authority_mark(s, 0) {
        Some(i) => i + 3,
        None => 0,
    };
    s.subrange(start, path_end(s, start))
}

/// A segment with each `%2e` or `%2E` read as a dot.
pub open spec fn with_dots(s: Seq<char>) -> Seq<char>
    decreases s.len(),
{
    if s.len() == 0 {
        Seq::empty()
    } else if s.len() >= 3 && s[0] == '%' && s[1] == '2' && (s[2] == 'e' || s[2] == 'E') {
        seq!['.'] + with_dots(s.skip(3))
    } else {
        seq![s[0]] + with_dots(s.drop_first())
    }
}

/// Whether a segment steps to its own or its parent directory.
pub open spec fn dot_segment(s: Seq<char>) -> bool {
    with_dots(s) == seq!['.'] || with_dots(s) == seq!['.', '.']
}

/// Whether `i..j` is one segment of `s`: what lies between two slashes, or
/// between a slash and an end.
pub open spec fn is_segment(s: Seq<char>, i: int, j: int) -> bool {
    &&& 0 <= i <= j <= s.len()
    &&& i == 0 || s[i - 1] == '/'
    &&& j == s.len() || s[j] == '/'
    &&& forall|k: int| i <= k < j ==> #[trigger] s[k] != '/'
}

/// Whether some segment between the slashes of a URI is a dot segment.
pub open spec fn has_dot_segment(raw: Seq<char>) -> bool {
    exists|i: int, j: int| #[trigger] is_segment(uri_body(raw), i, j) && dot_segment(uri_body(raw).subrange(i, j))
}

fn is_dot_segment(c: &Vec<char>, from: usize, to: usize) -> (r: bool)
    requires
        from <= to <= c@.len(),
    ensures
        r == dot_segment(c@.subrange(from as int, to as int)),
{
    let ghost segment = c@.subrange(from as int, to as int);
    let mut decoded: Vec<char> = Vec::new();
    let mut i: usize = from;
    assert(segment.skip(0) =~= segment);
    while i < to
        invariant
            from <= i <= to <= c@.len(),
            segment == c@.subrange(from as int, to as int),
            with_dots(segment) =~= decoded@ + with_dots(segment.skip(i - from)),
        decreases to - i,
    {
        let ghost rest = segment.skip(i - from);
        assert(rest[0] == c@[i as int]);
        if to - i >= 3 && c[i] == '%' && c[i + 1] == '2' && (c[i + 2] == 'e' || c[i + 2] == 'E') {
            assert(rest[1] == c@[i + 1] && rest[2] == c@[i + 2]);
            assert(rest.skip(3) =~= segment.skip(i + 3 - from));
            decoded.push('.');
            i += 3;
        } else {
            assert(rest.len() >= 3 ==> rest[1] == c@[i + 1] && rest[2] == c@[i + 2]);
            assert(rest.drop_first() =~= segment.skip(i + 1 - from));
            decoded.push(c[i]);
            i += 1;
        }
    }
    assert(segment.skip(i - from) =~= Seq::<char>::empty());
    assert(decoded@ =~= with_dots(segment));
    if decoded.len() == 1 {
        assert(decoded@[0] == '.' ==> decoded@ =~= seq!['.']);
        assert(seq!['.', '.'].len() == 2);
        decoded[0] == '.'
    } else if decoded.len() == 2 {
        assert(decoded@[0] == '.' && decoded@[1] == '.' ==> decoded@ =~= seq!['.', '.']);
        assert(seq!['.'].len() == 1);
        decoded[0] == '.' && decoded[1] == '.'
    } else {
        assert(seq!['.'].len() == 1);
        assert(seq!['.', '.'].len() == 2);
        false
    }
}

/// Whether a URI steps to a directory by a dot segment, plain or percent coded.
pub fn uri_contains_path_traversal(raw: &str) -> (r: bool)
    ensures
        r == has_dot_segment(raw@),
{
    let c: Vec<char> = chars_of(raw);
    let mut start: usize = 0;
    let mut i: usize = 0;
    while c.len() - i >= 3
        invariant_except_break
            i <= c@.len(),
            start == 0,
            authority_mark(c@, 0) == authority_mark(c@, i as int),
        ensures
            start <= c@.len(),
            match authority_mark(c@, 0) {
                Some(m) => start == m + 3,
                None => start == 0,
            },
        decreases c.len() - i,
    {
        if c[i] == ':' && c[i + 1] == '/' && c[i + 2] == '/' {
            start = i + 3;
            break;
        }
        i += 1;
    }
    let mut end: usize = start;
    while end < c.len() && c[end] != '?' && c[end] != '#'
        invariant
            start <= end <= c@.len(),
            path_end(c@, start as int) == path_end(c@, end as int),
        decreases c.len() - end,
    {
        end += 1;
    }
    let ghost body = uri_body(raw@);
    assert(body =~= c@.subrange(start as int, end as int));
    let mut from: usize = start;
    loop
        invariant
            start <= from <= end <= c@.len(),
            body == uri_body(raw@),
            body == c@.subrange(start as int, end as int),
            from == start || c@[from - 1] == '/',
            forall|i: int, j: int| #[trigger] is_segment(body, i, j) && i < from - start ==> !dot_segment(body.subrange(i, j)),
        decreases end - from,
    {
        let mut to: usize = from;
        while to < end && c[to] != '/'
            invariant
                from <= to <= end <= c@.len(),
                forall|k: int| from <= k < to ==> #[trigger] c@[k] != '/',
            decreases end - to,
        {
            to += 1;
        }
        proof {
            let i = from - start;
            let j = to - start;
            assert(i > 0 ==> body[i - 1] == c@[from - 1]);
            assert(j < body.len() ==> body[j] == c@[to as int]);
            assert forall|k: int| i <= k < j implies #[trigger] body[k] != '/' by {
                assert(body[k] == c@[k + start]);
            }
            assert(is_segment(body, i, j));
            assert(body.subrange(i, j) =~= c@.subrange(from as int, to as int));
        }
        if is_dot_segment(&c, from, to) {
            return true;
        }
        proof {
            assert forall|i: int, j: int| #[trigger] is_segment(body, i, j) && i <= to - start implies !dot_segment(body.subrange(i, j)) by {
                let f = from - start;
                let t = to - start;
                if i == f {
                    if j < t {
                        assert(body[j] == c@[j + start]);
                    } else if t < j {
                        assert(body[t] == c@[to as int]);
                    }
                } else if i > f {
                    assert(body[i - 1] == c@[i - 1 + start]);
                }
            }
        }
        if to >= end {
            assert forall|i: int, j: int| #[trigger] is_segment(body, i, j) implies !dot_segment(body.subrange(i, j)) by {}
            return false;
        }
        from = to + 1;
    }
}

/// Whether two file URIs differ at most in the case of their drive letter.
pub open spec fn drive_alias(left: Seq<char>, right: Seq<char>) -> bool {
    let n = "file:///"@.len() as int;
    &&& left.len() > n + 1
    &&& left.len() == right.len()
    &&& "file:///"@.is_prefix_of(left)
    &&& "file:///"@.is_prefix_of(right)
    &&& lower(left[n]) == lower(right[n])
    &&& is_letter(left[n])
    &&& left.skip(n + 1) == right.skip(n + 1)
    &&& left[n + 1] == ':'
}

/// Whether two file URIs differ at most in the case of their drive letter.
pub fn windows_file_uri_drive_alias(left: &str, right: &str) -> (r: bool)
    ensures
        r == drive_alias(left@, right@),
{
    let (l, r) = match (strip_prefix(left, "file:///"), strip_prefix(right, "file:///")) {
        (Some(l), Some(r)) => (chars_of(l.as_str()), chars_of(r.as_str())),
        _ => {
            return false;
        },
    };
    let ghost n = "file:///"@.len() as int;
    assert(l@ == left@.skip(n) && r@ == right@.skip(n));
    assert(left@.len() == n + l@.len() && right@.len() == n + r@.len());
    if l.len() <= 1 || l.len() != r.len() {
        return false;
    }
    assert(left@[n] == l@[0] && right@[n] == r@[0] && left@[n + 1] == l@[1]);
    if !same_letter(l[0], r[0]) || l[1] != ':' {
        return false;
    }
    let letter: char = l[0];
    if !(('a' <= letter && letter <= 'z') || ('A' <= letter && letter <= 'Z')) {
        return false;
    }
    let mut i: usize = 1;
    while i < l.len()
        invariant
            1 <= i <= l@.len(),
            l@.len() == r@.len(),
            n == "file:///"@.len(),
            left@.len() == n + l@.len(),
            right@.len() == n + r@.len(),
            l@ == left@.skip(n),
            r@ == right@.skip(n),
            forall|k: int| 1 <= k < i ==> #[trigger] l@[k] == r@[k],
        decreases l.len() - i,
    {
        if l[i] != r[i] {
            assert(left@.skip(n + 1)[i - 1] == l@[i as int]);
            assert(right@.skip(n + 1)[i - 1] == r@[i as int]);
            return false;
        }
        i += 1;
    }
    assert(left@.skip(n + 1) =~= l@.skip(1));
    assert(right@.skip(n + 1) =~= r@.skip(1));
    assert(l@.skip(1) =~= r@.skip(1));
    true
}

} // verus!
