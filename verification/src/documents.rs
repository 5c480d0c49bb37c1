//! Documents, and the selectors that admit them.

use vstd::prelude::*;
use vstd::utf8::encode_utf8;

use crate::glob::{glob_matched, glob_matches};
use crate::json::{Json, JsonView, array_view};
use crate::path::{NativePath, path_text};
use crate::text::{chars_of, opt_ref_view, opt_view, same, string_of, strip_prefix};
use crate::uri::{path_text_of_uri, uri_path_text};

verus! {

/// A document as it was read last.
pub struct DocumentSnapshot {
    pub uri: String,
    pub path: NativePath,
    pub language_id: String,
    pub version: i64,
    pub digest: String,
    pub text: String,
}

/// What a [`DocumentSnapshot`] stands for.
#[verifier::ext_equal]
pub ghost struct DocumentView {
    pub uri: Seq<char>,
    pub path: Seq<Seq<char>>,
    pub language_id: Seq<char>,
    pub version: i64,
    pub digest: Seq<char>,
    pub text: Seq<char>,
}

impl View for DocumentSnapshot {
    type V = DocumentView;

    open spec fn view(&self) -> DocumentView {
        DocumentView {
            uri: self.uri@,
            path: self.path@,
            language_id: self.language_id@,
            version: self.version,
            digest: self.digest@,
            text: self.text@,
        }
    }
}

/// A text without the slashes at its end.
pub open spec fn trimmed_end(s: Seq<char>) -> Seq<char>
    decreases s.len(),
{
    if s.len() > 0 && s.last() == '/' {
        trimmed_end(s.drop_last())
    } else {
        s
    }
}

/// A text without the slashes at its beginning.
pub open spec fn trimmed_start(s: Seq<char>) -> Seq<char>
    decreases s.len(),
{
    if s.len() > 0 && s[0] == '/' {
        trimmed_start(s.drop_first())
    } else {
        s
    }
}

/// A text with slashes for backslashes.
pub open spec fn with_slashes(s: Seq<char>) -> Seq<char> {
    s.map_values(
        |c: char|
            if c == '\\' {
                '/'
            } else {
                c
            },
    )
}

fn trim_end(s: &str) -> (r: String)
    ensures
        r@ == trimmed_end(s@),
{
    let c: Vec<char> = chars_of(s);
    let mut n: usize = c.len();
    assert(s@.take(n as int) =~= s@);
    while n > 0 && c[n - 1] == '/'
        invariant
            n <= c@.len(),
            c@ == s@,
            trimmed_end(s@) == trimmed_end(s@.take(n as int)),
        decreases n,
    {
        assert(s@.take(n as int).drop_last() =~= s@.take(n - 1));
        n -= 1;
    }
    assert(s@.subrange(0, n as int) =~= s@.take(n as int));
    string_of(&c, 0, n)
}

fn trim_start(s: &str) -> (r: String)
    ensures
        r@ == trimmed_start(s@),
{
    let c: Vec<char> = chars_of(s);
    let size: usize = c.len();
    let mut i: usize = 0;
    assert(s@.skip(0) =~= s@);
    while i < size && c[i] == '/'
        invariant
            i <= size,
            size == c@.len(),
            c@ == s@,
            trimmed_start(s@) == trimmed_start(s@.skip(i as int)),
        decreases size - i,
    {
        assert(s@.skip(i as int).drop_first() =~= s@.skip(i + 1));
        i += 1;
    }
    assert(s@.subrange(i as int, size as int) =~= s@.skip(i as int));
    string_of(&c, i, size)
}

fn slashed(s: &str) -> (r: String)
    ensures
        r@ == with_slashes(s@),
{
    let mut c: Vec<char> = chars_of(s);
    let mut i: usize = 0;
    while i < c.len()
        invariant
            i <= c@.len(),
            c@.len() == s@.len(),
            forall|k: int| 0 <= k < i ==> #[trigger] c@[k] == with_slashes(s@)[k],
            forall|k: int| i <= k < c@.len() ==> #[trigger] c@[k] == s@[k],
        decreases c.len() - i,
    {
        if c[i] == '\\' {
            c.set(i, '/');
        }
        i += 1;
    }
    assert(c@ =~= with_slashes(s@));
    assert(c@.subrange(0, c@.len() as int) =~= c@);
    string_of(&c, 0, c.len())
}

/// The path by which a document is matched: that of its URI, or else its native
/// path with slashes.
pub open spec fn matched_path(d: DocumentView) -> Seq<char> {
    match path_text_of_uri(d.uri) {
        Some(p) => p,
        None => with_slashes(path_text(d.path)),
    }
}

/// The URI of the base to which a pattern is relative.
pub open spec fn base_of(pattern: JsonView) -> Option<Seq<char>> {
    match pattern.get("baseUri"@) {
        Some(base) => match base.as_text() {
            Some(uri) => Some(uri),
            None => base.text_at("uri"@),
        },
        None => None,
    }
}

/// The path below a base, where there is one.
pub open spec fn below(path: Seq<char>, base: Seq<char>) -> Option<Seq<char>> {
    let root = trimmed_end(base);
    if root.is_prefix_of(path) && (path.len() == root.len() || path[root.len() as int] == '/') {
        Some(trimmed_start(path.skip(root.len() as int)))
    } else {
        None
    }
}

/// Whether a pattern admits a path: a text admits what it matches; a relative
/// pattern admits what it matches below its base.
pub open spec fn pattern_admits(pattern: JsonView, path: Seq<char>, base: Option<Seq<char>>) -> bool {
    match pattern {
        JsonView::Text(p) => glob_matched(encode_utf8(p), encode_utf8(path)),
        _ => match (pattern.text_at("pattern"@), base) {
            (Some(p), Some(base)) => match below(path, base) {
                Some(rest) => glob_matched(encode_utf8(p), encode_utf8(rest)),
                None => false,
            },
            _ => false,
        },
    }
}

fn path_below(path: &str, base: &str) -> (r: Option<String>)
    ensures
        opt_view(r) == below(path@, base@),
{
    let root: String = trim_end(base);
    match strip_prefix(path, root.as_str()) {
        Some(suffix) => {
            let c: Vec<char> = chars_of(suffix.as_str());
            if c.len() > 0 && c[0] != '/' {
                assert(suffix@[0] == path@[root@.len() as int]);
                None
            } else {
                if c.len() > 0 {
                    assert(suffix@[0] == path@[root@.len() as int]);
                }
                Some(trim_start(suffix.as_str()))
            }
        },
        None => None,
    }
}

/// Whether a pattern admits a path, given the path of the base to which the
/// pattern is relative.
pub fn pattern_matches(pattern: &Json, path: &str, base: Option<&String>) -> (r: bool)
    ensures
        r == pattern_admits(pattern@, path@, opt_ref_view(base)),
{
    if let Json::Text(p) = pattern {
        return glob_matches(p.as_str().as_bytes(), path.as_bytes());
    }
    match (pattern.text_at("pattern"), base) {
        (Some(p), Some(base)) => match path_below(path, base.as_str()) {
            Some(rest) => glob_matches(p.as_str().as_bytes(), rest.as_str().as_bytes()),
            None => false,
        },
        _ => false,
    }
}

/// The path of the base to which a pattern is relative.
pub open spec fn base_path(pattern: JsonView) -> Option<Seq<char>> {
    match base_of(pattern) {
        Some(uri) => path_text_of_uri(uri),
        None => None,
    }
}

/// Whether a pattern admits a document.
pub fn document_pattern_matches(pattern: &Json, document: &DocumentSnapshot) -> (r: bool)
    ensures
        r == pattern_admits(pattern@, matched_path(document@), base_path(pattern@)),
{
    let path: String = match uri_path_text(document.uri.as_str()) {
        Some(p) => p,
        None => slashed(document.path.to_text().as_str()),
    };
    let uri: Option<&String> = match pattern.get("baseUri") {
        Some(base) => match base.as_str() {
            Some(uri) => Some(uri),
            None => base.text_at("uri"),
        },
        None => None,
    };
    let base: Option<String> = match uri {
        Some(uri) => uri_path_text(uri.as_str()),
        None => None,
    };
    pattern_matches(pattern, path.as_str(), base.as_ref())
}

/// Whether a filter admits a document by its language, its scheme and its path.
pub open spec fn filter_admits(filter: JsonView, d: DocumentView) -> bool {
    &&& filter is Object
    &&& filter.text_at("language"@) matches Some(language) ==> language == d.language_id
    &&& filter.text_at("scheme"@) matches Some(scheme) ==> scheme == "file"@
    &&& filter.get("pattern"@) matches Some(pattern) ==> pattern_admits(pattern, matched_path(d), base_path(pattern))
}

/// Whether a filter admits a document.
pub fn document_filter_matches(filter: &Json, document: &DocumentSnapshot) -> (r: bool)
    ensures
        r == filter_admits(filter@, document@),
{
    match filter {
        Json::Object(_) => {},
        _ => {
            return false;
        },
    }
    if let Some(language) = filter.text_at("language") {
        if !same(language.as_str(), document.language_id.as_str()) {
            return false;
        }
    }
    if let Some(scheme) = filter.text_at("scheme") {
        if !same(scheme.as_str(), "file") {
            return false;
        }
    }
    match filter.get("pattern") {
        Some(pattern) => document_pattern_matches(pattern, document),
        None => true,
    }
}

/// Whether one of some filters admits a document.
pub open spec fn some_filter_admits(filters: Seq<JsonView>, d: DocumentView) -> bool {
    exists|i: int| 0 <= i < filters.len() && filter_admits(#[trigger] filters[i], d)
}

/// Whether a selector admits a document: one of its filters does.
pub open spec fn selector_admits(selector: JsonView, d: DocumentView) -> bool {
    match selector {
        JsonView::Array(filters) => some_filter_admits(filters, d),
        _ => false,
    }
}

/// Whether a selector admits a document.
pub fn selector_matches(selector: &Json, document: &DocumentSnapshot) -> (r: bool)
    ensures
        r == selector_admits(selector@, document@),
{
    let filters: &Vec<Json> = match selector {
        Json::Array(filters) => filters,
        _ => {
            return false;
        },
    };
    let ghost all = array_view(filters@);
    let mut i: usize = 0;
    while i < filters.len()
        invariant
            i <= filters@.len(),
            all == array_view(filters@),
            selector@ == JsonView::Array(all),
            forall|k: int| 0 <= k < i ==> !filter_admits(#[trigger] all[k], document@),
        decreases filters.len() - i,
    {
        assert(all[i as int] == filters@[i as int]@);
        if document_filter_matches(&filters[i], document) {
            assert(some_filter_admits(all, document@));
            return true;
        }
        i += 1;
    }
    false
}

/// A selector admits a document exactly where one of its filters does; a filter
/// that names a language admits the documents of that language only, one that
/// names a scheme only where it is that of files, and one that names neither
/// and no pattern admits every document.
pub proof fn law_selectors_admit_by_filters(filters: Seq<JsonView>, filter: JsonView, d: DocumentView)
    ensures
        selector_admits(JsonView::Array(filters.push(filter)), d) <==> selector_admits(JsonView::Array(filters), d)
            || selector_admits(JsonView::Array(seq![filter]), d),
        !selector_admits(JsonView::Array(seq![]), d),
        filter is Object && filter.get("pattern"@) is None ==> (selector_admits(JsonView::Array(seq![filter]), d) <==> (
        filter.get("language"@) matches Some(JsonView::Text(language)) ==> language == d.language_id) && (filter.get(
            "scheme"@,
        ) matches Some(JsonView::Text(scheme)) ==> scheme == "file"@)),
        !(filter is Object) ==> !selector_admits(JsonView::Array(seq![filter]), d),
{
    let more = filters.push(filter);
    let one = seq![filter];
    assert(one[0] == filter);
    assert(more[filters.len() as int] == filter);
    if some_filter_admits(filters, d) {
        let i = choose|i: int| 0 <= i < filters.len() && filter_admits(#[trigger] filters[i], d);
        assert(more[i] == filters[i]);
    }
    if some_filter_admits(more, d) {
        let i = choose|i: int| 0 <= i < more.len() && filter_admits(#[trigger] more[i], d);
        if i < filters.len() {
            assert(filters[i] == more[i]);
        } else {
            assert(filter_admits(one[0], d));
        }
    }
    if filter_admits(filter, d) {
        assert(filter_admits(one[0], d));
        assert(filter_admits(more[filters.len() as int], d));
    }
    if some_filter_admits(one, d) {
        let i = choose|i: int| 0 <= i < one.len() && filter_admits(#[trigger] one[i], d);
        assert(i == 0);
    }
}

} // verus!
