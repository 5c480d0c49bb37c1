//! Routes from files and languages to servers.

use vstd::prelude::*;
use vstd::utf8::encode_utf8;

use crate::config_checks::{
    config_failed,
    config_problem,
    configuration_failure,
    name_failed,
    selection_failed,
    server_selection_failure,
    validate_server_name,
};
use crate::configuration::{EffectiveServer, RouteConfig, RouteView};
use crate::failure::{ContractFailure, FailureView};
use crate::path::{NativePath, path_text};
use crate::sorted::SortedMap;
use crate::text::{contains_char, ends_with_folded, folded, same, same_folded, starts_with, views};

verus! {

/// What a route selects by: a server, a language and an extension, whose case
/// does not matter.
pub type Selector = (Seq<char>, Seq<char>, Seq<char>);

/// The selectors of a route.
pub open spec fn selectors_of(r: RouteView) -> Seq<Selector> {
    Seq::new(r.extensions.len(), |j: int| (r.server, r.language_id, folded(r.extensions[j])))
}

/// The selectors of the first routes.
pub open spec fn selectors_before(routes: Seq<RouteView>, n: int) -> Seq<Selector>
    decreases n,
{
    if n <= 0 {
        Seq::empty()
    } else {
        selectors_before(routes, n - 1) + selectors_of(routes[n - 1])
    }
}

/// Whether a text can be an extension.
pub open spec fn is_extension(e: Seq<char>) -> bool {
    "."@.is_prefix_of(e) && !e.contains('/') && !e.contains('\\')
}

/// Whether a route repeats a selector.
pub open spec fn repeats(routes: Seq<RouteView>, i: int) -> bool {
    exists|j: int|
        0 <= j < routes[i].extensions.len() && (selectors_before(routes, i) + #[trigger] selectors_of(routes[i]).take(
            j,
        )).contains(selectors_of(routes[i])[j])
}

/// Why a route does not hold.
pub open spec fn route_problem(
    routes: Seq<RouteView>,
    i: int,
    servers: Set<Seq<char>>,
    accepted: Seq<Seq<char>>,
    path: Seq<char>,
) -> Option<FailureView> {
    let r = routes[i];
    if !accepted.contains(r.server) {
        Some(name_failed(path))
    } else if r.language_id.len() == 0 || r.extensions.len() == 0 || exists|j: int|
        0 <= j < r.extensions.len() && !is_extension(#[trigger] r.extensions[j]) {
        Some(
            config_failed(
                path,
                config_problem(
                    "invalid_value"@,
                    "route has an invalid language_id or extension"@,
                    Some("routes"@),
                ),
            ),
        )
    } else if !servers.contains(r.server) {
        Some(
            config_failed(
                path,
                config_problem(
                    "missing_server_reference"@,
                    "route references an unknown server"@,
                    Some("routes.server"@),
                ),
            ),
        )
    } else if repeats(routes, i) {
        Some(
            config_failed(
                path,
                config_problem(
                    "ambiguous_route"@,
                    "route repeats a selector for the same server"@,
                    Some("routes"@),
                ),
            ),
        )
    } else {
        None
    }
}

/// Why the first of some routes that does not hold does not.
pub open spec fn routes_problem(
    routes: Seq<RouteView>,
    from: int,
    servers: Set<Seq<char>>,
    accepted: Seq<Seq<char>>,
    path: Seq<char>,
) -> Option<FailureView>
    decreases routes.len() - from,
{
    if from < 0 || from >= routes.len() {
        None
    } else {
        match route_problem(routes, from, servers, accepted, path) {
            Some(f) => Some(f),
            None => routes_problem(routes, from + 1, servers, accepted, path),
        }
    }
}

spec fn seen_view(seen: Seq<(String, String, String)>) -> Seq<Selector> {
    Seq::new(seen.len(), |k: int| (seen[k].0@, seen[k].1@, folded(seen[k].2@)))
}

fn was_seen(seen: &Vec<(String, String, String)>, server: &str, language_id: &str, extension: &str) -> (r: bool)
    ensures
        r == seen_view(seen@).contains((server@, language_id@, folded(extension@))),
{
    let ghost all = seen_view(seen@);
    let ghost wanted = (server@, language_id@, folded(extension@));
    let mut k: usize = 0;
    while k < seen.len()
        invariant
            k <= seen@.len(),
            all == seen_view(seen@),
            wanted == (server@, language_id@, folded(extension@)),
            forall|m: int| 0 <= m < k ==> all[m] != wanted,
        decreases seen.len() - k,
    {
        assert(all[k as int] == (seen@[k as int].0@, seen@[k as int].1@, folded(seen@[k as int].2@)));
        if same(seen[k].0.as_str(), server) && same(seen[k].1.as_str(), language_id) && same_folded(
            seen[k].2.as_str(),
            extension,
        ) {
            return true;
        }
        k += 1;
    }
    false
}

fn route_is_shaped(r: &RouteConfig) -> (ok: bool)
    ensures
        ok == !(r@.language_id.len() == 0 || r@.extensions.len() == 0 || exists|j: int|
            0 <= j < r@.extensions.len() && !is_extension(#[trigger] r@.extensions[j])),
{
    if r.language_id.as_str().unicode_len() == 0 || r.extensions.len() == 0 {
        return false;
    }
    let mut j: usize = 0;
    while j < r.extensions.len()
        invariant
            j <= r.extensions@.len(),
            forall|k: int| 0 <= k < j ==> is_extension(#[trigger] r@.extensions[k]),
        decreases r.extensions.len() - j,
    {
        let e: &str = r.extensions[j].as_str();
        assert(r@.extensions[j as int] == e@);
        if !starts_with(e, ".") || contains_char(e, '/') || contains_char(e, '\\') {
            assert(!is_extension(r@.extensions[j as int]));
            return false;
        }
        j += 1;
    }
    true
}

fn note_selectors(seen: &mut Vec<(String, String, String)>, r: &RouteConfig) -> (repeated: bool)
    ensures
        repeated == exists|j: int|
            0 <= j < r@.extensions.len() && (seen_view(old(seen)@) + #[trigger] selectors_of(r@).take(j)).contains(
                selectors_of(r@)[j],
            ),
        !repeated ==> seen_view(final(seen)@) == seen_view(old(seen)@) + selectors_of(r@),
{
    let ghost start = seen_view(seen@);
    let ghost mine = selectors_of(r@);
    let mut j: usize = 0;
    assert(start + mine.take(0) =~= start);
    while j < r.extensions.len()
        invariant
            j <= r.extensions@.len(),
            mine == selectors_of(r@),
            start == seen_view(old(seen)@),
            seen_view(seen@) == start + mine.take(j as int),
            forall|k: int| 0 <= k < j ==> !(start + #[trigger] mine.take(k)).contains(mine[k]),
        decreases r.extensions.len() - j,
    {
        assert(mine[j as int] == (r.server@, r.language_id@, folded(r.extensions@[j as int]@)));
        if was_seen(seen, r.server.as_str(), r.language_id.as_str(), r.extensions[j].as_str()) {
            assert((start + mine.take(j as int)).contains(mine[j as int]));
            return true;
        }
        let ghost before = seen_view(seen@);
        seen.push((r.server.clone(), r.language_id.clone(), r.extensions[j].clone()));
        proof {
            assert(seen_view(seen@) =~= before.push(mine[j as int]));
            assert(start + mine.take(j + 1) =~= before.push(mine[j as int]));
        }
        j += 1;
    }
    assert(mine.take(j as int) =~= mine);
    false
}

/// Refuses routes of which one does not hold. The names that a server can have
/// are handed in.
pub fn validate_routes(
    routes: &Vec<RouteConfig>,
    servers: &SortedMap<String, EffectiveServer>,
    accepted: &Vec<String>,
    path: &NativePath,
) -> (r: Result<(), ContractFailure>)
    ensures
        ({
            let problem = routes_problem(
                views(routes@),
                0,
                servers@.dom(),
                views(accepted@),
                path_text(path@),
            );
            match r {
                Ok(_) => problem is None,
                Err(f) => problem == Some(f@),
            }
        }),
{
    let ghost all = views(routes@);
    let ghost problem = routes_problem(all, 0, servers@.dom(), views(accepted@), path_text(path@));
    let mut seen: Vec<(String, String, String)> = Vec::new();
    let mut i: usize = 0;
    assert(seen_view(seen@) =~= selectors_before(all, 0));
    while i < routes.len()
        invariant
            i <= routes@.len(),
            all == views(routes@),
            seen_view(seen@) == selectors_before(all, i as int),
            problem == routes_problem(all, 0, servers@.dom(), views(accepted@), path_text(path@)),
            problem == routes_problem(all, i as int, servers@.dom(), views(accepted@), path_text(path@)),
        decreases routes.len() - i,
    {
        let route: &RouteConfig = &routes[i];
        assert(all[i as int] == route@);
        if let Err(f) = validate_server_name(route.server.as_str(), accepted, path) {
            return Err(f);
        }
        if !route_is_shaped(route) {
            return Err(
                configuration_failure(
                    path,
                    "invalid_value",
                    "route has an invalid language_id or extension",
                    Some("routes"),
                ),
            );
        }
        if !servers.contains_key(&route.server) {
            return Err(
                configuration_failure(
                    path,
                    "missing_server_reference",
                    "route references an unknown server",
                    Some("routes.server"),
                ),
            );
        }
        if note_selectors(&mut seen, route) {
            return Err(
                configuration_failure(
                    path,
                    "ambiguous_route",
                    "route repeats a selector for the same server",
                    Some("routes"),
                ),
            );
        }
        i += 1;
    }
    Ok(())
}

/// What a route is asked for.
pub enum RouteTest {
    Language(String),
    /// An extension of this many bytes in which the file ends.
    Extension { file: String, length: usize },
}

/// What a [`RouteTest`] stands for.
pub ghost enum RouteTestView {
    Language(Seq<char>),
    Extension { file: Seq<char>, length: nat },
}

impl View for RouteTest {
    type V = RouteTestView;

    open spec fn view(&self) -> RouteTestView {
        match self {
            RouteTest::Language(language_id) => RouteTestView::Language(language_id@),
            RouteTest::Extension { file, length } => RouteTestView::Extension {
                file: file@,
                length: *length as nat,
            },
        }
    }
}

/// Whether a file ends in an extension.
pub open spec fn file_ends(file: Seq<char>, extension: Seq<char>) -> bool {
    folded(extension).is_suffix_of(folded(file))
}

/// Whether a route is what it is asked for.
pub open spec fn route_matches(test: RouteTestView, r: RouteView) -> bool {
    match test {
        RouteTestView::Language(language_id) => r.language_id == language_id,
        RouteTestView::Extension { file, length } => exists|j: int|
            0 <= j < r.extensions.len() && encode_utf8(#[trigger] r.extensions[j]).len() == length && file_ends(
                file,
                r.extensions[j],
            ),
    }
}

fn check_route(test: &RouteTest, r: &RouteConfig) -> (ok: bool)
    ensures
        ok == route_matches(test@, r@),
{
    match test {
        RouteTest::Language(language_id) => same(r.language_id.as_str(), language_id.as_str()),
        RouteTest::Extension { file, length } => {
            let mut j: usize = 0;
            while j < r.extensions.len()
                invariant
                    j <= r.extensions@.len(),
                    test@ == (RouteTestView::Extension { file: file@, length: *length as nat }),
                    forall|k: int|
                        0 <= k < j ==> !(encode_utf8(#[trigger] r@.extensions[k]).len() == *length && file_ends(
                            file@,
                            r@.extensions[k],
                        )),
                decreases r.extensions.len() - j,
            {
                let e: &str = r.extensions[j].as_str();
                assert(r@.extensions[j as int] == e@);
                if e.as_bytes().len() == *length && ends_with_folded(file.as_str(), e) {
                    return true;
                }
                j += 1;
            }
            false
        },
    }
}

/// Whether a server is the one that routes select.
pub open spec fn selects(routes: Seq<RouteView>, test: RouteTestView, server: Seq<char>) -> bool {
    &&& exists|i: int| 0 <= i < routes.len() && route_matches(test, #[trigger] routes[i]) && routes[i].server == server
    &&& forall|i: int| 0 <= i < routes.len() && route_matches(test, #[trigger] routes[i]) ==> routes[i].server == server
}

/// The server that routes select, where they select one and no other.
pub fn unique_route_server(routes: &Vec<RouteConfig>, test: &RouteTest) -> (r: Result<String, ContractFailure>)
    ensures
        match r {
            Ok(server) => selects(views(routes@), test@, server@),
            Err(f) => (forall|server: Seq<char>| !#[trigger] selects(views(routes@), test@, server)) && f@
                == selection_failed("Language or extension routing did not select exactly one server."@),
        },
{
    let ghost all = views(routes@);
    let mut found: Option<usize> = None;
    let mut i: usize = 0;
    while i < routes.len()
        invariant
            i <= routes@.len(),
            all == views(routes@),
            match found {
                Some(k) => k < i && route_matches(test@, all[k as int]) && forall|j: int|
                    0 <= j < i && route_matches(test@, #[trigger] all[j]) ==> all[j].server == all[k as int].server,
                None => forall|j: int| 0 <= j < i ==> !route_matches(test@, #[trigger] all[j]),
            },
        decreases routes.len() - i,
    {
        assert(all[i as int] == routes@[i as int]@);
        if check_route(test, &routes[i]) {
            match found {
                Some(k) => {
                    assert(all[k as int] == routes@[k as int]@);
                    if !same(routes[k].server.as_str(), routes[i].server.as_str()) {
                        proof {
                            assert forall|server: Seq<char>| !#[trigger] selects(all, test@, server) by {
                                if selects(all, test@, server) {
                                    assert(all[k as int].server == server);
                                    assert(all[i as int].server == server);
                                }
                            }
                        }
                        return Err(
                            server_selection_failure(
                                "Language or extension routing did not select exactly one server.",
                            ),
                        );
                    }
                },
                None => {
                    found = Some(i);
                },
            }
        }
        i += 1;
    }
    match found {
        Some(k) => {
            assert(all[k as int] == routes@[k as int]@);
            Ok(routes[k].server.clone())
        },
        None => Err(
            server_selection_failure("Language or extension routing did not select exactly one server."),
        ),
    }
}

/// Whether one of the first routes has an extension of this many bytes in which
/// a file ends.
pub open spec fn ends_in_bytes(routes: Seq<RouteView>, file: Seq<char>, bytes: nat) -> bool {
    exists|i: int, j: int|
        0 <= i < routes.len() && 0 <= j < routes[i].extensions.len() && file_ends(
            file,
            #[trigger] routes[i].extensions[j],
        ) && encode_utf8(routes[i].extensions[j]).len() == bytes
}

/// Whether this is the length of the longest extension in which a file ends.
pub open spec fn longest(routes: Seq<RouteView>, file: Seq<char>, bytes: nat) -> bool {
    &&& ends_in_bytes(routes, file, bytes)
    &&& forall|i: int, j: int|
        0 <= i < routes.len() && 0 <= j < routes[i].extensions.len() && file_ends(
            file,
            #[trigger] routes[i].extensions[j],
        ) ==> encode_utf8(routes[i].extensions[j]).len() <= bytes
}

/// The length of the longest extension in which a file ends.
fn longest_extension(routes: &Vec<RouteConfig>, file: &str) -> (r: Option<usize>)
    ensures
        match r {
            Some(n) => longest(views(routes@), file@, n as nat),
            None => forall|n: nat| !#[trigger] ends_in_bytes(views(routes@), file@, n),
        },
{
    let ghost all = views(routes@);
    let mut best: Option<usize> = None;
    let mut i: usize = 0;
    while i < routes.len()
        invariant
            i <= routes@.len(),
            all == views(routes@),
            match best {
                Some(n) => ends_in_bytes(all, file@, n as nat) && forall|a: int, b: int|
                    0 <= a < i && 0 <= b < all[a].extensions.len() && file_ends(
                        file@,
                        #[trigger] all[a].extensions[b],
                    ) ==> encode_utf8(all[a].extensions[b]).len() <= n,
                None => forall|a: int, b: int|
                    0 <= a < i && 0 <= b < all[a].extensions.len() ==> !file_ends(
                        file@,
                        #[trigger] all[a].extensions[b],
                    ),
            },
        decreases routes.len() - i,
    {
        let route: &RouteConfig = &routes[i];
        assert(all[i as int] == route@);
        let mut j: usize = 0;
        while j < route.extensions.len()
            invariant
                i < routes@.len(),
                j <= route.extensions@.len(),
                all == views(routes@),
                all[i as int] == route@,
                match best {
                    Some(n) => ends_in_bytes(all, file@, n as nat) && (forall|a: int, b: int|
                        0 <= a < i && 0 <= b < all[a].extensions.len() && file_ends(
                            file@,
                            #[trigger] all[a].extensions[b],
                        ) ==> encode_utf8(all[a].extensions[b]).len() <= n) && (forall|b: int|
                        0 <= b < j && file_ends(file@, #[trigger] all[i as int].extensions[b]) ==> encode_utf8(
                            all[i as int].extensions[b],
                        ).len() <= n),
                    None => (forall|a: int, b: int|
                        0 <= a < i && 0 <= b < all[a].extensions.len() ==> !file_ends(
                            file@,
                            #[trigger] all[a].extensions[b],
                        )) && (forall|b: int| 0 <= b < j ==> !file_ends(file@, #[trigger] all[i as int].extensions[b])),
                },
            decreases route.extensions.len() - j,
        {
            let e: &str = route.extensions[j].as_str();
            assert(all[i as int].extensions[j as int] == e@);
            if ends_with_folded(file, e) {
                let n: usize = e.as_bytes().len();
                assert(ends_in_bytes(all, file@, n as nat)) by {
                    assert(file_ends(file@, all[i as int].extensions[j as int]));
                }
                match best {
                    Some(m) => {
                        if n > m {
                            best = Some(n);
                        }
                    },
                    None => {
                        best = Some(n);
                    },
                }
            }
            j += 1;
        }
        i += 1;
    }
    proof {
        if best is None {
            assert forall|n: nat| !#[trigger] ends_in_bytes(all, file@, n) by {}
        }
    }
    best
}

/// The server of the longest extension in which a file ends.
pub fn longest_extension_server(routes: &Vec<RouteConfig>, file: &str) -> (r: Result<String, ContractFailure>)
    ensures
        match r {
            Ok(server) => exists|n: nat| #[trigger]
                longest(views(routes@), file@, n) && selects(
                    views(routes@),
                    RouteTestView::Extension { file: file@, length: n },
                    server@,
                ),
            Err(f) => {
                ||| f@ == selection_failed("No route matches the target file."@) && forall|n: nat|
                    !#[trigger] ends_in_bytes(views(routes@), file@, n)
                ||| f@ == selection_failed("Language or extension routing did not select exactly one server."@)
                    && exists|n: nat| #[trigger]
                    longest(views(routes@), file@, n) && forall|server: Seq<char>|
                        !#[trigger] selects(
                            views(routes@),
                            RouteTestView::Extension { file: file@, length: n },
                            server,
                        )
            },
        },
{
    match longest_extension(routes, file) {
        Some(n) => {
            let test = RouteTest::Extension { file: file.to_owned(), length: n };
            assert(longest(views(routes@), file@, n as nat));
            assert(test@ == (RouteTestView::Extension { file: file@, length: n as nat }));
            unique_route_server(routes, &test)
        },
        None => Err(server_selection_failure("No route matches the target file.")),
    }
}

/// The routes of one server.
pub open spec fn of_server(server: Seq<char>) -> spec_fn(RouteView) -> bool {
    |r: RouteView| r.server == server
}

/// Whether a language is the one that the longest extensions of a server's
/// routes give a file.
pub open spec fn gives_language(routes: Seq<RouteView>, file: Seq<char>, bytes: nat, language_id: Seq<char>) -> bool {
    &&& exists|i: int, j: int|
        0 <= i < routes.len() && 0 <= j < routes[i].extensions.len() && file_ends(
            file,
            #[trigger] routes[i].extensions[j],
        ) && encode_utf8(routes[i].extensions[j]).len() == bytes && routes[i].language_id == language_id
    &&& forall|i: int, j: int|
        0 <= i < routes.len() && 0 <= j < routes[i].extensions.len() && file_ends(
            file,
            #[trigger] routes[i].extensions[j],
        ) && encode_utf8(routes[i].extensions[j]).len() == bytes ==> routes[i].language_id == language_id
}

fn copy_route(r: &RouteConfig) -> (c: RouteConfig)
    ensures
        c@ == r@,
{
    RouteConfig {
        server: r.server.clone(),
        language_id: r.language_id.clone(),
        extensions: crate::text::copy_strings(&r.extensions),
    }
}

/// Copies routes.
pub fn copy_routes(list: &Vec<RouteConfig>) -> (r: Vec<RouteConfig>)
    ensures
        views(r@) == views(list@),
{
    let mut r: Vec<RouteConfig> = Vec::new();
    let mut i: usize = 0;
    while i < list.len()
        invariant
            i <= list@.len(),
            r@.len() == i,
            forall|j: int| 0 <= j < i ==> (#[trigger] r@[j])@ == list@[j]@,
        decreases list.len() - i,
    {
        r.push(copy_route(&list[i]));
        i += 1;
    }
    assert(views(r@) =~= views(list@));
    r
}

fn routes_of(routes: &Vec<RouteConfig>, server: &str) -> (r: Vec<RouteConfig>)
    ensures
        views(r@) == views(routes@).filter(of_server(server@)),
{
    let ghost all = views(routes@);
    let ghost p = of_server(server@);
    let mut r: Vec<RouteConfig> = Vec::new();
    let mut i: usize = 0;
    proof {
        assert(all.take(0).filter(p) =~= seq![]) by {
            reveal(Seq::filter);
        }
        assert(views(r@) =~= seq![]);
    }
    while i < routes.len()
        invariant
            i <= routes@.len(),
            all == views(routes@),
            p == of_server(server@),
            views(r@) == all.take(i as int).filter(p),
        decreases routes.len() - i,
    {
        let ghost before = views(r@);
        proof { crate::plan_tree::lemma_filter_take(all, p, i as int); }
        assert(all[i as int] == routes@[i as int]@);
        if same(routes[i].server.as_str(), server) {
            r.push(copy_route(&routes[i]));
            assert(views(r@) =~= before.push(all[i as int]));
        }
        i += 1;
    }
    assert(all.take(i as int) =~= all);
    r
}

/// The languages that the longest extensions give a file, as far as they agree.
fn agreed_language(routes: &Vec<RouteConfig>, file: &str, bytes: usize) -> (r: Option<String>)
    requires
        ends_in_bytes(views(routes@), file@, bytes as nat),
    ensures
        match r {
            Some(language_id) => gives_language(views(routes@), file@, bytes as nat, language_id@),
            None => forall|language_id: Seq<char>| !#[trigger] gives_language(
                views(routes@),
                file@,
                bytes as nat,
                language_id,
            ),
        },
{
    let ghost all = views(routes@);
    let mut found: Option<usize> = None;
    let test = RouteTest::Extension { file: file.to_owned(), length: bytes };
    let mut i: usize = 0;
    while i < routes.len()
        invariant
            i <= routes@.len(),
            all == views(routes@),
            test@ == (RouteTestView::Extension { file: file@, length: bytes as nat }),
            match found {
                Some(k) => k < i && route_matches(test@, all[k as int]) && forall|j: int|
                    0 <= j < i && route_matches(test@, #[trigger] all[j]) ==> all[j].language_id
                        == all[k as int].language_id,
                None => forall|j: int| 0 <= j < i ==> !route_matches(test@, #[trigger] all[j]),
            },
        decreases routes.len() - i,
    {
        assert(all[i as int] == routes@[i as int]@);
        if check_route(&test, &routes[i]) {
            match found {
                Some(k) => {
                    assert(all[k as int] == routes@[k as int]@);
                    if !same(routes[k].language_id.as_str(), routes[i].language_id.as_str()) {
                        proof {
                            assert forall|l: Seq<char>| !#[trigger] gives_language(all, file@, bytes as nat, l) by {
                                if gives_language(all, file@, bytes as nat, l) {
                                    lemma_matching_gives(all, test@, file@, bytes as nat, l, k as int);
                                    lemma_matching_gives(all, test@, file@, bytes as nat, l, i as int);
                                }
                            }
                        }
                        return None;
                    }
                },
                None => {
                    found = Some(i);
                },
            }
        }
        i += 1;
    }
    match found {
        Some(k) => {
            assert(all[k as int] == routes@[k as int]@);
            proof {
                let l = all[k as int].language_id;
                let j = choose|j: int|
                    0 <= j < all[k as int].extensions.len() && encode_utf8(
                        #[trigger] all[k as int].extensions[j],
                    ).len() == bytes && file_ends(file@, all[k as int].extensions[j]);
                assert(file_ends(file@, all[k as int].extensions[j]));
                assert forall|a: int, b: int|
                    0 <= a < all.len() && 0 <= b < all[a].extensions.len() && file_ends(
                        file@,
                        #[trigger] all[a].extensions[b],
                    ) && encode_utf8(all[a].extensions[b]).len() == bytes implies all[a].language_id == l by {
                    assert(route_matches(test@, all[a]));
                }
            }
            Some(routes[k].language_id.clone())
        },
        None => {
            proof {
                let (a, b) = choose|a: int, b: int|
                    0 <= a < all.len() && 0 <= b < all[a].extensions.len() && file_ends(
                        file@,
                        #[trigger] all[a].extensions[b],
                    ) && encode_utf8(all[a].extensions[b]).len() == bytes;
                assert(route_matches(test@, all[a]));
            }
            None
        },
    }
}

proof fn lemma_matching_gives(
    routes: Seq<RouteView>,
    test: RouteTestView,
    file: Seq<char>,
    bytes: nat,
    language_id: Seq<char>,
    i: int,
)
    requires
        test == (RouteTestView::Extension { file, length: bytes }),
        gives_language(routes, file, bytes, language_id),
        0 <= i < routes.len(),
        route_matches(test, routes[i]),
    ensures
        routes[i].language_id == language_id,
{
    let j = choose|j: int|
        0 <= j < routes[i].extensions.len() && encode_utf8(#[trigger] routes[i].extensions[j]).len() == bytes
            && file_ends(file, routes[i].extensions[j]);
    assert(file_ends(file, routes[i].extensions[j]));
}

/// The language of a file for the selected server: the one that is asked for,
/// or the one on which the longest extensions of the server's routes agree.
pub fn document_language_id(routes: &Vec<RouteConfig>, server: &str, file: &str, explicit: Option<&str>) -> (r: Result<
    String,
    ContractFailure,
>)
    ensures
        ({
            let mine = views(routes@).filter(of_server(server@));
            match (explicit, r) {
                (Some(e), _) => r matches Ok(language_id) && language_id@ == e@,
                (None, Ok(language_id)) => exists|n: nat| #[trigger]
                    longest(mine, file@, n) && gives_language(mine, file@, n, language_id@),
                (None, Err(f)) => {
                    ||| f@ == selection_failed(
                        "No language route for the selected server matches a synchronized Document."@,
                    ) && forall|n: nat| !#[trigger] ends_in_bytes(mine, file@, n)
                    ||| f@ == selection_failed(
                        "Equally specific routes disagree on the synchronized Document language ID."@,
                    ) && exists|n: nat| #[trigger]
                        longest(mine, file@, n) && forall|l: Seq<char>| !#[trigger] gives_language(mine, file@, n, l)
                },
            }
        }),
{
    if let Some(e) = explicit {
        return Ok(e.to_owned());
    }
    let mine: Vec<RouteConfig> = routes_of(routes, server);
    match longest_extension(&mine, file) {
        None => Err(
            server_selection_failure("No language route for the selected server matches a synchronized Document."),
        ),
        Some(n) => {
            assert(longest(views(mine@), file@, n as nat));
            match agreed_language(&mine, file, n) {
                Some(language_id) => Ok(language_id),
                None => Err(
                    server_selection_failure(
                        "Equally specific routes disagree on the synchronized Document language ID.",
                    ),
                ),
            }
        },
    }
}

/// Routes select at most one server.
pub proof fn law_routes_select_one_server(routes: Seq<RouteView>, test: RouteTestView, a: Seq<char>, b: Seq<char>)
    requires
        selects(routes, test, a),
        selects(routes, test, b),
    ensures
        a == b,
{
}

/// A file has at most one language, and one longest extension.
pub proof fn law_one_language(routes: Seq<RouteView>, file: Seq<char>, n: nat, m: nat, a: Seq<char>, b: Seq<char>)
    requires
        longest(routes, file, n),
        longest(routes, file, m),
        gives_language(routes, file, n, a),
        gives_language(routes, file, m, b),
    ensures
        n == m,
        a == b,
{
}

} // verus!
