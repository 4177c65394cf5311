//! Routing of the display server's requests.

use vstd::prelude::*;

use crate::text::{chars_of, str_eq};

verus! {

/// What the display server answers a request with.
#[derive(Debug, Clone, Copy, PartialEq, Eq)]
pub enum Route {
    /// The price entries of all watched items.
    Entries,
    /// No such page.
    NotFound,
}

/// The path of a raw request URL: everything before the first `?`.
pub open spec fn url_path(url: Seq<char>) -> Seq<char>
    decreases url.len(),
{
    if url.len() == 0 {
        Seq::<char>::empty()
    } else if url[0] == '?' {
        Seq::<char>::empty()
    } else {
        seq![url[0]] + url_path(url.drop_first())
    }
}

/// The route of a request with HTTP method `method` and raw URL `url`.
pub open spec fn spec_route(method: Seq<char>, url: Seq<char>) -> Route {
    if method == "GET"@ && url_path(url) == "/api/v1/entries"@ {
        Route::Entries
    } else {
        Route::NotFound
    }
}

proof fn lemma_url_path_prefix(url: Seq<char>, i: int)
    requires
        0 <= i <= url.len(),
        forall|j: int| 0 <= j < i ==> url[j] != '?',
    ensures
        url_path(url) == url.take(i) + url_path(url.skip(i)),
    decreases i,
{
    if i > 0 {
        lemma_url_path_prefix(url.drop_first(), i - 1);
        assert(url.drop_first().take(i - 1) =~= url.take(i).drop_first());
        assert(url.drop_first().skip(i - 1) =~= url.skip(i));
        assert(seq![url[0]] + url.take(i).drop_first() =~= url.take(i));
    } else {
        assert(url.take(0) =~= Seq::<char>::empty());
        assert(url.skip(0) =~= url);
    }
}

/// A query string does not change the route: a request for `path` followed
/// by `?` and any query is routed as the request for `path` alone.
pub proof fn lemma_route_ignores_query(method: Seq<char>, path: Seq<char>, query: Seq<char>)
    requires
        forall|j: int| 0 <= j < path.len() ==> path[j] != '?',
    ensures
        spec_route(method, path + seq!['?'] + query) == spec_route(method, path),
{
    let url = path + seq!['?'] + query;
    assert forall|j: int| 0 <= j < path.len() implies url[j] != '?' by {
        assert(url[j] == path[j]);
    }
    lemma_url_path_prefix(url, path.len() as int);
    assert(url.take(path.len() as int) =~= path);
    assert(url.skip(path.len() as int)[0] == '?');
    lemma_url_path_prefix(path, path.len() as int);
    assert(path.take(path.len() as int) =~= path);
    assert(path.skip(path.len() as int) =~= Seq::<char>::empty());
    assert(path + Seq::<char>::empty() =~= path);
}

/// The path of a raw request URL: everything before the first `?`.
pub fn request_path(url: &str) -> (p: Vec<char>)
    ensures
        p@ == url_path(url@),
{
    let cs = chars_of(url);
    let mut p: Vec<char> = Vec::new();
    let mut i: usize = 0;
    while i < cs.len() && cs[i] != '?'
        invariant
            cs@ == url@,
            i <= cs@.len(),
            p@ == cs@.take(i as int),
            forall|j: int| 0 <= j < i ==> cs@[j] != '?',
        decreases cs@.len() - i,
    {
        p.push(cs[i]);
        i += 1;
        assert(p@ =~= cs@.take(i as int));
    }
    proof {
        lemma_url_path_prefix(url@, i as int);
        if i < cs@.len() {
            assert(url@.skip(i as int)[0] == '?');
        } else {
            assert(url@.skip(i as int) =~= Seq::<char>::empty());
        }
        assert(url@.take(i as int) + Seq::<char>::empty() =~= url@.take(i as int));
    }
    p
}

/// Routes a request: `GET` of the path `/api/v1/entries` (whatever query
/// follows a `?`) gets the entries; every other request gets no page.
pub fn route(method: &str, url: &str) -> (r: Route)
    ensures
        r == spec_route(method@, url@),
{
    let path = request_path(url);
    let want = chars_of("/api/v1/entries");
    let mut same = path.len() == want.len();
    let mut i: usize = 0;
    while same && i < path.len()
        invariant
            path@.len() == want@.len() || !same,
            i <= path@.len(),
            same ==> forall|j: int| 0 <= j < i ==> path@[j] == want@[j],
            !same ==> path@ != want@,
        decreases path@.len() - i + (if same { 1int } else { 0int }),
    {
        if path[i] != want[i] {
            assert(path@[i as int] != want@[i as int]);
            same = false;
        } else {
            i += 1;
        }
    }
    if same {
        assert(path@ =~= want@);
    }
    if str_eq(method, "GET") && same {
        Route::Entries
    } else {
        Route::NotFound
    }
}

} // verus!
