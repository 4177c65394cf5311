//! Page sources: a mock that serves pages from a site map, and the decisions
//! around running `curl`.

use vstd::prelude::*;

use crate::pricetracker::Error;
use crate::text::{lossy_utf8_text, str_eq, utf8_lossy_string};

verus! {

/// A page source that answers from a fixed map of URL to page body.
pub struct Mock {
    sitemap: Vec<(String, String)>,
}

/// The map that a list of (URL, body) pairs describes; where a URL occurs
/// more than once, its last pair holds.
pub open spec fn pairs_map(pairs: Seq<(String, String)>) -> Map<Seq<char>, Seq<char>>
    decreases pairs.len(),
{
    if pairs.len() == 0 {
        Map::empty()
    } else {
        pairs_map(pairs.drop_last()).insert(pairs.last().0@, pairs.last().1@)
    }
}

/// Where no pair names `k`, the map has no entry for `k`.
pub proof fn lemma_pairs_map_absent(pairs: Seq<(String, String)>, k: Seq<char>)
    requires
        forall|j: int| 0 <= j < pairs.len() ==> pairs[j].0@ != k,
    ensures
        !pairs_map(pairs).contains_key(k),
    decreases pairs.len(),
{
    if pairs.len() > 0 {
        lemma_pairs_map_absent(pairs.drop_last(), k);
    }
}

/// The entry for `k` is the body of the last pair that names `k`.
pub proof fn lemma_pairs_map_last(pairs: Seq<(String, String)>, k: Seq<char>, i: int)
    requires
        0 <= i < pairs.len(),
        pairs[i].0@ == k,
        forall|j: int| i < j < pairs.len() ==> pairs[j].0@ != k,
    ensures
        pairs_map(pairs).contains_key(k),
        pairs_map(pairs)[k] == pairs[i].1@,
    decreases pairs.len(),
{
    if i < pairs.len() - 1 {
        lemma_pairs_map_last(pairs.drop_last(), k, i);
    }
}

impl View for Mock {
    type V = Map<Seq<char>, Seq<char>>;

    closed spec fn view(&self) -> Map<Seq<char>, Seq<char>> {
        pairs_map(self.sitemap@)
    }
}

impl Mock {
    /// A mock serving `sitemap`: each URL maps to its body, the last pair of a
    /// URL winning, as when a `HashMap` is built from the pairs.
    pub fn new(sitemap: Vec<(String, String)>) -> (m: Mock)
        ensures
            m@ == pairs_map(sitemap@),
    {
        Mock { sitemap }
    }

    /// The body that the site map holds for `url`, or an `HttpGetError`
    /// saying that there is none.
    pub fn get(&self, url: &str) -> (r: Result<String, Error>)
        ensures
            match r {
                Ok(body) => self@.contains_key(url@) && body@ == self@[url@],
                Err(e) => !self@.contains_key(url@) && (e matches Error::HttpGetError(msg)
                    && msg@ == "mock: no entry for "@ + url@),
            },
    {
        let mut i: usize = self.sitemap.len();
        while i > 0
            invariant
                i <= self.sitemap@.len(),
                forall|j: int| i <= j < self.sitemap@.len() ==> self.sitemap@[j].0@ != url@,
            decreases i,
        {
            i -= 1;
            if str_eq(self.sitemap[i].0.as_str(), url) {
                proof {
                    lemma_pairs_map_last(self.sitemap@, url@, i as int);
                }
                return Ok(self.sitemap[i].1.clone());
            }
        }
        proof {
            lemma_pairs_map_absent(self.sitemap@, url@);
        }
        let mut msg = "mock: no entry for ".to_owned();
        msg.append(url);
        Err(Error::HttpGetError(msg))
    }
}

/// The page source that runs the `curl` program.
#[derive(Debug, Clone, Copy)]
pub struct Curl {}

/// The browser identity that page requests present.
pub open spec fn user_agent_header() -> Seq<char> {
    "User-Agent: Mozilla/5.0 (X11; Linux x86_64; rv:109.0) Gecko/20100101 Firefox/116.0"@
}

impl Curl {
    /// A curl page source.
    pub fn new() -> (c: Curl)
        ensures
            c == (Curl {  }),
    {
        Curl {  }
    }

    /// The program that is run to fetch a page: `curl`.
    pub fn program(&self) -> (p: String)
        ensures
            p@ == "curl"@,
    {
        "curl".to_owned()
    }

    /// The arguments given to `curl` to fetch `url`: the URL, compressed
    /// transfer, and the browser identity header.
    pub fn args(&self, url: &str) -> (a: Vec<String>)
        ensures
            a@.len() == 4,
            a@[0]@ == url@,
            a@[1]@ == "--compressed"@,
            a@[2]@ == "-H"@,
            a@[3]@ == user_agent_header(),
    {
        let mut a: Vec<String> = Vec::new();
        a.push(url.to_owned());
        a.push("--compressed".to_owned());
        a.push("-H".to_owned());
        a.push(
            "User-Agent: Mozilla/5.0 (X11; Linux x86_64; rv:109.0) Gecko/20100101 Firefox/116.0".to_owned(),
        );
        a
    }

    /// What a finished `curl` run for `url` gives: its standard output where
    /// it succeeded, else an `HttpGetError` that quotes its standard error.
    pub fn response(&self, url: &str, success: bool, stdout: String, stderr: &str) -> (r: Result<
        String,
        Error,
    >)
        ensures
            success ==> (r matches Ok(body) && body@ == stdout@),
            !success ==> (r matches Err(Error::HttpGetError(msg)) && msg@ == "curl: error getting "@
                + url@ + ": "@ + stderr@),
    {
        if success {
            Ok(stdout)
        } else {
            let mut msg = "curl: error getting ".to_owned();
            msg.append(url);
            msg.append(": ");
            msg.append(stderr);
            Err(Error::HttpGetError(msg))
        }
    }

    /// What a finished `curl` run for `url` gives from the raw bytes it wrote:
    /// its standard output read as UTF-8 (invalid sequences replaced) where it
    /// succeeded, else an `HttpGetError` quoting its standard error read so.
    pub fn response_bytes(&self, url: &str, success: bool, stdout: &[u8], stderr: &[u8]) -> (r:
        Result<String, Error>)
        ensures
            success ==> (r matches Ok(body) && body@ == lossy_utf8_text(stdout@)),
            !success ==> (r matches Err(Error::HttpGetError(msg)) && msg@ == "curl: error getting "@
                + url@ + ": "@ + lossy_utf8_text(stderr@)),
    {
        let out = utf8_lossy_string(stdout);
        let err = utf8_lossy_string(stderr);
        self.response(url, success, out, err.as_str())
    }

    /// The error for a `curl` program that could not be run for `url`, quoting
    /// the cause.
    pub fn spawn_error(&self, url: &str, cause: &str) -> (e: Error)
        ensures
            e matches Error::HttpGetError(msg) && msg@ == "curl: error executing curl "@ + url@
                + ": "@ + cause@,
    {
        let mut msg = "curl: error executing curl ".to_owned();
        msg.append(url);
        msg.append(": ");
        msg.append(cause);
        Error::HttpGetError(msg)
    }
}

} // verus!
