//! Configuration values, their defaults and the constants both sides share.

use vstd::prelude::*;
use vstd::string::*;
use crate::text::{nat_decimal, push_decimal, trim, trim_ws, chars_of, string_of_range};

verus! {

/// Port the server listens on unless configured otherwise.
pub const DEFAULT_SERVER_PORT: u16 = 3500;

/// Upper bound on the tokens of one model reply.
pub const CLAUDE_MAX_TOKENS: i32 = 1000;

/// Address the server binds to unless configured otherwise.
pub fn default_server_host() -> (r: String)
    ensures
        r@ == "0.0.0.0"@,
{
    String::from_str("0.0.0.0")
}

/// Where the client finds the server unless configured otherwise.
pub fn default_server_url() -> (r: String)
    ensures
        r@ == "http://localhost:3500"@,
{
    String::from_str("http://localhost:3500")
}

/// The database the server opens unless configured otherwise.
pub fn default_database_url() -> (r: String)
    ensures
        r@ == "sqlite://clai.db"@,
{
    String::from_str("sqlite://clai.db")
}

/// The origins allowed to call the server unless configured otherwise.
pub fn default_allowed_origins() -> (r: String)
    ensures
        r@ == "http://localhost:5173"@,
{
    String::from_str("http://localhost:5173")
}

/// The server's port unless configured otherwise.
pub fn default_server_port() -> (r: u16)
    ensures
        r == DEFAULT_SERVER_PORT,
{
    DEFAULT_SERVER_PORT
}

/// Application configuration.
pub struct Config {
    /// Server URL for client-server communication.
    pub clai_server_url: String,
    /// Anthropic API key for the model API.
    pub anthropic_api_key: String,
    /// Database URL (SQLite file path).
    pub database_url: String,
    /// Server host binding address.
    pub clai_server_host: String,
    /// Server port.
    pub clai_server_port: u16,
    /// Comma-separated list of allowed CORS origins.
    pub allowed_origins: String,
    /// The model chat turns go to when their session has none chosen; when
    /// unset, the server takes the first model the model API lists.
    pub default_model: Option<String>,
}

/// The pieces of `s` between occurrences of `sep`, in order; an empty string
/// and a trailing separator each give an empty piece (what `str::split` yields).
pub open spec fn split_on(s: Seq<char>, sep: char) -> Seq<Seq<char>>
    decreases s.len(),
{
    if s.len() == 0 {
        seq![Seq::<char>::empty()]
    } else {
        let rest = split_on(s.drop_last(), sep);
        if s.last() == sep {
            rest.push(Seq::<char>::empty())
        } else {
            rest.update(rest.len() - 1, rest.last().push(s.last()))
        }
    }
}

proof fn lemma_split_nonempty(s: Seq<char>, sep: char)
    ensures
        split_on(s, sep).len() >= 1,
    decreases s.len(),
{
    if s.len() > 0 {
        lemma_split_nonempty(s.drop_last(), sep);
    }
}

/// The views of a sequence of strings.
pub open spec fn string_views(v: Seq<String>) -> Seq<Seq<char>> {
    v.map_values(|s: String| s@)
}

/// The pieces of `s` between the `sep` characters.
pub fn split_str(s: &str, sep: char) -> (r: Vec<String>)
    ensures
        string_views(r@) == split_on(s@, sep),
{
    let v = chars_of(s);
    let mut pieces: Vec<String> = Vec::new();
    let mut start: usize = 0;
    let mut i: usize = 0;
    assert(v@.take(0) =~= Seq::<char>::empty());
    while i < v.len()
        invariant
            v@ == s@,
            start <= i <= v@.len(),
            string_views(pieces@).push(v@.subrange(start as int, i as int)) == split_on(
                v@.take(i as int),
                sep,
            ),
        decreases v@.len() - i,
    {
        let ghost before = string_views(pieces@);
        proof {
            lemma_split_nonempty(v@.take(i as int), sep);
            assert(v@.take(i + 1).drop_last() =~= v@.take(i as int));
            assert(v@.take(i + 1).last() == v@[i as int]);
        }
        if v[i] == sep {
            let piece = string_of_range(&v, start, i);
            let ghost cur = piece@;
            pieces.push(piece);
            assert(string_views(pieces@) =~= before.push(cur));
            start = i + 1;
            assert(v@.subrange(start as int, (i + 1) as int) =~= Seq::<char>::empty());
        } else {
            let ghost cur = v@.subrange(start as int, i as int);
            assert(v@.subrange(start as int, (i + 1) as int) =~= cur.push(v@[i as int]));
            assert(before.push(cur).update(before.len() as int, cur.push(v@[i as int])) =~= before.push(cur.push(v@[i as int])));
        }
        i = i + 1;
    }
    let last = string_of_range(&v, start, v.len());
    pieces.push(last);
    assert(v@.take(v@.len() as int) =~= v@);
    pieces
}

impl Config {
    /// The address the server binds to: host, a colon, and the port.
    pub fn server_bind_address(&self) -> (r: String)
        ensures
            r@ == self.clai_server_host@ + ":"@ + nat_decimal(self.clai_server_port as nat),
    {
        let mut r = self.clai_server_host.clone();
        r.append(":");
        push_decimal(&mut r, self.clai_server_port as u64);
        r
    }

    /// The allowed origins: the comma-separated pieces of `allowed_origins`,
    /// each with surrounding whitespace removed.
    pub fn allowed_origin_list(&self) -> (r: Vec<String>)
        ensures
            string_views(r@) == split_on(self.allowed_origins@, ',').map_values(
                |p: Seq<char>| trim_ws(p),
            ),
    {
        let pieces = split_str(self.allowed_origins.as_str(), ',');
        let mut r: Vec<String> = Vec::new();
        let mut i: usize = 0;
        while i < pieces.len()
            invariant
                i <= pieces@.len(),
                string_views(pieces@) == split_on(self.allowed_origins@, ','),
                string_views(r@) == string_views(pieces@).take(i as int).map_values(
                    |p: Seq<char>| trim_ws(p),
                ),
            decreases pieces@.len() - i,
        {
            let t = trim(pieces[i].as_str());
            let ghost before = string_views(r@);
            let ghost tv = t@;
            r.push(t);
            proof {
                let pv = string_views(pieces@);
                assert(pv[i as int] == pieces@[i as int]@);
                assert(string_views(r@) =~= before.push(tv));
                assert(pv.take(i + 1) =~= pv.take(i as int).push(pv[i as int]));
                assert(pv.take(i + 1).map_values(|p: Seq<char>| trim_ws(p)) =~= pv.take(
                    i as int,
                ).map_values(|p: Seq<char>| trim_ws(p)).push(trim_ws(pv[i as int])));
            }
            i = i + 1;
        }
        assert(string_views(pieces@).take(pieces@.len() as int) =~= string_views(pieces@));
        r
    }
}

} // verus!
