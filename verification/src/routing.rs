//! Which endpoint answers a request, from its method and its path.
//!
//! The path is read one segment at a time: a leading `/` is skipped, a
//! segment runs up to the next `/`, and that `/` is skipped before the next
//! segment. `POST /` takes events; `GET /env` (whatever follows the `env`
//! segment) lists the environment; `GET /health` answers the health of the
//! service, and `GET /health/started`, `/health/ready` and `/health/live`
//! answer the probes. No endpoint answers any other request: it is answered
//! "not found".

use vstd::prelude::*;
use crate::service::HealthProbe;

verus! {

/// An endpoint of the service.
#[derive(Clone, Copy, Debug, PartialEq, Eq, Structural)]
pub enum Endpoint {
    PostRoot,
    Env,
    Health(HealthProbe),
}

/// The length of the segment at the start of `p`: up to the first `/`.
pub open spec fn segment_len(p: Seq<char>) -> nat
    decreases p.len(),
{
    if p.len() == 0 || p[0] == '/' {
        0
    } else {
        1 + segment_len(p.drop_first())
    }
}

/// The segment at the start of `p`.
pub open spec fn first_segment(p: Seq<char>) -> Seq<char> {
    p.take(segment_len(p) as int)
}

/// What follows the segment at the start of `p`, past the `/` that ends it.
pub open spec fn after_segment(p: Seq<char>) -> Seq<char> {
    if segment_len(p) < p.len() {
        p.skip(segment_len(p) as int + 1)
    } else {
        Seq::empty()
    }
}

/// The path with its leading `/` skipped.
pub open spec fn unrooted(path: Seq<char>) -> Seq<char> {
    if path.len() > 0 && path[0] == '/' {
        path.drop_first()
    } else {
        path
    }
}

/// The path is exactly the one segment `a` (a `/` may end it).
pub open spec fn one_segment(p: Seq<char>, a: Seq<char>) -> bool {
    &&& first_segment(p) == a
    &&& after_segment(p).len() == 0
}

/// The path is exactly the two segments `a` and `b` (a `/` may end it).
pub open spec fn two_segments(p: Seq<char>, a: Seq<char>, b: Seq<char>) -> bool {
    &&& first_segment(p) == a
    &&& first_segment(after_segment(p)) == b
    &&& after_segment(after_segment(p)).len() == 0
}

/// The endpoint that answers a request; `None` where no endpoint answers it.
pub open spec fn route_of(method: Seq<char>, path: Seq<char>) -> Option<Endpoint> {
    let p = unrooted(path);
    if method == "POST"@ && p.len() == 0 {
        Some(Endpoint::PostRoot)
    } else if method == "GET"@ && first_segment(p) == "env"@ {
        Some(Endpoint::Env)
    } else if method == "GET"@ && one_segment(p, "health"@) {
        Some(Endpoint::Health(HealthProbe::Overall))
    } else if method == "GET"@ && two_segments(p, "health"@, "started"@) {
        Some(Endpoint::Health(HealthProbe::Started))
    } else if method == "GET"@ && two_segments(p, "health"@, "ready"@) {
        Some(Endpoint::Health(HealthProbe::Ready))
    } else if method == "GET"@ && two_segments(p, "health"@, "live"@) {
        Some(Endpoint::Health(HealthProbe::Live))
    } else {
        None
    }
}

proof fn lemma_segment_len_bound(p: Seq<char>)
    ensures
        segment_len(p) <= p.len(),
    decreases p.len(),
{
    if p.len() > 0 && p[0] != '/' {
        lemma_segment_len_bound(p.drop_first());
    }
}

proof fn lemma_segment_len_chars(p: Seq<char>, i: int)
    requires
        0 <= i < segment_len(p),
    ensures
        p[i] != '/',
    decreases p.len(),
{
    lemma_segment_len_bound(p);
    assert(p.len() > 0 && p[0] != '/');
    if i > 0 {
        lemma_segment_len_chars(p.drop_first(), i - 1);
        assert(p.drop_first()[i - 1] == p[i]);
    }
}

proof fn lemma_segment_len_end(p: Seq<char>)
    ensures
        segment_len(p) < p.len() ==> p[segment_len(p) as int] == '/',
    decreases p.len(),
{
    lemma_segment_len_bound(p);
    if p.len() > 0 && p[0] != '/' {
        lemma_segment_len_end(p.drop_first());
    }
}

/// The characters of a text.
fn chars_of(s: &str) -> (r: Vec<char>)
    ensures
        r@ == s@,
{
    let n: usize = s.unicode_len();
    let mut r: Vec<char> = Vec::new();
    let mut i: usize = 0;
    while i < n
        invariant
            n == s@.len(),
            i <= n,
            r@ == s@.take(i as int),
        decreases n - i,
    {
        r.push(s.get_char(i));
        assert(r@ =~= s@.take(i + 1));
        i = i + 1;
    }
    assert(s@.take(n as int) =~= s@);
    r
}

/// The length of the segment that starts at `from`.
fn segment_end(p: &Vec<char>, from: usize) -> (r: usize)
    requires
        from <= p.len(),
    ensures
        r == from + segment_len(p@.skip(from as int)),
        r <= p.len(),
{
    let mut i: usize = from;
    while i < p.len() && p[i] != '/'
        invariant
            from <= i <= p.len(),
            forall|t: int| from <= t < i ==> p@[t] != '/',
        decreases p.len() - i,
    {
        i = i + 1;
    }
    proof {
        lemma_segment_len_bound(p@.skip(from as int));
        lemma_segment_len_end(p@.skip(from as int));
        let q = p@.skip(from as int);
        let k: int = segment_len(q) as int;
        if k < i - from {
            assert(q[k] == p@[from + k]);
        }
        if (i - from) < k {
            lemma_segment_len_chars(q, i - from);
            assert(q[i - from] == p@[i as int]);
        }
    }
    i
}

/// Whether `p[from..to]` spells `word`.
fn spells(p: &Vec<char>, from: usize, to: usize, word: &str) -> (r: bool)
    requires
        from <= to <= p.len(),
    ensures
        r == (p@.subrange(from as int, to as int) == word@),
{
    let w = chars_of(word);
    if to - from != w.len() {
        return false;
    }
    let mut k: usize = 0;
    while k < w.len()
        invariant
            from <= to <= p.len(),
            to - from == w.len(),
            w@ == word@,
            k <= w.len(),
            forall|t: int| 0 <= t < k ==> p@[from + t] == w@[t],
        decreases w.len() - k,
    {
        if p[from + k] != w[k] {
            assert(p@.subrange(from as int, to as int)[k as int] != word@[k as int]);
            return false;
        }
        k = k + 1;
    }
    assert(p@.subrange(from as int, to as int) =~= word@);
    true
}

/// The endpoint that answers a request with this method and path; `None`
/// where no endpoint answers it.
pub fn route(method: &str, path: &str) -> (r: Option<Endpoint>)
    ensures
        r == route_of(method@, path@),
{
    let m = String::from_str(method);
    let is_post = m == "POST".to_owned();
    let is_get = m == "GET".to_owned();
    let p = chars_of(path);
    let start: usize = if p.len() > 0 && p[0] == '/' { 1 } else { 0 };
    let ghost u = unrooted(path@);
    assert(u =~= p@.skip(start as int));
    if is_post && start == p.len() {
        return Some(Endpoint::PostRoot);
    }
    if !is_get {
        return None;
    }
    let e1: usize = segment_end(&p, start);
    assert(first_segment(u) =~= p@.subrange(start as int, e1 as int));
    if spells(&p, start, e1, "env") {
        return Some(Endpoint::Env);
    }
    proof {
        reveal_strlit("started");
        reveal_strlit("ready");
        reveal_strlit("live");
        reveal_strlit("GET");
        reveal_strlit("POST");
        assert("GET"@.len() != "POST"@.len());
    }
    if !spells(&p, start, e1, "health") {
        return None;
    }
    if e1 == p.len() {
        assert(after_segment(u).len() == 0);
        return Some(Endpoint::Health(HealthProbe::Overall));
    }
    let s2: usize = e1 + 1;
    assert(after_segment(u) =~= p@.skip(s2 as int));
    if s2 == p.len() {
        assert(after_segment(u).len() == 0);
        return Some(Endpoint::Health(HealthProbe::Overall));
    }
    let e2: usize = segment_end(&p, s2);
    assert(first_segment(after_segment(u)) =~= p@.subrange(s2 as int, e2 as int));
    let ends = e2 == p.len() || e2 + 1 == p.len();
    assert(ends == (after_segment(after_segment(u)).len() == 0));
    if !ends {
        return None;
    }
    if spells(&p, s2, e2, "started") {
        Some(Endpoint::Health(HealthProbe::Started))
    } else if spells(&p, s2, e2, "ready") {
        Some(Endpoint::Health(HealthProbe::Ready))
    } else if spells(&p, s2, e2, "live") {
        Some(Endpoint::Health(HealthProbe::Live))
    } else {
        None
    }
}

} // verus!
