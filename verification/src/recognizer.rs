//! Recognition of the navigation that ends a login: whether an address is the
//! expected callback, and which artifact it carries.

use vstd::prelude::*;

verus! {

/// The HTTP mechanism by which the identity provider hands the artifact back.
#[derive(Debug, Clone, Copy, PartialEq, Eq)]
pub enum SamlBinding {
    Redirect,
    Post,
}

/// The credential that the terminal navigation carries.
#[derive(Debug, PartialEq, Eq)]
pub struct AuthArtifact {
    pub value: Vec<u8>,
}

/// One navigation of the browsing surface: the address it went to and the
/// body that came with it (empty where there was none).
#[derive(Debug)]
pub struct Navigation {
    pub url: Vec<u8>,
    pub body: Vec<u8>,
}

/// What the service's callback looks like: its address up to the query, and
/// the name of the parameter that holds the artifact.
#[derive(Debug)]
pub struct RedirectRecognizer {
    pub callback: Vec<u8>,
    pub parameter: Vec<u8>,
}

/// `&`, `#` and `?` end a value and start the next pair.
pub open spec fn is_delimiter(b: u8) -> bool {
    b == 0x26 || b == 0x23 || b == 0x3f
}

/// The bytes an artifact may hold: letters, digits and `- . _ ~ % +`.
pub open spec fn is_artifact_byte(b: u8) -> bool {
    (0x30 <= b <= 0x39) || (0x41 <= b <= 0x5a) || (0x61 <= b <= 0x7a) || b == 0x2d || b == 0x2e
        || b == 0x5f || b == 0x7e || b == 0x25 || b == 0x2b
}

/// A pair named `key` starts at `i`: at the start of `p` or behind a
/// delimiter stand the bytes of `key` and then `=`.
pub open spec fn names_pair_at(p: Seq<u8>, key: Seq<u8>, i: int) -> bool {
    &&& 0 <= i
    &&& i + key.len() < p.len()
    &&& (i == 0 || is_delimiter(p[i - 1]))
    &&& p.subrange(i, i + key.len()) == key
    &&& p[i + key.len()] == 0x3d
}

/// The pair at `i` is the only one named `key`.
pub open spec fn sole_pair(p: Seq<u8>, key: Seq<u8>, i: int) -> bool {
    names_pair_at(p, key, i) && forall|j: int| names_pair_at(p, key, j) ==> j == i
}

/// Where the value that starts at `from` ends: at the first delimiter, or at
/// the end of `p`.
pub open spec fn value_end(p: Seq<u8>, from: int) -> int
    decreases p.len() - from,
{
    if 0 <= from < p.len() && !is_delimiter(p[from]) {
        value_end(p, from + 1)
    } else {
        from
    }
}

/// The value of the pair named `key` that starts at `i`.
pub open spec fn value_at(p: Seq<u8>, key: Seq<u8>, i: int) -> Seq<u8> {
    p.subrange(i + key.len() + 1, value_end(p, i + key.len() + 1))
}

/// An artifact is well formed when it is not empty and holds artifact bytes
/// only.
pub open spec fn well_formed(v: Seq<u8>) -> bool {
    v.len() > 0 && forall|k: int| 0 <= k < v.len() ==> is_artifact_byte(#[trigger] v[k])
}

/// The artifact among the pairs of `p`: the value of the pair named `key`,
/// where exactly one pair has that name and its value is well formed.
pub open spec fn artifact_in(p: Seq<u8>, key: Seq<u8>) -> Option<Seq<u8>> {
    if exists|i: int| sole_pair(p, key, i) {
        let v = value_at(p, key, choose|i: int| sole_pair(p, key, i));
        if well_formed(v) {
            Some(v)
        } else {
            None
        }
    } else {
        None
    }
}

/// The address is the callback itself, or the callback followed by a query
/// or a fragment.
pub open spec fn at_callback(url: Seq<u8>, callback: Seq<u8>) -> bool {
    &&& callback.len() <= url.len()
    &&& url.subrange(0, callback.len() as int) == callback
    &&& (url.len() == callback.len() || url[callback.len() as int] == 0x3f
        || url[callback.len() as int] == 0x23)
}

/// What follows the callback and the `?` or `#` behind it.
pub open spec fn url_parameters(url: Seq<u8>, callback: Seq<u8>) -> Seq<u8> {
    if callback.len() < url.len() {
        url.subrange(callback.len() as int + 1, url.len() as int)
    } else {
        Seq::empty()
    }
}

fn delimiter(b: u8) -> (r: bool)
    ensures
        r == is_delimiter(b),
{
    b == 0x26 || b == 0x23 || b == 0x3f
}

fn artifact_byte(b: u8) -> (r: bool)
    ensures
        r == is_artifact_byte(b),
{
    (0x30 <= b && b <= 0x39) || (0x41 <= b && b <= 0x5a) || (0x61 <= b && b <= 0x7a) || b == 0x2d
        || b == 0x2e || b == 0x5f || b == 0x7e || b == 0x25 || b == 0x2b
}

/// Whether `key` stands in `p` from `at` on.
fn holds_at(p: &[u8], key: &[u8], at: usize) -> (r: bool)
    requires
        at + key@.len() <= p@.len(),
    ensures
        r == (p@.subrange(at as int, at + key@.len()) == key@),
{
    let k: usize = key.len();
    let n: usize = p.len();
    let mut j: usize = 0;
    while j < k
        invariant
            j <= k,
            k == key@.len(),
            n == p@.len(),
            at + k <= n,
            forall|t: int| 0 <= t < j ==> p@[at + t] == key@[t],
        decreases k - j,
    {
        if p[at + j] != key[j] {
            assert(p@.subrange(at as int, at + k)[j as int] == p@[at + j]);
            return false;
        }
        j += 1;
    }
    assert(p@.subrange(at as int, at + k) =~= key@);
    true
}

fn names_pair(p: &[u8], key: &[u8], i: usize) -> (r: bool)
    ensures
        r == names_pair_at(p@, key@, i as int),
{
    let n: usize = p.len();
    let k: usize = key.len();
    if k >= n || i >= n - k {
        return false;
    }
    if i > 0 && !delimiter(p[i - 1]) {
        return false;
    }
    holds_at(p, key, i) && p[i + k] == 0x3d
}

fn find_value_end(p: &[u8], from: usize) -> (r: usize)
    requires
        from <= p@.len(),
    ensures
        r == value_end(p@, from as int),
        from <= r <= p@.len(),
{
    let mut e: usize = from;
    while e < p.len() && !delimiter(p[e])
        invariant
            from <= e <= p@.len(),
            value_end(p@, from as int) == value_end(p@, e as int),
        decreases p@.len() - e,
    {
        e += 1;
    }
    e
}

/// The bytes of `p` from `from` to `to`, if they form an artifact.
fn copy_artifact(p: &[u8], from: usize, to: usize) -> (r: Option<Vec<u8>>)
    requires
        from <= to <= p@.len(),
    ensures
        match r {
            Some(v) => v@ == p@.subrange(from as int, to as int) && well_formed(v@),
            None => !well_formed(p@.subrange(from as int, to as int)),
        },
{
    if from == to {
        return None;
    }
    let ghost whole = p@.subrange(from as int, to as int);
    let mut out: Vec<u8> = Vec::new();
    let mut t: usize = from;
    while t < to
        invariant
            from <= t <= to <= p@.len(),
            whole == p@.subrange(from as int, to as int),
            out@ == p@.subrange(from as int, t as int),
            forall|k: int| 0 <= k < out@.len() ==> is_artifact_byte(#[trigger] out@[k]),
        decreases to - t,
    {
        let b: u8 = p[t];
        if !artifact_byte(b) {
            assert(whole[t - from] == b);
            return None;
        }
        out.push(b);
        assert(out@ =~= p@.subrange(from as int, t + 1));
        t += 1;
    }
    Some(out)
}

/// Looks among the pairs of `p` for the artifact: the value of the one pair
/// named `key`. Nothing is found where no pair or more than one has that
/// name, or where the value is empty or holds a byte that no artifact may
/// hold.
pub fn extract(p: &[u8], key: &[u8]) -> (r: Option<Vec<u8>>)
    ensures
        match r {
            Some(v) => artifact_in(p@, key@) == Some(v@),
            None => artifact_in(p@, key@) is None,
        },
{
    let n: usize = p.len();
    let mut found: Option<usize> = None;
    let mut i: usize = 0;
    while i < n
        invariant
            i <= n,
            n == p@.len(),
            match found {
                None => forall|j: int| 0 <= j < i ==> !names_pair_at(p@, key@, j),
                Some(f) => f < i && names_pair_at(p@, key@, f as int) && forall|j: int|
                    0 <= j < i && j != f ==> !names_pair_at(p@, key@, j),
            },
        decreases n - i,
    {
        if names_pair(p, key, i) {
            if let Some(f) = found {
                assert forall|x: int| !sole_pair(p@, key@, x) by {
                    if x == f as int {
                        assert(names_pair_at(p@, key@, i as int));
                    } else {
                        assert(names_pair_at(p@, key@, f as int));
                    }
                }
                return None;
            }
            found = Some(i);
        }
        i += 1;
    }
    match found {
        None => None,
        Some(f) => {
            proof {
                assert(sole_pair(p@, key@, f as int));
                let c = choose|x: int| sole_pair(p@, key@, x);
                assert(names_pair_at(p@, key@, c));
                assert(c == f);
            }
            let start: usize = f + key.len() + 1;
            let end: usize = find_value_end(p, start);
            copy_artifact(p, start, end)
        },
    }
}

/// The bytes of `p` from `from` on.
fn tail(p: &[u8], from: usize) -> (r: Vec<u8>)
    requires
        from <= p@.len(),
    ensures
        r@ == p@.subrange(from as int, p@.len() as int),
{
    let mut out: Vec<u8> = Vec::new();
    let mut t: usize = from;
    while t < p.len()
        invariant
            from <= t <= p@.len(),
            out@ == p@.subrange(from as int, t as int),
        decreases p@.len() - t,
    {
        out.push(p[t]);
        assert(out@ =~= p@.subrange(from as int, t + 1));
        t += 1;
    }
    out
}

impl RedirectRecognizer {
    /// A recognizer for the callback at `callback` whose artifact is the
    /// parameter `parameter`.
    pub fn new(callback: Vec<u8>, parameter: Vec<u8>) -> (r: RedirectRecognizer)
        ensures
            r.callback == callback,
            r.parameter == parameter,
    {
        RedirectRecognizer { callback, parameter }
    }

    /// The artifact that a navigation carries under a binding: none unless
    /// the address is at the callback; then the artifact among the address's
    /// parameters (redirect binding) or among the pairs of the body (post
    /// binding).
    pub open spec fn artifact_of(self, binding: SamlBinding, nav: Navigation) -> Option<Seq<u8>> {
        if !at_callback(nav.url@, self.callback@) {
            None
        } else {
            artifact_in(self.pairs_of(binding, nav), self.parameter@)
        }
    }

    /// Where a binding carries its pairs: behind the callback in the
    /// address, or in the body.
    pub open spec fn pairs_of(self, binding: SamlBinding, nav: Navigation) -> Seq<u8> {
        match binding {
            SamlBinding::Redirect => url_parameters(nav.url@, self.callback@),
            SamlBinding::Post => nav.body@,
        }
    }

    /// Whether the address is the expected callback, with or without
    /// parameters.
    pub fn matches_callback(&self, url: &[u8]) -> (r: bool)
        ensures
            r == at_callback(url@, self.callback@),
    {
        let c: usize = self.callback.len();
        if c > url.len() {
            return false;
        }
        if !holds_at(url, self.callback.as_slice(), 0) {
            return false;
        }
        url.len() == c || url[c] == 0x3f || url[c] == 0x23
    }

    /// Decides whether a navigation is the terminal one, and hands out its
    /// artifact. Anything else, malformed or ambiguous candidates included,
    /// is not terminal.
    pub fn is_terminal(&self, binding: SamlBinding, nav: &Navigation) -> (r: Option<AuthArtifact>)
        ensures
            match r {
                Some(a) => self.artifact_of(binding, *nav) == Some(a.value@),
                None => self.artifact_of(binding, *nav) is None,
            },
    {
        if !self.matches_callback(nav.url.as_slice()) {
            return None;
        }
        let found: Option<Vec<u8>> = match binding {
            SamlBinding::Redirect => {
                let c: usize = self.callback.len();
                if c < nav.url.len() {
                    let rest: Vec<u8> = tail(nav.url.as_slice(), c + 1);
                    extract(rest.as_slice(), self.parameter.as_slice())
                } else {
                    let rest: Vec<u8> = Vec::new();
                    assert(rest@ =~= Seq::<u8>::empty());
                    extract(rest.as_slice(), self.parameter.as_slice())
                }
            },
            SamlBinding::Post => extract(nav.body.as_slice(), self.parameter.as_slice()),
        };
        match found {
            Some(value) => Some(AuthArtifact { value }),
            None => None,
        }
    }
}

/// A navigation away from the callback is never terminal, under either
/// binding. Where an artifact is recognised, the address is at the callback,
/// exactly one pair carries the parameter's name, the artifact is that
/// pair's value, and it is well formed.
pub proof fn lemma_terminal_only_at_callback(
    rec: RedirectRecognizer,
    binding: SamlBinding,
    nav: Navigation,
)
    ensures
        !at_callback(nav.url@, rec.callback@) ==> rec.artifact_of(binding, nav) is None,
        rec.artifact_of(binding, nav) is Some ==> at_callback(nav.url@, rec.callback@),
        rec.artifact_of(binding, nav) is Some ==> well_formed(
            rec.artifact_of(binding, nav)->Some_0,
        ),
        rec.artifact_of(binding, nav) is Some ==> exists|i: int| #[trigger]
            sole_pair(rec.pairs_of(binding, nav), rec.parameter@, i) && rec.artifact_of(
                binding,
                nav,
            ) == Some(value_at(rec.pairs_of(binding, nav), rec.parameter@, i)),
{
    let p = rec.pairs_of(binding, nav);
    if rec.artifact_of(binding, nav) is Some {
        let i = choose|i: int| sole_pair(p, rec.parameter@, i);
        assert(sole_pair(p, rec.parameter@, i));
        assert(rec.artifact_of(binding, nav) == Some(value_at(p, rec.parameter@, i)));
    }
}

} // verus!
