//! The store contract and the prefix-scoping decorator.

use vstd::prelude::*;
use vstd::string::StringExecFns;

verus! {

/// The view of a map `m` as seen through a prefix `p`: looking up a key `k`
/// in the scoped view reads the effective key `p + k` in `m`.
pub open spec fn scoped_view(
    m: Map<Seq<char>, Seq<char>>,
    p: Seq<char>,
) -> Map<Seq<char>, Seq<char>> {
    Map::new(|k: Seq<char>| m.contains_key(p + k), |k: Seq<char>| m[p + k])
}

/// The key-value capability contract.
///
/// A store gives access to textual values under textual keys. Its observable
/// behaviour is captured by two views: [`Store::contents`], the key-value
/// pairs reachable through it, and [`Store::possible_error`], the
/// backend-defined errors it may surface. Errors are opaque to this layer:
/// they are neither classified nor retried, only passed through.
///
/// `scoped` derives a namespaced view of any store; it is pure value
/// construction and performs no store operation.
pub trait Store: Sized {
    /// The backend-defined error type.
    type Error;

    /// The key-value pairs reachable through this store. The default view is
    /// empty; a backend adapted for verified callers overrides it.
    open spec fn contents(&self) -> Map<Seq<char>, Seq<char>> {
        Map::empty()
    }

    /// Which errors this store may surface. Backend-defined; the default —
    /// any error at all — says nothing, and a backend that promises more
    /// overrides it.
    open spec fn possible_error(&self, e: Self::Error) -> bool {
        true
    }

    /// Gets the value of the given key, if any.
    fn get(&self, key: &str) -> (r: Result<Option<String>, Self::Error>)
        ensures
            (r matches Ok(Some(v)) ==> self.contents().contains_key(key@)
                && self.contents()[key@] == v@),
            (r matches Ok(None) ==> !self.contents().contains_key(key@)),
            (r matches Err(e) ==> self.possible_error(e)),
    ;

    /// Sets the given key to the given value.
    fn set(&mut self, key: &str, value: &str) -> (r: Result<(), Self::Error>)
        ensures
            (r matches Ok(u) ==> final (self).contents() == old(self).contents().insert(
                key@,
                value@,
            )),
            (r matches Err(e) ==> old(self).possible_error(e)),
            forall|e: Self::Error|
                final (self).possible_error(e) == old(self).possible_error(e),
    ;

    /// Creates a new store that prepends the given prefix to all key names.
    ///
    /// The result wraps this very store — never the store this one may wrap —
    /// so nested scopes compose their prefixes in construction order.
    fn scoped(self, prefix: &str) -> (r: ScopedStore<Self>)
        ensures
            r.spec_inner() == self,
            r.spec_prefix() == prefix@,
    {
        ScopedStore::new(self, prefix)
    }
}

/// A decorator that implements [`Store`] by prepending a fixed prefix to
/// every key before delegating to an inner store.
///
/// The prefix is fixed at construction and never mutated; the effective key
/// is plain concatenation, with no delimiter and no escaping. Results and
/// errors of the inner store are returned verbatim.
pub struct ScopedStore<S> {
    inner: S,
    prefix: String,
}

impl<S> ScopedStore<S> {
    /// The wrapped store.
    pub closed spec fn spec_inner(&self) -> S {
        self.inner
    }

    /// The prefix prepended to every key.
    pub closed spec fn spec_prefix(&self) -> Seq<char> {
        self.prefix@
    }

    /// Wraps `inner`, prepending `prefix` to every key. Pure construction:
    /// no store operation is performed, and `inner` is held unchanged.
    pub fn new(inner: S, prefix: &str) -> (r: Self)
        ensures
            r.spec_inner() == inner,
            r.spec_prefix() == prefix@,
    {
        ScopedStore { inner, prefix: prefix.to_owned() }
    }

    /// A reference to the wrapped store.
    pub fn inner(&self) -> (r: &S)
        ensures
            *r == self.spec_inner(),
    {
        &self.inner
    }

    /// Consumes the scope and returns the wrapped store.
    pub fn into_inner(self) -> (r: S)
        ensures
            r == self.spec_inner(),
    {
        self.inner
    }

    /// The prefix this scope prepends to every key.
    pub fn prefix(&self) -> (r: &str)
        ensures
            r@ == self.spec_prefix(),
    {
        self.prefix.as_str()
    }
}

/// Prepending a common prefix keeps distinct keys distinct: the effective
/// keys of two calls through one scope collide only if the callers' keys do.
pub proof fn lemma_prefix_injective(p: Seq<char>, a: Seq<char>, b: Seq<char>)
    requires
        p + a == p + b,
    ensures
        a == b,
{
    assert((p + a).len() == p.len() + a.len());
    assert((p + b).len() == p.len() + b.len());
    assert forall|i: int| 0 <= i < a.len() implies a[i] == b[i] by {
        assert((p + a)[p.len() + i] == a[i]);
        assert((p + b)[p.len() + i] == b[i]);
    }
    assert(a =~= b);
}

/// Inserting at the effective key `p + k` is, through the scope `p`, an
/// insertion at `k`: this is what a successful `set` through a scope does to
/// the scoped view.
pub proof fn lemma_scoped_view_insert(
    m: Map<Seq<char>, Seq<char>>,
    p: Seq<char>,
    k: Seq<char>,
    v: Seq<char>,
)
    ensures
        scoped_view(m.insert(p + k, v), p) == scoped_view(m, p).insert(k, v),
{
    let lhs = scoped_view(m.insert(p + k, v), p);
    let rhs = scoped_view(m, p).insert(k, v);
    assert forall|k2: Seq<char>| lhs.contains_key(k2) == rhs.contains_key(k2) by {
        if p + k2 == p + k {
            lemma_prefix_injective(p, k2, k);
        }
    }
    assert forall|k2: Seq<char>| lhs.contains_key(k2) implies lhs[k2] == rhs[k2] by {
        if p + k2 == p + k {
            lemma_prefix_injective(p, k2, k);
        }
    }
    assert(lhs =~= rhs);
}

/// Prefix composition: scoping by `p1` and then by `p2` is one scope by
/// `p1 + p2` — looking up `k` through both scopes reads the effective key
/// `p1 + p2 + k`, concatenated in construction order with no delimiter.
pub proof fn lemma_scoped_view_compose(
    m: Map<Seq<char>, Seq<char>>,
    p1: Seq<char>,
    p2: Seq<char>,
)
    ensures
        scoped_view(scoped_view(m, p1), p2) == scoped_view(m, p1 + p2),
{
    let lhs = scoped_view(scoped_view(m, p1), p2);
    let rhs = scoped_view(m, p1 + p2);
    assert forall|k: Seq<char>| lhs.contains_key(k) == rhs.contains_key(k) by {
        assert(p1 + (p2 + k) =~= (p1 + p2) + k);
    }
    assert forall|k: Seq<char>| lhs.contains_key(k) implies lhs[k] == rhs[k] by {
        assert(p1 + (p2 + k) =~= (p1 + p2) + k);
    }
    assert(lhs =~= rhs);
}

/// The empty prefix is an identity: a store scoped by `""` shows the very
/// contents, and surfaces the very errors, of the store it wraps.
pub proof fn lemma_empty_prefix_identity<S: Store>(t: ScopedStore<S>)
    requires
        t.spec_prefix() == Seq::<char>::empty(),
    ensures
        t.contents() == t.spec_inner().contents(),
        forall|e: S::Error| t.possible_error(e) == t.spec_inner().possible_error(e),
{
    let m = t.spec_inner().contents();
    assert forall|k: Seq<char>|
        t.contents().contains_key(k) == m.contains_key(k) && (t.contents().contains_key(k)
            ==> t.contents()[k] == m[k]) by {
        assert(t.spec_prefix() + k =~= k);
    }
    assert(t.contents() =~= m);
}

/// Error transparency: a scoped store surfaces exactly the errors of the
/// store it wraps, whatever its prefix — delegation passes them through
/// unchanged.
pub proof fn lemma_error_transparency<S: Store>(t: ScopedStore<S>, e: S::Error)
    ensures
        t.possible_error(e) == t.spec_inner().possible_error(e),
{
}

/// Prefix composition on stores: a doubly scoped store reads a key `k` where
/// the root store reads `p1 + p2 + k`, `p1` the prefix of the first scope
/// and `p2` that of the second.
pub proof fn lemma_prefix_composition<S: Store>(t: ScopedStore<ScopedStore<S>>, k: Seq<char>)
    ensures
        t.contents().contains_key(k) == t.spec_inner().spec_inner().contents().contains_key(
            t.spec_inner().spec_prefix() + t.spec_prefix() + k,
        ),
        t.contents().contains_key(k) ==> t.contents()[k]
            == t.spec_inner().spec_inner().contents()[t.spec_inner().spec_prefix()
            + t.spec_prefix() + k],
{
    let p1 = t.spec_inner().spec_prefix();
    let p2 = t.spec_prefix();
    assert(p1 + (p2 + k) =~= (p1 + p2) + k);
}

/// Round trip: a successful `set` of `k` to `v` makes the contents
/// `insert(k, v)`, in which `get` of `k` — which reads the contents — finds
/// `v`; and in a store whose contents are empty, no key is found at all.
pub proof fn lemma_round_trip(m: Map<Seq<char>, Seq<char>>, k: Seq<char>, v: Seq<char>)
    ensures
        m.insert(k, v).contains_key(k),
        m.insert(k, v)[k] == v,
        !Map::<Seq<char>, Seq<char>>::empty().contains_key(k),
{
}

impl<S: Store> Store for ScopedStore<S> {
    type Error = S::Error;

    /// The scoped view of the inner contents: key `k` here is the effective
    /// key `prefix + k` there.
    open spec fn contents(&self) -> Map<Seq<char>, Seq<char>> {
        scoped_view(self.spec_inner().contents(), self.spec_prefix())
    }

    /// Exactly the errors of the wrapped store.
    open spec fn possible_error(&self, e: S::Error) -> bool {
        self.spec_inner().possible_error(e)
    }

    fn get(&self, key: &str) -> (r: Result<Option<String>, S::Error>) {
        let effective = self.prefix.clone().concat(key);
        self.inner.get(effective.as_str())
    }

    fn set(&mut self, key: &str, value: &str) -> (r: Result<(), S::Error>)
        ensures
            final (self).spec_prefix() == old(self).spec_prefix(),
            (r matches Ok(u) ==> final (self).spec_inner().contents() == old(
                self,
            ).spec_inner().contents().insert(old(self).spec_prefix() + key@, value@)),
    {
        let effective = self.prefix.clone().concat(key);
        let r = self.inner.set(effective.as_str(), value);
        proof {
            if r is Ok {
                lemma_scoped_view_insert(
                    old(self).spec_inner().contents(),
                    old(self).spec_prefix(),
                    key@,
                    value@,
                );
            }
        }
        r
    }
}

} // verus!
