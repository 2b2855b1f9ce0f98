use scoped_store::FailStore;
use scoped_store::MemStore;
use scoped_store::Store;

#[test]
fn round_trip_set_then_get() {
    let mut s = MemStore::new();
    s.set("k", "v").unwrap();
    assert_eq!(s.get("k").unwrap(), Some(String::from("v")));
}

#[test]
fn get_never_set_returns_none() {
    let s = MemStore::new();
    assert_eq!(s.get("k").unwrap(), None);
}

#[test]
fn later_set_wins() {
    let mut s = MemStore::new();
    s.set("k", "first").unwrap();
    s.set("k", "second").unwrap();
    assert_eq!(s.get("k").unwrap(), Some(String::from("second")));
}

#[test]
fn empty_key_and_empty_value() {
    let mut s = MemStore::new();
    s.set("", "").unwrap();
    assert_eq!(s.get("").unwrap(), Some(String::from("")));
    assert_eq!(s.get("k").unwrap(), None);
}

#[test]
fn scoped_set_reaches_prefixed_key() {
    let r = MemStore::new();
    let mut u = r.scoped("user:42:");
    u.set("name", "Ada").unwrap();
    let r = u.into_inner();
    assert_eq!(r.get("user:42:name").unwrap(), Some(String::from("Ada")));
}

#[test]
fn scoped_get_reads_prefixed_key() {
    let mut r = MemStore::new();
    r.set("user:42:name", "Ada").unwrap();
    let u = r.scoped("user:42:");
    assert_eq!(u.get("name").unwrap(), Some(String::from("Ada")));
    assert_eq!(u.get("user:42:name").unwrap(), None);
}

#[test]
fn nested_scopes_compose_prefixes_in_construction_order() {
    let r = MemStore::new();
    let mut t = r.scoped("p1:").scoped("p2:");
    t.set("k", "x").unwrap();
    assert_eq!(t.get("k").unwrap(), Some(String::from("x")));
    let r = t.into_inner().into_inner();
    assert_eq!(r.get("p1:p2:k").unwrap(), Some(String::from("x")));
    assert_eq!(r.get("p2:p1:k").unwrap(), None);
}

#[test]
fn empty_prefix_behaves_like_the_store_itself() {
    let mut plain = MemStore::new();
    let mut scoped = MemStore::new().scoped("");
    for (k, v) in [("a", "1"), ("b", "2"), ("a", "3")] {
        plain.set(k, v).unwrap();
        scoped.set(k, v).unwrap();
    }
    for k in ["a", "b", "c"] {
        assert_eq!(plain.get(k).unwrap(), scoped.get(k).unwrap());
    }
}

#[test]
fn errors_pass_through_unchanged() {
    let direct = FailStore::new(7);
    let direct_err = direct.get("k").unwrap_err();
    let mut wrapped = FailStore::new(7).scoped("prefix:");
    assert_eq!(wrapped.get("k").unwrap_err(), direct_err);
    assert_eq!(wrapped.set("k", "v").unwrap_err(), direct_err);
}

#[test]
fn scoping_alone_never_touches_the_backend() {
    // Every call on the backend fails, so any operation issued while deriving
    // scopes would surface as an error; constructing nested scopes alone
    // cannot fail, and the first real call is the first thing that does.
    let f = FailStore::new(1);
    let t = f.scoped("a:").scoped("b:").scoped("c:").scoped("d:");
    assert_eq!(t.prefix(), "d:");
    assert_eq!(t.get("k").unwrap_err(), 1);
}

#[test]
fn no_delimiter_means_prefixes_can_collide() {
    // Concatenation without a delimiter: "user1" + "2name" and
    // "user12" + "name" meet at the same effective key.
    let r = MemStore::new();
    let mut u1 = r.scoped("user1");
    u1.set("2name", "Grace").unwrap();
    let u12 = u1.into_inner().scoped("user12");
    assert_eq!(u12.get("name").unwrap(), Some(String::from("Grace")));
}

#[test]
fn accessors_expose_prefix_and_inner_store() {
    let mut r = MemStore::new();
    r.set("p:k", "v").unwrap();
    let u = r.scoped("p:");
    assert_eq!(u.prefix(), "p:");
    assert_eq!(u.inner().get("p:k").unwrap(), Some(String::from("v")));
    assert_eq!(u.get("k").unwrap(), Some(String::from("v")));
}
