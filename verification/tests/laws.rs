use arcstr::header::LenFlags;
use arcstr::header::MAX_RECORD_LEN;
use arcstr::protocol::clone_share;
use arcstr::protocol::drop_share;
use arcstr::protocol::new_dynamic;
use arcstr::protocol::DropEffect;
use arcstr::protocol::RecordState;
use arcstr::protocol::MAX_SHARES;
use arcstr::ArcStr;
use arcstr::StaticArcStrInner;
use std::hash::Hash;
use std::hash::Hasher;

/// A content-hashed key around a handle: handles themselves carry no `Hash`,
/// since a hash must agree with their content equality, so a key hashes what
/// `as_str` returns.
#[derive(PartialEq, Eq, Debug)]
struct ContentHashKey(ArcStr);

impl Hash for ContentHashKey {
    fn hash<H: Hasher>(&self, state: &mut H) {
        self.0.as_str().hash(state)
    }
}

fn hash_of(a: &ContentHashKey) -> u64 {
    let mut h = std::collections::hash_map::DefaultHasher::new();
    a.hash(&mut h);
    h.finish()
}

#[test]
fn header_pack_and_decode() {
    let lf = LenFlags::from_len_static(3, false).unwrap();
    assert_eq!(lf.0, 7);
    assert_eq!(lf.len(), 3);
    assert!(!lf.is_static());

    let lf = LenFlags::from_len_static(3, true).unwrap();
    assert_eq!(lf.0, 6);
    assert_eq!(lf.len(), 3);
    assert!(lf.is_static());

    let lf = LenFlags::from_len_static_raw(0, true);
    assert_eq!(lf.0, 0);
    assert_eq!(lf.len(), 0);
    assert!(lf.is_static());

    assert!(LenFlags::from_len_static(MAX_RECORD_LEN, false).is_some());
    assert!(LenFlags::from_len_static(MAX_RECORD_LEN, true).is_some());
    assert!(LenFlags::from_len_static(MAX_RECORD_LEN + 1, false).is_none());
    assert!(LenFlags::from_len_static(usize::MAX, true).is_none());
}

#[test]
fn protocol_share_accounting() {
    // construct, clone, drop the clone, drop the original: freed exactly once
    let s0 = new_dynamic();
    assert_eq!(s0, RecordState::Live { shares: 1 });

    let s1 = clone_share(s0).unwrap();
    assert_eq!(s1, RecordState::Live { shares: 2 });

    let (s2, e2) = drop_share(s1);
    assert_eq!(s2, RecordState::Live { shares: 1 });
    assert_eq!(e2, DropEffect::Kept);

    let (s3, e3) = drop_share(s2);
    assert_eq!(s3, RecordState::Destroyed);
    assert_eq!(e3, DropEffect::Freed);
}

#[test]
fn protocol_static_untouched() {
    assert_eq!(clone_share(RecordState::Static), Some(RecordState::Static));
    assert_eq!(
        drop_share(RecordState::Static),
        (RecordState::Static, DropEffect::Kept)
    );
}

#[test]
fn protocol_overflow_guard() {
    assert_eq!(clone_share(RecordState::Live { shares: MAX_SHARES }), None);
    assert_eq!(
        clone_share(RecordState::Live {
            shares: MAX_SHARES - 1
        }),
        Some(RecordState::Live { shares: MAX_SHARES })
    );
}

#[test]
fn round_trip_content() {
    assert_eq!(ArcStr::from("").as_str(), "");
    assert_eq!(ArcStr::from("foobar").as_str(), "foobar");
    assert_eq!(ArcStr::from("🏳️‍🌈 flag").as_str(), "🏳️‍🌈 flag");
    assert_eq!(ArcStr::from(String::from("owned")).as_str(), "owned");
    let s = String::from("borrowed owned");
    assert_eq!(ArcStr::from(&s).as_str(), "borrowed owned");
    assert_eq!(ArcStr::from("round").to_string(), "round");
}

#[test]
fn byte_views_exact() {
    assert_eq!(ArcStr::from("foobar").as_bytes(), b"foobar");
    assert_eq!(ArcStr::from("foobar").len(), 6);
    // a two-byte UTF-8 scalar: the header stores the byte length
    assert_eq!(ArcStr::from("é").len(), 2);
    assert!(!ArcStr::from("é").is_empty());
    assert!(ArcStr::from("").is_empty());
    assert_eq!(ArcStr::new().len(), 0);
}

#[test]
fn canonical_empty_record() {
    // every empty construction yields the identity-equal canonical record
    let from_str_empty = ArcStr::from("");
    let from_string_empty = ArcStr::from(String::new());
    let from_ref_string_empty = ArcStr::from(&String::new());
    let new_empty = ArcStr::new();
    let default_empty = ArcStr::default();
    assert!(ArcStr::ptr_eq(&from_str_empty, &new_empty));
    assert!(ArcStr::ptr_eq(&from_string_empty, &new_empty));
    assert!(ArcStr::ptr_eq(&from_ref_string_empty, &new_empty));
    assert!(ArcStr::ptr_eq(&default_empty, &new_empty));
    // the canonical record is static: no count, no allocation to free
    assert!(ArcStr::is_static(&new_empty));
    assert_eq!(ArcStr::strong_count(&from_str_empty), None);
}

#[test]
fn scenario_share_counts() {
    let original = ArcStr::from("foobar");
    assert_eq!(ArcStr::strong_count(&original), Some(1));
    let the_clone = original.clone();
    assert_eq!(ArcStr::strong_count(&original), Some(2));
    drop(the_clone);
    assert_eq!(ArcStr::strong_count(&original), Some(1));
    drop(original);
    // no live handle remains, so no share-count query is possible
}

#[test]
fn scenario_lexicographic_order() {
    let a = ArcStr::from("123");
    let b = ArcStr::from("124");
    assert!(a < b);
    assert_eq!(a.partial_cmp(&b), Some(std::cmp::Ordering::Less));
    assert_eq!(b.partial_cmp(&a), Some(std::cmp::Ordering::Greater));
    assert_eq!(a.partial_cmp(&a.clone()), Some(std::cmp::Ordering::Equal));
    // matching the byte-wise order of the plain string types
    assert_eq!(
        a.partial_cmp(&b),
        "123".partial_cmp("124")
    );
}

#[test]
fn identity_vs_content_equality() {
    let a = ArcStr::from("content");
    let a2 = a.clone();
    assert!(ArcStr::ptr_eq(&a, &a2));

    let b = ArcStr::from("content");
    assert!(!ArcStr::ptr_eq(&a, &b));
    assert!(a == b);
    assert_eq!(hash_of(&ContentHashKey(a.clone())), hash_of(&ContentHashKey(b.clone())));

    // a static and a dynamic handle of equal content are equal and, keyed by
    // content, hash identically too
    let s = ArcStr::new_static(StaticArcStrInner::new("content"));
    assert!(s == a);
    assert_eq!(
        hash_of(&ContentHashKey(s.clone())),
        hash_of(&ContentHashKey(a.clone()))
    );

    // construction from a borrowed handle is a clone of the same record
    let d = ArcStr::from(&a);
    assert!(ArcStr::ptr_eq(&d, &a));

    let c = ArcStr::from("different");
    assert!(a != c);
}

#[test]
fn static_invariance() {
    let s = ArcStr::new_static(StaticArcStrInner::new("Electricity!"));
    assert!(ArcStr::is_static(&s));
    assert_eq!(ArcStr::strong_count(&s), None);
    assert_eq!(ArcStr::as_static(&s), Some("Electricity!"));

    let c1 = s.clone();
    let c2 = c1.clone();
    assert!(ArcStr::is_static(&c2));
    assert_eq!(ArcStr::strong_count(&c1), None);
    assert_eq!(ArcStr::strong_count(&c2), None);
    drop(c1);
    assert_eq!(ArcStr::strong_count(&c2), None);
    assert_eq!(c2.as_str(), "Electricity!");

    let dynamic = ArcStr::from("Grounded...");
    assert!(!ArcStr::is_static(&dynamic));
    assert_eq!(ArcStr::as_static(&dynamic), None);
}

#[test]
fn raw_export_import_is_one_share() {
    let a = ArcStr::from("raw share");
    let keeper = a.clone();
    assert_eq!(ArcStr::strong_count(&keeper), Some(2));
    let raw = ArcStr::into_raw(a);
    // the exported share still holds the record
    assert_eq!(ArcStr::strong_count(&keeper), Some(2));
    let back = ArcStr::from_raw(raw);
    assert_eq!(ArcStr::strong_count(&keeper), Some(2));
    assert_eq!(back.as_str(), "raw share");
    assert!(ArcStr::ptr_eq(&keeper, &back));
    drop(back);
    assert_eq!(ArcStr::strong_count(&keeper), Some(1));
}

#[test]
fn static_record_shape() {
    let rec = StaticArcStrInner::new("abc");
    // packed header: length shifted up once, low discriminant bit zero
    assert_eq!(rec.len_flags, 6);
    assert_eq!(rec.count, 0);
    assert_eq!(rec.data, "abc");
    let h = ArcStr::new_static(rec);
    assert_eq!(h.as_str(), "abc");
    assert_eq!(h.len(), 3);
}

#[test]
fn index_range_multibyte() {
    // "héllo": h=1 byte, é=2 bytes, so boundaries sit at 0, 1, 3, 4, 5, 6
    let a = ArcStr::from("héllo");
    assert_eq!(a.len(), 6);
    assert_eq!(a.index_range(0, 1), "h");
    assert_eq!(a.index_range(1, 3), "é");
    assert_eq!(a.index_range(3, 6), "llo");
    assert_eq!(a.index_range(0, a.len()), "héllo");
    assert_eq!(a.index_range(3, 3), "");
}
