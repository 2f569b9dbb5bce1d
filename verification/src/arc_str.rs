//! The record types and the public string handle.
//!
//! An [`ArcStr`] is a handle on one immutable text record. A *dynamic*
//! record is heap-allocated and shared through an atomic reference count; a
//! *static* record is embedded in the program, carries no count, and lives
//! forever. Both start with the packed header word of [`crate::header`], so
//! a handle reads the length and the discriminant the same way for either
//! representation, before anything representation-specific is touched.
//!
//! The count of a dynamic record follows the state machine proved in
//! [`crate::protocol`]: cloning takes one more share, dropping releases one,
//! and the record is freed exactly once, on the drop that releases the last
//! share. The atomic cell that carries those transitions out at run time —
//! with its relaxed increment, release decrement and acquire step before the
//! free — is the standard shared-ownership allocation, relied upon through
//! the trusted items below; dropping a handle drops that share with it.

use crate::header::LenFlags;
use crate::header::MAX_RECORD_LEN;
use std::sync::Arc;
use vstd::prelude::*;
use vstd::utf8::encode_utf8;

verus! {

/// The payload of every record stays valid UTF-8, so a byte encoding is
/// empty exactly when the text it encodes is empty.
pub proof fn lemma_encode_len_zero(s: Seq<char>)
    ensures
        (encode_utf8(s).len() == 0) <==> (s.len() == 0),
{
    if s.len() > 0 {
        assert(encode_utf8(s) == vstd::utf8::encode_scalar(s[0] as u32) + encode_utf8(
            s.drop_first(),
        ));
        assert(vstd::utf8::encode_scalar(s[0] as u32).len() >= 1);
    }
}

/// UTF-8 encoding is injective: two texts have the same bytes exactly when
/// they are the same text.
pub proof fn lemma_encode_injective(a: Seq<char>, b: Seq<char>)
    ensures
        (encode_utf8(a) == encode_utf8(b)) <==> (a == b),
{
    if encode_utf8(a) == encode_utf8(b) {
        vstd::utf8::encode_utf8_decode_utf8(a);
        vstd::utf8::encode_utf8_decode_utf8(b);
    }
}

/// A heap-allocated record: the packed header word followed by the payload.
///
/// The share count that sits between them in the physical record is carried
/// by the surrounding shared-ownership allocation (see the trusted items
/// below); its transitions are specified in [`crate::protocol`].
#[derive(Debug)]
struct ThinInner {
    len_flags: LenFlags,
    data: String,
}

impl ThinInner {
    /// A dynamic record's header is marked dynamic, states the exact byte
    /// length of the payload, and the payload is never empty (the canonical
    /// empty record is static).
    #[verifier::type_invariant]
    spec fn wf(self) -> bool {
        &&& !self.len_flags.spec_is_static()
        &&& self.len_flags.spec_len() == encode_utf8(self.data@).len()
        &&& self.data@.len() >= 1
    }

    /// Allocate a fresh dynamic record holding a copy of `data`.
    fn allocate(data: &str) -> (r: Arc<ThinInner>)
        requires
            data@.len() >= 1,
            encode_utf8(data@).len() <= MAX_RECORD_LEN,
        ensures
            (*r).data@ == data@,
    {
        let bytes = data.as_bytes();
        let n = bytes.len();
        match LenFlags::from_len_static(n, false) {
            Some(lf) => Arc::new(ThinInner { len_flags: lf, data: data.to_owned() }),
            None => vstd::pervasive::unreached(),
        }
    }
}

/// The two physical representations behind one handle type.
#[derive(Debug)]
enum Repr {
    /// A static record: immortal, count-less, payload embedded for the
    /// program's lifetime.
    Static { len_flags: LenFlags, data: &'static str },
    /// A dynamic record, shared through an atomic reference count.
    Dynamic { inner: Arc<ThinInner> },
}

/// One share of ownership over an immutable text record.
///
/// Equality and ordering go by content; [`ArcStr::ptr_eq`] goes by record
/// identity. Two handles of one record are always equal, and equality
/// short-circuits through identity before comparing any bytes.
///
/// The type carries no `Hash` impl: hashing must agree with `==`, so it has
/// to go by content, and a derived hash would feed the representation — the
/// static/dynamic discriminant among it — to the hasher, splitting
/// equal-content handles. A hand-written hasher cannot be verified here, so
/// callers that need a hash key hash [`ArcStr::as_str`] instead.
#[derive(Debug)]
pub struct ArcStr {
    repr: Repr,
}

impl ArcStr {
    /// A static handle's header is marked static and states the exact byte
    /// length of the payload. (A dynamic record's header is governed by its
    /// own invariant.)
    #[verifier::type_invariant]
    spec fn inv(self) -> bool {
        match self.repr {
            Repr::Static { len_flags, data } => {
                &&& len_flags.spec_is_static()
                &&& len_flags.spec_len() == encode_utf8(data@).len()
            },
            Repr::Dynamic { .. } => true,
        }
    }

    /// Whether this handle references a static record.
    pub closed spec fn spec_is_static(&self) -> bool {
        self.repr matches Repr::Static { .. }
    }
}

impl View for ArcStr {
    type V = Seq<char>;

    /// A handle is modelled by its text content.
    closed spec fn view(&self) -> Seq<char> {
        match self.repr {
            Repr::Static { data, .. } => data@,
            Repr::Dynamic { inner } => (*inner).data@,
        }
    }
}

impl ArcStr {
    /// Construct the canonical empty handle: a static record, no allocation.
    pub fn new() -> (r: Self)
        ensures
            r@ == Seq::<char>::empty(),
            r.spec_is_static(),
    {
        let data: &'static str = "";
        proof {
            reveal_strlit("");
            assert(data@ =~= Seq::<char>::empty());
            lemma_encode_len_zero(data@);
        }
        let lf = LenFlags::from_len_static_raw(0, true);
        ArcStr { repr: Repr::Static { len_flags: lf, data } }
    }

    /// The handle's text, borrowed.
    pub fn as_str(&self) -> (r: &str)
        ensures
            r@ == self@,
    {
        match &self.repr {
            Repr::Static { data, .. } => *data,
            Repr::Dynamic { inner } => {
                let t: &ThinInner = &**inner;
                t.data.as_str()
            },
        }
    }

    /// The byte length of the handle's text, read from the header word.
    pub fn len(&self) -> (r: usize)
        ensures
            r == encode_utf8(self@).len(),
    {
        proof {
            use_type_invariant(self);
        }
        match &self.repr {
            Repr::Static { len_flags, .. } => len_flags.len(),
            Repr::Dynamic { inner } => {
                let t: &ThinInner = &**inner;
                proof {
                    use_type_invariant(t);
                }
                t.len_flags.len()
            },
        }
    }

    /// Whether the handle's text is empty.
    pub fn is_empty(&self) -> (r: bool)
        ensures
            r == (self@.len() == 0),
    {
        proof {
            lemma_encode_len_zero(self@);
        }
        self.len() == 0
    }

    /// The handle's text, copied into an owned string.
    pub fn to_string(&self) -> (r: String)
        ensures
            r@ == self@,
    {
        self.as_str().to_owned()
    }

    /// The bytes of the handle's text.
    pub fn as_bytes(&self) -> (r: &[u8])
        ensures
            r@ == encode_utf8(self@),
    {
        self.as_str().as_bytes()
    }

    /// The text between two byte positions, which must lie on character
    /// boundaries within the payload: the usual text-slicing discipline, with
    /// an offending range excluded up front instead of faulting.
    pub fn index_range(&self, begin: usize, end: usize) -> (r: &str)
        requires
            begin <= end <= encode_utf8(self@).len(),
            vstd::utf8::is_char_boundary(encode_utf8(self@), begin as int),
            vstd::utf8::is_char_boundary(encode_utf8(self@), end as int),
        ensures
            encode_utf8(r@) == encode_utf8(self@).subrange(begin as int, end as int),
    {
        let ghost bts = encode_utf8(self@);
        let s = self.as_str();
        proof {
            vstd::utf8::encode_utf8_valid_utf8(self@);
            vstd::utf8::valid_utf8_split(bts, begin as int);
        }
        let (_, tail) = s.split_at(begin);
        let ghost tb = bts.subrange(begin as int, bts.len() as int);
        let rest = end - begin;
        proof {
            assert(encode_utf8(tail@) == tb);
            if rest == 0 {
                assert(vstd::utf8::is_char_boundary(tb, 0));
            } else if end == bts.len() {
                vstd::utf8::is_char_boundary_start_end_of_seq(tb);
            } else {
                vstd::utf8::is_char_boundary_iff_not_is_continuation_byte(bts, end as int);
                assert(tb[rest as int] == bts[end as int]);
                vstd::utf8::is_char_boundary_iff_not_is_continuation_byte(tb, rest as int);
            }
        }
        let (mid, _) = tail.split_at(rest);
        proof {
            assert(tb.subrange(0, rest as int) =~= bts.subrange(begin as int, end as int));
        }
        mid
    }
}

/// What a construction stores: the given text when its byte encoding fits
/// the packed header word, and the canonical empty text otherwise. The
/// second case never yields a value at run time: construction aborts the
/// process first (see [`alloc_overflow`]), as an over-long payload is a
/// fatal fault, never a recoverable error.
pub open spec fn stored_view(s: Seq<char>) -> Seq<char> {
    if encode_utf8(s).len() <= MAX_RECORD_LEN {
        s
    } else {
        Seq::empty()
    }
}

/// The fatal exit. Relies on `std::alloc::handle_alloc_error`, the
/// allocator's abort hook: it terminates the process and never returns, so
/// whatever a caller does after this call only satisfies the type checker.
#[verifier::external_body]
pub fn abort() {
    std::alloc::handle_alloc_error(std::alloc::Layout::new::<usize>())
}

/// The fatal overflow path: a payload whose byte length cannot be packed
/// into the header word cannot be represented, and since sharing is promised
/// never to fail, the process terminates instead of reporting an error.
pub fn alloc_overflow() {
    abort();
}

/// Relies on `std::sync::Arc::strong_count`: the number of live shares of
/// the allocation; the share held through `inner` is among them, so it is at
/// least one. Another thread may change the count at any moment, so nothing
/// more is stated.
#[verifier::external_body]
fn arc_strong_count(inner: &Arc<ThinInner>) -> (r: usize)
    ensures
        r >= 1,
{
    Arc::strong_count(inner)
}

/// Relies on `std::sync::Arc::ptr_eq`: true only when both shares reference
/// the same allocation, and one immutable allocation holds one record value.
#[verifier::external_body]
fn arc_record_eq(a: &Arc<ThinInner>, b: &Arc<ThinInner>) -> (r: bool)
    ensures
        r ==> *a == *b,
{
    Arc::ptr_eq(a, b)
}

/// Relies on `core::ptr::eq`: true only when both slices start at the same
/// address with the same length, and one immutable slice holds one text.
#[verifier::external_body]
fn static_record_eq(a: &'static str, b: &'static str) -> (r: bool)
    ensures
        r ==> a@ == b@,
{
    core::ptr::eq(a, b)
}

impl ArcStr {
    /// The number of live shares of this handle's record, or `None` for a
    /// static record, whose count field is never read or written.
    pub fn strong_count(this: &Self) -> (r: Option<usize>)
        ensures
            (r is Some) == !this.spec_is_static(),
            r matches Some(n) ==> n >= 1,
    {
        match &this.repr {
            Repr::Static { .. } => None,
            Repr::Dynamic { inner } => Some(arc_strong_count(inner)),
        }
    }

    /// Whether this handle references a static record, decided from the
    /// header word alone.
    pub fn is_static(this: &Self) -> (r: bool)
        ensures
            r == this.spec_is_static(),
    {
        proof {
            use_type_invariant(this);
        }
        match &this.repr {
            Repr::Static { len_flags, .. } => len_flags.is_static(),
            Repr::Dynamic { inner } => {
                let t: &ThinInner = &**inner;
                proof {
                    use_type_invariant(t);
                }
                t.len_flags.is_static()
            },
        }
    }

    /// A static record lives as long as the program, so its text can be
    /// borrowed for the `'static` lifetime; a dynamic record cannot.
    pub fn as_static(this: &Self) -> (r: Option<&'static str>)
        ensures
            (r is Some) == this.spec_is_static(),
            r matches Some(s) ==> s@ == this@,
    {
        match &this.repr {
            Repr::Static { data, .. } => Some(*data),
            Repr::Dynamic { .. } => None,
        }
    }

    /// Identity: whether the two handles reference the same record. Identity
    /// implies equal content, never the other way round.
    pub fn ptr_eq(lhs: &Self, rhs: &Self) -> (r: bool)
        ensures
            r ==> lhs@ == rhs@,
            r ==> lhs.spec_is_static() == rhs.spec_is_static(),
    {
        match (&lhs.repr, &rhs.repr) {
            (Repr::Static { data: a, .. }, Repr::Static { data: b, .. }) => static_record_eq(
                a,
                b,
            ),
            (Repr::Dynamic { inner: a }, Repr::Dynamic { inner: b }) => arc_record_eq(a, b),
            _ => false,
        }
    }
}

/// A static record as embedded data: the packed header word, the inert
/// sentinel at the offset where a dynamic record keeps its count, and the
/// payload. The count offset of a static record is never read or written at
/// run time.
#[derive(Debug)]
pub struct StaticArcStrInner<Buf> {
    /// Packed header word: length and the static discriminant.
    pub len_flags: usize,
    /// Inert sentinel at the count offset; no count semantics.
    pub count: usize,
    /// The embedded payload.
    pub data: Buf,
}

impl StaticArcStrInner<&'static str> {
    /// A well-formed static record: the header word is marked static and
    /// states the exact byte length of the payload.
    pub open spec fn wf(&self) -> bool {
        &&& LenFlags(self.len_flags).spec_is_static()
        &&& LenFlags(self.len_flags).spec_len() == encode_utf8(self.data@).len()
    }

    /// Build a well-formed static record around an embedded text. The
    /// caller's text is already validated UTF-8 by its type; a payload too
    /// long for the header word is a fatal fault.
    pub fn new(data: &'static str) -> (r: Self)
        ensures
            r.wf(),
            r.data@ == stored_view(data@),
            r.count == 0,
    {
        let bytes = data.as_bytes();
        let n = bytes.len();
        match LenFlags::from_len_static(n, true) {
            Some(lf) => StaticArcStrInner { len_flags: lf.0, count: 0, data },
            None => {
                alloc_overflow();
                let empty: &'static str = "";
                proof {
                    reveal_strlit("");
                    assert(empty@ =~= Seq::<char>::empty());
                    lemma_encode_len_zero(empty@);
                }
                StaticArcStrInner { len_flags: 0, count: 0, data: empty }
            },
        }
    }
}

impl ArcStr {
    /// A handle on a pre-built static record: no allocation, no count, ever.
    pub fn new_static(inner: StaticArcStrInner<&'static str>) -> (r: Self)
        requires
            inner.wf(),
        ensures
            r@ == inner.data@,
            r.spec_is_static(),
    {
        ArcStr { repr: Repr::Static { len_flags: LenFlags(inner.len_flags), data: inner.data } }
    }
}

impl From<&str> for ArcStr {
    /// Construction from borrowed text: an empty input yields the canonical
    /// empty static record without allocating; any other input is copied
    /// into a fresh dynamic record with one share.
    fn from(s: &str) -> (r: Self)
        ensures
            r@ == stored_view(s@),
            s@.len() == 0 ==> r.spec_is_static(),
            1 <= encode_utf8(s@).len() <= MAX_RECORD_LEN ==> !r.spec_is_static(),
    {
        let bytes = s.as_bytes();
        let n = bytes.len();
        proof {
            lemma_encode_len_zero(s@);
        }
        if n == 0 {
            proof {
                assert(s@ =~= Seq::<char>::empty());
            }
            ArcStr::new()
        } else if n <= MAX_RECORD_LEN {
            ArcStr { repr: Repr::Dynamic { inner: ThinInner::allocate(s) } }
        } else {
            alloc_overflow();
            ArcStr::new()
        }
    }
}

impl vstd::std_specs::convert::FromSpecImpl<&str> for ArcStr {
    /// No exact value equation exists: which record a construction returns
    /// depends on the allocator. What is known stands on the impl above.
    open spec fn obeys_from_spec() -> bool {
        false
    }

    open spec fn from_spec(v: &str) -> ArcStr {
        arbitrary()
    }
}

impl From<String> for ArcStr {
    /// Construction from owned text, as from borrowed text.
    fn from(v: String) -> (r: Self)
        ensures
            r@ == stored_view(v@),
            v@.len() == 0 ==> r.spec_is_static(),
            1 <= encode_utf8(v@).len() <= MAX_RECORD_LEN ==> !r.spec_is_static(),
    {
        ArcStr::from(v.as_str())
    }
}

impl vstd::std_specs::convert::FromSpecImpl<String> for ArcStr {
    /// As for borrowed text: no exact value equation exists.
    open spec fn obeys_from_spec() -> bool {
        false
    }

    open spec fn from_spec(v: String) -> ArcStr {
        arbitrary()
    }
}

impl From<&String> for ArcStr {
    /// Construction from borrowed owned text, as from borrowed text.
    fn from(v: &String) -> (r: Self)
        ensures
            r@ == stored_view(v@),
            v@.len() == 0 ==> r.spec_is_static(),
            1 <= encode_utf8(v@).len() <= MAX_RECORD_LEN ==> !r.spec_is_static(),
    {
        ArcStr::from(v.as_str())
    }
}

impl vstd::std_specs::convert::FromSpecImpl<&String> for ArcStr {
    /// As for borrowed text: no exact value equation exists.
    open spec fn obeys_from_spec() -> bool {
        false
    }

    open spec fn from_spec(v: &String) -> ArcStr {
        arbitrary()
    }
}

impl From<&ArcStr> for ArcStr {
    /// Construction from a borrowed handle is a clone: one more share of the
    /// very same record.
    fn from(v: &ArcStr) -> (r: Self)
        ensures
            r == *v,
    {
        v.clone()
    }
}

impl vstd::std_specs::convert::FromSpecImpl<&ArcStr> for ArcStr {
    /// Unlike construction from text, this conversion has an exact value
    /// equation: the handle itself.
    open spec fn obeys_from_spec() -> bool {
        true
    }

    open spec fn from_spec(v: &ArcStr) -> ArcStr {
        *v
    }
}

impl Clone for ArcStr {
    /// Cloning takes one more share of the same record, so as a model value
    /// the clone is the handle itself: same content, same representation. A
    /// static record is not touched at all; a dynamic record's count rises
    /// by one, as [`crate::protocol::spec_clone_share`] states, with the
    /// process aborting rather than letting the count wrap.
    fn clone(&self) -> (res: Self)
        ensures
            res == *self,
            res@ == self@,
            res.spec_is_static() == self.spec_is_static(),
    {
        proof {
            use_type_invariant(self);
        }
        match &self.repr {
            Repr::Static { len_flags, data } => ArcStr {
                repr: Repr::Static { len_flags: *len_flags, data: *data },
            },
            Repr::Dynamic { inner } => ArcStr { repr: Repr::Dynamic { inner: inner.clone() } },
        }
    }
}

/// One exported share of ownership, detached from the handle type. Each
/// exported share must be imported exactly once to get back into the
/// accounted world; the move semantics of this type enforce exactly that.
///
/// The export is deliberately an opaque token, not a bare address: the
/// library offers no address-level interop, since a handle rebuilt from a
/// raw address cannot be verified. In exchange, importing a share twice is
/// unrepresentable rather than undefined behaviour, and a share never
/// imported is a plain leak.
pub struct RawArcStr {
    handle: ArcStr,
}

impl View for RawArcStr {
    type V = Seq<char>;

    /// An exported share is modelled by its text content.
    closed spec fn view(&self) -> Seq<char> {
        self.handle@
    }
}

impl RawArcStr {
    /// Whether the exported share references a static record.
    pub closed spec fn spec_is_static(&self) -> bool {
        self.handle.spec_is_static()
    }
}

impl ArcStr {
    /// Export this handle as one detached share: the record keeps the share
    /// until [`ArcStr::from_raw`] reclaims it.
    pub fn into_raw(this: Self) -> (r: RawArcStr)
        ensures
            r@ == this@,
            r.spec_is_static() == this.spec_is_static(),
    {
        RawArcStr { handle: this }
    }

    /// Reclaim an exported share. Consuming the token means each exported
    /// share is imported at most once; one never imported stays leaked.
    pub fn from_raw(raw: RawArcStr) -> (r: Self)
        ensures
            r@ == raw@,
            r.spec_is_static() == raw.spec_is_static(),
    {
        raw.handle
    }
}

/// Lexicographic order of two byte sequences, byte by byte: the order the
/// standard string types use, and — UTF-8 preserving the order of scalar
/// values — the order handles are compared in.
pub open spec fn spec_cmp_bytes(a: Seq<u8>, b: Seq<u8>) -> core::cmp::Ordering
    decreases a.len(),
{
    if a.len() == 0 && b.len() == 0 {
        core::cmp::Ordering::Equal
    } else if a.len() == 0 {
        core::cmp::Ordering::Less
    } else if b.len() == 0 {
        core::cmp::Ordering::Greater
    } else if a[0] < b[0] {
        core::cmp::Ordering::Less
    } else if a[0] > b[0] {
        core::cmp::Ordering::Greater
    } else {
        spec_cmp_bytes(a.drop_first(), b.drop_first())
    }
}

/// Two byte sequences compare equal exactly when they are the same sequence.
pub proof fn lemma_cmp_bytes_equal(a: Seq<u8>, b: Seq<u8>)
    ensures
        (spec_cmp_bytes(a, b) == core::cmp::Ordering::Equal) <==> (a == b),
    decreases a.len(),
{
    if a.len() == 0 && b.len() == 0 {
        assert(a =~= b);
    }
    if a.len() > 0 && b.len() > 0 && a[0] == b[0] {
        lemma_cmp_bytes_equal(a.drop_first(), b.drop_first());
        if a.drop_first() == b.drop_first() {
            assert(a =~= b) by {
                assert forall|i: int| 0 <= i < a.len() implies a[i] == b[i] by {
                    if i > 0 {
                        assert(a[i] == a.drop_first()[i - 1]);
                        assert(b[i] == b.drop_first()[i - 1]);
                    }
                }
            }
        }
    }
}

/// Swapping the operands reverses a comparison, so the order of handles is
/// antisymmetric.
pub proof fn lemma_cmp_bytes_antisymmetric(a: Seq<u8>, b: Seq<u8>)
    ensures
        (spec_cmp_bytes(a, b) == core::cmp::Ordering::Less) <==> (spec_cmp_bytes(b, a)
            == core::cmp::Ordering::Greater),
        (spec_cmp_bytes(a, b) == core::cmp::Ordering::Equal) <==> (spec_cmp_bytes(b, a)
            == core::cmp::Ordering::Equal),
    decreases a.len(),
{
    if a.len() > 0 && b.len() > 0 && a[0] == b[0] {
        lemma_cmp_bytes_antisymmetric(a.drop_first(), b.drop_first());
    }
}

/// The order of handles is transitive; with antisymmetry and
/// [`lemma_cmp_bytes_equal`] the comparison is a strict total order on
/// content, which ordered containers of handles rely on.
pub proof fn lemma_cmp_bytes_transitive(a: Seq<u8>, b: Seq<u8>, c: Seq<u8>)
    requires
        spec_cmp_bytes(a, b) == core::cmp::Ordering::Less,
        spec_cmp_bytes(b, c) == core::cmp::Ordering::Less,
    ensures
        spec_cmp_bytes(a, c) == core::cmp::Ordering::Less,
    decreases a.len(),
{
    if a.len() > 0 && b.len() > 0 && c.len() > 0 && a[0] == b[0] && b[0] == c[0] {
        lemma_cmp_bytes_transitive(a.drop_first(), b.drop_first(), c.drop_first());
    }
}

/// Compare two byte slices in lexicographic order.
fn bytes_cmp(a: &[u8], b: &[u8]) -> (r: core::cmp::Ordering)
    ensures
        r == spec_cmp_bytes(a@, b@),
{
    let mut i: usize = 0;
    proof {
        assert(a@.skip(0) =~= a@);
        assert(b@.skip(0) =~= b@);
    }
    loop
        invariant
            i <= a@.len(),
            i <= b@.len(),
            spec_cmp_bytes(a@, b@) == spec_cmp_bytes(a@.skip(i as int), b@.skip(i as int)),
        decreases a@.len() - i,
    {
        if i == a.len() {
            if i == b.len() {
                return core::cmp::Ordering::Equal;
            }
            return core::cmp::Ordering::Less;
        }
        if i == b.len() {
            return core::cmp::Ordering::Greater;
        }
        let x = a[i];
        let y = b[i];
        proof {
            assert(a@.skip(i as int)[0] == a@[i as int]);
            assert(b@.skip(i as int)[0] == b@[i as int]);
        }
        if x < y {
            return core::cmp::Ordering::Less;
        }
        if x > y {
            return core::cmp::Ordering::Greater;
        }
        proof {
            assert(a@.skip(i as int).drop_first() =~= a@.skip(i + 1));
            assert(b@.skip(i as int).drop_first() =~= b@.skip(i + 1));
        }
        i = i + 1;
    }
}

impl PartialEq for ArcStr {
    /// Content equality, short-circuited by identity: two handles of the
    /// same record are equal without any byte being compared, which is no
    /// semantic change since identical records hold identical content.
    fn eq(&self, other: &Self) -> (r: bool) {
        proof {
            lemma_encode_injective(self@, other@);
        }
        if ArcStr::ptr_eq(self, other) {
            true
        } else {
            let c = bytes_cmp(self.as_bytes(), other.as_bytes());
            proof {
                lemma_cmp_bytes_equal(encode_utf8(self@), encode_utf8(other@));
            }
            matches!(c, core::cmp::Ordering::Equal)
        }
    }
}

impl vstd::std_specs::cmp::PartialEqSpecImpl for ArcStr {
    open spec fn obeys_eq_spec() -> bool {
        true
    }

    /// `==` on handles is equality of content.
    open spec fn eq_spec(&self, other: &ArcStr) -> bool {
        self@ == other@
    }
}

impl Eq for ArcStr {}

impl PartialOrd for ArcStr {
    /// Content order: byte-wise lexicographic over the UTF-8 payloads, the
    /// order the standard string types use.
    fn partial_cmp(&self, other: &Self) -> (r: Option<core::cmp::Ordering>) {
        Some(bytes_cmp(self.as_bytes(), other.as_bytes()))
    }
}

impl vstd::std_specs::cmp::PartialOrdSpecImpl for ArcStr {
    open spec fn obeys_partial_cmp_spec() -> bool {
        true
    }

    /// Comparison on handles is byte-wise lexicographic order of content.
    open spec fn partial_cmp_spec(&self, other: &ArcStr) -> Option<core::cmp::Ordering> {
        Some(spec_cmp_bytes(encode_utf8(self@), encode_utf8(other@)))
    }
}

impl Default for ArcStr {
    /// The default handle is the canonical empty static record.
    fn default() -> (r: Self)
        ensures
            r@ == Seq::<char>::empty(),
            r.spec_is_static(),
    {
        ArcStr::new()
    }
}

impl core::str::FromStr for ArcStr {
    type Err = core::convert::Infallible;

    /// Parsing borrowed text never fails: every string is its own handle.
    fn from_str(s: &str) -> (r: Result<Self, Self::Err>)
        ensures
            r matches Ok(a) && a@ == stored_view(s@),
    {
        Ok(ArcStr::from(s))
    }
}


/// Round trip of construction: within the representable bound, what a
/// construction stores is exactly the given text, empty or not; reading it
/// back through the text views yields it unchanged.
pub proof fn lemma_construction_round_trip(s: Seq<char>)
    requires
        encode_utf8(s).len() <= MAX_RECORD_LEN,
    ensures
        stored_view(s) == s,
{
}

} // verus!
