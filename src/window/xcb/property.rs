use crate::window::xcb::XcbBackend;
use crate::window::xcb::XcbBackendError;
use vstd::prelude::*;
use vstd::utf8::*;

verus! {

/// Predefined atom `ATOM` of the core X protocol.
pub const ATOM_ATOM: u32 = 4;

/// Predefined atom `CARDINAL` of the core X protocol.
pub const ATOM_CARDINAL: u32 = 6;

/// Predefined atom `STRING` of the core X protocol (Latin-1 text).
pub const ATOM_STRING: u32 = 31;

/// The logical type of a property value.
#[derive(Debug, Clone, Copy, PartialEq, Eq)]
pub enum XPropertyType {
    Atom,
    Latin1String,
    Utf8String,
    Cardinal,
}

impl XPropertyType {
    /// The wire type tag of this logical type; `UTF8_STRING` is not
    /// predefined, its atom is the one the server interned.
    pub open spec fn wire_atom(self, utf8_string_atom: u32) -> u32 {
        match self {
            XPropertyType::Atom => ATOM_ATOM,
            XPropertyType::Latin1String => ATOM_STRING,
            XPropertyType::Utf8String => utf8_string_atom,
            XPropertyType::Cardinal => ATOM_CARDINAL,
        }
    }

    pub fn atom(self, backend: &XcbBackend) -> (r: u32)
        ensures
            r == self.wire_atom(backend.utf8_string_atom),
    {
        match self {
            XPropertyType::Atom => ATOM_ATOM,
            XPropertyType::Latin1String => ATOM_STRING,
            XPropertyType::Utf8String => backend.utf8_string_atom,
            XPropertyType::Cardinal => ATOM_CARDINAL,
        }
    }
}

/// An element type of a property buffer: 8, 16 or 32 bits wide.
pub trait XPropertyFormat: Copy + Sized {
    /// Width of one element, in bytes.
    spec fn width() -> nat;

    spec fn narrow_u8(self) -> Option<u8>;

    spec fn narrow_u16(self) -> Option<u16>;

    spec fn narrow_u32(self) -> Option<u32>;

    fn size() -> (r: usize)
        ensures
            r == Self::width(),
    ;

    /// The wire format: the element width in bits.
    fn format() -> (r: u32)
        ensures
            r == 8 * Self::width(),
            r <= 32,
    ;

    fn as_u8(self) -> (r: Option<u8>)
        ensures
            r == self.narrow_u8(),
    ;

    fn as_u16(self) -> (r: Option<u16>)
        ensures
            r == self.narrow_u16(),
    ;

    fn as_u32(self) -> (r: Option<u32>)
        ensures
            r == self.narrow_u32(),
    ;
}

impl XPropertyFormat for u8 {
    open spec fn width() -> nat {
        1
    }

    open spec fn narrow_u8(self) -> Option<u8> {
        Some(self)
    }

    open spec fn narrow_u16(self) -> Option<u16> {
        None
    }

    open spec fn narrow_u32(self) -> Option<u32> {
        None
    }

    fn size() -> (r: usize) {
        1
    }

    fn format() -> (r: u32) {
        8
    }

    fn as_u8(self) -> (r: Option<u8>) {
        Some(self)
    }

    fn as_u16(self) -> (r: Option<u16>) {
        None
    }

    fn as_u32(self) -> (r: Option<u32>) {
        None
    }
}

impl XPropertyFormat for u16 {
    open spec fn width() -> nat {
        2
    }

    open spec fn narrow_u8(self) -> Option<u8> {
        None
    }

    open spec fn narrow_u16(self) -> Option<u16> {
        Some(self)
    }

    open spec fn narrow_u32(self) -> Option<u32> {
        None
    }

    fn size() -> (r: usize) {
        2
    }

    fn format() -> (r: u32) {
        16
    }

    fn as_u8(self) -> (r: Option<u8>) {
        None
    }

    fn as_u16(self) -> (r: Option<u16>) {
        Some(self)
    }

    fn as_u32(self) -> (r: Option<u32>) {
        None
    }
}

impl XPropertyFormat for u32 {
    open spec fn width() -> nat {
        4
    }

    open spec fn narrow_u8(self) -> Option<u8> {
        None
    }

    open spec fn narrow_u16(self) -> Option<u16> {
        None
    }

    open spec fn narrow_u32(self) -> Option<u32> {
        Some(self)
    }

    fn size() -> (r: usize) {
        4
    }

    fn format() -> (r: u32) {
        32
    }

    fn as_u8(self) -> (r: Option<u8>) {
        None
    }

    fn as_u16(self) -> (r: Option<u16>) {
        None
    }

    fn as_u32(self) -> (r: Option<u32>) {
        Some(self)
    }
}

/// What a property read brought back: the reply's wire type tag and its
/// elements.
#[derive(Debug, Clone)]
pub struct PropertyReply<F> {
    pub type_: u32,
    pub value: Vec<F>,
}

/// A property value type: how a sequence of values is laid out in a
/// property buffer with elements of type `F`.
pub trait XProperty<F: XPropertyFormat>: Sized {
    spec fn wire_type() -> XPropertyType;

    /// The buffer that `values` are written as.
    spec fn encoded(values: Seq<Self>) -> Seq<F>;

    /// Whether `data` is well formed under this type's encoding.
    spec fn decodable(data: Seq<F>) -> bool;

    /// Whether `values` are what the well-formed `data` reads as.
    spec fn decodes_to(data: Seq<F>, values: Seq<Self>) -> bool;

    fn property_type() -> (r: XPropertyType)
        ensures
            r == Self::wire_type(),
    ;

    /// Reads the values out of a reply. A reply tagged with another wire type
    /// is refused whatever it holds.
    fn from_property_reply(
        backend: &XcbBackend,
        reply: PropertyReply<F>,
        target_offset: u32,
        target_length: u32,
    ) -> (r: Result<Vec<Self>, XcbBackendError>)
        ensures
            reply.type_ != Self::wire_type().wire_atom(backend.utf8_string_atom) ==> r == Err::<
                Vec<Self>,
                XcbBackendError,
            >(
                XcbBackendError::PropertyTypeMismatch {
                    expected: Self::wire_type().wire_atom(backend.utf8_string_atom),
                    found: reply.type_,
                },
            ),
            reply.type_ == Self::wire_type().wire_atom(backend.utf8_string_atom) ==> match r {
                Ok(v) => Self::decodable(reply.value@) && Self::decodes_to(reply.value@, v@),
                Err(e) => !Self::decodable(reply.value@) && e == XcbBackendError::PropertyEncodingError,
            },
    ;

    fn to_property_value(backend: &XcbBackend, values: Vec<Self>) -> (r: Result<Vec<F>, XcbBackendError>)
        ensures
            r matches Ok(data) && data@ == Self::encoded(values@),
    ;
}

/// A 32-bit unsigned integer property value.
#[derive(Debug, Clone, Copy, PartialEq, Eq, PartialOrd, Ord, Hash)]
pub struct CardinalProperty(pub u32);

impl XProperty<u32> for CardinalProperty {
    open spec fn wire_type() -> XPropertyType {
        XPropertyType::Cardinal
    }

    open spec fn encoded(values: Seq<Self>) -> Seq<u32> {
        values.map_values(|c: CardinalProperty| c.0)
    }

    open spec fn decodable(data: Seq<u32>) -> bool {
        true
    }

    open spec fn decodes_to(data: Seq<u32>, values: Seq<Self>) -> bool {
        values == data.map_values(|x: u32| CardinalProperty(x))
    }

    fn property_type() -> (r: XPropertyType) {
        XPropertyType::Cardinal
    }

    fn from_property_reply(
        backend: &XcbBackend,
        reply: PropertyReply<u32>,
        _target_offset: u32,
        _target_length: u32,
    ) -> (r: Result<Vec<Self>, XcbBackendError>) {
        let expected = Self::property_type().atom(backend);
        if reply.type_ != expected {
            return Err(XcbBackendError::PropertyTypeMismatch { expected, found: reply.type_ });
        }
        let mut out: Vec<CardinalProperty> = Vec::new();
        let mut i: usize = 0;
        while i < reply.value.len()
            invariant
                i <= reply.value@.len(),
                out@ =~= reply.value@.take(i as int).map_values(|x: u32| CardinalProperty(x)),
            decreases reply.value@.len() - i,
        {
            out.push(CardinalProperty(reply.value[i]));
            i = i + 1;
        }
        assert(reply.value@.take(i as int) =~= reply.value@);
        Ok(out)
    }

    fn to_property_value(_backend: &XcbBackend, values: Vec<Self>) -> (r: Result<Vec<u32>, XcbBackendError>) {
        let mut out: Vec<u32> = Vec::new();
        let mut i: usize = 0;
        while i < values.len()
            invariant
                i <= values@.len(),
                out@ =~= values@.take(i as int).map_values(|c: CardinalProperty| c.0),
            decreases values@.len() - i,
        {
            out.push(values[i].0);
            i = i + 1;
        }
        assert(values@.take(i as int) =~= values@);
        Ok(out)
    }
}

/// An atom property value.
#[derive(Debug, Clone, Copy, PartialEq, Eq, Hash)]
pub struct AtomProperty(pub u32);

impl XProperty<u32> for AtomProperty {
    open spec fn wire_type() -> XPropertyType {
        XPropertyType::Atom
    }

    open spec fn encoded(values: Seq<Self>) -> Seq<u32> {
        values.map_values(|a: AtomProperty| a.0)
    }

    open spec fn decodable(data: Seq<u32>) -> bool {
        true
    }

    open spec fn decodes_to(data: Seq<u32>, values: Seq<Self>) -> bool {
        values == data.map_values(|x: u32| AtomProperty(x))
    }

    fn property_type() -> (r: XPropertyType) {
        XPropertyType::Atom
    }

    fn from_property_reply(
        backend: &XcbBackend,
        reply: PropertyReply<u32>,
        _target_offset: u32,
        _target_length: u32,
    ) -> (r: Result<Vec<Self>, XcbBackendError>) {
        let expected = Self::property_type().atom(backend);
        if reply.type_ != expected {
            return Err(XcbBackendError::PropertyTypeMismatch { expected, found: reply.type_ });
        }
        let mut out: Vec<AtomProperty> = Vec::new();
        let mut i: usize = 0;
        while i < reply.value.len()
            invariant
                i <= reply.value@.len(),
                out@ =~= reply.value@.take(i as int).map_values(|x: u32| AtomProperty(x)),
            decreases reply.value@.len() - i,
        {
            out.push(AtomProperty(reply.value[i]));
            i = i + 1;
        }
        assert(reply.value@.take(i as int) =~= reply.value@);
        Ok(out)
    }

    fn to_property_value(_backend: &XcbBackend, values: Vec<Self>) -> (r: Result<Vec<u32>, XcbBackendError>) {
        let mut out: Vec<u32> = Vec::new();
        let mut i: usize = 0;
        while i < values.len()
            invariant
                i <= values@.len(),
                out@ =~= values@.take(i as int).map_values(|a: AtomProperty| a.0),
            decreases values@.len() - i,
        {
            out.push(values[i].0);
            i = i + 1;
        }
        assert(values@.take(i as int) =~= values@);
        Ok(out)
    }
}

/// Splitting a buffer on NUL bytes, after reading `data`: the non-empty
/// segments completed so far, and the segment still open.
pub open spec fn split_state(data: Seq<u8>) -> (Seq<Seq<u8>>, Seq<u8>)
    decreases data.len(),
{
    if data.len() == 0 {
        (Seq::empty(), Seq::empty())
    } else {
        let (done, cur) = split_state(data.drop_last());
        if data.last() == 0 {
            if cur.len() > 0 {
                (done.push(cur), Seq::empty())
            } else {
                (done, cur)
            }
        } else {
            (done, cur.push(data.last()))
        }
    }
}

/// The non-empty runs of `data` between NUL bytes, in order.
pub open spec fn segments(data: Seq<u8>) -> Seq<Seq<u8>> {
    let (done, cur) = split_state(data);
    if cur.len() > 0 {
        done.push(cur)
    } else {
        done
    }
}

/// Each item followed by a NUL byte, concatenated.
pub open spec fn nul_terminated(items: Seq<Seq<u8>>) -> Seq<u8>
    decreases items.len(),
{
    if items.len() == 0 {
        Seq::empty()
    } else {
        nul_terminated(items.drop_last()) + items.last() + seq![0u8]
    }
}

pub open spec fn byte_views(v: Seq<Vec<u8>>) -> Seq<Seq<u8>> {
    v.map_values(|b: Vec<u8>| b@)
}

fn copy_bytes(src: &Vec<u8>) -> (r: Vec<u8>)
    ensures
        r@ == src@,
{
    let mut out: Vec<u8> = Vec::new();
    let mut i: usize = 0;
    while i < src.len()
        invariant
            i <= src@.len(),
            out@ =~= src@.take(i as int),
        decreases src@.len() - i,
    {
        out.push(src[i]);
        i = i + 1;
    }
    assert(src@.take(i as int) =~= src@);
    out
}

/// The non-empty NUL-separated segments of `data`.
pub fn split_nul_segments(data: &Vec<u8>) -> (r: Vec<Vec<u8>>)
    ensures
        byte_views(r@) == segments(data@),
{
    let mut done: Vec<Vec<u8>> = Vec::new();
    let mut cur: Vec<u8> = Vec::new();
    let mut i: usize = 0;
    while i < data.len()
        invariant
            i <= data@.len(),
            (byte_views(done@), cur@) == split_state(data@.take(i as int)),
        decreases data@.len() - i,
    {
        let b = data[i];
        assert(data@.take(i + 1).drop_last() =~= data@.take(i as int));
        assert(data@.take(i + 1).last() == b);
        if b == 0 {
            if cur.len() > 0 {
                done.push(cur);
                cur = Vec::new();
                assert(byte_views(done@) =~= split_state(data@.take(i as int)).0.push(
                    split_state(data@.take(i as int)).1,
                ));
                assert(cur@ =~= Seq::<u8>::empty());
            }
        } else {
            cur.push(b);
        }
        i = i + 1;
    }
    assert(data@.take(i as int) =~= data@);
    if cur.len() > 0 {
        done.push(cur);
        assert(byte_views(done@) =~= segments(data@));
    }
    done
}

/// Appends `src` and a NUL byte to `buf`.
fn push_terminated(buf: &mut Vec<u8>, src: &[u8])
    ensures
        final(buf)@ == old(buf)@ + src@ + seq![0u8],
{
    let mut i: usize = 0;
    while i < src.len()
        invariant
            i <= src@.len(),
            buf@ =~= old(buf)@ + src@.take(i as int),
        decreases src@.len() - i,
    {
        buf.push(src[i]);
        i = i + 1;
    }
    assert(src@.take(i as int) =~= src@);
    buf.push(0u8);
}

/// Relies on `String::from_utf8`: it accepts exactly the valid UTF-8 byte
/// sequences, and then holds the text they encode.
#[verifier::external_body]
fn string_from_utf8(bytes: Vec<u8>) -> (r: Option<String>)
    ensures
        r is Some <==> valid_utf8(bytes@),
        r matches Some(s) ==> s@ == decode_utf8(bytes@),
{
    String::from_utf8(bytes).ok()
}

pub open spec fn utf8_items(values: Seq<String>) -> Seq<Seq<u8>> {
    values.map_values(|s: String| encode_utf8(s@))
}

pub open spec fn all_valid_utf8(items: Seq<Seq<u8>>) -> bool {
    forall|i: int| 0 <= i < items.len() ==> valid_utf8(#[trigger] items[i])
}

/// A UTF-8 text property (wire type `UTF8_STRING`): each string is written
/// followed by a NUL byte, and read back from the non-empty NUL-separated
/// segments.
impl XProperty<u8> for String {
    open spec fn wire_type() -> XPropertyType {
        XPropertyType::Utf8String
    }

    open spec fn encoded(values: Seq<Self>) -> Seq<u8> {
        nul_terminated(utf8_items(values))
    }

    open spec fn decodable(data: Seq<u8>) -> bool {
        all_valid_utf8(segments(data))
    }

    open spec fn decodes_to(data: Seq<u8>, values: Seq<Self>) -> bool {
        values.map_values(|s: String| s@) == segments(data).map_values(|b: Seq<u8>| decode_utf8(b))
    }

    fn property_type() -> (r: XPropertyType) {
        XPropertyType::Utf8String
    }

    fn from_property_reply(
        backend: &XcbBackend,
        reply: PropertyReply<u8>,
        _target_offset: u32,
        _target_length: u32,
    ) -> (r: Result<Vec<Self>, XcbBackendError>) {
        let expected = Self::property_type().atom(backend);
        if reply.type_ != expected {
            return Err(XcbBackendError::PropertyTypeMismatch { expected, found: reply.type_ });
        }
        let segs = split_nul_segments(&reply.value);
        let ghost sv = segments(reply.value@);
        let mut out: Vec<String> = Vec::new();
        let mut i: usize = 0;
        while i < segs.len()
            invariant
                i <= segs@.len(),
                byte_views(segs@) == sv,
                sv == segments(reply.value@),
                reply.type_ == Self::wire_type().wire_atom(backend.utf8_string_atom),
                forall|j: int| 0 <= j < i ==> valid_utf8(#[trigger] sv[j]),
                out@.map_values(|s: String| s@) =~= sv.take(i as int).map_values(
                    |b: Seq<u8>| decode_utf8(b),
                ),
            decreases segs@.len() - i,
        {
            assert(sv[i as int] == segs@[i as int]@);
            let ghost prev = out@;
            match string_from_utf8(copy_bytes(&segs[i])) {
                Some(s) => {
                    out.push(s);
                    assert(out@ == prev.push(s));
                    assert(out@.map_values(|s: String| s@) =~= prev.map_values(|s: String| s@).push(
                        decode_utf8(sv[i as int]),
                    ));
                },
                None => {
                    assert(!valid_utf8(sv[i as int]));
                    return Err(XcbBackendError::PropertyEncodingError);
                },
            }
            assert(sv.take(i + 1) =~= sv.take(i as int).push(sv[i as int]));
            i = i + 1;
            assert(out@.map_values(|s: String| s@) =~= sv.take(i as int).map_values(
                |b: Seq<u8>| decode_utf8(b),
            ));
        }
        assert(sv.take(i as int) =~= sv);
        Ok(out)
    }

    fn to_property_value(_backend: &XcbBackend, values: Vec<Self>) -> (r: Result<Vec<u8>, XcbBackendError>) {
        let mut buf: Vec<u8> = Vec::new();
        let mut i: usize = 0;
        while i < values.len()
            invariant
                i <= values@.len(),
                buf@ == nul_terminated(utf8_items(values@.take(i as int))),
            decreases values@.len() - i,
        {
            let bytes = values[i].as_str().as_bytes();
            push_terminated(&mut buf, bytes);
            assert(utf8_items(values@.take(i + 1)).drop_last() =~= utf8_items(values@.take(i as int)));
            i = i + 1;
        }
        assert(values@.take(i as int) =~= values@);
        Ok(buf)
    }
}

/// A Latin-1 text value (wire type `STRING`), kept as its bytes.
pub struct Latin1String {
    pub data: Vec<u8>,
}

pub open spec fn latin1_items(values: Seq<Latin1String>) -> Seq<Seq<u8>> {
    values.map_values(|l: Latin1String| l.data@)
}

impl XProperty<u8> for Latin1String {
    open spec fn wire_type() -> XPropertyType {
        XPropertyType::Latin1String
    }

    open spec fn encoded(values: Seq<Self>) -> Seq<u8> {
        nul_terminated(latin1_items(values))
    }

    open spec fn decodable(data: Seq<u8>) -> bool {
        true
    }

    open spec fn decodes_to(data: Seq<u8>, values: Seq<Self>) -> bool {
        latin1_items(values) == segments(data)
    }

    fn property_type() -> (r: XPropertyType) {
        XPropertyType::Latin1String
    }

    fn from_property_reply(
        backend: &XcbBackend,
        reply: PropertyReply<u8>,
        _target_offset: u32,
        _target_length: u32,
    ) -> (r: Result<Vec<Self>, XcbBackendError>) {
        let expected = Self::property_type().atom(backend);
        if reply.type_ != expected {
            return Err(XcbBackendError::PropertyTypeMismatch { expected, found: reply.type_ });
        }
        let mut segs = split_nul_segments(&reply.value);
        let ghost sv = segments(reply.value@);
        let mut out: Vec<Latin1String> = Vec::new();
        let mut i: usize = 0;
        while i < segs.len()
            invariant
                i <= segs@.len(),
                byte_views(segs@) == sv,
                latin1_items(out@) =~= sv.take(i as int),
            decreases segs@.len() - i,
        {
            assert(sv[i as int] == segs@[i as int]@);
            let ghost prev = out@;
            let item = Latin1String { data: copy_bytes(&segs[i]) };
            out.push(item);
            assert(out@ == prev.push(item));
            assert(latin1_items(out@) =~= latin1_items(prev).push(sv[i as int]));
            assert(sv.take(i + 1) =~= sv.take(i as int).push(sv[i as int]));
            i = i + 1;
            assert(latin1_items(out@) =~= sv.take(i as int));
        }
        assert(sv.take(i as int) =~= sv);
        Ok(out)
    }

    fn to_property_value(_backend: &XcbBackend, values: Vec<Self>) -> (r: Result<Vec<u8>, XcbBackendError>) {
        let mut buf: Vec<u8> = Vec::new();
        let mut i: usize = 0;
        while i < values.len()
            invariant
                i <= values@.len(),
                buf@ == nul_terminated(latin1_items(values@.take(i as int))),
            decreases values@.len() - i,
        {
            push_terminated(&mut buf, values[i].data.as_slice());
            assert(latin1_items(values@.take(i + 1)).drop_last() =~= latin1_items(values@.take(i as int)));
            i = i + 1;
        }
        assert(values@.take(i as int) =~= values@);
        Ok(buf)
    }
}

/// Cardinal values written to a property read back as exactly those values.
pub proof fn lemma_cardinal_round_trip(values: Seq<CardinalProperty>)
    ensures
        <CardinalProperty as XProperty<u32>>::decodable(
            <CardinalProperty as XProperty<u32>>::encoded(values),
        ),
        forall|read: Seq<CardinalProperty>|
            <CardinalProperty as XProperty<u32>>::decodes_to(
                <CardinalProperty as XProperty<u32>>::encoded(values),
                read,
            ) <==> read == values,
{
    assert(values.map_values(|c: CardinalProperty| c.0).map_values(|x: u32| CardinalProperty(x))
        =~= values);
}

/// Atom values written to a property read back as exactly those values.
pub proof fn lemma_atom_round_trip(values: Seq<AtomProperty>)
    ensures
        <AtomProperty as XProperty<u32>>::decodable(<AtomProperty as XProperty<u32>>::encoded(values)),
        forall|read: Seq<AtomProperty>|
            <AtomProperty as XProperty<u32>>::decodes_to(
                <AtomProperty as XProperty<u32>>::encoded(values),
                read,
            ) <==> read == values,
{
    assert(values.map_values(|a: AtomProperty| a.0).map_values(|x: u32| AtomProperty(x)) =~= values);
}

/// The items of `items` that are not empty, in order.
pub open spec fn non_empty<A>(items: Seq<Seq<A>>) -> Seq<Seq<A>>
    decreases items.len(),
{
    if items.len() == 0 {
        Seq::empty()
    } else if items.last().len() > 0 {
        non_empty(items.drop_last()).push(items.last())
    } else {
        non_empty(items.drop_last())
    }
}

/// No item holds a NUL byte.
pub open spec fn nul_free(items: Seq<Seq<u8>>) -> bool {
    forall|i: int, j: int| 0 <= i < items.len() && 0 <= j < items[i].len() ==> #[trigger] items[i][j] != 0
}

proof fn lemma_split_plain(data: Seq<u8>, more: Seq<u8>)
    requires
        forall|j: int| 0 <= j < more.len() ==> #[trigger] more[j] != 0,
    ensures
        split_state(data + more) == (split_state(data).0, split_state(data).1 + more),
    decreases more.len(),
{
    if more.len() == 0 {
        assert(data + more =~= data);
        assert(split_state(data).1 + more =~= split_state(data).1);
    } else {
        let shorter = more.drop_last();
        assert((data + more).drop_last() =~= data + shorter);
        assert((data + more).last() == more[more.len() - 1]);
        lemma_split_plain(data, shorter);
        assert((split_state(data).1 + shorter).push(more.last()) =~= split_state(data).1 + more);
    }
}

proof fn lemma_split_nul_terminated(items: Seq<Seq<u8>>)
    requires
        nul_free(items),
    ensures
        split_state(nul_terminated(items)) == (non_empty(items), Seq::<u8>::empty()),
    decreases items.len(),
{
    if items.len() > 0 {
        let rest = items.drop_last();
        let last = items.last();
        assert forall|i: int, j: int| 0 <= i < rest.len() && 0 <= j < rest[i].len() implies #[trigger] rest[i][j]
            != 0 by {
            assert(rest[i] == items[i]);
        }
        lemma_split_nul_terminated(rest);
        assert forall|j: int| 0 <= j < last.len() implies #[trigger] last[j] != 0 by {
            assert(items[items.len() - 1][j] != 0);
        }
        lemma_split_plain(nul_terminated(rest), last);
        let whole = nul_terminated(items);
        assert(whole.drop_last() =~= nul_terminated(rest) + last);
        assert(Seq::<u8>::empty() + last =~= last);
    }
}

/// Items without NUL bytes, each written followed by a NUL, split back into
/// the non-empty items.
pub proof fn lemma_segments_of_nul_terminated(items: Seq<Seq<u8>>)
    requires
        nul_free(items),
    ensures
        segments(nul_terminated(items)) == non_empty(items),
{
    lemma_split_nul_terminated(items);
}

/// Latin-1 values without NUL bytes, written to a property, read back as the
/// same values less the empty ones.
pub proof fn lemma_latin1_round_trip(values: Seq<Latin1String>)
    requires
        nul_free(latin1_items(values)),
    ensures
        <Latin1String as XProperty<u8>>::decodable(<Latin1String as XProperty<u8>>::encoded(values)),
        forall|read: Seq<Latin1String>|
            <Latin1String as XProperty<u8>>::decodes_to(
                <Latin1String as XProperty<u8>>::encoded(values),
                read,
            ) <==> latin1_items(read) == non_empty(latin1_items(values)),
{
    lemma_segments_of_nul_terminated(latin1_items(values));
}

/// No string holds the character U+0000.
pub open spec fn nul_free_text(values: Seq<String>) -> bool {
    forall|i: int, j: int| 0 <= i < values.len() && 0 <= j < values[i]@.len() ==> #[trigger] values[i]@[j]
        != '\0'
}

proof fn lemma_scalar_bytes_non_zero(c: u32)
    requires
        c != 0,
    ensures
        forall|j: int| 0 <= j < encode_scalar(c).len() ==> #[trigger] encode_scalar(c)[j] != 0,
        encode_scalar(c).len() > 0,
{
    if has_width_1_encoding(c) {
        assert((c & 0x7F) as u8 != 0) by (bit_vector)
            requires
                c != 0 && c <= 0x7F,
        ;
    } else {
        let x = c;
        assert(0x80u8 | ((x & 0x3F) as u8) != 0) by (bit_vector);
        assert(0x80u8 | (((x >> 6) & 0x3F) as u8) != 0) by (bit_vector);
        assert(0x80u8 | (((x >> 12) & 0x3F) as u8) != 0) by (bit_vector);
        assert(0xC0u8 | (((x >> 6) & 0x1F) as u8) != 0) by (bit_vector);
        assert(0xE0u8 | (((x >> 12) & 0x0F) as u8) != 0) by (bit_vector);
        assert(0xF0u8 | (((x >> 18) & 0x7) as u8) != 0) by (bit_vector);
    }
}

proof fn lemma_encode_utf8_nul_free(chars: Seq<char>)
    requires
        forall|j: int| 0 <= j < chars.len() ==> #[trigger] chars[j] != '\0',
    ensures
        forall|j: int| 0 <= j < encode_utf8(chars).len() ==> #[trigger] encode_utf8(chars)[j] != 0,
        encode_utf8(chars).len() > 0 <==> chars.len() > 0,
    decreases chars.len(),
{
    if chars.len() > 0 {
        let rest = chars.drop_first();
        assert forall|j: int| 0 <= j < rest.len() implies #[trigger] rest[j] != '\0' by {
            assert(rest[j] == chars[j + 1]);
        }
        lemma_encode_utf8_nul_free(rest);
        assert(chars[0] != '\0');
        char_u32_cast(chars[0], chars[0] as u32);
        char_u32_cast('\0', '\0' as u32);
        assert((chars[0] as u32) != 0);
        lemma_scalar_bytes_non_zero(chars[0] as u32);
        let head = encode_scalar(chars[0] as u32);
        assert(encode_utf8(chars) == head + encode_utf8(rest));
        assert forall|j: int| 0 <= j < encode_utf8(chars).len() implies #[trigger] encode_utf8(chars)[j]
            != 0 by {
            if j < head.len() {
                assert(encode_utf8(chars)[j] == head[j]);
            } else {
                assert(encode_utf8(chars)[j] == encode_utf8(rest)[j - head.len()]);
            }
        }
    }
}

pub open spec fn texts(values: Seq<String>) -> Seq<Seq<char>> {
    values.map_values(|s: String| s@)
}

proof fn lemma_decode_non_empty(values: Seq<String>)
    requires
        nul_free_text(values),
    ensures
        all_valid_utf8(non_empty(utf8_items(values))),
        non_empty(utf8_items(values)).map_values(|b: Seq<u8>| decode_utf8(b)) == non_empty(texts(values)),
        nul_free(utf8_items(values)),
    decreases values.len(),
{
    broadcast use encode_utf8_valid_utf8, encode_utf8_decode_utf8;

    if values.len() == 0 {
        assert(non_empty(utf8_items(values)).map_values(|b: Seq<u8>| decode_utf8(b)) =~= Seq::empty());
        assert(utf8_items(values) =~= Seq::empty());
    } else {
        let rest = values.drop_last();
        let last = values.last();
        assert forall|i: int, j: int| 0 <= i < rest.len() && 0 <= j < rest[i]@.len() implies #[trigger] rest[i]@[j]
            != '\0' by {
            assert(rest[i] == values[i]);
        }
        lemma_decode_non_empty(rest);
        assert forall|j: int| 0 <= j < last@.len() implies #[trigger] last@[j] != '\0' by {
            assert(values[values.len() - 1]@[j] != '\0');
        }
        lemma_encode_utf8_nul_free(last@);
        assert(utf8_items(values).drop_last() =~= utf8_items(rest));
        assert(utf8_items(values).last() == encode_utf8(last@));
        assert(texts(values).drop_last() =~= texts(rest));
        assert(texts(values).last() == last@);
        let prev = non_empty(utf8_items(rest));
        if last@.len() > 0 {
            assert(non_empty(utf8_items(values)).map_values(|b: Seq<u8>| decode_utf8(b))
                =~= prev.map_values(|b: Seq<u8>| decode_utf8(b)).push(decode_utf8(encode_utf8(last@))));
        } else {
            assert(encode_utf8(last@).len() == 0);
        }
        assert forall|i: int, j: int|
            0 <= i < utf8_items(values).len() && 0 <= j < utf8_items(values)[i].len() implies #[trigger] utf8_items(
            values,
        )[i][j] != 0 by {
            if i < rest.len() {
                assert(utf8_items(values)[i] == utf8_items(rest)[i]);
            }
        }
    }
}

/// UTF-8 strings without U+0000, written to a property, read back as the
/// same strings less the empty ones; the text is always well formed.
pub proof fn lemma_utf8_round_trip(values: Seq<String>)
    requires
        nul_free_text(values),
    ensures
        <String as XProperty<u8>>::decodable(<String as XProperty<u8>>::encoded(values)),
        forall|read: Seq<String>|
            <String as XProperty<u8>>::decodes_to(<String as XProperty<u8>>::encoded(values), read)
                <==> texts(read) == non_empty(texts(values)),
{
    lemma_decode_non_empty(values);
    lemma_segments_of_nul_terminated(utf8_items(values));
}

} // verus!
