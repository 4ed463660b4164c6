use vstd::prelude::*;
use vstd::utf8::*;
use vstd::string::*;
use crate::text_parse::{decimal, decimal_text};
use crate::wire::{le_at, le_bytes, lemma_le_round_trip, push_bytes, push_u32_le, read_u32_le};

verus! {

/// One element of a variant list. Floating-point values are held as their
/// IEEE-754 bit patterns, exactly as they travel on the wire.
#[derive(Debug, Clone)]
pub enum Variant {
    Float(u32),
    String(String),
    Vec2(u32, u32),
    Vec3(u32, u32, u32),
    Unsigned(u32),
    Signed(i32),
    Unknown,
}

/// The mathematical value of a [`Variant`].
pub enum VariantValue {
    Float(u32),
    Text(Seq<char>),
    Vec2(u32, u32),
    Vec3(u32, u32, u32),
    Unsigned(u32),
    Signed(i32),
    Unknown,
}

impl View for Variant {
    type V = VariantValue;

    open spec fn view(&self) -> VariantValue {
        match self {
            Variant::Float(b) => VariantValue::Float(*b),
            Variant::String(s) => VariantValue::Text(s@),
            Variant::Vec2(x, y) => VariantValue::Vec2(*x, *y),
            Variant::Vec3(x, y, z) => VariantValue::Vec3(*x, *y, *z),
            Variant::Unsigned(u) => VariantValue::Unsigned(*u),
            Variant::Signed(i) => VariantValue::Signed(*i),
            Variant::Unknown => VariantValue::Unknown,
        }
    }
}

/// An ordered list of variants, the argument list of a remote function call.
#[derive(Debug, Clone)]
pub struct VariantList {
    pub variants: Vec<Variant>,
}

impl View for VariantList {
    type V = Seq<VariantValue>;

    open spec fn view(&self) -> Seq<VariantValue> {
        self.variants@.map_values(|v: Variant| v@)
    }
}

/// The type byte written before a value's body.
pub open spec fn type_tag(v: VariantValue) -> u8 {
    match v {
        VariantValue::Float(_) => 1,
        VariantValue::Text(_) => 2,
        VariantValue::Vec2(_, _) => 3,
        VariantValue::Vec3(_, _, _) => 4,
        VariantValue::Unsigned(_) => 5,
        VariantValue::Signed(_) => 9,
        VariantValue::Unknown => 0,
    }
}

/// The body bytes of a value: a string is its byte length and its UTF-8 bytes.
pub open spec fn body_bytes(v: VariantValue) -> Seq<u8> {
    match v {
        VariantValue::Float(b) => le_bytes(b),
        VariantValue::Text(s) => le_bytes(encode_utf8(s).len() as u32) + encode_utf8(s),
        VariantValue::Vec2(x, y) => le_bytes(x) + le_bytes(y),
        VariantValue::Vec3(x, y, z) => le_bytes(x) + le_bytes(y) + le_bytes(z),
        VariantValue::Unsigned(u) => le_bytes(u),
        VariantValue::Signed(i) => le_bytes(i as u32),
        VariantValue::Unknown => Seq::empty(),
    }
}

/// The size of a value's body.
pub open spec fn body_size(v: VariantValue) -> nat {
    match v {
        VariantValue::Float(_) => 4,
        VariantValue::Text(s) => 4 + encode_utf8(s).len(),
        VariantValue::Vec2(_, _) => 8,
        VariantValue::Vec3(_, _, _) => 12,
        VariantValue::Unsigned(_) => 4,
        VariantValue::Signed(_) => 4,
        VariantValue::Unknown => 0,
    }
}

/// The bytes written for the element at position `index`; nothing for an unknown one.
pub open spec fn element_bytes(v: VariantValue, index: int) -> Seq<u8> {
    if v is Unknown {
        Seq::empty()
    } else {
        seq![index as u8, type_tag(v)] + body_bytes(v)
    }
}

/// The bytes written for the first `n` elements of `vs`.
pub open spec fn elements_bytes(vs: Seq<VariantValue>, n: int) -> Seq<u8>
    decreases n,
{
    if n <= 0 {
        Seq::empty()
    } else {
        elements_bytes(vs, n - 1) + element_bytes(vs[n - 1], n - 1)
    }
}

/// How many of the first `n` elements of `vs` are written.
pub open spec fn written_count(vs: Seq<VariantValue>, n: int) -> nat
    decreases n,
{
    if n <= 0 {
        0
    } else {
        written_count(vs, n - 1) + if vs[n - 1] is Unknown {
            0nat
        } else {
            1nat
        }
    }
}

/// The space the first `n` elements of `vs` take: two header bytes and the body of each
/// element that is written.
pub open spec fn written_size(vs: Seq<VariantValue>, n: int) -> nat
    decreases n,
{
    if n <= 0 {
        0
    } else {
        written_size(vs, n - 1) + if vs[n - 1] is Unknown {
            0nat
        } else {
            2 + body_size(vs[n - 1])
        }
    }
}

/// The wire form of a list: the count of written elements, then each of them.
pub open spec fn encode_list(vs: Seq<VariantValue>) -> Seq<u8> {
    seq![written_count(vs, vs.len() as int) as u8] + elements_bytes(vs, vs.len() as int)
}

/// Decodes the body of an element with type byte `tag` that starts at `pos`: the value
/// and the position after it, or `None` where the bytes run out or a string is not UTF-8.
/// An unrecognised type byte gives an unknown value with no body.
pub open spec fn decode_body(data: Seq<u8>, tag: u8, pos: int) -> Option<(VariantValue, int)> {
    if tag == 1 {
        if pos + 4 <= data.len() {
            Some((VariantValue::Float(le_at(data, pos)), pos + 4))
        } else {
            None
        }
    } else if tag == 2 {
        if pos + 4 <= data.len() {
            let end = pos + 4 + le_at(data, pos) as int;
            if end <= data.len() && valid_utf8(data.subrange(pos + 4, end)) {
                Some((VariantValue::Text(decode_utf8(data.subrange(pos + 4, end))), end))
            } else {
                None
            }
        } else {
            None
        }
    } else if tag == 3 {
        if pos + 8 <= data.len() {
            Some((VariantValue::Vec2(le_at(data, pos), le_at(data, pos + 4)), pos + 8))
        } else {
            None
        }
    } else if tag == 4 {
        if pos + 12 <= data.len() {
            Some(
                (
                    VariantValue::Vec3(le_at(data, pos), le_at(data, pos + 4), le_at(data, pos + 8)),
                    pos + 12,
                ),
            )
        } else {
            None
        }
    } else if tag == 5 {
        if pos + 4 <= data.len() {
            Some((VariantValue::Unsigned(le_at(data, pos)), pos + 4))
        } else {
            None
        }
    } else if tag == 9 {
        if pos + 4 <= data.len() {
            Some((VariantValue::Signed(le_at(data, pos) as i32), pos + 4))
        } else {
            None
        }
    } else {
        Some((VariantValue::Unknown, pos))
    }
}

/// Decodes `n` elements starting at `pos`; each is an index byte (ignored), a type byte and
/// a body.
pub open spec fn decode_items(data: Seq<u8>, pos: int, n: nat) -> Option<Seq<VariantValue>>
    decreases n,
{
    if n == 0 {
        Some(Seq::empty())
    } else if pos + 2 > data.len() {
        None
    } else {
        match decode_body(data, data[pos + 1], pos + 2) {
            None => None,
            Some((v, next)) => match decode_items(data, next, (n - 1) as nat) {
                None => None,
                Some(rest) => Some(seq![v] + rest),
            },
        }
    }
}

/// Decodes a list: a count byte, then that many elements. Bytes after them are ignored.
pub open spec fn decode_list(data: Seq<u8>) -> Option<Seq<VariantValue>> {
    if data.len() == 0 {
        None
    } else {
        decode_items(data, 1, data[0] as nat)
    }
}

/// The error of a variant list that runs past its bytes or holds a string that is not UTF-8.
#[derive(Debug, Clone, Copy, PartialEq, Eq, Structural)]
pub enum DecodeError {
    Malformed,
}

/// Relies on std::str::from_utf8: it accepts exactly the well-formed UTF-8 byte strings,
/// and the text it gives is the one those bytes encode.
#[verifier::external_body]
fn utf8_text(b: &[u8]) -> (r: Option<String>)
    ensures
        r is Some <==> valid_utf8(b@),
        r is Some ==> r->0@ == decode_utf8(b@),
{
    match std::str::from_utf8(b) {
        Ok(s) => Some(s.to_string()),
        Err(_) => None,
    }
}

/// Reads the body of an element with type byte `tag` at `pos`.
fn read_body(data: &[u8], tag: u8, pos: usize) -> (r: Option<(Variant, usize)>)
    requires
        pos <= data@.len(),
    ensures
        match decode_body(data@, tag, pos as int) {
            None => r is None,
            Some((v, next)) => r is Some && (r->0).0@ == v && (r->0).1 == next,
        },
{
    let len = data.len();
    if tag == 1 {
        if len >= 4 && pos <= len - 4 {
            Some((Variant::Float(read_u32_le(data, pos)), pos + 4))
        } else {
            None
        }
    } else if tag == 2 {
        if len >= 4 && pos <= len - 4 {
            let n = read_u32_le(data, pos) as usize;
            if n <= len - (pos + 4) {
                let end = pos + 4 + n;
                match utf8_text(vstd::slice::slice_subrange(data, pos + 4, end)) {
                    Some(s) => Some((Variant::String(s), end)),
                    None => None,
                }
            } else {
                None
            }
        } else {
            None
        }
    } else if tag == 3 {
        if len >= 8 && pos <= len - 8 {
            Some((Variant::Vec2(read_u32_le(data, pos), read_u32_le(data, pos + 4)), pos + 8))
        } else {
            None
        }
    } else if tag == 4 {
        if len >= 12 && pos <= len - 12 {
            let x = read_u32_le(data, pos);
            let y = read_u32_le(data, pos + 4);
            let z = read_u32_le(data, pos + 8);
            Some((Variant::Vec3(x, y, z), pos + 12))
        } else {
            None
        }
    } else if tag == 5 {
        if len >= 4 && pos <= len - 4 {
            Some((Variant::Unsigned(read_u32_le(data, pos)), pos + 4))
        } else {
            None
        }
    } else if tag == 9 {
        if len >= 4 && pos <= len - 4 {
            Some((Variant::Signed(#[verifier::truncate] (read_u32_le(data, pos) as i32)), pos + 4))
        } else {
            None
        }
    } else {
        Some((Variant::Unknown, pos))
    }
}

proof fn lemma_body_len(v: VariantValue)
    ensures
        body_bytes(v).len() == body_size(v),
{
}

proof fn lemma_elements_len(vs: Seq<VariantValue>, n: int)
    requires
        n <= vs.len(),
    ensures
        elements_bytes(vs, n).len() == written_size(vs, n),
    decreases n,
{
    if n > 0 {
        lemma_elements_len(vs, n - 1);
        lemma_body_len(vs[n - 1]);
    }
}

proof fn lemma_le_at_of(data: Seq<u8>, p: int, x: u32)
    requires
        0 <= p,
        p + 4 <= data.len(),
        data.subrange(p, p + 4) == le_bytes(x),
    ensures
        le_at(data, p) == x,
{
    lemma_le_round_trip(x);
    assert(data[p] == data.subrange(p, p + 4)[0]);
    assert(data[p + 1] == data.subrange(p, p + 4)[1]);
    assert(data[p + 2] == data.subrange(p, p + 4)[2]);
    assert(data[p + 3] == data.subrange(p, p + 4)[3]);
}

/// Whether `v` can be written and read back: it is not unknown, and a string's byte length
/// fits the four-byte length field.
pub open spec fn round_trips(v: VariantValue) -> bool {
    &&& !(v is Unknown)
    &&& (v matches VariantValue::Text(s) ==> encode_utf8(s).len() <= u32::MAX)
}

proof fn lemma_decode_element(data: Seq<u8>, pos: int, v: VariantValue, idx: int)
    requires
        0 <= pos,
        round_trips(v),
        pos + 2 + body_size(v) <= data.len(),
        data.subrange(pos, pos + 2 + body_size(v)) == element_bytes(v, idx),
    ensures
        data[pos + 1] == type_tag(v),
        decode_body(data, type_tag(v), pos + 2) == Some((v, pos + 2 + body_size(v))),
{
    let e = element_bytes(v, idx);
    lemma_body_len(v);
    assert(data[pos + 1] == e[1]);
    let b = pos + 2;
    assert forall|j: int| 0 <= j < body_size(v) implies data[b + j] == #[trigger] body_bytes(v)[j] by {
        assert(data[b + j] == data.subrange(pos, pos + 2 + body_size(v))[j + 2]);
        assert(e[j + 2] == body_bytes(v)[j]);
    }
    match v {
        VariantValue::Float(x) => {
            assert(data.subrange(b, b + 4) =~= le_bytes(x));
            lemma_le_at_of(data, b, x);
        },
        VariantValue::Unsigned(x) => {
            assert(data.subrange(b, b + 4) =~= le_bytes(x));
            lemma_le_at_of(data, b, x);
        },
        VariantValue::Signed(x) => {
            assert(data.subrange(b, b + 4) =~= le_bytes(x as u32));
            lemma_le_at_of(data, b, x as u32);
            assert((x as u32) as i32 == x) by (bit_vector);
        },
        VariantValue::Vec2(x, y) => {
            let bb = body_bytes(v);
            assert forall|j: int| 0 <= j < 4 implies data[b + j] == le_bytes(x)[j] && data[b + 4 + j]
                == le_bytes(y)[j] by {
                assert(bb[j] == le_bytes(x)[j]);
                assert(bb[j + 4] == le_bytes(y)[j]);
            }
            assert(data.subrange(b, b + 4) =~= le_bytes(x));
            assert(data.subrange(b + 4, b + 8) =~= le_bytes(y));
            lemma_le_at_of(data, b, x);
            lemma_le_at_of(data, b + 4, y);
        },
        VariantValue::Vec3(x, y, z) => {
            let bb = body_bytes(v);
            assert forall|j: int| 0 <= j < 4 implies data[b + j] == le_bytes(x)[j] && data[b + 4 + j]
                == le_bytes(y)[j] && data[b + 8 + j] == le_bytes(z)[j] by {
                assert(bb[j] == le_bytes(x)[j]);
                assert(bb[j + 4] == le_bytes(y)[j]);
                assert(bb[j + 8] == le_bytes(z)[j]);
            }
            assert(data.subrange(b, b + 4) =~= le_bytes(x));
            assert(data.subrange(b + 4, b + 8) =~= le_bytes(y));
            assert(data.subrange(b + 8, b + 12) =~= le_bytes(z));
            lemma_le_at_of(data, b, x);
            lemma_le_at_of(data, b + 4, y);
            lemma_le_at_of(data, b + 8, z);
        },
        VariantValue::Text(t) => {
            let u = encode_utf8(t);
            let bb = body_bytes(v);
            assert forall|j: int| 0 <= j < 4 implies data[b + j] == #[trigger] le_bytes(u.len() as u32)[j] by {
                assert(bb[j] == le_bytes(u.len() as u32)[j]);
            }
            assert forall|j: int| 0 <= j < u.len() implies data[b + 4 + j] == u[j] by {
                assert(bb[j + 4] == u[j]);
            }
            assert(data.subrange(b, b + 4) =~= le_bytes(u.len() as u32));
            lemma_le_at_of(data, b, u.len() as u32);
            assert(data.subrange(b + 4, b + 4 + u.len()) =~= u);
            encode_utf8_valid_utf8(t);
            encode_utf8_decode_utf8(t);
        },
        VariantValue::Unknown => {},
    }
}

proof fn lemma_elements_prefix(vs: Seq<VariantValue>, k: int, n: int)
    requires
        0 <= k <= n <= vs.len(),
    ensures
        elements_bytes(vs, k).len() <= elements_bytes(vs, n).len(),
        elements_bytes(vs, n).subrange(0, elements_bytes(vs, k).len() as int) == elements_bytes(vs, k),
    decreases n,
{
    if k < n {
        lemma_elements_prefix(vs, k, n - 1);
        let a = elements_bytes(vs, n - 1);
        let c = elements_bytes(vs, k);
        assert((a + element_bytes(vs[n - 1], n - 1)).subrange(0, c.len() as int) =~= a.subrange(0, c.len() as int));
    } else {
        assert(elements_bytes(vs, n).subrange(0, elements_bytes(vs, n).len() as int) =~= elements_bytes(vs, n));
    }
}

proof fn lemma_decode_from(vs: Seq<VariantValue>, k: int)
    requires
        0 <= k <= vs.len(),
        vs.len() <= 255,
        forall|i: int| 0 <= i < vs.len() ==> round_trips(#[trigger] vs[i]),
    ensures
        decode_items(encode_list(vs), 1 + elements_bytes(vs, k).len() as int, (vs.len() - k) as nat)
            == Some(vs.subrange(k, vs.len() as int)),
    decreases vs.len() - k,
{
    let data = encode_list(vs);
    let n = vs.len() as int;
    if k == n {
        assert(vs.subrange(k, n) =~= Seq::<VariantValue>::empty());
    } else {
        let pos = 1 + elements_bytes(vs, k).len() as int;
        let v = vs[k];
        lemma_body_len(v);
        lemma_elements_prefix(vs, k + 1, n);
        lemma_elements_len(vs, k + 1);
        let whole = elements_bytes(vs, n);
        let upto = elements_bytes(vs, k + 1);
        assert(upto == elements_bytes(vs, k) + element_bytes(v, k));
        assert(data.subrange(pos, pos + 2 + body_size(v)) =~= element_bytes(v, k)) by {
            assert forall|j: int| 0 <= j < 2 + body_size(v) implies data.subrange(pos, pos + 2 + body_size(v))[j] == element_bytes(v, k)[j] by {
                assert(data[pos + j] == whole[pos - 1 + j]);
                assert(whole[pos - 1 + j] == whole.subrange(0, upto.len() as int)[pos - 1 + j]);
                assert(upto[pos - 1 + j] == element_bytes(v, k)[j]);
            }
        }
        lemma_decode_element(data, pos, v, k);
        lemma_decode_from(vs, k + 1);
        assert(seq![v] + vs.subrange(k + 1, n) =~= vs.subrange(k, n));
    }
}

proof fn lemma_count_all(vs: Seq<VariantValue>, n: int)
    requires
        0 <= n <= vs.len(),
        forall|i: int| 0 <= i < vs.len() ==> round_trips(#[trigger] vs[i]),
    ensures
        written_count(vs, n) == n,
    decreases n,
{
    if n > 0 {
        lemma_count_all(vs, n - 1);
    }
}

/// Reading back the wire form of a list gives the list, where no element is unknown, the
/// list has at most 255 elements (its count is one byte), and each string's byte length fits
/// its four-byte length field.
pub proof fn lemma_round_trip(vs: Seq<VariantValue>)
    requires
        vs.len() <= 255,
        forall|i: int| 0 <= i < vs.len() ==> round_trips(#[trigger] vs[i]),
    ensures
        decode_list(encode_list(vs)) == Some(vs),
{
    lemma_count_all(vs, vs.len() as int);
    lemma_decode_from(vs, 0);
    assert(vs.subrange(0, vs.len() as int) =~= vs);
}

/// The text of a value: a string as it is, an integer in decimal, a float by the decimal
/// value of its bit pattern, a vector as its components joined by `, `.
pub open spec fn text_of(v: VariantValue) -> Seq<char> {
    match v {
        VariantValue::Float(b) => decimal(b as int),
        VariantValue::Text(s) => s,
        VariantValue::Vec2(x, y) => decimal(x as int) + ", "@ + decimal(y as int),
        VariantValue::Vec3(x, y, z) => decimal(x as int) + ", "@ + decimal(y as int) + ", "@
            + decimal(z as int),
        VariantValue::Unsigned(u) => decimal(u as int),
        VariantValue::Signed(i) => decimal(i as int),
        VariantValue::Unknown => "Unknown"@,
    }
}

/// The value of a signed integer variant; 0 for any other.
pub open spec fn int32_of(v: VariantValue) -> i32 {
    match v {
        VariantValue::Signed(i) => i,
        _ => 0,
    }
}

impl Variant {
    /// The text of this variant.
    pub fn as_string(&self) -> (r: String)
        ensures
            r@ == text_of(self@),
    {
        match self {
            Variant::Float(b) => decimal_text(*b as i64),
            Variant::String(s) => s.clone(),
            Variant::Vec2(x, y) => {
                let t = decimal_text(*x as i64).concat(", ");
                t.concat(decimal_text(*y as i64).as_str())
            },
            Variant::Vec3(x, y, z) => {
                let t = decimal_text(*x as i64).concat(", ");
                let t = t.concat(decimal_text(*y as i64).as_str()).concat(", ");
                t.concat(decimal_text(*z as i64).as_str())
            },
            Variant::Unsigned(u) => decimal_text(*u as i64),
            Variant::Signed(i) => decimal_text(*i as i64),
            Variant::Unknown => String::from_str("Unknown"),
        }
    }

    /// The value of a signed integer variant; 0 for any other.
    pub fn as_int32(&self) -> (r: i32)
        ensures
            r == int32_of(self@),
    {
        match self {
            Variant::Signed(i) => *i,
            _ => 0,
        }
    }

    /// The bit patterns of a two-component vector; zeros for any other variant.
    pub fn as_vec2(&self) -> (r: (u32, u32))
        ensures
            r == match self@ {
                VariantValue::Vec2(x, y) => (x, y),
                _ => (0u32, 0u32),
            },
    {
        match self {
            Variant::Vec2(x, y) => (*x, *y),
            _ => (0, 0),
        }
    }

    /// The value of an unsigned integer variant; 0 for any other.
    pub fn as_uint32(&self) -> (r: u32)
        ensures
            r == match self@ {
                VariantValue::Unsigned(u) => u,
                _ => 0,
            },
    {
        match self {
            Variant::Unsigned(u) => *u,
            _ => 0,
        }
    }
}

impl Variant {
    /// Appends the element at position `index`: its index byte, type byte and body.
    fn write_to(&self, index: usize, out: &mut Vec<u8>)
        ensures
            final(out)@ == old(out)@ + element_bytes(self@, index as int),
    {
        match self {
            Variant::Unknown => {
                assert(final(out)@ =~= old(out)@ + element_bytes(self@, index as int));
                return;
            },
            _ => {},
        }
        out.push(index as u8);
        let tag: u8 = match self {
            Variant::Float(_) => 1,
            Variant::String(_) => 2,
            Variant::Vec2(_, _) => 3,
            Variant::Vec3(_, _, _) => 4,
            Variant::Unsigned(_) => 5,
            Variant::Signed(_) => 9,
            Variant::Unknown => 0,
        };
        out.push(tag);
        let ghost head = out@;
        match self {
            Variant::Float(b) => push_u32_le(out, *b),
            Variant::String(s) => {
                let b = s.as_str().as_bytes();
                push_u32_le(out, b.len() as u32);
                push_bytes(out, b);
            },
            Variant::Vec2(x, y) => {
                push_u32_le(out, *x);
                push_u32_le(out, *y);
            },
            Variant::Vec3(x, y, z) => {
                push_u32_le(out, *x);
                push_u32_le(out, *y);
                push_u32_le(out, *z);
            },
            Variant::Unsigned(u) => push_u32_le(out, *u),
            Variant::Signed(i) => push_u32_le(out, *i as u32),
            Variant::Unknown => {},
        }
        assert(out@ =~= head + body_bytes(self@));
        assert(out@ =~= old(out)@ + element_bytes(self@, index as int));
    }
}

impl VariantList {
    /// Wraps a sequence of variants.
    pub fn new(variants: Vec<Variant>) -> (r: VariantList)
        ensures
            r@ == variants@.map_values(|v: Variant| v@),
    {
        VariantList { variants }
    }

    /// The element at `index`, if there is one.
    pub fn get(&self, index: usize) -> (r: Option<&Variant>)
        ensures
            index < self@.len() ==> r is Some && r->0@ == self@[index as int],
            index >= self@.len() ==> r is None,
    {
        if index < self.variants.len() {
            Some(&self.variants[index])
        } else {
            None
        }
    }

    /// Replaces the element at `index`; a list without such an element is left as it is.
    pub fn set(&mut self, index: usize, v: Variant)
        ensures
            final(self)@ == if index < old(self)@.len() {
                old(self)@.update(index as int, v@)
            } else {
                old(self)@
            },
    {
        if index < self.variants.len() {
            self.variants.set(index, v);
            assert(self@ =~= old(self)@.update(index as int, v@));
        }
    }

    /// The number of elements.
    pub fn len(&self) -> (r: usize)
        ensures
            r == self@.len(),
    {
        self.variants.len()
    }

    /// Reads a list from its wire form. Fails, rather than reading past the end, where the
    /// bytes run out or a string is not UTF-8.
    pub fn deserialize(data: &[u8]) -> (r: Result<VariantList, DecodeError>)
        ensures
            match decode_list(data@) {
                Some(vs) => r is Ok && r->Ok_0@ == vs,
                None => r is Err,
            },
    {
        if data.len() == 0 {
            return Err(DecodeError::Malformed);
        }
        let size = data[0];
        let mut variants: Vec<Variant> = Vec::new();
        let mut pos: usize = 1;
        let mut i: u8 = 0;
        while i < size
            invariant
                1 <= pos <= data@.len(),
                i <= size,
                size == data@[0],
                decode_list(data@) == match decode_items(data@, pos as int, (size - i) as nat) {
                    None => None,
                    Some(rest) => Some(variants@.map_values(|v: Variant| v@) + rest),
                },
            decreases size - i,
        {
            if data.len() < 2 || pos > data.len() - 2 {
                return Err(DecodeError::Malformed);
            }
            let tag = data[pos + 1];
            match read_body(data, tag, pos + 2) {
                None => {
                    return Err(DecodeError::Malformed);
                },
                Some((v, next)) => {
                    let ghost before = variants@.map_values(|v: Variant| v@);
                    let ghost val = v@;
                    variants.push(v);
                    assert(variants@.map_values(|v: Variant| v@) =~= before.push(val));
                    proof {
                        match decode_items(data@, next as int, (size - i - 1) as nat) {
                            None => {},
                            Some(rest) => {
                                assert(before + (seq![val] + rest) =~= before.push(val) + rest);
                            },
                        }
                    }
                    pos = next;
                    i = i + 1;
                },
            }
        }
        assert(variants@.map_values(|v: Variant| v@) + Seq::<VariantValue>::empty() =~= variants@.map_values(|v: Variant| v@));
        Ok(VariantList { variants })
    }

    /// The wire form of the list. Unknown elements are left out and not counted; every
    /// other element carries its position in the list as its index byte.
    pub fn serialize(&self) -> (r: Vec<u8>)
        ensures
            r@ == encode_list(self@),
            r@.len() == 1 + written_size(self@, self@.len() as int),
    {
        let n = self.variants.len();
        let mut count: usize = 0;
        let mut i: usize = 0;
        while i < n
            invariant
                n == self@.len(),
                i <= n,
                count == written_count(self@, i as int),
                count <= i,
            decreases n - i,
        {
            match &self.variants[i] {
                Variant::Unknown => {},
                _ => {
                    count = count + 1;
                },
            }
            i = i + 1;
        }
        let mut out: Vec<u8> = Vec::new();
        out.push(count as u8);
        let mut idx: usize = 0;
        while idx < n
            invariant
                n == self@.len(),
                idx <= n,
                count == written_count(self@, n as int),
                out@ == seq![count as u8] + elements_bytes(self@, idx as int),
            decreases n - idx,
        {
            self.variants[idx].write_to(idx, &mut out);
            idx = idx + 1;
            assert(out@ =~= seq![count as u8] + elements_bytes(self@, idx as int));
        }
        proof {
            lemma_elements_len(self@, n as int);
        }
        out
    }
}

} // verus!
