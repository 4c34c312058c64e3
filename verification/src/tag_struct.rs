//! The tag-struct codec: a self-describing, type-tagged serialization format
//! carrying typed values inside command payloads.
//!
//! Each value is one printable-ASCII tag byte followed by a type-specific
//! body; multi-byte integers are big-endian. A tag-struct is an ordered
//! sequence of such values, removed from the front and appended at the back.

use vstd::prelude::*;
use vstd::utf8::*;

use crate::channel::{ChannelPosition, CHANNELS_MAX};
use crate::error::Error;
use crate::sample::SampleFormat;
use crate::wire::{be32, be64, read_be_u32, read_be_u64, write_be_u32, write_be_u64};

verus! {

/// Tag byte of a true boolean.
pub const TAG_TRUE: u8 = 0x31; // '1'

/// Tag byte of a false boolean.
pub const TAG_FALSE: u8 = 0x30; // '0'

/// Tag byte of an unsigned 8-bit integer.
pub const TAG_U8: u8 = 0x42; // 'B'

/// Tag byte of an unsigned 32-bit integer.
pub const TAG_U32: u8 = 0x4C; // 'L'

/// Tag byte of an unsigned 64-bit integer.
pub const TAG_U64: u8 = 0x52; // 'R'

/// Tag byte of a signed 64-bit integer.
pub const TAG_S64: u8 = 0x72; // 'r'

/// Tag byte of a microseconds count.
pub const TAG_USEC: u8 = 0x55; // 'U'

/// Tag byte of a NUL-terminated string.
pub const TAG_STRING: u8 = 0x74; // 't'

/// Tag byte of a null string.
pub const TAG_STRING_NULL: u8 = 0x4E; // 'N'

/// Tag byte of a length-prefixed byte vector.
pub const TAG_ARBITRARY: u8 = 0x78; // 'x'

/// Tag byte of a sample specification.
pub const TAG_SAMPLE_SPEC: u8 = 0x61; // 'a'

/// Tag byte of a channel map.
pub const TAG_CHANNEL_MAP: u8 = 0x6D; // 'm'

/// Tag byte of a per-channel volume vector.
pub const TAG_CVOLUME: u8 = 0x76; // 'v'

/// Tag byte of a single volume.
pub const TAG_VOLUME: u8 = 0x56; // 'V'

/// Tag byte of a timeval (seconds and microseconds).
pub const TAG_TIMEVAL: u8 = 0x54; // 'T'

/// Format, channel count, and rate of a stream's audio data.
#[derive(Debug, Clone, Copy, PartialEq, Eq, Structural)]
pub struct SampleSpec {
    pub format: SampleFormat,
    pub channels: u8,
    pub rate: u32,
}

/// Speaker positions of a stream's channels, in channel order.
#[derive(Debug, PartialEq)]
pub struct ChannelMap {
    pub positions: Vec<ChannelPosition>,
}

impl View for ChannelMap {
    type V = Seq<ChannelPosition>;

    open spec fn view(&self) -> Seq<ChannelPosition> {
        self.positions@
    }
}

/// One volume per channel, in channel order.
#[derive(Debug, PartialEq)]
pub struct ChannelVolume {
    pub volumes: Vec<u32>,
}

impl View for ChannelVolume {
    type V = Seq<u32>;

    open spec fn view(&self) -> Seq<u32> {
        self.volumes@
    }
}

/// One typed element of a tag-struct.
#[derive(Debug, PartialEq)]
pub enum Value {
    Bool(bool),
    U8(u8),
    U32(u32),
    U64(u64),
    S64(i64),
    Microseconds(u64),
    /// A nullable NUL-terminated string.
    String(Option<std::string::String>),
    /// A length-prefixed byte vector.
    Arbitrary(Vec<u8>),
    SampleSpec(SampleSpec),
    ChannelMap(ChannelMap),
    ChannelVolume(ChannelVolume),
    Volume(u32),
    Timeval(u32, u32),
}

/// The mathematical shape of a `Value`: the same sum, over sequences.
pub enum ValueModel {
    Bool(bool),
    U8(u8),
    U32(u32),
    U64(u64),
    S64(i64),
    Microseconds(u64),
    String(Option<Seq<char>>),
    Arbitrary(Seq<u8>),
    SampleSpec(SampleSpec),
    ChannelMap(Seq<ChannelPosition>),
    ChannelVolume(Seq<u32>),
    Volume(u32),
    Timeval(u32, u32),
}

impl View for Value {
    type V = ValueModel;

    open spec fn view(&self) -> ValueModel {
        match self {
            Value::Bool(b) => ValueModel::Bool(*b),
            Value::U8(x) => ValueModel::U8(*x),
            Value::U32(x) => ValueModel::U32(*x),
            Value::U64(x) => ValueModel::U64(*x),
            Value::S64(x) => ValueModel::S64(*x),
            Value::Microseconds(x) => ValueModel::Microseconds(*x),
            Value::String(os) => ValueModel::String(
                match os {
                    Some(s) => Some(s@),
                    None => None,
                },
            ),
            Value::Arbitrary(b) => ValueModel::Arbitrary(b@),
            Value::SampleSpec(sp) => ValueModel::SampleSpec(*sp),
            Value::ChannelMap(m) => ValueModel::ChannelMap(m.positions@),
            Value::ChannelVolume(v) => ValueModel::ChannelVolume(v.volumes@),
            Value::Volume(x) => ValueModel::Volume(*x),
            Value::Timeval(sec, usec) => ValueModel::Timeval(*sec, *usec),
        }
    }
}

/// The characters before the first NUL; the whole sequence when there is none.
pub open spec fn chars_before_nul(s: Seq<char>) -> Seq<char>
    decreases s.len(),
{
    if s.len() == 0 {
        Seq::empty()
    } else if s[0] == '\0' {
        Seq::empty()
    } else {
        seq![s[0]] + chars_before_nul(s.drop_first())
    }
}

/// A value the codec can reproduce exactly: strings carry no NUL and channel
/// sequences fit the protocol's channel limit.
pub open spec fn value_wf(v: ValueModel) -> bool {
    match v {
        ValueModel::String(Some(s)) => !s.contains('\0'),
        ValueModel::Arbitrary(b) => b.len() <= u32::MAX,
        ValueModel::ChannelMap(ps) => ps.len() <= CHANNELS_MAX,
        ValueModel::ChannelVolume(vs) => vs.len() <= CHANNELS_MAX,
        _ => true,
    }
}

/// A value the encoder accepts at all: only an over-long byte vector is
/// refused outright; strings and channel sequences are normalized instead.
pub open spec fn value_encodable(v: ValueModel) -> bool {
    match v {
        ValueModel::Arbitrary(b) => b.len() <= u32::MAX,
        _ => true,
    }
}

/// What the encoder makes of a value: strings are truncated at their first
/// NUL and channel sequences are clamped to the channel limit.
pub open spec fn value_norm(v: ValueModel) -> ValueModel {
    match v {
        ValueModel::String(Some(s)) => ValueModel::String(Some(chars_before_nul(s))),
        ValueModel::ChannelMap(ps) => ValueModel::ChannelMap(
            if ps.len() <= CHANNELS_MAX {
                ps
            } else {
                ps.take(CHANNELS_MAX as int)
            },
        ),
        ValueModel::ChannelVolume(vs) => ValueModel::ChannelVolume(
            if vs.len() <= CHANNELS_MAX {
                vs
            } else {
                vs.take(CHANNELS_MAX as int)
            },
        ),
        _ => v,
    }
}

/// The position codes of a channel map body, one byte per channel.
pub open spec fn positions_bytes(ps: Seq<ChannelPosition>) -> Seq<u8> {
    ps.map_values(|p: ChannelPosition| p.code())
}

/// The volume words of a channel volume body, four bytes per channel.
pub open spec fn volumes_bytes(vs: Seq<u32>) -> Seq<u8>
    decreases vs.len(),
{
    if vs.len() == 0 {
        Seq::empty()
    } else {
        be32(vs[0]) + volumes_bytes(vs.drop_first())
    }
}

/// The tag byte that opens the encoding of a value.
pub open spec fn value_tag(v: ValueModel) -> u8 {
    match v {
        ValueModel::Bool(b) => if b {
            TAG_TRUE
        } else {
            TAG_FALSE
        },
        ValueModel::U8(_) => TAG_U8,
        ValueModel::U32(_) => TAG_U32,
        ValueModel::U64(_) => TAG_U64,
        ValueModel::S64(_) => TAG_S64,
        ValueModel::Microseconds(_) => TAG_USEC,
        ValueModel::String(Some(_)) => TAG_STRING,
        ValueModel::String(None) => TAG_STRING_NULL,
        ValueModel::Arbitrary(_) => TAG_ARBITRARY,
        ValueModel::SampleSpec(_) => TAG_SAMPLE_SPEC,
        ValueModel::ChannelMap(_) => TAG_CHANNEL_MAP,
        ValueModel::ChannelVolume(_) => TAG_CVOLUME,
        ValueModel::Volume(_) => TAG_VOLUME,
        ValueModel::Timeval(_, _) => TAG_TIMEVAL,
    }
}

/// The canonical encoding of one well-formed value.
pub open spec fn value_bytes(v: ValueModel) -> Seq<u8> {
    match v {
        ValueModel::Bool(_) => seq![value_tag(v)],
        ValueModel::U8(x) => seq![TAG_U8, x],
        ValueModel::U32(x) => seq![TAG_U32] + be32(x),
        ValueModel::U64(x) => seq![TAG_U64] + be64(x),
        ValueModel::S64(x) => seq![TAG_S64] + be64(x as u64),
        ValueModel::Microseconds(x) => seq![TAG_USEC] + be64(x),
        ValueModel::String(Some(s)) => seq![TAG_STRING] + encode_utf8(s) + seq![0u8],
        ValueModel::String(None) => seq![TAG_STRING_NULL],
        ValueModel::Arbitrary(b) => seq![TAG_ARBITRARY] + be32(b.len() as u32) + b,
        ValueModel::SampleSpec(sp) => seq![TAG_SAMPLE_SPEC, sp.format.code(), sp.channels] + be32(
            sp.rate,
        ),
        ValueModel::ChannelMap(ps) => seq![TAG_CHANNEL_MAP, ps.len() as u8] + positions_bytes(ps),
        ValueModel::ChannelVolume(vs) => seq![TAG_CVOLUME, vs.len() as u8] + volumes_bytes(vs),
        ValueModel::Volume(x) => seq![TAG_VOLUME] + be32(x),
        ValueModel::Timeval(sec, usec) => seq![TAG_TIMEVAL] + be32(sec) + be32(usec),
    }
}

/// The concatenated encodings of a value sequence, front first.
pub open spec fn values_bytes(vs: Seq<ValueModel>) -> Seq<u8>
    decreases vs.len(),
{
    if vs.len() == 0 {
        Seq::empty()
    } else {
        value_bytes(vs[0]) + values_bytes(vs.drop_first())
    }
}

/// Every value of the sequence is well-formed.
pub open spec fn values_wf(vs: Seq<ValueModel>) -> bool {
    forall|i: int| 0 <= i < vs.len() ==> value_wf(#[trigger] vs[i])
}

/// The sequence as the encoder normalizes it, value by value.
pub open spec fn norm_values(vs: Seq<ValueModel>) -> Seq<ValueModel> {
    vs.map_values(|v: ValueModel| value_norm(v))
}

/// The models of a sequence of values.
pub open spec fn models_of(values: Seq<Value>) -> Seq<ValueModel> {
    values.map_values(|v: Value| v@)
}

proof fn lemma_seq_contains_concat<T>(a: Seq<T>, b: Seq<T>, x: T)
    ensures
        (a + b).contains(x) <==> a.contains(x) || b.contains(x),
{
    if (a + b).contains(x) {
        let i = choose|i: int| 0 <= i < (a + b).len() && (a + b)[i] == x;
        if i < a.len() {
            assert(a[i] == x);
        } else {
            assert(b[i - a.len()] == x);
        }
    }
    if a.contains(x) {
        let i = choose|i: int| 0 <= i < a.len() && a[i] == x;
        assert((a + b)[i] == x);
    }
    if b.contains(x) {
        let i = choose|i: int| 0 <= i < b.len() && b[i] == x;
        assert((a + b)[a.len() + i] == x);
    }
}

/// A scalar's UTF-8 encoding contains a zero byte exactly when the scalar is
/// zero itself: every byte of a multi-byte encoding has its top bit set.
proof fn lemma_encode_scalar_nul(c: u32)
    requires
        is_scalar(c),
    ensures
        encode_scalar(c).contains(0) <==> c == 0,
{
    if has_width_1_encoding(c) {
        assert(((c & 0x7F) as u8 == 0) <==> c == 0) by (bit_vector)
            requires
                c <= 0x7F,
        ;
        assert(encode_scalar(c) == seq![leading_byte_width_1(c)]);
        if c == 0 {
            assert(encode_scalar(c)[0] == 0);
        }
        if encode_scalar(c).contains(0) {
            let i = choose|i: int| 0 <= i < encode_scalar(c).len() && encode_scalar(c)[i] == 0;
            assert(i == 0);
        }
    } else {
        assert(c != 0);
        assert({
            &&& (0xC0 | ((c >> 6) & 0x1F) as u8) != 0
            &&& (0xE0 | ((c >> 12) & 0x0F) as u8) != 0
            &&& (0xF0 | ((c >> 18) & 0x7) as u8) != 0
            &&& (0x80 | (c & 0x3F) as u8) != 0
            &&& (0x80 | ((c >> 6) & 0x3F) as u8) != 0
            &&& (0x80 | ((c >> 12) & 0x3F) as u8) != 0
        }) by (bit_vector);
        if encode_scalar(c).contains(0) {
            let i = choose|i: int| 0 <= i < encode_scalar(c).len() && encode_scalar(c)[i] == 0;
            assert(false);
        }
    }
}

/// A character sequence's UTF-8 encoding contains a zero byte exactly when
/// the sequence contains the NUL character.
pub proof fn lemma_encode_utf8_nul(s: Seq<char>)
    ensures
        encode_utf8(s).contains(0) <==> s.contains('\0'),
    decreases s.len(),
{
    if s.len() == 0 {
        if s.contains('\0') {
            let i = choose|i: int| 0 <= i < s.len() && s[i] == '\0';
        }
        if encode_utf8(s).contains(0) {
            let i = choose|i: int| 0 <= i < encode_utf8(s).len() && encode_utf8(s)[i] == 0;
        }
    } else {
        let c = s[0];
        char_is_scalar(c);
        lemma_encode_scalar_nul(c as u32);
        lemma_encode_utf8_nul(s.drop_first());
        lemma_seq_contains_concat(encode_scalar(c as u32), encode_utf8(s.drop_first()), 0);
        assert(c as u32 == 0 <==> c == '\0') by {
            assert('\0' as u32 == 0);
            if c as u32 == 0 {
                char_u32_cast(c, c as u32);
                char_u32_cast('\0', 0);
            }
        }
        assert(s.contains('\0') <==> (c == '\0' || s.drop_first().contains('\0'))) by {
            if s.contains('\0') {
                let i = choose|i: int| 0 <= i < s.len() && s[i] == '\0';
                if i > 0 {
                    assert(s.drop_first()[i - 1] == '\0');
                }
            }
            if s.drop_first().contains('\0') {
                let i = choose|i: int| 0 <= i < s.drop_first().len() && s.drop_first()[i] == '\0';
                assert(s[i + 1] == '\0');
            }
        }
    }
}

/// UTF-8 encoding distributes over concatenation.
pub proof fn lemma_encode_utf8_concat(a: Seq<char>, b: Seq<char>)
    ensures
        encode_utf8(a + b) == encode_utf8(a) + encode_utf8(b),
    decreases a.len(),
{
    if a.len() == 0 {
        assert(a + b =~= b);
        assert(encode_utf8(a) + encode_utf8(b) =~= encode_utf8(b));
    } else {
        assert((a + b)[0] == a[0]);
        assert((a + b).drop_first() =~= a.drop_first() + b);
        lemma_encode_utf8_concat(a.drop_first(), b);
        assert(encode_scalar(a[0] as u32) + (encode_utf8(a.drop_first()) + encode_utf8(b)) =~= (
        encode_scalar(a[0] as u32) + encode_utf8(a.drop_first())) + encode_utf8(b));
    }
}

/// Where the truncation cut falls: the prefix before the first NUL.
pub proof fn lemma_chars_before_nul(s: Seq<char>)
    ensures
        chars_before_nul(s).len() <= s.len(),
        chars_before_nul(s) == s.take(chars_before_nul(s).len() as int),
        !chars_before_nul(s).contains('\0'),
        chars_before_nul(s).len() < s.len() ==> s[chars_before_nul(s).len() as int] == '\0',
        !s.contains('\0') ==> chars_before_nul(s) == s,
    decreases s.len(),
{
    if s.len() == 0 {
        if s.contains('\0') {
            let i = choose|i: int| 0 <= i < s.len() && s[i] == '\0';
        }
        assert(chars_before_nul(s) =~= s.take(0));
    } else if s[0] == '\0' {
        assert(chars_before_nul(s) =~= s.take(0));
        assert(s.contains('\0'));
        if chars_before_nul(s).contains('\0') {
            let i = choose|i: int|
                0 <= i < chars_before_nul(s).len() && chars_before_nul(s)[i] == '\0';
        }
    } else {
        lemma_chars_before_nul(s.drop_first());
        let t = chars_before_nul(s.drop_first());
        let r = chars_before_nul(s);
        assert(r == seq![s[0]] + t);
        assert(r =~= s.take(r.len() as int)) by {
            assert(t =~= s.drop_first().take(t.len() as int));
        }
        assert(!r.contains('\0')) by {
            lemma_seq_contains_concat(seq![s[0]], t, '\0');
            if seq![s[0]].contains('\0') {
                let i = choose|i: int| 0 <= i < 1 && seq![s[0]][i] == '\0';
            }
        }
        if r.len() < s.len() {
            assert(s[r.len() as int] == s.drop_first()[t.len() as int]);
        }
        if !s.contains('\0') {
            assert(!s.drop_first().contains('\0')) by {
                if s.drop_first().contains('\0') {
                    let i = choose|i: int|
                        0 <= i < s.drop_first().len() && s.drop_first()[i] == '\0';
                    assert(s[i + 1] == '\0');
                }
            }
            assert(r =~= s);
        }
    }
}

/// Normalizing an encodable value yields a well-formed value, and
/// normalizing is idempotent.
pub proof fn lemma_value_norm(v: ValueModel)
    ensures
        value_encodable(v) ==> value_wf(value_norm(v)),
        value_wf(v) ==> value_norm(v) == v,
        value_norm(value_norm(v)) == value_norm(v),
{
    match v {
        ValueModel::String(Some(s)) => {
            lemma_chars_before_nul(s);
            let t = chars_before_nul(s);
            lemma_chars_before_nul(t);
        },
        _ => {},
    }
}

/// Every encoding is non-empty and opens with the value's tag byte.
pub proof fn lemma_value_bytes_first(v: ValueModel)
    ensures
        value_bytes(v).len() >= 1,
        value_bytes(v)[0] == value_tag(v),
{
}

/// Encoding one more value appends its bytes.
pub proof fn lemma_values_bytes_push(vs: Seq<ValueModel>, v: ValueModel)
    ensures
        values_bytes(vs.push(v)) == values_bytes(vs) + value_bytes(v),
    decreases vs.len(),
{
    if vs.len() == 0 {
        assert(vs.push(v)[0] == v);
        assert(vs.push(v).drop_first() =~= vs);
        assert(values_bytes(vs.push(v)) =~= values_bytes(vs) + value_bytes(v));
    } else {
        assert(vs.push(v)[0] == vs[0]);
        assert(vs.push(v).drop_first() =~= vs.drop_first().push(v));
        lemma_values_bytes_push(vs.drop_first(), v);
        assert(value_bytes(vs[0]) + (values_bytes(vs.drop_first()) + value_bytes(v)) =~= (
        value_bytes(vs[0]) + values_bytes(vs.drop_first())) + value_bytes(v));
    }
}

/// An empty byte sequence encodes only the empty value sequence.
pub proof fn lemma_values_bytes_empty(vs: Seq<ValueModel>)
    ensures
        values_bytes(vs).len() == 0 ==> vs.len() == 0,
{
    if vs.len() > 0 {
        lemma_value_bytes_first(vs[0]);
    }
}

/// Index of the first zero byte at or after `from`, or the length when none.
fn find_nul(bytes: &[u8], from: usize) -> (k: usize)
    requires
        from <= bytes@.len(),
    ensures
        from <= k <= bytes@.len(),
        forall|j: int| from <= j < k ==> bytes@[j] != 0,
        k < bytes@.len() ==> bytes@[k as int] == 0,
{
    let n = bytes.len();
    let mut i = from;
    while i < n
        invariant
            from <= i <= n,
            n == bytes@.len(),
            forall|j: int| from <= j < i ==> bytes@[j] != 0,
        decreases n - i,
    {
        if *vstd::slice::slice_index_get(bytes, i) == 0 {
            return i;
        }
        i += 1;
    }
    i
}

/// Relies on `String::from_utf8`: it succeeds exactly on valid UTF-8 input
/// and returns the string those bytes encode.
#[verifier::external_body]
fn bytes_to_string(bytes: Vec<u8>) -> (r: Option<std::string::String>)
    ensures
        r matches Some(s) ==> encode_utf8(s@) == bytes@,
        valid_utf8(bytes@) ==> r is Some,
{
    std::string::String::from_utf8(bytes).ok()
}

/// The string up to, and not holding, its first NUL character.
pub fn truncate_to_before_first_null(s: &str) -> (r: std::string::String)
    ensures
        r@ == chars_before_nul(s@),
{
    let bytes = s.as_bytes();
    proof {
        lemma_chars_before_nul(s@);
        let cb = chars_before_nul(s@);
        let k0 = encode_utf8(cb).len() as int;
        assert(s@ =~= cb + s@.skip(cb.len() as int));
        lemma_encode_utf8_concat(cb, s@.skip(cb.len() as int));
        lemma_encode_utf8_nul(cb);
        if cb.len() < s@.len() {
            let rest = s@.skip(cb.len() as int);
            assert(rest[0] == '\0');
            assert('\0' as u32 == 0);
            assert((0u32 & 0x7F) as u8 == 0) by (bit_vector);
            assert(encode_scalar(0) =~= seq![0u8]);
            assert(encode_utf8(rest) == encode_scalar(rest[0] as u32) + encode_utf8(
                rest.drop_first()));
            assert(bytes@[k0] == 0);
        }
        assert forall|j: int| 0 <= j < k0 implies bytes@[j] != 0 by {
            assert(bytes@[j] == encode_utf8(cb)[j]);
            if bytes@[j] == 0 {
                assert(encode_utf8(cb).contains(0));
            }
        }
    }
    let k = find_nul(bytes, 0);
    proof {
        let cb = chars_before_nul(s@);
        let k0 = encode_utf8(cb).len() as int;
        if k < k0 {
            assert(bytes@[k as int] == 0);
        }
        if k > k0 {
            assert(bytes@[k0] != 0);
        }
        assert(k == k0);
    }
    let content = vstd::slice::slice_subrange(bytes, 0, k);
    let owned = vstd::slice::slice_to_vec(content);
    proof {
        let cb = chars_before_nul(s@);
        assert(owned@ =~= encode_utf8(cb));
        encode_utf8_valid_utf8(cb);
    }
    match bytes_to_string(owned) {
        Some(r) => {
            proof {
                let cb = chars_before_nul(s@);
                encode_utf8_decode_utf8(r@);
                encode_utf8_decode_utf8(cb);
            }
            r
        },
        None => {
            proof {
                assert(false);
            }
            std::string::String::new()
        },
    }
}

/// Appending a volume appends its four bytes.
pub proof fn lemma_volumes_bytes_push(vs: Seq<u32>, v: u32)
    ensures
        volumes_bytes(vs.push(v)) == volumes_bytes(vs) + be32(v),
    decreases vs.len(),
{
    if vs.len() == 0 {
        assert(vs.push(v)[0] == v);
        assert(vs.push(v).drop_first() =~= vs);
        assert(volumes_bytes(vs.push(v)) =~= volumes_bytes(vs) + be32(v));
    } else {
        assert(vs.push(v)[0] == vs[0]);
        assert(vs.push(v).drop_first() =~= vs.drop_first().push(v));
        lemma_volumes_bytes_push(vs.drop_first(), v);
        assert(be32(vs[0]) + (volumes_bytes(vs.drop_first()) + be32(v)) =~= (be32(vs[0])
            + volumes_bytes(vs.drop_first())) + be32(v));
    }
}

impl Value {
    /// Appends this value's canonical encoding, after normalizing it: a
    /// string is truncated at its first NUL and a channel sequence is
    /// clamped to the channel limit. Only a byte vector longer than a
    /// 32-bit length can carry is refused, and then nothing is written.
    pub fn write_to(&self, out: &mut Vec<u8>) -> (r: Result<(), Error>)
        ensures
            r matches Ok(()) ==> final(out)@ == old(out)@ + value_bytes(value_norm(self@))
                && value_wf(value_norm(self@)),
            r is Ok <==> value_encodable(self@),
            r matches Err(e) ==> e == Error::PayloadTooLarge && final(out)@ == old(out)@,
    {
        match self {
            Value::Bool(b) => {
                if *b {
                    out.push(TAG_TRUE);
                } else {
                    out.push(TAG_FALSE);
                }
                proof {
                    assert(out@ =~= old(out)@ + value_bytes(value_norm(self@)));
                }
                Ok(())
            },
            Value::U8(x) => {
                out.push(TAG_U8);
                out.push(*x);
                proof {
                    assert(out@ =~= old(out)@ + value_bytes(value_norm(self@)));
                }
                Ok(())
            },
            Value::U32(x) => {
                out.push(TAG_U32);
                write_be_u32(out, *x);
                proof {
                    assert(out@ =~= old(out)@ + value_bytes(value_norm(self@)));
                }
                Ok(())
            },
            Value::U64(x) => {
                out.push(TAG_U64);
                write_be_u64(out, *x);
                proof {
                    assert(out@ =~= old(out)@ + value_bytes(value_norm(self@)));
                }
                Ok(())
            },
            Value::S64(x) => {
                out.push(TAG_S64);
                write_be_u64(out, *x as u64);
                proof {
                    assert(out@ =~= old(out)@ + value_bytes(value_norm(self@)));
                }
                Ok(())
            },
            Value::Microseconds(x) => {
                out.push(TAG_USEC);
                write_be_u64(out, *x);
                proof {
                    assert(out@ =~= old(out)@ + value_bytes(value_norm(self@)));
                }
                Ok(())
            },
            Value::Volume(x) => {
                out.push(TAG_VOLUME);
                write_be_u32(out, *x);
                proof {
                    assert(out@ =~= old(out)@ + value_bytes(value_norm(self@)));
                }
                Ok(())
            },
            Value::Timeval(sec, usec) => {
                out.push(TAG_TIMEVAL);
                write_be_u32(out, *sec);
                write_be_u32(out, *usec);
                proof {
                    assert(out@ =~= old(out)@ + value_bytes(value_norm(self@)));
                }
                Ok(())
            },
            Value::String(os) => {
                match os {
                    None => {
                        out.push(TAG_STRING_NULL);
                        proof {
                            assert(out@ =~= old(out)@ + value_bytes(value_norm(self@)));
                        }
                    },
                    Some(string) => {
                        let kept = truncate_to_before_first_null(string.as_str());
                        out.push(TAG_STRING);
                        out.extend_from_slice(kept.as_str().as_bytes());
                        out.push(0);
                        proof {
                            lemma_chars_before_nul(string@);
                            lemma_chars_before_nul(chars_before_nul(string@));
                            lemma_encode_utf8_nul(kept@);
                            assert(out@ =~= old(out)@ + value_bytes(value_norm(self@)));
                        }
                    },
                }
                Ok(())
            },
            Value::Arbitrary(data) => {
                if data.len() > u32::MAX as usize {
                    return Err(Error::PayloadTooLarge);
                }
                out.push(TAG_ARBITRARY);
                write_be_u32(out, data.len() as u32);
                out.extend_from_slice(data.as_slice());
                proof {
                    assert(out@ =~= old(out)@ + value_bytes(value_norm(self@)));
                }
                Ok(())
            },
            Value::SampleSpec(sp) => {
                out.push(TAG_SAMPLE_SPEC);
                out.push(sp.format.to_u8());
                out.push(sp.channels);
                write_be_u32(out, sp.rate);
                proof {
                    assert(out@ =~= old(out)@ + value_bytes(value_norm(self@)));
                }
                Ok(())
            },
            Value::ChannelMap(map) => {
                out.push(TAG_CHANNEL_MAP);
                let total = map.positions.len();
                let n = if total > CHANNELS_MAX {
                    CHANNELS_MAX
                } else {
                    total
                };
                out.push(n as u8);
                let ghost nps = value_norm(self@)->ChannelMap_0;
                proof {
                    assert(nps.len() == n);
                }
                let mut i: usize = 0;
                while i < n
                    invariant
                        i <= n,
                        n <= map.positions@.len(),
                        nps == value_norm(ValueModel::ChannelMap(map.positions@))->ChannelMap_0,
                        nps.len() == n,
                        forall|j: int| 0 <= j < n ==> nps[j] == map.positions@[j],
                        out@ == old(out)@ + seq![TAG_CHANNEL_MAP, n as u8] + positions_bytes(
                            nps.take(i as int)),
                    decreases n - i,
                {
                    let p = map.positions[i];
                    out.push(p.to_u8());
                    proof {
                        assert(nps.take(i + 1) =~= nps.take(i as int).push(nps[i as int]));
                        assert(positions_bytes(nps.take(i + 1)) =~= positions_bytes(
                            nps.take(i as int)).push(p.code()));
                        assert(out@ =~= old(out)@ + seq![TAG_CHANNEL_MAP, n as u8]
                            + positions_bytes(nps.take(i + 1)));
                    }
                    i += 1;
                }
                proof {
                    assert(nps.take(n as int) =~= nps);
                    assert(out@ =~= old(out)@ + value_bytes(value_norm(self@)));
                }
                Ok(())
            },
            Value::ChannelVolume(cv) => {
                out.push(TAG_CVOLUME);
                let total = cv.volumes.len();
                let n = if total > CHANNELS_MAX {
                    CHANNELS_MAX
                } else {
                    total
                };
                out.push(n as u8);
                let ghost nvs = value_norm(self@)->ChannelVolume_0;
                proof {
                    assert(nvs.len() == n);
                }
                let mut i: usize = 0;
                while i < n
                    invariant
                        i <= n,
                        n <= cv.volumes@.len(),
                        nvs == value_norm(ValueModel::ChannelVolume(cv.volumes@))->ChannelVolume_0,
                        nvs.len() == n,
                        forall|j: int| 0 <= j < n ==> nvs[j] == cv.volumes@[j],
                        out@ == old(out)@ + seq![TAG_CVOLUME, n as u8] + volumes_bytes(
                            nvs.take(i as int)),
                    decreases n - i,
                {
                    let v = cv.volumes[i];
                    write_be_u32(out, v);
                    proof {
                        assert(nvs.take(i + 1) =~= nvs.take(i as int).push(nvs[i as int]));
                        lemma_volumes_bytes_push(nvs.take(i as int), v);
                        assert(out@ =~= old(out)@ + seq![TAG_CVOLUME, n as u8] + volumes_bytes(
                            nvs.take(i + 1)));
                    }
                    i += 1;
                }
                proof {
                    assert(nvs.take(n as int) =~= nvs);
                    assert(out@ =~= old(out)@ + value_bytes(value_norm(self@)));
                }
                Ok(())
            },
        }
    }
}

/// The encoding of `m` stands at `pos` in `b`.
pub open spec fn is_encoding_at(b: Seq<u8>, pos: int, m: ValueModel) -> bool {
    &&& 0 <= pos
    &&& pos + value_bytes(m).len() <= b.len()
    &&& b.subrange(pos, pos + value_bytes(m).len() as int) == value_bytes(m)
}

/// The volume words of `n` channels take four bytes each.
pub proof fn lemma_volumes_bytes_len(vs: Seq<u32>)
    ensures
        volumes_bytes(vs).len() == 4 * vs.len(),
    decreases vs.len(),
{
    if vs.len() > 0 {
        lemma_volumes_bytes_len(vs.drop_first());
    }
}

/// Where each volume word stands inside a channel volume body.
pub proof fn lemma_volumes_bytes_index(vs: Seq<u32>, j: int)
    requires
        0 <= j < vs.len(),
    ensures
        volumes_bytes(vs).subrange(4 * j, 4 * j + 4) == be32(vs[j]),
    decreases j,
{
    lemma_volumes_bytes_len(vs);
    lemma_volumes_bytes_len(vs.drop_first());
    if j == 0 {
        assert(volumes_bytes(vs).subrange(0, 4) =~= be32(vs[0]));
    } else {
        lemma_volumes_bytes_index(vs.drop_first(), j - 1);
        assert(volumes_bytes(vs).subrange(4 * j, 4 * j + 4) =~= volumes_bytes(
            vs.drop_first()).subrange(4 * (j - 1), 4 * (j - 1) + 4));
    }
}

impl Value {
    /// Reads one value from `bytes` at `pos`: the value and the position just
    /// past its encoding. A tag byte outside the format fails with
    /// `UnknownValueTag`; a body that cannot be read whole fails with
    /// `Decode`. Whenever a well-formed value's encoding stands at `pos`,
    /// exactly that value is returned.
    #[verifier::rlimit(50)]
    pub fn read_from(bytes: &[u8], pos: usize) -> (r: Result<(Value, usize), Error>)
        requires
            pos <= bytes@.len(),
        ensures
            r matches Ok(p) ==> pos < p.1 <= bytes@.len() && value_wf(p.0@) && value_norm(p.0@)
                == p.0@ && value_bytes(p.0@) == bytes@.subrange(pos as int, p.1 as int),
            forall|m: ValueModel| value_wf(m) && #[trigger] is_encoding_at(bytes@, pos as int, m)
                ==> (r matches Ok(p) && p.0@ == m && p.1 == pos + value_bytes(m).len()),
            r matches Err(e) ==> (e == Error::Decode || e matches Error::UnknownValueTag(_)),
    {
        let n = bytes.len();
        if pos >= n {
            proof {
                assert forall|m: ValueModel|
                    value_wf(m) && #[trigger] is_encoding_at(bytes@, pos as int, m) implies false by {
                    lemma_value_bytes_first(m);
                };
            }
            return Err(Error::Decode);
        }
        let tag = *vstd::slice::slice_index_get(bytes, pos);
        proof {
            assert forall|m: ValueModel|
                value_wf(m) && #[trigger] is_encoding_at(bytes@, pos as int, m) implies value_tag(
                m) == tag by {
                lemma_value_bytes_first(m);
                assert(bytes@.subrange(pos as int, pos + value_bytes(m).len())[0] == bytes@[
                    pos as int]);
            };
        }
        if tag == TAG_TRUE {
            let end = pos + 1;
            proof {
                let v = ValueModel::Bool(true);
                assert(value_bytes(v) =~= bytes@.subrange(pos as int, end as int));
                assert forall|m: ValueModel|
                    value_wf(m) && #[trigger] is_encoding_at(bytes@, pos as int, m) implies m == v
                    && pos + value_bytes(m).len() == end by {};
            }
            Ok((Value::Bool(true), end))
        } else if tag == TAG_FALSE {
            let end = pos + 1;
            proof {
                let v = ValueModel::Bool(false);
                assert(value_bytes(v) =~= bytes@.subrange(pos as int, end as int));
            }
            Ok((Value::Bool(false), end))
        } else if tag == TAG_STRING_NULL {
            let end = pos + 1;
            proof {
                let v = ValueModel::String(None);
                assert(value_bytes(v) =~= bytes@.subrange(pos as int, end as int));
            }
            Ok((Value::String(None), end))
        } else if tag == TAG_U8 {
            if n - pos < 2 {
                proof {
                    assert forall|m: ValueModel|
                        value_wf(m) && #[trigger] is_encoding_at(bytes@, pos as int, m) implies false by {};
                }
                return Err(Error::Decode);
            }
            let x = *vstd::slice::slice_index_get(bytes, pos + 1);
            let end = pos + 2;
            proof {
                let v = ValueModel::U8(x);
                assert(value_bytes(v) =~= bytes@.subrange(pos as int, end as int));
                assert forall|m: ValueModel|
                    value_wf(m) && #[trigger] is_encoding_at(bytes@, pos as int, m) implies m == v
                    && pos + value_bytes(m).len() == end by {
                    assert(value_bytes(m)[1] == bytes@[pos + 1]);
                };
            }
            Ok((Value::U8(x), end))
        } else if tag == TAG_U32 || tag == TAG_VOLUME {
            if n - pos < 5 {
                proof {
                    assert forall|m: ValueModel|
                        value_wf(m) && #[trigger] is_encoding_at(bytes@, pos as int, m) implies false by {};
                }
                return Err(Error::Decode);
            }
            let x = read_be_u32(bytes, pos + 1);
            let end = pos + 5;
            let value = if tag == TAG_U32 {
                Value::U32(x)
            } else {
                Value::Volume(x)
            };
            proof {
                assert(value_bytes(value@) =~= seq![tag] + be32(x));
                assert(value_bytes(value@) =~= bytes@.subrange(pos as int, end as int)) by {
                    assert(bytes@.subrange(pos as int, end as int) =~= seq![tag] + bytes@.subrange(
                        pos + 1, pos + 5));
                }
                assert forall|m: ValueModel|
                    value_wf(m) && #[trigger] is_encoding_at(bytes@, pos as int, m) implies m
                    == value@ && pos + value_bytes(m).len() == end by {
                    let y = if m is U32 {
                        m->U32_0
                    } else {
                        m->Volume_0
                    };
                    assert(value_bytes(m) =~= seq![tag] + be32(y));
                    assert(be32(y) =~= bytes@.subrange(pos + 1, pos + 5)) by {
                        assert forall|i: int| 0 <= i < 4 implies be32(y)[i] == bytes@[pos + 1
                            + i] by {
                            assert(value_bytes(m)[i + 1] == bytes@.subrange(
                                pos as int,
                                pos + value_bytes(m).len(),
                            )[i + 1]);
                        };
                    }
                    crate::wire::lemma_be32_injective(x, y);
                };
            }
            Ok((value, end))
        } else if tag == TAG_U64 || tag == TAG_USEC || tag == TAG_S64 {
            if n - pos < 9 {
                proof {
                    assert forall|m: ValueModel|
                        value_wf(m) && #[trigger] is_encoding_at(bytes@, pos as int, m) implies false by {};
                }
                return Err(Error::Decode);
            }
            let x = read_be_u64(bytes, pos + 1);
            let end = pos + 9;
            let value = if tag == TAG_U64 {
                Value::U64(x)
            } else if tag == TAG_USEC {
                Value::Microseconds(x)
            } else {
                Value::S64(x as i64)
            };
            proof {
                assert((x as i64) as u64 == x) by (bit_vector);
                assert(value_bytes(value@) =~= seq![tag] + be64(x));
                assert(value_bytes(value@) =~= bytes@.subrange(pos as int, end as int)) by {
                    assert(bytes@.subrange(pos as int, end as int) =~= seq![tag] + bytes@.subrange(
                        pos + 1, pos + 9));
                }
                assert forall|m: ValueModel|
                    value_wf(m) && #[trigger] is_encoding_at(bytes@, pos as int, m) implies m
                    == value@ && pos + value_bytes(m).len() == end by {
                    let y: u64 = if m is U64 {
                        m->U64_0
                    } else if m is Microseconds {
                        m->Microseconds_0
                    } else {
                        m->S64_0 as u64
                    };
                    assert(value_bytes(m) =~= seq![tag] + be64(y));
                    assert(be64(y) =~= bytes@.subrange(pos + 1, pos + 9)) by {
                        assert forall|i: int| 0 <= i < 8 implies be64(y)[i] == bytes@[pos + 1
                            + i] by {
                            assert(value_bytes(m)[i + 1] == bytes@.subrange(
                                pos as int,
                                pos + value_bytes(m).len(),
                            )[i + 1]);
                        };
                    }
                    crate::wire::lemma_be64_injective(x, y);
                    if m is S64 {
                        let z = m->S64_0;
                        assert(z as u64 == x ==> x as i64 == z) by (bit_vector);
                    }
                };
            }
            Ok((value, end))
        } else {
            Self::read_from_composite(bytes, pos, tag, n)
        }
    }
}

impl Value {
    /// The composite bodies of `read_from`: values whose length the body
    /// itself determines.
    fn read_from_composite(bytes: &[u8], pos: usize, tag: u8, n: usize) -> (r: Result<
        (Value, usize),
        Error,
    >)
        requires
            pos < bytes@.len(),
            n == bytes@.len(),
            tag == bytes@[pos as int],
            tag != TAG_TRUE && tag != TAG_FALSE && tag != TAG_STRING_NULL && tag != TAG_U8 && tag
                != TAG_U32 && tag != TAG_VOLUME && tag != TAG_U64 && tag != TAG_USEC && tag
                != TAG_S64,
        ensures
            r matches Ok(p) ==> pos < p.1 <= bytes@.len() && value_wf(p.0@) && value_norm(p.0@)
                == p.0@ && value_bytes(p.0@) == bytes@.subrange(pos as int, p.1 as int),
            forall|m: ValueModel| value_wf(m) && #[trigger] is_encoding_at(bytes@, pos as int, m)
                ==> (r matches Ok(p) && p.0@ == m && p.1 == pos + value_bytes(m).len()),
            r matches Err(e) ==> (e == Error::Decode || e matches Error::UnknownValueTag(_)),
    {
        if tag == TAG_TIMEVAL {
            Self::read_timeval(bytes, pos, tag, n)
        } else if tag == TAG_STRING {
            Self::read_string(bytes, pos, tag, n)
        } else if tag == TAG_ARBITRARY {
            Self::read_arbitrary(bytes, pos, tag, n)
        } else if tag == TAG_SAMPLE_SPEC {
            Self::read_sample_spec(bytes, pos, tag, n)
        } else if tag == TAG_CHANNEL_MAP {
            Self::read_channel_map(bytes, pos, tag, n)
        } else if tag == TAG_CVOLUME {
            Self::read_channel_volume(bytes, pos, tag, n)
        } else {
            proof {
                assert forall|m: ValueModel|
                    value_wf(m) && #[trigger] is_encoding_at(bytes@, pos as int, m) implies false by {
                    lemma_value_bytes_first(m);
                    assert(bytes@.subrange(pos as int, pos + value_bytes(m).len())[0] == bytes@[
                        pos as int]);
                };
            }
            Err(Error::UnknownValueTag(tag))
        }
    }

    /// The timeval body of `read_from`.
    fn read_timeval(bytes: &[u8], pos: usize, tag: u8, n: usize) -> (r: Result<
        (Value, usize),
        Error,
    >)
        requires
            pos < bytes@.len(),
            n == bytes@.len(),
            tag == bytes@[pos as int],
            tag == TAG_TIMEVAL,
        ensures
            r matches Ok(p) ==> pos < p.1 <= bytes@.len() && value_wf(p.0@) && value_norm(p.0@)
                == p.0@ && value_bytes(p.0@) == bytes@.subrange(pos as int, p.1 as int),
            forall|m: ValueModel| value_wf(m) && #[trigger] is_encoding_at(bytes@, pos as int, m)
                ==> (r matches Ok(p) && p.0@ == m && p.1 == pos + value_bytes(m).len()),
            r matches Err(e) ==> (e == Error::Decode || e matches Error::UnknownValueTag(_)),
    {
        proof {
            assert forall|m: ValueModel|
                value_wf(m) && #[trigger] is_encoding_at(bytes@, pos as int, m) implies {
                &&& m is Timeval
                &&& value_bytes(m).len() == 9
                &&& pos + 9 <= n
                &&& be32(m->Timeval_0) == bytes@.subrange(pos + 1, pos + 5)
                &&& be32(m->Timeval_1) == bytes@.subrange(pos + 5, pos + 9)
            } by {
                lemma_value_bytes_first(m);
                assert(bytes@.subrange(pos as int, pos + value_bytes(m).len())[0] == bytes@[
                    pos as int]);
                let a = m->Timeval_0;
                let b = m->Timeval_1;
                assert(value_bytes(m) =~= seq![tag] + be32(a) + be32(b));
                assert forall|i: int| 0 <= i < 9 implies #[trigger] value_bytes(m)[i] == bytes@[pos
                    + i] by {
                    assert(value_bytes(m)[i] == bytes@.subrange(
                        pos as int,
                        pos + value_bytes(m).len(),
                    )[i]);
                };
                assert(be32(a) =~= bytes@.subrange(pos + 1, pos + 5)) by {
                    assert forall|k: int| 0 <= k < 4 implies be32(a)[k] == bytes@[pos + 1 + k] by {
                        assert(value_bytes(m)[1 + k] == bytes@[pos + 1 + k]);
                    };
                }
                assert(be32(b) =~= bytes@.subrange(pos + 5, pos + 9)) by {
                    assert forall|k: int| 0 <= k < 4 implies be32(b)[k] == bytes@[pos + 5 + k] by {
                        assert(value_bytes(m)[5 + k] == bytes@[pos + 5 + k]);
                    };
                }
            };
        }
        if n - pos < 9 {
            proof {
                assert forall|m: ValueModel|
                    value_wf(m) && #[trigger] is_encoding_at(bytes@, pos as int, m) implies false by {};
            }
            return Err(Error::Decode);
        }
        let sec = read_be_u32(bytes, pos + 1);
        let usec = read_be_u32(bytes, pos + 5);
        let end = pos + 9;
        proof {
            let v = ValueModel::Timeval(sec, usec);
            assert(value_bytes(v) =~= bytes@.subrange(pos as int, end as int)) by {
                assert(bytes@.subrange(pos as int, end as int) =~= seq![tag] + bytes@.subrange(
                    pos + 1, pos + 5) + bytes@.subrange(pos + 5, pos + 9));
            }
            assert forall|m: ValueModel|
                value_wf(m) && #[trigger] is_encoding_at(bytes@, pos as int, m) implies m == v
                && pos + value_bytes(m).len() == end by {
                crate::wire::lemma_be32_injective(sec, m->Timeval_0);
                crate::wire::lemma_be32_injective(usec, m->Timeval_1);
            };
        }
        Ok((Value::Timeval(sec, usec), end))
    }

    /// The string body of `read_from`: UTF-8 bytes up to a NUL terminator.
    #[verifier::rlimit(50)]
    fn read_string(bytes: &[u8], pos: usize, tag: u8, n: usize) -> (r: Result<
        (Value, usize),
        Error,
    >)
        requires
            pos < bytes@.len(),
            n == bytes@.len(),
            tag == bytes@[pos as int],
            tag == TAG_STRING,
        ensures
            r matches Ok(p) ==> pos < p.1 <= bytes@.len() && value_wf(p.0@) && value_norm(p.0@)
                == p.0@ && value_bytes(p.0@) == bytes@.subrange(pos as int, p.1 as int),
            forall|m: ValueModel| value_wf(m) && #[trigger] is_encoding_at(bytes@, pos as int, m)
                ==> (r matches Ok(p) && p.0@ == m && p.1 == pos + value_bytes(m).len()),
            r matches Err(e) ==> (e == Error::Decode || e matches Error::UnknownValueTag(_)),
    {
        proof {
            assert forall|m: ValueModel|
                value_wf(m) && #[trigger] is_encoding_at(bytes@, pos as int, m) implies {
                let t = m->String_0->Some_0;
                let e = encode_utf8(t).len() as int;
                &&& m is String
                &&& m->String_0 is Some
                &&& value_bytes(m).len() == e + 2
                &&& pos + 1 + e < n
                &&& bytes@.subrange(pos + 1, pos + 1 + e) == encode_utf8(t)
                &&& bytes@[pos + 1 + e] == 0
                &&& (forall|j: int| pos + 1 <= j < pos + 1 + e ==> bytes@[j] != 0)
            } by {
                lemma_value_bytes_first(m);
                assert(bytes@.subrange(pos as int, pos + value_bytes(m).len())[0] == bytes@[
                    pos as int]);
                let t = m->String_0->Some_0;
                let e = encode_utf8(t).len() as int;
                assert(value_bytes(m) =~= seq![tag] + encode_utf8(t) + seq![0u8]);
                assert forall|i: int| 0 <= i < e + 1 implies bytes@[pos + 1 + i]
                    == #[trigger] value_bytes(m)[i + 1] by {
                    assert(value_bytes(m)[i + 1] == bytes@.subrange(
                        pos as int,
                        pos + value_bytes(m).len(),
                    )[i + 1]);
                };
                assert(bytes@.subrange(pos + 1, pos + 1 + e) =~= encode_utf8(t)) by {
                    assert forall|k: int| 0 <= k < e implies encode_utf8(t)[k] == bytes@[pos + 1
                        + k] by {
                        assert(value_bytes(m)[1 + k] == bytes@[pos + 1 + k]);
                    };
                }
                assert(value_bytes(m)[1 + e] == bytes@[pos + 1 + e]);
                assert(value_bytes(m)[1 + e] == 0);
                lemma_encode_utf8_nul(t);
                assert forall|j: int| pos + 1 <= j < pos + 1 + e implies bytes@[j] != 0 by {
                    assert(value_bytes(m)[j - pos] == bytes@[j]);
                    assert(encode_utf8(t)[j - pos - 1] == value_bytes(m)[j - pos]);
                    if bytes@[j] == 0 {
                        assert(encode_utf8(t).contains(0));
                    }
                };
            };
        }
        let k = find_nul(bytes, pos + 1);
        if k >= n {
            proof {
                assert forall|m: ValueModel|
                    value_wf(m) && #[trigger] is_encoding_at(bytes@, pos as int, m) implies false by {
                    let t = m->String_0->Some_0;
                    let e = encode_utf8(t).len() as int;
                    assert(bytes@[pos + 1 + e] == 0);
                };
            }
            return Err(Error::Decode);
        }
        let content = vstd::slice::slice_subrange(bytes, pos + 1, k);
        let owned = vstd::slice::slice_to_vec(content);
        proof {
            assert forall|m: ValueModel|
                value_wf(m) && #[trigger] is_encoding_at(bytes@, pos as int, m) implies owned@
                == encode_utf8(m->String_0->Some_0) by {
                let t = m->String_0->Some_0;
                let e = encode_utf8(t).len() as int;
                if k < pos + 1 + e {
                    assert(bytes@[k as int] == 0);
                }
                if k > pos + 1 + e {
                    assert(bytes@[pos + 1 + e] != 0);
                }
                assert(k == pos + 1 + e);
                assert(owned@ =~= encode_utf8(t));
            };
        }
        match bytes_to_string(owned) {
            None => {
                proof {
                    assert forall|m: ValueModel|
                        value_wf(m) && #[trigger] is_encoding_at(bytes@, pos as int, m) implies false by {
                        encode_utf8_valid_utf8(m->String_0->Some_0);
                    };
                }
                Err(Error::Decode)
            },
            Some(st) => {
                let end = k + 1;
                proof {
                    let v = ValueModel::String(Some(st@));
                    assert(!st@.contains('\0')) by {
                        lemma_encode_utf8_nul(st@);
                        if encode_utf8(st@).contains(0) {
                            let i = choose|i: int|
                                0 <= i < encode_utf8(st@).len() && encode_utf8(st@)[i] == 0;
                            assert(bytes@[pos + 1 + i] == 0);
                        }
                    }
                    lemma_chars_before_nul(st@);
                    assert(value_bytes(v) =~= bytes@.subrange(pos as int, end as int)) by {
                        assert(bytes@.subrange(pos as int, end as int) =~= seq![tag]
                            + bytes@.subrange(pos + 1, k as int) + seq![bytes@[k as int]]);
                    }
                    assert forall|m: ValueModel|
                        value_wf(m) && #[trigger] is_encoding_at(bytes@, pos as int, m) implies m
                        == v && pos + value_bytes(m).len() == end by {
                        let t = m->String_0->Some_0;
                        let e = encode_utf8(t).len() as int;
                        assert(k == pos + 1 + e);
                        encode_utf8_decode_utf8(t);
                        encode_utf8_decode_utf8(st@);
                    };
                }
                Ok((Value::String(Some(st)), end))
            },
        }
    }

    /// The byte-vector body of `read_from`: a 32-bit length then raw bytes.
    fn read_arbitrary(bytes: &[u8], pos: usize, tag: u8, n: usize) -> (r: Result<
        (Value, usize),
        Error,
    >)
        requires
            pos < bytes@.len(),
            n == bytes@.len(),
            tag == bytes@[pos as int],
            tag == TAG_ARBITRARY,
        ensures
            r matches Ok(p) ==> pos < p.1 <= bytes@.len() && value_wf(p.0@) && value_norm(p.0@)
                == p.0@ && value_bytes(p.0@) == bytes@.subrange(pos as int, p.1 as int),
            forall|m: ValueModel| value_wf(m) && #[trigger] is_encoding_at(bytes@, pos as int, m)
                ==> (r matches Ok(p) && p.0@ == m && p.1 == pos + value_bytes(m).len()),
            r matches Err(e) ==> (e == Error::Decode || e matches Error::UnknownValueTag(_)),
    {
        proof {
            assert forall|m: ValueModel|
                value_wf(m) && #[trigger] is_encoding_at(bytes@, pos as int, m) implies {
                let d = m->Arbitrary_0;
                &&& m is Arbitrary
                &&& value_bytes(m).len() == 5 + d.len()
                &&& pos + 5 + d.len() <= n
                &&& be32(d.len() as u32) == bytes@.subrange(pos + 1, pos + 5)
                &&& d == bytes@.subrange(pos + 5, pos + 5 + d.len() as int)
            } by {
                lemma_value_bytes_first(m);
                assert(bytes@.subrange(pos as int, pos + value_bytes(m).len())[0] == bytes@[
                    pos as int]);
                let d = m->Arbitrary_0;
                assert(value_bytes(m) =~= seq![tag] + be32(d.len() as u32) + d);
                assert forall|i: int| 0 <= i < value_bytes(m).len() implies #[trigger] value_bytes(
                    m,
                )[i] == bytes@[pos + i] by {
                    assert(value_bytes(m)[i] == bytes@.subrange(
                        pos as int,
                        pos + value_bytes(m).len(),
                    )[i]);
                };
                assert(be32(d.len() as u32) =~= bytes@.subrange(pos + 1, pos + 5)) by {
                    assert forall|k: int| 0 <= k < 4 implies #[trigger] be32(d.len() as u32)[k]
                        == bytes@[pos + 1 + k] by {
                        assert(value_bytes(m)[1 + k] == bytes@[pos + 1 + k]);
                    };
                }
                assert(d =~= bytes@.subrange(pos + 5, pos + 5 + d.len() as int)) by {
                    assert forall|k: int| 0 <= k < d.len() implies d[k] == bytes@[pos + 5 + k] by {
                        assert(value_bytes(m)[5 + k] == bytes@[pos + 5 + k]);
                    };
                }
            };
        }
        if n - pos < 5 {
            proof {
                assert forall|m: ValueModel|
                    value_wf(m) && #[trigger] is_encoding_at(bytes@, pos as int, m) implies false by {};
            }
            return Err(Error::Decode);
        }
        let len32 = read_be_u32(bytes, pos + 1);
        let len = len32 as usize;
        proof {
            assert forall|m: ValueModel|
                value_wf(m) && #[trigger] is_encoding_at(bytes@, pos as int, m) implies
                m->Arbitrary_0.len() == len32 as int by {
                crate::wire::lemma_be32_injective(len32, m->Arbitrary_0.len() as u32);
            };
        }
        if len > n - (pos + 5) {
            proof {
                assert forall|m: ValueModel|
                    value_wf(m) && #[trigger] is_encoding_at(bytes@, pos as int, m) implies false by {};
            }
            return Err(Error::Decode);
        }
        let data = vstd::slice::slice_to_vec(vstd::slice::slice_subrange(bytes, pos + 5, pos + 5
            + len));
        let end = pos + 5 + len;
        proof {
            let v = ValueModel::Arbitrary(data@);
            assert(data@.len() as u32 == len32);
            assert(value_bytes(v) =~= bytes@.subrange(pos as int, end as int)) by {
                assert(bytes@.subrange(pos as int, end as int) =~= seq![tag] + bytes@.subrange(
                    pos + 1, pos + 5) + bytes@.subrange(pos + 5, end as int));
            }
            assert forall|m: ValueModel|
                value_wf(m) && #[trigger] is_encoding_at(bytes@, pos as int, m) implies m == v
                && pos + value_bytes(m).len() == end by {};
        }
        Ok((Value::Arbitrary(data), end))
    }

    /// The sample-specification body of `read_from`: format code, channel
    /// count, and rate. An unknown format code fails the decode.
    fn read_sample_spec(bytes: &[u8], pos: usize, tag: u8, n: usize) -> (r: Result<
        (Value, usize),
        Error,
    >)
        requires
            pos < bytes@.len(),
            n == bytes@.len(),
            tag == bytes@[pos as int],
            tag == TAG_SAMPLE_SPEC,
        ensures
            r matches Ok(p) ==> pos < p.1 <= bytes@.len() && value_wf(p.0@) && value_norm(p.0@)
                == p.0@ && value_bytes(p.0@) == bytes@.subrange(pos as int, p.1 as int),
            forall|m: ValueModel| value_wf(m) && #[trigger] is_encoding_at(bytes@, pos as int, m)
                ==> (r matches Ok(p) && p.0@ == m && p.1 == pos + value_bytes(m).len()),
            r matches Err(e) ==> (e == Error::Decode || e matches Error::UnknownValueTag(_)),
    {
        proof {
            assert forall|m: ValueModel|
                value_wf(m) && #[trigger] is_encoding_at(bytes@, pos as int, m) implies {
                let sp = m->SampleSpec_0;
                &&& m is SampleSpec
                &&& value_bytes(m).len() == 7
                &&& pos + 7 <= n
                &&& sp.format.code() == bytes@[pos + 1]
                &&& sp.channels == bytes@[pos + 2]
                &&& be32(sp.rate) == bytes@.subrange(pos + 3, pos + 7)
            } by {
                lemma_value_bytes_first(m);
                assert(bytes@.subrange(pos as int, pos + value_bytes(m).len())[0] == bytes@[
                    pos as int]);
                let sp = m->SampleSpec_0;
                assert(value_bytes(m) =~= seq![tag, sp.format.code(), sp.channels] + be32(sp.rate));
                assert forall|i: int| 0 <= i < 7 implies #[trigger] value_bytes(m)[i] == bytes@[pos
                    + i] by {
                    assert(value_bytes(m)[i] == bytes@.subrange(
                        pos as int,
                        pos + value_bytes(m).len(),
                    )[i]);
                };
                assert(value_bytes(m)[1] == bytes@[pos + 1]);
                assert(value_bytes(m)[2] == bytes@[pos + 2]);
                assert(be32(sp.rate) =~= bytes@.subrange(pos + 3, pos + 7)) by {
                    assert forall|k: int| 0 <= k < 4 implies be32(sp.rate)[k] == bytes@[pos + 3
                        + k] by {
                        assert(value_bytes(m)[3 + k] == bytes@[pos + 3 + k]);
                    };
                }
            };
        }
        if n - pos < 7 {
            proof {
                assert forall|m: ValueModel|
                    value_wf(m) && #[trigger] is_encoding_at(bytes@, pos as int, m) implies false by {};
            }
            return Err(Error::Decode);
        }
        let fb = *vstd::slice::slice_index_get(bytes, pos + 1);
        match SampleFormat::from_u8(fb) {
            None => {
                proof {
                    assert forall|m: ValueModel|
                        value_wf(m) && #[trigger] is_encoding_at(bytes@, pos as int, m) implies false by {
                        m->SampleSpec_0.format.lemma_code_round_trip();
                    };
                }
                Err(Error::Decode)
            },
            Some(format) => {
                let channels = *vstd::slice::slice_index_get(bytes, pos + 2);
                let rate = read_be_u32(bytes, pos + 3);
                let end = pos + 7;
                let spec = SampleSpec { format, channels, rate };
                proof {
                    SampleFormat::lemma_from_code_round_trip(fb);
                    let v = ValueModel::SampleSpec(spec);
                    assert(value_bytes(v) =~= bytes@.subrange(pos as int, end as int)) by {
                        assert(bytes@.subrange(pos as int, end as int) =~= seq![
                            tag,
                            bytes@[pos + 1],
                            bytes@[pos + 2],
                        ] + bytes@.subrange(pos + 3, pos + 7));
                    }
                    assert forall|m: ValueModel|
                        value_wf(m) && #[trigger] is_encoding_at(bytes@, pos as int, m) implies m
                        == v && pos + value_bytes(m).len() == end by {
                        let sp = m->SampleSpec_0;
                        sp.format.lemma_code_round_trip();
                        crate::wire::lemma_be32_injective(rate, sp.rate);
                    };
                }
                Ok((Value::SampleSpec(spec), end))
            },
        }
    }
}

impl Value {
    /// The channel-map body of `read_from`: a count, then one position code
    /// per channel. A count above the channel limit or an unknown position
    /// code fails the decode.
    #[verifier::loop_isolation(false)]
    #[verifier::rlimit(50)]
    fn read_channel_map(bytes: &[u8], pos: usize, tag: u8, n: usize) -> (r: Result<
        (Value, usize),
        Error,
    >)
        requires
            pos < bytes@.len(),
            n == bytes@.len(),
            tag == bytes@[pos as int],
            tag == TAG_CHANNEL_MAP,
        ensures
            r matches Ok(p) ==> pos < p.1 <= bytes@.len() && value_wf(p.0@) && value_norm(p.0@)
                == p.0@ && value_bytes(p.0@) == bytes@.subrange(pos as int, p.1 as int),
            forall|m: ValueModel| value_wf(m) && #[trigger] is_encoding_at(bytes@, pos as int, m)
                ==> (r matches Ok(p) && p.0@ == m && p.1 == pos + value_bytes(m).len()),
            r matches Err(e) ==> (e == Error::Decode || e matches Error::UnknownValueTag(_)),
    {
        proof {
            assert forall|m: ValueModel|
                value_wf(m) && #[trigger] is_encoding_at(bytes@, pos as int, m) implies {
                &&& m is ChannelMap
                &&& value_bytes(m).len() == 2 + m->ChannelMap_0.len()
                &&& pos + 2 + m->ChannelMap_0.len() <= n
                &&& m->ChannelMap_0.len() <= CHANNELS_MAX
                &&& (2 <= pos + value_bytes(m).len() - pos)
                &&& bytes@[pos + 1] == m->ChannelMap_0.len() as u8
                &&& (forall|j: int|
                    0 <= j < m->ChannelMap_0.len() ==> bytes@[pos + 2 + j]
                        == #[trigger] m->ChannelMap_0[j].code())
            } by {
                lemma_value_bytes_first(m);
                let ps = m->ChannelMap_0;
                assert(value_bytes(m) =~= seq![tag, ps.len() as u8] + positions_bytes(ps));
                assert forall|i: int| 0 <= i < value_bytes(m).len() implies #[trigger] value_bytes(
                    m,
                )[i] == bytes@[pos + i] by {
                    assert(value_bytes(m)[i] == bytes@.subrange(
                        pos as int,
                        pos + value_bytes(m).len(),
                    )[i]);
                };
                assert(value_bytes(m)[1] == bytes@[pos + 1]);
                assert forall|j: int| 0 <= j < ps.len() implies bytes@[pos + 2 + j]
                    == #[trigger] ps[j].code() by {
                    assert(value_bytes(m)[2 + j] == bytes@[pos + 2 + j]);
                    assert(value_bytes(m)[2 + j] == positions_bytes(ps)[j]);
                };
            };
        }
        if n - pos < 2 {
            proof {
                assert forall|m: ValueModel|
                    value_wf(m) && #[trigger] is_encoding_at(bytes@, pos as int, m) implies false by {};
            }
            return Err(Error::Decode);
        }
        let count = *vstd::slice::slice_index_get(bytes, pos + 1);
        let count_len = count as usize;
        if count_len > CHANNELS_MAX {
            proof {
                assert forall|m: ValueModel|
                    value_wf(m) && #[trigger] is_encoding_at(bytes@, pos as int, m) implies false by {
                    assert(m->ChannelMap_0.len() as u8 == count);
                };
            }
            return Err(Error::Decode);
        }
        if count_len > n - (pos + 2) {
            proof {
                assert forall|m: ValueModel|
                    value_wf(m) && #[trigger] is_encoding_at(bytes@, pos as int, m) implies false by {
                    assert(m->ChannelMap_0.len() as u8 == count);
                };
            }
            return Err(Error::Decode);
        }
        let mut positions: Vec<ChannelPosition> = Vec::new();
        let mut i: usize = 0;
        while i < count_len
            invariant
                i <= count_len,
                pos + 2 + count_len <= n,
                n == bytes@.len(),
                count_len == count as int,
                count_len <= CHANNELS_MAX,
                tag == bytes@[pos as int],
                tag == TAG_CHANNEL_MAP,
                count == bytes@[pos + 1],
                positions@.len() == i,
                forall|j: int| 0 <= j < i ==> #[trigger] positions@[j].code() == bytes@[pos + 2
                    + j],
            decreases count_len - i,
        {
            let c = *vstd::slice::slice_index_get(bytes, pos + 2 + i);
            match ChannelPosition::from_u8(c) {
                None => {
                    proof {
                        assert forall|m: ValueModel|
                            value_wf(m) && #[trigger] is_encoding_at(
                            bytes@,
                            pos as int,
                            m,
                        ) implies false by {
                            let ps = m->ChannelMap_0;
                            assert(ps.len() as u8 == count);
                            assert(ps[i as int].code() == c);
                            ps[i as int].lemma_code_round_trip();
                        };
                    }
                    return Err(Error::Decode);
                },
                Some(p) => {
                    proof {
                        ChannelPosition::lemma_from_code_round_trip(c);
                    }
                    positions.push(p);
                },
            }
            i += 1;
        }
        let end = pos + 2 + count_len;
        let map = ChannelMap { positions };
        proof {
            let v = ValueModel::ChannelMap(map.positions@);
            assert(positions_bytes(map.positions@) =~= bytes@.subrange(pos + 2, end as int));
            assert(value_bytes(v) =~= bytes@.subrange(pos as int, end as int)) by {
                assert(bytes@.subrange(pos as int, end as int) =~= seq![tag, count]
                    + bytes@.subrange(pos + 2, end as int));
            }
            assert forall|m: ValueModel|
                value_wf(m) && #[trigger] is_encoding_at(bytes@, pos as int, m) implies m == v
                && pos + value_bytes(m).len() == end by {
                let ps = m->ChannelMap_0;
                assert(ps.len() as u8 == count);
                assert forall|j: int| 0 <= j < ps.len() implies ps[j] == map.positions@[j] by {
                    assert(ps[j].code() == bytes@[pos + 2 + j]);
                    assert(map.positions@[j].code() == bytes@[pos + 2 + j]);
                    ps[j].lemma_code_round_trip();
                    map.positions@[j].lemma_code_round_trip();
                };
                assert(ps =~= map.positions@);
            };
        }
        Ok((Value::ChannelMap(map), end))
    }

    /// The channel-volume body of `read_from`: a count, then one volume word
    /// per channel. A count above the channel limit fails the decode.
    #[verifier::loop_isolation(false)]
    #[verifier::rlimit(50)]
    fn read_channel_volume(bytes: &[u8], pos: usize, tag: u8, n: usize) -> (r: Result<
        (Value, usize),
        Error,
    >)
        requires
            pos < bytes@.len(),
            n == bytes@.len(),
            tag == bytes@[pos as int],
            tag == TAG_CVOLUME,
        ensures
            r matches Ok(p) ==> pos < p.1 <= bytes@.len() && value_wf(p.0@) && value_norm(p.0@)
                == p.0@ && value_bytes(p.0@) == bytes@.subrange(pos as int, p.1 as int),
            forall|m: ValueModel| value_wf(m) && #[trigger] is_encoding_at(bytes@, pos as int, m)
                ==> (r matches Ok(p) && p.0@ == m && p.1 == pos + value_bytes(m).len()),
            r matches Err(e) ==> (e == Error::Decode || e matches Error::UnknownValueTag(_)),
    {
        proof {
            assert forall|m: ValueModel|
                value_wf(m) && #[trigger] is_encoding_at(bytes@, pos as int, m) implies {
                &&& m is ChannelVolume
                &&& value_bytes(m).len() == 2 + 4 * m->ChannelVolume_0.len()
                &&& pos + 2 + 4 * m->ChannelVolume_0.len() <= n
                &&& m->ChannelVolume_0.len() <= CHANNELS_MAX
                &&& bytes@[pos + 1] == m->ChannelVolume_0.len() as u8
                &&& (forall|j: int|
                    0 <= j < m->ChannelVolume_0.len() ==> #[trigger] be32(m->ChannelVolume_0[j])
                        == bytes@.subrange(pos + 2 + 4 * j, pos + 2 + 4 * j + 4))
            } by {
                lemma_value_bytes_first(m);
                let vs = m->ChannelVolume_0;
                lemma_volumes_bytes_len(vs);
                assert(value_bytes(m) =~= seq![tag, vs.len() as u8] + volumes_bytes(vs));
                assert forall|i: int| 0 <= i < value_bytes(m).len() implies #[trigger] value_bytes(
                    m,
                )[i] == bytes@[pos + i] by {
                    assert(value_bytes(m)[i] == bytes@.subrange(
                        pos as int,
                        pos + value_bytes(m).len(),
                    )[i]);
                };
                assert(value_bytes(m)[1] == bytes@[pos + 1]);
                assert forall|j: int| 0 <= j < vs.len() implies #[trigger] be32(vs[j])
                    == bytes@.subrange(pos + 2 + 4 * j, pos + 2 + 4 * j + 4) by {
                    lemma_volumes_bytes_index(vs, j);
                    assert(be32(vs[j]) =~= bytes@.subrange(pos + 2 + 4 * j, pos + 2 + 4 * j + 4))
                        by {
                        assert forall|i: int| 0 <= i < 4 implies be32(vs[j])[i] == bytes@[pos + 2
                            + 4 * j + i] by {
                            assert(be32(vs[j])[i] == volumes_bytes(vs).subrange(
                                4 * j,
                                4 * j + 4,
                            )[i]);
                            assert(volumes_bytes(vs)[4 * j + i] == value_bytes(m)[2 + 4 * j + i]);
                        };
                    }
                };
            };
        }
        if n - pos < 2 {
            proof {
                assert forall|m: ValueModel|
                    value_wf(m) && #[trigger] is_encoding_at(bytes@, pos as int, m) implies false by {};
            }
            return Err(Error::Decode);
        }
        let count = *vstd::slice::slice_index_get(bytes, pos + 1);
        let count_len = count as usize;
        if count_len > CHANNELS_MAX {
            proof {
                assert forall|m: ValueModel|
                    value_wf(m) && #[trigger] is_encoding_at(bytes@, pos as int, m) implies false by {
                    assert(m->ChannelVolume_0.len() as u8 == count);
                };
            }
            return Err(Error::Decode);
        }
        if 4 * count_len > n - (pos + 2) {
            proof {
                assert forall|m: ValueModel|
                    value_wf(m) && #[trigger] is_encoding_at(bytes@, pos as int, m) implies false by {
                    assert(m->ChannelVolume_0.len() as u8 == count);
                };
            }
            return Err(Error::Decode);
        }
        let mut volumes: Vec<u32> = Vec::new();
        let mut i: usize = 0;
        while i < count_len
            invariant
                i <= count_len,
                pos + 2 + 4 * count_len <= n,
                n == bytes@.len(),
                count_len == count as int,
                count_len <= CHANNELS_MAX,
                tag == bytes@[pos as int],
                tag == TAG_CVOLUME,
                count == bytes@[pos + 1],
                volumes@.len() == i,
                forall|j: int| 0 <= j < i ==> #[trigger] be32(volumes@[j]) == bytes@.subrange(
                    pos + 2 + 4 * j, pos + 2 + 4 * j + 4),
            decreases count_len - i,
        {
            let x = read_be_u32(bytes, pos + 2 + 4 * i);
            volumes.push(x);
            i += 1;
        }
        let end = pos + 2 + 4 * count_len;
        let cv = ChannelVolume { volumes };
        proof {
            let v = ValueModel::ChannelVolume(cv.volumes@);
            assert(volumes_bytes(cv.volumes@) =~= bytes@.subrange(pos + 2, end as int)) by {
                lemma_volumes_bytes_len(cv.volumes@);
                assert forall|i2: int| 0 <= i2 < 4 * count_len implies volumes_bytes(cv.volumes@)[i2] == bytes@[pos + 2 + i2] by {
                    let j = i2 / 4;
                    let o = i2 % 4;
                    assert(i2 == 4 * j + o && 0 <= j < count_len && 0 <= o < 4) by (nonlinear_arith)
                        requires
                            0 <= i2 < 4 * count_len,
                            j == i2 / 4,
                            o == i2 % 4,
                    ;
                    lemma_volumes_bytes_index(cv.volumes@, j);
                    assert(volumes_bytes(cv.volumes@)[4 * j + o] == volumes_bytes(
                        cv.volumes@,
                    ).subrange(4 * j, 4 * j + 4)[o]);
                    assert(be32(cv.volumes@[j])[o] == bytes@.subrange(
                        pos + 2 + 4 * j,
                        pos + 2 + 4 * j + 4,
                    )[o]);
                };
            }
            assert(value_bytes(v) =~= bytes@.subrange(pos as int, end as int)) by {
                assert(bytes@.subrange(pos as int, end as int) =~= seq![tag, count]
                    + bytes@.subrange(pos + 2, end as int));
            }
            assert forall|m: ValueModel|
                value_wf(m) && #[trigger] is_encoding_at(bytes@, pos as int, m) implies m == v
                && pos + value_bytes(m).len() == end by {
                let vs = m->ChannelVolume_0;
                assert(vs.len() as u8 == count);
                assert forall|j: int| 0 <= j < vs.len() implies vs[j] == cv.volumes@[j] by {
                    assert(be32(vs[j]) == bytes@.subrange(pos + 2 + 4 * j, pos + 2 + 4 * j + 4));
                    assert(be32(cv.volumes@[j]) == bytes@.subrange(
                        pos + 2 + 4 * j,
                        pos + 2 + 4 * j + 4,
                    ));
                    crate::wire::lemma_be32_injective(vs[j], cv.volumes@[j]);
                };
                assert(vs =~= cv.volumes@);
            };
        }
        Ok((Value::ChannelVolume(cv), end))
    }
}

/// The view of a nullable string.
pub open spec fn option_string_view(os: Option<std::string::String>) -> Option<Seq<char>> {
    match os {
        Some(s) => Some(s@),
        None => None,
    }
}

impl Value {
    pub fn into_bool(self) -> (r: Result<bool, Error>)
        ensures
            self@ matches ValueModel::Bool(b) ==> r == Ok::<bool, Error>(b),
            !(self@ is Bool) ==> r == Err::<bool, Error>(Error::Decode),
    {
        match self {
            Value::Bool(b) => Ok(b),
            _ => Err(Error::Decode),
        }
    }

    pub fn into_u8(self) -> (r: Result<u8, Error>)
        ensures
            self@ matches ValueModel::U8(x) ==> r == Ok::<u8, Error>(x),
            !(self@ is U8) ==> r == Err::<u8, Error>(Error::Decode),
    {
        match self {
            Value::U8(x) => Ok(x),
            _ => Err(Error::Decode),
        }
    }

    pub fn into_u32(self) -> (r: Result<u32, Error>)
        ensures
            self@ matches ValueModel::U32(x) ==> r == Ok::<u32, Error>(x),
            !(self@ is U32) ==> r == Err::<u32, Error>(Error::Decode),
    {
        match self {
            Value::U32(x) => Ok(x),
            _ => Err(Error::Decode),
        }
    }

    pub fn into_string(self) -> (r: Result<Option<std::string::String>, Error>)
        ensures
            self@ matches ValueModel::String(sv) ==> (r matches Ok(os) && option_string_view(os)
                == sv),
            !(self@ is String) ==> (r matches Err(e) && e == Error::Decode),
    {
        match self {
            Value::String(os) => Ok(os),
            _ => Err(Error::Decode),
        }
    }

    pub fn into_arbitrary(self) -> (r: Result<Vec<u8>, Error>)
        ensures
            self@ matches ValueModel::Arbitrary(b) ==> (r matches Ok(v) && v@ == b),
            !(self@ is Arbitrary) ==> (r matches Err(e) && e == Error::Decode),
    {
        match self {
            Value::Arbitrary(v) => Ok(v),
            _ => Err(Error::Decode),
        }
    }

    pub fn into_sample_spec(self) -> (r: Result<SampleSpec, Error>)
        ensures
            self@ matches ValueModel::SampleSpec(sp) ==> r == Ok::<SampleSpec, Error>(sp),
            !(self@ is SampleSpec) ==> r == Err::<SampleSpec, Error>(Error::Decode),
    {
        match self {
            Value::SampleSpec(sp) => Ok(sp),
            _ => Err(Error::Decode),
        }
    }
}

/// One step of whole-input decoding: while bytes remain, the front of any
/// full-input parse stands encoded at the current position.
proof fn lemma_parse_step(bytes: Seq<u8>, pos: int, vs: Seq<ValueModel>, k: int)
    requires
        0 <= pos < bytes.len(),
        0 <= k <= vs.len(),
        values_wf(vs),
        values_bytes(vs.skip(k)) == bytes.skip(pos),
    ensures
        vs.len() > k,
        value_wf(vs[k]),
        is_encoding_at(bytes, pos, vs[k]),
        pos + value_bytes(vs[k]).len() <= bytes.len(),
        values_bytes(vs.skip(k + 1)) == bytes.skip(pos + value_bytes(vs[k]).len()),
{
    let rest = vs.skip(k);
    assert(values_bytes(rest) == bytes.skip(pos));
    assert(bytes.skip(pos).len() > 0);
    lemma_values_bytes_empty(rest);
    assert(rest.len() > 0);
    assert(rest[0] == vs[k]);
    lemma_value_bytes_first(vs[k]);
    let l = value_bytes(vs[k]).len() as int;
    assert(values_bytes(rest) == value_bytes(vs[k]) + values_bytes(rest.drop_first()));
    assert(pos + l <= bytes.len());
    assert(bytes.subrange(pos, pos + l) =~= value_bytes(vs[k])) by {
        assert forall|j: int| 0 <= j < l implies bytes[pos + j] == value_bytes(vs[k])[j] by {
            assert(bytes.skip(pos)[j] == value_bytes(vs[k])[j]);
        };
    }
    assert(rest.drop_first() =~= vs.skip(k + 1));
    assert(values_bytes(vs.skip(k + 1)) =~= bytes.skip(pos + l)) by {
        assert forall|j: int| 0 <= j < values_bytes(vs.skip(k + 1)).len() implies
            #[trigger] values_bytes(vs.skip(k + 1))[j] == bytes[pos + l + j] by {
            assert(values_bytes(rest)[l + j] == bytes.skip(pos)[l + j]);
        };
    }
}

/// An ordered sequence of typed values: the payload of every command frame.
/// `put_*` appends at the back; `pop_*` removes from the front.
#[derive(Debug, PartialEq)]
pub struct TagStruct {
    values: Vec<Value>,
}

impl View for TagStruct {
    type V = Seq<ValueModel>;

    closed spec fn view(&self) -> Seq<ValueModel> {
        models_of(self.values@)
    }
}

/// An item that knows how to append itself to a tag-struct.
pub trait Put: Sized {
    /// The values this item appends, in order.
    spec fn put_model(self) -> Seq<ValueModel>;

    /// Appends this item's values at the back.
    fn put(self, tag_struct: &mut TagStruct)
        ensures
            final(tag_struct)@ == old(tag_struct)@ + self.put_model(),
    ;
}

/// An item that knows how to remove itself from the front of a tag-struct.
pub trait Pop: Sized + View {
    /// How this item parses from the front of a value sequence: its model and
    /// the values left over, or `None` when the front does not fit.
    spec fn pop_model(vs: Seq<ValueModel>) -> Option<(Self::V, Seq<ValueModel>)>;

    /// Removes this item's values from the front.
    fn pop(tag_struct: &mut TagStruct) -> (r: Result<Self, Error>)
        ensures
            Self::pop_model(old(tag_struct)@) matches Some(m) ==> (r matches Ok(v) && v@ == m.0
                && final(tag_struct)@ == m.1),
            Self::pop_model(old(tag_struct)@) is None ==> r is Err,
            exists|k: int|
                0 <= k <= old(tag_struct)@.len() && final(tag_struct)@ == old(tag_struct)@.skip(k),
    ;
}

impl TagStruct {
    /// An empty tag-struct.
    pub fn new() -> (r: TagStruct)
        ensures
            r@ == Seq::<ValueModel>::empty(),
    {
        let r = TagStruct { values: Vec::new() };
        proof {
            assert(r@ =~= Seq::<ValueModel>::empty());
        }
        r
    }

    /// Whether no values remain.
    pub fn is_empty(&self) -> (r: bool)
        ensures
            r == (self@.len() == 0),
    {
        self.values.len() == 0
    }

    /// Appends one value at the back.
    pub fn put_value(&mut self, value: Value)
        ensures
            final(self)@ == old(self)@.push(value@),
    {
        let ghost v = value@;
        self.values.push(value);
        proof {
            assert(self@ =~= old(self)@.push(v));
        }
    }

    /// Removes the front value; fails on an empty tag-struct.
    pub fn pop_value(&mut self) -> (r: Result<Value, Error>)
        ensures
            old(self)@.len() > 0 ==> (r matches Ok(v) && v@ == old(self)@[0] && final(self)@
                == old(self)@.drop_first()),
            old(self)@.len() == 0 ==> r == Err::<Value, Error>(Error::Decode) && final(self)@
                == old(self)@,
    {
        if self.values.len() == 0 {
            return Err(Error::Decode);
        }
        let v = self.values.remove(0);
        proof {
            assert(self@ =~= old(self)@.drop_first());
        }
        Ok(v)
    }

    /// Moves every value of `other` to the back, in order.
    pub fn append(&mut self, other: TagStruct)
        ensures
            final(self)@ == old(self)@ + other@,
    {
        let mut other = other;
        let ghost o = other@;
        self.values.append(&mut other.values);
        proof {
            assert(self@ =~= old(self)@ + o);
        }
    }

    /// Appends any item that implements `Put`.
    pub fn put<V: Put>(&mut self, value: V)
        ensures
            final(self)@ == old(self)@ + value.put_model(),
    {
        value.put(self)
    }

    /// Removes any item that implements `Pop` from the front.
    pub fn pop<V: Pop>(&mut self) -> (r: Result<V, Error>)
        ensures
            V::pop_model(old(self)@) matches Some(m) ==> (r matches Ok(v) && v@ == m.0
                && final(self)@ == m.1),
            V::pop_model(old(self)@) is None ==> r is Err,
            exists|k: int| 0 <= k <= old(self)@.len() && final(self)@ == old(self)@.skip(k),
    {
        V::pop(self)
    }

    pub fn put_bool(&mut self, value: bool)
        ensures
            final(self)@ == old(self)@.push(ValueModel::Bool(value)),
    {
        self.put_value(Value::Bool(value));
    }

    pub fn pop_bool(&mut self) -> (r: Result<bool, Error>)
        ensures
            old(self)@.len() > 0 ==> (old(self)@[0] matches ValueModel::Bool(b) ==> (r
                matches Ok(y) && y == b && final(self)@ == old(self)@.drop_first())),
            old(self)@.len() == 0 ==> r is Err && final(self)@ == old(self)@,
            old(self)@.len() > 0 && !(old(self)@[0] is Bool) ==> r is Err && final(self)@ == old(
                self)@.drop_first(),
            r matches Err(e) ==> e == Error::Decode,
    {
        match self.pop_value() {
            Ok(v) => v.into_bool(),
            Err(e) => Err(e),
        }
    }

    pub fn put_u8(&mut self, value: u8)
        ensures
            final(self)@ == old(self)@.push(ValueModel::U8(value)),
    {
        self.put_value(Value::U8(value));
    }

    pub fn pop_u8(&mut self) -> (r: Result<u8, Error>)
        ensures
            old(self)@.len() > 0 ==> (old(self)@[0] matches ValueModel::U8(x) ==> (r matches Ok(
                y,
            ) && y == x && final(self)@ == old(self)@.drop_first())),
            old(self)@.len() == 0 ==> r is Err && final(self)@ == old(self)@,
            old(self)@.len() > 0 && !(old(self)@[0] is U8) ==> r is Err && final(self)@ == old(self)@.drop_first(),
            r matches Err(e) ==> e == Error::Decode,
    {
        match self.pop_value() {
            Ok(v) => v.into_u8(),
            Err(e) => Err(e),
        }
    }

    pub fn put_u32(&mut self, value: u32)
        ensures
            final(self)@ == old(self)@.push(ValueModel::U32(value)),
    {
        self.put_value(Value::U32(value));
    }

    pub fn pop_u32(&mut self) -> (r: Result<u32, Error>)
        ensures
            old(self)@.len() > 0 ==> (old(self)@[0] matches ValueModel::U32(x) ==> (r matches Ok(
                y,
            ) && y == x && final(self)@ == old(self)@.drop_first())),
            old(self)@.len() == 0 ==> r is Err && final(self)@ == old(self)@,
            old(self)@.len() > 0 && !(old(self)@[0] is U32) ==> r is Err && final(self)@ == old(self)@.drop_first(),
            r matches Err(e) ==> e == Error::Decode,
    {
        match self.pop_value() {
            Ok(v) => v.into_u32(),
            Err(e) => Err(e),
        }
    }

    pub fn put_string(&mut self, value: Option<std::string::String>)
        ensures
            final(self)@ == old(self)@.push(ValueModel::String(option_string_view(value))),
    {
        self.put_value(Value::String(value));
    }

    pub fn pop_string(&mut self) -> (r: Result<Option<std::string::String>, Error>)
        ensures
            old(self)@.len() > 0 ==> (old(self)@[0] matches ValueModel::String(sv) ==> (r
                matches Ok(os) && option_string_view(os) == sv && final(self)@ == old(
                self)@.drop_first())),
            old(self)@.len() == 0 ==> r is Err && final(self)@ == old(self)@,
            old(self)@.len() > 0 && !(old(self)@[0] is String) ==> r is Err && final(self)@ == old(self)@.drop_first(),
            r matches Err(e) ==> e == Error::Decode,
    {
        match self.pop_value() {
            Ok(v) => v.into_string(),
            Err(e) => Err(e),
        }
    }

    pub fn put_arbitrary(&mut self, value: Vec<u8>)
        ensures
            final(self)@ == old(self)@.push(ValueModel::Arbitrary(value@)),
    {
        self.put_value(Value::Arbitrary(value));
    }

    pub fn pop_arbitrary(&mut self) -> (r: Result<Vec<u8>, Error>)
        ensures
            old(self)@.len() > 0 ==> (old(self)@[0] matches ValueModel::Arbitrary(b) ==> (r
                matches Ok(v) && v@ == b && final(self)@ == old(self)@.drop_first())),
            old(self)@.len() == 0 ==> r is Err && final(self)@ == old(self)@,
            old(self)@.len() > 0 && !(old(self)@[0] is Arbitrary) ==> r is Err && final(self)@
                == old(self)@.drop_first(),
            r matches Err(e) ==> e == Error::Decode,
    {
        match self.pop_value() {
            Ok(v) => v.into_arbitrary(),
            Err(e) => Err(e),
        }
    }

    pub fn put_channel_map(&mut self, value: ChannelMap)
        ensures
            final(self)@ == old(self)@.push(ValueModel::ChannelMap(value@)),
    {
        self.put_value(Value::ChannelMap(value));
    }

    pub fn put_sample_spec(&mut self, value: SampleSpec)
        ensures
            final(self)@ == old(self)@.push(ValueModel::SampleSpec(value)),
    {
        self.put_value(Value::SampleSpec(value));
    }

    pub fn pop_sample_spec(&mut self) -> (r: Result<SampleSpec, Error>)
        ensures
            old(self)@.len() > 0 ==> (old(self)@[0] matches ValueModel::SampleSpec(sp) ==> (r
                matches Ok(y) && y == sp && final(self)@ == old(self)@.drop_first())),
            old(self)@.len() == 0 ==> r is Err && final(self)@ == old(self)@,
            old(self)@.len() > 0 && !(old(self)@[0] is SampleSpec) ==> r is Err && final(self)@
                == old(self)@.drop_first(),
            r matches Err(e) ==> e == Error::Decode,
    {
        match self.pop_value() {
            Ok(v) => v.into_sample_spec(),
            Err(e) => Err(e),
        }
    }

    pub fn put_channel_volume(&mut self, value: ChannelVolume)
        ensures
            final(self)@ == old(self)@.push(ValueModel::ChannelVolume(value@)),
    {
        self.put_value(Value::ChannelVolume(value));
    }

    /// Appends the encoding of every value, in order, normalizing each; see
    /// `Value::write_to`. On failure the values before the refused one have
    /// been written.
    pub fn write_to(&self, out: &mut Vec<u8>) -> (r: Result<(), Error>)
        ensures
            r matches Ok(()) ==> final(out)@ == old(out)@ + values_bytes(norm_values(self@))
                && values_wf(norm_values(self@)),
            r is Ok <==> (forall|i: int| 0 <= i < self@.len() ==> value_encodable(
                #[trigger] self@[i])),
            r matches Err(e) ==> e == Error::PayloadTooLarge && exists|k: int|
                0 <= k < self@.len() && !value_encodable(#[trigger] self@[k]) && final(out)@ == old(out)@ + values_bytes(norm_values(self@.take(k))),
    {
        let n = self.values.len();
        let mut i: usize = 0;
        while i < n
            invariant
                i <= n,
                n == self@.len(),
                self@ == models_of(self.values@),
                out@ == old(out)@ + values_bytes(norm_values(self@.take(i as int))),
                values_wf(norm_values(self@.take(i as int))),
                forall|j: int| 0 <= j < i ==> value_encodable(#[trigger] self@[j]),
            decreases n - i,
        {
            let v = &self.values[i];
            let ghost prev = out@;
            match v.write_to(out) {
                Ok(()) => {
                    proof {
                        assert(self@.take(i + 1) =~= self@.take(i as int).push(self@[i as int]));
                        assert(norm_values(self@.take(i + 1)) =~= norm_values(
                            self@.take(i as int),
                        ).push(value_norm(self@[i as int])));
                        lemma_values_bytes_push(
                            norm_values(self@.take(i as int)),
                            value_norm(self@[i as int]),
                        );
                        assert(out@ =~= old(out)@ + values_bytes(norm_values(self@.take(i + 1))));
                        assert forall|j: int|
                            0 <= j < norm_values(self@.take(i + 1)).len() implies value_wf(
                            #[trigger] norm_values(self@.take(i + 1))[j],
                        ) by {
                            assert(norm_values(self@.take(i + 1))[j] == value_norm(self@[j]));
                            if j < i {
                                assert(norm_values(self@.take(i as int))[j] == value_norm(
                                    self@[j],
                                ));
                            }
                        };
                    }
                    i += 1;
                },
                Err(e) => {
                    return Err(e);
                },
            }
        }
        proof {
            assert(self@.take(n as int) =~= self@);
        }
        Ok(())
    }

    /// The encoding of the whole tag-struct as a fresh byte vector.
    pub fn to_vec(&self) -> (r: Result<Vec<u8>, Error>)
        ensures
            r matches Ok(b) ==> b@ == values_bytes(norm_values(self@)) && values_wf(norm_values(
                self@,
            )),
            r is Ok <==> (forall|i: int| 0 <= i < self@.len() ==> value_encodable(
                #[trigger] self@[i])),
            r matches Err(e) ==> e == Error::PayloadTooLarge,
    {
        let mut data: Vec<u8> = Vec::new();
        match self.write_to(&mut data) {
            Ok(()) => Ok(data),
            Err(e) => Err(e),
        }
    }

    /// Decodes a whole byte string into its values; every byte is consumed.
    /// Whenever the input is the encoding of a well-formed value sequence,
    /// exactly that sequence is returned; on any other input the decode
    /// fails, and no partial value is kept.
    #[verifier::rlimit(100)]
    pub fn parse(bytes: &[u8]) -> (r: Result<TagStruct, Error>)
        ensures
            r matches Ok(t) ==> values_wf(t@) && norm_values(t@) == t@ && values_bytes(t@)
                == bytes@,
            forall|vs: Seq<ValueModel>|
                #![trigger values_bytes(vs)]
                values_wf(vs) && values_bytes(vs) == bytes@ ==> (r matches Ok(t) && t@ == vs),
            r matches Err(e) ==> (e == Error::Decode || e matches Error::UnknownValueTag(_)),
    {
        let n = bytes.len();
        let mut values: Vec<Value> = Vec::new();
        let mut pos: usize = 0;
        proof {
            assert(models_of(values@) =~= Seq::<ValueModel>::empty());
            assert(norm_values(models_of(values@)) =~= models_of(values@));
            assert(values_bytes(models_of(values@)) =~= bytes@.take(0));
            assert forall|vs: Seq<ValueModel>|
                #![trigger values_bytes(vs)]
                values_wf(vs) && values_bytes(vs) == bytes@ implies values@.len() <= vs.len()
                && models_of(values@) == vs.take(0) && values_bytes(vs.skip(0)) == bytes@.skip(
                0,
            ) by {
                assert(vs.take(0) =~= models_of(values@));
                assert(vs.skip(0) =~= vs);
                assert(bytes@.skip(0) =~= bytes@);
            };
        }
        while pos < n
            invariant
                pos <= n,
                n == bytes@.len(),
                values_wf(models_of(values@)),
                norm_values(models_of(values@)) == models_of(values@),
                values_bytes(models_of(values@)) == bytes@.take(pos as int),
                forall|vs: Seq<ValueModel>|
                    #![trigger values_bytes(vs)]
                    values_wf(vs) && values_bytes(vs) == bytes@ ==> values@.len() <= vs.len()
                        && models_of(values@) == vs.take(values@.len() as int) && values_bytes(
                        vs.skip(values@.len() as int),
                    ) == bytes@.skip(pos as int),
            decreases n - pos,
        {
            let ghost acc = models_of(values@);
            let ghost k = values@.len() as int;
            proof {
                assert forall|vs: Seq<ValueModel>|
                    #![trigger values_bytes(vs)]
                    values_wf(vs) && values_bytes(vs) == bytes@ implies vs.len() > k
                    && is_encoding_at(bytes@, pos as int, vs[k]) && value_wf(vs[k]) by {
                    lemma_parse_step(bytes@, pos as int, vs, k);
                };
            }
            match Value::read_from(bytes, pos) {
                Err(e) => {
                    proof {
                        assert forall|vs: Seq<ValueModel>|
                            #![trigger values_bytes(vs)]
                            values_wf(vs) && values_bytes(vs) == bytes@ implies false by {};
                    }
                    return Err(e);
                },
                Ok((v, end)) => {
                    let ghost vm = v@;
                    proof {
                        assert(models_of(values@.push(v)) =~= acc.push(vm));
                        lemma_values_bytes_push(acc, vm);
                        assert(values_bytes(acc.push(vm)) =~= bytes@.take(end as int)) by {
                            assert(bytes@.take(end as int) =~= bytes@.take(pos as int)
                                + bytes@.subrange(pos as int, end as int));
                        }
                        assert forall|j: int| 0 <= j < acc.push(vm).len() implies value_wf(
                            #[trigger] acc.push(vm)[j],
                        ) && value_norm(acc.push(vm)[j]) == acc.push(vm)[j] by {
                            if j < acc.len() {
                                assert(acc[j] == norm_values(acc)[j]);
                            }
                        };
                        assert(norm_values(acc.push(vm)) =~= acc.push(vm));
                        assert forall|vs: Seq<ValueModel>|
                            #![trigger values_bytes(vs)]
                            values_wf(vs) && values_bytes(vs) == bytes@ implies k + 1 <= vs.len()
                            && acc.push(vm) == vs.take(k + 1) && values_bytes(vs.skip(k + 1))
                            == bytes@.skip(end as int) by {
                            lemma_parse_step(bytes@, pos as int, vs, k);
                            assert(vm == vs[k] && end == pos + value_bytes(vs[k]).len());
                            assert(vs.take(k + 1) =~= vs.take(k).push(vs[k]));
                        };
                    }
                    values.push(v);
                    pos = end;
                },
            }
        }
        let r = TagStruct { values };
        proof {
            assert(values_bytes(r@) =~= bytes@) by {
                assert(bytes@.take(pos as int) =~= bytes@);
            }
            assert forall|vs: Seq<ValueModel>|
                #![trigger values_bytes(vs)]
                values_wf(vs) && values_bytes(vs) == bytes@ implies r@ == vs by {
                let k = r.values@.len() as int;
                assert(values_bytes(vs.skip(k)) == bytes@.skip(pos as int));
                assert(bytes@.skip(pos as int).len() == 0);
                lemma_values_bytes_empty(vs.skip(k));
                assert(vs.skip(k).len() == 0);
                assert(vs.take(k) =~= vs);
            };
        }
        Ok(r)
    }
}


} // verus!
