//! [`RawValue`]: a value as encoded on the wire (MessagePack or JSON).

use vstd::prelude::*;

use crate::diagnostics::{one_more_error, Diagnostics};

verus! {

/// Encoded value
#[derive(Debug)]
pub enum RawValue {
    /// Message Pack encoded value
    MessagePack(Vec<u8>),
    /// JSON encoded value
    Json(Vec<u8>),
}

/// The MessagePack encoding of `nil`
pub open spec fn null_message_pack() -> Seq<u8> {
    seq![0xc0u8]
}

/// The JSON encoding of `null`
pub open spec fn null_json() -> Seq<u8> {
    seq![0x6eu8, 0x75u8, 0x6cu8, 0x6cu8]
}

/// The bytes of an encoded value
pub open spec fn raw_bytes(v: RawValue) -> Seq<u8> {
    match v {
        RawValue::MessagePack(b) => b@,
        RawValue::Json(b) => b@,
    }
}

/// An encoded value is null when it is empty or the encoding of null in its format
pub open spec fn raw_is_null(v: RawValue) -> bool {
    match v {
        RawValue::MessagePack(b) => b@.len() == 0 || b@ == null_message_pack(),
        RawValue::Json(b) => b@.len() == 0 || b@ == null_json(),
    }
}

/// The bytes that a decoder reads from an encoded value: an empty value stands for null
pub open spec fn decoded_input(v: RawValue) -> Seq<u8> {
    match v {
        RawValue::MessagePack(b) => if b@.len() == 0 {
            null_message_pack()
        } else {
            b@
        },
        RawValue::Json(b) => if b@.len() == 0 {
            null_json()
        } else {
            b@
        },
    }
}

fn bytes_equal(a: &[u8], b: &[u8]) -> (r: bool)
    ensures
        r == (a@ == b@),
{
    if a.len() != b.len() {
        return false;
    }
    let n = a.len();
    for i in 0..n
        invariant
            n == a@.len(),
            n == b@.len(),
            forall|j: int| 0 <= j < i ==> a@[j] == b@[j],
    {
        if a[i] != b[i] {
            return false;
        }
    }
    assert(a@ =~= b@);
    true
}

fn null_message_pack_bytes() -> (r: Vec<u8>)
    ensures
        r@ == null_message_pack(),
{
    let mut v = Vec::new();
    v.push(0xc0u8);
    assert(v@ =~= null_message_pack());
    v
}

fn null_json_bytes() -> (r: Vec<u8>)
    ensures
        r@ == null_json(),
{
    let mut v = Vec::new();
    v.push(0x6eu8);
    v.push(0x75u8);
    v.push(0x6cu8);
    v.push(0x6cu8);
    assert(v@ =~= null_json());
    v
}

fn copy_bytes(b: &[u8]) -> (r: Vec<u8>)
    ensures
        r@ == b@,
{
    let mut v = Vec::new();
    let n = b.len();
    for i in 0..n
        invariant
            n == b@.len(),
            v@ == b@.take(i as int),
    {
        v.push(b[i]);
        assert(v@ =~= b@.take(i as int + 1));
    }
    assert(b@.take(n as int) =~= b@);
    v
}

impl Clone for RawValue {
    fn clone(&self) -> (r: Self)
        ensures
            (r is MessagePack) == (*self is MessagePack),
            raw_bytes(r) == raw_bytes(*self),
    {
        match self {
            RawValue::MessagePack(b) => RawValue::MessagePack(copy_bytes(b.as_slice())),
            RawValue::Json(b) => RawValue::Json(copy_bytes(b.as_slice())),
        }
    }
}

impl Default for RawValue {
    /// The MessagePack encoding of null
    fn default() -> (r: Self)
        ensures
            r matches RawValue::MessagePack(b) && b@ == null_message_pack(),
    {
        RawValue::MessagePack(null_message_pack_bytes())
    }
}

impl RawValue {
    /// Check if the encoded value is null
    pub fn is_null(&self) -> (r: bool)
        ensures
            r == raw_is_null(*self),
    {
        match self {
            RawValue::MessagePack(mp) => {
                let null = null_message_pack_bytes();
                mp.len() == 0 || bytes_equal(mp.as_slice(), null.as_slice())
            },
            RawValue::Json(json) => {
                let null = null_json_bytes();
                json.len() == 0 || bytes_equal(json.as_slice(), null.as_slice())
            },
        }
    }

    /// The bytes a decoder reads: the encoded bytes, or the encoding of null when they are empty
    pub fn decoder_input(&self) -> (r: Vec<u8>)
        ensures
            r@ == decoded_input(*self),
    {
        match self {
            RawValue::MessagePack(mp) => if mp.len() == 0 {
                null_message_pack_bytes()
            } else {
                copy_bytes(mp.as_slice())
            },
            RawValue::Json(json) => if json.len() == 0 {
                null_json_bytes()
            } else {
                copy_bytes(json.as_slice())
            },
        }
    }

    /// Whether the value is MessagePack encoded (JSON otherwise)
    pub fn is_message_pack(&self) -> (r: bool)
        ensures
            r == (*self is MessagePack),
    {
        matches!(self, RawValue::MessagePack(_))
    }
}

/// Hand back the outcome of a decoding or an encoding: the value when it succeeded; otherwise
/// the error message is reported as a root error in `diags` and nothing is returned.
///
/// Returns [`None`] iff there is an error reported in diagnostics.
pub fn report_codec_outcome<T>(diags: &mut Diagnostics, outcome: Result<T, String>) -> (r: Option<T>)
    ensures
        match outcome {
            Ok(v) => r == Some(v) && final(diags)@ == old(diags)@,
            Err(msg) => r is None && one_more_error(
                old(diags)@,
                final(diags)@,
                msg@,
                Seq::empty(),
                Seq::empty(),
            ),
        },
{
    match outcome {
        Ok(value) => Some(value),
        Err(err) => {
            diags.root_error_short(err.as_str());
            None
        },
    }
}

/// Wrap MessagePack bytes produced by an encoder into a [`RawValue`]; an encoding failure is
/// reported in `diags`.
pub fn message_pack_outcome(diags: &mut Diagnostics, outcome: Result<Vec<u8>, String>) -> (r:
    Option<RawValue>)
    ensures
        match outcome {
            Ok(v) => r == Some(RawValue::MessagePack(v)) && final(diags)@ == old(diags)@,
            Err(msg) => r is None && one_more_error(
                old(diags)@,
                final(diags)@,
                msg@,
                Seq::empty(),
                Seq::empty(),
            ),
        },
{
    match report_codec_outcome(diags, outcome) {
        Some(bytes) => Some(RawValue::MessagePack(bytes)),
        None => None,
    }
}

/// The default encoded value is null
pub proof fn law_default_is_null(d: RawValue)
    requires
        d matches RawValue::MessagePack(b) && b@ == null_message_pack(),
    ensures
        raw_is_null(d),
{
}

} // verus!
