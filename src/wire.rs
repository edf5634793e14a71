//! Protobuf-style wire layer: LEB128 varints, field keys and length-delimited fields.
use vstd::prelude::*;

verus! {

broadcast use vstd::seq_lib::group_seq_properties;

#[verifier::external_type_specification]
#[verifier::external_body]
pub struct ExDecodeError(prost::DecodeError);

/// The LEB128 form of a natural number: seven bits per byte, low bits first,
/// with the high bit set on every byte but the last.
pub open spec fn varint_bytes(n: nat) -> Seq<u8>
    decreases n,
{
    if n < 128 {
        seq![n as u8]
    } else {
        seq![(n % 128 + 128) as u8] + varint_bytes(n / 128)
    }
}

pub proof fn lemma_varint_nonempty(n: nat)
    ensures
        varint_bytes(n).len() >= 1,
    decreases n,
{
    if n >= 128 {
        lemma_varint_nonempty(n / 128);
    }
}

/// Relies on prost::encoding::encode_varint: it appends the LEB128 form of the value.
#[verifier::external_body]
fn encode_varint(v: u64, buf: &mut Vec<u8>)
    ensures
        final(buf)@ == old(buf)@ + varint_bytes(v as nat),
{
    prost::encoding::encode_varint(v, buf)
}

/// Relies on prost::encoding::decode_varint: on bytes that begin with the LEB128 form
/// of a value it yields that value and consumes exactly that form, and whenever it
/// succeeds it consumes at least one byte. The second component is the number of
/// bytes left after the varint.
#[verifier::external_body]
fn decode_varint(bytes: &[u8], pos: usize) -> (r: Result<(u64, usize), prost::DecodeError>)
    requires
        pos <= bytes@.len(),
    ensures
        r is Ok ==> r->Ok_0.1 < bytes@.len() - pos,
        forall|v: u64|
            #![trigger varint_bytes(v as nat)]
            varint_bytes(v as nat).is_prefix_of(bytes@.skip(pos as int)) ==> (r is Ok && r->Ok_0.0
                == v && r->Ok_0.1 == bytes@.len() - pos - varint_bytes(v as nat).len()),
{
    let mut rest = &bytes[pos..];
    let v = prost::encoding::decode_varint(&mut rest)?;
    Ok((v, rest.len()))
}

/// The value carried by one field on the wire.
pub enum WireValue {
    Varint(u64),
    Bytes(Vec<u8>),
}

/// One field on the wire: its number and its value.
pub struct WireField {
    pub number: u64,
    pub value: WireValue,
}

pub enum WireValueV {
    Varint(u64),
    Bytes(Seq<u8>),
}

pub struct FieldV {
    pub number: nat,
    pub value: WireValueV,
}

impl View for WireField {
    type V = FieldV;

    open spec fn view(&self) -> FieldV {
        FieldV {
            number: self.number as nat,
            value: match self.value {
                WireValue::Varint(v) => WireValueV::Varint(v),
                WireValue::Bytes(b) => WireValueV::Bytes(b@),
            },
        }
    }
}

pub open spec fn fields_view(v: Seq<WireField>) -> Seq<FieldV> {
    v.map_values(|f: WireField| f@)
}

/// Field numbers run from 1 to 2^29 - 1.
pub open spec fn field_wf(f: FieldV) -> bool {
    1 <= f.number < 0x2000_0000
}

pub open spec fn fields_wf(fs: Seq<FieldV>) -> bool {
    forall|i: int| 0 <= i < fs.len() ==> #[trigger] field_wf(fs[i])
}

pub open spec fn key_bytes(number: nat, wire_type: nat) -> Seq<u8> {
    varint_bytes(number * 8 + wire_type)
}

pub open spec fn wire_type(f: FieldV) -> nat {
    if f.value is Varint {
        0
    } else {
        2
    }
}

/// What follows the key of a field: a varint, or a length and that many bytes.
pub open spec fn field_body(f: FieldV) -> Seq<u8> {
    match f.value {
        WireValueV::Varint(v) => varint_bytes(v as nat),
        WireValueV::Bytes(p) => varint_bytes(p.len()) + p,
    }
}

pub open spec fn field_bytes(f: FieldV) -> Seq<u8> {
    key_bytes(f.number, wire_type(f)) + field_body(f)
}

/// The bytes of a message made of the given fields, in order.
pub open spec fn fields_bytes(fs: Seq<FieldV>) -> Seq<u8>
    decreases fs.len(),
{
    if fs.len() == 0 {
        seq![]
    } else {
        field_bytes(fs[0]) + fields_bytes(fs.drop_first())
    }
}

pub open spec fn bytes_field(number: nat, p: Seq<u8>) -> FieldV {
    FieldV { number, value: WireValueV::Bytes(p) }
}

pub proof fn lemma_fields_bytes_push(fs: Seq<FieldV>, f: FieldV)
    ensures
        fields_bytes(fs.push(f)) == fields_bytes(fs) + field_bytes(f),
    decreases fs.len(),
{
    reveal_with_fuel(fields_bytes, 2);
    if fs.len() == 0 {
        assert(fs.push(f).drop_first() =~= Seq::<FieldV>::empty());
        assert(fields_bytes(fs.push(f)) =~= field_bytes(f));
    } else {
        assert(fs.push(f).drop_first() =~= fs.drop_first().push(f));
        lemma_fields_bytes_push(fs.drop_first(), f);
        assert(fields_bytes(fs.push(f)) =~= fields_bytes(fs) + field_bytes(f));
    }
}

pub proof fn lemma_fields_bytes_split(fs: Seq<FieldV>, k: int)
    requires
        0 <= k < fs.len(),
    ensures
        fields_bytes(fs.skip(k)) == field_bytes(fs[k]) + fields_bytes(fs.skip(k + 1)),
{
    assert(fs.skip(k).drop_first() =~= fs.skip(k + 1));
}

pub proof fn lemma_field_bytes_nonempty(f: FieldV)
    ensures
        field_bytes(f).len() >= 1,
{
    lemma_varint_nonempty(f.number * 8 + wire_type(f));
}

/// Appends a length-delimited field.
pub fn put_bytes_field(buf: &mut Vec<u8>, number: u64, payload: &[u8])
    requires
        1 <= number < 0x2000_0000,
    ensures
        final(buf)@ == old(buf)@ + field_bytes(bytes_field(number as nat, payload@)),
{
    encode_varint(number * 8 + 2, buf);
    encode_varint(payload.len() as u64, buf);
    let ghost mid = buf@;
    let mut i: usize = 0;
    while i < payload.len()
        invariant
            i <= payload@.len(),
            buf@ == mid + payload@.take(i as int),
        decreases payload@.len() - i,
    {
        buf.push(payload[i]);
        i = i + 1;
        assert(payload@.take(i as int) =~= payload@.take(i - 1).push(payload@[i - 1]));
    }
    assert(payload@.take(payload@.len() as int) =~= payload@);
    assert(final(buf)@ =~= old(buf)@ + field_bytes(bytes_field(number as nat, payload@)));
}

proof fn lemma_key_split(n: nat, w: nat)
    requires
        w < 8,
    ensures
        (n * 8 + w) / 8 == n,
        (n * 8 + w) % 8 == w,
{
    assert((n * 8 + w) / 8 == n && (n * 8 + w) % 8 == w) by (nonlinear_arith)
        requires
            w < 8,
    ;
}

/// Reads a length-delimited payload of `n` bytes that starts at `start`.
fn read_payload(bytes: &[u8], start: usize, n: u64) -> (r: Option<Vec<u8>>)
    requires
        start <= bytes@.len(),
    ensures
        r is Some <==> n <= bytes@.len() - start,
        r is Some ==> r->0@ == bytes@.subrange(start as int, start + n),
{
    if n > (bytes.len() - start) as u64 {
        return None;
    }
    let end: usize = start + n as usize;
    let mut payload: Vec<u8> = Vec::new();
    let mut j: usize = start;
    while j < end
        invariant
            start <= j <= end <= bytes@.len(),
            end == start + n,
            payload@ == bytes@.subrange(start as int, j as int),
        decreases end - j,
    {
        payload.push(bytes[j]);
        j = j + 1;
        assert(payload@ =~= bytes@.subrange(start as int, j as int));
    }
    Some(payload)
}

proof fn lemma_field_parts(f: FieldV, tail: Seq<u8>)
    requires
        field_wf(f),
    ensures
        ({
            let kv = (f.number * 8 + wire_type(f)) as u64;
            &&& (f.number * 8 + wire_type(f)) <= u64::MAX
            &&& kv / 8 == f.number
            &&& kv % 8 == wire_type(f)
            &&& varint_bytes(kv as nat).is_prefix_of(field_bytes(f) + tail)
            &&& (field_bytes(f) + tail).skip(varint_bytes(kv as nat).len() as int) == field_body(f)
                + tail
        }),
{
    lemma_key_split(f.number, wire_type(f));
    let kv = (f.number * 8 + wire_type(f)) as u64;
    let k = varint_bytes(kv as nat);
    assert((field_bytes(f) + tail).subrange(0, k.len() as int) =~= k);
    assert((field_bytes(f) + tail).skip(k.len() as int) =~= field_body(f) + tail);
}

proof fn lemma_prefix_skip(a: Seq<u8>, b: Seq<u8>)
    ensures
        a.is_prefix_of(a + b),
        (a + b).skip(a.len() as int) == b,
{
    assert((a + b).subrange(0, a.len() as int) =~= a);
    assert((a + b).skip(a.len() as int) =~= b);
}

/// Reads the varint field body that starts at `pos`.
fn read_varint_body(bytes: &[u8], pos: usize, number: u64) -> (r: Option<(WireField, usize)>)
    requires
        pos <= bytes@.len(),
    ensures
        r matches Some(x) ==> pos < x.1 <= bytes@.len(),
        forall|v: u64, tail: Seq<u8>|
            #![trigger varint_bytes(v as nat).add(tail)]
            bytes@.skip(pos as int) == varint_bytes(v as nat).add(tail) ==> (r matches Some(x)
                && x.0@ == (FieldV { number: number as nat, value: WireValueV::Varint(v) })
                && x.1 == bytes@.len() - tail.len()),
{
    let (v, rest) = match decode_varint(bytes, pos) {
        Ok(x) => x,
        Err(_) => {
            proof {
                assert forall|v: u64, tail: Seq<u8>|
                    #![trigger varint_bytes(v as nat).add(tail)]
                    bytes@.skip(pos as int) == varint_bytes(v as nat).add(tail) implies false by {
                    lemma_prefix_skip(varint_bytes(v as nat), tail);
                }
            }
            return None;
        },
    };
    let r = (WireField { number, value: WireValue::Varint(v) }, bytes.len() - rest);
    proof {
        assert forall|v2: u64, tail: Seq<u8>|
            #![trigger varint_bytes(v2 as nat).add(tail)]
            bytes@.skip(pos as int) == varint_bytes(v2 as nat).add(tail) implies (r.0@ == (FieldV {
                number: number as nat,
                value: WireValueV::Varint(v2),
            }) && r.1 == bytes@.len() - tail.len()) by {
            lemma_prefix_skip(varint_bytes(v2 as nat), tail);
        }
    }
    Some(r)
}

/// Reads the length-delimited field body that starts at `pos`.
fn read_bytes_body(bytes: &[u8], pos: usize, number: u64) -> (r: Option<(WireField, usize)>)
    requires
        pos <= bytes@.len(),
    ensures
        r matches Some(x) ==> pos < x.1 <= bytes@.len(),
        forall|p: Seq<u8>, tail: Seq<u8>|
            #![trigger varint_bytes(p.len()).add(p).add(tail)]
            bytes@.skip(pos as int) == varint_bytes(p.len()).add(p).add(tail) ==> (r matches Some(x)
                && x.0@ == bytes_field(number as nat, p) && x.1 == bytes@.len() - tail.len()),
{
    let blen: usize = bytes.len();
    assert(bytes@.len() <= u64::MAX);
    let (n, rest) = match decode_varint(bytes, pos) {
        Ok(x) => x,
        Err(_) => {
            proof {
                assert forall|p: Seq<u8>, tail: Seq<u8>|
                    #![trigger varint_bytes(p.len()).add(p).add(tail)]
                    bytes@.skip(pos as int) == varint_bytes(p.len()).add(p).add(tail) implies false by {
                    assert(bytes@.skip(pos as int).len() == bytes@.len() - pos);
                    assert(varint_bytes(p.len()).add(p).add(tail).len() == varint_bytes(p.len()).len() + p.len() + tail.len());
                    assert(p.len() <= bytes@.len());
                    let pl = p.len() as u64;
                    assert(bytes@.skip(pos as int) =~= varint_bytes(pl as nat) + (p + tail));
                    lemma_prefix_skip(varint_bytes(pl as nat), p + tail);
                }
            }
            return None;
        },
    };
    let start: usize = bytes.len() - rest;
    proof {
        assert forall|p: Seq<u8>, tail: Seq<u8>|
            #![trigger varint_bytes(p.len()).add(p).add(tail)]
            bytes@.skip(pos as int) == varint_bytes(p.len()).add(p).add(tail) implies n == p.len()
            && bytes@.skip(start as int) == p + tail by {
            assert(bytes@.skip(pos as int).len() == bytes@.len() - pos);
                    assert(varint_bytes(p.len()).add(p).add(tail).len() == varint_bytes(p.len()).len() + p.len() + tail.len());
                    assert(p.len() <= bytes@.len());
            let pl = p.len() as u64;
            assert(bytes@.skip(pos as int) =~= varint_bytes(pl as nat) + (p + tail));
            lemma_prefix_skip(varint_bytes(pl as nat), p + tail);
            assert(bytes@.skip(start as int) =~= bytes@.skip(pos as int).skip(
                varint_bytes(pl as nat).len() as int,
            ));
        }
    }
    let payload = match read_payload(bytes, start, n) {
        Some(p) => p,
        None => {
            return None;
        },
    };
    let end: usize = start + n as usize;
    let r = (WireField { number, value: WireValue::Bytes(payload) }, end);
    proof {
        assert forall|p: Seq<u8>, tail: Seq<u8>|
            #![trigger varint_bytes(p.len()).add(p).add(tail)]
            bytes@.skip(pos as int) == varint_bytes(p.len()).add(p).add(tail) implies (r.0@
                == bytes_field(number as nat, p) && r.1 == bytes@.len() - tail.len()) by {
            assert(bytes@.skip(start as int).subrange(0, n as int) =~= p);
            assert(payload@ =~= p);
        }
    }
    Some(r)
}

/// Reads the field that starts at `pos`, and the position just after it. On bytes
/// that begin with a well-formed field it yields that field.
fn read_field(bytes: &[u8], pos: usize) -> (r: Option<(WireField, usize)>)
    requires
        pos <= bytes@.len(),
    ensures
        r matches Some(x) ==> pos < x.1 <= bytes@.len(),
        forall|f: FieldV, tail: Seq<u8>|
            #![trigger field_bytes(f).add(tail)]
            field_wf(f) && bytes@.skip(pos as int) == field_bytes(f).add(tail) ==> (r matches Some(x)
                && x.0@ == f && x.1 == bytes@.len() - tail.len()),
{
    let (key, rest) = match decode_varint(bytes, pos) {
        Ok(x) => x,
        Err(_) => {
            proof {
                assert forall|f: FieldV, tail: Seq<u8>|
                    #![trigger field_bytes(f).add(tail)]
                    field_wf(f) && bytes@.skip(pos as int) == field_bytes(f).add(tail) implies false by {
                    lemma_field_parts(f, tail);
                }
            }
            return None;
        },
    };
    let after_key: usize = bytes.len() - rest;
    let number: u64 = key / 8;
    let kind: u64 = key % 8;
    proof {
        assert forall|f: FieldV, tail: Seq<u8>|
            #![trigger field_bytes(f).add(tail)]
            field_wf(f) && bytes@.skip(pos as int) == field_bytes(f).add(tail) implies number
            == f.number && kind == wire_type(f) && bytes@.skip(after_key as int) == field_body(
            f) + tail by {
            lemma_field_parts(f, tail);
            let kv = (f.number * 8 + wire_type(f)) as u64;
            assert(bytes@.skip(after_key as int) =~= bytes@.skip(pos as int).skip(
                varint_bytes(kv as nat).len() as int,
            ));
        }
    }
    if kind == 0 {
        let r = read_varint_body(bytes, after_key, number);
        proof {
            assert forall|f: FieldV, tail: Seq<u8>|
                #![trigger field_bytes(f).add(tail)]
                field_wf(f) && bytes@.skip(pos as int) == field_bytes(f).add(tail) implies (r matches Some(x)
                    && x.0@ == f && x.1 == bytes@.len() - tail.len()) by {
                let v = f.value->Varint_0;
                assert(bytes@.skip(after_key as int) == varint_bytes(v as nat).add(tail));
            }
        }
        r
    } else if kind == 2 {
        let r = read_bytes_body(bytes, after_key, number);
        proof {
            assert forall|f: FieldV, tail: Seq<u8>|
                #![trigger field_bytes(f).add(tail)]
                field_wf(f) && bytes@.skip(pos as int) == field_bytes(f).add(tail) implies (r matches Some(x)
                    && x.0@ == f && x.1 == bytes@.len() - tail.len()) by {
                let p = f.value->Bytes_0;
                assert(bytes@.skip(after_key as int) == varint_bytes(p.len()).add(p).add(tail));
            }
        }
        r
    } else {
        None
    }
}

/// Splits a message into its fields. Varint and length-delimited fields are kept;
/// any other wire type makes the message unreadable. On the bytes of a sequence of
/// well-formed fields it yields exactly those fields.
pub fn read_fields(bytes: &[u8]) -> (r: Option<Vec<WireField>>)
    ensures
        forall|fs: Seq<FieldV>|
            #![trigger fields_bytes(fs)]
            fields_wf(fs) && bytes@ == fields_bytes(fs) ==> (r is Some && fields_view(r->0@) == fs),
{
    let mut out: Vec<WireField> = Vec::new();
    let mut pos: usize = 0;
    while pos < bytes.len()
        invariant
            pos <= bytes@.len(),
            forall|fs: Seq<FieldV>|
                #![trigger fields_bytes(fs)]
                fields_wf(fs) && bytes@ == fields_bytes(fs) ==> (out@.len() < fs.len() + 1
                    && fields_view(out@) == fs.take(out@.len() as int) && bytes@.skip(pos as int)
                    == fields_bytes(fs.skip(out@.len() as int))),
        decreases bytes@.len() - pos,
    {
        let ghost old_out = out@;
        let ghost old_pos = pos;
        proof {
            assert forall|fs: Seq<FieldV>|
                #![trigger fields_bytes(fs)]
                fields_wf(fs) && bytes@ == fields_bytes(fs) implies old_out.len() < fs.len()
                && bytes@.skip(pos as int) == field_bytes(fs[old_out.len() as int]).add(
                fields_bytes(fs.skip(old_out.len() as int + 1))) by {
                let k = old_out.len() as int;
                if k >= fs.len() {
                    assert(fs.skip(k) =~= Seq::<FieldV>::empty());
                    assert(false);
                }
                lemma_fields_bytes_split(fs, k);
                assert(field_wf(fs[k]));
            }
        }
        match read_field(bytes, pos) {
            Some((f, next)) => {
                out.push(f);
                pos = next;
                assert forall|fs: Seq<FieldV>|
                    #![trigger fields_bytes(fs)]
                    fields_wf(fs) && bytes@ == fields_bytes(fs) implies (out@.len() < fs.len() + 1
                        && fields_view(out@) == fs.take(out@.len() as int) && bytes@.skip(
                        pos as int) == fields_bytes(fs.skip(out@.len() as int))) by {
                    let k = old_out.len() as int;
                    let tail = fields_bytes(fs.skip(k + 1));
                    assert(field_wf(fs[k]));
                    assert(bytes@.skip(old_pos as int) == field_bytes(fs[k]).add(tail));
                    assert(bytes@.skip(pos as int) =~= tail);
                    assert(fs.take(k + 1) =~= fs.take(k).push(fs[k]));
                    assert(fields_view(out@) =~= fields_view(old_out).push(out@[k]@));
                }
            },
            None => {
                proof {
                    assert forall|fs: Seq<FieldV>|
                        #![trigger fields_bytes(fs)]
                        fields_wf(fs) && bytes@ == fields_bytes(fs) implies false by {
                        let k = old_out.len() as int;
                        let tail = fields_bytes(fs.skip(k + 1));
                        assert(field_wf(fs[k]));
                        assert(bytes@.skip(old_pos as int) == field_bytes(fs[k]).add(tail));
                    }
                }
                return None;
            },
        }
    }
    proof {
        assert forall|fs: Seq<FieldV>|
            #![trigger fields_bytes(fs)]
            fields_wf(fs) && bytes@ == fields_bytes(fs) implies (fields_view(out@) == fs) by {
            let k = out@.len() as int;
            if k < fs.len() {
                lemma_fields_bytes_split(fs, k);
                lemma_field_bytes_nonempty(fs[k]);
                assert(false);
            }
            assert(fs.take(k) =~= fs);
        }
    }
    Some(out)
}

} // verus!
