//! The binary schema format: each schema record is a message of numbered fields.
use vstd::prelude::*;
use vstd::utf8::{decode_utf8, encode_utf8, encode_utf8_decode_utf8, encode_utf8_valid_utf8, valid_utf8};

use crate::schema::{
    Data, DataFieldV, DataV, Decl, DeclV, Field, Module, ModuleV, SchemaType, TypeRef, TypeRefV,
    TypeV, Verb, VerbV,
};
use crate::wire::{
    bytes_field, field_wf, fields_bytes, fields_view, fields_wf, lemma_fields_bytes_push,
    put_bytes_field, read_fields, FieldV, WireField, WireValue, WireValueV,
};

verus! {

/// Relies on String::from_utf8: it accepts exactly the valid UTF-8 byte sequences,
/// and the text it returns is the one that they encode.
#[verifier::external_body]
fn utf8_to_string(b: &[u8]) -> (r: Option<String>)
    ensures
        r is Some <==> valid_utf8(b@),
        r matches Some(s) ==> s@ == decode_utf8(b@),
{
    String::from_utf8(b.to_vec()).ok()
}

/// Reads text stored as UTF-8; on the encoding of some text it yields that text.
pub fn decode_text(p: &[u8]) -> (r: Option<String>)
    ensures
        r matches Some(t) ==> valid_utf8(p@) && t@ == decode_utf8(p@),
        forall|s: Seq<char>| #![trigger encode_utf8(s)] p@ == encode_utf8(s) ==> (r matches Some(t) && t@ == s),
{
    let r = utf8_to_string(p);
    proof {
        assert forall|s: Seq<char>| #![trigger encode_utf8(s)] p@ == encode_utf8(s) implies (r matches Some(t) && t@ == s) by {
            encode_utf8_valid_utf8(s);
            encode_utf8_decode_utf8(s);
        }
    }
    r
}

pub open spec fn text_field(n: nat, s: Seq<char>) -> FieldV {
    bytes_field(n, encode_utf8(s))
}

pub open spec fn ref_fields(r: TypeRefV) -> Seq<FieldV> {
    seq![text_field(1, r.module), text_field(2, r.name)]
}

pub open spec fn ref_bytes(r: TypeRefV) -> Seq<u8> {
    fields_bytes(ref_fields(r))
}

/// The field number that tells the kinds of type apart.
pub open spec fn type_tag(t: TypeV) -> nat {
    match t {
        TypeV::Int => 1,
        TypeV::Float => 2,
        TypeV::Str => 3,
        TypeV::Bool => 4,
        TypeV::Time => 5,
        TypeV::Bytes => 6,
        TypeV::Any => 7,
        TypeV::Unit => 8,
        TypeV::Ref(_) => 9,
    }
}

pub open spec fn type_payload(t: TypeV) -> Seq<u8> {
    match t {
        TypeV::Ref(r) => ref_bytes(r),
        _ => seq![],
    }
}

pub open spec fn type_fields(t: TypeV) -> Seq<FieldV> {
    seq![bytes_field(type_tag(t), type_payload(t))]
}

pub open spec fn type_bytes(t: TypeV) -> Seq<u8> {
    fields_bytes(type_fields(t))
}

/// Appends one length-delimited field to a message under construction.
fn push_field(buf: &mut Vec<u8>, Ghost(fs): Ghost<Seq<FieldV>>, number: u64, payload: &[u8])
    requires
        old(buf)@ == fields_bytes(fs),
        1 <= number < 0x2000_0000,
    ensures
        final(buf)@ == fields_bytes(fs.push(bytes_field(number as nat, payload@))),
{
    put_bytes_field(buf, number, payload);
    proof {
        lemma_fields_bytes_push(fs, bytes_field(number as nat, payload@));
    }
}

pub fn encode_ref(r: &TypeRef) -> (b: Vec<u8>)
    ensures
        b@ == ref_bytes(r@),
{
    let mut b: Vec<u8> = Vec::new();
    let ghost fs0 = Seq::<FieldV>::empty();
    assert(b@ =~= fields_bytes(fs0));
    push_field(&mut b, Ghost(fs0), 1, r.module.as_str().as_bytes());
    let ghost fs1 = fs0.push(text_field(1, r.module@));
    push_field(&mut b, Ghost(fs1), 2, r.name.as_str().as_bytes());
    assert(fs1.push(text_field(2, r.name@)) =~= ref_fields(r@));
    b
}

fn prim_tag(t: &SchemaType) -> (n: u64)
    ensures
        n as nat == type_tag(t@),
{
    match t {
        SchemaType::Int => 1,
        SchemaType::Float => 2,
        SchemaType::Str => 3,
        SchemaType::Bool => 4,
        SchemaType::Time => 5,
        SchemaType::Bytes => 6,
        SchemaType::Any => 7,
        SchemaType::Unit => 8,
        SchemaType::Ref(_) => 9,
    }
}

pub fn encode_type(t: &SchemaType) -> (b: Vec<u8>)
    ensures
        b@ == type_bytes(t@),
{
    let payload: Vec<u8> = match t {
        SchemaType::Ref(r) => encode_ref(r),
        _ => Vec::new(),
    };
    assert(payload@ =~= type_payload(t@));
    let mut b: Vec<u8> = Vec::new();
    let ghost fs0 = Seq::<FieldV>::empty();
    assert(b@ =~= fields_bytes(fs0));
    push_field(&mut b, Ghost(fs0), prim_tag(t), payload.as_slice());
    assert(fs0.push(bytes_field(type_tag(t@), payload@)) =~= type_fields(t@));
    b
}

pub proof fn lemma_ref_fields_wf(r: TypeRefV)
    ensures
        fields_wf(ref_fields(r)),
{
}

pub proof fn lemma_type_fields_wf(t: TypeV)
    ensures
        fields_wf(type_fields(t)),
{
}

pub fn decode_ref(b: &[u8]) -> (r: Option<TypeRef>)
    ensures
        forall|x: TypeRefV| #![trigger ref_bytes(x)] b@ == ref_bytes(x) ==> (r matches Some(y) && y@ == x),
{
    let fs = match read_fields(b) {
        Some(fs) => fs,
        None => {
            proof {
                assert forall|x: TypeRefV| #![trigger ref_bytes(x)] b@ == ref_bytes(x) implies false by {
                    lemma_ref_fields_wf(x);
                }
            }
            return None;
        },
    };
    proof {
        assert forall|x: TypeRefV| #![trigger ref_bytes(x)] b@ == ref_bytes(x) implies fields_view(fs@) == ref_fields(x) by {
            lemma_ref_fields_wf(x);
        }
    }
    let mut module: Option<String> = None;
    let mut name: Option<String> = None;
    let mut i: usize = 0;
    while i < fs.len()
        invariant
            i <= fs@.len(),
            forall|x: TypeRefV| #![trigger ref_bytes(x)] b@ == ref_bytes(x) ==> {
                &&& fields_view(fs@) == ref_fields(x)
                &&& (i >= 1 ==> (module matches Some(m) && m@ == x.module))
                &&& (i >= 2 ==> (name matches Some(m) && m@ == x.name))
            },
        decreases fs@.len() - i,
    {
        let f = &fs[i];
        assert(fields_view(fs@)[i as int] == f@);
        match &f.value {
            WireValue::Bytes(p) => {
                if f.number == 1 || f.number == 2 {
                    let s = match decode_text(p.as_slice()) {
                        Some(s) => s,
                        None => return None,
                    };
                    if f.number == 1 {
                        module = Some(s);
                    } else {
                        name = Some(s);
                    }
                }
            },
            WireValue::Varint(_) => {
                if f.number == 1 || f.number == 2 {
                    return None;
                }
            },
        }
        i = i + 1;
    }
    let module = match module {
        Some(m) => m,
        None => String::new(),
    };
    let name = match name {
        Some(m) => m,
        None => String::new(),
    };
    Some(TypeRef { module, name })
}

pub fn decode_type(b: &[u8]) -> (r: Option<SchemaType>)
    ensures
        forall|t: TypeV| #![trigger type_bytes(t)] b@ == type_bytes(t) ==> (r matches Some(y) && y@ == t),
{
    let fs = match read_fields(b) {
        Some(fs) => fs,
        None => {
            proof {
                assert forall|t: TypeV| #![trigger type_bytes(t)] b@ == type_bytes(t) implies false by {
                    lemma_type_fields_wf(t);
                }
            }
            return None;
        },
    };
    proof {
        assert forall|t: TypeV| #![trigger type_bytes(t)] b@ == type_bytes(t) implies fields_view(fs@) == type_fields(t) by {
            lemma_type_fields_wf(t);
        }
    }
    let mut kind: Option<SchemaType> = None;
    let mut i: usize = 0;
    while i < fs.len()
        invariant
            i <= fs@.len(),
            forall|t: TypeV| #![trigger type_bytes(t)] b@ == type_bytes(t) ==> {
                &&& fields_view(fs@) == type_fields(t)
                &&& (i >= 1 ==> (kind matches Some(y) && y@ == t))
            },
        decreases fs@.len() - i,
    {
        let f = &fs[i];
        assert(fields_view(fs@)[i as int] == f@);
        match &f.value {
            WireValue::Bytes(p) => {
                if f.number == 9 {
                    let r = match decode_ref(p.as_slice()) {
                        Some(r) => r,
                        None => return None,
                    };
                    kind = Some(SchemaType::Ref(r));
                } else if f.number == 1 {
                    kind = Some(SchemaType::Int);
                } else if f.number == 2 {
                    kind = Some(SchemaType::Float);
                } else if f.number == 3 {
                    kind = Some(SchemaType::Str);
                } else if f.number == 4 {
                    kind = Some(SchemaType::Bool);
                } else if f.number == 5 {
                    kind = Some(SchemaType::Time);
                } else if f.number == 6 {
                    kind = Some(SchemaType::Bytes);
                } else if f.number == 7 {
                    kind = Some(SchemaType::Any);
                } else if f.number == 8 {
                    kind = Some(SchemaType::Unit);
                }
            },
            WireValue::Varint(_) => {
                if 1 <= f.number && f.number <= 9 {
                    return None;
                }
            },
        }
        i = i + 1;
    }
    kind
}

pub open spec fn data_field_fields(f: DataFieldV) -> Seq<FieldV> {
    seq![text_field(1, f.name), bytes_field(2, type_bytes(f.ty))]
}

pub open spec fn data_field_bytes(f: DataFieldV) -> Seq<u8> {
    fields_bytes(data_field_fields(f))
}

pub open spec fn opt_type_fields(n: nat, t: Option<TypeV>) -> Seq<FieldV> {
    match t {
        Some(x) => seq![bytes_field(n, type_bytes(x))],
        None => seq![],
    }
}

pub open spec fn verb_fields(v: VerbV) -> Seq<FieldV> {
    seq![text_field(1, v.name)] + opt_type_fields(2, v.request) + opt_type_fields(3, v.response)
}

pub open spec fn verb_bytes(v: VerbV) -> Seq<u8> {
    fields_bytes(verb_fields(v))
}

pub open spec fn data_fields(d: DataV) -> Seq<FieldV> {
    seq![text_field(1, d.name)] + Seq::new(
        d.fields.len(),
        |i: int| bytes_field(2, data_field_bytes(d.fields[i])),
    )
}

pub open spec fn data_bytes(d: DataV) -> Seq<u8> {
    fields_bytes(data_fields(d))
}

pub open spec fn decl_fields(d: DeclV) -> Seq<FieldV> {
    match d {
        DeclV::Verb(v) => seq![bytes_field(1, verb_bytes(v))],
        DeclV::Data(x) => seq![bytes_field(2, data_bytes(x))],
    }
}

pub open spec fn decl_bytes(d: DeclV) -> Seq<u8> {
    fields_bytes(decl_fields(d))
}

pub open spec fn module_fields(m: ModuleV) -> Seq<FieldV> {
    seq![text_field(1, m.name)] + Seq::new(
        m.decls.len(),
        |i: int| bytes_field(2, decl_bytes(m.decls[i])),
    )
}

/// The binary schema artifact of a module.
pub open spec fn module_bytes(m: ModuleV) -> Seq<u8> {
    fields_bytes(module_fields(m))
}

pub fn encode_field(f: &Field) -> (b: Vec<u8>)
    ensures
        b@ == data_field_bytes(f@),
{
    let ty = encode_type(&f.ty);
    let mut b: Vec<u8> = Vec::new();
    let ghost fs0 = Seq::<FieldV>::empty();
    assert(b@ =~= fields_bytes(fs0));
    push_field(&mut b, Ghost(fs0), 1, f.name.as_str().as_bytes());
    let ghost fs1 = fs0.push(text_field(1, f.name@));
    push_field(&mut b, Ghost(fs1), 2, ty.as_slice());
    assert(fs1.push(bytes_field(2, ty@)) =~= data_field_fields(f@));
    b
}

pub fn encode_verb(v: &Verb) -> (b: Vec<u8>)
    ensures
        b@ == verb_bytes(v@),
{
    let mut b: Vec<u8> = Vec::new();
    let ghost fs0 = Seq::<FieldV>::empty();
    assert(b@ =~= fields_bytes(fs0));
    push_field(&mut b, Ghost(fs0), 1, v.name.as_str().as_bytes());
    let ghost mut fs = fs0.push(text_field(1, v.name@));
    assert(fs =~= seq![text_field(1, v@.name)]);
    match &v.request {
        Some(t) => {
            let tb = encode_type(t);
            push_field(&mut b, Ghost(fs), 2, tb.as_slice());
            proof {
                fs = fs.push(bytes_field(2, tb@));
            }
        },
        None => {},
    }
    assert(fs =~= seq![text_field(1, v@.name)] + opt_type_fields(2, v@.request));
    match &v.response {
        Some(t) => {
            let tb = encode_type(t);
            push_field(&mut b, Ghost(fs), 3, tb.as_slice());
            proof {
                fs = fs.push(bytes_field(3, tb@));
            }
        },
        None => {},
    }
    assert(fs =~= verb_fields(v@));
    b
}

pub fn encode_data(d: &Data) -> (b: Vec<u8>)
    ensures
        b@ == data_bytes(d@),
{
    let mut b: Vec<u8> = Vec::new();
    let ghost fs0 = Seq::<FieldV>::empty();
    assert(b@ =~= fields_bytes(fs0));
    push_field(&mut b, Ghost(fs0), 1, d.name.as_str().as_bytes());
    let ghost fs1 = fs0.push(text_field(1, d.name@));
    assert(fs1 =~= data_fields(d@).take(1));
    let mut i: usize = 0;
    while i < d.fields.len()
        invariant
            i <= d.fields@.len(),
            b@ == fields_bytes(data_fields(d@).take(i + 1)),
        decreases d.fields@.len() - i,
    {
        let fb = encode_field(&d.fields[i]);
        push_field(&mut b, Ghost(data_fields(d@).take(i + 1)), 2, fb.as_slice());
        assert(data_fields(d@).take(i + 1).push(bytes_field(2, fb@)) =~= data_fields(d@).take(i + 2));
        i = i + 1;
    }
    assert(data_fields(d@).take(i + 1) =~= data_fields(d@));
    b
}

pub fn encode_decl(d: &Decl) -> (b: Vec<u8>)
    ensures
        b@ == decl_bytes(d@),
{
    let mut b: Vec<u8> = Vec::new();
    let ghost fs0 = Seq::<FieldV>::empty();
    assert(b@ =~= fields_bytes(fs0));
    match d {
        Decl::Verb(v) => {
            let p = encode_verb(v);
            push_field(&mut b, Ghost(fs0), 1, p.as_slice());
            assert(fs0.push(bytes_field(1, p@)) =~= decl_fields(d@));
        },
        Decl::Data(x) => {
            let p = encode_data(x);
            push_field(&mut b, Ghost(fs0), 2, p.as_slice());
            assert(fs0.push(bytes_field(2, p@)) =~= decl_fields(d@));
        },
    }
    b
}

/// Writes the binary schema artifact of a module.
pub fn encode_module(m: &Module) -> (b: Vec<u8>)
    ensures
        b@ == module_bytes(m@),
{
    let mut b: Vec<u8> = Vec::new();
    let ghost fs0 = Seq::<FieldV>::empty();
    assert(b@ =~= fields_bytes(fs0));
    push_field(&mut b, Ghost(fs0), 1, m.name.as_str().as_bytes());
    let ghost fs1 = fs0.push(text_field(1, m.name@));
    assert(fs1 =~= module_fields(m@).take(1));
    let mut i: usize = 0;
    while i < m.decls.len()
        invariant
            i <= m.decls@.len(),
            b@ == fields_bytes(module_fields(m@).take(i + 1)),
        decreases m.decls@.len() - i,
    {
        let db = encode_decl(&m.decls[i]);
        push_field(&mut b, Ghost(module_fields(m@).take(i + 1)), 2, db.as_slice());
        assert(module_fields(m@).take(i + 1).push(bytes_field(2, db@)) =~= module_fields(m@).take(i + 2));
        i = i + 1;
    }
    assert(module_fields(m@).take(i + 1) =~= module_fields(m@));
    b
}

pub proof fn lemma_layouts_wf(f: DataFieldV, v: VerbV, d: DataV, x: DeclV, m: ModuleV)
    ensures
        fields_wf(data_field_fields(f)),
        fields_wf(verb_fields(v)),
        fields_wf(data_fields(d)),
        fields_wf(decl_fields(x)),
        fields_wf(module_fields(m)),
{
    assert(fields_wf(verb_fields(v))) by {
        assert forall|i: int| 0 <= i < verb_fields(v).len() implies #[trigger] field_wf(verb_fields(v)[i]) by {
        }
    }
}

pub fn decode_field(b: &[u8]) -> (r: Option<Field>)
    ensures
        forall|x: DataFieldV| #![trigger data_field_bytes(x)] b@ == data_field_bytes(x) ==> (r matches Some(y) && y@ == x),
{
    let fs = match read_fields(b) {
        Some(fs) => fs,
        None => {
            proof {
                assert forall|x: DataFieldV| #![trigger data_field_bytes(x)] b@ == data_field_bytes(x) implies false by {
                    lemma_layouts_wf(x, arbitrary(), arbitrary(), arbitrary(), arbitrary());
                }
            }
            return None;
        },
    };
    proof {
        assert forall|x: DataFieldV| #![trigger data_field_bytes(x)] b@ == data_field_bytes(x) implies fields_view(fs@) == data_field_fields(x) by {
            lemma_layouts_wf(x, arbitrary(), arbitrary(), arbitrary(), arbitrary());
        }
    }
    let mut name: Option<String> = None;
    let mut ty: Option<SchemaType> = None;
    let mut i: usize = 0;
    while i < fs.len()
        invariant
            i <= fs@.len(),
            forall|x: DataFieldV| #![trigger data_field_bytes(x)] b@ == data_field_bytes(x) ==> {
                &&& fields_view(fs@) == data_field_fields(x)
                &&& (i >= 1 ==> (name matches Some(n) && n@ == x.name))
                &&& (i >= 2 ==> (ty matches Some(t) && t@ == x.ty))
            },
        decreases fs@.len() - i,
    {
        let f = &fs[i];
        assert(fields_view(fs@)[i as int] == f@);
        match &f.value {
            WireValue::Bytes(p) => {
                if f.number == 1 {
                    name = match decode_text(p.as_slice()) {
                        Some(s) => Some(s),
                        None => return None,
                    };
                } else if f.number == 2 {
                    ty = match decode_type(p.as_slice()) {
                        Some(t) => Some(t),
                        None => return None,
                    };
                }
            },
            WireValue::Varint(_) => {
                if f.number == 1 || f.number == 2 {
                    return None;
                }
            },
        }
        i = i + 1;
    }
    let name = match name {
        Some(n) => n,
        None => String::new(),
    };
    match ty {
        Some(ty) => Some(Field { name, ty }),
        None => None,
    }
}

pub fn decode_verb(b: &[u8]) -> (r: Option<Verb>)
    ensures
        forall|x: VerbV| #![trigger verb_bytes(x)] b@ == verb_bytes(x) ==> (r matches Some(y) && y@ == x),
{
    let fs = match read_fields(b) {
        Some(fs) => fs,
        None => {
            proof {
                assert forall|x: VerbV| #![trigger verb_bytes(x)] b@ == verb_bytes(x) implies false by {
                    lemma_layouts_wf(arbitrary(), x, arbitrary(), arbitrary(), arbitrary());
                }
            }
            return None;
        },
    };
    proof {
        assert forall|x: VerbV| #![trigger verb_bytes(x)] b@ == verb_bytes(x) implies fields_view(fs@) == verb_fields(x) by {
            lemma_layouts_wf(arbitrary(), x, arbitrary(), arbitrary(), arbitrary());
        }
    }
    let mut name: Option<String> = None;
    let mut request: Option<SchemaType> = None;
    let mut response: Option<SchemaType> = None;
    let mut i: usize = 0;
    while i < fs.len()
        invariant
            i <= fs@.len(),
            forall|x: VerbV| #![trigger verb_bytes(x)] b@ == verb_bytes(x) ==> {
                &&& fields_view(fs@) == verb_fields(x)
                &&& (i >= 1 ==> (name matches Some(n) && n@ == x.name))
                &&& crate::schema::opt_type_view(request) == if i >= 2 && x.request is Some { x.request } else { None }
                &&& crate::schema::opt_type_view(response) == if i == fs@.len() && x.response is Some { x.response } else { None }
            },
        decreases fs@.len() - i,
    {
        let f = &fs[i];
        assert(fields_view(fs@)[i as int] == f@);
        match &f.value {
            WireValue::Bytes(p) => {
                if f.number == 1 {
                    name = match decode_text(p.as_slice()) {
                        Some(s) => Some(s),
                        None => return None,
                    };
                } else if f.number == 2 {
                    request = match decode_type(p.as_slice()) {
                        Some(t) => Some(t),
                        None => return None,
                    };
                } else if f.number == 3 {
                    response = match decode_type(p.as_slice()) {
                        Some(t) => Some(t),
                        None => return None,
                    };
                }
            },
            WireValue::Varint(_) => {
                if 1 <= f.number && f.number <= 3 {
                    return None;
                }
            },
        }
        i = i + 1;
    }
    let name = match name {
        Some(n) => n,
        None => String::new(),
    };
    Some(Verb { name, request, response })
}

pub fn decode_data(b: &[u8]) -> (r: Option<Data>)
    ensures
        forall|x: DataV| #![trigger data_bytes(x)] b@ == data_bytes(x) ==> (r matches Some(y) && y@ == x),
{
    let fs = match read_fields(b) {
        Some(fs) => fs,
        None => {
            proof {
                assert forall|x: DataV| #![trigger data_bytes(x)] b@ == data_bytes(x) implies false by {
                    lemma_layouts_wf(arbitrary(), arbitrary(), x, arbitrary(), arbitrary());
                }
            }
            return None;
        },
    };
    proof {
        assert forall|x: DataV| #![trigger data_bytes(x)] b@ == data_bytes(x) implies fields_view(fs@) == data_fields(x) by {
            lemma_layouts_wf(arbitrary(), arbitrary(), x, arbitrary(), arbitrary());
        }
    }
    let mut name: Option<String> = None;
    let mut fields: Vec<Field> = Vec::new();
    let mut i: usize = 0;
    while i < fs.len()
        invariant
            i <= fs@.len(),
            forall|x: DataV| #![trigger data_bytes(x)] b@ == data_bytes(x) ==> {
                &&& fields_view(fs@) == data_fields(x)
                &&& (i >= 1 ==> (name matches Some(n) && n@ == x.name))
                &&& fields@.map_values(|f: Field| f@) == x.fields.take(if i == 0 { 0 } else { i - 1 })
            },
        decreases fs@.len() - i,
    {
        let f = &fs[i];
        assert(fields_view(fs@)[i as int] == f@);
        let ghost before = fields@;
        match &f.value {
            WireValue::Bytes(p) => {
                if f.number == 1 {
                    name = match decode_text(p.as_slice()) {
                        Some(s) => Some(s),
                        None => return None,
                    };
                } else if f.number == 2 {
                    let d = match decode_field(p.as_slice()) {
                        Some(d) => d,
                        None => return None,
                    };
                    fields.push(d);
                    proof {
                        assert forall|x: DataV| #![trigger data_bytes(x)] b@ == data_bytes(x) implies
                            fields@.map_values(|f: Field| f@) == x.fields.take(i as int) by {
                            assert(fields@.map_values(|f: Field| f@) =~= before.map_values(|f: Field| f@).push(d@));
                            assert(x.fields.take(i as int) =~= x.fields.take(i - 1).push(x.fields[i - 1]));
                        }
                    }
                }
            },
            WireValue::Varint(_) => {
                if f.number == 1 || f.number == 2 {
                    return None;
                }
            },
        }
        i = i + 1;
    }
    proof {
        assert forall|x: DataV| #![trigger data_bytes(x)] b@ == data_bytes(x) implies
            fields@.map_values(|f: Field| f@) == x.fields by {
            assert(x.fields.take(x.fields.len() as int) =~= x.fields);
        }
    }
    let name = match name {
        Some(n) => n,
        None => String::new(),
    };
    Some(Data { name, fields })
}

pub fn decode_decl(b: &[u8]) -> (r: Option<Decl>)
    ensures
        forall|x: DeclV| #![trigger decl_bytes(x)] b@ == decl_bytes(x) ==> (r matches Some(y) && y@ == x),
{
    let fs = match read_fields(b) {
        Some(fs) => fs,
        None => {
            proof {
                assert forall|x: DeclV| #![trigger decl_bytes(x)] b@ == decl_bytes(x) implies false by {
                    lemma_layouts_wf(arbitrary(), arbitrary(), arbitrary(), x, arbitrary());
                }
            }
            return None;
        },
    };
    proof {
        assert forall|x: DeclV| #![trigger decl_bytes(x)] b@ == decl_bytes(x) implies fields_view(fs@) == decl_fields(x) by {
            lemma_layouts_wf(arbitrary(), arbitrary(), arbitrary(), x, arbitrary());
        }
    }
    let mut decl: Option<Decl> = None;
    let mut i: usize = 0;
    while i < fs.len()
        invariant
            i <= fs@.len(),
            forall|x: DeclV| #![trigger decl_bytes(x)] b@ == decl_bytes(x) ==> {
                &&& fields_view(fs@) == decl_fields(x)
                &&& (i >= 1 ==> (decl matches Some(y) && y@ == x))
            },
        decreases fs@.len() - i,
    {
        let f = &fs[i];
        assert(fields_view(fs@)[i as int] == f@);
        match &f.value {
            WireValue::Bytes(p) => {
                if f.number == 1 {
                    decl = match decode_verb(p.as_slice()) {
                        Some(v) => Some(Decl::Verb(v)),
                        None => return None,
                    };
                } else if f.number == 2 {
                    decl = match decode_data(p.as_slice()) {
                        Some(d) => Some(Decl::Data(d)),
                        None => return None,
                    };
                }
            },
            WireValue::Varint(_) => {
                if f.number == 1 || f.number == 2 {
                    return None;
                }
            },
        }
        i = i + 1;
    }
    decl
}

/// Reads a module back from its binary schema artifact. On the artifact of a
/// module it yields that module.
pub fn decode_module(b: &[u8]) -> (r: Option<Module>)
    ensures
        forall|x: ModuleV| #![trigger module_bytes(x)] b@ == module_bytes(x) ==> (r matches Some(y) && y@ == x),
{
    let fs = match read_fields(b) {
        Some(fs) => fs,
        None => {
            proof {
                assert forall|x: ModuleV| #![trigger module_bytes(x)] b@ == module_bytes(x) implies false by {
                    lemma_layouts_wf(arbitrary(), arbitrary(), arbitrary(), arbitrary(), x);
                }
            }
            return None;
        },
    };
    proof {
        assert forall|x: ModuleV| #![trigger module_bytes(x)] b@ == module_bytes(x) implies fields_view(fs@) == module_fields(x) by {
            lemma_layouts_wf(arbitrary(), arbitrary(), arbitrary(), arbitrary(), x);
        }
    }
    let mut name: Option<String> = None;
    let mut decls: Vec<Decl> = Vec::new();
    let mut i: usize = 0;
    while i < fs.len()
        invariant
            i <= fs@.len(),
            forall|x: ModuleV| #![trigger module_bytes(x)] b@ == module_bytes(x) ==> {
                &&& fields_view(fs@) == module_fields(x)
                &&& (i >= 1 ==> (name matches Some(n) && n@ == x.name))
                &&& decls@.map_values(|d: Decl| d@) == x.decls.take(if i == 0 { 0 } else { i - 1 })
            },
        decreases fs@.len() - i,
    {
        let f = &fs[i];
        assert(fields_view(fs@)[i as int] == f@);
        let ghost before = decls@;
        match &f.value {
            WireValue::Bytes(p) => {
                if f.number == 1 {
                    name = match decode_text(p.as_slice()) {
                        Some(s) => Some(s),
                        None => return None,
                    };
                } else if f.number == 2 {
                    let d = match decode_decl(p.as_slice()) {
                        Some(d) => d,
                        None => return None,
                    };
                    decls.push(d);
                    proof {
                        assert forall|x: ModuleV| #![trigger module_bytes(x)] b@ == module_bytes(x) implies
                            decls@.map_values(|d: Decl| d@) == x.decls.take(i as int) by {
                            assert(decls@.map_values(|d: Decl| d@) =~= before.map_values(|d: Decl| d@).push(d@));
                            assert(x.decls.take(i as int) =~= x.decls.take(i - 1).push(x.decls[i - 1]));
                        }
                    }
                }
            },
            WireValue::Varint(_) => {
                if f.number == 1 || f.number == 2 {
                    return None;
                }
            },
        }
        i = i + 1;
    }
    proof {
        assert forall|x: ModuleV| #![trigger module_bytes(x)] b@ == module_bytes(x) implies
            decls@.map_values(|d: Decl| d@) == x.decls by {
            assert(x.decls.take(x.decls.len() as int) =~= x.decls);
        }
    }
    let name = match name {
        Some(n) => n,
        None => String::new(),
    };
    Some(Module { name, decls })
}

/// Why a binary schema artifact cannot be read.
#[derive(Debug, Clone, Copy, PartialEq, Eq)]
pub enum SchemaError {
    /// The bytes are not the encoding of a module.
    Malformed,
}

/// Reads a module from its binary schema artifact. Reading the artifact written by
/// `encode_module` gives back the module that was written.
pub fn binary_to_module(bytes: &[u8]) -> (r: Result<Module, SchemaError>)
    ensures
        forall|m: ModuleV| #![trigger module_bytes(m)] bytes@ == module_bytes(m) ==> (r matches Ok(y) && y@ == m),
{
    match decode_module(bytes) {
        Some(m) => Ok(m),
        None => Err(SchemaError::Malformed),
    }
}

} // verus!
