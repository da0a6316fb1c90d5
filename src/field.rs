use crate::error::ProtocolError;
use crate::num::{be_bytes, be_value, lemma_be_round_trip, pow256};
use crate::var_int::{lemma_varint_round_trip, varint_decode, varint_encode};
use vstd::prelude::*;
use vstd::utf8::{decode_utf8, encode_utf8, encode_utf8_decode_utf8, encode_utf8_valid_utf8, valid_utf8};

verus! {

/// One field of a packet body, as a value.
pub ghost enum Field {
    VarInt(i32),
    Str(Seq<char>),
    /// A fixed-width integer: its width in bytes and its bit pattern.
    Int(nat, nat),
    Bool(bool),
    /// Raw bytes, as many as the reader asks for.
    Raw(Seq<u8>),
}

/// What a reader asks for next.
pub ghost enum FieldKind {
    VarInt,
    Str,
    Int(nat),
    Bool,
    Raw(nat),
}

/// A string's wire form: its UTF-8 length as a VarInt, then its UTF-8 bytes.
pub open spec fn string_bytes(s: Seq<char>) -> Seq<u8> {
    varint_encode(encode_utf8(s).len() as i32) + encode_utf8(s)
}

/// The wire form of one field.
pub open spec fn field_bytes(f: Field) -> Seq<u8> {
    match f {
        Field::VarInt(v) => varint_encode(v),
        Field::Str(s) => string_bytes(s),
        Field::Int(w, bits) => be_bytes(bits, w),
        Field::Bool(b) => seq![if b { 1u8 } else { 0u8 }],
        Field::Raw(r) => r,
    }
}

/// The wire form of a sequence of fields, one after another.
pub open spec fn fields_bytes(fs: Seq<Field>) -> Seq<u8>
    decreases fs.len(),
{
    if fs.len() == 0 {
        Seq::empty()
    } else {
        field_bytes(fs[0]) + fields_bytes(fs.drop_first())
    }
}

/// The kind of a field.
pub open spec fn kind_of(f: Field) -> FieldKind {
    match f {
        Field::VarInt(_) => FieldKind::VarInt,
        Field::Str(_) => FieldKind::Str,
        Field::Int(w, _) => FieldKind::Int(w),
        Field::Bool(_) => FieldKind::Bool,
        Field::Raw(r) => FieldKind::Raw(r.len()),
    }
}

/// A field that its wire form can carry: a string no longer than a VarInt
/// length can announce, an integer that fits its width.
pub open spec fn encodable(f: Field) -> bool {
    match f {
        Field::Str(s) => encode_utf8(s).len() <= i32::MAX,
        Field::Int(w, bits) => bits < pow256(w),
        _ => true,
    }
}

/// The string at the front of `s` and the bytes it takes.
pub open spec fn read_string_spec(s: Seq<u8>) -> Result<(Seq<char>, nat), ProtocolError> {
    match varint_decode(s) {
        Err(e) => Err(e),
        Ok((len, n)) => if len < 0 {
            Err(ProtocolError::NegativeLength)
        } else if n + len > s.len() {
            Err(ProtocolError::UnexpectedEnd)
        } else if !valid_utf8(s.subrange(n as int, n + len)) {
            Err(ProtocolError::InvalidUtf8)
        } else {
            Ok((decode_utf8(s.subrange(n as int, n + len)), n + len as nat))
        },
    }
}

/// The boolean at the front of `s`: the byte 0 or 1.
pub open spec fn read_bool_spec(s: Seq<u8>) -> Result<bool, ProtocolError> {
    if s.len() == 0 {
        Err(ProtocolError::UnexpectedEnd)
    } else if s[0] == 0 {
        Ok(false)
    } else if s[0] == 1 {
        Ok(true)
    } else {
        Err(ProtocolError::InvalidBool)
    }
}

/// The field of kind `k` at the front of `s` and the bytes it takes. Raw bytes
/// take what is there, up to the number asked for.
pub open spec fn read_field(k: FieldKind, s: Seq<u8>) -> Result<(Field, nat), ProtocolError> {
    match k {
        FieldKind::VarInt => match varint_decode(s) {
            Ok((v, n)) => Ok((Field::VarInt(v), n)),
            Err(e) => Err(e),
        },
        FieldKind::Str => match read_string_spec(s) {
            Ok((t, n)) => Ok((Field::Str(t), n)),
            Err(e) => Err(e),
        },
        FieldKind::Int(w) => if s.len() < w {
            Err(ProtocolError::UnexpectedEnd)
        } else {
            Ok((Field::Int(w, be_value(s.take(w as int))), w))
        },
        FieldKind::Bool => match read_bool_spec(s) {
            Ok(b) => Ok((Field::Bool(b), 1)),
            Err(e) => Err(e),
        },
        FieldKind::Raw(n) => {
            let m = if n <= s.len() {
                n
            } else {
                s.len()
            };
            Ok((Field::Raw(s.take(m as int)), m))
        },
    }
}

/// The fields of kinds `ks` read one after another from the front of `s`, and
/// the bytes they take; the first error stops the reading.
pub open spec fn read_fields(ks: Seq<FieldKind>, s: Seq<u8>) -> Result<(Seq<Field>, nat), ProtocolError>
    decreases ks.len(),
{
    if ks.len() == 0 {
        Ok((Seq::empty(), 0))
    } else {
        match read_field(ks[0], s) {
            Err(e) => Err(e),
            Ok((f, n)) => match read_fields(ks.drop_first(), s.skip(n as int)) {
                Err(e) => Err(e),
                Ok((fs, m)) => Ok((seq![f] + fs, n + m)),
            },
        }
    }
}

/// Reading a string's wire form gives the string back and takes exactly its
/// wire form.
pub proof fn lemma_string_round_trip(t: Seq<char>, rest: Seq<u8>)
    requires
        encode_utf8(t).len() <= i32::MAX,
    ensures
        read_string_spec(string_bytes(t) + rest) == Ok::<(Seq<char>, nat), ProtocolError>(
            (t, string_bytes(t).len()),
        ),
{
    let b = encode_utf8(t);
    let len = b.len() as i32;
    let s = string_bytes(t) + rest;
    assert(s =~= varint_encode(len) + (b + rest));
    lemma_varint_round_trip(len, b + rest);
    let n = varint_encode(len).len();
    assert(s.subrange(n as int, n + len) =~= b);
    encode_utf8_valid_utf8(t);
    encode_utf8_decode_utf8(t);
}

/// Reading one encodable field's wire form, by the field's own kind, gives the
/// field back and takes exactly its wire form.
pub proof fn lemma_field_round_trip(f: Field, rest: Seq<u8>)
    requires
        encodable(f),
    ensures
        read_field(kind_of(f), field_bytes(f) + rest) == Ok::<(Field, nat), ProtocolError>(
            (f, field_bytes(f).len()),
        ),
{
    let s = field_bytes(f) + rest;
    match f {
        Field::VarInt(v) => {
            lemma_varint_round_trip(v, rest);
        },
        Field::Str(t) => {
            lemma_string_round_trip(t, rest);
        },
        Field::Int(w, bits) => {
            lemma_be_round_trip(bits, w);
            assert(s.take(w as int) =~= be_bytes(bits, w));
            vstd::arithmetic::div_mod::lemma_small_mod(bits, pow256(w));
        },
        Field::Bool(b) => {
        },
        Field::Raw(r) => {
            assert(s.take(r.len() as int) =~= r);
        },
    }
}

/// Reading the wire form of any sequence of encodable fields, by their kinds,
/// gives the same fields back and takes exactly their wire form, whatever
/// follows.
pub proof fn lemma_fields_round_trip(fs: Seq<Field>, rest: Seq<u8>)
    requires
        forall|i: int| 0 <= i < fs.len() ==> encodable(#[trigger] fs[i]),
    ensures
        read_fields(fs.map_values(|f: Field| kind_of(f)), fields_bytes(fs) + rest) == Ok::<
            (Seq<Field>, nat),
            ProtocolError,
        >((fs, fields_bytes(fs).len())),
    decreases fs.len(),
{
    let ks = fs.map_values(|f: Field| kind_of(f));
    if fs.len() == 0 {
        assert(ks.len() == 0);
        assert(fs =~= Seq::<Field>::empty());
    } else {
        let tail = fs.drop_first();
        assert(encodable(fs[0]));
        assert forall|i: int| 0 <= i < tail.len() implies encodable(#[trigger] tail[i]) by {
            assert(tail[i] == fs[i + 1]);
        }
        let s = fields_bytes(fs) + rest;
        assert(s =~= field_bytes(fs[0]) + (fields_bytes(tail) + rest));
        lemma_field_round_trip(fs[0], fields_bytes(tail) + rest);
        let n = field_bytes(fs[0]).len();
        assert(s.skip(n as int) =~= fields_bytes(tail) + rest);
        lemma_fields_round_trip(tail, rest);
        assert(ks.drop_first() =~= tail.map_values(|f: Field| kind_of(f)));
        assert(ks[0] == kind_of(fs[0]));
        assert(seq![fs[0]] + tail =~= fs);
        assert(fields_bytes(fs) == field_bytes(fs[0]) + fields_bytes(tail));
        assert(read_field(ks[0], s) == Ok::<(Field, nat), ProtocolError>((fs[0], n)));
    }
}

} // verus!
