//! The wire layout of instruction arguments: a tag byte that names the
//! instruction variant, then each field in declared order. A byte is one
//! byte, a 64-bit number eight bytes little-endian, and a byte string its
//! length as four bytes little-endian followed by its bytes.

use vstd::prelude::*;
use vstd::bytes::{
    lemma_auto_spec_u32_to_from_le_bytes, lemma_auto_spec_u64_to_from_le_bytes,
    spec_u32_from_le_bytes, spec_u32_to_le_bytes, spec_u64_from_le_bytes, spec_u64_to_le_bytes,
    u32_from_le_bytes, u32_to_le_bytes, u64_from_le_bytes, u64_to_le_bytes,
};
use vstd::slice::slice_subrange;
use crate::error::ConfigurationError;

verus! {

/// The type of one argument field.
#[derive(Clone, Copy, Debug, PartialEq, Eq, Structural)]
pub enum ArgKind {
    U8,
    U64,
    Bytes,
}

/// One argument field.
#[derive(Clone, Debug, PartialEq, Eq)]
pub enum ArgValue {
    U8(u8),
    U64(u64),
    Bytes(Vec<u8>),
}

/// One argument field as a plain value.
pub enum ArgModel {
    U8(u8),
    U64(u64),
    Bytes(Seq<u8>),
}

impl DeepView for ArgValue {
    type V = ArgModel;

    open spec fn deep_view(&self) -> ArgModel {
        match self {
            ArgValue::U8(b) => ArgModel::U8(*b),
            ArgValue::U64(n) => ArgModel::U64(*n),
            ArgValue::Bytes(s) => ArgModel::Bytes(s@),
        }
    }
}

/// The arguments of one instruction: which variant, and its fields in
/// declared order.
#[derive(Clone, Debug, PartialEq, Eq)]
pub struct InstructionArgs {
    pub tag: u8,
    pub fields: Vec<ArgValue>,
}

/// Instruction arguments as plain values.
pub struct ArgsModel {
    pub tag: u8,
    pub fields: Seq<ArgModel>,
}

impl DeepView for InstructionArgs {
    type V = ArgsModel;

    open spec fn deep_view(&self) -> ArgsModel {
        ArgsModel { tag: self.tag, fields: self.fields.deep_view() }
    }
}

/// The type of a field.
pub open spec fn kind_of(f: ArgModel) -> ArgKind {
    match f {
        ArgModel::U8(_) => ArgKind::U8,
        ArgModel::U64(_) => ArgKind::U64,
        ArgModel::Bytes(_) => ArgKind::Bytes,
    }
}

/// The types of a list of fields.
pub open spec fn kinds_of(fs: Seq<ArgModel>) -> Seq<ArgKind> {
    Seq::new(fs.len(), |i: int| kind_of(fs[i]))
}

/// Whether the field can be written: a byte string has to fit its length prefix.
pub open spec fn encodable(f: ArgModel) -> bool {
    f matches ArgModel::Bytes(s) ==> s.len() <= u32::MAX
}

/// Whether every field can be written.
pub open spec fn all_encodable(fs: Seq<ArgModel>) -> bool {
    forall|i: int| 0 <= i < fs.len() ==> encodable(#[trigger] fs[i])
}

/// The bytes of one field.
pub open spec fn field_wire(f: ArgModel) -> Seq<u8> {
    match f {
        ArgModel::U8(b) => seq![b],
        ArgModel::U64(n) => spec_u64_to_le_bytes(n),
        ArgModel::Bytes(s) => spec_u32_to_le_bytes(s.len() as u32) + s,
    }
}

/// The bytes of a list of fields: those of each field, one after the other.
pub open spec fn fields_wire(fs: Seq<ArgModel>) -> Seq<u8>
    decreases fs.len(),
{
    if fs.len() == 0 {
        Seq::empty()
    } else {
        field_wire(fs[0]) + fields_wire(fs.skip(1))
    }
}

/// The bytes of instruction arguments: the tag, then the fields.
pub open spec fn args_wire(args: ArgsModel) -> Seq<u8> {
    seq![args.tag] + fields_wire(args.fields)
}

/// Reads one field of type `kind` from the front of `bytes`: the field and
/// the number of bytes it took, or nothing where the bytes run out.
pub open spec fn parse_field(kind: ArgKind, bytes: Seq<u8>) -> Option<(ArgModel, int)> {
    match kind {
        ArgKind::U8 => if bytes.len() >= 1 {
            Some((ArgModel::U8(bytes[0]), 1))
        } else {
            None
        },
        ArgKind::U64 => if bytes.len() >= 8 {
            Some((ArgModel::U64(spec_u64_from_le_bytes(bytes.subrange(0, 8))), 8))
        } else {
            None
        },
        ArgKind::Bytes => if bytes.len() >= 4 {
            let n = spec_u32_from_le_bytes(bytes.subrange(0, 4)) as int;
            if bytes.len() >= 4 + n {
                Some((ArgModel::Bytes(bytes.subrange(4, 4 + n)), 4 + n))
            } else {
                None
            }
        } else {
            None
        },
    }
}

/// Reads fields of the types `kinds` from `bytes`, which they have to use up.
pub open spec fn parse_fields(kinds: Seq<ArgKind>, bytes: Seq<u8>) -> Option<Seq<ArgModel>>
    decreases kinds.len(),
{
    if kinds.len() == 0 {
        if bytes.len() == 0 {
            Some(Seq::empty())
        } else {
            None
        }
    } else {
        match parse_field(kinds[0], bytes) {
            None => None,
            Some((f, used)) => match parse_fields(kinds.skip(1), bytes.skip(used)) {
                None => None,
                Some(rest) => Some(seq![f] + rest),
            },
        }
    }
}

/// Reads instruction arguments with fields of the types `kinds` from `bytes`.
pub open spec fn parse_args(kinds: Seq<ArgKind>, bytes: Seq<u8>) -> Option<ArgsModel> {
    if bytes.len() == 0 {
        None
    } else {
        match parse_fields(kinds, bytes.skip(1)) {
            None => None,
            Some(fields) => Some(ArgsModel { tag: bytes[0], fields }),
        }
    }
}

/// The bytes of a list with one more field are those of the list followed
/// by those of the field.
pub proof fn lemma_fields_wire_push(fs: Seq<ArgModel>, f: ArgModel)
    ensures
        fields_wire(fs.push(f)) == fields_wire(fs) + field_wire(f),
    decreases fs.len(),
{
    let longer = fs.push(f);
    if fs.len() == 0 {
        assert(fields_wire(longer.skip(1)) =~= Seq::<u8>::empty());
    } else {
        assert(longer.skip(1) =~= fs.skip(1).push(f));
        lemma_fields_wire_push(fs.skip(1), f);
    }
}

/// A field that was written is read back, whatever follows it.
pub proof fn lemma_parse_field_of_wire(f: ArgModel, rest: Seq<u8>)
    requires
        encodable(f),
    ensures
        parse_field(kind_of(f), field_wire(f) + rest) == Some((f, field_wire(f).len() as int)),
        (field_wire(f) + rest).skip(field_wire(f).len() as int) == rest,
{
    lemma_auto_spec_u64_to_from_le_bytes();
    lemma_auto_spec_u32_to_from_le_bytes();
    let all = field_wire(f) + rest;
    match f {
        ArgModel::U8(b) => {},
        ArgModel::U64(n) => {
            assert(all.subrange(0, 8) =~= spec_u64_to_le_bytes(n));
        },
        ArgModel::Bytes(s) => {
            let prefix = spec_u32_to_le_bytes(s.len() as u32);
            assert(all.subrange(0, 4) =~= prefix);
            assert(all.subrange(4, 4 + s.len() as int) =~= s);
        },
    }
}

/// Fields that were written are read back.
pub proof fn lemma_parse_fields_of_wire(fs: Seq<ArgModel>)
    requires
        all_encodable(fs),
    ensures
        parse_fields(kinds_of(fs), fields_wire(fs)) == Some(fs),
    decreases fs.len(),
{
    if fs.len() > 0 {
        let tail = fs.skip(1);
        assert(all_encodable(tail));
        lemma_parse_field_of_wire(fs[0], fields_wire(tail));
        lemma_parse_fields_of_wire(tail);
        assert(kinds_of(fs).skip(1) =~= kinds_of(tail));
    }
}

/// Decoding inverts encoding: the arguments that are read from the bytes
/// that were written for `args`, with the types of its fields as layout,
/// are `args`.
pub proof fn lemma_decode_inverts_encode(args: ArgsModel)
    requires
        all_encodable(args.fields),
    ensures
        parse_args(kinds_of(args.fields), args_wire(args)) == Some(args),
{
    lemma_parse_fields_of_wire(args.fields);
    let bytes = args_wire(args);
    assert(bytes.skip(1) =~= fields_wire(args.fields));
}

/// A field that is read from the front of `bytes` has the type asked for,
/// can be written, and is written as the bytes it was read from.
pub proof fn lemma_wire_of_parsed_field(kind: ArgKind, bytes: Seq<u8>)
    requires
        parse_field(kind, bytes) is Some,
    ensures
        ({
            let (f, used) = parse_field(kind, bytes)->Some_0;
            &&& kind_of(f) == kind
            &&& encodable(f)
            &&& 0 <= used <= bytes.len()
            &&& field_wire(f) == bytes.take(used)
        }),
{
    lemma_auto_spec_u64_to_from_le_bytes();
    lemma_auto_spec_u32_to_from_le_bytes();
}

/// Encoding inverts decoding: arguments that are read from bytes have the
/// layout asked for and are written as those bytes. So no two sequences of
/// bytes stand for the same arguments.
pub proof fn lemma_encode_inverts_decode(kinds: Seq<ArgKind>, bytes: Seq<u8>)
    requires
        parse_fields(kinds, bytes) is Some,
    ensures
        ({
            let fields = parse_fields(kinds, bytes)->Some_0;
            &&& kinds_of(fields) == kinds
            &&& all_encodable(fields)
            &&& fields_wire(fields) == bytes
        }),
    decreases kinds.len(),
{
    if kinds.len() > 0 {
        let fields = parse_fields(kinds, bytes)->Some_0;
        let used = parse_field(kinds[0], bytes)->Some_0.1;
        let rest = parse_fields(kinds.skip(1), bytes.skip(used))->Some_0;
        lemma_wire_of_parsed_field(kinds[0], bytes);
        lemma_encode_inverts_decode(kinds.skip(1), bytes.skip(used));
        assert(fields.skip(1) =~= rest);
        assert forall|i: int| 0 <= i < kinds.len() implies kinds_of(fields)[i] == kinds[i] by {
            if i > 0 {
                assert(kinds_of(rest)[i - 1] == kinds.skip(1)[i - 1]);
            }
        }
        assert(kinds_of(fields) =~= kinds);
        assert(all_encodable(fields));
        assert(fields_wire(fields) =~= bytes);
    }
}

/// What reading goes on to yield, given the fields read so far and what
/// the rest of the bytes yields.
pub open spec fn resumed(done: Seq<ArgModel>, rest: Option<Seq<ArgModel>>) -> Option<Seq<ArgModel>> {
    match rest {
        Some(more) => Some(done + more),
        None => None,
    }
}

/// Writes instruction arguments in their wire layout. It fails with
/// `FieldTooLong` exactly when a byte string is too long for its length prefix.
pub fn encode_args(args: &InstructionArgs) -> (r: Result<Vec<u8>, ConfigurationError>)
    ensures
        match r {
            Ok(bytes) => all_encodable(args.deep_view().fields) && bytes@ == args_wire(
                args.deep_view(),
            ),
            Err(e) => !all_encodable(args.deep_view().fields) && e
                == ConfigurationError::FieldTooLong,
        },
{
    let ghost fields = args.fields.deep_view();
    let mut out: Vec<u8> = Vec::new();
    out.push(args.tag);
    let mut i: usize = 0;
    while i < args.fields.len()
        invariant
            i <= args.fields.len(),
            fields == args.fields.deep_view(),
            fields.len() == args.fields.len(),
            out@ == seq![args.tag] + fields_wire(fields.take(i as int)),
            forall|k: int| 0 <= k < i ==> encodable(#[trigger] fields[k]),
        decreases args.fields.len() - i,
    {
        match &args.fields[i] {
            ArgValue::U8(b) => {
                out.push(*b);
            },
            ArgValue::U64(n) => {
                let le = u64_to_le_bytes(*n);
                out.extend_from_slice(le.as_slice());
            },
            ArgValue::Bytes(s) => {
                if s.len() > 0xffff_ffff {
                    return Err(ConfigurationError::FieldTooLong);
                }
                let le = u32_to_le_bytes(s.len() as u32);
                out.extend_from_slice(le.as_slice());
                out.extend_from_slice(s.as_slice());
            },
        }
        proof {
            lemma_fields_wire_push(fields.take(i as int), fields[i as int]);
            assert(fields.take(i as int + 1) =~= fields.take(i as int).push(fields[i as int]));
        }
        i += 1;
    }
    assert(fields.take(i as int) =~= fields);
    Ok(out)
}

/// Reads instruction arguments whose fields have the types `layout` from
/// `bytes`. It yields nothing where the bytes run out before the layout is
/// filled, or where bytes are left over.
pub fn decode_args(layout: &Vec<ArgKind>, bytes: &[u8]) -> (r: Option<InstructionArgs>)
    ensures
        r.deep_view() == parse_args(layout@, bytes@),
{
    if bytes.len() == 0 {
        return None;
    }
    let tag = bytes[0];
    let ghost body = bytes@.skip(1);
    let mut fields: Vec<ArgValue> = Vec::new();
    let mut pos: usize = 1;
    let mut i: usize = 0;
    assert(layout@.skip(0) =~= layout@);
    assert(body.skip(0) =~= body);
    assert(parse_fields(layout@, body) == resumed(fields.deep_view(), parse_fields(layout@, body)));
    while i < layout.len()
        invariant
            i <= layout.len(),
            1 <= pos <= bytes@.len(),
            body == bytes@.skip(1),
            parse_fields(layout@, body) == resumed(
                fields.deep_view(),
                parse_fields(layout@.skip(i as int), body.skip(pos - 1)),
            ),
        decreases layout.len() - i,
    {
        let ghost kinds = layout@.skip(i as int);
        let ghost left = body.skip(pos - 1);
        let ghost done = fields.deep_view();
        assert(kinds.skip(1) =~= layout@.skip(i as int + 1));
        let remaining = bytes.len() - pos;
        let kind = layout[i];
        let field = match kind {
            ArgKind::U8 => {
                if remaining < 1 {
                    return None;
                }
                let b = bytes[pos];
                pos += 1;
                ArgValue::U8(b)
            },
            ArgKind::U64 => {
                if remaining < 8 {
                    return None;
                }
                let n = u64_from_le_bytes(slice_subrange(bytes, pos, pos + 8));
                assert(bytes@.subrange(pos as int, pos + 8) =~= left.subrange(0, 8));
                pos += 8;
                ArgValue::U64(n)
            },
            ArgKind::Bytes => {
                if remaining < 4 {
                    return None;
                }
                let n = u32_from_le_bytes(slice_subrange(bytes, pos, pos + 4));
                assert(bytes@.subrange(pos as int, pos + 4) =~= left.subrange(0, 4));
                if remaining - 4 < n as usize {
                    return None;
                }
                let mut content: Vec<u8> = Vec::new();
                content.extend_from_slice(slice_subrange(bytes, pos + 4, pos + 4 + n as usize));
                assert(content@ =~= left.subrange(4, 4 + n as int));
                pos += 4 + n as usize;
                ArgValue::Bytes(content)
            },
        };
        proof {
            let used = parse_field(kind, left)->Some_0.1;
            assert(left.skip(used) =~= body.skip(pos - 1));
            let rest = parse_fields(kinds.skip(1), left.skip(used));
            match rest {
                Some(more) => {
                    assert(done.push(field.deep_view()) + more =~= done + (seq![field.deep_view()]
                        + more));
                },
                None => {},
            }
        }
        fields.push(field);
        i += 1;
    }
    if pos != bytes.len() {
        return None;
    }
    Some(InstructionArgs { tag, fields })
}

} // verus!
