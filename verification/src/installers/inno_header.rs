//! The versioned record decoder: one generic capability that decodes a
//! fixed count of records whose field layout depends on the detected
//! version, reused for the structural header and for every section that
//! follows it. Every field read is guarded by an explicit version
//! predicate; a field not present for the active version takes a documented
//! default, never garbage.

use vstd::prelude::*;
use crate::installers::codec::{decode_text, spec_decode_text};
use crate::installers::inno_version::{spec_triple_lt, InnoVersion};
use crate::installers::reader::{spec_le16, spec_le32, ByteReader};

verus! {

/// The wire width of one record field.
#[derive(Clone, Copy, PartialEq, Eq, Structural, Debug)]
pub enum FieldKind {
    /// One byte.
    Byte,
    /// A 16-bit little-endian integer.
    Word,
    /// A 32-bit little-endian integer.
    DWord,
    /// A 32-bit byte length followed by that many bytes of encoded text.
    Text,
}

/// One decoded field.
#[derive(Clone, PartialEq, Eq, Debug)]
pub enum FieldValue {
    Int(u32),
    Text(String),
}

/// The mathematical value of a decoded field.
pub enum FieldValueS {
    Int(u32),
    Text(Seq<char>),
}

impl View for FieldValue {
    type V = FieldValueS;

    open spec fn view(&self) -> FieldValueS {
        match self {
            FieldValue::Int(n) => FieldValueS::Int(*n),
            FieldValue::Text(s) => FieldValueS::Text(s@),
        }
    }
}

/// The values of a decoded record.
pub open spec fn spec_values_view(values: Seq<FieldValue>) -> Seq<FieldValueS> {
    values.map_values(|v: FieldValue| v@)
}

/// Reads one field from the front of a stream: the decoded value and what
/// remains, or `None` on an early end of stream.
pub open spec fn spec_read_field(stream: Seq<u8>, kind: FieldKind, unicode: bool) -> Option<
    (FieldValueS, Seq<u8>),
> {
    match kind {
        FieldKind::Byte => if stream.len() >= 1 {
            Some((FieldValueS::Int(stream[0] as u32), stream.skip(1)))
        } else {
            None
        },
        FieldKind::Word => if stream.len() >= 2 {
            Some((FieldValueS::Int(spec_le16(stream[0], stream[1]) as u32), stream.skip(2)))
        } else {
            None
        },
        FieldKind::DWord => if stream.len() >= 4 {
            Some((FieldValueS::Int(spec_le32(stream[0], stream[1], stream[2], stream[3])), stream.skip(4)))
        } else {
            None
        },
        FieldKind::Text => if stream.len() >= 4 {
            let len = spec_le32(stream[0], stream[1], stream[2], stream[3]) as int;
            if stream.len() - 4 >= len {
                Some(
                    (
                        FieldValueS::Text(
                            spec_decode_text(stream.skip(4).take(len), unicode),
                        ),
                        stream.skip(4 + len),
                    ),
                )
            } else {
                None
            }
        } else {
            None
        },
    }
}

/// Reads one record of the given schema from the front of a stream: one
/// value per schema field and what remains, or `None` on an early end of
/// stream.
pub open spec fn spec_decode_record(
    stream: Seq<u8>,
    schema: Seq<FieldKind>,
    unicode: bool,
) -> Option<(Seq<FieldValueS>, Seq<u8>)>
    decreases schema.len(),
{
    if schema.len() == 0 {
        Some((Seq::empty(), stream))
    } else {
        match spec_read_field(stream, schema[0], unicode) {
            None => None,
            Some((v, rest)) => match spec_decode_record(rest, schema.drop_first(), unicode) {
                None => None,
                Some((vs, rest2)) => Some((seq![v] + vs, rest2)),
            },
        }
    }
}

/// Reads exactly `n` records of the given schema: their values and what
/// remains, or `None` on an early end of stream.
pub open spec fn spec_decode_records(
    stream: Seq<u8>,
    n: int,
    schema: Seq<FieldKind>,
    unicode: bool,
) -> Option<(Seq<Seq<FieldValueS>>, Seq<u8>)>
    decreases n,
{
    if n <= 0 {
        Some((Seq::empty(), stream))
    } else {
        match spec_decode_record(stream, schema, unicode) {
            None => None,
            Some((vs, rest)) => match spec_decode_records(rest, n - 1, schema, unicode) {
                None => None,
                Some((records, rest2)) => Some((seq![vs] + records, rest2)),
            },
        }
    }
}

/// Reads one field, advancing the reader.
pub fn read_field(reader: &mut ByteReader, kind: FieldKind, unicode: bool) -> (r: Option<
    FieldValue,
>)
    requires
        old(reader).wf(),
    ensures
        final(reader).wf(),
        final(reader).data@ == old(reader).data@,
        match r {
            Some(v) => spec_read_field(old(reader).remaining(), kind, unicode) == Some(
                (v@, final(reader).remaining()),
            ),
            None => spec_read_field(old(reader).remaining(), kind, unicode) is None,
        },
{
    let ghost r0 = old(reader).remaining();
    match kind {
        FieldKind::Byte => {
            match reader.read_u8() {
                Some(b) => {
                    proof {
                        assert(reader.remaining() =~= r0.skip(1));
                    }
                    Some(FieldValue::Int(b as u32))
                },
                None => None,
            }
        },
        FieldKind::Word => {
            match reader.read_u16_le() {
                Some(w) => {
                    proof {
                        assert(reader.remaining() =~= r0.skip(2));
                    }
                    Some(FieldValue::Int(w as u32))
                },
                None => None,
            }
        },
        FieldKind::DWord => {
            match reader.read_u32_le() {
                Some(d) => {
                    proof {
                        assert(reader.remaining() =~= r0.skip(4));
                    }
                    Some(FieldValue::Int(d))
                },
                None => None,
            }
        },
        FieldKind::Text => {
            match reader.read_u32_le() {
                Some(len) => {
                    let ghost r1 = reader.remaining();
                    proof {
                        assert(r1 =~= r0.skip(4));
                    }
                    match reader.read_bytes(len as usize) {
                        Some(bytes) => {
                            proof {
                                assert(bytes@ == r0.skip(4).take(len as int));
                                assert(reader.remaining() =~= r0.skip(4 + len as int));
                            }
                            Some(FieldValue::Text(decode_text(&bytes, unicode)))
                        },
                        None => None,
                    }
                },
                None => None,
            }
        },
    }
}

/// The parse of `s0` against `schema` is the values gathered in `acc` plus
/// whatever a parse of `cur` against the remaining `cur_schema` yields.
pub open spec fn spec_record_chain(
    s0: Seq<u8>,
    schema: Seq<FieldKind>,
    unicode: bool,
    acc: Seq<FieldValueS>,
    cur: Seq<u8>,
    cur_schema: Seq<FieldKind>,
) -> bool {
    spec_decode_record(s0, schema, unicode) == (match spec_decode_record(
        cur,
        cur_schema,
        unicode,
    ) {
        Some((vs, rest)) => Some((acc + vs, rest)),
        None => None,
    })
}

proof fn lemma_record_chain_step(
    s0: Seq<u8>,
    schema: Seq<FieldKind>,
    unicode: bool,
    acc: Seq<FieldValueS>,
    cur: Seq<u8>,
    cur_schema: Seq<FieldKind>,
    v: FieldValueS,
    rem: Seq<u8>,
)
    requires
        spec_record_chain(s0, schema, unicode, acc, cur, cur_schema),
        cur_schema.len() > 0,
        spec_read_field(cur, cur_schema[0], unicode) == Some((v, rem)),
    ensures
        spec_record_chain(s0, schema, unicode, acc.push(v), rem, cur_schema.drop_first()),
{
    if spec_decode_record(rem, cur_schema.drop_first(), unicode) is Some {
        let (vs, rest) = spec_decode_record(rem, cur_schema.drop_first(), unicode)->0;
        assert(spec_decode_record(cur, cur_schema, unicode) == Some((seq![v] + vs, rest)));
        assert(acc + (seq![v] + vs) =~= acc.push(v) + vs);
    } else {
        assert(spec_decode_record(cur, cur_schema, unicode) is None);
    }
}

/// Decodes one record of the given schema, advancing the reader.
pub fn decode_record(reader: &mut ByteReader, schema: &Vec<FieldKind>, unicode: bool) -> (r:
    Option<Vec<FieldValue>>)
    requires
        old(reader).wf(),
    ensures
        final(reader).wf(),
        final(reader).data@ == old(reader).data@,
        match r {
            Some(values) => spec_decode_record(old(reader).remaining(), schema@, unicode) == Some(
                (spec_values_view(values@), final(reader).remaining()),
            ) && values@.len() == schema@.len(),
            None => spec_decode_record(old(reader).remaining(), schema@, unicode) is None,
        },
{
    let ghost s0 = old(reader).remaining();
    let mut values: Vec<FieldValue> = Vec::new();
    let mut i: usize = 0;
    proof {
        assert(schema@.skip(0) =~= schema@);
        assert(spec_values_view(values@) =~= Seq::<FieldValueS>::empty());
        if spec_decode_record(s0, schema@, unicode) is Some {
            let (vs, rest) = spec_decode_record(s0, schema@, unicode)->0;
            assert(Seq::<FieldValueS>::empty() + vs =~= vs);
        }
    }
    while i < schema.len()
        invariant
            i <= schema.len(),
            reader.wf(),
            reader.data@ == old(reader).data@,
            s0 == old(reader).remaining(),
            values@.len() == i,
            spec_record_chain(
                s0,
                schema@,
                unicode,
                spec_values_view(values@),
                reader.remaining(),
                schema@.skip(i as int),
            ),
        decreases schema.len() - i,
    {
        let ghost tail_schema = schema@.skip(i as int);
        let ghost r_before = reader.remaining();
        let ghost vals_before = values@;
        proof {
            assert(tail_schema.len() == schema@.len() - i);
            assert(tail_schema[0] == schema@[i as int]);
        }
        match read_field(reader, schema[i], unicode) {
            Some(v) => {
                values.push(v);
                proof {
                    assert(tail_schema.drop_first() =~= schema@.skip(i + 1));
                    lemma_record_chain_step(
                        s0,
                        schema@,
                        unicode,
                        spec_values_view(vals_before),
                        r_before,
                        tail_schema,
                        v@,
                        reader.remaining(),
                    );
                    assert(values@ =~= vals_before.push(v));
                    assert(spec_values_view(values@) =~= spec_values_view(vals_before).push(v@));
                }
                i = i + 1;
            },
            None => {
                proof {
                    assert(spec_decode_record(r_before, tail_schema, unicode) is None);
                    assert(spec_record_chain(
                        s0,
                        schema@,
                        unicode,
                        spec_values_view(vals_before),
                        r_before,
                        tail_schema,
                    ));
                    assert(spec_decode_record(s0, schema@, unicode) is None);
                }
                return None;
            },
        }
    }
    proof {
        assert(schema@.skip(schema@.len() as int) =~= Seq::<FieldKind>::empty());
        assert(spec_decode_record(
            reader.remaining(),
            Seq::<FieldKind>::empty(),
            unicode,
        ) == Some((Seq::<FieldValueS>::empty(), reader.remaining())));
        assert(spec_values_view(values@) + Seq::<FieldValueS>::empty() =~= spec_values_view(
            values@,
        ));
    }
    Some(values)
}

/// Decodes exactly `n` records of the given schema, advancing the reader.
pub fn decode_records(reader: &mut ByteReader, n: u32, schema: &Vec<FieldKind>, unicode: bool) -> (
    r: Option<Vec<Vec<FieldValue>>>)
    requires
        old(reader).wf(),
    ensures
        final(reader).wf(),
        final(reader).data@ == old(reader).data@,
        match r {
            Some(records) => spec_decode_records(
                old(reader).remaining(),
                n as int,
                schema@,
                unicode,
            ) == Some((spec_records_view(records@), final(reader).remaining())) && records@.len() == n,
            None => spec_decode_records(old(reader).remaining(), n as int, schema@, unicode)
                is None,
        },
{
    let ghost s0 = old(reader).remaining();
    let mut records: Vec<Vec<FieldValue>> = Vec::new();
    let mut k: u32 = 0;
    proof {
        assert(spec_records_view(records@) =~= Seq::<Seq<FieldValueS>>::empty());
        if spec_decode_records(s0, n as int, schema@, unicode) is Some {
            let (rs, rest) = spec_decode_records(s0, n as int, schema@, unicode)->0;
            assert(Seq::<Seq<FieldValueS>>::empty() + rs =~= rs);
        }
    }
    while k < n
        invariant
            k <= n,
            reader.wf(),
            reader.data@ == old(reader).data@,
            s0 == old(reader).remaining(),
            records@.len() == k,
            spec_records_chain(
                s0,
                n as int,
                schema@,
                unicode,
                spec_records_view(records@),
                reader.remaining(),
                n - k,
            ),
        decreases n - k,
    {
        let ghost r_before = reader.remaining();
        let ghost recs_before = records@;
        match decode_record(reader, schema, unicode) {
            Some(values) => {
                records.push(values);
                proof {
                    lemma_records_chain_step(
                        s0,
                        n as int,
                        schema@,
                        unicode,
                        spec_records_view(recs_before),
                        r_before,
                        n - k,
                        spec_values_view(values@),
                        reader.remaining(),
                    );
                    assert(records@ =~= recs_before.push(values));
                    assert(spec_records_view(records@) =~= spec_records_view(recs_before).push(
                        spec_values_view(values@),
                    ));
                }
                k = k + 1;
            },
            None => {
                proof {
                    assert(spec_decode_records(r_before, n - k, schema@, unicode) is None);
                    assert(spec_records_chain(
                        s0,
                        n as int,
                        schema@,
                        unicode,
                        spec_records_view(recs_before),
                        r_before,
                        n - k,
                    ));
                    assert(spec_decode_records(s0, n as int, schema@, unicode) is None);
                }
                return None;
            },
        }
    }
    proof {
        assert(spec_decode_records(
            reader.remaining(),
            0,
            schema@,
            unicode,
        ) == Some((Seq::<Seq<FieldValueS>>::empty(), reader.remaining())));
        assert(spec_records_view(records@) + Seq::<Seq<FieldValueS>>::empty()
            =~= spec_records_view(records@));
    }
    Some(records)
}

/// The parse of `s0` as `n` records is the records gathered in `acc` plus
/// whatever a parse of `cur` as the remaining `m` records yields.
pub open spec fn spec_records_chain(
    s0: Seq<u8>,
    n: int,
    schema: Seq<FieldKind>,
    unicode: bool,
    acc: Seq<Seq<FieldValueS>>,
    cur: Seq<u8>,
    m: int,
) -> bool {
    spec_decode_records(s0, n, schema, unicode) == (match spec_decode_records(
        cur,
        m,
        schema,
        unicode,
    ) {
        Some((rs, rest)) => Some((acc + rs, rest)),
        None => None,
    })
}

proof fn lemma_records_chain_step(
    s0: Seq<u8>,
    n: int,
    schema: Seq<FieldKind>,
    unicode: bool,
    acc: Seq<Seq<FieldValueS>>,
    cur: Seq<u8>,
    m: int,
    vs: Seq<FieldValueS>,
    rem: Seq<u8>,
)
    requires
        spec_records_chain(s0, n, schema, unicode, acc, cur, m),
        m > 0,
        spec_decode_record(cur, schema, unicode) == Some((vs, rem)),
    ensures
        spec_records_chain(s0, n, schema, unicode, acc.push(vs), rem, m - 1),
{
    if spec_decode_records(rem, m - 1, schema, unicode) is Some {
        let (rs, rest) = spec_decode_records(rem, m - 1, schema, unicode)->0;
        assert(spec_decode_records(cur, m, schema, unicode) == Some((seq![vs] + rs, rest)));
        assert(acc + (seq![vs] + rs) =~= acc.push(vs) + rs);
    } else {
        assert(spec_decode_records(cur, m, schema, unicode) is None);
    }
}

/// The values of a decoded record list.
pub open spec fn spec_records_view(records: Seq<Vec<FieldValue>>) -> Seq<Seq<FieldValueS>> {
    records.map_values(|values: Vec<FieldValue>| spec_values_view(values@))
}

/// The integer at position `i` of a record, or 0 where the field is absent
/// or textual.
pub open spec fn spec_int_at(values: Seq<FieldValueS>, i: int) -> u32 {
    if 0 <= i < values.len() {
        match values[i] {
            FieldValueS::Int(n) => n,
            FieldValueS::Text(_) => 0,
        }
    } else {
        0
    }
}

/// The text at position `i` of a record, or empty where the field is
/// absent or numeric.
pub open spec fn spec_text_at(values: Seq<FieldValueS>, i: int) -> Seq<char> {
    if 0 <= i < values.len() {
        match values[i] {
            FieldValueS::Int(_) => Seq::empty(),
            FieldValueS::Text(t) => t,
        }
    } else {
        Seq::empty()
    }
}

pub fn int_at(values: &Vec<FieldValue>, i: usize) -> (r: u32)
    ensures
        r == spec_int_at(spec_values_view(values@), i as int),
{
    if i < values.len() {
        match &values[i] {
            FieldValue::Int(n) => *n,
            FieldValue::Text(_) => 0,
        }
    } else {
        0
    }
}

pub fn text_at(values: &Vec<FieldValue>, i: usize) -> (r: String)
    ensures
        r@ == spec_text_at(spec_values_view(values@), i as int),
{
    if i < values.len() {
        match &values[i] {
            FieldValue::Int(_) => String::new(),
            FieldValue::Text(t) => t.clone(),
        }
    } else {
        String::new()
    }
}

/// The decoded structural header: per-section record counts, global flags
/// and the application identity fields.
#[derive(Clone, PartialEq, Eq, Debug)]
pub struct InnoHeader {
    pub app_name: String,
    pub app_versioned_name: String,
    pub app_id: String,
    pub app_copyright: String,
    pub app_publisher: String,
    pub app_version: String,
    pub default_dir_name: String,
    pub default_group_name: String,
    pub uninstall_name: String,
    pub language_count: u32,
    pub message_count: u32,
    pub permission_count: u32,
    pub type_count: u32,
    pub component_count: u32,
    pub task_count: u32,
    pub directory_count: u32,
    pub file_count: u32,
    pub icon_count: u32,
    pub ini_entry_count: u32,
    pub registry_entry_count: u32,
    pub architectures_allowed: u32,
    pub architectures_disallowed: u32,
    pub privileges_required: u32,
    pub privileges_required_overrides_allowed: u32,
}

/// The mathematical value of a decoded structural header.
pub struct InnoHeaderS {
    pub app_name: Seq<char>,
    pub app_versioned_name: Seq<char>,
    pub app_id: Seq<char>,
    pub app_copyright: Seq<char>,
    pub app_publisher: Seq<char>,
    pub app_version: Seq<char>,
    pub default_dir_name: Seq<char>,
    pub default_group_name: Seq<char>,
    pub uninstall_name: Seq<char>,
    pub language_count: u32,
    pub message_count: u32,
    pub permission_count: u32,
    pub type_count: u32,
    pub component_count: u32,
    pub task_count: u32,
    pub directory_count: u32,
    pub file_count: u32,
    pub icon_count: u32,
    pub ini_entry_count: u32,
    pub registry_entry_count: u32,
    pub architectures_allowed: u32,
    pub architectures_disallowed: u32,
    pub privileges_required: u32,
    pub privileges_required_overrides_allowed: u32,
}

impl View for InnoHeader {
    type V = InnoHeaderS;

    open spec fn view(&self) -> InnoHeaderS {
        InnoHeaderS {
            app_name: self.app_name@,
            app_versioned_name: self.app_versioned_name@,
            app_id: self.app_id@,
            app_copyright: self.app_copyright@,
            app_publisher: self.app_publisher@,
            app_version: self.app_version@,
            default_dir_name: self.default_dir_name@,
            default_group_name: self.default_group_name@,
            uninstall_name: self.uninstall_name@,
            language_count: self.language_count,
            message_count: self.message_count,
            permission_count: self.permission_count,
            type_count: self.type_count,
            component_count: self.component_count,
            task_count: self.task_count,
            directory_count: self.directory_count,
            file_count: self.file_count,
            icon_count: self.icon_count,
            ini_entry_count: self.ini_entry_count,
            registry_entry_count: self.registry_entry_count,
            architectures_allowed: self.architectures_allowed,
            architectures_disallowed: self.architectures_disallowed,
            privileges_required: self.privileges_required,
            privileges_required_overrides_allowed: self.privileges_required_overrides_allowed,
        }
    }
}

/// The version admits the field group first introduced at `(major, minor,
/// patch)`.
pub open spec fn spec_has(v: InnoVersion, major: u8, minor: u8, patch: u8) -> bool {
    !spec_triple_lt(v.triple(), (major, minor, patch))
}

/// The field layout of the structural header for a version: nine identity
/// strings; the section counts, 16-bit before 4.1.5 and 32-bit after, with
/// the permission count present from 4.1.0 and the type, component and task
/// counts from 2.0.0; the architecture bit sets from 5.1.0; the privilege
/// level from 3.0.0; and the privilege-override permission set from 6.0.0.
pub open spec fn spec_header_schema(v: InnoVersion) -> Seq<FieldKind> {
    let w = if spec_has(v, 4, 1, 5) {
        FieldKind::DWord
    } else {
        FieldKind::Word
    };
    seq![
        FieldKind::Text,
        FieldKind::Text,
        FieldKind::Text,
        FieldKind::Text,
        FieldKind::Text,
        FieldKind::Text,
        FieldKind::Text,
        FieldKind::Text,
        FieldKind::Text,
        w,
        w,
    ] + (if spec_has(v, 4, 1, 0) {
        seq![w]
    } else {
        Seq::empty()
    }) + (if spec_has(v, 2, 0, 0) {
        seq![w, w, w]
    } else {
        Seq::empty()
    }) + seq![w, w, w, w, w] + (if spec_has(v, 5, 1, 0) {
        seq![FieldKind::Byte, FieldKind::Byte]
    } else {
        Seq::empty()
    }) + (if spec_has(v, 3, 0, 0) {
        seq![FieldKind::Byte]
    } else {
        Seq::empty()
    }) + (if spec_has(v, 6, 0, 0) {
        seq![FieldKind::Byte]
    } else {
        Seq::empty()
    })
}

/// Builds the header field layout for a version.
pub fn header_schema(v: &InnoVersion) -> (r: Vec<FieldKind>)
    ensures
        r@ == spec_header_schema(*v),
{
    let w = if v.at_least_triple(4, 1, 5) {
        FieldKind::DWord
    } else {
        FieldKind::Word
    };
    let mut schema: Vec<FieldKind> = Vec::new();
    let mut t: usize = 0;
    while t < 9
        invariant
            t <= 9,
            schema@.len() == t,
            forall|j: int| 0 <= j < t ==> schema@[j] == FieldKind::Text,
        decreases 9 - t,
    {
        schema.push(FieldKind::Text);
        t = t + 1;
    }
    schema.push(w);
    schema.push(w);
    if v.at_least_triple(4, 1, 0) {
        schema.push(w);
    }
    if v.at_least_triple(2, 0, 0) {
        schema.push(w);
        schema.push(w);
        schema.push(w);
    }
    schema.push(w);
    schema.push(w);
    schema.push(w);
    schema.push(w);
    schema.push(w);
    if v.at_least_triple(5, 1, 0) {
        schema.push(FieldKind::Byte);
        schema.push(FieldKind::Byte);
    }
    if v.at_least_triple(3, 0, 0) {
        schema.push(FieldKind::Byte);
    }
    if v.at_least_triple(6, 0, 0) {
        schema.push(FieldKind::Byte);
    }
    proof {
        assert(schema@ =~= spec_header_schema(*v));
    }
    schema
}

/// The structural header a version reads out of a record's values, absent
/// fields taking their documented defaults: every architecture allowed,
/// none disallowed, no privilege level, no override permissions.
pub open spec fn spec_build_header(values: Seq<FieldValueS>, v: InnoVersion) -> InnoHeaderS {
    let p1: int = if spec_has(v, 4, 1, 0) {
        12
    } else {
        11
    };
    let p2: int = if spec_has(v, 2, 0, 0) {
        p1 + 3
    } else {
        p1
    };
    let p3: int = p2 + 5;
    let p4: int = if spec_has(v, 5, 1, 0) {
        p3 + 2
    } else {
        p3
    };
    let p5: int = if spec_has(v, 3, 0, 0) {
        p4 + 1
    } else {
        p4
    };
    InnoHeaderS {
        app_name: spec_text_at(values, 0),
        app_versioned_name: spec_text_at(values, 1),
        app_id: spec_text_at(values, 2),
        app_copyright: spec_text_at(values, 3),
        app_publisher: spec_text_at(values, 4),
        app_version: spec_text_at(values, 5),
        default_dir_name: spec_text_at(values, 6),
        default_group_name: spec_text_at(values, 7),
        uninstall_name: spec_text_at(values, 8),
        language_count: spec_int_at(values, 9),
        message_count: spec_int_at(values, 10),
        permission_count: if spec_has(v, 4, 1, 0) {
            spec_int_at(values, 11)
        } else {
            0
        },
        type_count: if spec_has(v, 2, 0, 0) {
            spec_int_at(values, p1)
        } else {
            0
        },
        component_count: if spec_has(v, 2, 0, 0) {
            spec_int_at(values, p1 + 1)
        } else {
            0
        },
        task_count: if spec_has(v, 2, 0, 0) {
            spec_int_at(values, p1 + 2)
        } else {
            0
        },
        directory_count: spec_int_at(values, p2),
        file_count: spec_int_at(values, p2 + 1),
        icon_count: spec_int_at(values, p2 + 2),
        ini_entry_count: spec_int_at(values, p2 + 3),
        registry_entry_count: spec_int_at(values, p2 + 4),
        architectures_allowed: if spec_has(v, 5, 1, 0) {
            spec_int_at(values, p3)
        } else {
            7
        },
        architectures_disallowed: if spec_has(v, 5, 1, 0) {
            spec_int_at(values, p3 + 1)
        } else {
            0
        },
        privileges_required: if spec_has(v, 3, 0, 0) {
            spec_int_at(values, p4)
        } else {
            0
        },
        privileges_required_overrides_allowed: if spec_has(v, 6, 0, 0) {
            spec_int_at(values, p5)
        } else {
            0
        },
    }
}

/// Builds the structural header out of a decoded record's values.
pub fn build_header(values: &Vec<FieldValue>, v: &InnoVersion) -> (r: InnoHeader)
    ensures
        r@ == spec_build_header(spec_values_view(values@), *v),
{
    let p1: usize = if v.at_least_triple(4, 1, 0) {
        12
    } else {
        11
    };
    let p2: usize = if v.at_least_triple(2, 0, 0) {
        p1 + 3
    } else {
        p1
    };
    let p3: usize = p2 + 5;
    let p4: usize = if v.at_least_triple(5, 1, 0) {
        p3 + 2
    } else {
        p3
    };
    let p5: usize = if v.at_least_triple(3, 0, 0) {
        p4 + 1
    } else {
        p4
    };
    InnoHeader {
        app_name: text_at(values, 0),
        app_versioned_name: text_at(values, 1),
        app_id: text_at(values, 2),
        app_copyright: text_at(values, 3),
        app_publisher: text_at(values, 4),
        app_version: text_at(values, 5),
        default_dir_name: text_at(values, 6),
        default_group_name: text_at(values, 7),
        uninstall_name: text_at(values, 8),
        language_count: int_at(values, 9),
        message_count: int_at(values, 10),
        permission_count: if v.at_least_triple(4, 1, 0) {
            int_at(values, 11)
        } else {
            0
        },
        type_count: if v.at_least_triple(2, 0, 0) {
            int_at(values, p1)
        } else {
            0
        },
        component_count: if v.at_least_triple(2, 0, 0) {
            int_at(values, p1 + 1)
        } else {
            0
        },
        task_count: if v.at_least_triple(2, 0, 0) {
            int_at(values, p1 + 2)
        } else {
            0
        },
        directory_count: int_at(values, p2),
        file_count: int_at(values, p2 + 1),
        icon_count: int_at(values, p2 + 2),
        ini_entry_count: int_at(values, p2 + 3),
        registry_entry_count: int_at(values, p2 + 4),
        architectures_allowed: if v.at_least_triple(5, 1, 0) {
            int_at(values, p3)
        } else {
            7
        },
        architectures_disallowed: if v.at_least_triple(5, 1, 0) {
            int_at(values, p3 + 1)
        } else {
            0
        },
        privileges_required: if v.at_least_triple(3, 0, 0) {
            int_at(values, p4)
        } else {
            0
        },
        privileges_required_overrides_allowed: if v.at_least_triple(6, 0, 0) {
            int_at(values, p5)
        } else {
            0
        },
    }
}

/// One language entry: the numeric language identifier and code page that
/// text decoding and the locale tag are derived from.
#[derive(Clone, Copy, PartialEq, Eq, Structural, Debug)]
pub struct LanguageEntry {
    pub id: u32,
    pub codepage: u32,
}

/// The language entry a decoded language record carries.
pub open spec fn spec_language_from(values: Seq<FieldValueS>) -> LanguageEntry {
    LanguageEntry { id: spec_int_at(values, 2), codepage: spec_int_at(values, 3) }
}

/// The language entries of the decoded language records.
pub open spec fn spec_languages_from(records: Seq<Seq<FieldValueS>>) -> Seq<LanguageEntry> {
    records.map_values(|values: Seq<FieldValueS>| spec_language_from(values))
}

/// Extracts the language entries out of the decoded language records.
pub fn languages_from_records(records: &Vec<Vec<FieldValue>>) -> (r: Vec<LanguageEntry>)
    ensures
        r@ == spec_languages_from(spec_records_view(records@)),
{
    let mut out: Vec<LanguageEntry> = Vec::new();
    let mut i: usize = 0;
    while i < records.len()
        invariant
            i <= records.len(),
            out@ =~= spec_languages_from(spec_records_view(records@.take(i as int))),
        decreases records.len() - i,
    {
        let id = int_at(&records[i], 2);
        let codepage = int_at(&records[i], 3);
        out.push(LanguageEntry { id, codepage });
        proof {
            assert(spec_records_view(records@.take(i + 1)) =~= spec_records_view(
                records@.take(i as int),
            ).push(spec_values_view(records@[i as int]@)));
            assert(out@ =~= spec_languages_from(spec_records_view(records@.take(i + 1))));
        }
        i = i + 1;
    }
    proof {
        assert(records@.take(records@.len() as int) =~= records@);
    }
    out
}

/// The field layout of a language record.
pub open spec fn spec_language_schema() -> Seq<FieldKind> {
    seq![FieldKind::Text, FieldKind::Text, FieldKind::DWord, FieldKind::DWord]
}

/// The field layout of each section that the decoder consumes after the
/// languages, in decoding order. The file record gains an attribute word
/// from 4.0.0 and the registry record a root key word from 4.1.0.
pub open spec fn spec_section_schema(section: Section, v: InnoVersion) -> Seq<FieldKind> {
    match section {
        Section::Message => seq![FieldKind::Text, FieldKind::Text, FieldKind::DWord],
        Section::Permission => seq![FieldKind::Text],
        Section::TypeEntry => seq![FieldKind::Text, FieldKind::Text],
        Section::Component => seq![FieldKind::Text, FieldKind::Text],
        Section::Task => seq![FieldKind::Text, FieldKind::Text],
        Section::Directory => seq![FieldKind::Text],
        Section::File => if spec_has(v, 4, 0, 0) {
            seq![FieldKind::Text, FieldKind::Text, FieldKind::DWord]
        } else {
            seq![FieldKind::Text, FieldKind::Text]
        },
        Section::Icon => seq![FieldKind::Text, FieldKind::Text],
        Section::IniEntry => seq![FieldKind::Text, FieldKind::Text, FieldKind::Text, FieldKind::Text],
        Section::RegistryEntry => if spec_has(v, 4, 1, 0) {
            seq![FieldKind::Text, FieldKind::Text, FieldKind::DWord]
        } else {
            seq![FieldKind::Text, FieldKind::Text]
        },
    }
}

/// The sections that follow the languages, in their fixed decoding order.
#[derive(Clone, Copy, PartialEq, Eq, Structural, Debug)]
pub enum Section {
    Message,
    Permission,
    TypeEntry,
    Component,
    Task,
    Directory,
    File,
    Icon,
    IniEntry,
    RegistryEntry,
}

/// Builds the language record layout.
pub fn language_schema() -> (r: Vec<FieldKind>)
    ensures
        r@ == spec_language_schema(),
{
    let mut schema: Vec<FieldKind> = Vec::new();
    schema.push(FieldKind::Text);
    schema.push(FieldKind::Text);
    schema.push(FieldKind::DWord);
    schema.push(FieldKind::DWord);
    proof {
        assert(schema@ =~= spec_language_schema());
    }
    schema
}

/// Builds a section's record layout for a version.
pub fn section_schema(section: Section, v: &InnoVersion) -> (r: Vec<FieldKind>)
    ensures
        r@ == spec_section_schema(section, *v),
{
    let mut schema: Vec<FieldKind> = Vec::new();
    match section {
        Section::Message => {
            schema.push(FieldKind::Text);
            schema.push(FieldKind::Text);
            schema.push(FieldKind::DWord);
        },
        Section::Permission => {
            schema.push(FieldKind::Text);
        },
        Section::TypeEntry => {
            schema.push(FieldKind::Text);
            schema.push(FieldKind::Text);
        },
        Section::Component => {
            schema.push(FieldKind::Text);
            schema.push(FieldKind::Text);
        },
        Section::Task => {
            schema.push(FieldKind::Text);
            schema.push(FieldKind::Text);
        },
        Section::Directory => {
            schema.push(FieldKind::Text);
        },
        Section::File => {
            schema.push(FieldKind::Text);
            schema.push(FieldKind::Text);
            if v.at_least_triple(4, 0, 0) {
                schema.push(FieldKind::DWord);
            }
        },
        Section::Icon => {
            schema.push(FieldKind::Text);
            schema.push(FieldKind::Text);
        },
        Section::IniEntry => {
            schema.push(FieldKind::Text);
            schema.push(FieldKind::Text);
            schema.push(FieldKind::Text);
            schema.push(FieldKind::Text);
        },
        Section::RegistryEntry => {
            schema.push(FieldKind::Text);
            schema.push(FieldKind::Text);
            if v.at_least_triple(4, 1, 0) {
                schema.push(FieldKind::DWord);
            }
        },
    }
    proof {
        assert(schema@ =~= spec_section_schema(section, *v));
    }
    schema
}

} // verus!
