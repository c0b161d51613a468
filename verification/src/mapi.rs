//! MAPI properties: the typed metadata entries of a message, and the
//! sub-block of the wire format that carries a list of them.

use vstd::prelude::*;
use vstd::utf8::{decode_utf8, valid_utf8};
use crate::bytes::{copy_range, pad_to_four, padded, read_u32_le, u32_le, zero_bytes, zeros};
use crate::utils::{is_bytes_of, string_from_varlen, vec_from_varlen, VariableLength};

verus! {

/// What a MAPI property is, as plain values.
pub struct MapiPropertyView {
    /// 1 for a property of a named property set, 0 for a numbered one.
    pub custom: u32,
    /// The property set, 16 bytes; all zero for a numbered property.
    pub guid: Seq<u8>,
    /// The property tag: the identifier in the upper half, the value type
    /// in the lower half, with the multi-value flag taken out.
    pub id: u32,
    /// The number of values.
    pub count: u32,
    /// The names of a named property, in the order of the stream.
    pub names: Seq<Seq<u8>>,
    /// The values, each as the bytes that the stream holds for it.
    pub values: Seq<Seq<u8>>,
}

/// One typed metadata entry of a message.
#[derive(Debug)]
pub struct MAPIProperty {
    custom: u32,
    guid: Vec<u8>,
    id: u32,
    count: u32,
    propnames: Vec<VariableLength>,
    data: Vec<VariableLength>,
}

/// The byte runs of a list of variable-length fields.
pub open spec fn blobs_view(v: Seq<VariableLength>) -> Seq<Seq<u8>> {
    Seq::new(v.len(), |i: int| v[i]@)
}

/// What a list of properties is, as plain values.
pub open spec fn properties_view(v: Seq<MAPIProperty>) -> Seq<MapiPropertyView> {
    Seq::new(v.len(), |i: int| v[i]@)
}

impl View for MAPIProperty {
    type V = MapiPropertyView;

    closed spec fn view(&self) -> MapiPropertyView {
        MapiPropertyView {
            custom: self.custom,
            guid: self.guid@,
            id: self.id,
            count: self.count,
            names: blobs_view(self.propnames@),
            values: blobs_view(self.data@),
        }
    }
}

/// The value type of a property tag: its lower 16 bits.
pub open spec fn prop_type(tag: int) -> int {
    tag % 65536
}

/// The identifier of a property tag: its upper 16 bits.
pub open spec fn prop_id(tag: int) -> int {
    tag / 65536
}

/// Whether a value type carries the multi-value flag, bit 12.
pub open spec fn is_multi_valued(ptype: int) -> bool {
    (ptype / 4096) % 2 == 1
}

/// Whether values of this type are stored with their length in front:
/// objects, 8-bit strings, Unicode strings and binary runs.
pub open spec fn is_counted_type(ptype: int) -> bool {
    ptype == 13 || ptype == 30 || ptype == 31 || ptype == 258
}

/// The number of bytes of a value of a fixed-size type; zero for every
/// other type.
pub open spec fn fixed_size(ptype: int) -> int {
    if ptype == 2 {
        2
    } else if ptype == 3 || ptype == 4 || ptype == 6 || ptype == 7 || ptype == 10 || ptype == 11 {
        4
    } else if ptype == 5 || ptype == 20 || ptype == 64 {
        8
    } else if ptype == 72 {
        16
    } else {
        0
    }
}

/// The number of bytes that a value of a fixed-size type takes up in the
/// stream: its size, rounded up to four.
pub open spec fn fixed_stride(ptype: int) -> int {
    padded(fixed_size(ptype))
}

/// A name as the decoder keeps it: of each 16-bit unit of the stream, the
/// low byte.
pub open spec fn narrowed(units: Seq<u8>) -> Seq<u8> {
    Seq::new((units.len() / 2) as nat, |j: int| units[2 * j])
}

/// Reads `remaining` names from `off` on. Each is a 32-bit length, that
/// many bytes, and padding up to a multiple of four. The result is the
/// names and the offset behind the last; nothing if the data runs short.
pub open spec fn names_spec(data: Seq<u8>, off: int, remaining: nat) -> Option<
    (Seq<Seq<u8>>, int),
>
    decreases remaining,
{
    if remaining == 0 {
        Some((Seq::empty(), off))
    } else if off + 4 > data.len() {
        None
    } else {
        let size = u32_le(data, off);
        if off + 4 + padded(size) > data.len() {
            None
        } else {
            let name = narrowed(data.subrange(off + 4, off + 4 + size));
            match names_spec(data, off + 4 + padded(size), (remaining - 1) as nat) {
                None => None,
                Some((rest, end)) => Some((seq![name] + rest, end)),
            }
        }
    }
}

/// Reads one value of type `ptype` at `off`. A counted value is a 32-bit
/// length, that many bytes, and padding up to a multiple of four; where the
/// property is not multi-valued, a 32-bit number of objects comes first and
/// is passed over. A fixed-size value is its bytes and padding up to four.
/// Nothing if the type is unknown or the data runs short.
pub open spec fn value_spec(data: Seq<u8>, off: int, ptype: int, multi: bool) -> Option<
    (Seq<u8>, int),
> {
    if is_counted_type(ptype) {
        let start = if multi {
            off
        } else {
            off + 4
        };
        if start + 4 > data.len() {
            None
        } else {
            let size = u32_le(data, start);
            if start + 4 + padded(size) > data.len() {
                None
            } else {
                Some((data.subrange(start + 4, start + 4 + size), start + 4 + padded(size)))
            }
        }
    } else if fixed_size(ptype) > 0 {
        if off + fixed_stride(ptype) > data.len() {
            None
        } else {
            Some((data.subrange(off, off + fixed_size(ptype)), off + fixed_stride(ptype)))
        }
    } else {
        None
    }
}

/// Reads `remaining` values of one type, one behind the other.
pub open spec fn values_spec(
    data: Seq<u8>,
    off: int,
    ptype: int,
    multi: bool,
    remaining: nat,
) -> Option<(Seq<Seq<u8>>, int)>
    decreases remaining,
{
    if remaining == 0 {
        Some((Seq::empty(), off))
    } else {
        match value_spec(data, off, ptype, multi) {
            None => None,
            Some((value, next)) => match values_spec(
                data,
                next,
                ptype,
                multi,
                (remaining - 1) as nat,
            ) {
                None => None,
                Some((rest, end)) => Some((seq![value] + rest, end)),
            },
        }
    }
}

/// What stands in front of the values of a property.
pub struct PropertyHead {
    pub custom: u32,
    pub guid: Seq<u8>,
    pub tag: int,
    pub names: Seq<Seq<u8>>,
}

/// Sixteen zero bytes: the property set of a numbered property.
pub open spec fn zero_guid() -> Seq<u8> {
    zeros(16)
}

/// Reads what stands in front of the values of a property: its 32-bit tag
/// and, where the identifier is 0x8000 or more, the 16 bytes of its
/// property set and either a list of names or a 32-bit number that takes
/// the identifier's place in the tag.
pub open spec fn head_spec(data: Seq<u8>, off: int) -> Option<(PropertyHead, int)> {
    if off + 4 > data.len() {
        None
    } else {
        let raw = u32_le(data, off);
        if prop_id(raw) < 0x8000 {
            Some((PropertyHead { custom: 0, guid: zero_guid(), tag: raw, names: Seq::empty() }, off + 4))
        } else if off + 24 > data.len() {
            None
        } else {
            let guid = data.subrange(off + 4, off + 20);
            let length = u32_le(data, off + 20);
            if length > 0 {
                match names_spec(data, off + 24, length as nat) {
                    None => None,
                    Some((names, end)) => Some((PropertyHead { custom: 1, guid, tag: raw, names }, end)),
                }
            } else if off + 28 > data.len() {
                None
            } else {
                let number = u32_le(data, off + 24);
                let tag = (number % 65536) * 65536 + prop_type(raw);
                Some((PropertyHead { custom: 1, guid, tag, names: Seq::empty() }, off + 28))
            }
        }
    }
}

/// Reads one property at `off`: what stands in front, then, where the type
/// carries the multi-value flag, the 32-bit number of values, then the
/// values. A property without the flag has one value.
pub open spec fn property_spec(data: Seq<u8>, off: int) -> Option<(MapiPropertyView, int)> {
    match head_spec(data, off) {
        None => None,
        Some((head, at)) => {
            if is_multi_valued(prop_type(head.tag)) {
                if at + 4 > data.len() {
                    None
                } else {
                    let count = u32_le(data, at);
                    let tag = head.tag - 4096;
                    match values_spec(data, at + 4, prop_type(tag), true, count as nat) {
                        None => None,
                        Some((values, end)) => Some(
                            (
                                MapiPropertyView {
                                    custom: head.custom,
                                    guid: head.guid,
                                    id: tag as u32,
                                    count: count as u32,
                                    names: head.names,
                                    values,
                                },
                                end,
                            ),
                        ),
                    }
                }
            } else {
                match values_spec(data, at, prop_type(head.tag), false, 1) {
                    None => None,
                    Some((values, end)) => Some(
                        (
                            MapiPropertyView {
                                custom: head.custom,
                                guid: head.guid,
                                id: head.tag as u32,
                                count: 1,
                                names: head.names,
                                values,
                            },
                            end,
                        ),
                    ),
                }
            }
        },
    }
}

/// Reads `remaining` properties, one behind the other.
pub open spec fn properties_spec(data: Seq<u8>, off: int, remaining: nat) -> Option<
    (Seq<MapiPropertyView>, int),
>
    decreases remaining,
{
    if remaining == 0 {
        Some((Seq::empty(), off))
    } else {
        match property_spec(data, off) {
            None => None,
            Some((property, next)) => match properties_spec(data, next, (remaining - 1) as nat) {
                None => None,
                Some((rest, end)) => Some((seq![property] + rest, end)),
            },
        }
    }
}

/// The property list that a sub-block holds: a 32-bit number of properties
/// and then that many properties, which together take up the whole
/// sub-block. Nothing if the data runs short, a value type is unknown, or
/// bytes are left over.
pub open spec fn mapi_spec(data: Seq<u8>) -> Option<Seq<MapiPropertyView>> {
    if data.len() < 4 {
        None
    } else {
        match properties_spec(data, 4, u32_le(data, 0) as nat) {
            None => None,
            Some((properties, end)) => if end == data.len() {
                Some(properties)
            } else {
                None
            },
        }
    }
}


struct Head {
    custom: u32,
    guid: Vec<u8>,
    tag: u32,
    names: Vec<VariableLength>,
}

impl Head {
    spec fn view(&self) -> PropertyHead {
        PropertyHead {
            custom: self.custom,
            guid: self.guid@,
            tag: self.tag as int,
            names: blobs_view(self.names@),
        }
    }
}

fn narrow(data: &[u8], start: usize, size: usize) -> (out: Vec<u8>)
    requires
        start + size <= data@.len(),
    ensures
        out@ == narrowed(data@.subrange(start as int, start + size)),
{
    let ghost units = data@.subrange(start as int, start + size);
    let total: usize = data.len();
    let half: usize = size / 2;
    let mut out: Vec<u8> = Vec::new();
    let mut j: usize = 0;
    while j < half
        invariant
            j <= half,
            half == size / 2,
            start + size <= data@.len(),
            data@.len() == total,
            units == data@.subrange(start as int, start + size),
            out@.len() == j,
            forall|k: int| 0 <= k < j ==> out@[k] == units[2 * k],
        decreases half - j,
    {
        out.push(data[start + 2 * j]);
        j = j + 1;
    }
    assert(out@ =~= narrowed(units));
    out
}

proof fn lemma_blobs_push(v: Seq<VariableLength>, x: VariableLength)
    ensures
        blobs_view(v.push(x)) == blobs_view(v).push(x@),
{
    assert(blobs_view(v.push(x)) =~= blobs_view(v).push(x@));
}

proof fn lemma_properties_push(v: Seq<MAPIProperty>, x: MAPIProperty)
    ensures
        properties_view(v.push(x)) == properties_view(v).push(x@),
{
    assert(properties_view(v.push(x)) =~= properties_view(v).push(x@));
}

fn parse_names(data: &[u8], off: usize, count: u32) -> (r: Option<(Vec<VariableLength>, usize)>)
    requires
        off <= data@.len(),
    ensures
        match names_spec(data@, off as int, count as nat) {
            None => r is None,
            Some((names, end)) => r matches Some((v, e)) && blobs_view(v@) == names && e == end
                && end <= data@.len(),
        },
{
    let mut acc: Vec<VariableLength> = Vec::new();
    let mut at: usize = off;
    let mut i: u32 = 0;
    assert(blobs_view(acc@) =~= Seq::<Seq<u8>>::empty());
    while i < count
        invariant
            i <= count,
            at <= data@.len(),
            names_spec(data@, off as int, count as nat) == match names_spec(
                data@,
                at as int,
                (count - i) as nat,
            ) {
                None => None::<(Seq<Seq<u8>>, int)>,
                Some((rest, end)) => Some((blobs_view(acc@) + rest, end)),
            },
        decreases count - i,
    {
        if data.len() - at < 4 {
            return None;
        }
        let size: u32 = read_u32_le(data, at);
        let step: u64 = pad_to_four(size);
        let avail: usize = data.len() - at - 4;
        if step > avail as u64 {
            return None;
        }
        let name = VariableLength::new(narrow(data, at + 4, size as usize));
        proof {
            lemma_blobs_push(acc@, name);
            match names_spec(data@, at + 4 + step, (count - i - 1) as nat) {
                None => {},
                Some((rest, end)) => {
                    assert(blobs_view(acc@) + (seq![name@] + rest) =~= blobs_view(acc@).push(
                        name@,
                    ) + rest);
                },
            }
        }
        acc.push(name);
        at = at + 4 + step as usize;
        i = i + 1;
    }
    assert(blobs_view(acc@) + Seq::<Seq<u8>>::empty() =~= blobs_view(acc@));
    Some((acc, at))
}

fn parse_value(data: &[u8], off: usize, ptype: u32, multi: bool) -> (r: Option<
    (VariableLength, usize),
>)
    requires
        off <= data@.len(),
    ensures
        match value_spec(data@, off as int, ptype as int, multi) {
            None => r is None,
            Some((value, end)) => r matches Some((v, e)) && v@ == value && e == end && end
                <= data@.len(),
        },
{
    if ptype == 13 || ptype == 30 || ptype == 31 || ptype == 258 {
        let mut start: usize = off;
        if !multi {
            if data.len() - off < 4 {
                return None;
            }
            start = off + 4;
        }
        if data.len() - start < 4 {
            return None;
        }
        let size: u32 = read_u32_le(data, start);
        let step: u64 = pad_to_four(size);
        let avail: usize = data.len() - start - 4;
        if step > avail as u64 {
            return None;
        }
        let value = VariableLength::new(copy_range(data, start + 4, start + 4 + size as usize));
        Some((value, start + 4 + step as usize))
    } else {
        let size: usize = if ptype == 2 {
            2
        } else if ptype == 3 || ptype == 4 || ptype == 6 || ptype == 7 || ptype == 10 || ptype
            == 11 {
            4
        } else if ptype == 5 || ptype == 20 || ptype == 64 {
            8
        } else if ptype == 72 {
            16
        } else {
            0
        };
        if size == 0 {
            return None;
        }
        let stride: usize = if size == 2 {
            4
        } else {
            size
        };
        if data.len() - off < stride {
            return None;
        }
        let value = VariableLength::new(copy_range(data, off, off + size));
        Some((value, off + stride))
    }
}

fn parse_values(data: &[u8], off: usize, ptype: u32, multi: bool, count: u32) -> (r: Option<
    (Vec<VariableLength>, usize),
>)
    requires
        off <= data@.len(),
    ensures
        match values_spec(data@, off as int, ptype as int, multi, count as nat) {
            None => r is None,
            Some((values, end)) => r matches Some((v, e)) && blobs_view(v@) == values && e == end
                && end <= data@.len(),
        },
{
    let mut acc: Vec<VariableLength> = Vec::new();
    let mut at: usize = off;
    let mut i: u32 = 0;
    assert(blobs_view(acc@) =~= Seq::<Seq<u8>>::empty());
    while i < count
        invariant
            i <= count,
            at <= data@.len(),
            values_spec(data@, off as int, ptype as int, multi, count as nat) == match values_spec(
                data@,
                at as int,
                ptype as int,
                multi,
                (count - i) as nat,
            ) {
                None => None::<(Seq<Seq<u8>>, int)>,
                Some((rest, end)) => Some((blobs_view(acc@) + rest, end)),
            },
        decreases count - i,
    {
        match parse_value(data, at, ptype, multi) {
            None => {
                return None;
            },
            Some((value, next)) => {
                proof {
                    lemma_blobs_push(acc@, value);
                    match values_spec(
                        data@,
                        next as int,
                        ptype as int,
                        multi,
                        (count - i - 1) as nat,
                    ) {
                        None => {},
                        Some((rest, end)) => {
                            assert(blobs_view(acc@) + (seq![value@] + rest) =~= blobs_view(
                                acc@,
                            ).push(value@) + rest);
                        },
                    }
                }
                acc.push(value);
                at = next;
                i = i + 1;
            },
        }
    }
    assert(blobs_view(acc@) + Seq::<Seq<u8>>::empty() =~= blobs_view(acc@));
    Some((acc, at))
}

fn parse_head(data: &[u8], off: usize) -> (r: Option<(Head, usize)>)
    requires
        off <= data@.len(),
    ensures
        match head_spec(data@, off as int) {
            None => r is None,
            Some((head, end)) => r matches Some((h, e)) && h.view() == head && e == end && end
                <= data@.len() && h.guid@.len() == 16,
        },
{
    if data.len() - off < 4 {
        return None;
    }
    let raw: u32 = read_u32_le(data, off);
    if raw / 65536 < 0x8000 {
        let none: Vec<VariableLength> = Vec::new();
        assert(blobs_view(none@) =~= Seq::<Seq<u8>>::empty());
        return Some((Head { custom: 0, guid: zero_bytes(16), tag: raw, names: none }, off + 4));
    }
    if data.len() - off < 24 {
        return None;
    }
    let guid = copy_range(data, off + 4, off + 20);
    let length: u32 = read_u32_le(data, off + 20);
    if length > 0 {
        match parse_names(data, off + 24, length) {
            None => None,
            Some((names, end)) => Some((Head { custom: 1, guid, tag: raw, names }, end)),
        }
    } else {
        if data.len() - off < 28 {
            return None;
        }
        let number: u32 = read_u32_le(data, off + 24);
        let tag: u32 = (number % 65536) * 65536 + raw % 65536;
        let none: Vec<VariableLength> = Vec::new();
        assert(blobs_view(none@) =~= Seq::<Seq<u8>>::empty());
        Some((Head { custom: 1, guid, tag, names: none }, off + 28))
    }
}

fn parse_property(data: &[u8], off: usize) -> (r: Option<(MAPIProperty, usize)>)
    requires
        off <= data@.len(),
    ensures
        match property_spec(data@, off as int) {
            None => r is None,
            Some((property, end)) => r matches Some((p, e)) && p@ == property && e == end && end
                <= data@.len(),
        },
{
    match parse_head(data, off) {
        None => None,
        Some((head, at)) => {
            let ptype: u32 = head.tag % 65536;
            if (ptype / 4096) % 2 == 1 {
                if data.len() - at < 4 {
                    return None;
                }
                let count: u32 = read_u32_le(data, at);
                let tag: u32 = head.tag - 4096;
                match parse_values(data, at + 4, tag % 65536, true, count) {
                    None => None,
                    Some((values, end)) => Some(
                        (
                            MAPIProperty {
                                custom: head.custom,
                                guid: head.guid,
                                id: tag,
                                count,
                                propnames: head.names,
                                data: values,
                            },
                            end,
                        ),
                    ),
                }
            } else {
                match parse_values(data, at, ptype, false, 1) {
                    None => None,
                    Some((values, end)) => Some(
                        (
                            MAPIProperty {
                                custom: head.custom,
                                guid: head.guid,
                                id: head.tag,
                                count: 1,
                                propnames: head.names,
                                data: values,
                            },
                            end,
                        ),
                    ),
                }
            }
        },
    }
}

fn parse_properties(data: &[u8], off: usize, count: u32) -> (r: Option<(Vec<MAPIProperty>, usize)>)
    requires
        off <= data@.len(),
    ensures
        match properties_spec(data@, off as int, count as nat) {
            None => r is None,
            Some((properties, end)) => r matches Some((v, e)) && properties_view(v@) == properties
                && e == end && end <= data@.len(),
        },
{
    let mut acc: Vec<MAPIProperty> = Vec::new();
    let mut at: usize = off;
    let mut i: u32 = 0;
    assert(properties_view(acc@) =~= Seq::<MapiPropertyView>::empty());
    while i < count
        invariant
            i <= count,
            at <= data@.len(),
            properties_spec(data@, off as int, count as nat) == match properties_spec(
                data@,
                at as int,
                (count - i) as nat,
            ) {
                None => None::<(Seq<MapiPropertyView>, int)>,
                Some((rest, end)) => Some((properties_view(acc@) + rest, end)),
            },
        decreases count - i,
    {
        match parse_property(data, at) {
            None => {
                return None;
            },
            Some((property, next)) => {
                proof {
                    lemma_properties_push(acc@, property);
                    match properties_spec(data@, next as int, (count - i - 1) as nat) {
                        None => {},
                        Some((rest, end)) => {
                            assert(properties_view(acc@) + (seq![property@] + rest)
                                =~= properties_view(acc@).push(property@) + rest);
                        },
                    }
                }
                acc.push(property);
                at = next;
                i = i + 1;
            },
        }
    }
    assert(properties_view(acc@) + Seq::<MapiPropertyView>::empty() =~= properties_view(acc@));
    Some((acc, at))
}

/// Reads the property list that a sub-block holds. Nothing comes back if
/// the data runs short, a value type is unknown, or bytes are left over.
pub fn parse_mapi_properties(data: &[u8]) -> (r: Option<Vec<MAPIProperty>>)
    ensures
        match mapi_spec(data@) {
            None => r is None,
            Some(properties) => r matches Some(v) && properties_view(v@) == properties,
        },
{
    if data.len() < 4 {
        return None;
    }
    let count: u32 = read_u32_le(data, 0);
    match parse_properties(data, 4, count) {
        None => None,
        Some((properties, end)) => {
            if end == data.len() {
                Some(properties)
            } else {
                None
            }
        },
    }
}

fn clone_blobs(v: &Vec<VariableLength>) -> (out: Vec<VariableLength>)
    ensures
        blobs_view(out@) == blobs_view(v@),
{
    let mut out: Vec<VariableLength> = Vec::new();
    let mut i: usize = 0;
    while i < v.len()
        invariant
            i <= v@.len(),
            out@.len() == i,
            forall|k: int| 0 <= k < i ==> (#[trigger] out@[k])@ == v@[k]@,
        decreases v@.len() - i,
    {
        out.push(v[i].clone());
        i = i + 1;
    }
    assert(blobs_view(out@) =~= blobs_view(v@));
    out
}

impl Clone for MAPIProperty {
    fn clone(&self) -> (out: Self)
        ensures
            out@ == self@,
    {
        proof {
            use_type_invariant(self);
        }
        let guid = copy_range(self.guid.as_slice(), 0, 16);
        assert(guid@ =~= self.guid@);
        MAPIProperty {
            custom: self.custom,
            guid,
            id: self.id,
            count: self.count,
            propnames: clone_blobs(&self.propnames),
            data: clone_blobs(&self.data),
        }
    }
}

impl MAPIProperty {
    #[verifier::type_invariant]
    spec fn well_formed(self) -> bool {
        self.guid@.len() == 16
    }

    /// 1 for a property of a named property set, 0 for a numbered one.
    pub fn custom(&self) -> (out: u32)
        ensures
            out == self@.custom,
    {
        self.custom
    }

    /// The 16 bytes that identify the property set.
    pub fn guid(&self) -> (out: &[u8])
        ensures
            out@ == self@.guid,
            out@.len() == 16,
    {
        proof {
            use_type_invariant(self);
        }
        self.guid.as_slice()
    }

    /// The property tag.
    pub fn id(&self) -> (out: u32)
        ensures
            out == self@.id,
    {
        self.id
    }

    /// The number of values that the property carries.
    pub fn count(&self) -> (out: u32)
        ensures
            out == self@.count,
    {
        self.count
    }

    /// The number of names that the property carries.
    pub fn named_count(&self) -> (out: usize)
        ensures
            out == self@.names.len(),
    {
        self.propnames.len()
    }

    /// The names of a named property: absent where the property carries no
    /// name, and absent as a whole where any one name is empty or is not
    /// UTF-8.
    pub fn named_properties(&self) -> (out: Option<Vec<String>>)
        ensures
            out is Some == (self@.names.len() > 0 && forall|i: int|
                0 <= i < self@.names.len() ==> self@.names[i].len() > 0 && valid_utf8(
                    #[trigger] self@.names[i],
                )),
            out matches Some(v) ==> v@.len() == self@.names.len() && forall|i: int|
                0 <= i < v@.len() ==> (#[trigger] v@[i])@ == decode_utf8(self@.names[i]),
    {
        let count: usize = self.named_count();
        if count < 1 {
            return None;
        }
        let mut output: Vec<String> = Vec::new();
        let mut i: usize = 0;
        while i < count
            invariant
                i <= count,
                count == self.propnames@.len(),
                self@.names == blobs_view(self.propnames@),
                output@.len() == i,
                forall|k: int|
                    0 <= k < i ==> self@.names[k].len() > 0 && valid_utf8(
                        #[trigger] self@.names[k],
                    ),
                forall|k: int| 0 <= k < i ==> (#[trigger] output@[k])@ == decode_utf8(self@.names[k]),
            decreases count - i,
        {
            match string_from_varlen(&self.propnames[i]) {
                None => {
                    assert(self@.names[i as int] == self.propnames@[i as int]@);
                    return None;
                },
                Some(name) => {
                    assert(self@.names[i as int] == self.propnames@[i as int]@);
                    output.push(name);
                },
            }
            i = i + 1;
        }
        Some(output)
    }

    /// The value of the property, or of a multi-valued property its first
    /// value: the bytes that the stream holds for it. Absent where there is
    /// no value or the value is empty.
    pub fn data(&self) -> (out: Option<Vec<u8>>)
        ensures
            self@.values.len() == 0 ==> out is None,
            self@.values.len() > 0 ==> is_bytes_of(out, self@.values[0]),
    {
        if self.data.len() < 1 {
            return None;
        }
        assert(self@.values[0] == self.data@[0]@);
        vec_from_varlen(&self.data[0])
    }
}

} // verus!
