//! Storage-key layout for type-vertex properties.
//!
//! A type-vertex property key is laid out as one prefix byte marking the
//! key family, the type vertex's bytes, one infix byte naming the property,
//! and an optional suffix: `[prefix | vertex | infix | suffix...]`. The
//! core relies only on this layout round-tripping; the constants here fix
//! one concrete layout.

use vstd::prelude::*;
use crate::bytes::ByteArrayOrRef;

verus! {

/// Sizing hint for buffers holding storage keys.
pub const BUFFER_KEY_INLINE: usize = 48;

/// Width of the leading prefix byte.
pub const PREFIX_ID_LENGTH: usize = 1;

/// Width of a type vertex's byte form.
pub const TYPE_VERTEX_LENGTH: usize = 3;

/// Width of the infix byte naming the property.
pub const INFIX_ID_LENGTH: usize = 1;

/// Width of a property key without its suffix.
pub const TYPE_VERTEX_PROPERTY_LENGTH_NO_SUFFIX: usize = PREFIX_ID_LENGTH + TYPE_VERTEX_LENGTH
    + INFIX_ID_LENGTH;

/// The prefix byte of the type-vertex-property key family.
pub const PROPERTY_TYPE_PREFIX_BYTE: u8 = 30;

/// The key families of the store.
#[derive(Clone, Copy, PartialEq, Eq, Structural, Debug)]
pub enum EncodingKeyspace {
    Schema,
}

/// The property a key carries on its type vertex.
#[derive(Clone, Copy, PartialEq, Eq, Structural, Hash, Debug)]
pub enum Infix {
    PropertyLabel,
    PropertyValueType,
    PropertyAnnotationAbstract,
    PropertyAnnotationDistinct,
    PropertyAnnotationIndependent,
    PropertyAnnotationCardinality,
}

/// The byte encoding each infix.
pub open spec fn infix_byte(infix: Infix) -> u8 {
    match infix {
        Infix::PropertyLabel => 100,
        Infix::PropertyValueType => 101,
        Infix::PropertyAnnotationAbstract => 102,
        Infix::PropertyAnnotationDistinct => 103,
        Infix::PropertyAnnotationIndependent => 104,
        Infix::PropertyAnnotationCardinality => 105,
    }
}

/// The infix a byte decodes to, if any.
pub open spec fn infix_of_byte(byte: u8) -> Option<Infix> {
    if byte == 100 {
        Some(Infix::PropertyLabel)
    } else if byte == 101 {
        Some(Infix::PropertyValueType)
    } else if byte == 102 {
        Some(Infix::PropertyAnnotationAbstract)
    } else if byte == 103 {
        Some(Infix::PropertyAnnotationDistinct)
    } else if byte == 104 {
        Some(Infix::PropertyAnnotationIndependent)
    } else if byte == 105 {
        Some(Infix::PropertyAnnotationCardinality)
    } else {
        None
    }
}

impl Infix {
    /// The byte this infix is written as.
    pub fn infix_id(&self) -> (r: u8)
        ensures
            r == infix_byte(*self),
    {
        match self {
            Infix::PropertyLabel => 100,
            Infix::PropertyValueType => 101,
            Infix::PropertyAnnotationAbstract => 102,
            Infix::PropertyAnnotationDistinct => 103,
            Infix::PropertyAnnotationIndependent => 104,
            Infix::PropertyAnnotationCardinality => 105,
        }
    }

    /// Decodes an infix byte.
    pub fn from_infix_id(byte: u8) -> (r: Option<Infix>)
        ensures
            r == infix_of_byte(byte),
    {
        if byte == 100 {
            Some(Infix::PropertyLabel)
        } else if byte == 101 {
            Some(Infix::PropertyValueType)
        } else if byte == 102 {
            Some(Infix::PropertyAnnotationAbstract)
        } else if byte == 103 {
            Some(Infix::PropertyAnnotationDistinct)
        } else if byte == 104 {
            Some(Infix::PropertyAnnotationIndependent)
        } else if byte == 105 {
            Some(Infix::PropertyAnnotationCardinality)
        } else {
            None
        }
    }
}

/// Round trip: every infix decodes back from its byte.
pub proof fn lemma_infix_byte_round_trip(infix: Infix)
    ensures
        infix_of_byte(infix_byte(infix)) == Some(infix),
{
}

/// A schema type's vertex, in its byte form.
pub struct TypeVertex<'bytes> {
    bytes: ByteArrayOrRef<'bytes, BUFFER_KEY_INLINE>,
}

impl<'bytes> View for TypeVertex<'bytes> {
    type V = Seq<u8>;

    closed spec fn view(&self) -> Seq<u8> {
        self.bytes@
    }
}

impl<'bytes> TypeVertex<'bytes> {
    pub fn new(bytes: ByteArrayOrRef<'bytes, BUFFER_KEY_INLINE>) -> (r: TypeVertex<'bytes>)
        requires
            bytes@.len() == TYPE_VERTEX_LENGTH,
        ensures
            r@ == bytes@,
    {
        TypeVertex { bytes }
    }

    pub fn bytes(&'bytes self) -> (r: &'bytes [u8])
        ensures
            r@ == self@,
    {
        self.bytes.bytes()
    }
}

/// A key addressed to one keyspace of the store.
pub struct StorageKey<'bytes, const INLINE_SIZE: usize> {
    pub keyspace: EncodingKeyspace,
    pub bytes: ByteArrayOrRef<'bytes, INLINE_SIZE>,
}

fn append_bytes(dst: &mut Vec<u8>, src: &[u8])
    ensures
        final(dst)@ == old(dst)@ + src@,
{
    let mut i: usize = 0;
    while i < src.len()
        invariant
            i <= src@.len(),
            dst@ == old(dst)@ + src@.take(i as int),
        decreases src@.len() - i,
    {
        let b = *vstd::slice::slice_index_get(src, i);
        dst.push(b);
        proof {
            assert(src@.take(i + 1) =~= src@.take(i as int).push(src@[i as int]));
            assert(old(dst)@ + src@.take(i as int).push(src@[i as int]) =~= (old(dst)@
                + src@.take(i as int)).push(src@[i as int]));
        }
        i = i + 1;
    }
    proof {
        assert(src@.take(src@.len() as int) =~= src@);
        assert(dst@ == old(dst)@ + src@);
    }
}

/// The layout of a property key built from a vertex and an infix: prefix
/// byte, vertex bytes, infix byte.
pub open spec fn property_layout(vertex: Seq<u8>, infix: Infix) -> Seq<u8> {
    seq![PROPERTY_TYPE_PREFIX_BYTE] + vertex + seq![infix_byte(infix)]
}

/// A storage key carrying one property of one type vertex.
pub struct TypeVertexProperty<'bytes> {
    bytes: ByteArrayOrRef<'bytes, BUFFER_KEY_INLINE>,
}

impl<'bytes> View for TypeVertexProperty<'bytes> {
    type V = Seq<u8>;

    closed spec fn view(&self) -> Seq<u8> {
        self.bytes@
    }
}

impl<'bytes> TypeVertexProperty<'bytes> {
    /// What every property key's bytes satisfy: long enough for the fixed
    /// part, opening with the family's prefix byte, the infix decodable.
    pub open spec fn wf_bytes(bytes: Seq<u8>) -> bool {
        &&& bytes.len() >= TYPE_VERTEX_PROPERTY_LENGTH_NO_SUFFIX
        &&& bytes[0] == PROPERTY_TYPE_PREFIX_BYTE
        &&& infix_of_byte(bytes[PREFIX_ID_LENGTH + TYPE_VERTEX_LENGTH]) is Some
    }

    /// Wraps existing key bytes. The caller vouches that they are a
    /// property key: long enough and carrying the family prefix.
    pub fn new(bytes: ByteArrayOrRef<'bytes, BUFFER_KEY_INLINE>) -> (r: TypeVertexProperty<'bytes>)
        requires
            Self::wf_bytes(bytes@),
        ensures
            r@ == bytes@,
    {
        TypeVertexProperty { bytes }
    }

    /// Assembles the key of `infix` on `vertex`, without a suffix.
    pub fn build(vertex: TypeVertex<'_>, infix: Infix) -> (r: TypeVertexProperty<'static>)
        requires
            vertex@.len() == TYPE_VERTEX_LENGTH,
        ensures
            r@ == property_layout(vertex@, infix),
            r@.len() == TYPE_VERTEX_PROPERTY_LENGTH_NO_SUFFIX,
    {
        let mut array: Vec<u8> = Vec::new();
        array.push(PROPERTY_TYPE_PREFIX_BYTE);
        append_bytes(&mut array, vertex.bytes());
        array.push(infix.infix_id());
        proof {
            assert(array@ =~= property_layout(vertex@, infix));
        }
        TypeVertexProperty {
            bytes: ByteArrayOrRef::Array(crate::bytes::ByteArray::from_vec(array)),
        }
    }

    /// Assembles the key of `infix` on `vertex`, with the given suffix
    /// appended.
    pub fn build_suffixed<const INLINE_BYTES: usize>(
        vertex: TypeVertex<'_>,
        infix: Infix,
        suffix: ByteArrayOrRef<'_, INLINE_BYTES>,
    ) -> (r: TypeVertexProperty<'static>)
        requires
            vertex@.len() == TYPE_VERTEX_LENGTH,
        ensures
            r@ == property_layout(vertex@, infix) + suffix@,
    {
        let mut array: Vec<u8> = Vec::new();
        array.push(PROPERTY_TYPE_PREFIX_BYTE);
        append_bytes(&mut array, vertex.bytes());
        array.push(infix.infix_id());
        append_bytes(&mut array, suffix.bytes());
        proof {
            assert(array@ =~= property_layout(vertex@, infix) + suffix@);
        }
        TypeVertexProperty {
            bytes: ByteArrayOrRef::Array(crate::bytes::ByteArray::from_vec(array)),
        }
    }

    /// The one-byte key prefix under which every property key of this
    /// family sorts.
    pub fn build_prefix() -> (r: StorageKey<'static, BUFFER_KEY_INLINE>)
        ensures
            r.keyspace == EncodingKeyspace::Schema,
            r.bytes@ =~= seq![PROPERTY_TYPE_PREFIX_BYTE],
    {
        let mut prefix: Vec<u8> = Vec::new();
        prefix.push(PROPERTY_TYPE_PREFIX_BYTE);
        StorageKey {
            keyspace: EncodingKeyspace::Schema,
            bytes: ByteArrayOrRef::Array(crate::bytes::ByteArray::from_vec(prefix)),
        }
    }

    /// The type vertex this key addresses.
    pub fn type_vertex(&'bytes self) -> (r: TypeVertex<'bytes>)
        requires
            Self::wf_bytes(self@),
        ensures
            r@ == self@.subrange(
                PREFIX_ID_LENGTH as int,
                (PREFIX_ID_LENGTH + TYPE_VERTEX_LENGTH) as int,
            ),
    {
        let all = self.bytes.bytes();
        let slice = vstd::slice::slice_subrange(
            all,
            PREFIX_ID_LENGTH,
            PREFIX_ID_LENGTH + TYPE_VERTEX_LENGTH,
        );
        TypeVertex::new(ByteArrayOrRef::Reference(slice))
    }

    /// The property this key carries.
    pub fn infix(&self) -> (r: Infix)
        requires
            Self::wf_bytes(self@),
        ensures
            Some(r) == infix_of_byte(self@[(PREFIX_ID_LENGTH + TYPE_VERTEX_LENGTH) as int]),
    {
        let all = self.bytes.bytes();
        let byte = *vstd::slice::slice_index_get(all, PREFIX_ID_LENGTH + TYPE_VERTEX_LENGTH);
        match Infix::from_infix_id(byte) {
            Some(infix) => infix,
            None => {
                proof {
                    assert(false);
                }
                Infix::PropertyLabel
            },
        }
    }

    /// How many suffix bytes follow the fixed part.
    pub fn suffix_length(&self) -> (r: usize)
        requires
            Self::wf_bytes(self@),
        ensures
            r == self@.len() - TYPE_VERTEX_PROPERTY_LENGTH_NO_SUFFIX,
    {
        self.bytes.length() - TYPE_VERTEX_PROPERTY_LENGTH_NO_SUFFIX
    }

    /// The suffix bytes, when the key carries any.
    pub fn suffix(&'bytes self) -> (r: Option<&'bytes [u8]>)
        requires
            Self::wf_bytes(self@),
        ensures
            self@.len() > TYPE_VERTEX_PROPERTY_LENGTH_NO_SUFFIX <==> r is Some,
            r matches Some(s) ==> s@ == self@.subrange(
                TYPE_VERTEX_PROPERTY_LENGTH_NO_SUFFIX as int,
                self@.len() as int,
            ),
    {
        let length = self.bytes.length();
        if length > TYPE_VERTEX_PROPERTY_LENGTH_NO_SUFFIX {
            let all = self.bytes.bytes();
            Some(
                vstd::slice::slice_subrange(
                    all,
                    TYPE_VERTEX_PROPERTY_LENGTH_NO_SUFFIX,
                    length,
                ),
            )
        } else {
            None
        }
    }

    /// The key's bytes.
    pub fn bytes(&'bytes self) -> (r: &'bytes [u8])
        ensures
            r@ == self@,
    {
        self.bytes.bytes()
    }

    /// Surrenders the key's bytes.
    pub fn into_bytes(self) -> (r: ByteArrayOrRef<'bytes, BUFFER_KEY_INLINE>)
        ensures
            r@ == self@,
    {
        self.bytes
    }

    /// The keyspace every property key lives in.
    pub fn keyspace(&self) -> (r: EncodingKeyspace)
        ensures
            r == EncodingKeyspace::Schema,
    {
        EncodingKeyspace::Schema
    }
}

fn new_property_with_infix<'bytes>(
    bytes: ByteArrayOrRef<'bytes, BUFFER_KEY_INLINE>,
    infix: Infix,
) -> (r: TypeVertexProperty<'bytes>)
    requires
        TypeVertexProperty::wf_bytes(bytes@),
        infix_of_byte(bytes@[(PREFIX_ID_LENGTH + TYPE_VERTEX_LENGTH) as int]) == Some(infix),
    ensures
        r@ == bytes@,
{
    let vertex = TypeVertexProperty::new(bytes);
    vertex
}

fn is_property_with_infix(bytes: &ByteArrayOrRef<'_, BUFFER_KEY_INLINE>, infix: Infix) -> (r: bool)
    ensures
        r == (bytes@.len() == TYPE_VERTEX_PROPERTY_LENGTH_NO_SUFFIX && bytes@[0]
            == PROPERTY_TYPE_PREFIX_BYTE && bytes@[(PREFIX_ID_LENGTH + TYPE_VERTEX_LENGTH) as int]
            == infix_byte(infix)),
{
    let all = bytes.bytes();
    if all.len() != TYPE_VERTEX_PROPERTY_LENGTH_NO_SUFFIX {
        return false;
    }
    let first = *vstd::slice::slice_index_get(all, 0);
    if first != PROPERTY_TYPE_PREFIX_BYTE {
        return false;
    }
    let byte = *vstd::slice::slice_index_get(all, PREFIX_ID_LENGTH + TYPE_VERTEX_LENGTH);
    byte == infix.infix_id()
}

/// Wraps key bytes known to carry the type label property.
pub fn new_property_type_label<'bytes>(bytes: ByteArrayOrRef<'bytes, BUFFER_KEY_INLINE>) -> (r:
    TypeVertexProperty<'bytes>)
    requires
        TypeVertexProperty::wf_bytes(bytes@),
        infix_of_byte(bytes@[(PREFIX_ID_LENGTH + TYPE_VERTEX_LENGTH) as int]) == Some(
            Infix::PropertyLabel,
        ),
    ensures
        r@ == bytes@,
{
    new_property_with_infix(bytes, Infix::PropertyLabel)
}

/// Builds the type label property key of a vertex.
pub fn build_property_type_label(type_vertex: TypeVertex<'_>) -> (r: TypeVertexProperty<'static>)
    requires
        type_vertex@.len() == TYPE_VERTEX_LENGTH,
    ensures
        r@ == property_layout(type_vertex@, Infix::PropertyLabel),
{
    TypeVertexProperty::build(type_vertex, Infix::PropertyLabel)
}

/// Whether key bytes are exactly a type label property key.
pub fn is_property_type_label_prefix(bytes: &ByteArrayOrRef<'_, BUFFER_KEY_INLINE>) -> (r: bool)
    ensures
        r == (bytes@.len() == TYPE_VERTEX_PROPERTY_LENGTH_NO_SUFFIX && bytes@[0]
            == PROPERTY_TYPE_PREFIX_BYTE && bytes@[(PREFIX_ID_LENGTH + TYPE_VERTEX_LENGTH) as int]
            == infix_byte(Infix::PropertyLabel)),
{
    is_property_with_infix(bytes, Infix::PropertyLabel)
}

/// Wraps key bytes known to carry the value type property.
pub fn new_property_type_value_type<'bytes>(bytes: ByteArrayOrRef<'bytes, BUFFER_KEY_INLINE>) -> (r:
    TypeVertexProperty<'bytes>)
    requires
        TypeVertexProperty::wf_bytes(bytes@),
        infix_of_byte(bytes@[(PREFIX_ID_LENGTH + TYPE_VERTEX_LENGTH) as int]) == Some(
            Infix::PropertyValueType,
        ),
    ensures
        r@ == bytes@,
{
    new_property_with_infix(bytes, Infix::PropertyValueType)
}

/// Builds the value type property key of a vertex.
pub fn build_property_type_value_type(type_vertex: TypeVertex<'_>) -> (r: TypeVertexProperty<
    'static,
>)
    requires
        type_vertex@.len() == TYPE_VERTEX_LENGTH,
    ensures
        r@ == property_layout(type_vertex@, Infix::PropertyValueType),
{
    TypeVertexProperty::build(type_vertex, Infix::PropertyValueType)
}

/// Whether key bytes are exactly a value type property key.
pub fn is_property_type_value_type(bytes: &ByteArrayOrRef<'_, BUFFER_KEY_INLINE>) -> (r: bool)
    ensures
        r == (bytes@.len() == TYPE_VERTEX_PROPERTY_LENGTH_NO_SUFFIX && bytes@[0]
            == PROPERTY_TYPE_PREFIX_BYTE && bytes@[(PREFIX_ID_LENGTH + TYPE_VERTEX_LENGTH) as int]
            == infix_byte(Infix::PropertyValueType)),
{
    is_property_with_infix(bytes, Infix::PropertyValueType)
}

/// Builds the abstract annotation property key of a vertex.
pub fn build_property_type_annotation_abstract(type_vertex: TypeVertex<'_>) -> (r:
    TypeVertexProperty<'static>)
    requires
        type_vertex@.len() == TYPE_VERTEX_LENGTH,
    ensures
        r@ == property_layout(type_vertex@, Infix::PropertyAnnotationAbstract),
{
    TypeVertexProperty::build(type_vertex, Infix::PropertyAnnotationAbstract)
}

/// Builds the distinct annotation property key of a vertex.
pub fn build_property_type_annotation_distinct(type_vertex: TypeVertex<'_>) -> (r:
    TypeVertexProperty<'static>)
    requires
        type_vertex@.len() == TYPE_VERTEX_LENGTH,
    ensures
        r@ == property_layout(type_vertex@, Infix::PropertyAnnotationDistinct),
{
    TypeVertexProperty::build(type_vertex, Infix::PropertyAnnotationDistinct)
}

/// Builds the independent annotation property key of a vertex.
pub fn build_property_type_annotation_independent(type_vertex: TypeVertex<'_>) -> (r:
    TypeVertexProperty<'static>)
    requires
        type_vertex@.len() == TYPE_VERTEX_LENGTH,
    ensures
        r@ == property_layout(type_vertex@, Infix::PropertyAnnotationIndependent),
{
    TypeVertexProperty::build(type_vertex, Infix::PropertyAnnotationIndependent)
}

/// Builds the cardinality annotation property key of a vertex.
pub fn build_property_type_annotation_cardinality(type_vertex: TypeVertex<'_>) -> (r:
    TypeVertexProperty<'static>)
    requires
        type_vertex@.len() == TYPE_VERTEX_LENGTH,
    ensures
        r@ == property_layout(type_vertex@, Infix::PropertyAnnotationCardinality),
{
    TypeVertexProperty::build(type_vertex, Infix::PropertyAnnotationCardinality)
}

/// Wraps key bytes known to carry the abstract annotation property.
pub fn new_property_type_annotation_abstract<'bytes>(
    bytes: ByteArrayOrRef<'bytes, BUFFER_KEY_INLINE>,
) -> (r: TypeVertexProperty<'bytes>)
    requires
        TypeVertexProperty::wf_bytes(bytes@),
        infix_of_byte(bytes@[(PREFIX_ID_LENGTH + TYPE_VERTEX_LENGTH) as int]) == Some(
            Infix::PropertyAnnotationAbstract,
        ),
    ensures
        r@ == bytes@,
{
    new_property_with_infix(bytes, Infix::PropertyAnnotationAbstract)
}

/// Whether key bytes are exactly a abstract annotation property key.
pub fn is_property_type_annotation_abstract(bytes: &ByteArrayOrRef<'_, BUFFER_KEY_INLINE>) -> (r: bool)
    ensures
        r == (bytes@.len() == TYPE_VERTEX_PROPERTY_LENGTH_NO_SUFFIX && bytes@[0]
            == PROPERTY_TYPE_PREFIX_BYTE && bytes@[(PREFIX_ID_LENGTH + TYPE_VERTEX_LENGTH) as int]
            == infix_byte(Infix::PropertyAnnotationAbstract)),
{
    is_property_with_infix(bytes, Infix::PropertyAnnotationAbstract)
}

/// Wraps key bytes known to carry the distinct annotation property.
pub fn new_property_type_annotation_distinct<'bytes>(
    bytes: ByteArrayOrRef<'bytes, BUFFER_KEY_INLINE>,
) -> (r: TypeVertexProperty<'bytes>)
    requires
        TypeVertexProperty::wf_bytes(bytes@),
        infix_of_byte(bytes@[(PREFIX_ID_LENGTH + TYPE_VERTEX_LENGTH) as int]) == Some(
            Infix::PropertyAnnotationDistinct,
        ),
    ensures
        r@ == bytes@,
{
    new_property_with_infix(bytes, Infix::PropertyAnnotationDistinct)
}

/// Whether key bytes are exactly a distinct annotation property key.
pub fn is_property_type_annotation_distinct(bytes: &ByteArrayOrRef<'_, BUFFER_KEY_INLINE>) -> (r: bool)
    ensures
        r == (bytes@.len() == TYPE_VERTEX_PROPERTY_LENGTH_NO_SUFFIX && bytes@[0]
            == PROPERTY_TYPE_PREFIX_BYTE && bytes@[(PREFIX_ID_LENGTH + TYPE_VERTEX_LENGTH) as int]
            == infix_byte(Infix::PropertyAnnotationDistinct)),
{
    is_property_with_infix(bytes, Infix::PropertyAnnotationDistinct)
}

/// Wraps key bytes known to carry the independent annotation property.
pub fn new_property_type_annotation_independent<'bytes>(
    bytes: ByteArrayOrRef<'bytes, BUFFER_KEY_INLINE>,
) -> (r: TypeVertexProperty<'bytes>)
    requires
        TypeVertexProperty::wf_bytes(bytes@),
        infix_of_byte(bytes@[(PREFIX_ID_LENGTH + TYPE_VERTEX_LENGTH) as int]) == Some(
            Infix::PropertyAnnotationIndependent,
        ),
    ensures
        r@ == bytes@,
{
    new_property_with_infix(bytes, Infix::PropertyAnnotationIndependent)
}

/// Whether key bytes are exactly a independent annotation property key.
pub fn is_property_type_annotation_independent(bytes: &ByteArrayOrRef<'_, BUFFER_KEY_INLINE>) -> (r: bool)
    ensures
        r == (bytes@.len() == TYPE_VERTEX_PROPERTY_LENGTH_NO_SUFFIX && bytes@[0]
            == PROPERTY_TYPE_PREFIX_BYTE && bytes@[(PREFIX_ID_LENGTH + TYPE_VERTEX_LENGTH) as int]
            == infix_byte(Infix::PropertyAnnotationIndependent)),
{
    is_property_with_infix(bytes, Infix::PropertyAnnotationIndependent)
}

/// Wraps key bytes known to carry the cardinality annotation property.
pub fn new_property_type_annotation_cardinality<'bytes>(
    bytes: ByteArrayOrRef<'bytes, BUFFER_KEY_INLINE>,
) -> (r: TypeVertexProperty<'bytes>)
    requires
        TypeVertexProperty::wf_bytes(bytes@),
        infix_of_byte(bytes@[(PREFIX_ID_LENGTH + TYPE_VERTEX_LENGTH) as int]) == Some(
            Infix::PropertyAnnotationCardinality,
        ),
    ensures
        r@ == bytes@,
{
    new_property_with_infix(bytes, Infix::PropertyAnnotationCardinality)
}

/// Whether key bytes are exactly a cardinality annotation property key.
pub fn is_property_type_annotation_cardinality(bytes: &ByteArrayOrRef<'_, BUFFER_KEY_INLINE>) -> (r: bool)
    ensures
        r == (bytes@.len() == TYPE_VERTEX_PROPERTY_LENGTH_NO_SUFFIX && bytes@[0]
            == PROPERTY_TYPE_PREFIX_BYTE && bytes@[(PREFIX_ID_LENGTH + TYPE_VERTEX_LENGTH) as int]
            == infix_byte(Infix::PropertyAnnotationCardinality)),
{
    is_property_with_infix(bytes, Infix::PropertyAnnotationCardinality)
}

} // verus!
