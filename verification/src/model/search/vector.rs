//! Vector (nearest neighbour) search hits and the tables searched by vector.
use vstd::prelude::*;
use crate::model::search::ID;

verus! {

/// One hit of a vector search: the record and its distance to the query
/// vector, held as the bit pattern of the IEEE-754 single-precision value.
pub struct VectorSearchResult {
    pub id: ID,
    pub distance: u32,
}

/// Whether the bit pattern has its sign bit set.
pub open spec fn sign_set(bits: u32) -> bool {
    bits >= 0x8000_0000
}

/// The bit pattern without its sign bit: the magnitude's exponent and
/// fraction.
pub open spec fn magnitude(bits: u32) -> u32 {
    if sign_set(bits) {
        (bits - 0x8000_0000u32) as u32
    } else {
        bits
    }
}

/// Whether the bit pattern is a NaN: exponent all ones, fraction not zero.
pub open spec fn is_nan_bits(bits: u32) -> bool {
    magnitude(bits) > 0x7F80_0000
}

/// IEEE-754 numeric equality of two values that are not NaN: the same
/// pattern, or two zeros of either sign.
pub open spec fn float_eq(a: u32, b: u32) -> bool {
    a == b || (magnitude(a) == 0 && magnitude(b) == 0)
}

/// IEEE-754 numeric `<` of two values that are not NaN. Magnitudes of
/// values of one sign order as their patterns do.
pub open spec fn float_lt(a: u32, b: u32) -> bool {
    if float_eq(a, b) {
        false
    } else if !sign_set(a) && !sign_set(b) {
        magnitude(a) < magnitude(b)
    } else if sign_set(a) && sign_set(b) {
        magnitude(a) > magnitude(b)
    } else {
        sign_set(a)
    }
}

/// The key by which distances are ordered, from their bit patterns: values
/// that are not NaN order as the numbers do, and the two zeros share one
/// key. NaNs of either sign take the keys beyond the infinities.
pub open spec fn distance_key(bits: u32) -> u32 {
    if bits == 0x8000_0000 {
        0x8000_0000
    } else if sign_set(bits) {
        (0xFFFF_FFFFu32 - bits) as u32
    } else {
        (bits + 0x8000_0000u32) as u32
    }
}

/// The ordering key of a distance given by its bit pattern.
pub fn distance_order_key(bits: u32) -> (res: u32)
    ensures
        res == distance_key(bits),
{
    if bits == 0x8000_0000 {
        0x8000_0000
    } else if bits > 0x8000_0000 {
        0xFFFF_FFFFu32 - bits
    } else {
        bits + 0x8000_0000u32
    }
}

/// On values that are not NaN, keys compare as the numbers do: a smaller
/// key exactly for a smaller number, an equal key exactly for an equal
/// number (so `-0.0` and `+0.0` share a key).
pub proof fn lemma_distance_key_monotone(a: u32, b: u32)
    requires
        !is_nan_bits(a),
        !is_nan_bits(b),
    ensures
        (distance_key(a) < distance_key(b)) == float_lt(a, b),
        (distance_key(a) == distance_key(b)) == float_eq(a, b),
{
}

/// The tables that a vector search looks in.
#[derive(Debug, Clone, Copy, PartialEq, Eq, Structural)]
pub enum VectorSearchTable {
    Text,
    Image,
}

impl VectorSearchTable {
    /// The table's name.
    pub fn table_name(&self) -> (res: &'static str)
        ensures
            res@ == vector_table_name(*self),
    {
        match self {
            VectorSearchTable::Text => "text",
            VectorSearchTable::Image => "image",
        }
    }

    /// The column that holds the vector.
    pub fn column_name(&self) -> (res: &'static str)
        ensures
            res@ == "vector"@,
    {
        match self {
            VectorSearchTable::Text => "vector",
            VectorSearchTable::Image => "vector",
        }
    }
}

/// Name of a vector searched table.
pub open spec fn vector_table_name(t: VectorSearchTable) -> Seq<char> {
    match t {
        VectorSearchTable::Text => "text"@,
        VectorSearchTable::Image => "image"@,
    }
}

/// The tables a vector search looks in, in the order they are searched.
pub fn vector_search_tables() -> (res: Vec<VectorSearchTable>)
    ensures
        res@ == seq![VectorSearchTable::Text, VectorSearchTable::Image],
{
    vec![VectorSearchTable::Text, VectorSearchTable::Image]
}

} // verus!
