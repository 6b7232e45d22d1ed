use vstd::prelude::*;

verus! {

/// One unique combination of position and texture coordinate.
///
/// Each component is the IEEE-754 bit pattern of an `f32`, so equality is
/// bitwise: `0.0` and `-0.0` differ, and a NaN equals only a NaN with the
/// same payload.
#[derive(Clone, Copy, Debug, PartialEq, Eq, Hash)]
pub struct Vertex {
    pub pos: (u32, u32, u32),
    pub texcoord: (u32, u32),
}

/// The first four components packed into one 128-bit word.
pub open spec fn spec_head_key(v: Vertex) -> u128 {
    ((v.pos.0 as u128) << 96u128) | ((v.pos.1 as u128) << 64u128) | ((v.pos.2 as u128) << 32u128)
        | (v.texcoord.0 as u128)
}

/// A group number beside the last component, packed into one 128-bit word.
pub open spec fn spec_tail_key(group: u64, v: Vertex) -> u128 {
    ((group as u128) << 32u128) | (v.texcoord.1 as u128)
}

proof fn lemma_pack4_injective(a: u32, b: u32, c: u32, d: u32, e: u32, f: u32, g: u32, h: u32)
    by (bit_vector)
    requires
        ((a as u128) << 96u128) | ((b as u128) << 64u128) | ((c as u128) << 32u128) | (d as u128)
            == ((e as u128) << 96u128) | ((f as u128) << 64u128) | ((g as u128) << 32u128) | (
        h as u128),
    ensures
        a == e && b == f && c == g && d == h,
{
}

proof fn lemma_pack2_injective(a: u64, b: u32, c: u64, d: u32)
    by (bit_vector)
    requires
        ((a as u128) << 32u128) | (b as u128) == ((c as u128) << 32u128) | (d as u128),
    ensures
        a == c && b == d,
{
}

/// Two vertices share a head key exactly when their first four components agree.
pub proof fn lemma_head_key_injective(v: Vertex, w: Vertex)
    ensures
        spec_head_key(v) == spec_head_key(w) <==> (v.pos == w.pos && v.texcoord.0
            == w.texcoord.0),
{
    if spec_head_key(v) == spec_head_key(w) {
        lemma_pack4_injective(
            v.pos.0,
            v.pos.1,
            v.pos.2,
            v.texcoord.0,
            w.pos.0,
            w.pos.1,
            w.pos.2,
            w.texcoord.0,
        );
    }
}

/// Two tail keys agree exactly when their groups and last components agree.
pub proof fn lemma_tail_key_injective(g: u64, v: Vertex, h: u64, w: Vertex)
    ensures
        spec_tail_key(g, v) == spec_tail_key(h, w) <==> (g == h && v.texcoord.1 == w.texcoord.1),
{
    if spec_tail_key(g, v) == spec_tail_key(h, w) {
        lemma_pack2_injective(g, v.texcoord.1, h, w.texcoord.1);
    }
}

impl Vertex {
    /// The first four components packed into one word.
    pub fn head_key(&self) -> (r: u128)
        ensures
            r == spec_head_key(*self),
    {
        ((self.pos.0 as u128) << 96u128) | ((self.pos.1 as u128) << 64u128) | ((self.pos.2 as u128)
            << 32u128) | (self.texcoord.0 as u128)
    }

    /// `group` beside the last component, packed into one word.
    pub fn tail_key(&self, group: u64) -> (r: u128)
        ensures
            r == spec_tail_key(group, *self),
    {
        ((group as u128) << 32u128) | (self.texcoord.1 as u128)
    }
}

} // verus!
