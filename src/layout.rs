use vstd::prelude::*;

verus! {

/// Bytes taken by one 32-bit float component.
pub const FLOAT_BYTES: u32 = 4;

/// Position components per vertex (x, y, z).
pub const POSITION_COMPONENTS: u32 = 3;

/// Color components per vertex (r, g, b, a).
pub const COLOR_COMPONENTS: u32 = 4;

/// Vertices of the quad.
pub const QUAD_VERTEX_COUNT: u32 = 4;

/// One attribute of an interleaved vertex, as the schema names it.
pub struct AttributeSpec {
    pub name: String,
    pub component_count: u32,
}

/// One attribute as laid out in the interleaved vertex buffer.
pub struct LayoutEntry {
    pub name: String,
    pub component_count: u32,
    pub byte_offset: u32,
}

/// The interleaved layout: attributes in schema order, each at the sum of the
/// sizes of those before it, and the stride of one whole vertex.
pub struct VertexLayout {
    pub entries: Vec<LayoutEntry>,
    pub stride: u32,
}

/// The number of float components of the attributes in `s`.
pub open spec fn component_total(s: Seq<AttributeSpec>) -> int
    decreases s.len(),
{
    if s.len() == 0 {
        0
    } else {
        component_total(s.drop_last()) + s.last().component_count
    }
}

proof fn lemma_component_total_prefix(s: Seq<AttributeSpec>, i: int)
    requires
        0 <= i <= s.len(),
    ensures
        0 <= component_total(s.take(i)) <= component_total(s),
    decreases s.len(),
{
    if i == s.len() {
        assert(s.take(i) == s);
        if s.len() > 0 {
            lemma_component_total_prefix(s.drop_last(), s.len() - 1);
            assert(s.drop_last().take(s.len() - 1) == s.drop_last());
        }
    } else {
        lemma_component_total_prefix(s.drop_last(), i);
        assert(s.drop_last().take(i) == s.take(i));
    }
}

/// Lays the attributes of `schema` out one after the other in a single
/// vertex: each entry keeps its name and size and starts where the previous
/// ones end; the stride is the size of all of them.
pub fn vertex_layout(schema: &Vec<AttributeSpec>) -> (r: VertexLayout)
    requires
        FLOAT_BYTES * component_total(schema@) <= i32::MAX,
    ensures
        r.entries@.len() == schema@.len(),
        forall|i: int|
            0 <= i < schema@.len() ==> {
                &&& (#[trigger] r.entries@[i]).name@ == schema@[i].name@
                &&& r.entries@[i].component_count == schema@[i].component_count
                &&& r.entries@[i].byte_offset == FLOAT_BYTES * component_total(schema@.take(i))
            },
        r.stride == FLOAT_BYTES * component_total(schema@),
{
    let mut entries: Vec<LayoutEntry> = Vec::new();
    let mut offset: u32 = 0;
    let mut i: usize = 0;
    while i < schema.len()
        invariant
            i <= schema@.len(),
            FLOAT_BYTES * component_total(schema@) <= i32::MAX,
            offset == FLOAT_BYTES * component_total(schema@.take(i as int)),
            entries@.len() == i,
            forall|k: int|
                0 <= k < i ==> {
                    &&& (#[trigger] entries@[k]).name@ == schema@[k].name@
                    &&& entries@[k].component_count == schema@[k].component_count
                    &&& entries@[k].byte_offset == FLOAT_BYTES * component_total(schema@.take(k))
                },
        decreases schema@.len() - i,
    {
        proof {
            lemma_component_total_prefix(schema@, i + 1);
            assert(schema@.take(i + 1).drop_last() == schema@.take(i as int));
        }
        let count = schema[i].component_count;
        entries.push(
            LayoutEntry { name: schema[i].name.clone(), component_count: count, byte_offset: offset },
        );
        offset = offset + FLOAT_BYTES * count;
        i = i + 1;
    }
    assert(schema@.take(i as int) == schema@);
    VertexLayout { entries, stride: offset }
}

/// The name of the position attribute in the shader.
pub fn position_attribute() -> (r: String)
    ensures
        r@ == "vertex_position"@,
{
    String::from_str("vertex_position")
}

/// The name of the color attribute in the shader.
pub fn color_attribute() -> (r: String)
    ensures
        r@ == "color"@,
{
    String::from_str("color")
}

/// The schema of one vertex: a position followed by a color.
pub fn interleaved_schema() -> (r: Vec<AttributeSpec>)
    ensures
        r@.len() == 2,
        r@[0].name@ == "vertex_position"@,
        r@[0].component_count == POSITION_COMPONENTS,
        r@[1].name@ == "color"@,
        r@[1].component_count == COLOR_COMPONENTS,
{
    let mut r: Vec<AttributeSpec> = Vec::new();
    r.push(AttributeSpec { name: position_attribute(), component_count: POSITION_COMPONENTS });
    r.push(AttributeSpec { name: color_attribute(), component_count: COLOR_COMPONENTS });
    r
}

/// The layout of the position-and-color vertex: a stride of 28 bytes, the
/// position at offset 0 and the color at offset 12.
pub fn interleaved_layout() -> (r: VertexLayout)
    ensures
        r.stride == FLOAT_BYTES * (POSITION_COMPONENTS + COLOR_COMPONENTS),
        r.stride == 28,
        r.entries@.len() == 2,
        r.entries@[0].name@ == "vertex_position"@,
        r.entries@[0].component_count == POSITION_COMPONENTS,
        r.entries@[0].byte_offset == 0,
        r.entries@[1].name@ == "color"@,
        r.entries@[1].component_count == COLOR_COMPONENTS,
        r.entries@[1].byte_offset == FLOAT_BYTES * POSITION_COMPONENTS,
{
    let schema = interleaved_schema();
    proof {
        let s = schema@;
        assert(s.take(0) =~= Seq::<AttributeSpec>::empty());
        assert(s.take(1).drop_last() =~= s.take(0));
        assert(s.drop_last() =~= s.take(1));
        assert(component_total(s.take(0)) == 0);
        assert(s.take(1).last() == s[0]);
        assert(component_total(s.take(1)) == 3);
        assert(component_total(s) == 7);
    }
    vertex_layout(&schema)
}

/// The two triangles of the quad, as indices into its four vertices.
pub fn quad_indices() -> (r: Vec<u16>)
    ensures
        r@ == seq![0u16, 1u16, 2u16, 1u16, 3u16, 2u16],
        forall|i: int| 0 <= i < r@.len() ==> (#[trigger] r@[i]) < QUAD_VERTEX_COUNT,
{
    let r: Vec<u16> = vec![0, 1, 2, 1, 3, 2];
    r
}

} // verus!
