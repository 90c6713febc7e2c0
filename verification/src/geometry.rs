use vstd::prelude::*;

verus! {

/// The fixed vertex interleavings a geometry buffer can be created with.
#[derive(Clone, Copy, Debug, PartialEq, Eq, Structural)]
pub enum VertexLayout {
    Position,
    PositionColor,
    PositionTexcoord,
    PositionColorTexcoord,
}

/// The primitive topology a draw call assembles vertices into.
#[derive(Clone, Copy, Debug, PartialEq, Eq, Structural)]
pub enum Topology {
    Points,
    Lines,
    LineStrip,
    Triangles,
    TriangleStrip,
    TriangleFan,
}

/// One vertex attribute: its shader location, and its width and offset
/// within a vertex, both counted in 32-bit scalars.
#[derive(Clone, Copy, Debug, PartialEq, Eq, Structural)]
pub struct VertexAttribute {
    pub location: u32,
    pub components: u32,
    pub offset: u32,
}

/// The errors geometry creation can report.
#[derive(Clone, Copy, Debug, PartialEq, Eq, Structural)]
pub enum GeometryError {
    /// The vertex buffer was empty: no stride division is defined over it.
    EmptyVertexData,
}

/// Scalars per vertex of a layout.
pub open spec fn stride_spec(layout: VertexLayout) -> int {
    match layout {
        VertexLayout::Position => 3,
        VertexLayout::PositionColor => 6,
        VertexLayout::PositionTexcoord => 5,
        VertexLayout::PositionColorTexcoord => 8,
    }
}

/// The attribute table of a layout: positions at location zero, colors and
/// texture coordinates interleaved behind them.
pub open spec fn attributes_spec(layout: VertexLayout) -> Seq<VertexAttribute> {
    match layout {
        VertexLayout::Position => seq![
            VertexAttribute { location: 0, components: 3, offset: 0 },
        ],
        VertexLayout::PositionColor => seq![
            VertexAttribute { location: 0, components: 3, offset: 0 },
            VertexAttribute { location: 1, components: 3, offset: 3 },
        ],
        VertexLayout::PositionTexcoord => seq![
            VertexAttribute { location: 0, components: 3, offset: 0 },
            VertexAttribute { location: 1, components: 2, offset: 3 },
        ],
        VertexLayout::PositionColorTexcoord => seq![
            VertexAttribute { location: 0, components: 3, offset: 0 },
            VertexAttribute { location: 1, components: 3, offset: 3 },
            VertexAttribute { location: 2, components: 2, offset: 6 },
        ],
    }
}

/// Scalars per vertex of a layout.
pub fn floats_per_vertex(layout: VertexLayout) -> (n: u32)
    ensures
        n as int == stride_spec(layout),
        1 <= n <= 8,
{
    match layout {
        VertexLayout::Position => 3,
        VertexLayout::PositionColor => 6,
        VertexLayout::PositionTexcoord => 5,
        VertexLayout::PositionColorTexcoord => 8,
    }
}

/// The attribute table of a layout, in location order.
pub fn attributes(layout: VertexLayout) -> (v: Vec<VertexAttribute>)
    ensures
        v@ == attributes_spec(layout),
{
    let mut v: Vec<VertexAttribute> = Vec::new();
    match layout {
        VertexLayout::Position => {
            v.push(VertexAttribute { location: 0, components: 3, offset: 0 });
        },
        VertexLayout::PositionColor => {
            v.push(VertexAttribute { location: 0, components: 3, offset: 0 });
            v.push(VertexAttribute { location: 1, components: 3, offset: 3 });
        },
        VertexLayout::PositionTexcoord => {
            v.push(VertexAttribute { location: 0, components: 3, offset: 0 });
            v.push(VertexAttribute { location: 1, components: 2, offset: 3 });
        },
        VertexLayout::PositionColorTexcoord => {
            v.push(VertexAttribute { location: 0, components: 3, offset: 0 });
            v.push(VertexAttribute { location: 1, components: 3, offset: 3 });
            v.push(VertexAttribute { location: 2, components: 2, offset: 6 });
        },
    }
    proof {
        assert(v@ =~= attributes_spec(layout));
    }
    v
}

/// The attribute table of every layout tiles its vertex exactly: locations
/// count up from zero, the first attribute starts at offset zero, each
/// following one starts where the previous ended, and together they cover
/// the whole stride.
pub proof fn lemma_attributes_cover_stride(layout: VertexLayout)
    ensures
        attributes_spec(layout).len() > 0,
        attributes_spec(layout)[0].offset == 0,
        forall|i: int|
            0 <= i < attributes_spec(layout).len() ==> (#[trigger] attributes_spec(layout)[i]).location == i,
        forall|i: int|
            0 < i < attributes_spec(layout).len() ==> (#[trigger] attributes_spec(layout)[i]).offset
                == attributes_spec(layout)[i - 1].offset + attributes_spec(layout)[i - 1].components,
        attributes_spec(layout).last().offset + attributes_spec(layout).last().components
            == stride_spec(layout),
{
    let a = attributes_spec(layout);
    match layout {
        VertexLayout::Position => {
            assert(forall|i: int| 0 <= i < a.len() ==> (#[trigger] a[i]).location == i) by {
                assert(a[0].location == 0);
            }
        },
        VertexLayout::PositionColor => {
            assert(forall|i: int| 0 <= i < a.len() ==> (#[trigger] a[i]).location == i) by {
                assert(a[0].location == 0);
                assert(a[1].location == 1);
            }
        },
        VertexLayout::PositionTexcoord => {
            assert(forall|i: int| 0 <= i < a.len() ==> (#[trigger] a[i]).location == i) by {
                assert(a[0].location == 0);
                assert(a[1].location == 1);
            }
        },
        VertexLayout::PositionColorTexcoord => {
            assert(forall|i: int| 0 <= i < a.len() ==> (#[trigger] a[i]).location == i) by {
                assert(a[0].location == 0);
                assert(a[1].location == 1);
                assert(a[2].location == 2);
            }
        },
    }
}

/// What a draw call issues: an indexed or a plain draw of `count` elements
/// under a topology.
#[derive(Clone, Copy, Debug, PartialEq, Eq, Structural)]
pub struct DrawCall {
    pub indexed: bool,
    pub count: usize,
    pub topology: Topology,
}

/// The vertex store (and optional index store) of one mesh, with its
/// layout and topology.  Scalars are held as their 32-bit patterns: the
/// layout logic reads only their count, never their values, and a
/// rendering host uploads them unchanged.
#[derive(Debug)]
pub struct GeometryBuffer {
    pub vertex_words: Vec<u32>,
    pub index_words: Option<Vec<u32>>,
    pub layout: VertexLayout,
    pub topology: Topology,
}

impl GeometryBuffer {
    /// The buffer's structural invariant: it holds at least one scalar.
    pub open spec fn wf(&self) -> bool {
        self.vertex_words@.len() > 0
    }

    /// How many elements a draw covers: the index count when an index
    /// store exists, else the vertex count under the layout's stride.
    pub open spec fn element_count_spec(&self) -> int {
        match self.index_words {
            Option::Some(ix) => ix@.len() as int,
            Option::None => self.vertex_words@.len() as int / stride_spec(self.layout),
        }
    }

    /// Takes ownership of the scalar buffers and fixes the layout; the
    /// topology starts as triangles.  An empty vertex buffer is rejected
    /// before anything else happens, and is the only rejection.
    pub fn create(
        layout: VertexLayout,
        vertex_words: Vec<u32>,
        index_words: Option<Vec<u32>>,
    ) -> (r: Result<GeometryBuffer, GeometryError>)
        ensures
            r is Err <==> vertex_words@.len() == 0,
            r is Err ==> r == Result::<GeometryBuffer, GeometryError>::Err(
                GeometryError::EmptyVertexData,
            ),
            r is Ok ==> ({
                let g = r->Ok_0;
                &&& g.wf()
                &&& g.vertex_words@ == vertex_words@
                &&& g.index_words == index_words
                &&& g.layout == layout
                &&& g.topology == Topology::Triangles
            }),
    {
        if vertex_words.len() == 0 {
            Err(GeometryError::EmptyVertexData)
        } else {
            Ok(
                GeometryBuffer {
                    vertex_words,
                    index_words,
                    layout,
                    topology: Topology::Triangles,
                },
            )
        }
    }

    /// How many elements the buffer draws.
    pub fn element_count(&self) -> (n: usize)
        ensures
            n as int == self.element_count_spec(),
    {
        match &self.index_words {
            Option::Some(ix) => ix.len(),
            Option::None => self.vertex_words.len() / (floats_per_vertex(self.layout) as usize),
        }
    }

    /// Overrides the topology for every following draw call.
    pub fn set_primitive(&mut self, topology: Topology)
        ensures
            final(self).topology == topology,
            final(self).vertex_words@ == old(self).vertex_words@,
            final(self).index_words == old(self).index_words,
            final(self).layout == old(self).layout,
    {
        self.topology = topology;
    }

    /// The draw call the buffer issues: indexed exactly when an index
    /// store was supplied at creation, over the element count.
    pub fn draw_call(&self) -> (d: DrawCall)
        ensures
            d.indexed <==> self.index_words is Some,
            d.count as int == self.element_count_spec(),
            d.topology == self.topology,
    {
        DrawCall {
            indexed: matches!(&self.index_words, Option::Some(_)),
            count: self.element_count(),
            topology: self.topology,
        }
    }
}

} // verus!
