//! The resource tables of the OpenGL action renderer.
//!
//! The renderer keeps, for each vertex buffer ID used by the actions, the name
//! of the OpenGL buffer object that holds it. The host makes the OpenGL calls
//! and hands the object names to these functions.

use vstd::prelude::*;

verus! {

/// Identifies a vertex buffer in the actions sent to the renderer.
#[derive(Clone, Copy, Debug, PartialEq, Eq, Structural)]
pub struct VertexBufferId(pub usize);

/// Identifies a texture in the actions sent to the renderer.
#[derive(Clone, Copy, Debug, PartialEq, Eq, Structural)]
pub struct TextureId(pub usize);

/// Identifies a render target in the actions sent to the renderer.
#[derive(Clone, Copy, Debug, PartialEq, Eq, Structural)]
pub struct RenderTargetId(pub usize);

/// The kind of render target to create.
#[derive(Clone, Copy, Debug, PartialEq, Eq, Structural)]
pub enum RenderTargetType {
    Standard,
    Multisampled,
}

/// OpenGL action renderer.
pub struct GlRenderer {
    /// Name of the vertex array object that defines the 2D vertex layout
    vertex_2d_array: u32,

    /// The OpenGL buffer object stored for each vertex buffer ID
    buffers: Vec<Option<u32>>,
}

impl GlRenderer {
    /// The buffer object stored for each vertex buffer ID (`None` where there is none).
    pub closed spec fn buffer_slots(&self) -> Seq<Option<u32>> {
        self.buffers@
    }

    /// The vertex array object that defines the 2D vertex layout.
    pub closed spec fn vertex_array(&self) -> u32 {
        self.vertex_2d_array
    }

    /// Creates a new renderer that uses the given vertex array object for 2D vertices.
    pub fn new(vertex_2d_array: u32) -> (r: GlRenderer)
        ensures
            r.buffer_slots() == Seq::<Option<u32>>::empty(),
            r.vertex_array() == vertex_2d_array,
    {
        GlRenderer { vertex_2d_array, buffers: Vec::new() }
    }

    /// The vertex array object that defines the 2D vertex layout.
    pub fn vertex_2d_array(&self) -> (a: u32)
        ensures
            a == self.vertex_array(),
    {
        self.vertex_2d_array
    }

    /// The number of vertex buffer slots (one past the highest ID that was created).
    pub fn buffer_count(&self) -> (n: usize)
        ensures
            n == self.buffer_slots().len(),
    {
        self.buffers.len()
    }

    /// The buffer object stored for a vertex buffer ID.
    pub fn vertex_buffer(&self, buffer_id: VertexBufferId) -> (b: Option<u32>)
        ensures
            b == (if buffer_id.0 < self.buffer_slots().len() { self.buffer_slots()[buffer_id.0 as int] } else { None }),
    {
        let id = buffer_id.0;
        if id < self.buffers.len() {
            self.buffers[id]
        } else {
            None
        }
    }

    /// Stores the buffer object created for a vertex buffer ID, extending the table with
    /// empty slots as needed. Returns the buffer object it replaces, which the caller releases.
    pub fn create_vertex_buffer_2d(&mut self, buffer_id: VertexBufferId, buffer: u32) -> (replaced: Option<u32>)
        requires
            buffer_id.0 < usize::MAX,
        ensures
            final(self).buffer_slots() == slots_after_create(old(self).buffer_slots(), buffer_id.0 as int, buffer),
            replaced == (if buffer_id.0 < old(self).buffer_slots().len() { old(self).buffer_slots()[buffer_id.0 as int] } else { None }),
            final(self).vertex_array() == old(self).vertex_array(),
    {
        let id = buffer_id.0;
        // Extend the buffers array as needed
        while self.buffers.len() <= id
            invariant
                id < usize::MAX,
                id == buffer_id.0,
                self.vertex_2d_array == old(self).vertex_2d_array,
                old(self).buffers@.len() <= self.buffers@.len() <= if id < old(self).buffers@.len() {
                    old(self).buffers@.len() as int
                } else {
                    id + 1
                },
                forall|i: int| 0 <= i < self.buffers@.len() ==>
                    #[trigger] self.buffers@[i] == (if i < old(self).buffers@.len() { old(self).buffers@[i] } else { None }),
            decreases id + 1 - self.buffers@.len(),
        {
            self.buffers.push(None);
        }
        let replaced = self.buffers[id];
        self.buffers.set(id, Some(buffer));
        replaced
    }

    /// Frees the vertex buffer with the specified ID, returning the buffer object that was stored.
    pub fn free_vertex_buffer(&mut self, buffer_id: VertexBufferId) -> (freed: Option<u32>)
        requires
            buffer_id.0 < old(self).buffer_slots().len(),
        ensures
            final(self).buffer_slots() == old(self).buffer_slots().update(buffer_id.0 as int, None),
            freed == old(self).buffer_slots()[buffer_id.0 as int],
            final(self).vertex_array() == old(self).vertex_array(),
    {
        let id = buffer_id.0;
        let freed = self.buffers[id];
        self.buffers.set(id, None);
        freed
    }

    /// Creates a new BGRA texture (this renderer keeps no texture state).
    pub fn create_bgra_texture(&mut self, _texture: TextureId, _width: usize, _height: usize)
        ensures
            final(self).buffer_slots() == old(self).buffer_slots(),
            final(self).vertex_array() == old(self).vertex_array(),
    {
    }

    /// Releases an existing texture (this renderer keeps no texture state).
    pub fn free_texture(&mut self, _texture: TextureId)
        ensures
            final(self).buffer_slots() == old(self).buffer_slots(),
            final(self).vertex_array() == old(self).vertex_array(),
    {
    }

    /// Creates a new render target (this renderer keeps no render target state).
    pub fn create_render_target(&mut self, _render_target: RenderTargetId, _texture: TextureId, _width: usize, _height: usize, _render_type: RenderTargetType)
        ensures
            final(self).buffer_slots() == old(self).buffer_slots(),
            final(self).vertex_array() == old(self).vertex_array(),
    {
    }

    /// Chooses which buffer rendering instructions will be sent to (this renderer keeps no render target state).
    pub fn select_render_target(&mut self, _render_target: RenderTargetId)
        ensures
            final(self).buffer_slots() == old(self).buffer_slots(),
            final(self).vertex_array() == old(self).vertex_array(),
    {
    }

    /// Sends rendering instructions to the primary frame buffer for display (nothing to record).
    pub fn select_main_frame_buffer(&mut self)
        ensures
            final(self).buffer_slots() == old(self).buffer_slots(),
            final(self).vertex_array() == old(self).vertex_array(),
    {
    }

    /// Releases an existing render target (this renderer keeps no render target state).
    pub fn free_render_target(&mut self, _render_target: RenderTargetId)
        ensures
            final(self).buffer_slots() == old(self).buffer_slots(),
            final(self).vertex_array() == old(self).vertex_array(),
    {
    }

    /// Flushes all changes to the device (the renderer holds no pending work).
    pub fn flush(&mut self)
        ensures
            final(self).buffer_slots() == old(self).buffer_slots(),
            final(self).vertex_array() == old(self).vertex_array(),
    {
    }
}

/// The slots after storing `buffer` under `id`: the table grows with empty slots up to `id`.
pub open spec fn slots_after_create(slots: Seq<Option<u32>>, id: int, buffer: u32) -> Seq<Option<u32>> {
    Seq::new(
        if id < slots.len() { slots.len() } else { (id + 1) as nat },
        |i: int| if i == id { Some(buffer) } else if i < slots.len() { slots[i] } else { None },
    )
}

/// Freeing a vertex buffer right after storing it undoes the store: the slot is empty again and
/// every other slot is as before (slots added to reach the ID stay empty).
pub proof fn law_free_undoes_create(slots: Seq<Option<u32>>, id: int, buffer: u32)
    requires
        0 <= id,
    ensures
        ({
            let after = slots_after_create(slots, id, buffer).update(id, None);
            &&& after[id] == None::<u32>
            &&& forall|i: int| 0 <= i < after.len() && i != id ==> #[trigger] after[i] == (if i < slots.len() { slots[i] } else { None })
            &&& id < slots.len() ==> after.len() == slots.len()
        }),
{
}

} // verus!
