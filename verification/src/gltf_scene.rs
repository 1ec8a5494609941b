//! Loading of glTF scenes: which parts of the buffers are needed and for what,
//! in which order they are read, and what the loaded scene consists of.

use vstd::prelude::*;

use crate::bytes;
use crate::gltf_document;
use crate::gltf_document::{
    document_accessors, document_buffers, document_images, document_materials, document_nodes,
    document_primitives, document_samplers, document_scenes, document_textures, document_views,
    primitive_attributes, read_document, read_json, root_accessor_count, root_positions,
    texture_numbers, AccessorInfo, ImageInfo, MaterialInfo, NodeInfo, PrimitiveInfo, SamplerInfo,
    Semantic, TextureInfo, TextureLink, ViewInfo,
};
use crate::vk;

verus! {

/// Why a glTF file cannot be loaded.
#[derive(Debug)]
pub enum GltfError {
    /// The text is no JSON in the shape of a glTF root.
    Deserialize(gltf::json::Error),
    /// The positions of a primitive are in an accessor that is not declared.
    MissingPositions { mesh: usize, primitive: usize },
    /// The document does not pass validation.
    Gltf(gltf::Error),
    /// Buffer views overlap, or one is used in ways that exclude each other.
    OverlappingBufferView,
    /// The JSON chunk of a binary file is missing.
    MissingJson,
    /// The binary chunk of a binary file is missing.
    MissingBlob,
    /// An image in a buffer is of a type that is not read.
    InvalidImageMimeType(String),
    /// An image cannot be read.
    Image(image::ImageError),
    /// A Vulkan error code.
    Vulkan(i32),
}

// ---------------------------------------------------------------------------
// The container
// ---------------------------------------------------------------------------

/// How the document is stored.
#[derive(Debug, Clone, Copy, PartialEq, Eq, Structural)]
pub enum Container {
    /// A binary file, whose JSON chunk has this length.
    Binary { json_length: u32 },
    /// A JSON file.
    Text,
}

/// Length of the file header and the header of the first chunk.
pub const GLB_HEADER_LENGTH: usize = 20;

pub open spec fn bytes_at(s: Seq<u8>, at: int, a: u8, b: u8, c: u8, d: u8) -> bool {
    s[at] == a && s[at + 1] == b && s[at + 2] == c && s[at + 3] == d
}

pub open spec fn is_binary(header: Seq<u8>) -> bool {
    bytes_at(header, 0, 0x67, 0x6C, 0x54, 0x46)
}

pub open spec fn is_json_chunk(header: Seq<u8>) -> bool {
    bytes_at(header, 16, 0x4A, 0x53, 0x4F, 0x4E)
}

/// A binary file begins with the letters `glTF`, and the chunk behind its header
/// is marked with `JSON`.
pub proof fn law_binary_files_are_marked(header: Seq<u8>)
    ensures
        is_binary(header) <==> bytes::u32_at(header, 0) == 0x4654_6C67,
        is_json_chunk(header) <==> bytes::u32_at(header, 16) == 0x4E4F_534A,
{
    bytes::law_the_lowest_byte_comes_first(header, 0);
    bytes::law_the_lowest_byte_comes_first(header, 16);
}

fn match_bytes(s: &[u8], at: usize, a: u8, b: u8, c: u8, d: u8) -> (r: bool)
    requires
        at + 4 <= s@.len(),
    ensures
        r == bytes_at(s@, at as int, a, b, c, d),
{
    s[at] == a && s[at + 1] == b && s[at + 2] == c && s[at + 3] == d
}

/// Reads the first bytes of a file.
pub fn container(header: &[u8]) -> (r: Result<Container, GltfError>)
    requires
        header@.len() == GLB_HEADER_LENGTH,
    ensures
        r is Ok <==> !is_binary(header@) || is_json_chunk(header@),
        r matches Err(e) ==> e is MissingJson,
        r matches Ok(c) ==> (c == Container::Text <==> !is_binary(header@)),
        r matches Ok(Container::Binary { json_length }) ==> json_length == bytes::u32_at(header@, 12),
{
    if !match_bytes(header, 0, 0x67, 0x6C, 0x54, 0x46) {
        return Ok(Container::Text);
    }
    if !match_bytes(header, 16, 0x4A, 0x53, 0x4F, 0x4E) {
        return Err(GltfError::MissingJson);
    }
    Ok(Container::Binary { json_length: bytes::read_u32(header, 12) })
}

/// Checks the header of the binary chunk, which follows the JSON chunk.
pub fn check_blob_header(header: &[u8]) -> (r: Result<(), GltfError>)
    requires
        header@.len() == 8,
    ensures
        r is Ok <==> bytes_at(header@, 4, 0x42, 0x49, 0x4E, 0),
        r matches Err(e) ==> e is MissingBlob,
{
    if match_bytes(header, 4, 0x42, 0x49, 0x4E, 0) {
        Ok(())
    } else {
        Err(GltfError::MissingBlob)
    }
}

// ---------------------------------------------------------------------------
// The document
// ---------------------------------------------------------------------------

/// What the loader needs of a document, as plain values.
pub struct SceneData {
    pub views: Vec<ViewInfo>,
    pub buffers: Vec<Option<String>>,
    pub accessors: Vec<AccessorInfo>,
    pub images: Vec<ImageInfo>,
    pub primitives: Vec<Vec<PrimitiveInfo>>,
    pub attributes: Vec<Vec<Vec<(Semantic, usize)>>>,
    pub materials: Vec<MaterialInfo>,
    pub textures: Vec<TextureInfo>,
    pub samplers: Vec<SamplerInfo>,
    pub scenes: Vec<Vec<usize>>,
    pub nodes: Vec<NodeInfo>,
}

impl SceneData {
    /// Whatever is named by its number exists.
    pub open spec fn wf(&self) -> bool {
        &&& forall|i: int|
            0 <= i < self.views@.len() ==> (#[trigger] self.views@[i]).buffer < self.buffers@.len()
        &&& forall|i: int|
            0 <= i < self.accessors@.len() ==> accessor_wf(
                #[trigger] self.accessors@[i],
                self.views@.len(),
            )
        &&& forall|i: int|
            0 <= i < self.images@.len() && (#[trigger] self.images@[i]).view is Some
                ==> self.images@[i].view->0 < self.views@.len()
        &&& self.attributes@.len() == self.primitives@.len()
        &&& forall|i: int|
            0 <= i < self.primitives@.len() ==> (#[trigger] self.attributes@[i])@.len()
                == self.primitives@[i]@.len()
        &&& forall|i: int, j: int|
            0 <= i < self.primitives@.len() && 0 <= j < self.primitives@[i]@.len()
                ==> primitive_wf(
                #[trigger] self.primitives@[i]@[j],
                self.accessors@.len(),
                self.materials@.len(),
            )
        &&& forall|i: int, j: int, k: int|
            0 <= i < self.attributes@.len() && 0 <= j < self.attributes@[i]@.len() && 0 <= k
                < self.attributes@[i]@[j]@.len() ==> (#[trigger] self.attributes@[i]@[j]@[k]).1
                < self.accessors@.len()
        &&& forall|i: int|
            0 <= i < self.materials@.len() && (
            #[trigger] self.materials@[i]).base_color_texture is Some
                ==> self.materials@[i].base_color_texture->0 < self.textures@.len()
        &&& forall|i: int|
            0 <= i < self.textures@.len() ==> texture_wf(
                #[trigger] self.textures@[i],
                self.images@.len(),
                self.samplers@.len(),
            )
        &&& forall|i: int, j: int|
            0 <= i < self.scenes@.len() && 0 <= j < self.scenes@[i]@.len()
                ==> #[trigger] self.scenes@[i]@[j] < self.nodes@.len()
        &&& nodes_wf(self.nodes@, self.primitives@.len())
    }
}

pub open spec fn accessor_wf(a: AccessorInfo, views: nat) -> bool {
    a.size <= 64 && (a.view is Some ==> a.view->0 < views)
}

pub open spec fn primitive_wf(p: PrimitiveInfo, accessors: nat, materials: nat) -> bool {
    (p.indices is Some ==> p.indices->0 < accessors) && (p.material is Some ==> p.material->0
        < materials)
}

pub open spec fn texture_wf(t: TextureInfo, images: nat, samplers: nat) -> bool {
    t.source < images && (t.sampler is Some ==> t.sampler->0 < samplers)
}

pub open spec fn nodes_wf(nodes: Seq<NodeInfo>, meshes: nat) -> bool {
    &&& forall|i: int, j: int|
        0 <= i < nodes.len() && 0 <= j < nodes[i].children@.len()
            ==> #[trigger] nodes[i].children@[j] < nodes.len()
    &&& forall|i: int|
        0 <= i < nodes.len() && (#[trigger] nodes[i]).mesh is Some ==> nodes[i].mesh->0 < meshes
}

/// The extension by which a texture names an image of a DDS file.
pub const DDS_EXTENSION: &'static str = "MSFT_texture_dds";

/// The key under which the extension names the image.
pub const DDS_SOURCE: &'static str = "source";

/// The textures, each with the image that the DDS extension names for it.
pub open spec fn with_numbers(links: Seq<TextureLink>, numbers: Seq<Option<u64>>) -> Seq<
    TextureInfo,
> {
    Seq::new(
        links.len(),
        |i: int|
            TextureInfo {
                source: links[i].source,
                dds_source: numbers[i],
                sampler: links[i].sampler,
            },
    )
}

/// A texture keeps its image and its sampler, and has the number that the
/// extension gives for it.
pub proof fn law_textures_keep_their_links(
    links: Seq<TextureLink>,
    numbers: Seq<Option<u64>>,
    i: int,
)
    requires
        0 <= i < links.len(),
    ensures
        with_numbers(links, numbers).len() == links.len(),
        with_numbers(links, numbers)[i].source == links[i].source,
        with_numbers(links, numbers)[i].sampler == links[i].sampler,
        with_numbers(links, numbers)[i].dds_source == numbers[i],
{
}

/// Puts the two together.
fn join_numbers(links: &Vec<TextureLink>, numbers: &Vec<Option<u64>>) -> (r: Vec<TextureInfo>)
    requires
        links@.len() == numbers@.len(),
    ensures
        r@ == with_numbers(links@, numbers@),
{
    let mut out: Vec<TextureInfo> = Vec::new();
    while out.len() < links.len()
        invariant
            out@.len() <= links@.len(),
            links@.len() == numbers@.len(),
            out@ == with_numbers(links@, numbers@).take(out@.len() as int),
        decreases links@.len() - out@.len(),
    {
        let i: usize = out.len();
        out.push(
            TextureInfo {
                source: links[i].source,
                dds_source: numbers[i],
                sampler: links[i].sampler,
            },
        );
        assert(out@ =~= with_numbers(links@, numbers@).take(out@.len() as int));
    }
    assert(out@ =~= with_numbers(links@, numbers@));
    out
}

/// The data holds what the text declares.
pub open spec fn describes(s: SceneData, text: Seq<u8>) -> bool {
    &&& s.views@ == gltf_document::gltf_views(text)
    &&& s.buffers@.map_values(|s: Option<String>| gltf_document::string_view(s))
        == gltf_document::gltf_buffers(text)
    &&& s.accessors@ == gltf_document::gltf_accessors(text)
    &&& s.images@.map_values(|i: ImageInfo| i@) == gltf_document::gltf_images(text)
    &&& s.primitives@.map_values(|v: Vec<PrimitiveInfo>| v@)
        == gltf_document::gltf_primitives(text)
    &&& forall|i: int, j: int|
        0 <= i < s.attributes@.len() && 0 <= j < s.attributes@[i]@.len()
            ==> (#[trigger] s.attributes@[i]@[j])@ == gltf_document::gltf_attributes(
            text,
            i,
            j,
        )
    &&& s.materials@ == gltf_document::gltf_materials(text)
    &&& s.textures@ == with_numbers(
        gltf_document::gltf_textures(text),
        gltf_document::gltf_texture_numbers(text, DDS_EXTENSION@, DDS_SOURCE@),
    )
    &&& s.samplers@ == gltf_document::gltf_samplers(text)
    &&& s.scenes@.map_values(|v: Vec<usize>| v@) == gltf_document::gltf_scenes(text)
    &&& s.nodes@.map_values(|n: NodeInfo| n@) == gltf_document::gltf_nodes(text)
}

fn attributes_of_mesh(document: &gltf::Document, mesh: usize, count: usize) -> (r: Vec<
    Vec<(Semantic, usize)>,
>)
    requires
        gltf_document::is_valid_gltf(gltf_document::document_text(*document), usize::BITS),
        mesh < gltf_document::gltf_primitives(
            gltf_document::document_text(*document),
        ).len(),
        count == gltf_document::gltf_primitives(
            gltf_document::document_text(*document),
        )[mesh as int].len(),
    ensures
        r@.len() == count,
        forall|j: int|
            0 <= j < count ==> (#[trigger] r@[j])@ == gltf_document::gltf_attributes(
                gltf_document::document_text(*document),
                mesh as int,
                j,
            ),
        forall|j: int, k: int|
            0 <= j < count && 0 <= k < r@[j]@.len() ==> (#[trigger] r@[j]@[k]).1
                < gltf_document::gltf_accessors(
                gltf_document::document_text(*document),
            ).len(),
{
    let ghost text = gltf_document::document_text(*document);
    let mut out: Vec<Vec<(Semantic, usize)>> = Vec::new();
    let mut j: usize = 0;
    while j < count
        invariant
            j <= count,
            out@.len() == j,
            text == gltf_document::document_text(*document),
            gltf_document::is_valid_gltf(text, usize::BITS),
            mesh < gltf_document::gltf_primitives(text).len(),
            count == gltf_document::gltf_primitives(text)[mesh as int].len(),
            forall|i: int|
                0 <= i < j ==> (#[trigger] out@[i])@ == gltf_document::gltf_attributes(
                    text,
                    mesh as int,
                    i,
                ),
            forall|i: int, k: int|
                0 <= i < j && 0 <= k < out@[i]@.len() ==> (#[trigger] out@[i]@[k]).1
                    < gltf_document::gltf_accessors(text).len(),
        decreases count - j,
    {
        let attributes = primitive_attributes(document, mesh, j);
        out.push(attributes);
        j += 1;
    }
    out
}

/// The positions of a primitive are missing.
pub open spec fn is_missing(positions: Seq<Vec<Option<usize>>>, count: int, i: int, j: int) -> bool {
    positions[i]@[j] matches Some(a) && a >= count
}

/// The positions of all primitives before `(mesh, primitive)` are there.
pub open spec fn all_present(
    positions: Seq<Vec<Option<usize>>>,
    count: int,
    mesh: int,
    primitive: int,
) -> bool {
    forall|i: int, j: int|
        0 <= i < positions.len() && 0 <= j < positions[i]@.len() && (i < mesh || (i == mesh && j
            < primitive)) ==> !#[trigger] is_missing(positions, count, i, j)
}

/// The first primitive whose positions are not among `count` accessors.
fn first_missing(positions: &Vec<Vec<Option<usize>>>, count: usize) -> (r: Option<(usize, usize)>)
    ensures
        r is None ==> all_present(positions@, count as int, positions@.len() as int, 0),
        r matches Some((i, j)) ==> {
            &&& i < positions@.len()
            &&& j < positions@[i as int]@.len()
            &&& is_missing(positions@, count as int, i as int, j as int)
            &&& all_present(positions@, count as int, i as int, j as int)
        },
{
    let mut i: usize = 0;
    while i < positions.len()
        invariant
            i <= positions@.len(),
            all_present(positions@, count as int, i as int, 0),
        decreases positions@.len() - i,
    {
        let mut j: usize = 0;
        while j < positions[i].len()
            invariant
                i < positions@.len(),
                j <= positions@[i as int]@.len(),
                all_present(positions@, count as int, i as int, j as int),
            decreases positions@[i as int]@.len() - j,
        {
            if let Some(a) = positions[i][j] {
                if a >= count {
                    assert(is_missing(positions@, count as int, i as int, j as int));
                    return Some((i, j));
                }
            }
            assert(!is_missing(positions@, count as int, i as int, j as int));
            j += 1;
        }
        i += 1;
    }
    None
}

/// A primitive is the first one whose positions are in an accessor that is not
/// declared.
pub open spec fn is_first_missing(text: Seq<u8>, mesh: int, primitive: int) -> bool {
    let positions = gltf_document::gltf_positions(text);
    &&& 0 <= mesh < positions.len()
    &&& 0 <= primitive < positions[mesh].len()
    &&& gltf_document::position_missing(text, mesh, primitive)
    &&& forall|i: int, j: int|
        0 <= i < positions.len() && 0 <= j < positions[i].len() && (i < mesh || (i == mesh && j
            < primitive)) ==> !#[trigger] gltf_document::position_missing(text, i, j)
}

/// Reads a document from its JSON text.
pub fn read_scene(text: &[u8]) -> (r: Result<SceneData, GltfError>)
    ensures
        r is Ok <==> gltf_document::is_gltf_json(text@, usize::BITS) && gltf_document::positions_exist(text@)
            && gltf_document::is_valid_gltf(text@, usize::BITS),
        r matches Err(e) ==> e is Deserialize || e is MissingPositions || e is Gltf,
        r matches Err(e) ==> (e is Deserialize <==> !gltf_document::is_gltf_json(text@, usize::BITS)),
        r matches Err(e) ==> (e is MissingPositions <==> gltf_document::is_gltf_json(text@, usize::BITS)
            && !gltf_document::positions_exist(text@)),
        r matches Err(GltfError::MissingPositions { mesh, primitive }) ==> is_first_missing(
            text@,
            mesh as int,
            primitive as int,
        ),
        r matches Ok(s) ==> s.wf() && describes(s, text@),
{
    let root = match read_json(text) {
        Ok(root) => root,
        Err(e) => {
            return Err(GltfError::Deserialize(e));
        },
    };
    let positions = root_positions(&root);
    let missing = first_missing(&positions, root_accessor_count(&root));
    proof {
        let named = gltf_document::gltf_positions(text@);
        let count = gltf_document::gltf_accessor_count(text@) as int;
        assert(named.len() == positions@.len());
        assert forall|i: int| 0 <= i < named.len() implies #[trigger] named[i]
            == positions@[i]@ by {
            assert(positions@.map_values(|v: Vec<Option<usize>>| v@)[i] == positions@[i]@);
        }
        assert forall|i: int, j: int|
            0 <= i < named.len() && 0 <= j < named[i].len() implies #[trigger]
            gltf_document::position_missing(text@, i, j) == is_missing(positions@, count, i, j) by {
            assert(named[i] == positions@[i]@);
        }
    }
    if let Some((mesh, primitive)) = missing {
        assert(gltf_document::position_missing(text@, mesh as int, primitive as int));
        return Err(GltfError::MissingPositions { mesh, primitive });
    }
    let document = match read_document(root) {
        Ok(document) => document,
        Err(e) => {
            return Err(GltfError::Gltf(e));
        },
    };
    let ghost t = text@;
    let views = document_views(&document);
    let buffers = document_buffers(&document);
    let accessors = document_accessors(&document);
    let images = document_images(&document);
    let primitives = document_primitives(&document);
    let materials = document_materials(&document);
    let links = document_textures(&document);
    let numbers = texture_numbers(&document, DDS_EXTENSION, DDS_SOURCE);
    let textures = join_numbers(&links, &numbers);
    let samplers = document_samplers(&document);
    let scenes = document_scenes(&document);
    let nodes = document_nodes(&document);
    let ghost meshes = gltf_document::gltf_primitives(t);
    proof {
        assert(meshes.len() == primitives@.len());
        assert(gltf_document::gltf_buffers(t).len() == buffers@.len());
        assert(gltf_document::gltf_images(t).len() == images@.len());
        assert(gltf_document::gltf_nodes(t).len() == nodes@.len());
        assert forall|i: int| 0 <= i < primitives@.len() implies #[trigger] meshes[i]
            == primitives@[i]@ by {
            assert(primitives@.map_values(|v: Vec<PrimitiveInfo>| v@)[i] == primitives@[i]@);
        }
    }
    let mut attributes: Vec<Vec<Vec<(Semantic, usize)>>> = Vec::new();
    let mut i: usize = 0;
    while i < primitives.len()
        invariant
            i <= primitives@.len(),
            attributes@.len() == i,
            t == gltf_document::document_text(document),
            gltf_document::is_valid_gltf(t, usize::BITS),
            meshes == gltf_document::gltf_primitives(t),
            meshes.len() == primitives@.len(),
            forall|i: int| 0 <= i < primitives@.len() ==> #[trigger] meshes[i] == primitives@[i]@,
            forall|a: int| 0 <= a < i ==> (#[trigger] attributes@[a])@.len() == primitives@[a]@.len(),
            forall|a: int, j: int|
                0 <= a < i && 0 <= j < attributes@[a]@.len() ==> (#[trigger] attributes@[a]@[j])@
                    == gltf_document::gltf_attributes(t, a, j),
            forall|a: int, j: int, k: int|
                0 <= a < i && 0 <= j < attributes@[a]@.len() && 0 <= k < attributes@[a]@[j]@.len()
                    ==> (#[trigger] attributes@[a]@[j]@[k]).1
                    < gltf_document::gltf_accessors(t).len(),
        decreases primitives@.len() - i,
    {
        assert(meshes[i as int] == primitives@[i as int]@);
        let of_mesh = attributes_of_mesh(&document, i, primitives[i].len());
        attributes.push(of_mesh);
        i += 1;
    }
    Ok(
        SceneData {
            views,
            buffers,
            accessors,
            images,
            primitives,
            attributes,
            materials,
            textures,
            samplers,
            scenes,
            nodes,
        },
    )
}

// ---------------------------------------------------------------------------
// What the buffer views are needed for
// ---------------------------------------------------------------------------

/// What the GPU needs a buffer view for.
#[derive(Debug, Clone, Copy, PartialEq, Eq, Structural)]
pub enum GpuUsage {
    Unused,
    VertexBuffer,
    IndexBuffer { ty: i32 },
}

/// A buffer view as the GPU needs it.
#[derive(Debug, Clone, Copy, PartialEq, Eq, Structural)]
pub struct BufferGpuView {
    pub alignment: u32,
    pub usage: GpuUsage,
}

/// The index type of elements of a size.
pub open spec fn index_type(size: u64) -> Option<i32> {
    if size == 1 {
        Some(vk::INDEX_TYPE_UINT8_KHR)
    } else if size == 2 {
        Some(vk::INDEX_TYPE_UINT16)
    } else if size == 4 {
        Some(vk::INDEX_TYPE_UINT32)
    } else {
        None
    }
}

pub open spec fn is_power_of_two(n: int) -> bool {
    exists|k: nat| n == #[trigger] vstd::arithmetic::power2::pow2(k)
}

/// `p` is the smallest power of two that is at least `n`.
pub open spec fn is_next_power_of_two(n: int, p: int) -> bool {
    is_power_of_two(p) && n <= p && (p == 1 || p < 2 * n)
}

/// The smallest power of two that is at least `n`.
pub open spec fn next_power_of_two(n: int) -> int {
    choose|p: int| is_next_power_of_two(n, p)
}

proof fn lemma_next_power_unique(n: int, p: int)
    requires
        is_next_power_of_two(n, p),
    ensures
        next_power_of_two(n) == p,
{
    let q = next_power_of_two(n);
    assert(is_next_power_of_two(n, q));
    let i = choose|k: nat| p == #[trigger] vstd::arithmetic::power2::pow2(k);
    let j = choose|k: nat| q == #[trigger] vstd::arithmetic::power2::pow2(k);
    vstd::arithmetic::power2::lemma_pow2_pos(i);
    vstd::arithmetic::power2::lemma_pow2_pos(j);
    if i < j {
        vstd::arithmetic::power2::lemma_pow2_unfold(j);
        if i + 1 < j {
            vstd::arithmetic::power2::lemma_pow2_strictly_increases(i, (j - 1) as nat);
        }
    }
    if j < i {
        vstd::arithmetic::power2::lemma_pow2_unfold(i);
        if j + 1 < i {
            vstd::arithmetic::power2::lemma_pow2_strictly_increases(j, (i - 1) as nat);
        }
    }
}

fn compute_next_power_of_two(n: u32) -> (p: u32)
    requires
        n <= 0x8000_0000,
    ensures
        p == next_power_of_two(n as int),
        is_next_power_of_two(n as int, p as int),
{
    let mut p: u32 = 1;
    let ghost mut k: nat = 0;
    proof {
        vstd::arithmetic::power2::lemma2_to64();
    }
    while p < n
        invariant
            n <= 0x8000_0000,
            p == vstd::arithmetic::power2::pow2(k),
            p == 1 || p < 2 * n,
            p >= 1,
        decreases 2 * n - p,
    {
        proof {
            vstd::arithmetic::power2::lemma_pow2_unfold(k + 1);
            k = k + 1;
        }
        p = p * 2;
    }
    proof {
        lemma_next_power_unique(n as int, p as int);
    }
    p
}

impl BufferGpuView {
    /// The view after use as vertex buffer of elements of `size` bytes; `None`
    /// where it is an index buffer.
    pub open spec fn with_vertex_use(self, size: u64) -> Option<BufferGpuView> {
        if self.usage is IndexBuffer {
            None
        } else {
            let wanted = next_power_of_two(size as int);
            Some(
                BufferGpuView {
                    alignment: if self.alignment >= wanted { self.alignment } else { wanted as u32 },
                    usage: GpuUsage::VertexBuffer,
                },
            )
        }
    }

    /// The view after use as index buffer of elements of `size` bytes; `None`
    /// where that is no index size, or the view is a vertex buffer or has
    /// indices of another size.
    pub open spec fn with_index_use(self, size: u64) -> Option<BufferGpuView> {
        match index_type(size) {
            None => None,
            Some(ty) => match self.usage {
                GpuUsage::VertexBuffer => None,
                GpuUsage::Unused => Some(
                    BufferGpuView {
                        alignment: self.alignment,
                        usage: GpuUsage::IndexBuffer { ty },
                    },
                ),
                GpuUsage::IndexBuffer { ty: other } => if other == ty {
                    Some(self)
                } else {
                    None
                },
            },
        }
    }

    /// Notes that the view holds vertex data.
    pub fn accum_vertex_buffer_usage(&mut self, size: u64) -> (r: Result<(), GltfError>)
        requires
            size <= 0x8000_0000,
        ensures
            r is Ok <==> old(self).with_vertex_use(size) is Some,
            r is Ok ==> Some(*final(self)) == old(self).with_vertex_use(size),
            r matches Err(e) ==> e is OverlappingBufferView && *final(self) == *old(self),
    {
        match self.usage {
            GpuUsage::IndexBuffer { ty: _ } => {
                return Err(GltfError::OverlappingBufferView);
            },
            _ => {},
        }
        let wanted: u32 = compute_next_power_of_two(size as u32);
        if wanted > self.alignment {
            self.alignment = wanted;
        }
        self.usage = GpuUsage::VertexBuffer;
        Ok(())
    }

    /// Notes that the view holds indices.
    pub fn accum_index_buffer_usage(&mut self, size: u64) -> (r: Result<(), GltfError>)
        ensures
            r is Ok <==> old(self).with_index_use(size) is Some,
            r is Ok ==> Some(*final(self)) == old(self).with_index_use(size),
            r matches Err(e) ==> e is OverlappingBufferView && *final(self) == *old(self),
    {
        let ty: i32 = match size {
            1 => vk::INDEX_TYPE_UINT8_KHR,
            2 => vk::INDEX_TYPE_UINT16,
            4 => vk::INDEX_TYPE_UINT32,
            _ => {
                return Err(GltfError::OverlappingBufferView);
            },
        };
        match self.usage {
            GpuUsage::VertexBuffer => Err(GltfError::OverlappingBufferView),
            GpuUsage::Unused => {
                self.usage = GpuUsage::IndexBuffer { ty };
                Ok(())
            },
            GpuUsage::IndexBuffer { ty: other } => {
                if other != ty {
                    Err(GltfError::OverlappingBufferView)
                } else {
                    Ok(())
                }
            },
        }
    }
}

/// A view that vertices are read from is aligned for them: no less than before,
/// and to a power of two that is no less than a vertex, but less than two. One
/// that indices are read from keeps its alignment. Vertices and indices are never
/// read from the same view, nor indices of different sizes.
pub proof fn law_views_serve_one_use(v: BufferGpuView, size: u64)
    requires
        size <= 64,
    ensures
        v.with_vertex_use(size) is None <==> v.usage is IndexBuffer,
        v.with_vertex_use(size) matches Some(after) ==> {
            &&& after.usage is VertexBuffer
            &&& after.alignment >= v.alignment
            &&& after.alignment >= size
            &&& after.alignment != v.alignment ==> is_power_of_two(after.alignment as int) && (
            after.alignment == 1 || after.alignment < 2 * size)
        },
        v.with_index_use(size) is Some <==> (size == 1 || size == 2 || size == 4) && (
        v.usage is Unused || (v.usage is IndexBuffer && index_type(size) == Some(v.usage->ty))),
        v.with_index_use(size) matches Some(after) ==> {
            &&& after.alignment == v.alignment
            &&& size == 1 ==> after.usage == (GpuUsage::IndexBuffer {
                ty: vk::INDEX_TYPE_UINT8_KHR,
            })
            &&& size == 2 ==> after.usage == (GpuUsage::IndexBuffer { ty: vk::INDEX_TYPE_UINT16 })
            &&& size == 4 ==> after.usage == (GpuUsage::IndexBuffer { ty: vk::INDEX_TYPE_UINT32 })
        },
{
    lemma_small_next_power(size as int);
}

/// One use of a buffer view by a primitive.
#[derive(Debug, Clone, Copy, PartialEq, Eq, Structural)]
pub struct ViewUse {
    pub view: usize,
    pub size: u64,
    pub is_index: bool,
}

/// Every accessor that a primitive names has a buffer view.
pub open spec fn accessors_dense(s: SceneData) -> bool {
    &&& forall|i: int, j: int|
        0 <= i < s.primitives@.len() && 0 <= j < s.primitives@[i]@.len() && (
        #[trigger] s.primitives@[i]@[j]).indices is Some
            ==> s.accessors@[s.primitives@[i]@[j].indices->0 as int].view is Some
    &&& forall|i: int, j: int, k: int|
        0 <= i < s.attributes@.len() && 0 <= j < s.attributes@[i]@.len() && 0 <= k
            < s.attributes@[i]@[j]@.len() ==> s.accessors@[(
        #[trigger] s.attributes@[i]@[j]@[k]).1 as int].view is Some
}

pub open spec fn accessor_use(a: AccessorInfo, is_index: bool) -> ViewUse {
    ViewUse { view: a.view->0, size: a.size, is_index }
}

/// The uses of one primitive: its indices first, then its attributes.
pub open spec fn primitive_uses(
    p: PrimitiveInfo,
    attributes: Seq<(Semantic, usize)>,
    accessors: Seq<AccessorInfo>,
) -> Seq<ViewUse> {
    (match p.indices {
        Some(a) => seq![accessor_use(accessors[a as int], true)],
        None => Seq::empty(),
    }) + attributes.map_values(|a: (Semantic, usize)| accessor_use(accessors[a.1 as int], false))
}

/// The uses of the first `n` primitives of mesh `mesh`.
pub open spec fn mesh_uses(s: SceneData, mesh: int, n: nat) -> Seq<ViewUse>
    decreases n,
{
    if n == 0 {
        Seq::empty()
    } else {
        mesh_uses(s, mesh, (n - 1) as nat) + primitive_uses(
            s.primitives@[mesh]@[n - 1],
            s.attributes@[mesh]@[n - 1]@,
            s.accessors@,
        )
    }
}

/// The uses of the first `n` meshes.
pub open spec fn scene_uses(s: SceneData, n: nat) -> Seq<ViewUse>
    decreases n,
{
    if n == 0 {
        Seq::empty()
    } else {
        scene_uses(s, (n - 1) as nat) + mesh_uses(s, n - 1, s.primitives@[n - 1]@.len())
    }
}

/// The indices and the attributes of every primitive are among the uses of a
/// scene, each in the view of its accessor and with the size of its elements.
pub proof fn law_primitives_use_their_accessors(s: SceneData, n: nat, i: int, j: int, k: int)
    requires
        n <= s.primitives@.len(),
        0 <= i < n,
        0 <= j < s.primitives@[i]@.len(),
        0 <= k < s.attributes@[i]@[j]@.len(),
    ensures
        exists|u: int|
            0 <= u < scene_uses(s, n).len() && {
                let a = s.accessors@[s.attributes@[i]@[j]@[k].1 as int];
                let listed = #[trigger] scene_uses(s, n)[u];
                listed.view == a.view->0 && listed.size == a.size && !listed.is_index
            },
        s.primitives@[i]@[j].indices is Some ==> exists|u: int|
            0 <= u < scene_uses(s, n).len() && {
                let a = s.accessors@[s.primitives@[i]@[j].indices->0 as int];
                let listed = #[trigger] scene_uses(s, n)[u];
                listed.view == a.view->0 && listed.size == a.size && listed.is_index
            },
{
    let p = s.primitives@[i]@[j];
    let attributes = s.attributes@[i]@[j]@;
    let uses = primitive_uses(p, attributes, s.accessors@);
    let first = if p.indices is Some {
        1int
    } else {
        0
    };
    let used = accessor_use(s.accessors@[attributes[k].1 as int], false);
    assert(uses[first + k] == used);
    lemma_mesh_uses(s, i, s.primitives@[i]@.len(), j, first + k);
    let mesh = mesh_uses(s, i, s.primitives@[i]@.len());
    let m = choose|m: int| 0 <= m < mesh.len() && #[trigger] mesh[m] == uses[first + k];
    lemma_scene_uses(s, n, i, m);
    let u = choose|u: int| 0 <= u < scene_uses(s, n).len() && #[trigger] scene_uses(s, n)[u]
        == mesh[m];
    assert(scene_uses(s, n)[u] == used);
    if p.indices is Some {
        assert(uses[0] == accessor_use(s.accessors@[p.indices->0 as int], true));
        lemma_mesh_uses(s, i, s.primitives@[i]@.len(), j, 0);
        let m = choose|m: int| 0 <= m < mesh.len() && #[trigger] mesh[m] == uses[0];
        lemma_scene_uses(s, n, i, m);
        let u = choose|u: int| 0 <= u < scene_uses(s, n).len() && #[trigger] scene_uses(s, n)[u]
            == mesh[m];
        assert(scene_uses(s, n)[u] == uses[0]);
    }
}

proof fn lemma_mesh_uses(s: SceneData, mesh: int, n: nat, j: int, u: int)
    requires
        0 <= j < n,
        n <= s.primitives@[mesh]@.len(),
        0 <= u < primitive_uses(
            s.primitives@[mesh]@[j],
            s.attributes@[mesh]@[j]@,
            s.accessors@,
        ).len(),
    ensures
        exists|m: int|
            0 <= m < mesh_uses(s, mesh, n).len() && #[trigger] mesh_uses(s, mesh, n)[m]
                == primitive_uses(
                s.primitives@[mesh]@[j],
                s.attributes@[mesh]@[j]@,
                s.accessors@,
            )[u],
    decreases n,
{
    let before = mesh_uses(s, mesh, (n - 1) as nat);
    let now = mesh_uses(s, mesh, n);
    let uses = primitive_uses(s.primitives@[mesh]@[j], s.attributes@[mesh]@[j]@, s.accessors@);
    if j == n - 1 {
        assert(now[before.len() + u] == uses[u]);
    } else {
        lemma_mesh_uses(s, mesh, (n - 1) as nat, j, u);
        let m = choose|m: int| 0 <= m < before.len() && #[trigger] before[m] == uses[u];
        assert(now[m] == before[m]);
    }
}

proof fn lemma_scene_uses(s: SceneData, n: nat, i: int, m: int)
    requires
        n <= s.primitives@.len(),
        0 <= i < n,
        0 <= m < mesh_uses(s, i, s.primitives@[i]@.len()).len(),
    ensures
        exists|u: int|
            0 <= u < scene_uses(s, n).len() && #[trigger] scene_uses(s, n)[u] == mesh_uses(
                s,
                i,
                s.primitives@[i]@.len(),
            )[m],
    decreases n,
{
    let before = scene_uses(s, (n - 1) as nat);
    let now = scene_uses(s, n);
    let mesh = mesh_uses(s, i, s.primitives@[i]@.len());
    if i == n - 1 {
        assert(now[before.len() + m] == mesh[m]);
    } else {
        lemma_scene_uses(s, (n - 1) as nat, i, m);
        let u = choose|u: int| 0 <= u < before.len() && #[trigger] before[u] == mesh[m];
        assert(now[u] == before[u]);
    }
}

/// The GPU's view of `count` buffer views after the given uses; `None` where
/// the uses exclude each other.
pub open spec fn apply_uses(count: nat, uses: Seq<ViewUse>) -> Option<Seq<BufferGpuView>>
    decreases uses.len(),
{
    if uses.len() == 0 {
        Some(
            Seq::new(count, |i: int| BufferGpuView { alignment: 1, usage: GpuUsage::Unused }),
        )
    } else {
        match apply_uses(count, uses.drop_last()) {
            None => None,
            Some(views) => {
                let u = uses.last();
                let view = views[u.view as int];
                match if u.is_index {
                    view.with_index_use(u.size)
                } else {
                    view.with_vertex_use(u.size)
                } {
                    None => None,
                    Some(v) => Some(views.update(u.view as int, v)),
                }
            },
        }
    }
}

/// The uses that the primitives of a scene make of the buffer views.
pub fn view_uses(s: &SceneData) -> (r: Vec<ViewUse>)
    requires
        s.wf(),
        accessors_dense(*s),
    ensures
        r@ == scene_uses(*s, s.primitives@.len()),
        forall|i: int|
            0 <= i < r@.len() ==> (#[trigger] r@[i]).view < s.views@.len() && r@[i].size <= 64,
{
    let mut out: Vec<ViewUse> = Vec::new();
    let mut i: usize = 0;
    while i < s.primitives.len()
        invariant
            i <= s.primitives@.len(),
            s.wf(),
            accessors_dense(*s),
            out@ == scene_uses(*s, i as nat),
            forall|i: int|
                0 <= i < out@.len() ==> (#[trigger] out@[i]).view < s.views@.len() && out@[i].size
                    <= 64,
        decreases s.primitives@.len() - i,
    {
        let ghost start = out@;
        let mut j: usize = 0;
        assert(start + mesh_uses(*s, i as int, 0) =~= start);
        assert(s.attributes@[i as int]@.len() == s.primitives@[i as int]@.len());
        while j < s.primitives[i].len()
            invariant
                i < s.primitives@.len(),
                j <= s.primitives@[i as int]@.len(),
                s.attributes@[i as int]@.len() == s.primitives@[i as int]@.len(),
                s.wf(),
                accessors_dense(*s),
                out@ == start + mesh_uses(*s, i as int, j as nat),
                forall|i: int|
                    0 <= i < out@.len() ==> (#[trigger] out@[i]).view < s.views@.len()
                        && out@[i].size <= 64,
            decreases s.primitives@[i as int]@.len() - j,
        {
            let p = s.primitives[i][j];
            assert(p == s.primitives@[i as int]@[j as int]);
            assert(primitive_wf(p, s.accessors@.len(), s.materials@.len()));
            let ghost before = out@;
            match p.indices {
                Some(a) => {
                    let accessor = s.accessors[a];
                    assert(accessor_wf(s.accessors@[a as int], s.views@.len()));
                    out.push(
                        ViewUse {
                            view: accessor.view.unwrap(),
                            size: accessor.size,
                            is_index: true,
                        },
                    );
                },
                None => {},
            }
            let ghost mid = out@;
            let attributes = &s.attributes[i][j];
            let mut k: usize = 0;
            while k < attributes.len()
                invariant
                    i < s.primitives@.len(),
                    j < s.primitives@[i as int]@.len(),
                    s.attributes@[i as int]@.len() == s.primitives@[i as int]@.len(),
                    *attributes == s.attributes@[i as int]@[j as int],
                    k <= attributes@.len(),
                    s.wf(),
                    accessors_dense(*s),
                    out@ == mid + attributes@.take(k as int).map_values(
                        |a: (Semantic, usize)| accessor_use(s.accessors@[a.1 as int], false),
                    ),
                    forall|i: int|
                        0 <= i < out@.len() ==> (#[trigger] out@[i]).view < s.views@.len()
                            && out@[i].size <= 64,
                decreases attributes@.len() - k,
            {
                let index: usize = attributes[k].1;
                assert(s.attributes@[i as int]@[j as int]@[k as int].1 == index);
                let accessor = s.accessors[index];
                assert(accessor_wf(s.accessors@[index as int], s.views@.len()));
                out.push(
                    ViewUse {
                        view: accessor.view.unwrap(),
                        size: accessor.size,
                        is_index: false,
                    },
                );
                k += 1;
                assert(out@ =~= mid + attributes@.take(k as int).map_values(
                    |a: (Semantic, usize)| accessor_use(s.accessors@[a.1 as int], false),
                ));
            }
            proof {
                assert(attributes@.take(k as int) =~= attributes@);
                assert(out@ =~= before + primitive_uses(p, attributes@, s.accessors@));
                assert(out@ =~= start + mesh_uses(*s, i as int, (j + 1) as nat));
            }
            j += 1;
        }
        i += 1;
    }
    out
}

/// Works out what the GPU needs each of `count` buffer views for.
pub fn gpu_views(count: usize, uses: &Vec<ViewUse>) -> (r: Result<Vec<BufferGpuView>, GltfError>)
    requires
        forall|i: int|
            0 <= i < uses@.len() ==> (#[trigger] uses@[i]).view < count && uses@[i].size <= 64,
    ensures
        r is Ok <==> apply_uses(count as nat, uses@) is Some,
        r matches Ok(v) ==> apply_uses(count as nat, uses@) == Some(v@),
        r matches Err(e) ==> e is OverlappingBufferView,
{
    let mut views: Vec<BufferGpuView> = Vec::new();
    let mut n: usize = 0;
    while n < count
        invariant
            n <= count,
            views@ == Seq::new(
                n as nat,
                |i: int| BufferGpuView { alignment: 1, usage: GpuUsage::Unused },
            ),
        decreases count - n,
    {
        views.push(BufferGpuView { alignment: 1, usage: GpuUsage::Unused });
        n += 1;
        assert(views@ =~= Seq::new(
            n as nat,
            |i: int| BufferGpuView { alignment: 1, usage: GpuUsage::Unused },
        ));
    }
    let mut i: usize = 0;
    while i < uses.len()
        invariant
            i <= uses@.len(),
            views@.len() == count,
            apply_uses(count as nat, uses@.take(i as int)) == Some(views@),
            forall|i: int|
                0 <= i < uses@.len() ==> (#[trigger] uses@[i]).view < count && uses@[i].size <= 64,
        decreases uses@.len() - i,
    {
        let u = uses[i];
        let mut view = views[u.view];
        let ghost next = uses@.take(i + 1);
        proof {
            assert(next.drop_last() =~= uses@.take(i as int));
            assert(next.last() == u);
        }
        let noted = if u.is_index {
            view.accum_index_buffer_usage(u.size)
        } else {
            view.accum_vertex_buffer_usage(u.size)
        };
        match noted {
            Ok(()) => {
                views.set(u.view, view);
            },
            Err(e) => {
                proof {
                    lemma_failed_uses_stay(count as nat, uses@, i + 1);
                }
                return Err(e);
            },
        }
        i += 1;
    }
    assert(uses@.take(i as int) =~= uses@);
    Ok(views)
}

proof fn lemma_failed_uses_stay(count: nat, uses: Seq<ViewUse>, n: int)
    requires
        0 <= n <= uses.len(),
        apply_uses(count, uses.take(n)) is None,
    ensures
        apply_uses(count, uses) is None,
    decreases uses.len() - n,
{
    if n == uses.len() {
        assert(uses.take(n) =~= uses);
    } else {
        assert(uses.take(n + 1).drop_last() =~= uses.take(n));
        lemma_failed_uses_stay(count, uses, n + 1);
    }
}

/// No buffer view that is loaded serves vertices and indices at once: after
/// any uses, a view that one of them needs for vertices is a vertex buffer,
/// aligned for that use, and one that is needed for indices is an index buffer
/// of their size.
pub proof fn law_uses_are_honoured(count: nat, uses: Seq<ViewUse>, i: int)
    requires
        apply_uses(count, uses) is Some,
        0 <= i < uses.len(),
        forall|k: int| 0 <= k < uses.len() ==> (#[trigger] uses[k]).view < count,
        forall|k: int| 0 <= k < uses.len() ==> (#[trigger] uses[k]).size <= 64,
    ensures
        ({
            let views = apply_uses(count, uses)->0;
            let view = views[uses[i].view as int];
            &&& views.len() == count
            &&& uses[i].is_index ==> Some(view.usage) == (match index_type(uses[i].size) {
                Some(ty) => Some(GpuUsage::IndexBuffer { ty }),
                None => None,
            })
            &&& !uses[i].is_index ==> view.usage is VertexBuffer && view.alignment
                >= next_power_of_two(uses[i].size as int)
        }),
    decreases uses.len(),
{
    let init = uses.drop_last();
    let u = uses.last();
    assert(forall|k: int| 0 <= k < init.len() ==> #[trigger] init[k] == uses[k]);
    lemma_apply_uses_len(count, init);
    assert forall|n: int| 0 <= n <= 64 implies 1 <= #[trigger] next_power_of_two(n) <= 64 by {
        lemma_small_next_power(n);
    }
    if i == uses.len() - 1 {
        assert(next_power_of_two(u.size as int) <= 64);
    } else {
        assert(init[i] == uses[i]);
        law_uses_are_honoured(count, init, i);
        assert(next_power_of_two(u.size as int) <= 64);
    }
}

/// A view that nothing uses stays as it is: not on the device, and aligned to
/// bytes.
pub proof fn law_unused_views_stay_off_the_device(count: nat, uses: Seq<ViewUse>, v: int)
    requires
        apply_uses(count, uses) is Some,
        0 <= v < count,
        forall|k: int| 0 <= k < uses.len() ==> (#[trigger] uses[k]).view < count,
        forall|k: int| 0 <= k < uses.len() ==> (#[trigger] uses[k]).view != v,
    ensures
        (apply_uses(count, uses)->0)[v].usage is Unused,
        (apply_uses(count, uses)->0)[v].alignment == 1,
    decreases uses.len(),
{
    if uses.len() > 0 {
        let init = uses.drop_last();
        assert(forall|k: int| 0 <= k < init.len() ==> #[trigger] init[k] == uses[k]);
        law_unused_views_stay_off_the_device(count, init, v);
        lemma_apply_uses_len(count, init);
        assert(uses.last() == uses[uses.len() - 1]);
    }
}

/// The uses keep the number of views.
pub proof fn lemma_apply_uses_len(count: nat, uses: Seq<ViewUse>)
    requires
        forall|k: int| 0 <= k < uses.len() ==> (#[trigger] uses[k]).view < count,
    ensures
        apply_uses(count, uses) matches Some(views) ==> views.len() == count,
    decreases uses.len(),
{
    if uses.len() > 0 {
        let init = uses.drop_last();
        assert(forall|k: int| 0 <= k < init.len() ==> #[trigger] init[k] == uses[k]);
        lemma_apply_uses_len(count, init);
        assert(uses.last() == uses[uses.len() - 1]);
    }
}

proof fn lemma_small_next_power(n: int)
    requires
        0 <= n <= 64,
    ensures
        1 <= next_power_of_two(n) <= 64,
        is_next_power_of_two(n, next_power_of_two(n)),
{
    vstd::arithmetic::power2::lemma2_to64();
    let k: nat = if n <= 1 {
        0
    } else if n <= 2 {
        1
    } else if n <= 4 {
        2
    } else if n <= 8 {
        3
    } else if n <= 16 {
        4
    } else if n <= 32 {
        5
    } else {
        6
    };
    let p = vstd::arithmetic::power2::pow2(k) as int;
    assert(is_next_power_of_two(n, p));
    lemma_next_power_unique(n, p);
}

} // verus!
