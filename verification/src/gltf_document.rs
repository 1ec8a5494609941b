//! glTF documents, as the `gltf` crate reads them.
//!
//! A document is opaque here. What it holds is a function of the JSON text it
//! was read from, and each part that the scene loader needs has a name.

use vstd::prelude::*;

verus! {

/// `gltf::Document`.
#[verifier::external_type_specification]
#[verifier::external_body]
pub struct ExDocument(gltf::Document);

/// `gltf::Error`.
#[verifier::external_type_specification]
#[verifier::external_body]
pub struct ExGltfError(gltf::Error);

/// `gltf::json::Root`.
#[verifier::external_type_specification]
#[verifier::external_body]
pub struct ExRoot(gltf::json::Root);

/// `gltf::json::Error`.
#[verifier::external_type_specification]
#[verifier::external_body]
pub struct ExJsonError(gltf::json::Error);

/// A slice of a buffer.
#[derive(Debug, Clone, Copy, PartialEq, Eq, Structural)]
pub struct ViewInfo {
    pub buffer: usize,
    pub offset: u64,
    pub length: u64,
}

/// Typed elements in a buffer view; a sparse accessor may have no view.
/// `component` is the OpenGL enumerant of the component type.
#[derive(Debug, Clone, Copy, PartialEq, Eq)]
pub struct AccessorInfo {
    pub view: Option<usize>,
    pub offset: u64,
    pub count: u64,
    pub size: u64,
    pub component: u32,
}

/// A primitive of a mesh; `mode` is the OpenGL enumerant of its topology.
#[derive(Debug, Clone, Copy, PartialEq, Eq)]
pub struct PrimitiveInfo {
    pub mode: u32,
    pub indices: Option<usize>,
    pub material: Option<usize>,
}

/// A texture as a document declares it: its image and its sampler.
#[derive(Debug, Clone, Copy, PartialEq, Eq)]
pub struct TextureLink {
    pub source: usize,
    pub sampler: Option<usize>,
}

/// What a vertex attribute holds.
#[derive(Debug, Clone, Copy, PartialEq, Eq, Structural)]
pub enum Semantic {
    Positions,
    Normals,
    Tangents,
    Colors(u32),
    TexCoords(u32),
    Joints(u32),
    Weights(u32),
}

/// A texture: its image, the image that the DDS extension names for it, and
/// its sampler.
#[derive(Debug, Clone, Copy, PartialEq, Eq)]
pub struct TextureInfo {
    pub source: usize,
    pub dds_source: Option<u64>,
    pub sampler: Option<usize>,
}

/// A sampler, by OpenGL enumerants.
#[derive(Debug, Clone, Copy, PartialEq, Eq)]
pub struct SamplerInfo {
    pub mag_filter: Option<u32>,
    pub min_filter: Option<u32>,
    pub wrap_s: u32,
    pub wrap_t: u32,
}

/// A material: the texture of its base color, and the bit patterns of the
/// factor's four floats.
#[derive(Debug, Clone, Copy, PartialEq, Eq)]
pub struct MaterialInfo {
    pub base_color_texture: Option<usize>,
    pub base_color_factor: [u32; 4],
}

/// An image: a buffer view or a URI, a MIME type and a name.
#[derive(Debug)]
pub struct ImageInfo {
    pub view: Option<usize>,
    pub mime_type: Option<String>,
    pub uri: Option<String>,
    pub name: Option<String>,
}

/// Where a node stands relative to its parent, by the bit patterns of floats.
#[derive(Debug, Clone, Copy, PartialEq, Eq)]
pub enum NodeTransform {
    /// A matrix, column by column.
    Matrix([[u32; 4]; 4]),
    Decomposed { translation: [u32; 3], rotation: [u32; 4], scale: [u32; 3] },
}

/// A node: its children, its mesh and its transform.
#[derive(Debug)]
pub struct NodeInfo {
    pub children: Vec<usize>,
    pub mesh: Option<usize>,
    pub transform: NodeTransform,
}

/// Mathematical content of an [`ImageInfo`].
pub struct ImageView {
    pub view: Option<usize>,
    pub mime_type: Option<Seq<char>>,
    pub uri: Option<Seq<char>>,
    pub name: Option<Seq<char>>,
}

/// Mathematical content of a [`NodeInfo`].
pub struct NodeView {
    pub children: Seq<usize>,
    pub mesh: Option<usize>,
    pub transform: NodeTransform,
}

pub open spec fn string_view(s: Option<String>) -> Option<Seq<char>> {
    match s {
        Some(v) => Some(v@),
        None => None,
    }
}

impl View for ImageInfo {
    type V = ImageView;

    open spec fn view(&self) -> ImageView {
        ImageView {
            view: self.view,
            mime_type: string_view(self.mime_type),
            uri: string_view(self.uri),
            name: string_view(self.name),
        }
    }
}

impl View for NodeInfo {
    type V = NodeView;

    open spec fn view(&self) -> NodeView {
        NodeView { children: self.children@, mesh: self.mesh, transform: self.transform }
    }
}

/// The JSON text that a parsed root was read from.
pub uninterp spec fn root_text(root: gltf::json::Root) -> Seq<u8>;

/// The JSON text that a document was read from.
pub uninterp spec fn document_text(document: gltf::Document) -> Seq<u8>;

/// Whether the text is JSON in the shape of a glTF root, on a machine on which
/// a `usize` has `word` bits.
pub uninterp spec fn is_gltf_json(text: Seq<u8>, word: u32) -> bool;

/// The accessor of the positions of each primitive of each mesh, where it
/// names one.
pub uninterp spec fn gltf_positions(text: Seq<u8>) -> Seq<Seq<Option<usize>>>;

/// The number of accessors that the text declares.
pub uninterp spec fn gltf_accessor_count(text: Seq<u8>) -> nat;

/// The accessor that holds the positions of a primitive is not declared.
pub open spec fn position_missing(text: Seq<u8>, mesh: int, primitive: int) -> bool {
    gltf_positions(text)[mesh][primitive] matches Some(a) && a >= gltf_accessor_count(text)
}

/// The accessors that hold positions are declared.
pub open spec fn positions_exist(text: Seq<u8>) -> bool {
    forall|i: int, j: int|
        0 <= i < gltf_positions(text).len() && 0 <= j < gltf_positions(text)[i].len()
            ==> !#[trigger] position_missing(text, i, j)
}

/// Whether the root that the text holds passes glTF validation, on a machine on
/// which a `usize` has `word` bits.
pub uninterp spec fn is_valid_gltf(text: Seq<u8>, word: u32) -> bool;

/// The buffer views that the text declares.
pub uninterp spec fn gltf_views(text: Seq<u8>) -> Seq<ViewInfo>;

/// The URI of each buffer; `None` for the binary chunk.
pub uninterp spec fn gltf_buffers(text: Seq<u8>) -> Seq<Option<Seq<char>>>;

/// The accessors that the text declares.
pub uninterp spec fn gltf_accessors(text: Seq<u8>) -> Seq<AccessorInfo>;

/// The images that the text declares.
pub uninterp spec fn gltf_images(text: Seq<u8>) -> Seq<ImageView>;

/// The primitives of each mesh.
pub uninterp spec fn gltf_primitives(text: Seq<u8>) -> Seq<Seq<PrimitiveInfo>>;

/// The attributes of a primitive, each with its accessor.
pub uninterp spec fn gltf_attributes(text: Seq<u8>, mesh: int, primitive: int) -> Seq<
    (Semantic, usize),
>;

/// The materials that the text declares.
pub uninterp spec fn gltf_materials(text: Seq<u8>) -> Seq<MaterialInfo>;

/// The textures that the text declares.
pub uninterp spec fn gltf_textures(text: Seq<u8>) -> Seq<TextureLink>;

/// The number under a key of an extension, for each texture that has one.
pub uninterp spec fn gltf_texture_numbers(
    text: Seq<u8>,
    extension: Seq<char>,
    key: Seq<char>,
) -> Seq<Option<u64>>;

/// The samplers that the text declares.
pub uninterp spec fn gltf_samplers(text: Seq<u8>) -> Seq<SamplerInfo>;

/// The root nodes of each scene.
pub uninterp spec fn gltf_scenes(text: Seq<u8>) -> Seq<Seq<usize>>;

/// The nodes that the text declares.
pub uninterp spec fn gltf_nodes(text: Seq<u8>) -> Seq<NodeView>;

/// `gltf::json::deserialize::from_slice`: reads a glTF root from JSON text.
/// Success depends on the text and on the size of a `usize`, as which a stride
/// is read. The root stands for the text.
#[verifier::external_body]
pub(crate) fn read_json(text: &[u8]) -> (r: Result<gltf::json::Root, gltf::json::Error>)
    ensures
        r is Ok <==> is_gltf_json(text@, usize::BITS),
        r matches Ok(root) ==> root_text(root) == text@,
{
    gltf::json::deserialize::from_slice(text)
}

/// `gltf::json::Root::meshes`: the accessor of the positions of each primitive,
/// in order.
#[verifier::external_body]
pub(crate) fn root_positions(root: &gltf::json::Root) -> (r: Vec<Vec<Option<usize>>>)
    ensures
        r@.map_values(|v: Vec<Option<usize>>| v@) == gltf_positions(root_text(*root)),
{
    let key = gltf::json::validation::Checked::Valid(gltf::Semantic::Positions);
    root.meshes.iter().map(|mesh| mesh.primitives.iter().map(
        |primitive| primitive.attributes.get(&key).map(|accessor| accessor.value())
    ).collect()).collect()
}

/// `gltf::json::Root::accessors`: the number of accessors.
#[verifier::external_body]
pub(crate) fn root_accessor_count(root: &gltf::json::Root) -> (r: usize)
    ensures
        r == gltf_accessor_count(root_text(*root)),
{
    root.accessors.len()
}

/// `gltf::Document::from_json`: validates a root. Success depends on the text
/// of the root and on the size of a `usize`, which has to hold sizes and offsets.
/// The document stands for the same text. The validation of a primitive looks
/// its positions up, and does not return where they are missing.
#[verifier::external_body]
pub(crate) fn read_document(root: gltf::json::Root) -> (r: Result<gltf::Document, gltf::Error>)
    requires
        positions_exist(root_text(root)),
    ensures
        r is Ok <==> is_valid_gltf(root_text(root), usize::BITS),
        r matches Ok(document) ==> document_text(document) == root_text(root),
{
    gltf::Document::from_json(root)
}

/// `gltf::Document::views`: the buffer views of a valid document, in order.
/// Validation has checked that the buffer of each exists.
#[verifier::external_body]
pub(crate) fn document_views(document: &gltf::Document) -> (r: Vec<ViewInfo>)
    requires
        is_valid_gltf(document_text(*document), usize::BITS),
    ensures
        r@ == gltf_views(document_text(*document)),
        forall|i: int|
            0 <= i < r@.len() ==> (#[trigger] r@[i]).buffer < gltf_buffers(
                document_text(*document),
            ).len(),
{
    let json = document.as_json();
    document.views().map(|v| ViewInfo {
        buffer: v.buffer().index(),
        offset: json.buffer_views[v.index()].byte_offset.unwrap_or_default().0,
        length: json.buffer_views[v.index()].byte_length.0,
    }).collect()
}

/// `gltf::Document::buffers`: the source of each buffer of a document, in
/// order.
#[verifier::external_body]
pub(crate) fn document_buffers(document: &gltf::Document) -> (r: Vec<Option<String>>)
    ensures
        r@.map_values(|s: Option<String>| string_view(s)) == gltf_buffers(
            document_text(*document),
        ),
{
    document.buffers().map(|b| match b.source() {
        gltf::buffer::Source::Uri(uri) => Some(uri.to_owned()),
        gltf::buffer::Source::Bin => None,
    }).collect()
}

/// `gltf::Document::accessors`: the accessors of a valid document, in order.
/// Validation has checked that the view of each exists. An element is at most
/// a matrix of sixteen 4-byte components.
#[verifier::external_body]
pub(crate) fn document_accessors(document: &gltf::Document) -> (r: Vec<AccessorInfo>)
    requires
        is_valid_gltf(document_text(*document), usize::BITS),
    ensures
        r@ == gltf_accessors(document_text(*document)),
        forall|i: int| 0 <= i < r@.len() ==> (#[trigger] r@[i]).size <= 64,
        forall|i: int|
            0 <= i < r@.len() && (#[trigger] r@[i]).view is Some ==> r@[i].view->0 < gltf_views(
                document_text(*document),
            ).len(),
{
    let json = document.as_json();
    document.accessors().map(|a| AccessorInfo {
        view: a.view().map(|v| v.index()),
        offset: json.accessors[a.index()].byte_offset.unwrap_or_default().0,
        count: json.accessors[a.index()].count.0,
        size: a.size() as u64,
        component: a.data_type().as_gl_enum(),
    }).collect()
}

/// `gltf::Document::images`: the images of a valid document, in order.
/// Validation has checked that the view of each exists.
#[verifier::external_body]
pub(crate) fn document_images(document: &gltf::Document) -> (r: Vec<ImageInfo>)
    requires
        is_valid_gltf(document_text(*document), usize::BITS),
    ensures
        r@.map_values(|i: ImageInfo| i@) == gltf_images(document_text(*document)),
        forall|i: int|
            0 <= i < r@.len() && (#[trigger] r@[i]).view is Some ==> r@[i].view->0 < gltf_views(
                document_text(*document),
            ).len(),
{
    document.as_json().images.iter().map(|i| ImageInfo {
        view: i.buffer_view.map(|v| v.value()),
        mime_type: i.mime_type.as_ref().map(|m| m.0.clone()),
        uri: i.uri.clone(),
        name: i.name.clone(),
    }).collect()
}

/// `gltf::Document::meshes`: the primitives of each mesh of a valid document,
/// in order. Validation has checked that the accessors and materials that they
/// name exist.
#[verifier::external_body]
pub(crate) fn document_primitives(document: &gltf::Document) -> (r: Vec<Vec<PrimitiveInfo>>)
    requires
        is_valid_gltf(document_text(*document), usize::BITS),
    ensures
        r@.map_values(|v: Vec<PrimitiveInfo>| v@) == gltf_primitives(document_text(*document)),
        forall|i: int, j: int|
            0 <= i < r@.len() && 0 <= j < r@[i]@.len() ==> {
                let p = #[trigger] r@[i]@[j];
                &&& p.indices is Some ==> p.indices->0 < gltf_accessors(
                    document_text(*document),
                ).len()
                &&& p.material is Some ==> p.material->0 < gltf_materials(
                    document_text(*document),
                ).len()
            },
{
    document.meshes().map(|m| m.primitives().map(|p| PrimitiveInfo {
        mode: p.mode().as_gl_enum(),
        indices: p.indices().map(|a| a.index()),
        material: p.material().index(),
    }).collect()).collect()
}

/// `gltf::mesh::Primitive::attributes`: the attributes of one primitive of a
/// valid document, in order. Validation has checked that the accessor of each
/// exists.
#[verifier::external_body]
pub(crate) fn primitive_attributes(document: &gltf::Document, mesh: usize, primitive: usize) -> (r:
    Vec<(Semantic, usize)>)
    requires
        is_valid_gltf(document_text(*document), usize::BITS),
        mesh < gltf_primitives(document_text(*document)).len(),
        primitive < gltf_primitives(document_text(*document))[mesh as int].len(),
    ensures
        r@ == gltf_attributes(document_text(*document), mesh as int, primitive as int),
        forall|i: int|
            0 <= i < r@.len() ==> (#[trigger] r@[i]).1 < gltf_accessors(
                document_text(*document),
            ).len(),
{
    let mesh = document.meshes().nth(mesh).unwrap();
    let primitive = mesh.primitives().nth(primitive).unwrap();
    primitive.attributes().map(|(semantic, accessor)| (match semantic {
        gltf::Semantic::Positions => Semantic::Positions,
        gltf::Semantic::Normals => Semantic::Normals,
        gltf::Semantic::Tangents => Semantic::Tangents,
        gltf::Semantic::Colors(set) => Semantic::Colors(set),
        gltf::Semantic::TexCoords(set) => Semantic::TexCoords(set),
        gltf::Semantic::Joints(set) => Semantic::Joints(set),
        gltf::Semantic::Weights(set) => Semantic::Weights(set),
    }, accessor.index())).collect()
}

/// `gltf::Document::materials`: the materials of a valid document, in order.
/// Validation has checked that the texture of each exists.
#[verifier::external_body]
pub(crate) fn document_materials(document: &gltf::Document) -> (r: Vec<MaterialInfo>)
    requires
        is_valid_gltf(document_text(*document), usize::BITS),
    ensures
        r@ == gltf_materials(document_text(*document)),
        forall|i: int|
            0 <= i < r@.len() && (#[trigger] r@[i]).base_color_texture is Some
                ==> r@[i].base_color_texture->0 < gltf_textures(document_text(*document)).len(),
{
    document.materials().map(|m| {
        let pbr = m.pbr_metallic_roughness();
        MaterialInfo {
            base_color_texture: pbr.base_color_texture().map(|t| t.texture().index()),
            base_color_factor: pbr.base_color_factor().map(|x| x.to_bits()),
        }
    }).collect()
}

/// `gltf::Document::textures`: the textures of a valid document, in order.
/// Validation has checked that image and sampler exist.
#[verifier::external_body]
pub(crate) fn document_textures(document: &gltf::Document) -> (r: Vec<TextureLink>)
    requires
        is_valid_gltf(document_text(*document), usize::BITS),
    ensures
        r@ == gltf_textures(document_text(*document)),
        forall|i: int|
            0 <= i < r@.len() ==> {
                &&& (#[trigger] r@[i]).source < gltf_images(document_text(*document)).len()
                &&& r@[i].sampler is Some ==> r@[i].sampler->0 < gltf_samplers(
                    document_text(*document),
                ).len()
            },
{
    document.textures().map(|t| TextureLink {
        source: t.source().index(),
        sampler: t.sampler().index(),
    }).collect()
}

/// `gltf::Texture::extension_value`: for each texture of a valid document, in
/// order, the number that stands under a key in the object of an extension.
#[verifier::external_body]
pub(crate) fn texture_numbers(document: &gltf::Document, extension: &str, key: &str) -> (r: Vec<
    Option<u64>,
>)
    requires
        is_valid_gltf(document_text(*document), usize::BITS),
    ensures
        r@ == gltf_texture_numbers(document_text(*document), extension@, key@),
        r@.len() == gltf_textures(document_text(*document)).len(),
{
    document.textures().map(|t| t.extension_value(extension).and_then(|v| v.as_object()).and_then(
        |o| o.get(key),
    ).and_then(|s| s.as_u64())).collect()
}

/// `gltf::Document::samplers`: the samplers of a valid document, in order.
#[verifier::external_body]
pub(crate) fn document_samplers(document: &gltf::Document) -> (r: Vec<SamplerInfo>)
    requires
        is_valid_gltf(document_text(*document), usize::BITS),
    ensures
        r@ == gltf_samplers(document_text(*document)),
{
    document.samplers().map(|s| SamplerInfo {
        mag_filter: s.mag_filter().map(|f| f.as_gl_enum()),
        min_filter: s.min_filter().map(|f| f.as_gl_enum()),
        wrap_s: s.wrap_s().as_gl_enum(),
        wrap_t: s.wrap_t().as_gl_enum(),
    }).collect()
}

/// `gltf::Document::scenes`: the root nodes of each scene of a valid document,
/// in order. Validation has checked that they exist.
#[verifier::external_body]
pub(crate) fn document_scenes(document: &gltf::Document) -> (r: Vec<Vec<usize>>)
    requires
        is_valid_gltf(document_text(*document), usize::BITS),
    ensures
        r@.map_values(|v: Vec<usize>| v@) == gltf_scenes(document_text(*document)),
        forall|i: int, j: int|
            0 <= i < r@.len() && 0 <= j < r@[i]@.len() ==> #[trigger] r@[i]@[j] < gltf_nodes(
                document_text(*document),
            ).len(),
{
    document.scenes().map(|s| s.nodes().map(|n| n.index()).collect()).collect()
}

/// `gltf::Document::nodes`: the nodes of a valid document, in order.
/// Validation has checked that children and meshes exist.
#[verifier::external_body]
pub(crate) fn document_nodes(document: &gltf::Document) -> (r: Vec<NodeInfo>)
    requires
        is_valid_gltf(document_text(*document), usize::BITS),
    ensures
        r@.map_values(|n: NodeInfo| n@) == gltf_nodes(document_text(*document)),
        forall|i: int, j: int|
            0 <= i < r@.len() && 0 <= j < r@[i].children@.len() ==> #[trigger] r@[i].children@[j]
                < r@.len(),
        forall|i: int|
            0 <= i < r@.len() && (#[trigger] r@[i]).mesh is Some ==> r@[i].mesh->0
                < gltf_primitives(document_text(*document)).len(),
{
    document.nodes().map(|n| NodeInfo {
        children: n.children().map(|c| c.index()).collect(),
        mesh: n.mesh().map(|m| m.index()),
        transform: match n.transform() {
            gltf::scene::Transform::Matrix { matrix } =>
                NodeTransform::Matrix(matrix.map(|c| c.map(|x| x.to_bits()))),
            gltf::scene::Transform::Decomposed { translation, rotation, scale } =>
                NodeTransform::Decomposed {
                    translation: translation.map(|x| x.to_bits()),
                    rotation: rotation.map(|x| x.to_bits()),
                    scale: scale.map(|x| x.to_bits()),
                },
        },
    }).collect()
}

} // verus!
