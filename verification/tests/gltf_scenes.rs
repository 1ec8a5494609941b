//! Scenes out of glTF files.

use pumicite::gltf_document::{
    AccessorInfo, ImageInfo, NodeInfo, NodeTransform, PrimitiveInfo, SamplerInfo, Semantic,
    TextureInfo, ViewInfo,
};
use pumicite::gltf_load::{
    buffer_usage, cpu_views, dds_source, default_sampler, has_dense_accessors,
    has_loadable_meshes, has_sourced_images, image_label, load_hierarchy, load_images,
    load_materials, load_meshes, load_node, load_plan, load_primitive, load_sampler,
    load_samplers, node_to_bundle, read_order, read_plan, spread_indices, texture_uses,
    GltfMaterial, ImageLoad, ReadAction, ReadStep, TextureUse,
};
use pumicite::gltf_scene::{
    check_blob_header, container, gpu_views, read_scene, view_uses, BufferGpuView, Container,
    GltfError, GpuUsage, SceneData, ViewUse,
};
use pumicite::scene::{Attribute, Model, ModelInstances, Primitive, PrimitiveKey, Scene};
use pumicite::vk;
use std::collections::BTreeMap;

const DOCUMENT: &str = r#"{
    "asset": { "version": "2.0" },
    "buffers": [ { "byteLength": 100 }, { "byteLength": 8, "uri": "more.bin" } ],
    "bufferViews": [
        { "buffer": 0, "byteOffset": 0, "byteLength": 36 },
        { "buffer": 0, "byteOffset": 40, "byteLength": 6 },
        { "buffer": 0, "byteOffset": 48, "byteLength": 20 }
    ],
    "accessors": [
        {
            "bufferView": 0, "componentType": 5126, "count": 3, "type": "VEC3",
            "min": [0, 0, 0], "max": [1, 1, 1]
        },
        { "bufferView": 1, "byteOffset": 0, "componentType": 5123, "count": 3, "type": "SCALAR" }
    ],
    "images": [ { "bufferView": 2, "mimeType": "image/png" }, { "uri": "wood.dds" } ],
    "samplers": [ { "magFilter": 9728, "minFilter": 9987, "wrapS": 33071, "wrapT": 10497 } ],
    "textures": [ { "source": 0, "sampler": 0 } ],
    "materials": [
        {
            "pbrMetallicRoughness": {
                "baseColorTexture": { "index": 0 }, "baseColorFactor": [1, 0.5, 0, 1]
            }
        }
    ],
    "meshes": [
        {
            "primitives": [
                { "attributes": { "POSITION": 0 }, "indices": 1, "material": 0, "mode": 4 }
            ]
        }
    ],
    "nodes": [
        { "mesh": 0, "children": [1], "translation": [1, 2, 3] },
        { "mesh": 0 }
    ],
    "scenes": [ { "nodes": [0] } ],
    "scene": 0
}"#;

fn scene() -> SceneData {
    read_scene(DOCUMENT.as_bytes()).unwrap()
}

#[test]
fn containers_are_told_apart() {
    let mut header = [0u8; 20];
    assert_eq!(container(&header).unwrap(), Container::Text);
    header[..4].copy_from_slice(b"glTF");
    assert!(matches!(container(&header), Err(GltfError::MissingJson)));
    header[12..16].copy_from_slice(&300u32.to_le_bytes());
    header[16..].copy_from_slice(b"JSON");
    assert_eq!(container(&header).unwrap(), Container::Binary { json_length: 300 });
    assert!(check_blob_header(b"\x01\x00\x00\x00BIN\0").is_ok());
    assert!(matches!(check_blob_header(b"\x01\x00\x00\x00JSON"), Err(GltfError::MissingBlob)));
}

#[test]
fn documents_are_read() {
    let s = scene();
    assert_eq!(s.views[1], ViewInfo { buffer: 0, offset: 40, length: 6 });
    assert_eq!(s.buffers.len(), 2);
    assert_eq!(s.buffers[0], None);
    assert_eq!(s.buffers[1].as_deref(), Some("more.bin"));
    assert_eq!(
        s.accessors[0],
        AccessorInfo { view: Some(0), offset: 0, count: 3, size: 12, component: 5126 }
    );
    assert_eq!(s.images[0].view, Some(2));
    assert_eq!(s.images[0].mime_type.as_deref(), Some("image/png"));
    assert_eq!(s.images[1].uri.as_deref(), Some("wood.dds"));
    assert_eq!(
        s.primitives[0][0],
        PrimitiveInfo { mode: 4, indices: Some(1), material: Some(0) }
    );
    assert_eq!(s.attributes[0][0], vec![(Semantic::Positions, 0)]);
    assert_eq!(s.materials[0].base_color_texture, Some(0));
    assert_eq!(s.materials[0].base_color_factor.map(f32::from_bits), [1.0, 0.5, 0.0, 1.0]);
    assert_eq!(s.textures[0].source, 0);
    assert_eq!(s.textures[0].sampler, Some(0));
    assert_eq!(s.samplers[0].min_filter, Some(9987));
    assert_eq!(s.scenes, vec![vec![0]]);
    assert_eq!(s.nodes[0].children, vec![1]);
    assert_eq!(s.nodes[1].mesh, Some(0));
    match s.nodes[0].transform {
        NodeTransform::Decomposed { translation, rotation, scale } => {
            assert_eq!(translation.map(f32::from_bits), [1.0, 2.0, 3.0]);
            assert_eq!(rotation.map(f32::from_bits), [0.0, 0.0, 0.0, 1.0]);
            assert_eq!(scale.map(f32::from_bits), [1.0, 1.0, 1.0]);
        }
        NodeTransform::Matrix(_) => panic!("parts were expected"),
    }
    assert!(matches!(read_scene(b"no json"), Err(GltfError::Deserialize(_))));
    let broken = DOCUMENT.replace("\"indices\": 1", "\"indices\": 9");
    assert!(matches!(read_scene(broken.as_bytes()), Err(GltfError::Gltf(_))));
    let lost = r#"{"asset":{"version":"2.0"},"meshes":[{"primitives":[{"attributes":{"POSITION":0}}]}]}"#;
    assert!(matches!(
        read_scene(lost.as_bytes()),
        Err(GltfError::MissingPositions { mesh: 0, primitive: 0 })
    ));
}

#[test]
fn views_have_uses() {
    let s = scene();
    assert!(has_dense_accessors(&s));
    let mut uses: Vec<(usize, u64, bool)> =
        view_uses(&s).into_iter().map(|u| (u.view, u.size, u.is_index)).collect();
    uses.sort();
    assert_eq!(uses, vec![(0, 12, false), (1, 2, true)]);
    let list = view_uses(&s);
    let views = gpu_views(3, &list).unwrap();
    assert_eq!(views[0], BufferGpuView { alignment: 16, usage: GpuUsage::VertexBuffer });
    assert_eq!(views[1].usage, GpuUsage::IndexBuffer { ty: vk::INDEX_TYPE_UINT16 });
    assert_eq!(views[2].usage, GpuUsage::Unused);

    let twice = vec![
        ViewUse { view: 0, size: 4, is_index: false },
        ViewUse { view: 0, size: 2, is_index: true },
    ];
    assert!(matches!(gpu_views(1, &twice), Err(GltfError::OverlappingBufferView)));
    let sparse = DOCUMENT.replace(
        "\"bufferView\": 0, \"componentType\"",
        "\"sparse\": { \"count\": 1, \"indices\": { \"bufferView\": 1, \"componentType\": 5123 }, \"values\": { \"bufferView\": 0 } }, \"componentType\"",
    );
    assert!(!has_dense_accessors(&read_scene(sparse.as_bytes()).unwrap()));
    let mut view = BufferGpuView { alignment: 1, usage: GpuUsage::Unused };
    assert!(view.accum_vertex_buffer_usage(12).is_ok());
    assert!(view.accum_vertex_buffer_usage(4).is_ok());
    assert_eq!(view, BufferGpuView { alignment: 16, usage: GpuUsage::VertexBuffer });
    assert!(matches!(
        view.accum_index_buffer_usage(4),
        Err(GltfError::OverlappingBufferView)
    ));
    let mut indices = BufferGpuView { alignment: 1, usage: GpuUsage::Unused };
    assert!(indices.accum_index_buffer_usage(1).is_ok());
    assert_eq!(indices.usage, GpuUsage::IndexBuffer { ty: vk::INDEX_TYPE_UINT8_KHR });
    assert!(indices.accum_index_buffer_usage(4).is_err());
}

#[test]
fn buffers_are_read_in_order() {
    let s = scene();
    assert!(has_sourced_images(&s.images));
    assert_eq!(cpu_views(&s.images, 3), vec![false, false, true]);
    assert_eq!(read_order(&s.views, 0), vec![0, 1, 2]);
    assert!(read_order(&s.views, 1).is_empty());
    let plan = load_plan(&s).unwrap();
    assert_eq!(plan.buffers.len(), 2);
    assert!(!plan.buffers[0].overlapping);
    let steps = &plan.buffers[0].steps;
    assert_eq!(
        steps[0],
        ReadStep {
            view: 0,
            skip: 0,
            action: ReadAction::ToVertexBuffer { length: 36, alignment: 16 },
        }
    );
    assert_eq!((steps[1].view, steps[1].skip), (1, 4));
    assert!(matches!(steps[1].action, ReadAction::ToIndexBuffer { size: 6, spread: false, .. }));
    assert_eq!(
        steps[2],
        ReadStep { view: 2, skip: 2, action: ReadAction::ToCpu { length: 20 } }
    );
    assert!(plan.buffers[1].steps.is_empty());
    assert!(plan.textures[0].active);
    assert!(plan.textures[0].is_srgb);
    assert!(!plan.textures[1].active);
}

#[test]
fn overlapping_views_are_told() {
    let view = |offset: u64, length: u64| ViewInfo { buffer: 0, offset, length };
    let views = vec![view(4, 8), view(8, 8)];
    let vertex = BufferGpuView { alignment: 4, usage: GpuUsage::VertexBuffer };
    let bytes =
        BufferGpuView { alignment: 1, usage: GpuUsage::IndexBuffer { ty: vk::INDEX_TYPE_UINT8_KHR } };
    let order = read_order(&views, 0);
    let plan = read_plan(&views, &vec![vertex, vertex], &vec![false, false], &order, false);
    assert!(plan.overlapping);
    let apart = vec![view(20, 3), view(4, 8)];
    let order = read_order(&apart, 0);
    assert_eq!(order, vec![1, 0]);
    let plan = read_plan(&apart, &vec![bytes, vertex], &vec![false, false], &order, true);
    assert!(!plan.overlapping);
    assert_eq!((plan.steps[0].skip, plan.steps[1].skip), (4, 8));
    assert_eq!(
        plan.steps[1].action,
        ReadAction::ToIndexBuffer { size: 6, alignment: 1, spread: true }
    );
    assert_eq!(spread_indices(&[1, 255, 0]), vec![1u16, 255, 0]);
}

#[test]
fn images_come_from_views() {
    let mut png: Vec<u8> = Vec::new();
    let mut encoder = png::Encoder::new(&mut png, 1, 1);
    encoder.set_color(png::ColorType::Rgba);
    encoder.set_depth(png::BitDepth::Eight);
    let mut writer = encoder.write_header().unwrap();
    writer.write_image_data(&[1, 2, 3, 4]).unwrap();
    writer.finish().unwrap();
    let views = vec![png];
    let image = |mime: &str| ImageInfo {
        view: Some(0),
        mime_type: Some(String::from(mime)),
        uri: None,
        name: None,
    };
    let used = TextureUse { is_srgb: true, active: true };
    match load_images(&image("image/png"), &used, &views).unwrap() {
        ImageLoad::Inline(info, decoded) => {
            assert_eq!(info.format, vk::FORMAT_R8G8B8A8_SRGB);
            assert_eq!(decoded.bytes, vec![1, 2, 3, 4]);
        }
        _ => panic!("an image was expected"),
    }
    let unused = TextureUse { is_srgb: false, active: false };
    assert!(matches!(load_images(&image("image/png"), &unused, &views), Ok(ImageLoad::Unused)));
    assert!(matches!(
        load_images(&image("image/bmp"), &used, &views),
        Err(GltfError::InvalidImageMimeType(m)) if m == "image/bmp"
    ));
    assert!(matches!(
        load_images(&image("image/jpeg"), &used, &views),
        Err(GltfError::Image(_))
    ));
    let outside = ImageInfo {
        view: None,
        mime_type: None,
        uri: Some(String::from("a.png")),
        name: None,
    };
    assert!(matches!(load_images(&outside, &used, &views), Ok(ImageLoad::Uri)));
}

#[test]
fn wide_images_have_formats() {
    let mut png: Vec<u8> = Vec::new();
    let mut encoder = png::Encoder::new(&mut png, 1, 1);
    encoder.set_color(png::ColorType::Rgb);
    encoder.set_depth(png::BitDepth::Sixteen);
    let mut writer = encoder.write_header().unwrap();
    writer.write_image_data(&[0; 6]).unwrap();
    writer.finish().unwrap();
    let image = ImageInfo {
        view: Some(0),
        mime_type: Some(String::from("image/png")),
        uri: None,
        name: None,
    };
    let used = TextureUse { is_srgb: true, active: true };
    match load_images(&image, &used, &vec![png]).unwrap() {
        ImageLoad::Inline(info, _) => assert_eq!(info.format, vk::FORMAT_R16G16B16A16_UNORM),
        _ => panic!("an image was expected"),
    }
}

#[test]
fn samplers_are_converted() {
    let s = scene();
    let list = load_samplers(&s.samplers);
    assert_eq!(list.len(), 1);
    assert_eq!(list[0].mag_filter, vk::FILTER_NEAREST);
    assert_eq!(list[0].min_filter, vk::FILTER_LINEAR);
    assert_eq!(list[0].mipmap_mode, vk::SAMPLER_MIPMAP_MODE_LINEAR);
    assert_eq!(list[0].address_mode_u, vk::SAMPLER_ADDRESS_MODE_CLAMP_TO_EDGE);
    assert_eq!(list[0].address_mode_v, vk::SAMPLER_ADDRESS_MODE_REPEAT);
    let unset =
        load_sampler(&SamplerInfo { mag_filter: None, min_filter: None, wrap_s: 33648, wrap_t: 10497 });
    assert_eq!(unset.mag_filter, vk::FILTER_NEAREST);
    assert_eq!(unset.address_mode_u, vk::SAMPLER_ADDRESS_MODE_MIRRORED_REPEAT);
    assert_eq!(default_sampler().mipmap_mode, vk::SAMPLER_MIPMAP_MODE_LINEAR);
}

#[test]
fn materials_are_loaded() {
    let s = scene();
    let materials = load_materials(&s);
    let texture = materials[0].base_color.unwrap();
    assert_eq!((texture.image, texture.sampler), (0, Some(0)));
    let data = materials[0].data(Some(9), 4);
    assert_eq!((data.base_color, data.base_color_sampler), (9, 4));
    assert_eq!(materials[0].data(None, 4).base_color, u32::MAX);
    let plain = GltfMaterial::default();
    assert_eq!(plain.base_color_factor.map(f32::from_bits), [1.0; 4]);
    assert_eq!(plain.data(Some(9), 4).base_color, u32::MAX);
    assert_eq!(plain.data(Some(9), 4).base_color_sampler, 0);
    let uses = texture_uses(&s);
    assert_eq!((uses[0].active, uses[1].active), (true, false));
    let dds = TextureInfo { source: 0, dds_source: Some(1), sampler: None };
    assert_eq!(dds_source(&dds, 2), 1);
    assert_eq!(dds_source(&dds, 1), 0);
}

#[test]
fn dds_images_replace_others() {
    let text = DOCUMENT
        .replace(
            "\"source\": 0, \"sampler\": 0",
            "\"source\": 0, \"sampler\": 0, \"extensions\": { \"MSFT_texture_dds\": { \"source\": 1 } }",
        )
        .replace("\"scene\": 0", "\"scene\": 0, \"extensionsUsed\": [\"MSFT_texture_dds\"]");
    let s = read_scene(text.as_bytes()).unwrap();
    assert_eq!(s.textures[0].dds_source, Some(1));
    assert_eq!(load_materials(&s)[0].base_color.unwrap().image, 1);
    assert!(texture_uses(&s)[1].active);
}

#[test]
fn primitives_are_loaded() {
    let s = scene();
    let p = load_primitive(
        &s.primitives[0][0],
        &s.attributes[0][0],
        &s.accessors,
        &vec![true, true, false],
    );
    assert_eq!(p.topology, vk::PRIMITIVE_TOPOLOGY_TRIANGLE_LIST);
    assert_eq!((p.index_buffer, p.index_count), (Some(1), 3));
    assert_eq!(p.index_type, vk::INDEX_TYPE_UINT16);
    assert_eq!(p.material, Some(0));
    let positions = p.attribute(Semantic::Positions).unwrap();
    assert_eq!((positions.buffer, positions.offset), (0, 0));
    assert!(p.attribute(Semantic::Normals).is_none());

    assert!(has_loadable_meshes(&s, &vec![true, true, false]));
    let models = load_meshes(&s, &vec![true, true, false]);
    assert_eq!(models.len(), 1);
    assert_eq!(models[0].primitives.len(), 1);
    assert_eq!(models[0].primitives[0].index_buffer, Some(1));
    assert_eq!(models[0].primitives[0].material, Some(0));
    // The positions are not there.
    assert!(!has_loadable_meshes(&s, &vec![false, true, false]));
    let mut looped = scene();
    looped.primitives[0][0].mode = 2;
    assert!(!has_loadable_meshes(&looped, &vec![true, true, false]));
    let mut plain = scene();
    plain.primitives[0][0].material = None;
    assert!(!has_loadable_meshes(&plain, &vec![true, true, false]));
    let mut floats = scene();
    floats.accessors[1].component = 5126;
    assert!(!has_loadable_meshes(&floats, &vec![true, true, false]));
}

#[test]
fn attributes_have_addresses() {
    let mut p = Primitive::default();
    assert_eq!(p.attribute_gpuva(Semantic::Colors(0), &[]), 0);
    p.set_attribute(Semantic::Colors(1), Attribute { buffer: 1, offset: 16 });
    p.set_attribute(Semantic::Colors(0), Attribute { buffer: 0, offset: 8 });
    p.set_attribute(Semantic::TexCoords(1), Attribute { buffer: 1, offset: 0 });
    let addresses = [0x1000, 0x2000];
    assert_eq!(p.attribute_gpuva(Semantic::Colors(1), &addresses), 0x2010);
    assert_eq!(p.attribute_gpuva(Semantic::Colors(0), &addresses), 0x1008);
    assert_eq!(p.attribute_gpuva(Semantic::TexCoords(1), &addresses), 0x2000);
    for semantic in [
        Semantic::Positions,
        Semantic::Normals,
        Semantic::Tangents,
        Semantic::Colors(7),
        Semantic::TexCoords(8),
        Semantic::Joints(9),
        Semantic::Weights(u32::MAX),
    ] {
        assert_eq!(Semantic::from_u64(semantic.to_u64()), semantic);
    }
    let all: BTreeMap<u64, Attribute> = p.attributes;
    assert_eq!(all.len(), 3);
    let model = Model { primitives: vec![Primitive::default()] };
    assert_eq!(model.primitives.len(), 1);
    let instances = ModelInstances { entities: vec![4, 2] };
    assert_eq!(instances.len(), 2);
    assert_eq!(instances.iter(), &[4, 2]);
}

fn node(children: Vec<usize>, mesh: Option<usize>) -> NodeInfo {
    NodeInfo { children, mesh, transform: NodeTransform::Matrix([[0; 4]; 4]) }
}

#[test]
fn hierarchies_are_spawned() {
    let nodes = vec![
        node(vec![2, 1], None),
        node(vec![], Some(1)),
        node(vec![3], Some(0)),
        node(vec![], Some(1)),
    ];
    let order = load_node(&nodes, &vec![0]).unwrap();
    let list: Vec<(usize, Option<usize>)> = order.iter().map(|n| (n.node, n.parent)).collect();
    assert_eq!(list.len(), 4);
    assert_eq!(list[0], (0, None));
    for (i, (n, parent)) in list.iter().enumerate() {
        if let Some(p) = parent {
            assert!(*p < i);
            assert!(nodes[list[*p].0].children.contains(n));
        }
    }
    let scene = load_hierarchy(&nodes, &order, vec![13, 11, 12, 10], &vec![50, 40]);
    assert_eq!(scene.instances(), &[10, 11, 12, 13]);
    assert_eq!(scene.models(), &[40, 40, 50]);
    // A node that is its own descendant cannot be spawned.
    let circular = vec![node(vec![1], None), node(vec![0], None)];
    assert!(load_node(&circular, &vec![0]).is_none());
    let scene = Scene::new(vec![3, 1], vec![2]);
    assert_eq!(scene.models(), &[1, 3]);
}

#[test]
fn buffers_images_and_nodes_are_described() {
    let index = ReadAction::ToIndexBuffer { size: 12, alignment: 4, spread: true };
    assert_eq!(buffer_usage(&index), Some(0x40));
    let vertex = ReadAction::ToVertexBuffer { length: 8, alignment: 4 };
    assert_eq!(buffer_usage(&vertex), Some(0x20020));
    assert_eq!(buffer_usage(&ReadAction::Ignore), None);
    assert_eq!(buffer_usage(&ReadAction::ToCpu { length: 3 }), None);

    let unnamed = ImageInfo { view: None, mime_type: None, uri: None, name: None };
    assert_eq!(image_label(&unnamed, 17), "Image17");
    let named =
        ImageInfo { view: None, mime_type: None, uri: None, name: Some("Bark".to_string()) };
    assert_eq!(image_label(&named, 17), "Bark");

    let models = vec![70, 80];
    let place = NodeTransform::Matrix([[0; 4]; 4]);
    assert_eq!(node_to_bundle(&node(vec![], Some(1)), &models), (Some(80), place));
    assert_eq!(node_to_bundle(&node(vec![5], None), &models), (None, place));
}
