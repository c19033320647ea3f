use physis::model::ModelFileHeader;

#[test]
fn test_stack_size() {
    let example_header = ModelFileHeader {
        version: 0,
        stack_size: 0,
        runtime_size: 0,
        vertex_declaration_count: 6,
        material_count: 0,
        vertex_offsets: [0; 3],
        index_offsets: [0; 3],
        vertex_buffer_size: [0; 3],
        index_buffer_size: [0; 3],
        lod_count: 0,
        index_buffer_streaming_enabled: false,
        has_edge_geometry: false,
        vertex_declarations: Vec::new(),
    };

    assert_eq!(816, example_header.calculate_stack_size());

    let example_header2 = ModelFileHeader {
        version: 0,
        stack_size: 0,
        runtime_size: 0,
        vertex_declaration_count: 2,
        material_count: 0,
        vertex_offsets: [0; 3],
        index_offsets: [0; 3],
        vertex_buffer_size: [0; 3],
        index_buffer_size: [0; 3],
        lod_count: 0,
        index_buffer_streaming_enabled: false,
        has_edge_geometry: false,
        vertex_declarations: Vec::new(),
    };

    assert_eq!(272, example_header2.calculate_stack_size());
}

use physis::model::{Lod, ModelData, ModelHeader, Part, SubMesh, MDL};
use physis::model_records::{BoundingBox, Mesh, MeshLod, ModelInfo, Submesh};
use physis::model_vertex::Vertex;
use physis::model_vertex_declarations::{
    read_declaration, VertexDeclaration, VertexElement, VertexType, VertexUsage,
};

fn element(stream: u8, offset: u8, vertex_type: VertexType, vertex_usage: VertexUsage) -> VertexElement {
    VertexElement { stream, offset, vertex_type, vertex_usage, usage_index: 0 }
}

fn empty_lod(mesh_index: u16, mesh_count: u16) -> MeshLod {
    MeshLod {
        mesh_index,
        mesh_count,
        model_lod_range: 0x42C8_0000,
        texture_lod_range: 0,
        water_mesh_index: 0,
        water_mesh_count: 0,
        shadow_mesh_index: 0,
        shadow_mesh_count: 0,
        terrain_shadow_mesh_count: 0,
        terrain_shadow_mesh_index: 0,
        vertical_fog_mesh_index: 0,
        vertical_fog_mesh_count: 0,
        edge_geometry_size: 0,
        edge_geometry_data_offset: 0,
        polygon_count: 0,
        vertex_buffer_size: 0,
        index_buffer_size: 0,
        vertex_data_offset: 0,
        index_data_offset: 0,
    }
}

fn empty_box() -> BoundingBox {
    BoundingBox { min: [0; 4], max: [0x3F80_0000; 4] }
}

fn small_model() -> MDL {
    let declaration = VertexDeclaration {
        elements: vec![
            element(0, 0, VertexType::Single3, VertexUsage::Position),
            element(0, 12, VertexType::Half4, VertexUsage::Normal),
            element(0, 20, VertexType::Half4, VertexUsage::UV),
            element(0, 28, VertexType::ByteFloat4, VertexUsage::Color),
            element(1, 0, VertexType::ByteFloat4, VertexUsage::BlendWeights),
            element(1, 4, VertexType::UInt, VertexUsage::BlendIndices),
            element(1, 8, VertexType::ByteFloat4, VertexUsage::BiTangent),
        ],
    };
    let strings = b"bone_a\0mat_b\0".to_vec();
    let info = ModelInfo {
        radius: 0x4000_0000,
        mesh_count: 1,
        attribute_count: 0,
        submesh_count: 1,
        material_count: 1,
        bone_count: 1,
        bone_table_count: 0,
        shape_count: 0,
        shape_mesh_count: 0,
        shape_value_count: 0,
        lod_count: 1,
        flags1: 0x02,
        element_id_count: 0,
        terrain_shadow_mesh_count: 0,
        flags2: 0,
        model_clip_out_of_distance: 0,
        shadow_clip_out_of_distance: 0,
        terrain_shadow_submesh_count: 0,
        bg_change_material_index: 0,
        bg_crest_change_material_index: 0,
    };
    let mesh = Mesh {
        vertex_count: 0,
        index_count: 0,
        material_index: 0,
        submesh_index: 0,
        submesh_count: 1,
        bone_table_index: 0,
        start_index: 0,
        vertex_buffer_offsets: [0; 3],
        vertex_buffer_strides: [32, 12, 0],
        vertex_stream_count: 2,
    };
    MDL {
        file_header: ModelFileHeader {
            version: 0x0100_0005,
            stack_size: 0,
            runtime_size: 0,
            vertex_declaration_count: 1,
            material_count: 1,
            vertex_offsets: [0; 3],
            index_offsets: [0; 3],
            vertex_buffer_size: [0; 3],
            index_buffer_size: [0; 3],
            lod_count: 1,
            index_buffer_streaming_enabled: false,
            has_edge_geometry: false,
            vertex_declarations: vec![declaration],
        },
        model_data: ModelData {
            header: ModelHeader { string_count: 2, string_size: strings.len() as u32, strings, info },
            element_ids: vec![],
            lods: vec![empty_lod(0, 1), empty_lod(0, 0), empty_lod(0, 0)],
            meshes: vec![mesh],
            attribute_name_offsets: vec![],
            submeshes: vec![Submesh {
                index_offset: 0,
                index_count: 0,
                attribute_index_mask: 0,
                bone_start_index: 0,
                bone_count: 0,
            }],
            material_name_offsets: vec![7],
            bone_name_offsets: vec![0],
            bone_tables: vec![],
            submesh_bone_map_size: 0,
            submesh_bone_map: vec![],
            padding_amount: 7,
            bounding_box: empty_box(),
            model_bounding_box: empty_box(),
            water_bounding_box: empty_box(),
            vertical_fog_bounding_box: empty_box(),
            bone_bounding_boxes: vec![empty_box()],
        },
        lods: vec![Lod {
            parts: vec![Part {
                mesh_index: 0,
                vertices: vec![],
                indices: vec![],
                material_index: 0,
                submeshes: vec![SubMesh { submesh_index: 0, index_count: 0, index_offset: 0 }],
            }],
        }],
        affected_bone_names: vec!["bone_a".to_string()],
        material_names: vec!["mat_b".to_string()],
    }
}

fn vertex(seed: u32) -> Vertex {
    Vertex {
        position: [0x3F80_0000 + seed, 0xC000_0000 + seed, seed],
        uv0: [0x3800 + seed, 0x3C00],
        uv1: [seed, 0xFFFF],
        normal: [0x3C00, 0xBC00, seed],
        bitangent: [1, 2, 3, seed as u8],
        color: [255, 128, 0, seed as u8],
        bone_weight: [200, 55, 0, 0],
        bone_id: [seed as u8, 1, 2, 3],
    }
}

#[test]
fn default_vertex_is_zero() {
    let vertex = Vertex::default();
    assert_eq!(vertex.position, [0; 3]);
    assert_eq!(vertex.uv0, [0; 2]);
    assert_eq!(vertex.uv1, [0; 2]);
    assert_eq!(vertex.normal, [0; 3]);
    assert_eq!(vertex.bitangent, [0; 4]);
    assert_eq!(vertex.color, [0; 4]);
    assert_eq!(vertex.bone_weight, [0; 4]);
    assert_eq!(vertex.bone_id, [0; 4]);
}

#[test]
fn runtime_size_is_the_sum_of_the_parts() {
    let model = small_model();
    assert_eq!(model.model_data.calculate_runtime_size(), 489);
    assert_eq!(model.model_data.checked_runtime_size(), Some(489));
    assert_eq!(model.file_header.calculate_stack_size(), 136);
    let mut bytes: Vec<u8> = Vec::new();
    model.model_data.write(&mut bytes);
    assert_eq!(bytes.len(), 489);
}

#[test]
fn replacing_vertices_lays_the_model_out() {
    let mut model = small_model();
    let vertices = [vertex(1), vertex(2), vertex(3)];
    let indices = [0u16, 1, 2];
    let runs = [SubMesh { submesh_index: 0, index_count: 3, index_offset: 0 }];
    assert!(model.replace_vertices(0, 0, &vertices, &indices, &runs));

    let mesh = model.model_data.meshes[0];
    assert_eq!(mesh.vertex_count, 3);
    assert_eq!(mesh.index_count, 3);
    assert_eq!(mesh.start_index, 0);
    assert_eq!(mesh.vertex_buffer_offsets, [0, 96, 0]);
    assert_eq!(model.model_data.submeshes[0].index_count, 3);

    assert_eq!(model.file_header.stack_size, 136);
    assert_eq!(model.file_header.runtime_size, 489);
    let lods = &model.model_data.lods;
    assert_eq!(lods[0].vertex_buffer_size, 3 * 44);
    assert_eq!(lods[0].index_buffer_size, 16);
    assert_eq!(lods[0].vertex_data_offset, 68 + 136 + 489);
    assert_eq!(lods[0].index_data_offset, 693 + 132);
    assert_eq!(lods[0].edge_geometry_data_offset, 825);
    assert_eq!(lods[1].vertex_data_offset, 841);
    assert_eq!(lods[1].index_data_offset, 841);
    assert_eq!(lods[1].vertex_buffer_size, 0);
    assert_eq!(lods[2].vertex_data_offset, 841);
    assert_eq!(model.file_header.vertex_offsets, [693, 0, 0]);
    assert_eq!(model.file_header.index_offsets, [825, 0, 0]);
    assert_eq!(model.file_header.vertex_buffer_size, [132, 0, 0]);
    assert_eq!(model.file_header.index_buffer_size, [16, 0, 0]);
    assert_eq!(model.lods[0].parts[0].vertices, vertices);
    assert_eq!(model.lods[0].parts[0].indices, indices);
}

#[test]
fn index_data_is_padded_to_sixteen_bytes() {
    for (count, size) in [(0usize, 0u32), (1, 16), (8, 16), (9, 32), (16, 32)] {
        let mut model = small_model();
        let indices = vec![0u16; count];
        assert!(model.replace_vertices(0, 0, &[vertex(0)], &indices, &[]));
        assert_eq!(model.model_data.lods[0].index_buffer_size, size);
    }
}

#[test]
fn replacing_vertices_of_a_part_that_is_not_there() {
    let mut model = small_model();
    assert!(!model.replace_vertices(1, 0, &[vertex(1)], &[0], &[]));
    assert!(!model.replace_vertices(0, 1, &[vertex(1)], &[0], &[]));
    assert_eq!(model.model_data.meshes[0].vertex_count, 0);
    assert!(model.lods[0].parts[0].vertices.is_empty());
    model.lods[0].parts[0].mesh_index = 4;
    assert!(!model.replace_vertices(0, 0, &[vertex(1)], &[0], &[]));
    let mut model = small_model();
    model.model_data.lods[0].mesh_count = 2;
    assert!(!model.replace_vertices(0, 0, &[vertex(1)], &[0], &[]));
    assert_eq!(model.file_header.stack_size, 0);
}

#[test]
fn model_round_trip() {
    let mut model = small_model();
    let vertices = [vertex(1), vertex(2), vertex(3), vertex(4)];
    let indices = [0u16, 1, 2, 2, 1, 3];
    assert!(model.replace_vertices(0, 0, &vertices, &indices, &[]));
    let bytes = model.write_to_buffer().unwrap();
    assert_eq!(bytes.len(), 693 + 4 * 44 + 12);

    let read = MDL::from_existing(&bytes).unwrap();
    assert_eq!(read.lods.len(), 1);
    assert_eq!(read.lods[0].parts.len(), 1);
    let part = &read.lods[0].parts[0];
    assert_eq!(part.mesh_index, 0);
    assert_eq!(part.vertices, vertices);
    assert_eq!(part.indices, indices);
    assert_eq!(part.submeshes, model.lods[0].parts[0].submeshes);
    assert_eq!(read.material_names, vec!["mat_b".to_string()]);
    assert_eq!(read.affected_bone_names, vec!["bone_a".to_string()]);
    assert_eq!(read.model_data.meshes, model.model_data.meshes);
    assert_eq!(read.model_data.lods, model.model_data.lods);
    assert_eq!(read.model_data.header.info, model.model_data.header.info);
    assert_eq!(read.model_data.header.strings, model.model_data.header.strings);
    assert_eq!(read.model_data.bone_bounding_boxes, model.model_data.bone_bounding_boxes);
    assert_eq!(read.file_header.vertex_offsets, model.file_header.vertex_offsets);
    assert_eq!(read.file_header.index_offsets, model.file_header.index_offsets);
    assert_eq!(read.file_header.runtime_size, 489);
    assert_eq!(
        read.file_header.vertex_declarations[0].elements,
        model.file_header.vertex_declarations[0].elements
    );

    // What was read is written back byte for byte.
    assert_eq!(read.write_to_buffer().unwrap(), bytes);
}

#[test]
fn vertex_bytes_lie_where_the_declaration_says() {
    let mut model = small_model();
    let vertices = [vertex(1), vertex(2)];
    assert!(model.replace_vertices(0, 0, &vertices, &[7, 8], &[]));
    let bytes = model.write_to_buffer().unwrap();
    let base = 693;
    // position of the second vertex, three single-precision lanes
    assert_eq!(&bytes[base + 32..base + 36], &(0x3F80_0002u32).to_le_bytes());
    // normal of the first vertex: three half-precision lanes and the number one
    assert_eq!(&bytes[base + 12..base + 20], &[0x00, 0x3C, 0x00, 0xBC, 0x01, 0x00, 0x00, 0x3C]);
    // texture coordinates of the first vertex
    assert_eq!(&bytes[base + 20..base + 28], &[0x01, 0x38, 0x00, 0x3C, 0x01, 0x00, 0xFF, 0xFF]);
    // colour of the first vertex
    assert_eq!(&bytes[base + 28..base + 32], &[255, 128, 0, 1]);
    // second stream: weights, indices, bitangent of the first vertex
    let second = base + 64;
    assert_eq!(&bytes[second..second + 12], &[200, 55, 0, 0, 1, 1, 2, 3, 1, 2, 3, 1]);
    // indices
    let indices = base + 2 * 44;
    assert_eq!(&bytes[indices..indices + 4], &[7, 0, 8, 0]);
}

#[test]
fn models_that_cannot_be_written() {
    let mut model = small_model();
    let mut wide = vertex(1);
    wide.normal[0] = 0x1_0000;
    assert!(model.replace_vertices(0, 0, &[wide], &[0], &[]));
    assert!(model.write_to_buffer().is_none());

    let mut model = small_model();
    model.file_header.vertex_declarations[0].elements[0] =
        element(0, 0, VertexType::ByteFloat4, VertexUsage::Tangent);
    assert!(model.replace_vertices(0, 0, &[vertex(1)], &[0], &[]));
    assert!(model.write_to_buffer().is_none());

    let mut model = small_model();
    model.file_header.vertex_declarations[0].elements[0] =
        element(3, 0, VertexType::Single3, VertexUsage::Position);
    assert!(model.replace_vertices(0, 0, &[vertex(1)], &[0], &[]));
    assert!(model.write_to_buffer().is_none());
}

#[test]
fn models_that_cannot_be_read() {
    assert!(MDL::from_existing(&[]).is_none());
    assert!(MDL::from_existing(&[0u8; 67]).is_none());
    assert!(MDL::from_existing(&[0xFFu8; 4096]).is_none());

    let mut model = small_model();
    assert!(model.replace_vertices(0, 0, &[vertex(1), vertex(2)], &[0, 1, 0], &[]));
    let bytes = model.write_to_buffer().unwrap();
    // cut inside the indices, the vertices, the data block
    assert!(MDL::from_existing(&bytes[..bytes.len() - 1]).is_none());
    assert!(MDL::from_existing(&bytes[..700]).is_none());
    assert!(MDL::from_existing(&bytes[..300]).is_none());
    // a flags byte that stands for nothing
    let mut flags = bytes.clone();
    let flags_at = 68 + 136 + 8 + 13 + 4 + 18 + 1;
    assert_eq!(flags[flags_at], 0x02);
    flags[flags_at] = 0x03;
    assert!(MDL::from_existing(&flags).is_none());
    // a position that is declared with an encoding that it cannot have
    let mut encoding = bytes.clone();
    encoding[68 + 2] = 8;
    assert!(MDL::from_existing(&encoding).is_none());
    // a tangent
    let mut tangent = bytes.clone();
    tangent[68 + 3] = 5;
    assert!(MDL::from_existing(&tangent).is_none());
    // a declaration without its end marker
    let mut marker = bytes.clone();
    marker[68 + 7 * 8] = 0;
    assert!(MDL::from_existing(&marker).is_none());
    // a name that does not end
    let mut name = bytes.clone();
    name[68 + 136 + 8 + 12] = b'!';
    assert!(MDL::from_existing(&name).is_none());
}

#[test]
fn declaration_ends_at_the_marker() {
    let mut bytes = vec![0u8; 136];
    bytes[0..5].copy_from_slice(&[0, 0, 2, 0, 0]);
    bytes[8..13].copy_from_slice(&[1, 12, 14, 3, 0]);
    bytes[16] = 0xFF;
    let declaration = read_declaration(&bytes, 0).unwrap();
    assert_eq!(
        declaration.elements,
        vec![
            element(0, 0, VertexType::Single3, VertexUsage::Position),
            element(1, 12, VertexType::Half4, VertexUsage::Normal),
        ]
    );
    // the first slot holds an element even with the marker as its stream
    bytes[0] = 0xFF;
    assert_eq!(read_declaration(&bytes, 0).unwrap().elements.len(), 2);
    assert!(read_declaration(&bytes[..135], 0).is_none());
    assert!(read_declaration(&bytes, 1).is_none());
}

#[test]
fn model_read_from_written_bytes_is_written_to_the_same_bytes() {
    let mut model = small_model();
    let vertices = [vertex(9), vertex(8), vertex(7)];
    assert!(model.replace_vertices(0, 0, &vertices, &[2, 1, 0], &[]));
    let first = model.write_to_buffer().unwrap();
    let read = MDL::from_existing(&first).unwrap();
    let second = read.write_to_buffer().unwrap();
    assert_eq!(first, second);
    let again = MDL::from_existing(&second).unwrap();
    assert_eq!(again.lods[0].parts[0].vertices, read.lods[0].parts[0].vertices);
    assert_eq!(again.lods[0].parts[0].indices, read.lods[0].parts[0].indices);
    assert_eq!(again.lods[0].parts[0].submeshes, read.lods[0].parts[0].submeshes);
    assert_eq!(again.model_data.meshes, read.model_data.meshes);
    assert_eq!(again.model_data.submeshes, read.model_data.submeshes);
    assert_eq!(again.file_header.index_offsets, read.file_header.index_offsets);
}

#[test]
fn reading_gives_the_submeshes_that_the_data_block_records() {
    let mut model = small_model();
    let runs = [SubMesh { submesh_index: 0, index_count: 3, index_offset: 5 }];
    assert!(model.replace_vertices(0, 0, &[vertex(1)], &[0, 0, 0], &runs));
    // the part keeps its own list; the record of the data block takes the run
    assert_eq!(model.lods[0].parts[0].submeshes[0].index_count, 0);
    assert_eq!(model.model_data.submeshes[0].index_count, 3);
    assert_eq!(model.model_data.submeshes[0].index_offset, 5);
    let read = MDL::from_existing(&model.write_to_buffer().unwrap()).unwrap();
    assert_eq!(
        read.lods[0].parts[0].submeshes,
        vec![SubMesh { submesh_index: 0, index_count: 3, index_offset: 5 }]
    );
    assert_eq!(read.lods[0].parts[0].vertices, vec![vertex(1)]);
    assert_eq!(read.lods[0].parts[0].indices, vec![0, 0, 0]);
}

#[test]
fn elements_that_share_bytes_are_not_read_back() {
    let mut model = small_model();
    model.file_header.vertex_declarations[0].elements = vec![
        element(0, 6, VertexType::Half4, VertexUsage::Position),
        element(0, 0, VertexType::Half4, VertexUsage::Normal),
    ];
    let mut given = Vertex::default();
    given.position = [1, 2, 3];
    given.normal = [4, 5, 6];
    assert!(model.replace_vertices(0, 0, &[given], &[], &[]));
    let read = MDL::from_existing(&model.write_to_buffer().unwrap()).unwrap();
    let vertex = read.lods[0].parts[0].vertices[0];
    // the fourth lane of the normal lies on the first lane of the position
    assert_eq!(vertex.position, [0x3C00, 2, 3]);
    assert_eq!(vertex.normal, [4, 5, 6]);
}

#[test]
fn attributes_without_an_element_are_not_stored() {
    let mut model = small_model();
    model.file_header.vertex_declarations[0].elements =
        vec![element(0, 0, VertexType::Single3, VertexUsage::Position)];
    assert!(model.replace_vertices(0, 0, &[vertex(5)], &[], &[]));
    let read = MDL::from_existing(&model.write_to_buffer().unwrap()).unwrap();
    let mut expected = Vertex::default();
    expected.position = vertex(5).position;
    assert_eq!(read.lods[0].parts[0].vertices, vec![expected]);
}

fn two_part_model() -> MDL {
    let mut model = small_model();
    let declaration = VertexDeclaration {
        elements: vec![
            element(0, 0, VertexType::Half4, VertexUsage::Position),
            element(0, 8, VertexType::Single4, VertexUsage::UV),
        ],
    };
    model.file_header.vertex_declarations.push(declaration);
    model.file_header.vertex_declaration_count = 2;
    let mut mesh = model.model_data.meshes[0];
    mesh.vertex_buffer_strides = [24, 0, 0];
    mesh.vertex_stream_count = 1;
    model.model_data.meshes.push(mesh);
    model.model_data.header.info.mesh_count = 2;
    model.model_data.lods[0].mesh_count = 2;
    model.lods[0].parts.push(Part {
        mesh_index: 1,
        vertices: vec![],
        indices: vec![],
        material_index: 0,
        submeshes: vec![SubMesh { submesh_index: 0, index_count: 0, index_offset: 0 }],
    });
    model
}

fn flat_vertex(seed: u32) -> Vertex {
    let mut vertex = Vertex::default();
    vertex.position = [seed, seed + 1, seed + 2];
    vertex.uv0 = [0x3F00_0000 + seed, 0x3F80_0000];
    vertex.uv1 = [seed, 0xFFFF_FFFF];
    vertex
}

#[test]
fn two_parts_lie_one_behind_the_other() {
    let mut model = two_part_model();
    let first = [vertex(1), vertex(2)];
    let second = [flat_vertex(10), flat_vertex(20), flat_vertex(30)];
    assert!(model.replace_vertices(0, 0, &first, &[0, 1, 0], &[]));
    assert!(model.replace_vertices(0, 1, &second, &[2, 1, 0, 0], &[]));

    let start = 68 + 2 * 136 + 489 + 36;
    let meshes = &model.model_data.meshes;
    assert_eq!(meshes[0].vertex_buffer_offsets, [0, 64, 0]);
    assert_eq!(meshes[1].vertex_buffer_offsets, [88, 0, 0]);
    assert_eq!(meshes[0].start_index, 0);
    assert_eq!(meshes[1].start_index, 3);
    let lod = model.model_data.lods[0];
    assert_eq!(lod.vertex_data_offset, start);
    assert_eq!(lod.vertex_buffer_size, 88 + 72);
    assert_eq!(lod.index_data_offset, start + 160);
    assert_eq!(lod.index_buffer_size, 16);
    assert_eq!(model.file_header.stack_size, 272);
    assert_eq!(model.file_header.runtime_size, 489 + 36);

    let bytes = model.write_to_buffer().unwrap();
    assert_eq!(bytes.len() as u32, start + 160 + 14);
    let read = MDL::from_existing(&bytes).unwrap();
    assert_eq!(read.lods[0].parts.len(), 2);
    assert_eq!(read.lods[0].parts[0].vertices, first);
    assert_eq!(read.lods[0].parts[0].indices, vec![0, 1, 0]);
    assert_eq!(read.lods[0].parts[1].mesh_index, 1);
    assert_eq!(read.lods[0].parts[1].vertices, second);
    assert_eq!(read.lods[0].parts[1].indices, vec![2, 1, 0, 0]);
    assert_eq!(read.model_data.meshes, model.model_data.meshes);
    assert_eq!(read.model_data.lods, model.model_data.lods);
    assert_eq!(read.file_header.index_offsets, model.file_header.index_offsets);
    assert_eq!(read.write_to_buffer().unwrap(), bytes);
}

#[test]
fn padding_beyond_seven_bytes_reaches_into_the_vertices() {
    let mut model = small_model();
    model.model_data.padding_amount = 9;
    assert!(model.replace_vertices(0, 0, &[vertex(1)], &[0], &[]));
    // the data block is two bytes longer than the runtime size counts
    assert_eq!(model.model_data.lods[0].vertex_data_offset, 68 + 136 + 489);
    let mut data: Vec<u8> = Vec::new();
    model.model_data.write(&mut data);
    assert_eq!(data.len(), 491);
    let bytes = model.write_to_buffer().unwrap();
    let read = MDL::from_existing(&bytes).unwrap();
    assert_eq!(read.lods[0].parts[0].vertices, vec![vertex(1)]);
    // the first bytes of the vertex have replaced the last two of the data block
    assert_ne!(read.model_data.bone_bounding_boxes, model.model_data.bone_bounding_boxes);
}
