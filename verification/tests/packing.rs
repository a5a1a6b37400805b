use block_game::chunk::{Block, Chunk};
use block_game::packer::{pack_chunk, pack_faces, FaceInfo};

fn f32_le(v: f32) -> [u8; 4] {
    v.to_le_bytes()
}

fn vec3_le(a: f32, b: f32, c: f32) -> Vec<u8> {
    let mut out = Vec::new();
    out.extend_from_slice(&f32_le(a));
    out.extend_from_slice(&f32_le(b));
    out.extend_from_slice(&f32_le(c));
    out.extend_from_slice(&[0, 0, 0, 0]);
    out
}

#[test]
fn offsets_are_aligned_to_256() {
    let mut chunk = Chunk::new();
    chunk.set_block(0, 0, 0, Block::Stone);
    let packed = pack_faces(&chunk.generate_faces()).unwrap();
    assert_eq!(packed.infos.len(), 6);
    for info in &packed.infos {
        assert_eq!(info.start_offset % 256, 0);
    }
}

#[test]
fn single_stone_packs_six_blocks_of_one_face() {
    let mut chunk = Chunk::new();
    chunk.set_block(0, 0, 0, Block::Stone);
    let packed = pack_faces(&chunk.generate_faces()).unwrap();
    // Each block is 96 template bytes + 48 record bytes, padded to 256.
    let expected: Vec<FaceInfo> = (0..6)
        .map(|k| FaceInfo { start_offset: 256 * k, count: 1 })
        .collect();
    assert_eq!(packed.infos, expected);
    assert_eq!(packed.buffer.len(), 6 * 256);
}

#[test]
fn empty_grid_packs_empty_blocks() {
    let packed = pack_faces(&Chunk::new().generate_faces()).unwrap();
    let expected: Vec<FaceInfo> = (0..6)
        .map(|k| FaceInfo { start_offset: 256 * k, count: 0 })
        .collect();
    assert_eq!(packed.infos, expected);
    assert_eq!(packed.buffer.len(), 6 * 256);
}

#[test]
fn front_template_matches_the_quad_geometry() {
    // The first block is the front direction; its template is six
    // vertices of the +x face of a unit cube, sixteen bytes each.
    let mut chunk = Chunk::new();
    chunk.set_block(0, 0, 0, Block::Stone);
    let packed = pack_faces(&chunk.generate_faces()).unwrap();
    let b = &packed.buffer;
    let verts: [(f32, f32, f32); 6] = [
        (0.5, 0.5, -0.5),
        (0.5, -0.5, -0.5),
        (0.5, -0.5, 0.5),
        (0.5, 0.5, -0.5),
        (0.5, -0.5, 0.5),
        (0.5, 0.5, 0.5),
    ];
    for (i, &(x, y, z)) in verts.iter().enumerate() {
        assert_eq!(&b[16 * i..16 * (i + 1)], vec3_le(x, y, z).as_slice());
    }
}

#[test]
fn face_records_hold_position_normal_and_color() {
    let mut chunk = Chunk::new();
    chunk.set_block(3, 5, 7, Block::Stone);
    let packed = pack_faces(&chunk.generate_faces()).unwrap();
    let b = &packed.buffer;
    // Front block record starts after the 96-byte template.
    assert_eq!(&b[96..112], vec3_le(3.0, 5.0, 7.0).as_slice());
    assert_eq!(&b[112..128], vec3_le(1.0, 0.0, 0.0).as_slice());
    assert_eq!(&b[128..144], vec3_le(0.2, 0.2, 0.2).as_slice());
    // The rest of the front block is zero padding up to 256.
    assert!(b[144..256].iter().all(|&byte| byte == 0));
    // The back block starts at 256 and its normal points along -x.
    assert_eq!(&b[256 + 96..256 + 112], vec3_le(3.0, 5.0, 7.0).as_slice());
    assert_eq!(&b[256 + 112..256 + 128], vec3_le(-1.0, 0.0, 0.0).as_slice());
}

#[test]
fn block_sizes_follow_the_face_counts() {
    // The scene the renderer builds at startup: six stones.
    let mut chunk = Chunk::new();
    for &(x, y, z) in &[(0, 0, 0), (0, 0, 1), (0, 2, 0), (1, 2, 0), (1, 2, 1), (1, 3, 1)] {
        chunk.set_block(x, y, z, Block::Stone);
    }
    let faces = chunk.generate_faces();
    let packed = pack_faces(&faces).unwrap();
    let counts = [
        faces.front.len(),
        faces.back.len(),
        faces.top.len(),
        faces.bottom.len(),
        faces.right.len(),
        faces.left.len(),
    ];
    let mut offset = 0u32;
    for (k, info) in packed.infos.iter().enumerate() {
        assert_eq!(info.start_offset, offset);
        assert_eq!(info.count as usize, counts[k]);
        let block_len = 96 + 48 * info.count;
        offset = (offset + block_len + 255) & !255;
    }
    assert_eq!(packed.buffer.len() as u32, offset);
    // Every stone in this scene is exposed on top except the one below
    // another stone; spot-check a count against the culling rule.
    assert_eq!(counts[2], 5);
}

#[test]
fn pack_chunk_matches_the_two_step_pipeline() {
    let mut chunk = Chunk::new();
    chunk.set_block(0, 0, 0, Block::Stone);
    chunk.set_block(15, 15, 15, Block::Stone);
    let direct = pack_chunk(&chunk).unwrap();
    let two_step = pack_faces(&chunk.generate_faces()).unwrap();
    assert_eq!(direct.buffer, two_step.buffer);
    assert_eq!(direct.infos, two_step.infos);
    let mut prev = None;
    for info in &direct.infos {
        assert_eq!(info.start_offset % 256, 0);
        if let Some(p) = prev {
            assert!(info.start_offset > p);
        }
        prev = Some(info.start_offset);
    }
}
