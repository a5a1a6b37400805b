use block_game::chunk::{Block, Chunk, GridPos};

fn stone_at(cells: &[(u8, u8, u8)]) -> Chunk {
    let mut c = Chunk::new();
    for &(x, y, z) in cells {
        c.set_block(x, y, z, Block::Stone);
    }
    c
}

#[test]
fn get_block_out_of_range_is_none() {
    let c = Chunk::new();
    assert!(c.get_block(16, 0, 0).is_none());
    assert!(c.get_block(0, 16, 0).is_none());
    assert!(c.get_block(0, 0, 16).is_none());
    assert!(c.get_block(255, 255, 255).is_none());
    assert!(c.get_block(16, 16, 16).is_none());
}

#[test]
fn get_block_reads_back_writes() {
    let c = stone_at(&[(1, 2, 3)]);
    assert_eq!(c.get_block(1, 2, 3), Some(Block::Stone));
    assert_eq!(c.get_block(3, 2, 1), Some(Block::Air));
    assert_eq!(c.get_block(0, 0, 0), Some(Block::Air));
    assert_eq!(c.get_block(15, 15, 15), Some(Block::Air));
}

#[test]
fn isolated_origin_stone_gives_one_face_per_direction() {
    let c = stone_at(&[(0, 0, 0)]);
    let faces = c.generate_faces();
    let rec = (GridPos { x: 0, y: 0, z: 0 }, Block::Stone);
    assert_eq!(faces.front.len(), 1);
    assert_eq!(faces.back.len(), 1);
    assert_eq!(faces.top.len(), 1);
    assert_eq!(faces.bottom.len(), 1);
    assert_eq!(faces.right.len(), 1);
    assert_eq!(faces.left.len(), 1);
    assert_eq!(faces.front[0], rec);
    assert_eq!(faces.back[0], rec);
    assert_eq!(faces.top[0], rec);
    assert_eq!(faces.bottom[0], rec);
    assert_eq!(faces.right[0], rec);
    assert_eq!(faces.left[0], rec);
}

#[test]
fn isolated_interior_stone_gives_six_faces() {
    let c = stone_at(&[(8, 9, 10)]);
    let faces = c.generate_faces();
    let rec = (GridPos { x: 8, y: 9, z: 10 }, Block::Stone);
    for list in [
        &faces.front,
        &faces.back,
        &faces.top,
        &faces.bottom,
        &faces.right,
        &faces.left,
    ] {
        assert_eq!(list.as_slice(), &[rec]);
    }
}

#[test]
fn buried_cell_contributes_no_faces() {
    // A solid 3x3x3 cube: its center (5, 5, 5) has six solid neighbors
    // and must appear in no direction's list.
    let mut cells = Vec::new();
    for x in 4..7u8 {
        for y in 4..7u8 {
            for z in 4..7u8 {
                cells.push((x, y, z));
            }
        }
    }
    let c = stone_at(&cells);
    let faces = c.generate_faces();
    let center = GridPos { x: 5, y: 5, z: 5 };
    for list in [
        &faces.front,
        &faces.back,
        &faces.top,
        &faces.bottom,
        &faces.right,
        &faces.left,
    ] {
        assert!(list.iter().all(|rec| rec.0 != center));
    }
    // The cube has 9 visible faces per direction, one per surface cell.
    assert_eq!(faces.front.len(), 9);
    assert_eq!(faces.back.len(), 9);
    assert_eq!(faces.top.len(), 9);
    assert_eq!(faces.bottom.len(), 9);
    assert_eq!(faces.right.len(), 9);
    assert_eq!(faces.left.len(), 9);
}

#[test]
fn air_chunk_gives_no_faces() {
    let c = Chunk::new();
    let faces = c.generate_faces();
    assert!(faces.front.is_empty());
    assert!(faces.back.is_empty());
    assert!(faces.top.is_empty());
    assert!(faces.bottom.is_empty());
    assert!(faces.right.is_empty());
    assert!(faces.left.is_empty());
}

#[test]
fn face_lists_follow_scan_order() {
    // Two isolated stones: the cell with the smaller x comes first in
    // every list, because the scan runs outer x, then y, then z.
    let c = stone_at(&[(2, 0, 0), (9, 0, 0)]);
    let faces = c.generate_faces();
    assert_eq!(faces.top.len(), 2);
    assert_eq!(faces.top[0].0, GridPos { x: 2, y: 0, z: 0 });
    assert_eq!(faces.top[1].0, GridPos { x: 9, y: 0, z: 0 });
}

#[test]
fn adjacent_stones_hide_shared_faces() {
    // Two stones side by side along x: the touching faces are culled.
    let c = stone_at(&[(3, 3, 3), (4, 3, 3)]);
    let faces = c.generate_faces();
    assert_eq!(faces.front.len(), 1);
    assert_eq!(faces.front[0].0, GridPos { x: 4, y: 3, z: 3 });
    assert_eq!(faces.back.len(), 1);
    assert_eq!(faces.back[0].0, GridPos { x: 3, y: 3, z: 3 });
    assert_eq!(faces.top.len(), 2);
    assert_eq!(faces.bottom.len(), 2);
    assert_eq!(faces.right.len(), 2);
    assert_eq!(faces.left.len(), 2);
}
