use zeroengine::assets::{AssetRef, AssetSource};
use zeroengine::sheet::{
    cell_pixel_rect, compute_uniform_grid_trims, resolve_texture_source, shelf_pack_preview, AutoPackSheet, CellId,
    CellTrim, GridCell, PendingGridCell, PixelGrid, TextureSheet, TextureSource, UniformGridSheet,
};

fn make_image(width: u32, height: u32, fill: [u8; 4]) -> PixelGrid {
    PixelGrid::filled(width, height, fill)
}

fn set_rect(image: &mut PixelGrid, x: u32, y: u32, w: u32, h: u32, color: [u8; 4]) {
    for dy in 0..h {
        for dx in 0..w {
            image.put_pixel(x + dx, y + dy, color);
        }
    }
}

/// The background colour as the sheet stores it (0..1 per channel), in bytes.
fn background_bytes(color: [f32; 3]) -> [u8; 3] {
    [
        (color[0].clamp(0.0, 1.0) * 255.0).round() as u8,
        (color[1].clamp(0.0, 1.0) * 255.0).round() as u8,
        (color[2].clamp(0.0, 1.0) * 255.0).round() as u8,
    ]
}

#[test]
fn fully_transparent_cell_has_no_trim() {
    let mut image = make_image(16, 8, [0, 0, 0, 0]);
    set_rect(&mut image, 8, 0, 8, 8, [255, 0, 0, 255]);

    let cells = compute_uniform_grid_trims(&image, 8, 8, background_bytes([0.0, 0.0, 0.0]));
    assert_eq!(cells.len(), 2);
    assert!(cells[0].trim.is_none());
    assert!(cells[1].trim.is_some());
}

#[test]
fn fully_background_cell_has_no_trim() {
    let background = [10, 20, 30, 255];
    let mut image = make_image(16, 8, background);
    set_rect(&mut image, 8, 0, 8, 8, [200, 200, 200, 255]);

    let cells = compute_uniform_grid_trims(&image, 8, 8, background_bytes([10.0 / 255.0, 20.0 / 255.0, 30.0 / 255.0]));
    assert_eq!(cells.len(), 2);
    assert!(cells[0].trim.is_none());
    assert!(cells[1].trim.is_some());
}

#[test]
fn alpha_path_trims_to_exact_bbox_of_opaque_pixels() {
    let mut image = make_image(16, 16, [0, 0, 0, 0]);
    set_rect(&mut image, 4, 6, 5, 3, [255, 255, 255, 255]);

    let cells = compute_uniform_grid_trims(&image, 16, 16, background_bytes([1.0, 0.0, 1.0]));
    let trim = cells[0].trim.expect("expected a trim rect");
    assert_eq!(trim.offset, (4, 6));
    assert_eq!(trim.size, (5, 3));
    assert_eq!(trim.original_size, (16, 16));
}

#[test]
fn background_distance_path_trims_to_exact_bbox_when_fully_opaque() {
    let background = [0, 0, 0, 255];
    let mut image = make_image(10, 10, background);
    set_rect(&mut image, 2, 3, 4, 5, [255, 255, 255, 255]);

    let cells = compute_uniform_grid_trims(&image, 10, 10, background_bytes([0.0, 0.0, 0.0]));
    let trim = cells[0].trim.expect("expected a trim rect");
    assert_eq!(trim.offset, (2, 3));
    assert_eq!(trim.size, (4, 5));
    assert_eq!(trim.original_size, (10, 10));
}

#[test]
fn shelf_pack_preview_avoids_overlaps_and_respects_row_width() {
    let dimensions = [(10, 20), (15, 10), (8, 8), (30, 5)];
    let rects = shelf_pack_preview(&dimensions, 25);

    assert_eq!(rects.len(), dimensions.len());
    for rect in &rects {
        assert!(rect.x + rect.width <= 30, "rect exceeds a sane bound: {rect:?}");
    }

    for (i, a) in rects.iter().enumerate() {
        for b in rects.iter().skip(i + 1) {
            let overlap_x = a.x < b.x + b.width && b.x < a.x + a.width;
            let overlap_y = a.y < b.y + b.height && b.y < a.y + a.height;
            assert!(!(overlap_x && overlap_y), "rects overlap: {a:?} vs {b:?}");
        }
    }
}

#[test]
fn shelf_pack_preview_places_tallest_first_on_shelves() {
    let dimensions = [(10, 20), (15, 10), (8, 8), (30, 5)];
    let rects = shelf_pack_preview(&dimensions, 25);
    // Tallest first: (10,20) at the origin, (15,10) beside it, (8,8) starts a new shelf.
    assert_eq!((rects[0].file_index, rects[0].x, rects[0].y), (0, 0, 0));
    assert_eq!((rects[1].file_index, rects[1].x, rects[1].y), (1, 10, 0));
    assert_eq!((rects[2].file_index, rects[2].x, rects[2].y), (2, 0, 20));
    assert_eq!((rects[3].file_index, rects[3].x, rects[3].y), (3, 0, 28));
}

/// Normalizes a resolved pixel rectangle by the texture size, as the renderer does.
fn uv_of(x: u64, y: u64, size: (u32, u32), texture: (u32, u32)) -> [f32; 4] {
    let w = texture.0.max(1) as f32;
    let h = texture.1.max(1) as f32;
    [x as f32 / w, y as f32 / h, size.0 as f32 / w, size.1 as f32 / h]
}

#[test]
fn file_source_resolves_to_full_uv_rect_unchanged() {
    let (x, y, effective, nominal) = cell_pixel_rect(PendingGridCell::Whole, 64, 32);
    assert_eq!(uv_of(x, y, effective, (64, 32)), [0.0, 0.0, 1.0, 1.0]);
    assert_eq!(effective, (64, 32));
    assert_eq!(nominal, (64, 32));
}

#[test]
fn grid_cell_resolves_to_normalized_trimmed_uv_rect() {
    let pending = PendingGridCell::Cell {
        cell_index: 1,
        cell_width: 32,
        cell_height: 32,
        origin_x: 0,
        origin_y: 0,
        trim: Some(CellTrim { offset: (4, 2), size: (20, 24), original_size: (32, 32), manual: false }),
    };

    let (x, y, effective, nominal) = cell_pixel_rect(pending, 64, 32);
    let uv_rect = uv_of(x, y, effective, (64, 32));
    assert_eq!(effective, (20, 24));
    assert_eq!(nominal, (32, 32));
    assert!((uv_rect[0] - 36.0 / 64.0).abs() < 1e-6);
    assert!((uv_rect[1] - 2.0 / 32.0).abs() < 1e-6);
    assert!((uv_rect[2] - 20.0 / 64.0).abs() < 1e-6);
    assert!((uv_rect[3] - 24.0 / 32.0).abs() < 1e-6);
}

#[test]
fn grid_cell_resolves_uv_rect_with_grid_origin_offset() {
    let pending = PendingGridCell::Cell {
        cell_index: 1,
        cell_width: 32,
        cell_height: 32,
        origin_x: 8,
        origin_y: 0,
        trim: None,
    };

    let (x, y, effective, nominal) = cell_pixel_rect(pending, 72, 32);
    let uv_rect = uv_of(x, y, effective, (72, 32));
    assert_eq!(effective, (32, 32));
    assert_eq!(nominal, (32, 32));
    assert!((uv_rect[0] - 40.0 / 72.0).abs() < 1e-6);
    assert!((uv_rect[1] - 0.0).abs() < 1e-6);
}

#[test]
fn sheet_cell_on_uniform_grid_resolves_texture_and_pending_cell() {
    let sheet = TextureSheet::new_uniform_grid(UniformGridSheet {
        texture: AssetRef::game("textures/sheet.png".to_string()),
        cell_width: 16,
        cell_height: 16,
        origin_x: 0,
        origin_y: 0,
        cells: vec![
            GridCell { trim: None },
            GridCell { trim: Some(CellTrim { offset: (1, 1), size: (14, 14), original_size: (16, 16), manual: false }) },
        ],
    });
    let source = TextureSource::SheetCell { sheet_path: "test.texturesheet.json".to_string(), cell_id: CellId(1) };

    let (asset_ref, pending) = resolve_texture_source(&source, Some(&sheet));
    assert_eq!(asset_ref, AssetRef::game("textures/sheet.png".to_string()));
    let PendingGridCell::Cell { cell_index, cell_width, cell_height, trim, .. } = pending else {
        panic!("expected a resolved grid cell");
    };
    assert_eq!(cell_index, 1);
    assert_eq!(cell_width, 16);
    assert_eq!(cell_height, 16);
    assert_eq!(trim.unwrap().offset, (1, 1));
}

#[test]
fn sheet_cell_on_auto_pack_resolves_to_the_files_own_asset_ref() {
    let sheet = TextureSheet::new_auto_pack(AutoPackSheet {
        files: vec![AssetRef::game("a.png".to_string()), AssetRef::game("b.png".to_string())],
    });
    let source = TextureSource::SheetCell { sheet_path: "palette.texturesheet.json".to_string(), cell_id: CellId(1) };

    let (asset_ref, pending) = resolve_texture_source(&source, Some(&sheet));
    assert_eq!(asset_ref, AssetRef::game("b.png".to_string()));
    assert!(matches!(pending, PendingGridCell::Whole));
}

#[test]
fn missing_sheet_resolves_to_empty_game_path() {
    let source = TextureSource::SheetCell { sheet_path: "missing.texturesheet.json".to_string(), cell_id: CellId(0) };
    let (asset_ref, pending) = resolve_texture_source(&source, None);
    assert_eq!(asset_ref.source, AssetSource::Game);
    assert_eq!(asset_ref.path, "");
    assert!(matches!(pending, PendingGridCell::Whole));
}

#[test]
fn grid_cells_are_picked_row_major() {
    assert_eq!(zeroengine::sheet::pick_uniform_grid_cell(0, 0, 16, 16, 4, 2), Some(0));
    assert_eq!(zeroengine::sheet::pick_uniform_grid_cell(17, 0, 16, 16, 4, 2), Some(1));
    assert_eq!(zeroengine::sheet::pick_uniform_grid_cell(5, 20, 16, 16, 4, 2), Some(4));
    assert_eq!(zeroengine::sheet::pick_uniform_grid_cell(64, 0, 16, 16, 4, 2), None);
    assert_eq!(zeroengine::sheet::pick_uniform_grid_cell(0, 32, 16, 16, 4, 2), None);
    assert_eq!(zeroengine::sheet::pick_uniform_grid_cell(3, 1, 0, 0, 4, 2), Some(7));
}

#[test]
fn asset_pickers_list_matching_files_sorted() {
    let files = vec![
        "/game/assets/walk.animationclip.json".to_string(),
        "/game/assets/anims/idle.animationclip.json".to_string(),
        "/game/assets/readme.txt".to_string(),
        "/elsewhere/run.animationclip.json".to_string(),
    ];
    assert_eq!(
        zeroengine::workspace::scan_assets_with_extension("/game/assets", &files, "animationclip.json"),
        vec!["anims/idle.animationclip.json", "walk.animationclip.json"]
    );
}
