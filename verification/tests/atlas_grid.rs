use bevy_tinkerbox_editor::atlas_grid::{GridArgFieldKey, GridArgs, TextureAtlasLayout, URect, UVec2};

fn rect(x0: u32, y0: u32, x1: u32, y1: u32) -> URect {
    URect { min: UVec2::new(x0, y0), max: UVec2::new(x1, y1) }
}

#[test]
fn round_trip() {
    let gargs = GridArgs {
        cell_size: UVec2::splat(32),
        rows: 2,
        columns: 6,
        padding: UVec2::splat(1),
        offset: UVec2::zero(),
    };
    let layout: TextureAtlasLayout = gargs.into_layout();
    let gargs2: GridArgs = layout.into();
    assert_eq!(gargs, gargs2);
}

#[test]
fn round_trip_less_happy() {
    let gargs = GridArgs {
        cell_size: UVec2::splat(32),
        rows: 2,
        columns: 6,
        padding: UVec2::splat(1),
        offset: UVec2::splat(2),
    };
    let layout: TextureAtlasLayout = gargs.into_layout();
    let gargs2: GridArgs = layout.into();
    assert_eq!(gargs, gargs2);
}

#[test]
fn gigo() {
    let gargs = GridArgs {
        cell_size: UVec2::splat(32),
        rows: 2,
        columns: 6,
        padding: UVec2::splat(1),
        offset: UVec2::zero(),
    };
    let mut layout: TextureAtlasLayout = gargs.into_layout();
    layout.add_texture(URect::from_corners(UVec2::zero(), UVec2::splat(24)));
    let gargs2: GridArgs = layout.into();
    assert_eq!(GridArgs::default(), gargs2);
}

#[test]
fn default_grid_is_one_pixel_cell() {
    let g = GridArgs::default();
    assert_eq!(g.cell_size, UVec2::splat(1));
    assert_eq!((g.rows, g.columns), (1, 1));
    assert_eq!(g.padding, UVec2::zero());
    assert_eq!(g.offset, UVec2::zero());
}

#[test]
fn grid_layout_places_cells_row_by_row() {
    let g = GridArgs {
        cell_size: UVec2::splat(10),
        rows: 2,
        columns: 2,
        padding: UVec2::new(1, 2),
        offset: UVec2::new(3, 4),
    };
    let layout = g.into_layout();
    assert_eq!(
        layout.textures,
        vec![
            rect(3, 4, 13, 14),
            rect(14, 4, 24, 14),
            rect(3, 16, 13, 26),
            rect(14, 16, 24, 26),
        ]
    );
    assert_eq!(layout.size, UVec2::new(21, 22));
}

#[test]
fn single_row_ignores_vertical_padding_in_size() {
    let g = GridArgs {
        cell_size: UVec2::new(8, 6),
        rows: 1,
        columns: 3,
        padding: UVec2::new(2, 5),
        offset: UVec2::zero(),
    };
    let layout = g.into_layout();
    assert_eq!(layout.textures.len(), 3);
    assert_eq!(layout.size, UVec2::new(28, 6));
    assert_eq!(GridArgs::from_layout(&layout).columns, 3);
}

#[test]
fn empty_layout_reads_as_default() {
    let layout = TextureAtlasLayout { size: UVec2::zero(), textures: Vec::new() };
    assert_eq!(GridArgs::from_layout(&layout), GridArgs::default());
}

#[test]
fn single_rectangle_is_a_one_cell_grid() {
    let layout = TextureAtlasLayout { size: UVec2::new(50, 50), textures: vec![rect(5, 7, 25, 17)] };
    let g = GridArgs::from_layout(&layout);
    assert_eq!(g.cell_size, UVec2::new(20, 10));
    assert_eq!(g.offset, UVec2::new(5, 7));
    assert_eq!((g.rows, g.columns), (1, 1));
    assert_eq!(g.padding, UVec2::zero());
}

#[test]
fn disagreeing_gaps_read_as_default() {
    let layout = TextureAtlasLayout {
        size: UVec2::new(100, 10),
        textures: vec![rect(0, 0, 10, 10), rect(11, 0, 21, 10), rect(24, 0, 34, 10)],
    };
    assert_eq!(GridArgs::from_layout(&layout), GridArgs::default());
}

#[test]
fn round_trip_with_offset_and_uneven_padding() {
    let g = GridArgs {
        cell_size: UVec2::new(16, 9),
        rows: 3,
        columns: 4,
        padding: UVec2::new(2, 3),
        offset: UVec2::new(5, 1),
    };
    let back = GridArgs::from(g.into_layout());
    assert_eq!(back, g);
}

#[test]
fn corners_are_ordered() {
    let r = URect::from_corners(UVec2::new(9, 2), UVec2::new(3, 7));
    assert_eq!(r, rect(3, 2, 9, 7));
}

#[test]
fn add_texture_returns_index() {
    let mut layout = TextureAtlasLayout { size: UVec2::zero(), textures: vec![rect(0, 0, 1, 1)] };
    let i = layout.add_texture(rect(1, 1, 2, 2));
    assert_eq!(i, 1);
    assert_eq!(layout.textures.len(), 2);
}

#[test]
fn form_field_reads_back_what_was_written() {
    let g = GridArgs::default();
    let h = g.with_field(GridArgFieldKey::PaddingY, 7);
    assert_eq!(h.field(GridArgFieldKey::PaddingY), 7);
    assert_eq!(h.field(GridArgFieldKey::PaddingX), 0);
    assert_eq!(h.field(GridArgFieldKey::NumRows), 1);
    let k = h.with_field(GridArgFieldKey::NumColumns, 4);
    assert_eq!(k.columns, 4);
    assert_eq!(k.padding.y, 7);
    assert_eq!(g.with_field(GridArgFieldKey::CellSizeX, g.field(GridArgFieldKey::CellSizeX)), g);
}

#[test]
fn partial_grid_reads_as_whole_grid() {
    let g = GridArgs {
        cell_size: UVec2::splat(8),
        rows: 2,
        columns: 3,
        padding: UVec2::zero(),
        offset: UVec2::zero(),
    };
    let mut layout = g.into_layout();
    layout.textures.pop();
    assert_eq!(layout.textures.len(), 5);
    assert_eq!(GridArgs::from_layout(&layout), g);
}

#[test]
fn fitting_grids() {
    assert!(GridArgs::default().fits());
    let big = GridArgs {
        cell_size: UVec2::splat(u32::MAX / 2),
        rows: 1,
        columns: 2,
        padding: UVec2::splat(2),
        offset: UVec2::zero(),
    };
    assert!(!big.fits());
    let edge = GridArgs {
        cell_size: UVec2::splat(10),
        rows: 1,
        columns: 1,
        padding: UVec2::splat(7),
        offset: UVec2::splat(u32::MAX - 10),
    };
    assert!(edge.fits());
    let over = GridArgs { offset: UVec2::splat(u32::MAX - 9), ..edge };
    assert!(!over.fits());
}
