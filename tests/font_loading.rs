use bevy_doryen::font::{
    atlas_geometry, cell_size_from_name, Font, FontError, FontGeometry, FontLoader, FontState,
};

fn geometry(fw: u32, fh: u32, cw: u32, ch: u32) -> FontGeometry {
    FontGeometry { font_width: fw, font_height: fh, char_width: cw, char_height: ch }
}

#[test]
fn derived_cell_size_is_a_sixteenth() {
    let mut state = FontState::Unloaded;
    state.request_load(7);
    assert_eq!(state, FontState::Loading(7));
    let font = Font::new_from_rgba(128, 128, vec![0; 128 * 128 * 4]);
    assert_eq!(state.asset_ready(&font), Ok(geometry(128, 128, 8, 8)));
    assert_eq!(state, FontState::Loaded(geometry(128, 128, 8, 8)));
    assert!(state.can_draw());
}

#[test]
fn explicit_cell_size_wins() {
    for (w, h) in [(128, 128), (100, 37), (16, 16)] {
        let mut state = FontState::Loading(1);
        let mut font = Font::new_from_rgba(w, h, Vec::new());
        font.cell_size = Some((10, 12));
        assert_eq!(state.asset_ready(&font), Ok(geometry(w, h, 10, 12)));
    }
}

#[test]
fn uneven_atlas_is_rejected_and_stays_loading() {
    let mut state = FontState::Loading(3);
    let font = Font::new_from_rgba(100, 128, Vec::new());
    assert_eq!(state.asset_ready(&font), Err(FontError::UnevenAtlas));
    assert_eq!(state, FontState::Loading(3));
    assert!(!state.can_draw());
    assert_eq!(atlas_geometry(128, 120, None), Err(FontError::UnevenAtlas));
}

#[test]
fn asset_ready_without_a_load_is_refused() {
    let mut state = FontState::Unloaded;
    let font = Font::new_from_rgba(128, 128, Vec::new());
    assert_eq!(state.asset_ready(&font), Err(FontError::NotLoading));
    assert_eq!(state, FontState::Unloaded);
    let mut loaded = FontState::Loaded(geometry(128, 128, 8, 8));
    assert_eq!(loaded.asset_ready(&font), Err(FontError::NotLoading));
    assert_eq!(loaded.loading_handle(), None);
}

#[test]
fn zero_sized_geometry_is_not_drawable() {
    let state = FontState::Loaded(geometry(0, 0, 0, 0));
    assert!(!state.can_draw());
    assert!(!FontState::Unloaded.can_draw());
}

#[test]
fn cell_size_read_from_file_name() {
    assert_eq!(cell_size_from_name("terminal_8x8.png"), Some((8, 8)));
    assert_eq!(cell_size_from_name("fonts/my_font_10x12.png"), Some((10, 12)));
    assert_eq!(cell_size_from_name("terminal.png"), None);
    assert_eq!(cell_size_from_name("terminal_8x8"), None);
    assert_eq!(cell_size_from_name("terminal_8y8.png"), None);
    assert_eq!(cell_size_from_name("terminal_0x8.png"), None);
    assert_eq!(cell_size_from_name("terminal_x8.png"), None);
    assert_eq!(cell_size_from_name("terminal_99999999999x8.png"), None);
    assert_eq!(cell_size_from_name("terminal_4294967295x1.png"), Some((4294967295, 1)));
    assert_eq!(cell_size_from_name("_8x8.png"), None);
}

#[test]
fn loader_takes_size_from_path() {
    let loader = FontLoader;
    assert_eq!(loader.extensions(), vec!["png"]);
    let font = loader.load("terminal_10x12.png", 160, 192, vec![1, 2, 3, 4]);
    assert_eq!((font.width, font.height, font.cell_size), (160, 192, Some((10, 12))));
    assert_eq!(font.pixels, vec![1, 2, 3, 4]);
    let mut state = FontState::Loading(0);
    assert_eq!(state.asset_ready(&font), Ok(geometry(160, 192, 10, 12)));
}
