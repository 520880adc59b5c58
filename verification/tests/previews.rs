use transcript_workspace::image_previews::{preview_image_id, LocalImagePreviewDraw};
use transcript_workspace::local_previews::{placement_bytes, preview_png, same_draw, LocalImagePreviewState, PreviewImageError};
use transcript_workspace::pets::{kitty_delete_image, local_file_image_previews_supported, ImageProtocol, PetImageSupport};

fn request(image_id: u32, path: &str, y: u16) -> LocalImagePreviewDraw {
    LocalImagePreviewDraw { image_id, path: path.to_string(), x: 2, y, columns: 16, rows: 6 }
}

#[test]
fn local_input_preview_references_the_file_and_skips_unchanged_requests() {
    let mut state = LocalImagePreviewState::new();
    let first = request(0xC100_0000, "/tmp/input.png", 3);

    let plan = state.plan(&vec![first.clone()]);
    assert!(plan.removed.is_empty());
    assert_eq!(plan.draws.len(), 1);
    assert!(same_draw(&plan.draws[0], &first));
    state.record(plan.draws[0].clone(), None);

    let plan = state.plan(&vec![first]);
    assert!(plan.removed.is_empty());
    assert!(plan.draws.is_empty());
}

#[test]
fn previews_no_longer_requested_are_deleted_in_id_order() {
    let mut state = LocalImagePreviewState::new();
    for (id, y) in [(0xC100_0011u32, 20u16), (0xC100_0001, 3), (0xC100_0010, 12)] {
        state.record(request(id, "/tmp/x.png", y), Some(format!("/tmp/preview-{id}.png")));
    }

    let plan = state.plan(&vec![request(0xC100_0010, "/tmp/x.png", 12)]);

    assert_eq!(plan.removed, vec![0xC100_0001, 0xC100_0011]);
    assert!(plan.draws.is_empty());
    assert_eq!(state.forget(0xC100_0001), Some(Some("/tmp/preview-3238002689.png".to_string())));
    assert_eq!(state.forget(0xC100_0001), None);
}

#[test]
fn moved_previews_are_drawn_again_and_duplicates_keep_the_last_request() {
    let mut state = LocalImagePreviewState::new();
    state.record(request(0xC100_0000, "/tmp/a.png", 3), None);

    let plan = state.plan(&vec![
        request(0xC100_0002, "/tmp/c.png", 30),
        request(0xC100_0000, "/tmp/a.png", 4),
        request(0xC100_0002, "/tmp/c.png", 31),
    ]);

    assert!(plan.removed.is_empty());
    assert_eq!(plan.draws.len(), 2);
    assert_eq!((plan.draws[0].image_id, plan.draws[0].y), (0xC100_0000, 4));
    assert_eq!((plan.draws[1].image_id, plan.draws[1].y), (0xC100_0002, 31));
}

#[test]
fn preview_image_ids_give_each_cell_sixteen_ids() {
    assert_eq!(preview_image_id(0, 0), 0xC100_0000);
    assert_eq!(preview_image_id(2, 3), 0xC100_0023);
    assert_eq!(preview_image_id(usize::MAX, 1), u32::MAX);
}

#[test]
fn kitty_delete_command_names_the_image() {
    assert_eq!(kitty_delete_image(3238002688), b"\x1b_Ga=d,d=I,i=3238002688,q=2;\x1b\\".to_vec());
    assert_eq!(kitty_delete_image(0), b"\x1b_Ga=d,d=I,i=0,q=2;\x1b\\".to_vec());
}

#[test]
fn only_kitty_local_files_support_input_previews() {
    assert!(local_file_image_previews_supported(PetImageSupport::Supported(ImageProtocol::KittyLocalFile)));
    assert!(!local_file_image_previews_supported(PetImageSupport::Supported(ImageProtocol::Kitty)));
    assert!(!local_file_image_previews_supported(PetImageSupport::Unsupported));
}

#[test]
fn a_preview_is_placed_between_a_cursor_save_and_restore() {
    let bytes = placement_bytes(&request(0xC100_0000, "/tmp/input.png", 3), &b"PAYLOAD".to_vec());
    assert_eq!(bytes, b"\x1b7\x1b[4;3HPAYLOAD\x1b8".to_vec());
}

#[test]
fn only_a_preview_on_screen_is_deleted_before_it_is_drawn_again() {
    let mut state = LocalImagePreviewState::new();
    assert!(state.delete_before_redraw(0xC100_0000).is_empty());
    state.record(request(0xC100_0000, "/tmp/input.png", 3), None);
    assert_eq!(state.delete_before_redraw(0xC100_0000), kitty_delete_image(0xC100_0000));
    assert!(state.delete_before_redraw(0xC100_0001).is_empty());
}

fn encoded(format: image::ImageFormat) -> Vec<u8> {
    let image = image::DynamicImage::new_rgb8(4, 3);
    let mut out = Vec::new();
    image.write_to(std::io::Cursor::new(&mut out), format).expect("encode");
    out
}

#[test]
fn png_previews_use_the_file_and_jpegs_become_png_thumbnails() {
    assert_eq!(preview_png(&encoded(image::ImageFormat::Png)), Ok(None));

    let converted = preview_png(&encoded(image::ImageFormat::Jpeg)).expect("convertible").expect("thumbnail");
    assert!(converted.starts_with(b"\x89PNG\r\n\x1a\n"));
    let thumbnail = image::load_from_memory(&converted).expect("decodes");
    assert_eq!((thumbnail.width(), thumbnail.height()), (1024, 768));

    assert_eq!(preview_png(b"not an image"), Err(PreviewImageError::Dimensions));
}
