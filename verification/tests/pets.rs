use transcript_workspace::pets::{
    render_ambient_pet_image, render_pet_picker_preview_image, AmbientPetDraw, ImageProtocol,
    PetImageErrorSource, PetImageRenderError, PetImageRenderState, SixelClearArea, TerminalWriter,
};

struct FailingWriter;

impl TerminalWriter for FailingWriter {
    fn write_all(&mut self, _bytes: &[u8]) -> Result<(), std::io::Error> {
        Err(std::io::Error::new(
            std::io::ErrorKind::BrokenPipe,
            "test writer failed",
        ))
    }

    fn flush(&mut self) -> Result<(), std::io::Error> {
        Ok(())
    }
}

fn kitty_request(protocol: ImageProtocol, rows: u16) -> AmbientPetDraw {
    AmbientPetDraw {
        protocol,
        x: 2,
        y: 3,
        clear_top_y: 3,
        columns: 4,
        rows,
        height_px: 75,
    }
}

fn sixel_request() -> AmbientPetDraw {
    AmbientPetDraw {
        protocol: ImageProtocol::Sixel,
        x: 2,
        y: 3,
        clear_top_y: 1,
        columns: 4,
        rows: 2,
        height_px: 75,
    }
}

/// The Kitty payload a frame file `frame.png` holding the bytes `png` is sent as.
fn inline_png_payload() -> Vec<u8> {
    b"\x1b_Ga=T,f=100,c=4,r=5,q=2,i=49374;cG5n\x1b\\".to_vec()
}

#[test]
fn writer_failure_is_a_terminal_error() {
    let mut writer = FailingWriter;
    let mut state = PetImageRenderState {
        last_protocol: Some(ImageProtocol::Kitty),
        ..Default::default()
    };

    let err = render_ambient_pet_image(&mut writer, &mut state, None, Ok(Vec::new())).unwrap_err();

    assert!(matches!(err, PetImageRenderError::Terminal(_)));
    assert!(err.source().is_some());
}

#[test]
fn ambient_pet_image_restores_cursor_after_drawing() {
    let request = kitty_request(ImageProtocol::Kitty, 5);
    let mut output: Vec<u8> = Vec::new();
    let mut state = PetImageRenderState::default();

    render_ambient_pet_image(&mut output, &mut state, Some(request), Ok(inline_png_payload())).unwrap();

    let output = String::from_utf8(output).unwrap();
    let save = output.find("\x1b7").expect("saves cursor position");
    let move_to = output.find("\x1b[4;3H").expect("moves to pet position");
    let image = output.find("cG5n").expect("writes image payload");
    let restore = output.find("\x1b8").expect("restores cursor position");
    assert!(save < move_to);
    assert!(move_to < image);
    assert!(image < restore);
}

#[test]
fn kitty_pet_image_clear_deletes_without_moving_cursor() {
    let request = kitty_request(ImageProtocol::Kitty, 5);
    let mut output: Vec<u8> = Vec::new();
    let mut state = PetImageRenderState::default();

    render_ambient_pet_image(&mut output, &mut state, Some(request), Ok(inline_png_payload())).unwrap();
    output.clear();
    render_ambient_pet_image(&mut output, &mut state, None, Ok(Vec::new())).unwrap();

    let output = String::from_utf8(output).unwrap();
    assert!(output.contains("Ga=d,d=I,i=49374,q=2;"));
    assert!(!output.contains("\x1b7"));
    assert!(!output.contains("\x1b["));
    assert!(!output.contains("\x1b8"));
}

#[test]
fn kitty_local_file_pet_image_uses_file_reference_without_inline_payload() {
    let request = kitty_request(ImageProtocol::KittyLocalFile, 2);
    let mut output: Vec<u8> = Vec::new();
    let mut state = PetImageRenderState::default();
    let payload = b"\x1b_Ga=T,t=f,f=100,c=4,r=2,q=2,i=49374;L3RtcC9mcmFtZS5wbmc=\x1b\\".to_vec();

    render_ambient_pet_image(&mut output, &mut state, Some(request), Ok(payload)).unwrap();

    let output = String::from_utf8(output).unwrap();
    assert!(output.contains("a=d,d=I,i=49374,q=2;"));
    assert!(output.contains("\x1b[4;3H"));
    assert!(output.contains("a=T,t=f,f=100,c=4,r=2,q=2,i=49374;"));
    assert!(!output.contains("cG5n"));
    assert!(output.contains("\x1b8"));
}

#[test]
fn sixel_pet_image_clears_cell_area_before_redrawing() {
    let mut output: Vec<u8> = Vec::new();
    let mut state = PetImageRenderState::default();

    render_ambient_pet_image(&mut output, &mut state, Some(sixel_request()), Ok(b"fake-sixel".to_vec()))
        .unwrap();

    let output = String::from_utf8(output).unwrap();
    assert!(output.contains("\x1b[2;3H    \x1b[3;3H    \x1b[4;3H    \x1b[5;3H    \x1b[4;3H"));
    assert!(output.contains("fake-sixel"));
    assert!(output.contains("\x1b8"));
    assert_eq!(
        state.last_sixel_clear_area,
        Some(SixelClearArea { x: 2, clear_top_y: 1, clear_bottom_y: 5, columns: 4 })
    );
}

#[test]
fn sixel_pet_image_clear_erases_last_drawn_area() {
    let mut output: Vec<u8> = Vec::new();
    let mut state = PetImageRenderState::default();

    render_ambient_pet_image(&mut output, &mut state, Some(sixel_request()), Ok(b"fake-sixel".to_vec()))
        .unwrap();
    output.clear();
    render_ambient_pet_image(&mut output, &mut state, None, Ok(Vec::new())).unwrap();

    let output = String::from_utf8(output).unwrap();
    assert!(!output.contains("Ga=d,d=I,i=49374,q=2;"));
    assert!(output.contains("\x1b7"));
    assert!(output.contains("\x1b[2;3H    \x1b[3;3H    \x1b[4;3H    \x1b[5;3H    "));
    assert!(output.contains("\x1b8"));
    assert!(!output.contains("fake-sixel"));
    assert_eq!(state.last_sixel_clear_area, None);
    assert_eq!(state.last_protocol, None);
}

#[test]
fn missing_frame_is_an_asset_error() {
    let request = kitty_request(ImageProtocol::Kitty, 5);
    let mut output: Vec<u8> = Vec::new();
    let mut state = PetImageRenderState::default();

    let err = render_ambient_pet_image(
        &mut output,
        &mut state,
        Some(request),
        Err(anyhow::Error::msg("read missing.png")),
    )
    .unwrap_err();

    assert!(matches!(err, PetImageRenderError::Asset(_)));
    assert!(err.source().is_some());
    assert!(matches!(err.source(), Some(PetImageErrorSource::Asset(_))));
    // The previous placement was deleted and the new protocol remembered before the frame was read.
    assert_eq!(state.last_protocol, Some(ImageProtocol::Kitty));
    assert!(String::from_utf8(output).unwrap().contains("a=d,d=I,i=49374,q=2;"));
}

#[test]
fn picker_preview_uses_its_own_image_id() {
    let mut output: Vec<u8> = Vec::new();
    let mut state = PetImageRenderState {
        last_protocol: Some(ImageProtocol::Kitty),
        ..Default::default()
    };

    render_pet_picker_preview_image(&mut output, &mut state, None, Ok(Vec::new())).unwrap();

    let output = String::from_utf8(output).unwrap();
    assert_eq!(output, "\x1b_Ga=d,d=I,i=49375,q=2;\x1b\\");
}

#[test]
fn sixel_frame_at_the_same_place_is_cleared_once() {
    let mut output: Vec<u8> = Vec::new();
    let mut state = PetImageRenderState::default();
    render_ambient_pet_image(&mut output, &mut state, Some(sixel_request()), Ok(b"one".to_vec())).unwrap();
    output.clear();

    render_ambient_pet_image(&mut output, &mut state, Some(sixel_request()), Ok(b"two".to_vec())).unwrap();

    let output = String::from_utf8(output).unwrap();
    assert_eq!(output.matches("\x1b[2;3H    ").count(), 1);
    assert!(output.ends_with("\x1b[4;3Htwo\x1b8"));
}
