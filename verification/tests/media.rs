use locoryn::image_editing::{
    check_input_dimensions, conversation_images, crop_filter, dimensions, encoded_size_ok,
    image_bytes, output_size, resize_filter, threshold_filter, ChatImage, EncodedImage,
    ImageSession, ImageToolCall, MAX_CALLS,
};
use locoryn::live_markdown::{check_display_image, embedded_image_bytes};

fn image(data: &str) -> EncodedImage {
    EncodedImage { mime_type: "image/png".into(), data: data.into() }
}

#[test]
fn image_edits_validate_bounds_and_reject_commands_and_paths() {
    assert!(crop_filter(11, 0, 2, 2, 12, 8).is_err());
    assert!(crop_filter(4294967295, 0, 2, 2, 12, 8).is_err());
    assert!(resize_filter(0, 2).is_err());
    assert!(resize_filter(4096, 4096).is_err());
    assert_eq!(crop_filter(1, 2, 3, 4, 12, 8).unwrap(), "crop=3:4:1:2:exact=1");
    assert_eq!(resize_filter(640, 480).unwrap(), "scale=640:480:flags=lanczos");
    assert_eq!(threshold_filter(None), "format=gray,lut=y='if(gte(val,128),255,0)'");
}

#[test]
fn image_sizes_are_bounded() {
    assert!(output_size(4096, 3906).is_ok());
    assert!(output_size(4096, 3907).is_err());
    assert!(output_size(0, 1).is_err());
    assert_eq!(check_input_dimensions(16384, 1953).unwrap(), (16384, 1953));
    assert!(check_input_dimensions(16384, 1954).is_err());
    assert!(check_input_dimensions(16385, 1).is_err());
    assert!(encoded_size_ok(16_777_220));
    assert!(!encoded_size_ok(16_777_221));
}

#[test]
fn image_session_chains_edits_and_enforces_turn_scope_and_budget() {
    let mut session = ImageSession::new(vec![image("first")]);
    assert_eq!(session.resolve_image_id("image-1").unwrap(), 0);
    assert!(session.resolve_image_id("image-2").is_err());
    assert!(session.resolve_image_id("image-0").is_err());
    assert!(session.resolve_image_id("picture-1").is_err());
    assert_eq!(session.record_edit(image("edited")).unwrap(), "image-2");
    assert_eq!(session.resolve_image_id("image-2").unwrap(), 1);
    for _ in 0..MAX_CALLS {
        assert!(session.take_call().is_ok());
    }
    assert!(!session.has_capacity());
    assert!(session.take_call().is_err());
    let huge = "x".repeat(33_554_432);
    assert!(session.record_edit(image(&huge)).is_err());
    assert_eq!(session.images.len(), 2);
}

fn png(width: u32, height: u32) -> Vec<u8> {
    let pixels = image::RgbImage::from_pixel(width, height, image::Rgb([10, 20, 30]));
    let mut bytes = std::io::Cursor::new(Vec::new());
    image::DynamicImage::ImageRgb8(pixels)
        .write_to(&mut bytes, image::ImageFormat::Png)
        .unwrap();
    bytes.into_inner()
}

fn encoded_png(width: u32, height: u32) -> EncodedImage {
    EncodedImage {
        mime_type: "image/png".into(),
        data: base64::Engine::encode(&base64::engine::general_purpose::STANDARD, png(width, height)),
    }
}

#[test]
fn image_data_is_decoded_and_measured() {
    let bytes = image_bytes(&encoded_png(12, 8)).unwrap();
    assert_eq!(bytes, png(12, 8));
    assert_eq!(dimensions(&bytes).unwrap(), (12, 8));
    assert_eq!(image_bytes(&image("not base64!")).unwrap_err(), "Invalid image encoding.");
    assert!(dimensions(b"plain text").is_err());
}

#[test]
fn list_images_reports_ids_origins_and_sizes() {
    let mut session = ImageSession::new(vec![encoded_png(12, 8), image("@@@")]);
    assert_eq!(session.begin_call("list_images", true).unwrap(), ImageToolCall::ListImages);
    let entries = session.list_image_entries();
    assert_eq!(entries.len(), 2);
    assert_eq!(entries[0].image_id, "image-1");
    assert!(entries[0].original);
    assert_eq!(entries[0].size, Ok((12, 8)));
    assert_eq!(entries[1].image_id, "image-2");
    assert_eq!(entries[1].size, Err("Invalid image encoding.".to_string()));
}

#[test]
fn image_calls_are_dispatched_and_counted() {
    let mut session = ImageSession::new(Vec::new());
    assert_eq!(
        session.begin_call("list_images", false).unwrap_err(),
        "list_images takes an empty arguments object."
    );
    assert_eq!(
        session.begin_call("edit_image", true).unwrap_err(),
        "No images are available. Ask the user to attach an image to edit."
    );
    assert_eq!(session.begin_call("blur", true).unwrap_err(), "Unknown image tool.");
    assert_eq!(session.calls, 3);
    let mut session = ImageSession::new(vec![encoded_png(2, 2)]);
    assert_eq!(session.begin_call("edit_image", false).unwrap(), ImageToolCall::EditImage);
    for _ in 1..8 {
        assert!(session.begin_call("list_images", true).is_ok());
    }
    assert_eq!(
        session.begin_call("list_images", true).unwrap_err(),
        "Image tool call limit reached for this response."
    );
}

#[test]
fn the_latest_message_with_images_is_used() {
    let attached = |bytes: &[u8]| ChatImage { mime_type: "image/png".into(), bytes: bytes.to_vec() };
    let messages = vec![vec![attached(b"old")], Vec::new(), vec![attached(b"new"), attached(b"two")], Vec::new()];
    let images = conversation_images(&messages, true);
    assert_eq!(images.len(), 2);
    assert_eq!(images[0].data, "bmV3");
    assert_eq!(images[1].data, "dHdv");
    assert_eq!(images[0].mime_type, "image/png");
    assert!(conversation_images(&messages, false).is_empty());
    assert_eq!(conversation_images(&messages[..3], false)[0].data, "bmV3");
    assert!(conversation_images(&[], true).is_empty());
}

#[test]
fn embedded_markdown_images_must_be_base64() {
    assert!(embedded_image_bytes("https://example.com/a.png").is_none());
    assert_eq!(
        embedded_image_bytes("data:image/png;base64").unwrap().unwrap_err(),
        "Malformed embedded image."
    );
    assert_eq!(
        embedded_image_bytes("data:image/svg+xml;utf8,<svg/>").unwrap().unwrap_err(),
        "Only base64 embedded images are supported."
    );
    assert_eq!(embedded_image_bytes("data:image/png;BASE64,aGk=").unwrap().unwrap(), b"hi".to_vec());
    assert!(embedded_image_bytes("data:image/png;base64,@@")
        .unwrap()
        .unwrap_err()
        .starts_with("Could not decode embedded image: "));
}

#[test]
fn displayed_images_are_bounded() {
    assert!(check_display_image(&png(4, 4)).is_ok());
    assert!(check_display_image(b"nope").unwrap_err().starts_with("Unsupported image: "));
    assert_eq!(
        check_display_image(&vec![0u8; 12 * 1024 * 1024 + 1]).unwrap_err(),
        "Image is larger than the 12 MB display limit."
    );
}

#[test]
fn every_image_call_uses_one_of_the_eight_calls_whatever_its_outcome() {
    let mut session = ImageSession::new(Vec::new());
    let names = ["list_images", "edit_image", "blur", "list_images", "edit_image", "x", "list_images", "y"];
    for (n, name) in names.iter().enumerate() {
        assert!(session.has_capacity(), "call {n} should still be allowed");
        let _ = session.begin_call(name, n % 2 == 0);
    }
    assert!(!session.has_capacity());
    assert!(session.begin_call("list_images", true).is_err());
    assert!(!session.has_capacity());
}
