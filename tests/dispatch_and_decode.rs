use std::io::Cursor;

use pc_receiver::decode::{
    expand_rgb, from_general_stage, from_jpeg_stage, rgba_from_general, rgba_from_jpeg, ClipboardImage, DispatchError,
};
use pc_receiver::dispatch::{dispatch, parse_action, Effect};
use pc_receiver::payload::{ClipboardPayload, Payload, PhotoPayload, SmsPayload};
use pc_receiver::registry::NotificationRegistry;
use pc_receiver::toast::ActionKind;

#[test]
fn save_hands_back_the_original_bytes() {
    let bytes = vec![0x89, 0x50, 0x4e, 0x47, 0, 255, 7];
    let p = Payload::Photo(PhotoPayload { bytes: bytes.clone() });
    match dispatch(&p, "save") {
        Effect::SaveBytes(b) => assert_eq!(b, bytes),
        _ => panic!("expected a save"),
    }
    match dispatch(&p, "copy") {
        Effect::CopyImage(b) => assert_eq!(b, bytes),
        _ => panic!("expected an image copy"),
    }
}

#[test]
fn text_actions_copy_the_designated_text() {
    let p = Payload::Sms(SmsPayload {
        sender: "s".to_string(),
        content: "full text".to_string(),
        code: "9876".to_string(),
    });
    assert!(matches!(dispatch(&p, "copy_content"), Effect::CopyText(t) if t == "full text"));
    assert!(matches!(dispatch(&p, "copy_code"), Effect::CopyText(t) if t == "9876"));
    assert!(matches!(dispatch(&p, "save"), Effect::Nothing));
    let c = Payload::Clipboard(ClipboardPayload { text: "clip".to_string(), timestamp: 1 });
    assert!(matches!(dispatch(&c, "copy_clipboard"), Effect::CopyText(t) if t == "clip"));
}

#[test]
fn ignore_and_unknown_actions_do_nothing() {
    let p = Payload::Photo(PhotoPayload { bytes: vec![1] });
    assert!(matches!(dispatch(&p, "ignore"), Effect::Nothing));
    assert!(matches!(dispatch(&p, "delete"), Effect::Nothing));
    assert!(matches!(dispatch(&p, ""), Effect::Nothing));
    assert_eq!(parse_action("copy_code"), Some(ActionKind::CopyCode));
    assert_eq!(parse_action("Copy"), None);
}

#[test]
fn rgb_expands_to_opaque_rgba() {
    assert_eq!(expand_rgb(&vec![1, 2, 3, 4, 5, 6, 7]), vec![1, 2, 3, 255, 4, 5, 6, 255]);
    let img = rgba_from_jpeg(&vec![10, 20, 30, 40, 50, 60], 2, 1).unwrap();
    assert_eq!((img.width, img.height), (2, 1));
    assert_eq!(img.bytes, vec![10, 20, 30, 255, 40, 50, 60, 255]);
    assert!(rgba_from_jpeg(&vec![1, 2, 3], 2, 1).is_none());
    let img = rgba_from_general(vec![1, 2, 3, 4, 5, 6, 7, 8], 2, 1).unwrap();
    assert_eq!(img.bytes, vec![1, 2, 3, 255, 5, 6, 7, 255]);
    assert!(rgba_from_general(vec![0; 7], 2, 1).is_none());
}

fn jpeg_stage_output(data: &[u8]) -> Option<(Vec<u8>, u16, u16)> {
    let mut decoder = zune_jpeg::JpegDecoder::new(data);
    let pixels = decoder.decode().ok()?;
    let info = decoder.info()?;
    Some((pixels, info.width, info.height))
}

fn general_stage_output(data: &[u8]) -> Option<(Vec<u8>, u32, u32)> {
    let rgba = image::load_from_memory(data).ok()?.to_rgba8();
    let (w, h) = rgba.dimensions();
    Some((rgba.into_raw(), w, h))
}

fn decode_for_clipboard(data: &[u8]) -> Result<ClipboardImage, DispatchError> {
    match from_jpeg_stage(jpeg_stage_output(data)) {
        Some(img) => Ok(img),
        None => from_general_stage(general_stage_output(data)),
    }
}

fn encoded(format: image::ImageFormat, w: u32, h: u32) -> Vec<u8> {
    let img = image::RgbImage::from_fn(w, h, |x, y| image::Rgb([(x * 40) as u8, (y * 40) as u8, 128]));
    let mut out = Cursor::new(Vec::new());
    image::DynamicImage::ImageRgb8(img).write_to(&mut out, format).unwrap();
    out.into_inner()
}

#[test]
fn stage_outputs_of_the_wrong_size_are_refused() {
    assert!(from_jpeg_stage(None).is_none());
    assert!(from_jpeg_stage(Some((vec![7; 4], 2, 2))).is_none());
    let img = from_jpeg_stage(Some((vec![1, 2, 3], 1, 1))).unwrap();
    assert_eq!(img.bytes, vec![1, 2, 3, 255]);
    assert_eq!(from_general_stage(None).err(), Some(DispatchError::Undecodable));
    assert_eq!(from_general_stage(Some((vec![0; 5], 1, 1))).err(), Some(DispatchError::Undecodable));
    let img = from_general_stage(Some((vec![9, 8, 7, 6], 1, 1))).unwrap();
    assert_eq!(img.bytes, vec![9, 8, 7, 255]);
}

#[test]
fn grayscale_jpeg_falls_back_to_the_general_stage() {
    let img = image::GrayImage::from_fn(4, 2, |x, _| image::Luma([(x * 50) as u8]));
    let mut out = Cursor::new(Vec::new());
    image::DynamicImage::ImageLuma8(img).write_to(&mut out, image::ImageFormat::Jpeg).unwrap();
    let decoded = decode_for_clipboard(&out.into_inner()).unwrap();
    assert_eq!((decoded.width, decoded.height), (4, 2));
    assert_eq!(decoded.bytes.len(), 4 * 2 * 4);
    assert!(decoded.bytes.chunks(4).all(|p| p[3] == 255));
}

#[test]
fn jpeg_decodes_through_the_first_stage() {
    let data = encoded(image::ImageFormat::Jpeg, 5, 3);
    let img = decode_for_clipboard(&data).unwrap();
    assert_eq!((img.width, img.height), (5, 3));
    assert_eq!(img.bytes.len(), 5 * 3 * 4);
    assert!(img.bytes.chunks(4).all(|p| p[3] == 255));
}

#[test]
fn png_falls_back_to_the_general_decoder() {
    let data = encoded(image::ImageFormat::Png, 4, 6);
    let img = decode_for_clipboard(&data).unwrap();
    assert_eq!((img.width, img.height), (4, 6));
    assert_eq!(img.bytes.len(), 4 * 6 * 4);
    assert_eq!(&img.bytes[0..4], &[0, 0, 128, 255]);
}

#[test]
fn garbage_is_undecodable() {
    assert_eq!(decode_for_clipboard(&[1, 2, 3, 4]).err(), Some(DispatchError::Undecodable));
    assert_eq!(decode_for_clipboard(&[]).err(), Some(DispatchError::Undecodable));
}

#[test]
fn same_tag_replaces_earlier_notification() {
    let mut reg: NotificationRegistry<u32> = NotificationRegistry::new();
    reg.insert("CurrentPhoto", 1);
    reg.insert("CurrentPhoto", 2);
    assert_eq!(reg.len(), 1);
    assert!(reg.contains("CurrentPhoto"));
    reg.insert("sms_sync", 3);
    assert_eq!(reg.len(), 2);
    assert!(!reg.contains("clipboard_sync"));
}

#[test]
fn translucent_png_becomes_opaque() {
    let img = image::RgbaImage::from_fn(3, 2, |x, y| image::Rgba([x as u8, y as u8, 9, 10]));
    let mut out = Cursor::new(Vec::new());
    image::DynamicImage::ImageRgba8(img).write_to(&mut out, image::ImageFormat::Png).unwrap();
    let decoded = decode_for_clipboard(&out.into_inner()).unwrap();
    assert_eq!((decoded.width, decoded.height), (3, 2));
    assert_eq!(decoded.bytes.len(), 3 * 2 * 4);
    assert!(decoded.bytes.chunks(4).all(|p| p[3] == 255));
    assert_eq!(&decoded.bytes[4..8], &[1, 0, 9, 255]);
}

#[test]
fn bmp_decodes_through_the_general_stage() {
    let data = encoded(image::ImageFormat::Bmp, 2, 2);
    let img = decode_for_clipboard(&data).unwrap();
    assert_eq!((img.width, img.height), (2, 2));
    assert_eq!(img.bytes.len(), 16);
}
