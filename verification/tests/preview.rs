use workshop_uploader::preview::is_valid_preview_type;
use workshop_uploader::preview::PreviewError;

#[test]
fn png_magic_is_accepted() {
    let data = vec![0x89, b'P', b'N', b'G', 0x0D, 0x0A, 0x1A, 0x0A, 0x00];
    assert!(is_valid_preview_type(&data).is_ok());
}

#[test]
fn jpeg_magic_is_accepted() {
    let data = vec![0xFF, 0xD8, 0xFF, 0xE0, 0x00, 0x10];
    assert!(is_valid_preview_type(&data).is_ok());
}

#[test]
fn gif_magic_is_accepted() {
    let data = b"GIF89a".to_vec();
    assert!(is_valid_preview_type(&data).is_ok());
}

#[test]
fn unrecognisable_bytes_are_rejected() {
    let data = b"just some text".to_vec();
    let e = is_valid_preview_type(&data).err().unwrap();
    assert!(matches!(e, PreviewError::UnknownFileType));
}

#[test]
fn recognised_non_image_is_rejected_with_its_mime() {
    let data = b"%PDF-1.4 ...".to_vec();
    let e = is_valid_preview_type(&data).err().unwrap();
    match e {
        PreviewError::InvalidPreviewType(mime) => assert_eq!(mime, "application/pdf"),
        _ => panic!("wrong error variant"),
    }
}
