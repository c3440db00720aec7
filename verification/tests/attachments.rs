use floatdea::data::attachment::{
    bytes_to_hex, check_size, decode_dimensions, detect_format, detect_kind, ext_from_media_type,
    hash_content, AttachmentStore, ImageError, ImageKind, MAX_IMAGE_HEIGHT, MAX_IMAGE_PIXELS,
    MAX_IMAGE_WIDTH, MAX_INLINE_IMAGE_BYTES,
};
use floatdea::data::ids::AttachmentId;

fn png(width: u32, height: u32) -> Vec<u8> {
    let mut file = std::io::Cursor::new(Vec::new());
    let picture = image::RgbImage::new(width, height);
    picture.write_to(&mut file, image::ImageFormat::Png).unwrap();
    file.into_inner()
}

#[test]
fn detect_jpeg_from_magic_bytes() {
    let header = [0xFF, 0xD8, 0xFF, 0xE0, 0x00, 0x10, 0x4A, 0x46, 0x49, 0x46];
    let (name, mime, ext) = detect_format(&header).unwrap();
    assert_eq!(name, "jpeg");
    assert_eq!(mime, "image/jpeg");
    assert_eq!(ext, "jpg");
}

#[test]
fn detect_png_from_magic_bytes() {
    let header = [0x89, 0x50, 0x4E, 0x47, 0x0D, 0x0A, 0x1A, 0x0A, 0x00, 0x00];
    let (name, mime, ext) = detect_format(&header).unwrap();
    assert_eq!(name, "png");
    assert_eq!(mime, "image/png");
    assert_eq!(ext, "png");
}

#[test]
fn reject_unsupported_format() {
    let header = [0x00, 0x00, 0x00, 0x00];
    assert!(detect_format(&header).is_err());
}

#[test]
fn reject_empty_file() {
    assert!(detect_format(&[]).is_err());
}

#[test]
fn test_image_limits_constants_are_sane() {
    assert_eq!(MAX_INLINE_IMAGE_BYTES, 20 * 1024 * 1024);
    assert!(MAX_IMAGE_WIDTH > 0);
    assert!(MAX_IMAGE_HEIGHT > 0);
    assert!(MAX_IMAGE_PIXELS > 0);
}

#[test]
fn sizes_are_read_from_the_picture() {
    let file = png(17, 40);
    assert_eq!(decode_dimensions(&png(3, 2), ImageKind::Png).unwrap(), [3, 2]);
    assert_eq!(decode_dimensions(&file, ImageKind::Png).unwrap(), [17, 40]);
    let broken = &png(3, 2)[..20];
    assert!(matches!(decode_dimensions(broken, ImageKind::Png), Err(ImageError::DecodeFailed(_))));
    assert!(matches!(decode_dimensions(&file, ImageKind::Jpeg), Err(ImageError::DecodeFailed(_))));
}

#[test]
fn photographs_are_decoded() {
    let mut file = std::io::Cursor::new(Vec::new());
    image::RgbImage::new(9, 7).write_to(&mut file, image::ImageFormat::Jpeg).unwrap();
    let bytes = file.into_inner();
    assert!(matches!(detect_kind(&bytes), Ok(ImageKind::Jpeg)));
    assert_eq!(decode_dimensions(&bytes, ImageKind::Jpeg).unwrap(), [9, 7]);
    let store = AttachmentStore::open("/w");
    let image = store.prepare_image("/a/b.jpg", &bytes, bytes.len() as u64).unwrap().image;
    assert_eq!(image.media_type, "image/jpeg");
    assert_eq!(image.pixel_size, [9, 7]);
}

#[test]
fn large_pictures_are_refused() {
    assert_eq!(check_size(Ok((8000, 8000))).unwrap(), [8000, 8000]);
    assert_eq!(
        check_size(Ok((8193, 1))).unwrap_err().message(),
        "image dimensions 8193×1 exceed limit"
    );
    assert_eq!(
        check_size(Ok((1, 8193))).unwrap_err().message(),
        "image dimensions 1×8193 exceed limit"
    );
    assert_eq!(
        check_size(Ok((8192, 8192))).unwrap_err().message(),
        "pixel count 67108864 exceeds maximum 64000000"
    );
    assert_eq!(
        check_size(Err("bad data".to_owned())).unwrap_err().message(),
        "image decode failed: bad data"
    );
}

#[test]
fn contents_have_hashes() {
    assert_eq!(
        hash_content(b"abc"),
        "ba7816bf8f01cfea414140de5dae2223b00361a396177a9cb410ff61f20015ad"
    );
    assert_eq!(
        hash_content(b""),
        "e3b0c44298fc1c149afbf4c8996fb92427ae41e4649b934ca495991b7852b855"
    );
    assert_eq!(bytes_to_hex(&vec![0, 15, 16, 255]), "000f10ff");
}

#[test]
fn media_types_have_extensions() {
    assert_eq!(ext_from_media_type("image/jpeg"), "jpg");
    assert_eq!(ext_from_media_type("image/png"), "png");
    assert_eq!(ext_from_media_type("image/webp"), "bin");
}

#[test]
fn pictures_are_prepared_and_kept() {
    let store = AttachmentStore::open("/w");
    assert_eq!(store.attachments_dir(), "/w/attachments");
    assert_eq!(store.temporary_dir(), "/w/attachments/.tmp");
    let bytes = png(5, 4);
    let prepared = store.prepare_image("/home/me/Sun set.png", &bytes, bytes.len() as u64).unwrap();
    let image = prepared.image.clone();
    assert_eq!(image.title, "Sun set");
    assert_eq!(image.media_type, "image/png");
    assert_eq!(image.byte_len, bytes.len() as u64);
    assert_eq!(image.content_hash, hash_content(&bytes));
    assert_eq!(image.pixel_size, [5, 4]);
    assert_eq!(image.original_name, None);
    let id = image.id.as_str();
    assert_eq!(image.relative_path, format!("attachments/{id}.png"));
    assert_eq!(prepared.temporary_path, format!("/w/attachments/.tmp/{id}.png"));
    let target = store.target_path(&image);
    assert_eq!(target, format!("/w/attachments/{id}.png"));
    let (kept, from, to) = store.commit(prepared, false).unwrap();
    assert_eq!(from, format!("/w/attachments/.tmp/{id}.png"));
    assert_eq!(to, target);
    assert_eq!(store.image_path(&kept), target);
    assert_eq!(store.trash_dir(), "/w/.floatdea/trash/attachments");
    assert_eq!(
        store.move_to_trash(&kept),
        (target, format!("/w/.floatdea/trash/attachments/{id}.png"))
    );
}

#[test]
fn kept_pictures_are_not_overwritten() {
    let store = AttachmentStore::open("/w");
    let bytes = png(1, 1);
    let prepared = store.prepare_image("a.png", &bytes, bytes.len() as u64).unwrap();
    let target = store.target_path(&prepared.image);
    assert_eq!(
        store.commit(prepared, true).unwrap_err().message(),
        format!("I/O error: attachment file already exists: {target}")
    );
}

#[test]
fn pictures_are_refused_with_a_reason() {
    let store = AttachmentStore::open("/w");
    let bytes = png(1, 1);
    let too_long = store.prepare_image("/big.png", &bytes, MAX_INLINE_IMAGE_BYTES + 1);
    assert_eq!(
        too_long.unwrap_err().message(),
        "file exceeds inline limit, use external reference: /big.png"
    );
    let short = store.prepare_image("/a.png", &[1, 2, 3], 3);
    assert_eq!(short.unwrap_err().message(), "unsupported image format: file too small");
    let text = store.prepare_image("/a.png", b"plain text", 10);
    assert_eq!(
        text.unwrap_err().message(),
        "unsupported image format: unsupported magic bytes (only JPEG and PNG are supported)"
    );
    let id = AttachmentId::new();
    let wide = store.prepare_decoded("/a.png", &bytes, 10, &id, Ok((9000, 2)));
    assert!(matches!(
        wide,
        Err(ImageError::DimensionsTooLarge { width: 9000, height: 2 })
    ));
    assert_eq!(
        ImageError::FileTooLarge { bytes: 12, max: 9 }.message(),
        "file size 12 exceeds maximum 9"
    );
    assert_eq!(ImageError::InvalidPath("/".to_owned()).message(), "invalid path: /");
}

#[test]
fn kept_pictures_are_verified() {
    let store = AttachmentStore::open("/w");
    let bytes = png(2, 2);
    let image = store.prepare_image("a.png", &bytes, bytes.len() as u64).unwrap().image;
    let id = image.id.as_str();
    assert!(store.verify(&image, Some(&bytes)).is_ok());
    assert_eq!(
        store.verify(&image, Some(&png(2, 3))).unwrap_err().message(),
        format!("image decode failed: content hash mismatch for {id}")
    );
    assert_eq!(
        store.verify(&image, None).unwrap_err().message(),
        format!("I/O error: image file not found: /w/attachments/{id}.png")
    );
}
