//! Image files that a workspace keeps.
//!
//! The store checks images, names their files and says what to do with them.
//! Reading and writing the files is left to the caller.
use crate::data::ids::{is_compact_id, AttachmentId};
use crate::data::paths::{file_stem, file_stem_text, join_path, joined_path};
use crate::data::workspace::ImageAttachment;
use crate::text::{decimal, decimal_text, hex, hex_text, join2, join3, same_text};
use vstd::prelude::*;

verus! {

/// The largest file that is kept, in bytes. A larger image is referred to by its
/// path.
pub const MAX_INLINE_IMAGE_BYTES: u64 = 20_971_520;

/// The largest width, in pixels.
pub const MAX_IMAGE_WIDTH: u32 = 8192;

/// The largest height, in pixels.
pub const MAX_IMAGE_HEIGHT: u32 = 8192;

/// The largest number of pixels.
pub const MAX_IMAGE_PIXELS: u64 = 64_000_000;

/// How many images may be decoded at the same time.
pub const MAX_CONCURRENT_DECODES: usize = 2;

/// Why an image was not accepted.
#[derive(Debug, PartialEq, Eq)]
pub enum ImageError {
    /// A file could not be read or written. The message tells why.
    Io(String),
    FileTooLarge { bytes: u64, max: u64 },
    UnsupportedFormat(String),
    DimensionsTooLarge { width: u32, height: u32 },
    TooManyPixels { pixels: u64, max: u64 },
    DecodeFailed(String),
    InvalidPath(String),
    /// The file is too large to be kept. The image has to be referred to by this
    /// path.
    OverInlineLimit(String),
}

impl ImageError {
    pub open spec fn message_text(&self) -> Seq<char> {
        match *self {
            ImageError::Io(message) => "I/O error: "@ + message@,
            ImageError::FileTooLarge { bytes, max } => "file size "@ + decimal_text(bytes as nat)
                + " exceeds maximum "@ + decimal_text(max as nat),
            ImageError::UnsupportedFormat(format) => "unsupported image format: "@ + format@,
            ImageError::DimensionsTooLarge { width, height } => "image dimensions "@
                + decimal_text(width as nat) + "×"@ + decimal_text(height as nat)
                + " exceed limit"@,
            ImageError::TooManyPixels { pixels, max } => "pixel count "@ + decimal_text(
                pixels as nat,
            ) + " exceeds maximum "@ + decimal_text(max as nat),
            ImageError::DecodeFailed(message) => "image decode failed: "@ + message@,
            ImageError::InvalidPath(message) => "invalid path: "@ + message@,
            ImageError::OverInlineLimit(path) =>
                "file exceeds inline limit, use external reference: "@ + path@,
        }
    }

    /// The message for the user.
    pub fn message(&self) -> (r: String)
        ensures
            r@ == self.message_text(),
    {
        match self {
            ImageError::Io(message) => join2("I/O error: ", message),
            ImageError::FileTooLarge { bytes, max } => {
                let front = join3("file size ", &decimal(*bytes), " exceeds maximum ");
                join2(&front, &decimal(*max))
            },
            ImageError::UnsupportedFormat(format) => join2("unsupported image format: ", format),
            ImageError::DimensionsTooLarge { width, height } => {
                let front = join3("image dimensions ", &decimal(*width as u64), "×");
                join3(&front, &decimal(*height as u64), " exceed limit")
            },
            ImageError::TooManyPixels { pixels, max } => {
                let front = join3("pixel count ", &decimal(*pixels), " exceeds maximum ");
                join2(&front, &decimal(*max))
            },
            ImageError::DecodeFailed(message) => join2("image decode failed: ", message),
            ImageError::InvalidPath(message) => join2("invalid path: ", message),
            ImageError::OverInlineLimit(path) => join2(
                "file exceeds inline limit, use external reference: ",
                path,
            ),
        }
    }
}

/// A format of images that is accepted.
#[derive(Clone, Copy, Debug, PartialEq, Eq, Structural)]
pub enum ImageKind {
    Jpeg,
    Png,
}

/// The format that the first bytes of a file show.
pub open spec fn format_of(bytes: Seq<u8>) -> Option<ImageKind> {
    if bytes.len() >= 4 && bytes[0] == 0xFF && bytes[1] == 0xD8 && bytes[2] == 0xFF {
        Some(ImageKind::Jpeg)
    } else if bytes.len() >= 8 && bytes.take(8) == seq![
        0x89u8,
        0x50,
        0x4E,
        0x47,
        0x0D,
        0x0A,
        0x1A,
        0x0A,
    ] {
        Some(ImageKind::Png)
    } else {
        None
    }
}

impl ImageKind {
    pub open spec fn name_text(self) -> Seq<char> {
        match self {
            ImageKind::Jpeg => "jpeg"@,
            ImageKind::Png => "png"@,
        }
    }

    pub open spec fn media_type_text(self) -> Seq<char> {
        match self {
            ImageKind::Jpeg => "image/jpeg"@,
            ImageKind::Png => "image/png"@,
        }
    }

    pub open spec fn extension_text(self) -> Seq<char> {
        match self {
            ImageKind::Jpeg => "jpg"@,
            ImageKind::Png => "png"@,
        }
    }
}

/// What is wrong with a file that shows no accepted format.
pub open spec fn format_fault(bytes: Seq<u8>) -> Seq<char> {
    if bytes.len() < 4 {
        "file too small"@
    } else {
        "unsupported magic bytes (only JPEG and PNG are supported)"@
    }
}

/// The format that the first bytes of a file show, or what is wrong with them.
pub fn detect_kind(bytes: &[u8]) -> (r: Result<ImageKind, ImageError>)
    ensures
        match r {
            Ok(kind) => format_of(bytes@) == Some(kind),
            Err(error) => format_of(bytes@) is None && (error matches ImageError::UnsupportedFormat(
                message,
            ) && message@ == format_fault(bytes@)),
        },
{
    if bytes.len() < 4 {
        return Err(ImageError::UnsupportedFormat("file too small".to_owned()));
    }
    if bytes[0] == 0xFF && bytes[1] == 0xD8 && bytes[2] == 0xFF {
        return Ok(ImageKind::Jpeg);
    }
    let ghost head = seq![0x89u8, 0x50, 0x4E, 0x47, 0x0D, 0x0A, 0x1A, 0x0A];
    if bytes.len() >= 8 && bytes[0] == 0x89 && bytes[1] == 0x50 && bytes[2] == 0x4E && bytes[3]
        == 0x47 && bytes[4] == 0x0D && bytes[5] == 0x0A && bytes[6] == 0x1A && bytes[7] == 0x0A {
        assert(bytes@.take(8) =~= head);
        return Ok(ImageKind::Png);
    }
    proof {
        if bytes@.len() >= 8 {
            let t = bytes@.take(8);
            assert(t[0] == bytes@[0] && t[1] == bytes@[1] && t[2] == bytes@[2] && t[3] == bytes@[3]
                && t[4] == bytes@[4] && t[5] == bytes@[5] && t[6] == bytes@[6] && t[7]
                == bytes@[7]);
            assert(head[0] == 0x89 && head[1] == 0x50 && head[2] == 0x4E && head[3] == 0x47
                && head[4] == 0x0D && head[5] == 0x0A && head[6] == 0x1A && head[7] == 0x0A);
        }
    }
    Err(
        ImageError::UnsupportedFormat(
            "unsupported magic bytes (only JPEG and PNG are supported)".to_owned(),
        ),
    )
}

/// Name, media type and extension of the format that the first bytes of a file
/// show.
pub fn detect_format(bytes: &[u8]) -> (r: Result<
    (&'static str, &'static str, &'static str),
    ImageError,
>)
    ensures
        match r {
            Ok((name, media_type, ext)) => match format_of(bytes@) {
                Some(kind) => name@ == kind.name_text() && media_type@ == kind.media_type_text()
                    && ext@ == kind.extension_text(),
                None => false,
            },
            Err(error) => format_of(bytes@) is None && (error matches ImageError::UnsupportedFormat(
                message,
            ) && message@ == format_fault(bytes@)),
        },
{
    match detect_kind(bytes) {
        Ok(ImageKind::Jpeg) => Ok(("jpeg", "image/jpeg", "jpg")),
        Ok(ImageKind::Png) => Ok(("png", "image/png", "png")),
        Err(error) => Err(error),
    }
}

/// What `image::load_from_memory_with_format` makes of the bytes of a file in a
/// format: width and height of the image, or the message of its error.
pub uninterp spec fn decoded_image(bytes: Seq<u8>, kind: ImageKind) -> Result<
    (u32, u32),
    Seq<char>,
>;

/// Decodes an image with `image::load_from_memory_with_format` and returns its
/// width and height, or the message of the error. The result is that of the bytes
/// and the format alone: for a format that is given, no registered decoder is asked.
#[verifier::external_body]
fn decode_image(bytes: &[u8], kind: ImageKind) -> (r: Result<(u32, u32), String>)
    ensures
        match r {
            Ok(size) => decoded_image(bytes@, kind) == Ok::<(u32, u32), Seq<char>>(size),
            Err(message) => decoded_image(bytes@, kind) == Err::<(u32, u32), Seq<char>>(message@),
        },
{
    let format = match kind {
        ImageKind::Jpeg => image::ImageFormat::Jpeg,
        ImageKind::Png => image::ImageFormat::Png,
    };
    match image::load_from_memory_with_format(bytes, format) {
        Ok(image) => Ok((image.width(), image.height())),
        Err(error) => Err(format!("{error}")),
    }
}

/// The result of checking a decoded image.
pub open spec fn is_checked_size(
    r: Result<[u32; 2], ImageError>,
    decoded: Result<(u32, u32), Seq<char>>,
) -> bool {
    match decoded {
        Err(message) => r matches Err(ImageError::DecodeFailed(m)) && m@ == message,
        Ok((width, height)) => if width > MAX_IMAGE_WIDTH || height > MAX_IMAGE_HEIGHT {
            r == Err::<[u32; 2], ImageError>(ImageError::DimensionsTooLarge { width, height })
        } else if width * height > MAX_IMAGE_PIXELS {
            r == Err::<[u32; 2], ImageError>(
                ImageError::TooManyPixels {
                    pixels: (width * height) as u64,
                    max: MAX_IMAGE_PIXELS,
                },
            )
        } else {
            r matches Ok(size) && size@ == seq![width, height]
        },
    }
}

/// Checks that a decoded image is not too large.
pub fn check_size(decoded: Result<(u32, u32), String>) -> (r: Result<[u32; 2], ImageError>)
    ensures
        is_checked_size(
            r,
            match decoded {
                Ok(size) => Ok::<(u32, u32), Seq<char>>(size),
                Err(message) => Err::<(u32, u32), Seq<char>>(message@),
            },
        ),
{
    match decoded {
        Err(message) => Err(ImageError::DecodeFailed(message)),
        Ok((width, height)) => {
            if width > MAX_IMAGE_WIDTH || height > MAX_IMAGE_HEIGHT {
                return Err(ImageError::DimensionsTooLarge { width, height });
            }
            assert(width * height <= 8192 * 8192) by (nonlinear_arith)
                requires
                    width <= 8192,
                    height <= 8192,
            ;
            let pixels: u64 = (width as u64) * (height as u64);
            if pixels > MAX_IMAGE_PIXELS {
                return Err(ImageError::TooManyPixels { pixels, max: MAX_IMAGE_PIXELS });
            }
            let size = [width, height];
            assert(size@ =~= seq![width, height]);
            Ok(size)
        },
    }
}

/// Width and height of an image in a format, if it can be decoded and is not too
/// large.
pub fn decode_dimensions(bytes: &[u8], kind: ImageKind) -> (r: Result<[u32; 2], ImageError>)
    ensures
        is_checked_size(r, decoded_image(bytes@, kind)),
{
    check_size(decode_image(bytes, kind))
}

/// The SHA-256 digest of a sequence of bytes.
pub uninterp spec fn sha256_digest(bytes: Seq<u8>) -> Seq<u8>;

/// The digest that `sha2::Sha256::digest` computes: 32 bytes that depend on the
/// given bytes alone.
#[verifier::external_body]
fn sha256(bytes: &[u8]) -> (r: Vec<u8>)
    ensures
        r@ == sha256_digest(bytes@),
        r@.len() == 32,
{
    <sha2::Sha256 as sha2::Digest>::digest(bytes).to_vec()
}

/// Bytes in hexadecimal, two digits each.
pub open spec fn hex_bytes(bytes: Seq<u8>) -> Seq<char>
    decreases bytes.len(),
{
    if bytes.len() == 0 {
        Seq::empty()
    } else {
        hex_bytes(bytes.drop_last()) + hex_text(bytes.last() as int, 2)
    }
}

/// Bytes in hexadecimal, two digits each.
pub fn bytes_to_hex(bytes: &Vec<u8>) -> (r: String)
    ensures
        r@ == hex_bytes(bytes@),
{
    let mut r = String::new();
    let mut i: usize = 0;
    assert(bytes@.take(0) =~= Seq::<u8>::empty());
    while i < bytes.len()
        invariant
            i <= bytes@.len(),
            r@ == hex_bytes(bytes@.take(i as int)),
        decreases bytes@.len() - i,
    {
        proof {
            assert(bytes@.take(i + 1).drop_last() =~= bytes@.take(i as int));
            assert(bytes@.take(i + 1).last() == bytes@[i as int]);
        }
        r.append(&hex(bytes[i] as u64, 2));
        i = i + 1;
    }
    assert(bytes@.take(i as int) =~= bytes@);
    r
}

/// The digest of a file content, in hexadecimal.
pub fn hash_content(bytes: &[u8]) -> (r: String)
    ensures
        r@ == hex_bytes(sha256_digest(bytes@)),
{
    bytes_to_hex(&sha256(bytes))
}

/// The extension of the files of a media type.
pub open spec fn extension_for(media_type: Seq<char>) -> Seq<char> {
    if media_type == "image/jpeg"@ {
        "jpg"@
    } else if media_type == "image/png"@ {
        "png"@
    } else {
        "bin"@
    }
}

/// The extension of the files of a media type.
pub fn ext_from_media_type(media_type: &str) -> (r: &'static str)
    ensures
        r@ == extension_for(media_type@),
{
    if same_text(media_type, "image/jpeg") {
        "jpg"
    } else if same_text(media_type, "image/png") {
        "png"
    } else {
        "bin"
    }
}

/// The path of an attachment, relative to the workspace.
pub open spec fn relative_path_text(id: Seq<char>, ext: Seq<char>) -> Seq<char> {
    "attachments/"@ + id + "."@ + ext
}

/// The path of an attachment, relative to the workspace.
pub fn attachment_relative_path(id: &AttachmentId, ext: &str) -> (r: String)
    ensures
        r@ == relative_path_text(id@, ext@),
{
    let front = join3("attachments/", id.as_str(), ".");
    join2(&front, ext)
}

/// An image that was checked and is about to be kept: its description, and the
/// temporary path that its bytes are written to.
#[derive(Debug)]
pub struct PreparedImage {
    pub image: ImageAttachment,
    pub temporary_path: String,
}

/// The attachments of one workspace.
#[derive(Debug)]
pub struct AttachmentStore {
    root: String,
    attachments_dir: String,
    temp_dir: String,
}

/// The prepared image describes the bytes of the file at `source`.
pub open spec fn is_prepared(
    prepared: PreparedImage,
    store: AttachmentStore,
    source: Seq<char>,
    bytes: Seq<u8>,
    byte_len: u64,
    id: Seq<char>,
    size: Seq<u32>,
) -> bool {
    let kind = format_of(bytes)->0;
    let image = prepared.image;
    &&& image.id@ == id
    &&& image.relative_path@ == relative_path_text(id, kind.extension_text())
    &&& image.title@ == match file_stem_text(source) {
        Some(stem) => stem,
        None => "untitled"@,
    }
    &&& image.media_type@ == kind.media_type_text()
    &&& image.byte_len == byte_len
    &&& image.content_hash@ == hex_bytes(sha256_digest(bytes))
    &&& image.pixel_size@ == size
    &&& image.original_name is None
    &&& prepared.temporary_path@ == joined_path(
        store.temp_text(),
        id + "."@ + kind.extension_text(),
    )
}

/// The result of preparing the image at `source` under the identifier `id`,
/// where decoding it gave `decoded`.
pub open spec fn prepares(
    r: Result<PreparedImage, ImageError>,
    store: AttachmentStore,
    source: Seq<char>,
    bytes: Seq<u8>,
    byte_len: u64,
    id: Seq<char>,
    decoded: Result<(u32, u32), Seq<char>>,
) -> bool {
    if byte_len > MAX_INLINE_IMAGE_BYTES {
        r matches Err(ImageError::OverInlineLimit(path)) && path@ == source
    } else if format_of(bytes) is None {
        r matches Err(ImageError::UnsupportedFormat(message)) && message@ == format_fault(bytes)
    } else {
        match r {
            Ok(prepared) => decoded matches Ok(size) && is_checked_size(
                Ok(prepared.image.pixel_size),
                decoded,
            ) && is_prepared(
                prepared,
                store,
                source,
                bytes,
                byte_len,
                id,
                seq![size.0, size.1],
            ),
            Err(error) => is_checked_size(Err(error), decoded),
        }
    }
}

impl AttachmentStore {
    /// The root of the workspace.
    pub closed spec fn root_text(&self) -> Seq<char> {
        self.root@
    }

    /// The directory of the attachments.
    pub closed spec fn dir_text(&self) -> Seq<char> {
        self.attachments_dir@
    }

    /// The directory of the files that are not kept yet.
    pub closed spec fn temp_text(&self) -> Seq<char> {
        self.temp_dir@
    }

    /// The store of the workspace at `root`. The caller creates the two
    /// directories and empties the second one.
    pub fn open(root: &str) -> (r: Self)
        ensures
            r.root_text() == root@,
            r.dir_text() == joined_path(root@, "attachments"@),
            r.temp_text() == joined_path(joined_path(root@, "attachments"@), ".tmp"@),
    {
        let attachments_dir = join_path(root, "attachments");
        let temp_dir = join_path(&attachments_dir, ".tmp");
        AttachmentStore { root: root.to_owned(), attachments_dir, temp_dir }
    }

    /// The directory of the attachments.
    pub fn attachments_dir(&self) -> (r: &str)
        ensures
            r@ == self.dir_text(),
    {
        self.attachments_dir.as_str()
    }

    /// The directory of the files that are not kept yet.
    pub fn temporary_dir(&self) -> (r: &str)
        ensures
            r@ == self.temp_text(),
    {
        self.temp_dir.as_str()
    }

    /// The path of the file of an image.
    pub fn image_path(&self, image: &ImageAttachment) -> (r: String)
        ensures
            r@ == joined_path(self.root_text(), image.relative_path@),
    {
        join_path(&self.root, &image.relative_path)
    }

    /// Checks the image at `source`, whose file holds `bytes` and was reported to
    /// be `byte_len` bytes long, and describes it under a new identifier.
    pub fn prepare_image(&self, source: &str, bytes: &[u8], byte_len: u64) -> (r: Result<
        PreparedImage,
        ImageError,
    >)
        ensures
            exists|id: Seq<char>| #[trigger]
                is_compact_id(id) && prepares(
                    r,
                    *self,
                    source@,
                    bytes@,
                    byte_len,
                    id,
                    decoded_image(bytes@, format_of(bytes@)->0),
                ),
    {
        let id = AttachmentId::new();
        assert(is_compact_id(id@));
        if byte_len > MAX_INLINE_IMAGE_BYTES {
            return Err(ImageError::OverInlineLimit(source.to_owned()));
        }
        let kind = match detect_kind(bytes) {
            Ok(kind) => kind,
            Err(error) => {
                return Err(error);
            },
        };
        self.prepare_decoded(source, bytes, byte_len, &id, decode_image(bytes, kind))
    }

    /// Checks the image at `source`, where decoding it gave `decoded`, and
    /// describes it under the identifier `id`.
    pub fn prepare_decoded(
        &self,
        source: &str,
        bytes: &[u8],
        byte_len: u64,
        id: &AttachmentId,
        decoded: Result<(u32, u32), String>,
    ) -> (r: Result<PreparedImage, ImageError>)
        ensures
            prepares(
                r,
                *self,
                source@,
                bytes@,
                byte_len,
                id@,
                match decoded {
                    Ok(size) => Ok::<(u32, u32), Seq<char>>(size),
                    Err(message) => Err::<(u32, u32), Seq<char>>(message@),
                },
            ),
    {
        if byte_len > MAX_INLINE_IMAGE_BYTES {
            return Err(ImageError::OverInlineLimit(source.to_owned()));
        }
        let (_, media_type, ext) = match detect_format(bytes) {
            Ok(format) => format,
            Err(error) => {
                return Err(error);
            },
        };
        let pixel_size = match check_size(decoded) {
            Ok(size) => size,
            Err(error) => {
                return Err(error);
            },
        };
        let content_hash = hash_content(bytes);
        let title = match file_stem(source) {
            Some(stem) => stem,
            None => "untitled".to_owned(),
        };
        let name = join3(id.as_str(), ".", ext);
        Ok(
            PreparedImage {
                image: ImageAttachment {
                    id: id.clone(),
                    relative_path: attachment_relative_path(id, ext),
                    title,
                    media_type: media_type.to_owned(),
                    byte_len,
                    content_hash,
                    pixel_size,
                    original_name: None,
                },
                temporary_path: join_path(&self.temp_dir, &name),
            },
        )
    }

    /// Where the file of a prepared image is moved to.
    pub fn target_path(&self, image: &ImageAttachment) -> (r: String)
        ensures
            r@ == joined_path(
                self.dir_text(),
                image.id@ + "."@ + extension_for(image.media_type@),
            ),
    {
        let name = join3(image.id.as_str(), ".", ext_from_media_type(&image.media_type));
        join_path(&self.attachments_dir, &name)
    }

    /// Accepts a prepared image, unless its file exists already. The caller
    /// moves the temporary file to the target path.
    pub fn commit(&self, prepared: PreparedImage, target_exists: bool) -> (r: Result<
        (ImageAttachment, String, String),
        ImageError,
    >)
        ensures
            ({
                let target = joined_path(
                    self.dir_text(),
                    prepared.image.id@ + "."@ + extension_for(prepared.image.media_type@),
                );
                match r {
                    Ok((image, from, to)) => !target_exists && image == prepared.image && from
                        == prepared.temporary_path && to@ == target,
                    Err(error) => target_exists && (error matches ImageError::Io(message)
                        && message@ == "attachment file already exists: "@ + target),
                }
            }),
    {
        let target = self.target_path(&prepared.image);
        if target_exists {
            return Err(ImageError::Io(join2("attachment file already exists: ", &target)));
        }
        Ok((prepared.image, prepared.temporary_path, target))
    }

    /// Checks the content of the file of an image, if there is such a file,
    /// against its description.
    pub fn verify(&self, image: &ImageAttachment, content: Option<&[u8]>) -> (r: Result<
        (),
        ImageError,
    >)
        ensures
            match content {
                None => r matches Err(ImageError::Io(message)) && message@
                    == "image file not found: "@ + joined_path(
                    self.root_text(),
                    image.relative_path@,
                ),
                Some(bytes) => if hex_bytes(sha256_digest(bytes@)) == image.content_hash@ {
                    r is Ok
                } else {
                    r matches Err(ImageError::DecodeFailed(message)) && message@
                        == "content hash mismatch for "@ + image.id@
                },
            },
    {
        match content {
            None => {
                Err(ImageError::Io(join2("image file not found: ", &self.image_path(image))))
            },
            Some(bytes) => {
                let actual = hash_content(bytes);
                if same_text(&actual, &image.content_hash) {
                    Ok(())
                } else {
                    Err(
                        ImageError::DecodeFailed(
                            join2("content hash mismatch for ", image.id.as_str()),
                        ),
                    )
                }
            },
        }
    }

    /// The directory that thrown away images are moved to.
    pub fn trash_dir(&self) -> (r: String)
        ensures
            r@ == joined_path(self.root_text(), ".floatdea/trash/attachments"@),
    {
        join_path(&self.root, ".floatdea/trash/attachments")
    }

    /// The file to move when an image is thrown away, and where to.
    pub fn move_to_trash(&self, image: &ImageAttachment) -> (r: (String, String))
        ensures
            r.0@ == joined_path(self.root_text(), image.relative_path@),
            r.1@ == joined_path(
                joined_path(self.root_text(), ".floatdea/trash/attachments"@),
                image.id@ + "."@ + extension_for(image.media_type@),
            ),
    {
        let name = join3(image.id.as_str(), ".", ext_from_media_type(&image.media_type));
        (self.image_path(image), join_path(&self.trash_dir(), &name))
    }
}

/// The file that a prepared image is moved to is the file that its description
/// names.
pub proof fn committed_images_are_found(
    store: AttachmentStore,
    prepared: PreparedImage,
    source: Seq<char>,
    bytes: Seq<u8>,
    byte_len: u64,
    id: Seq<char>,
    size: Seq<u32>,
)
    requires
        store.dir_text() == joined_path(store.root_text(), "attachments"@),
        format_of(bytes) is Some,
        is_prepared(prepared, store, source, bytes, byte_len, id, size),
        id.len() > 0,
        id[0] != '/',
    ensures
        joined_path(store.root_text(), prepared.image.relative_path@) == joined_path(
            store.dir_text(),
            prepared.image.id@ + "."@ + extension_for(prepared.image.media_type@),
        ),
{
    reveal_strlit("attachments");
    reveal_strlit("attachments/");
    reveal_strlit("/");
    reveal_strlit("image/jpeg");
    reveal_strlit("image/png");
    let kind = format_of(bytes)->0;
    let ext = kind.extension_text();
    assert("image/jpeg"@.len() != "image/png"@.len());
    assert(extension_for(prepared.image.media_type@) == ext);
    let name = id + "."@ + ext;
    assert(name[0] == id[0]);
    assert("attachments/"@ + id + "."@ + ext =~= "attachments/"@ + name);
    assert("attachments"@ + "/"@ =~= "attachments/"@);
    let root = store.root_text();
    let dir = store.dir_text();
    assert(dir.last() == 's');
    assert(root + "/"@ + ("attachments/"@ + name) =~= root + "/"@ + "attachments"@ + "/"@ + name);
    assert(root + ("attachments/"@ + name) =~= root + "attachments"@ + "/"@ + name);
}

/// An image is verified by the bytes that it was prepared from.
pub proof fn prepared_images_verify(
    store: AttachmentStore,
    prepared: PreparedImage,
    source: Seq<char>,
    bytes: Seq<u8>,
    byte_len: u64,
    id: Seq<char>,
    size: Seq<u32>,
)
    requires
        is_prepared(prepared, store, source, bytes, byte_len, id, size),
    ensures
        hex_bytes(sha256_digest(bytes)) == prepared.image.content_hash@,
{
}

/// Each byte becomes two digits, in order.
pub proof fn bytes_become_two_digits(bytes: Seq<u8>, i: int)
    requires
        0 <= i < bytes.len(),
    ensures
        hex_bytes(bytes).len() == 2 * bytes.len(),
        hex_bytes(bytes).subrange(2 * i, 2 * i + 2) == hex_text(bytes[i] as int, 2),
    decreases bytes.len(),
{
    hex_bytes_len(bytes);
    let front = bytes.drop_last();
    hex_bytes_len(front);
    hex_two(bytes.last() as int);
    if i < front.len() {
        bytes_become_two_digits(front, i);
        assert(hex_bytes(bytes).subrange(2 * i, 2 * i + 2) =~= hex_bytes(front).subrange(
            2 * i,
            2 * i + 2,
        ));
    } else {
        assert(hex_bytes(bytes).subrange(2 * i, 2 * i + 2) =~= hex_text(bytes.last() as int, 2));
    }
}

proof fn hex_two(n: int)
    ensures
        hex_text(n, 2).len() == 2,
{
    reveal_with_fuel(hex_text, 3);
}

proof fn hex_bytes_len(bytes: Seq<u8>)
    ensures
        hex_bytes(bytes).len() == 2 * bytes.len(),
    decreases bytes.len(),
{
    if bytes.len() > 0 {
        hex_bytes_len(bytes.drop_last());
        hex_two(bytes.last() as int);
    }
}

/// An image is taken as a PNG or a JPEG by the bytes that such a file begins with,
/// whatever follows.
pub proof fn formats_are_told_by_their_first_bytes(rest: Seq<u8>)
    ensures
        format_of(seq![0x89u8, 0x50, 0x4E, 0x47, 0x0D, 0x0A, 0x1A, 0x0A] + rest) == Some(
            ImageKind::Png,
        ),
        rest.len() > 0 ==> format_of(seq![0xFFu8, 0xD8, 0xFF] + rest) == Some(ImageKind::Jpeg),
        format_of(rest) == Some(ImageKind::Jpeg) ==> rest.take(3) == seq![0xFFu8, 0xD8, 0xFF],
        format_of(rest) == Some(ImageKind::Png) ==> rest.take(8) == seq![
            0x89u8,
            0x50,
            0x4E,
            0x47,
            0x0D,
            0x0A,
            0x1A,
            0x0A,
        ],
{
    let png = seq![0x89u8, 0x50, 0x4E, 0x47, 0x0D, 0x0A, 0x1A, 0x0A];
    assert((png + rest).take(8) =~= png);
    assert((png + rest)[0] == 0x89);
    let jpeg = seq![0xFFu8, 0xD8, 0xFF];
    assert((jpeg + rest)[0] == 0xFF && (jpeg + rest)[1] == 0xD8 && (jpeg + rest)[2] == 0xFF);
    if format_of(rest) == Some(ImageKind::Jpeg) {
        assert(rest.take(3) =~= jpeg);
    }
}

/// An image becomes an attachment exactly if its file is small enough, is a PNG or a
/// JPEG, can be decoded, and is not too wide, too high or too large.
pub proof fn good_images_are_prepared(
    r: Result<PreparedImage, ImageError>,
    store: AttachmentStore,
    source: Seq<char>,
    bytes: Seq<u8>,
    byte_len: u64,
    id: Seq<char>,
    decoded: Result<(u32, u32), Seq<char>>,
)
    requires
        prepares(r, store, source, bytes, byte_len, id, decoded),
    ensures
        r is Ok <==> {
            &&& byte_len <= MAX_INLINE_IMAGE_BYTES
            &&& format_of(bytes) is Some
            &&& decoded is Ok
            &&& decoded->Ok_0.0 <= MAX_IMAGE_WIDTH
            &&& decoded->Ok_0.1 <= MAX_IMAGE_HEIGHT
            &&& decoded->Ok_0.0 * decoded->Ok_0.1 <= MAX_IMAGE_PIXELS
        },
        r is Ok ==> {
            let image = r->Ok_0.image;
            &&& image.id@ == id
            &&& image.byte_len == byte_len
            &&& image.pixel_size@ == seq![decoded->Ok_0.0, decoded->Ok_0.1]
            &&& image.content_hash@ == hex_bytes(sha256_digest(bytes))
            &&& format_of(bytes) == Some(ImageKind::Png) ==> image.media_type@ == "image/png"@
                && image.relative_path@ == "attachments/"@ + id + "."@ + "png"@
            &&& format_of(bytes) == Some(ImageKind::Jpeg) ==> image.media_type@ == "image/jpeg"@
                && image.relative_path@ == "attachments/"@ + id + "."@ + "jpg"@
            &&& file_stem_text(source) matches Some(stem) ==> image.title@ == stem
        },
        byte_len > MAX_INLINE_IMAGE_BYTES ==> r matches Err(ImageError::OverInlineLimit(_)),
{
}

} // verus!
