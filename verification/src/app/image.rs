//! Images: how they are addressed, and what their viewer does.
use crate::data::attachment::{ext_from_media_type, extension_for};
use crate::data::ids::{AttachmentId, ExternalFileId};
use crate::data::paths::{extension, extension_text};
use crate::data::workspace::{ExternalFileRef, ImageAttachment};
use crate::text::{chars_of, decimal, decimal_text, join, join2, join3, joined, texts};
use vstd::prelude::*;

verus! {

/// The file behind an image.
#[derive(Debug)]
pub enum ImageBytesKey {
    /// An image of the workspace.
    Attachment(AttachmentId),
    /// A file elsewhere.
    External(ExternalFileId),
}

impl ImageBytesKey {
    /// The identifier of the file.
    pub open spec fn label(&self) -> Seq<char> {
        match *self {
            ImageBytesKey::Attachment(id) => id@,
            ImageBytesKey::External(id) => id@,
        }
    }

    /// The identifier of the file.
    pub fn key_label(&self) -> (r: String)
        ensures
            r@ == self.label(),
    {
        match self {
            ImageBytesKey::Attachment(id) => id.as_str().to_owned(),
            ImageBytesKey::External(id) => id.as_str().to_owned(),
        }
    }
}

/// The address of an image of the workspace.
pub fn attachment_uri(image: &ImageAttachment) -> (r: String)
    ensures
        r@ == "attachment://"@ + image.id@ + "."@ + extension_for(image.media_type@),
{
    let front = join3("attachment://", image.id.as_str(), ".");
    join2(&front, ext_from_media_type(&image.media_type))
}

/// The extension is `png`, in any case.
pub open spec fn is_png_extension(ext: Seq<char>) -> bool {
    &&& ext.len() == 3
    &&& ext[0] == 'p' || ext[0] == 'P'
    &&& ext[1] == 'n' || ext[1] == 'N'
    &&& ext[2] == 'g' || ext[2] == 'G'
}

/// The extension by which an image file is taken: `png` for such files, `jpg` for
/// all others.
pub open spec fn image_extension(path: Seq<char>) -> Seq<char> {
    match extension_text(path) {
        Some(ext) => if is_png_extension(ext) {
            "png"@
        } else {
            "jpg"@
        },
        None => "jpg"@,
    }
}

/// The extension by which an image file is taken.
pub fn image_ext_from_path(path: &str) -> (r: &'static str)
    ensures
        r@ == image_extension(path@),
{
    match extension(path) {
        Some(ext) => {
            let c = chars_of(&ext);
            if c.len() == 3 && (c[0] == 'p' || c[0] == 'P') && (c[1] == 'n' || c[1] == 'N') && (c[2]
                == 'g' || c[2] == 'G') {
                "png"
            } else {
                "jpg"
            }
        },
        None => "jpg",
    }
}

/// The address of an image file elsewhere.
pub fn external_image_uri(file: &ExternalFileRef) -> (r: String)
    ensures
        r@ == "external-image://"@ + file.id@ + "."@ + image_extension(file.path@),
{
    let front = join3("external-image://", file.id.as_str(), ".");
    join2(&front, image_ext_from_path(&file.path))
}

/// How large the viewer shows an image.
#[derive(Clone, Copy, Debug, PartialEq, Eq, Structural)]
pub enum ViewerScale {
    /// As large as the window lets it be, but not larger than it is.
    Fit,
    /// As large as it is.
    Natural,
}

/// The window that shows an image.
#[derive(Debug)]
pub struct ImageViewer {
    pub key: ImageBytesKey,
    pub title: String,
    pub uri: String,
    /// The size in pixels, once it is known.
    pub pixel_size: Option<[u32; 2]>,
    /// The size of the file in bytes, where it is known.
    pub byte_len: Option<u64>,
    /// The file to open elsewhere.
    pub original_path: Option<String>,
    pub scale: ViewerScale,
    /// The size of the decoded image was learned.
    pub measured: bool,
}

/// What the user chose in the viewer.
#[derive(Clone, Copy, Debug, PartialEq, Eq, Structural)]
pub enum ViewerChoice {
    FitToWindow,
    NaturalSize,
    OpenOriginal,
}

/// What is left to be done about a viewer.
#[derive(Debug)]
pub enum ViewerAction {
    Nothing,
    /// Open the file with another program.
    OpenOriginal(String),
    Close,
}

impl ImageViewer {
    /// A viewer that fits the image into its window.
    pub fn new(
        key: ImageBytesKey,
        title: String,
        uri: String,
        pixel_size: Option<[u32; 2]>,
        byte_len: Option<u64>,
        original_path: Option<String>,
    ) -> (r: Self)
        ensures
            r == (ImageViewer {
                key,
                title,
                uri,
                pixel_size,
                byte_len,
                original_path,
                scale: ViewerScale::Fit,
                measured: false,
            }),
    {
        ImageViewer {
            key,
            title,
            uri,
            pixel_size,
            byte_len,
            original_path,
            scale: ViewerScale::Fit,
            measured: false,
        }
    }

    /// Notes the size of the decoded image. A size that is already known stays.
    pub fn measure(&mut self, size: [u32; 2])
        ensures
            *final(self) == (ImageViewer {
                measured: true,
                pixel_size: match old(self).pixel_size {
                    Some(known) => Some(known),
                    None => Some(size),
                },
                ..*old(self)
            }),
    {
        self.measured = true;
        if self.pixel_size.is_none() {
            self.pixel_size = Some(size);
        }
    }

    /// The choices of the viewer: the file can be opened elsewhere if it is known.
    pub fn menu(&self) -> (r: Vec<ViewerChoice>)
        ensures
            r@ == if self.original_path is Some {
                seq![
                    ViewerChoice::FitToWindow,
                    ViewerChoice::NaturalSize,
                    ViewerChoice::OpenOriginal,
                ]
            } else {
                seq![ViewerChoice::FitToWindow, ViewerChoice::NaturalSize]
            },
    {
        let mut menu: Vec<ViewerChoice> = Vec::new();
        menu.push(ViewerChoice::FitToWindow);
        menu.push(ViewerChoice::NaturalSize);
        if self.original_path.is_some() {
            menu.push(ViewerChoice::OpenOriginal);
            assert(menu@ =~= seq![
                ViewerChoice::FitToWindow,
                ViewerChoice::NaturalSize,
                ViewerChoice::OpenOriginal,
            ]);
        } else {
            assert(menu@ =~= seq![ViewerChoice::FitToWindow, ViewerChoice::NaturalSize]);
        }
        menu
    }

    /// Does what the user chose.
    pub fn choose_item(&mut self, choice: ViewerChoice) -> (r: ViewerAction)
        ensures
            match choice {
                ViewerChoice::FitToWindow => r is Nothing && *final(self) == (ImageViewer {
                    scale: ViewerScale::Fit,
                    ..*old(self)
                }),
                ViewerChoice::NaturalSize => r is Nothing && *final(self) == (ImageViewer {
                    scale: ViewerScale::Natural,
                    ..*old(self)
                }),
                ViewerChoice::OpenOriginal => *final(self) == *old(self) && match old(
                    self,
                ).original_path {
                    Some(path) => r == ViewerAction::OpenOriginal(path),
                    None => r is Nothing,
                },
            },
    {
        match choice {
            ViewerChoice::FitToWindow => {
                self.scale = ViewerScale::Fit;
                ViewerAction::Nothing
            },
            ViewerChoice::NaturalSize => {
                self.scale = ViewerScale::Natural;
                ViewerAction::Nothing
            },
            ViewerChoice::OpenOriginal => match &self.original_path {
                Some(path) => ViewerAction::OpenOriginal(path.clone()),
                None => ViewerAction::Nothing,
            },
        }
    }

    /// The line below the image: its size in pixels, and that of its file in words.
    pub fn footer(&self, file_size: Option<String>) -> (r: Option<String>)
        ensures
            ({
                let parts = footer_parts(self.pixel_size, file_size);
                if parts.len() == 0 {
                    r is None
                } else {
                    r matches Some(text) && text@ == joined(parts, " · "@)
                }
            }),
    {
        let mut parts: Vec<String> = Vec::new();
        match self.pixel_size {
            Some(size) => {
                let width = join2(&decimal(size[0] as u64), "×");
                parts.push(join3(&width, &decimal(size[1] as u64), " px"));
            },
            None => {},
        }
        let ghost given = file_size;
        match file_size {
            Some(text) => {
                parts.push(text);
            },
            None => {},
        }
        assert(texts(parts@) =~= footer_parts(self.pixel_size, given));
        if parts.len() == 0 {
            None
        } else {
            Some(join(&parts, " · "))
        }
    }
}

/// The parts of the line below an image.
pub open spec fn footer_parts(
    pixel_size: Option<[u32; 2]>,
    file_size: Option<String>,
) -> Seq<Seq<char>> {
    let front = match pixel_size {
        Some(size) => seq![
            decimal_text(size[0] as nat) + "×"@ + decimal_text(size[1] as nat) + " px"@,
        ],
        None => Seq::empty(),
    };
    match file_size {
        Some(text) => front.push(text@),
        None => front,
    }
}

/// The address of a picture outside of the workspace ends with the extension of its
/// format: that of a PNG if its file has it, in whatever case, and else that of a JPEG.
pub proof fn pictures_keep_their_format(path: Seq<char>)
    ensures
        extension_text(path) == Some("png"@) ==> image_extension(path) == "png"@,
        extension_text(path) == Some("PNG"@) ==> image_extension(path) == "png"@,
        extension_text(path) is None ==> image_extension(path) == "jpg"@,
        extension_text(path) matches Some(ext) ==> ext.len() != 3 ==> image_extension(path)
            == "jpg"@,
{
    reveal_strlit("png");
    reveal_strlit("PNG");
}

/// The footer of a picture tells its size in pixels, and then that of its file.
pub proof fn footers_tell_both_sizes(pixel_size: Option<[u32; 2]>, file_size: Option<String>)
    ensures
        match (pixel_size, file_size) {
            (Some(size), Some(text)) => footer_parts(pixel_size, file_size) == seq![
                decimal_text(size[0] as nat) + "×"@ + decimal_text(size[1] as nat) + " px"@,
                text@,
            ],
            (Some(size), None) => footer_parts(pixel_size, file_size) == seq![
                decimal_text(size[0] as nat) + "×"@ + decimal_text(size[1] as nat) + " px"@,
            ],
            (None, Some(text)) => footer_parts(pixel_size, file_size) == seq![text@],
            (None, None) => footer_parts(pixel_size, file_size).len() == 0,
        },
{
}

} // verus!
