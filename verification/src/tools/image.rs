//! Image files: format detection from the extension, MIME types and names,
//! the checks before reading, base64 encoding and the result record.
//! Reading the file and decoding its dimensions is left to the application.

use crate::text;
use crate::text::{join, lowercase, views};
use base64::Engine;
use vstd::prelude::*;

verus! {

/// ImageTool - Image file operations
pub struct ImageTool;

/// Image file formats, as the image crate distinguishes them.
#[derive(Debug, Clone, Copy, PartialEq, Eq, Structural)]
pub enum ImageFormat {
    /// Portable Network Graphics
    Png,
    /// JPEG
    Jpeg,
    /// Graphics Interchange Format
    Gif,
    /// WebP
    WebP,
    /// Portable aNy Map
    Pnm,
    /// Tagged Image File Format
    Tiff,
    /// Truevision TGA
    Tga,
    /// DirectDraw Surface
    Dds,
    /// Windows bitmap
    Bmp,
    /// Windows icon
    Ico,
    /// Radiance HDR
    Hdr,
    /// OpenEXR
    OpenExr,
    /// Farbfeld
    Farbfeld,
    /// AV1 image
    Avif,
    /// Quite OK Image
    Qoi,
}

/// Image action type
#[derive(Debug, Clone, Copy, PartialEq, Eq, Structural)]
pub enum ImageAction {
    /// Get image information (dimensions, format, size)
    Info,
    /// Encode image to base64
    Encode,
    /// Analyze image with vision model (requires provider support)
    Analyze,
}

/// Image input parameters
#[derive(Debug, Clone)]
pub struct ImageInput {
    /// Path to image file
    pub file_path: String,
    /// Action to perform (info, encode, analyze)
    pub action: ImageAction,
}

/// Image output result
#[derive(Debug, Clone)]
pub struct ImageOutput {
    /// File path
    pub file_path: String,
    /// Image dimensions (width, height)
    pub dimensions: Option<(u32, u32)>,
    /// Image format (PNG, JPEG, etc.)
    pub format: Option<String>,
    /// File size in bytes
    pub size_bytes: u64,
    /// Base64 encoded image data (for encode action)
    pub base64: Option<String>,
    /// MIME type
    pub mime_type: Option<String>,
    /// Image description (for analyze action, if supported)
    pub description: Option<String>,
}

/// The default action.
pub fn default_action() -> (a: ImageAction)
    ensures
        a == ImageAction::Info,
{
    ImageAction::Info
}

/// The extension of a path (`Path::extension`), as text.
pub uninterp spec fn path_extension(p: Seq<char>) -> Option<Seq<char>>;

/// `Path::extension` of `path`, lossily as text: the extension named by
/// `path_extension`. Nothing more is stated of it.
#[verifier::external_body]
pub(crate) fn extension_of(path: &str) -> (r: Option<String>)
    ensures
        match r {
            Some(e) => path_extension(path@) == Some(e@),
            None => path_extension(path@) is None,
        },
{
    std::path::Path::new(path).extension().map(|e| e.to_string_lossy().to_string())
}

/// The base64 text (standard alphabet, padded) of some bytes.
pub uninterp spec fn base64_standard(data: Seq<u8>) -> Seq<char>;

/// `base64::engine::general_purpose::STANDARD.encode`: the text named by
/// `base64_standard`.
#[verifier::external_body]
pub(crate) fn encode_base64(data: &[u8]) -> (s: String)
    ensures
        s@ == base64_standard(data@),
{
    base64::engine::general_purpose::STANDARD.encode(data)
}

/// The extensions of supported images.
pub open spec fn supported_formats() -> Seq<Seq<char>> {
    seq!["png"@, "jpg"@, "jpeg"@, "gif"@, "bmp"@, "webp"@, "tiff"@]
}

/// The MIME type of a format.
pub open spec fn spec_mime_type(f: ImageFormat) -> Seq<char> {
    match f {
        ImageFormat::Png => "image/png"@,
        ImageFormat::Jpeg => "image/jpeg"@,
        ImageFormat::Gif => "image/gif"@,
        ImageFormat::Bmp => "image/bmp"@,
        ImageFormat::WebP => "image/webp"@,
        ImageFormat::Tiff => "image/tiff"@,
        _ => "application/octet-stream"@,
    }
}

/// The display name of a format.
pub open spec fn spec_format_name(f: ImageFormat) -> Seq<char> {
    match f {
        ImageFormat::Png => "PNG"@,
        ImageFormat::Jpeg => "JPEG"@,
        ImageFormat::Gif => "GIF"@,
        ImageFormat::Bmp => "BMP"@,
        ImageFormat::WebP => "WebP"@,
        ImageFormat::Tiff => "TIFF"@,
        _ => "Unknown"@,
    }
}

/// The format of a (lowercase) extension.
pub open spec fn format_of_ext(ext: Seq<char>) -> Option<ImageFormat> {
    if ext == "png"@ {
        Some(ImageFormat::Png)
    } else if ext == "jpg"@ || ext == "jpeg"@ {
        Some(ImageFormat::Jpeg)
    } else if ext == "gif"@ {
        Some(ImageFormat::Gif)
    } else if ext == "bmp"@ {
        Some(ImageFormat::Bmp)
    } else if ext == "webp"@ {
        Some(ImageFormat::WebP)
    } else if ext == "tiff"@ || ext == "tif"@ {
        Some(ImageFormat::Tiff)
    } else {
        None
    }
}

/// The format of a path, from its extension in lowercase.
pub open spec fn spec_detect_format(path: Seq<char>) -> Option<ImageFormat> {
    match path_extension(path) {
        Some(e) => format_of_ext(lowercase(e)),
        None => None,
    }
}

/// The path has the extension of a supported image, in any case.
pub open spec fn spec_is_supported(path: Seq<char>) -> bool {
    match path_extension(path) {
        Some(e) => supported_formats().contains(lowercase(e)),
        None => false,
    }
}

/// Get MIME type for image format
pub fn get_mime_type(format: ImageFormat) -> (s: String)
    ensures
        s@ == spec_mime_type(format),
{
    text::owned(
        match format {
            ImageFormat::Png => "image/png",
            ImageFormat::Jpeg => "image/jpeg",
            ImageFormat::Gif => "image/gif",
            ImageFormat::Bmp => "image/bmp",
            ImageFormat::WebP => "image/webp",
            ImageFormat::Tiff => "image/tiff",
            _ => "application/octet-stream",
        },
    )
}

/// Get format name string from ImageFormat
pub fn format_name_from_image_format(format: ImageFormat) -> (s: String)
    ensures
        s@ == spec_format_name(format),
{
    text::owned(
        match format {
            ImageFormat::Png => "PNG",
            ImageFormat::Jpeg => "JPEG",
            ImageFormat::Gif => "GIF",
            ImageFormat::Bmp => "BMP",
            ImageFormat::WebP => "WebP",
            ImageFormat::Tiff => "TIFF",
            _ => "Unknown",
        },
    )
}

/// The format of a lowercase extension.
fn format_of_extension(ext: &str) -> (r: Option<ImageFormat>)
    ensures
        r == format_of_ext(ext@),
{
    if text::str_eq(ext, "png") {
        Some(ImageFormat::Png)
    } else if text::str_eq(ext, "jpg") || text::str_eq(ext, "jpeg") {
        Some(ImageFormat::Jpeg)
    } else if text::str_eq(ext, "gif") {
        Some(ImageFormat::Gif)
    } else if text::str_eq(ext, "bmp") {
        Some(ImageFormat::Bmp)
    } else if text::str_eq(ext, "webp") {
        Some(ImageFormat::WebP)
    } else if text::str_eq(ext, "tiff") || text::str_eq(ext, "tif") {
        Some(ImageFormat::Tiff)
    } else {
        None
    }
}

/// Detect image format from file extension
pub fn detect_format(path: &str) -> (r: Option<ImageFormat>)
    ensures
        r == spec_detect_format(path@),
{
    match extension_of(path) {
        Some(ext) => {
            let lower = text::str_to_lowercase(ext.as_str());
            format_of_extension(lower.as_str())
        },
        None => None,
    }
}

/// Check if file is a supported image format
pub fn is_supported_image(path: &str) -> (b: bool)
    ensures
        b == spec_is_supported(path@),
{
    match extension_of(path) {
        Some(ext) => {
            let lower = text::str_to_lowercase(ext.as_str());
            let l = lower.as_str();
            let b = text::str_eq(l, "png") || text::str_eq(l, "jpg") || text::str_eq(l, "jpeg") || text::str_eq(
                l,
                "gif",
            ) || text::str_eq(l, "bmp") || text::str_eq(l, "webp") || text::str_eq(l, "tiff");
            proof {
                let s = supported_formats();
                if b {
                    if l@ == "png"@ { assert(s[0] == l@); }
                    if l@ == "jpg"@ { assert(s[1] == l@); }
                    if l@ == "jpeg"@ { assert(s[2] == l@); }
                    if l@ == "gif"@ { assert(s[3] == l@); }
                    if l@ == "bmp"@ { assert(s[4] == l@); }
                    if l@ == "webp"@ { assert(s[5] == l@); }
                    if l@ == "tiff"@ { assert(s[6] == l@); }
                } else {
                    assert forall|i: int| 0 <= i < s.len() implies s[i] != l@ by {}
                }
            }
            b
        },
        None => false,
    }
}

/// The error before reading an image, if any: the file is missing, or its
/// extension is not a supported one.
pub open spec fn precheck_error(path: Seq<char>, exists: bool) -> Option<Seq<char>> {
    if !exists {
        Some("Image file not found: "@ + path)
    } else if !spec_is_supported(path) {
        Some(
            "Unsupported image format: "@ + (match path_extension(path) {
                Some(e) => e,
                None => "unknown"@,
            }) + ". Supported: "@ + join(supported_formats(), ", "@),
        )
    } else {
        None
    }
}

/// The description given with an image prepared for analysis.
pub open spec fn analyze_description() -> Seq<char> {
    "Image ready for analysis. Pass base64 data to a vision-capable provider."@
}

impl ImageTool {
    /// An image tool.
    pub fn new() -> (t: Self) {
        Self
    }

    /// Tool name (used in API calls)
    pub fn name(&self) -> (n: &'static str)
        ensures
            n@ == "Image"@,
    {
        "Image"
    }

    /// Tool description (shown to the model)
    pub fn description(&self) -> (d: String)
        ensures
            d@ == "Read image files, get metadata (dimensions, format, size), encode to base64 for multimodal API support."@,
    {
        text::owned(
            "Read image files, get metadata (dimensions, format, size), encode to base64 for multimodal API support.",
        )
    }

    /// Reading images changes nothing.
    pub fn is_read_only(&self) -> (b: bool)
        ensures
            b,
    {
        true
    }

    /// The error before reading, if any.
    pub fn precheck(file_path: &str, exists: bool) -> (r: Option<String>)
        ensures
            match precheck_error(file_path@, exists) {
                Some(e) => r matches Some(m) && m@ == e,
                None => r is None,
            },
    {
        if !exists {
            let mut m = text::owned("Image file not found: ");
            text::push_str(&mut m, file_path);
            return Some(m);
        }
        if !is_supported_image(file_path) {
            let ext = match extension_of(file_path) {
                Some(e) => e,
                None => text::owned("unknown"),
            };
            let formats = vec![
                text::owned("png"),
                text::owned("jpg"),
                text::owned("jpeg"),
                text::owned("gif"),
                text::owned("bmp"),
                text::owned("webp"),
                text::owned("tiff"),
            ];
            assert(views(formats@) =~= supported_formats());
            let joined = text::join_strings(formats.as_slice(), ", ");
            let mut m = text::owned("Unsupported image format: ");
            text::push_str(&mut m, ext.as_str());
            text::push_str(&mut m, ". Supported: ");
            text::push_str(&mut m, joined.as_str());
            return Some(m);
        }
        None
    }

    /// Whether an action needs the file's bytes.
    pub fn needs_data(action: ImageAction) -> (b: bool)
        ensures
            b == (action != ImageAction::Info),
    {
        match action {
            ImageAction::Info => false,
            _ => true,
        }
    }

    /// The error when the file size cannot be read.
    pub fn size_error(e: &str) -> (m: String)
        ensures
            m@ == "Failed to get file size: "@ + e@,
    {
        let mut m = text::owned("Failed to get file size: ");
        text::push_str(&mut m, e);
        m
    }

    /// The error when the file cannot be read.
    pub fn read_error(e: &str) -> (m: String)
        ensures
            m@ == "Failed to read image: "@ + e@,
    {
        let mut m = text::owned("Failed to read image: ");
        text::push_str(&mut m, e);
        m
    }

    /// The result record: the detected format's name and MIME type (or
    /// "unknown" and the generic type), the size and dimensions, and for
    /// encoding and analysis the base64 text of `data`.
    pub fn output(input: &ImageInput, size_bytes: u64, dimensions: Option<(u32, u32)>, data: &[u8]) -> (out: ImageOutput)
        ensures
            out.file_path@ == input.file_path@,
            out.dimensions == dimensions,
            out.size_bytes == size_bytes,
            out.format matches Some(f) && f@ == match spec_detect_format(input.file_path@) {
                Some(fmt) => spec_format_name(fmt),
                None => "unknown"@,
            },
            out.mime_type matches Some(m) && m@ == match spec_detect_format(input.file_path@) {
                Some(fmt) => spec_mime_type(fmt),
                None => "application/octet-stream"@,
            },
            input.action == ImageAction::Info ==> out.base64 is None && out.description is None,
            input.action != ImageAction::Info ==> (out.base64 matches Some(b) && b@ == base64_standard(data@)),
            input.action == ImageAction::Encode ==> out.description is None,
            input.action == ImageAction::Analyze ==> (out.description matches Some(d) && d@ == analyze_description()),
    {
        let format = detect_format(input.file_path.as_str());
        let format_name = match format {
            Some(f) => format_name_from_image_format(f),
            None => text::owned("unknown"),
        };
        let mime_type = match format {
            Some(f) => get_mime_type(f),
            None => text::owned("application/octet-stream"),
        };
        let (base64, description) = match input.action {
            ImageAction::Info => (None, None),
            ImageAction::Encode => (Some(encode_base64(data)), None),
            ImageAction::Analyze => (
                Some(encode_base64(data)),
                Some(
                    text::owned(
                        "Image ready for analysis. Pass base64 data to a vision-capable provider.",
                    ),
                ),
            ),
        };
        ImageOutput {
            file_path: input.file_path.clone(),
            dimensions,
            format: Some(format_name),
            size_bytes,
            base64,
            mime_type: Some(mime_type),
            description,
        }
    }
}

} // verus!
