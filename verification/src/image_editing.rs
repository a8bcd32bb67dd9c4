//! The rules of image editing during one response: the call and size
//! budgets, image ids, and the bounds every input and output must keep.
use vstd::prelude::*;
use crate::text::{chars_of, copy_string, decimal, push_chars, push_str_chars, starts_with};
use crate::web_search::fetch::{parse_u64, spec_parse_u64};

verus! {

/// Image tool calls allowed per response.
pub const MAX_CALLS: usize = 8;

/// The largest decoded image, in bytes.
pub const MAX_BYTES: usize = 12582912;

/// The most bytes of edited images one response may produce.
pub const MAX_SESSION_BYTES: usize = 33554432;

/// The most pixels of an edited image.
pub const MAX_PIXELS: u64 = 16000000;

/// An image as it is sent to a model: its MIME type and base64 data.
#[derive(Clone, Debug)]
pub struct EncodedImage {
    pub mime_type: String,
    pub data: String,
}

/// The images of one response: the attached originals first, then the
/// edited copies, with the calls and bytes spent so far.
pub struct ImageSession {
    pub images: Vec<EncodedImage>,
    pub original_count: usize,
    pub calls: usize,
    pub generated_bytes: usize,
}

/// The session invariant: counts within their budgets.
pub open spec fn session_ok(s: ImageSession) -> bool {
    &&& s.original_count <= s.images@.len()
    &&& s.calls <= MAX_CALLS
    &&& s.generated_bytes <= MAX_SESSION_BYTES
}

pub const CALL_LIMIT_REACHED: &'static str = "Image tool call limit reached for this response.";

pub const BAD_IMAGE_ID: &'static str = "Use an image_id returned by list_images.";

pub const UNKNOWN_IMAGE_ID: &'static str = "Unknown image_id for this turn.";

pub const SESSION_BUDGET_EXCEEDED: &'static str = "Edited images exceeded the 32 MB budget for this response.";

/// The index an `image-N` id names: `N - 1`, when `N` is a positive number.
pub open spec fn spec_image_index(id: Seq<char>) -> Option<int> {
    if starts_with(id, "image-"@) {
        match spec_parse_u64(id.skip(6)) {
            Some(n) => if n >= 1 && n <= usize::MAX {
                Some(n - 1)
            } else {
                None
            },
            None => None,
        }
    } else {
        None
    }
}

impl ImageSession {
    /// A session over the attached images, with nothing spent.
    pub fn new(images: Vec<EncodedImage>) -> (out: Self)
        ensures
            out.images@ == images@,
            out.original_count == images@.len(),
            out.calls == 0,
            out.generated_bytes == 0,
            session_ok(out),
    {
        let n = images.len();
        ImageSession { images, original_count: n, calls: 0, generated_bytes: 0 }
    }

    /// Whether another image tool call is allowed.
    pub fn has_capacity(&self) -> (out: bool)
        ensures
            out == (self.calls < MAX_CALLS),
    {
        self.calls < MAX_CALLS
    }

    /// Counts one image tool call, or refuses it when the budget is spent.
    pub fn take_call(&mut self) -> (out: Result<(), String>)
        requires
            session_ok(*old(self)),
        ensures
            session_ok(*final(self)),
            final(self).images == old(self).images,
            final(self).original_count == old(self).original_count,
            final(self).generated_bytes == old(self).generated_bytes,
            old(self).calls < MAX_CALLS ==> out is Ok && final(self).calls == old(self).calls + 1,
            old(self).calls >= MAX_CALLS ==> (out matches Err(m) && m@ == CALL_LIMIT_REACHED@)
                && final(self).calls == old(self).calls,
    {
        if self.calls >= MAX_CALLS {
            return Err(copy_string(CALL_LIMIT_REACHED));
        }
        self.calls = self.calls + 1;
        Ok(())
    }

    /// The index of the image an id names, refusing malformed and unknown ids.
    pub fn resolve_image_id(&self, image_id: &str) -> (out: Result<usize, String>)
        ensures
            spec_image_index(image_id@) is None ==> (out matches Err(m) && m@ == BAD_IMAGE_ID@),
            spec_image_index(image_id@) matches Some(i) ==> {
                &&& i < self.images@.len() ==> out == Ok::<usize, String>(i as usize)
                &&& i >= self.images@.len() ==> (out matches Err(m) && m@ == UNKNOWN_IMAGE_ID@)
            },
    {
        let cs = chars_of(image_id);
        let prefix = chars_of("image-");
        proof {
            reveal_strlit("image-");
        }
        if !crate::text::starts_with_chars(cs.as_slice(), prefix.as_slice()) {
            return Err(copy_string(BAD_IMAGE_ID));
        }
        let digits = crate::text::slice_range(cs.as_slice(), 6, cs.len());
        assert(digits@ == cs@.skip(6));
        let n = match parse_u64(digits.as_slice()) {
            Some(n) => n,
            None => return Err(copy_string(BAD_IMAGE_ID)),
        };
        if n < 1 || n > usize::MAX as u64 {
            return Err(copy_string(BAD_IMAGE_ID));
        }
        let index = (n - 1) as usize;
        if index < self.images.len() {
            Ok(index)
        } else {
            Err(copy_string(UNKNOWN_IMAGE_ID))
        }
    }

    /// Keeps an edited image, within the session's byte budget, and
    /// returns the id it gets (`image-N` for the new count `N`); the budget
    /// counts the bytes of the encoded data.
    pub fn record_edit(&mut self, image: EncodedImage) -> (out: Result<String, String>)
        requires
            session_ok(*old(self)),
            vstd::utf8::encode_utf8(image.data@).len() <= usize::MAX,
        ensures
            session_ok(*final(self)),
            final(self).calls == old(self).calls,
            final(self).original_count == old(self).original_count,
            old(self).generated_bytes + vstd::utf8::encode_utf8(image.data@).len() > MAX_SESSION_BYTES ==> (out matches Err(m)
                && m@ == SESSION_BUDGET_EXCEEDED@) && final(self).images@ == old(self).images@
                && final(self).generated_bytes == old(self).generated_bytes,
            old(self).generated_bytes + vstd::utf8::encode_utf8(image.data@).len() <= MAX_SESSION_BYTES ==> (out matches Ok(id)
                && id@ == "image-"@ + decimal(final(self).images@.len() as nat))
                && final(self).images@ == old(self).images@.push(image)
                && final(self).generated_bytes == old(self).generated_bytes + vstd::utf8::encode_utf8(image.data@).len(),
    {
        let size = image.data.as_str().len();
        if size > MAX_SESSION_BYTES - self.generated_bytes {
            return Err(copy_string(SESSION_BUDGET_EXCEEDED));
        }
        self.generated_bytes = self.generated_bytes + size;
        self.images.push(image);
        let mut id = copy_string("image-");
        let digits = crate::text::decimal_chars(self.images.len() as u64);
        push_chars(&mut id, digits.as_slice());
        Ok(id)
    }
}

/// The pixels of a `width` by `height` image.
fn pixel_count(width: u32, height: u32) -> (out: u64)
    ensures
        out == width * height,
{
    assert(width * height <= 0xffff_ffff_u64 * 0xffff_ffff_u64) by (nonlinear_arith)
        requires
            width <= 0xffff_ffff_u64,
            height <= 0xffff_ffff_u64,
    ;
    (width as u64) * (height as u64)
}

pub const OUTPUT_SIZE_ERROR: &'static str = "Output must be 1–4096 pixels per side and at most 16 megapixels; crop or resize first.";

/// An edited image must have 1 to 4096 pixels per side and at most
/// `MAX_PIXELS` pixels.
pub open spec fn output_size_ok(width: u32, height: u32) -> bool {
    width != 0 && height != 0 && width <= 4096 && height <= 4096 && width * height <= MAX_PIXELS
}

pub fn output_size(width: u32, height: u32) -> (out: Result<(), String>)
    ensures
        output_size_ok(width, height) ==> out is Ok,
        !output_size_ok(width, height) ==> (out matches Err(m) && m@ == OUTPUT_SIZE_ERROR@),
{
    if width == 0 || height == 0 || width > 4096 || height > 4096 || pixel_count(width, height)
        > MAX_PIXELS {
        Err(copy_string(OUTPUT_SIZE_ERROR))
    } else {
        Ok(())
    }
}

pub const INPUT_SIZE_ERROR: &'static str = "Input exceeds the 32 megapixel editing limit.";

/// An image that can be edited: 1 to 16384 pixels per side and at most 32
/// million pixels.
pub open spec fn input_size_ok(width: u32, height: u32) -> bool {
    width != 0 && height != 0 && width <= 16384 && height <= 16384 && width * height <= 32000000
}

pub fn check_input_dimensions(width: u32, height: u32) -> (out: Result<(u32, u32), String>)
    ensures
        input_size_ok(width, height) ==> out == Ok::<(u32, u32), String>((width, height)),
        !input_size_ok(width, height) ==> (out matches Err(m) && m@ == INPUT_SIZE_ERROR@),
{
    if width == 0 || height == 0 || width > 16384 || height > 16384 || pixel_count(width, height)
        > 32000000 {
        Err(copy_string(INPUT_SIZE_ERROR))
    } else {
        Ok((width, height))
    }
}

pub const IMAGE_TOO_LARGE: &'static str = "Image exceeds the 12 MB editing limit.";

/// Whether base64 data of this length may decode to at most `MAX_BYTES`
/// bytes, checked before decoding.
pub fn encoded_size_ok(encoded_len: usize) -> (out: bool)
    ensures
        out == (encoded_len <= MAX_BYTES * 4 / 3 + 4),
{
    encoded_len <= MAX_BYTES / 3 * 4 + 4
}

pub const CROP_OUTSIDE: &'static str = "Crop rectangle is outside the selected image.";

/// The filter of a crop to `width` by `height` at (`x`, `y`) of an image of
/// `image_width` by `image_height`: the output size must be allowed and the
/// rectangle must lie inside the image.
pub fn crop_filter(x: u32, y: u32, width: u32, height: u32, image_width: u32, image_height: u32) -> (out: Result<String, String>)
    ensures
        !output_size_ok(width, height) ==> (out matches Err(m) && m@ == OUTPUT_SIZE_ERROR@),
        output_size_ok(width, height) && (x + width > image_width || y + height > image_height) ==> (
        out matches Err(m) && m@ == CROP_OUTSIDE@),
        output_size_ok(width, height) && x + width <= image_width && y + height <= image_height ==> (
        out matches Ok(f) && f@ == "crop="@ + decimal(width as nat) + ":"@ + decimal(height as nat)
            + ":"@ + decimal(x as nat) + ":"@ + decimal(y as nat) + ":exact=1"@),
{
    match output_size(width, height) {
        Ok(()) => {},
        Err(e) => return Err(e),
    }
    if (x as u64) + (width as u64) > image_width as u64 || (y as u64) + (height as u64)
        > image_height as u64 {
        return Err(copy_string(CROP_OUTSIDE));
    }
    let mut f = copy_string("crop=");
    push_chars(&mut f, crate::text::decimal_chars(width as u64).as_slice());
    push_str_chars(&mut f, ":");
    push_chars(&mut f, crate::text::decimal_chars(height as u64).as_slice());
    push_str_chars(&mut f, ":");
    push_chars(&mut f, crate::text::decimal_chars(x as u64).as_slice());
    push_str_chars(&mut f, ":");
    push_chars(&mut f, crate::text::decimal_chars(y as u64).as_slice());
    push_str_chars(&mut f, ":exact=1");
    Ok(f)
}

/// The filter of a resize to `width` by `height`, which must be an allowed output size.
pub fn resize_filter(width: u32, height: u32) -> (out: Result<String, String>)
    ensures
        !output_size_ok(width, height) ==> (out matches Err(m) && m@ == OUTPUT_SIZE_ERROR@),
        output_size_ok(width, height) ==> (out matches Ok(f) && f@ == "scale="@ + decimal(
            width as nat,
        ) + ":"@ + decimal(height as nat) + ":flags=lanczos"@),
{
    match output_size(width, height) {
        Ok(()) => {},
        Err(e) => return Err(e),
    }
    let mut f = copy_string("scale=");
    push_chars(&mut f, crate::text::decimal_chars(width as u64).as_slice());
    push_str_chars(&mut f, ":");
    push_chars(&mut f, crate::text::decimal_chars(height as u64).as_slice());
    push_str_chars(&mut f, ":flags=lanczos");
    Ok(f)
}

/// The filter of a black-and-white threshold at `level` (128 when none is given).
pub fn threshold_filter(level: Option<u8>) -> (out: String)
    ensures
        out@ == "format=gray,lut=y='if(gte(val,"@ + decimal(
            match level {
                Some(l) => l as nat,
                None => 128,
            },
        ) + "),255,0)'"@,
{
    let l: u8 = match level {
        Some(l) => l,
        None => 128,
    };
    let mut f = copy_string("format=gray,lut=y='if(gte(val,");
    push_chars(&mut f, crate::text::decimal_chars(l as u64).as_slice());
    push_str_chars(&mut f, "),255,0)'");
    f
}

// ---------------------------------------------------------------------------
// Image data
// ---------------------------------------------------------------------------

/// What the standard base64 engine decodes `data` to, or the text of its error.
pub uninterp spec fn spec_base64_decode(data: Seq<char>) -> Result<Seq<u8>, Seq<char>>;

/// What the standard base64 engine encodes `bytes` to.
pub uninterp spec fn spec_base64_encode(bytes: Seq<u8>) -> Seq<char>;

/// What the image crate reads as the width and height of an image file
/// (its format guessed from its first bytes), or the text of its error.
pub uninterp spec fn spec_image_dimensions(bytes: Seq<u8>) -> Result<(u32, u32), Seq<char>>;

/// Calls `Engine::decode` on `base64::engine::general_purpose::STANDARD`.
/// Trusted: the result is named `spec_base64_decode`; an error is reported
/// with its text.
#[verifier::external_body]
pub(crate) fn base64_decode(data: &str) -> (out: Result<Vec<u8>, String>)
    ensures
        match out {
            Ok(b) => spec_base64_decode(data@) == Ok::<Seq<u8>, Seq<char>>(b@),
            Err(m) => spec_base64_decode(data@) == Err::<Seq<u8>, Seq<char>>(m@),
        },
{
    base64::Engine::decode(&base64::engine::general_purpose::STANDARD, data).map_err(|error| error.to_string())
}

/// Calls `Engine::encode` on `base64::engine::general_purpose::STANDARD`.
/// Trusted: the result is named `spec_base64_encode`.
#[verifier::external_body]
fn base64_encode(bytes: &[u8]) -> (out: String)
    ensures
        out@ == spec_base64_encode(bytes@),
{
    base64::Engine::encode(&base64::engine::general_purpose::STANDARD, bytes)
}

/// Calls `ImageReader::new` on the bytes, `with_guessed_format` and
/// `into_dimensions`. Trusted: the result is named `spec_image_dimensions`;
/// an error is reported with its text.
#[verifier::external_body]
pub(crate) fn read_image_dimensions(bytes: &[u8]) -> (out: Result<(u32, u32), String>)
    ensures
        match out {
            Ok(d) => spec_image_dimensions(bytes@) == Ok::<(u32, u32), Seq<char>>(d),
            Err(m) => spec_image_dimensions(bytes@) == Err::<(u32, u32), Seq<char>>(m@),
        },
{
    let reader = image::ImageReader::new(std::io::Cursor::new(bytes));
    reader.with_guessed_format().map_err(|error| error.to_string())?.into_dimensions().map_err(|error| error.to_string())
}

pub const INVALID_ENCODING: &'static str = "Invalid image encoding.";

/// The length in bytes that `str::len` reports for a text.
pub open spec fn byte_len(s: Seq<char>) -> usize {
    vstd::utf8::encode_utf8(s).len() as usize
}

/// The bytes of an image: its data must be at most the base64 length of
/// `MAX_BYTES` (plus padding), decode as standard base64, and decode to at
/// most `MAX_BYTES` bytes.
pub open spec fn spec_image_bytes(data: Seq<char>) -> Result<Seq<u8>, Seq<char>> {
    if byte_len(data) > MAX_BYTES * 4 / 3 + 4 {
        Err(IMAGE_TOO_LARGE@)
    } else {
        match spec_base64_decode(data) {
            Err(_) => Err(INVALID_ENCODING@),
            Ok(b) => if b.len() > MAX_BYTES {
                Err(IMAGE_TOO_LARGE@)
            } else {
                Ok(b)
            },
        }
    }
}

pub open spec fn bytes_result_view(r: Result<Vec<u8>, String>) -> Result<Seq<u8>, Seq<char>> {
    match r {
        Ok(b) => Ok(b@),
        Err(m) => Err(m@),
    }
}

/// The decoded bytes of an image, within the editing limit.
pub fn image_bytes(image: &EncodedImage) -> (out: Result<Vec<u8>, String>)
    ensures
        bytes_result_view(out) == spec_image_bytes(image.data@),
{
    if !encoded_size_ok(image.data.as_str().len()) {
        return Err(copy_string(IMAGE_TOO_LARGE));
    }
    let bytes = match base64_decode(image.data.as_str()) {
        Ok(b) => b,
        Err(_) => return Err(copy_string(INVALID_ENCODING)),
    };
    if bytes.len() > MAX_BYTES {
        return Err(copy_string(IMAGE_TOO_LARGE));
    }
    Ok(bytes)
}

/// The size of an image that may be edited: what the image crate reads,
/// within the input limits.
pub open spec fn spec_dimensions(bytes: Seq<u8>) -> Result<(u32, u32), Seq<char>> {
    match spec_image_dimensions(bytes) {
        Err(m) => Err(m),
        Ok((w, h)) => if input_size_ok(w, h) {
            Ok((w, h))
        } else {
            Err(INPUT_SIZE_ERROR@)
        },
    }
}

pub open spec fn size_result_view(r: Result<(u32, u32), String>) -> Result<(u32, u32), Seq<char>> {
    match r {
        Ok(d) => Ok(d),
        Err(m) => Err(m@),
    }
}

/// The width and height of an image file that may be edited.
pub fn dimensions(bytes: &[u8]) -> (out: Result<(u32, u32), String>)
    ensures
        size_result_view(out) == spec_dimensions(bytes@),
{
    let (w, h) = match read_image_dimensions(bytes) {
        Ok(d) => d,
        Err(m) => return Err(m),
    };
    check_input_dimensions(w, h)
}

/// An image attached to a user message: its MIME type and bytes.
#[derive(Clone, Debug)]
pub struct ChatImage {
    pub mime_type: String,
    pub bytes: Vec<u8>,
}

/// The messages an image tool may look at: all of them when history is
/// used, else only the last.
pub open spec fn image_window(count: int, history_enabled: bool) -> int {
    if history_enabled || count == 0 {
        0
    } else {
        count - 1
    }
}

/// The index of the latest message in `messages[start..]` with images.
pub open spec fn latest_with_images(messages: Seq<Vec<ChatImage>>, start: int) -> Option<int>
    decreases messages.len() - start,
{
    if start >= messages.len() {
        None
    } else {
        match latest_with_images(messages, start + 1) {
            Some(i) => Some(i),
            None => if messages[start]@.len() > 0 {
                Some(start)
            } else {
                None
            },
        }
    }
}

/// The image as a model receives it: same MIME type, base64 data.
pub open spec fn encoded_view(image: ChatImage) -> (Seq<char>, Seq<char>) {
    (image.mime_type@, spec_base64_encode(image.bytes@))
}

/// The images of the latest user message that has any, among the messages
/// in view (`messages[i]` are the images of message `i`, empty for replies),
/// encoded for the model; none when no such message is in view.
pub fn conversation_images(messages: &[Vec<ChatImage>], history_enabled: bool) -> (out: Vec<EncodedImage>)
    ensures
        match latest_with_images(messages@, image_window(messages@.len() as int, history_enabled)) {
            None => out@.len() == 0,
            Some(i) => out@.len() == messages@[i]@.len() && forall|j: int|
                0 <= j < out@.len() ==> (#[trigger] out@[j].mime_type@, out@[j].data@) == encoded_view(
                    messages@[i]@[j],
                ),
        },
{
    let start: usize = if history_enabled || messages.len() == 0 {
        0
    } else {
        messages.len() - 1
    };
    let mut k = messages.len();
    proof {
        lemma_latest_after(messages@, k as int);
    }
    while k > start
        invariant
            start <= k <= messages@.len(),
            start == image_window(messages@.len() as int, history_enabled),
            latest_with_images(messages@, k as int) is None,
        decreases k,
    {
        proof {
            lemma_latest_after(messages@, k as int);
        }
        if messages[k - 1].len() > 0 {
            proof {
                lemma_latest_prefix(messages@, start as int, k - 1);
            }
            let images = &messages[k - 1];
            assert(images@ == messages@[k - 1]@);
            let mut out: Vec<EncodedImage> = Vec::new();
            let mut j: usize = 0;
            while j < images.len()
                invariant
                    j <= images@.len(),
                    out@.len() == j,
                    forall|m: int| 0 <= m < j ==> (#[trigger] out@[m].mime_type@, out@[m].data@) == encoded_view(images@[m]),
                decreases images@.len() - j,
            {
                let image = &images[j];
                out.push(EncodedImage { mime_type: copy_string(image.mime_type.as_str()), data: base64_encode(image.bytes.as_slice()) });
                j = j + 1;
            }
            return out;
        }
        k = k - 1;
    }
    Vec::new()
}

proof fn lemma_latest_after(messages: Seq<Vec<ChatImage>>, k: int)
    requires
        0 <= k <= messages.len(),
    ensures
        k == messages.len() ==> latest_with_images(messages, k) is None,
        k >= 1 ==> latest_with_images(messages, k - 1) == match latest_with_images(messages, k) {
            Some(i) => Some(i),
            None => if messages[k - 1]@.len() > 0 {
                Some(k - 1)
            } else {
                None
            },
        },
{
}

proof fn lemma_latest_prefix(messages: Seq<Vec<ChatImage>>, start: int, m: int)
    requires
        0 <= start <= m <= messages.len(),
        latest_with_images(messages, m) is Some,
    ensures
        latest_with_images(messages, start) == latest_with_images(messages, m),
    decreases m - start,
{
    if start < m {
        lemma_latest_prefix(messages, start + 1, m);
    }
}

/// What `list_images` reports of one image.
#[derive(Debug)]
pub struct ImageEntry {
    pub image_id: String,
    /// Whether the user attached it (else it is an edited copy).
    pub original: bool,
    /// Its width and height, or why they could not be read.
    pub size: Result<(u32, u32), String>,
}

impl ImageSession {
    /// The `list_images` report: each image's id (`image-N`), whether it is
    /// an original, and its editable size or the error reading it.
    pub fn list_image_entries(&self) -> (out: Vec<ImageEntry>)
        ensures
            out@.len() == self.images@.len(),
            forall|i: int| 0 <= i < out@.len() ==> {
                &&& (#[trigger] out@[i]).image_id@ == "image-"@ + decimal((i + 1) as nat)
                &&& out@[i].original == (i < self.original_count)
                &&& size_result_view(out@[i].size) == match spec_image_bytes(self.images@[i].data@) {
                    Ok(b) => spec_dimensions(b),
                    Err(m) => Err(m),
                }
            },
    {
        let mut out: Vec<ImageEntry> = Vec::new();
        let mut i: usize = 0;
        while i < self.images.len()
            invariant
                i <= self.images@.len(),
                out@.len() == i,
                forall|k: int| 0 <= k < i ==> {
                    &&& (#[trigger] out@[k]).image_id@ == "image-"@ + decimal((k + 1) as nat)
                    &&& out@[k].original == (k < self.original_count)
                    &&& size_result_view(out@[k].size) == match spec_image_bytes(self.images@[k].data@) {
                        Ok(b) => spec_dimensions(b),
                        Err(m) => Err(m),
                    }
                },
            decreases self.images@.len() - i,
        {
            let mut id = copy_string("image-");
            let digits = crate::text::decimal_chars((i + 1) as u64);
            push_chars(&mut id, digits.as_slice());
            let size = match image_bytes(&self.images[i]) {
                Ok(bytes) => dimensions(bytes.as_slice()),
                Err(m) => Err(m),
            };
            out.push(ImageEntry { image_id: id, original: i < self.original_count, size });
            i = i + 1;
        }
        out
    }
}

pub const LIST_IMAGES_ARGUMENTS: &'static str = "list_images takes an empty arguments object.";

pub const UNKNOWN_IMAGE_TOOL: &'static str = "Unknown image tool.";

pub const NO_IMAGES: &'static str = "No images are available. Ask the user to attach an image to edit.";

/// An image tool call that may go ahead.
/// One image tool call's effect on the call count: it uses one of the
/// session's calls while any remain.
pub open spec fn uses_one_call(before: ImageSession, after: ImageSession) -> bool {
    after.calls == if before.calls < MAX_CALLS {
        before.calls + 1
    } else {
        before.calls as int
    }
}

/// Every image tool call, whatever its outcome, uses one of the
/// `MAX_CALLS` calls while any remain: after `n` calls from a new session
/// `min(n, MAX_CALLS)` are used, so the session has capacity exactly while
/// fewer than `MAX_CALLS` calls were made. `trace` holds the session before
/// the first call and after each call (`begin_call` ensures
/// `uses_one_call`; the later steps of a call keep the count).
pub proof fn law_each_call_uses_one_of_the_calls(trace: Seq<ImageSession>)
    requires
        trace.len() > 0,
        trace[0].calls == 0,
        forall|i: int| 0 <= i < trace.len() - 1 ==> uses_one_call(#[trigger] trace[i], trace[i + 1]),
    ensures
        forall|i: int|
            0 <= i < trace.len() ==> (#[trigger] trace[i]).calls == if i < MAX_CALLS {
                i
            } else {
                MAX_CALLS as int
            },
        (trace.last().calls < MAX_CALLS) == (trace.len() - 1 < MAX_CALLS),
    decreases trace.len(),
{
    if trace.len() > 1 {
        let shorter = trace.drop_last();
        assert forall|i: int| 0 <= i < shorter.len() - 1 implies uses_one_call(
            #[trigger] shorter[i],
            shorter[i + 1],
        ) by {
            assert(uses_one_call(trace[i], trace[i + 1]));
        }
        law_each_call_uses_one_of_the_calls(shorter);
        assert forall|i: int| 0 <= i < trace.len() implies (#[trigger] trace[i]).calls == if i
            < MAX_CALLS {
            i
        } else {
            MAX_CALLS as int
        } by {
            if i < trace.len() - 1 {
                assert(trace[i] == shorter[i]);
            } else {
                assert(shorter[i - 1] == trace[i - 1]);
                assert(uses_one_call(trace[i - 1], trace[i]));
            }
        }
    }
}

#[derive(Clone, Copy, Debug, PartialEq, Eq, Structural)]
pub enum ImageToolCall {
    ListImages,
    EditImage,
}

impl ImageSession {
    /// Starts an image tool call: it is counted if the budget allows; then
    /// `list_images` needs an empty arguments object, `edit_image` needs an
    /// image to edit, and any other name is unknown.
    pub fn begin_call(&mut self, name: &str, arguments_are_empty_object: bool) -> (out: Result<ImageToolCall, String>)
        requires
            session_ok(*old(self)),
        ensures
            session_ok(*final(self)),
            uses_one_call(*old(self), *final(self)),
            final(self).images == old(self).images,
            final(self).original_count == old(self).original_count,
            final(self).generated_bytes == old(self).generated_bytes,
            old(self).calls >= MAX_CALLS ==> (out matches Err(m) && m@ == CALL_LIMIT_REACHED@)
                && final(self).calls == old(self).calls,
            old(self).calls < MAX_CALLS ==> {
                &&& final(self).calls == old(self).calls + 1
                &&& name@ == "list_images"@ && arguments_are_empty_object ==> out == Ok::<
                    ImageToolCall,
                    String,
                >(ImageToolCall::ListImages)
                &&& name@ == "list_images"@ && !arguments_are_empty_object ==> (out matches Err(m)
                    && m@ == LIST_IMAGES_ARGUMENTS@)
                &&& name@ == "edit_image"@ && old(self).images@.len() > 0 ==> out == Ok::<
                    ImageToolCall,
                    String,
                >(ImageToolCall::EditImage)
                &&& name@ == "edit_image"@ && old(self).images@.len() == 0 ==> (out matches Err(m)
                    && m@ == NO_IMAGES@)
                &&& name@ != "list_images"@ && name@ != "edit_image"@ ==> (out matches Err(m) && m@
                    == UNKNOWN_IMAGE_TOOL@)
            },
    {
        proof {
            reveal_strlit("list_images");
            reveal_strlit("edit_image");
            assert("list_images"@.len() != "edit_image"@.len());
        }
        match self.take_call() {
            Ok(()) => {},
            Err(m) => return Err(m),
        }
        if crate::text::same_text(name, "list_images") {
            if !arguments_are_empty_object {
                return Err(copy_string(LIST_IMAGES_ARGUMENTS));
            }
            return Ok(ImageToolCall::ListImages);
        }
        if !crate::text::same_text(name, "edit_image") {
            return Err(copy_string(UNKNOWN_IMAGE_TOOL));
        }
        if self.images.len() == 0 {
            return Err(copy_string(NO_IMAGES));
        }
        Ok(ImageToolCall::EditImage)
    }
}

} // verus!
