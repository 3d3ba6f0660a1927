use vstd::prelude::*;

use crate::file_utils::{join_path, output_dir_of, FileUtils};
use crate::image_cache::{after_get, after_put, cache_key_of, lookup, lemma_stored_bytes_are_served, ImageCache};
use crate::img_util::{encodable, encode_image, encoded, layout_len, resize_image, resize_outcome, DerivationError, PixelLayout, Raster};
use crate::models::{content_type_of, dim, format_of, ImageParams, OutputFormat};

verus! {

/// The outcome of a request.
pub enum Response {
    /// Image bytes and their MIME type.
    Image { content_type: String, body: Vec<u8> },
    /// The source is missing or its format is not supported.
    NotFound,
    /// Deriving or reading the image failed.
    InternalError,
}

/// What the request needs next after its source was checked.
pub enum Plan {
    /// A terminal outcome.
    Respond(Response),
    /// Serve the source's bytes unchanged.
    ReadSource { path: String },
    /// Serve the derived image: reuse `target` when it exists, otherwise derive
    /// it from `source` into `output_dir`.
    Derive { source: String, output_dir: String, target: String, width: u32, height: u32, format: OutputFormat },
}

/// A derived image: encoded bytes, or, for WebP, the raster that the WebP
/// encoder takes.
pub enum Encoded {
    Bytes(Vec<u8>),
    WebP(Raster),
}

/// The bytes a response carries, if it carries an image.
pub open spec fn body_of(r: Response) -> Option<Seq<u8>> {
    match r {
        Response::Image { body, .. } => Some(body@),
        _ => None,
    }
}

/// The MIME type a response carries, if it carries an image.
pub open spec fn content_type_in(r: Response) -> Option<Seq<char>> {
    match r {
        Response::Image { content_type, .. } => Some(content_type@),
        _ => None,
    }
}

/// The fingerprint of a request.
pub open spec fn key_of(params: ImageParams) -> Seq<char> {
    cache_key_of(params.file_name@, params.width, params.height)
}

/// A request for the original: no dimension is set (zero counts as unset).
pub open spec fn wants_original(params: ImageParams) -> bool {
    dim(params.width) == 0 && dim(params.height) == 0
}

pub fn return_internal_error() -> (r: Response)
    ensures
        r is InternalError,
{
    Response::InternalError
}

/// An image response with the file name's MIME type (`image` when the format
/// is unknown) and `data` as its body.
pub fn return_cached(data: Vec<u8>, params: &ImageParams) -> (r: Response)
    ensures
        body_of(r) == Some(data@),
        content_type_in(r) == Some(
            match format_of(params.file_name@) {
                Some(f) => content_type_of(f),
                None => seq!['i', 'm', 'a', 'g', 'e'],
            },
        ),
{
    let content_type = match params.get_content_type() {
        Some(t) => t,
        None => {
            proof {
                reveal_strlit("image");
                assert("image"@ =~= seq!['i', 'm', 'a', 'g', 'e']);
            }
            String::from_str("image")
        },
    };
    Response::Image { content_type, body: data }
}

/// The first steps of a request: an unsupported format ends it with
/// `NotFound` and leaves the cache alone; a cache hit ends it with the cached
/// bytes; a miss (`None`) sends it on to the source check.
pub fn lookup_request(cache: &mut ImageCache, params: &ImageParams) -> (r: Option<Response>)
    requires
        old(cache).wf(),
    ensures
        final(cache).wf(),
        final(cache).capacity() == old(cache).capacity(),
        format_of(params.file_name@) is None ==> r == Some(Response::NotFound) && final(cache).entries() == old(cache).entries(),
        format_of(params.file_name@) matches Some(f) ==> {
            &&& final(cache).entries() == after_get(old(cache).entries(), key_of(*params))
            &&& match lookup(old(cache).entries(), key_of(*params)) {
                Some(b) => r matches Some(resp) && body_of(resp) == Some(b) && content_type_in(resp) == Some(content_type_of(f)),
                None => r is None,
            }
        },
{
    if params.get_format().is_none() {
        return Some(Response::NotFound);
    }
    let key = ImageCache::get_cache_id(params);
    match cache.get(key.as_str()) {
        Some(bytes) => Some(return_cached(bytes, params)),
        None => None,
    }
}

/// The steps after the source check: a missing source or an unsupported format
/// gives `NotFound`; a request for the original reads the source; any other
/// request derives into `output_root/{width}/{height}/{file_name}`.
pub fn plan_request(files: &FileUtils, params: &ImageParams, source_exists: bool) -> (r: Plan)
    ensures
        !source_exists || format_of(params.file_name@) is None <==> r == Plan::Respond(Response::NotFound),
        r matches Plan::ReadSource { path } ==> wants_original(*params)
            && path@ == join_path(files.config().input_path@, params.file_name@),
        r matches Plan::Derive { source, output_dir, target, width, height, format } ==> {
            &&& !wants_original(*params)
            &&& Some(format) == format_of(params.file_name@)
            &&& width == dim(params.width) && height == dim(params.height)
            &&& source@ == join_path(files.config().input_path@, params.file_name@)
            &&& output_dir@ == output_dir_of(files.config().output_path@, width, height)
            &&& target@ == join_path(output_dir@, params.file_name@)
        },
        source_exists && format_of(params.file_name@) is Some ==> (wants_original(*params) <==> r is ReadSource),
        source_exists && format_of(params.file_name@) is Some && !wants_original(*params) ==> r is Derive,
{
    let format = match params.get_format() {
        Some(f) => f,
        None => return Plan::Respond(Response::NotFound),
    };
    if !source_exists {
        return Plan::Respond(Response::NotFound);
    }
    let source = files.build_input_path(params);
    let width = match params.width {
        Some(w) => w,
        None => 0,
    };
    let height = match params.height {
        Some(h) => h,
        None => 0,
    };
    if width == 0 && height == 0 {
        return Plan::ReadSource { path: source };
    }
    let output_dir = files.build_output_path(params);
    let target = files.build_path(output_dir.as_str(), params.file_name.as_str());
    Plan::Derive { source, output_dir, target, width, height, format }
}

/// Derives an image from the source's bytes: decode, resize to the size that
/// `target_dimensions` gives, and encode in `format` (WebP is handed back as a
/// raster for the WebP encoder).
pub fn derive_image(source: &[u8], width: u32, height: u32, format: OutputFormat) -> (r: Result<Encoded, DerivationError>)
    ensures
        match resize_outcome(source@, width, height) {
            Err(e) => r matches Err(x) && x == e,
            Ok((w, h, layout)) => if format == OutputFormat::WebP {
                r matches Ok(Encoded::WebP(out)) && out.width == w && out.height == h && out.layout == layout
                    && (layout != PixelLayout::Other ==> out.pixels@.len() == layout_len(layout, w, h))
            } else {
                match r {
                    Ok(Encoded::Bytes(b)) => exists|pixels: Seq<u8>|
                        encodable(layout, w, h, pixels) && #[trigger] encoded(layout, w, h, pixels, format) == Some(b@),
                    Ok(Encoded::WebP(_)) => false,
                    Err(e) => e == DerivationError::EncodeFailed && (w == 0 || h == 0 || exists|pixels: Seq<u8>|
                        encodable(layout, w, h, pixels) && #[trigger] encoded(layout, w, h, pixels, format) is None),
                }
            },
        },
{
    let raster = match resize_image(source, width, height) {
        Ok(raster) => raster,
        Err(e) => return Err(e),
    };
    match format {
        OutputFormat::WebP => Ok(Encoded::WebP(raster)),
        _ => {
            let ghost pixels = raster.pixels@;
            let ghost (w, h, layout) = (raster.width, raster.height, raster.layout);
            match encode_image(raster, format) {
                Ok(bytes) => {
                    assert(encodable(layout, w, h, pixels) && encoded(layout, w, h, pixels, format) == Some(bytes@));
                    Ok(Encoded::Bytes(bytes))
                },
                Err(e) => {
                    assert(w == 0 || h == 0 || (encodable(layout, w, h, pixels) && encoded(layout, w, h, pixels, format) is None));
                    Err(e)
                },
            }
        },
    }
}

/// The last step of a request: bytes that were read (the source, or the
/// derived image) are stored under the request's fingerprint and served; a
/// failed read gives `InternalError` and leaves the cache alone.
pub fn return_image(cache: &mut ImageCache, params: &ImageParams, bytes: Option<Vec<u8>>) -> (r: Response)
    requires
        old(cache).wf(),
        format_of(params.file_name@) is Some,
    ensures
        final(cache).wf(),
        final(cache).capacity() == old(cache).capacity(),
        bytes is None ==> r is InternalError && final(cache).entries() == old(cache).entries(),
        bytes matches Some(b) ==> {
            &&& final(cache).entries() == after_put(old(cache).entries(), old(cache).capacity(), key_of(*params), b@)
            &&& body_of(r) == Some(b@)
            &&& lookup(final(cache).entries(), key_of(*params)) == body_of(r)
            &&& content_type_in(r) == Some(content_type_of(format_of(params.file_name@)->Some_0))
        },
{
    match bytes {
        None => return_internal_error(),
        Some(b) => {
            let key = ImageCache::get_cache_id(params);
            let stored = b.clone();
            cache.insert(key, stored);
            proof {
                lemma_stored_bytes_are_served(old(cache).entries(), old(cache).capacity(), key_of(*params), b@);
            }
            return_cached(b, params)
        },
    }
}


/// Repeated requests are served the same bytes: once a request has been served
/// `body` (stored under its fingerprint by `return_image`), the next lookup of
/// an identical request is a memory hit with exactly those bytes, also after
/// a lookup of any other request in between.
pub proof fn lemma_repeated_request_same_bytes(
    entries: Seq<(Seq<char>, Seq<u8>)>,
    capacity: nat,
    params: ImageParams,
    body: Seq<u8>,
    other: ImageParams,
)
    requires
        crate::image_cache::unique_keys(entries),
        entries.len() <= capacity,
        capacity > 0,
    ensures
        lookup(after_put(entries, capacity, key_of(params), body), key_of(params)) == Some(body),
        lookup(after_get(after_put(entries, capacity, key_of(params), body), key_of(other)), key_of(params)) == Some(body),
{
    lemma_stored_bytes_are_served(entries, capacity, key_of(params), body);
    crate::image_cache::lemma_put_within_capacity(entries, capacity, key_of(params), body);
    crate::image_cache::lemma_other_requests_keep_bytes(
        after_put(entries, capacity, key_of(params), body),
        capacity,
        key_of(params),
        key_of(other),
        body,
    );
}

/// An absent dimension and an explicit zero are the same request: the same
/// fingerprint, and both ask for the original.
pub proof fn lemma_absent_equals_zero(name: String)
    ensures
        key_of(ImageParams { file_name: name, width: None, height: None })
            == key_of(ImageParams { file_name: name, width: Some(0u32), height: Some(0u32) }),
        wants_original(ImageParams { file_name: name, width: None, height: None }),
        wants_original(ImageParams { file_name: name, width: Some(0u32), height: Some(0u32) }),
{
    crate::image_cache::lemma_absent_and_zero_share_key(name@);
}

} // verus!
