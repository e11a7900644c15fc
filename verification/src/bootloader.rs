//! Where image bytes come from (memory, a local file or an HTTP(S) URL),
//! and the bootloader built from them. Reading a file or fetching a URL is
//! left to the caller: loading says which of the two is needed, and the
//! image is then built from the bytes that came back.
use vstd::prelude::*;
use crate::error::X86Error;
use crate::image::{Image, ImageKind, ImageView};

verus! {

/// A source of image bytes.
pub enum Resource {
    File(String),
    Url(String),
    Bytes { name: String, bytes: Vec<u8> },
}

/// What a `Resource` holds.
pub enum ResourceView {
    File(Seq<char>),
    Url(Seq<char>),
    Bytes { name: Seq<char>, bytes: Seq<u8> },
}

impl View for Resource {
    type V = ResourceView;

    open spec fn view(&self) -> ResourceView {
        match self {
            Resource::File(p) => ResourceView::File(p@),
            Resource::Url(u) => ResourceView::Url(u@),
            Resource::Bytes { name, bytes } => ResourceView::Bytes { name: name@, bytes: bytes@ },
        }
    }
}

impl Resource {
    /// The local file at `path`.
    pub fn file(path: String) -> (r: Resource)
        ensures
            r@ == ResourceView::File(path@),
    {
        Resource::File(path)
    }

    /// The HTTP(S) URL `url`.
    pub fn url(url: String) -> (r: Resource)
        ensures
            r@ == ResourceView::Url(url@),
    {
        Resource::Url(url)
    }

    /// `bytes` held in memory, named `name`.
    pub fn bytes(name: String, bytes: Vec<u8>) -> (r: Resource)
        ensures
            r@ == (ResourceView::Bytes { name: name@, bytes: bytes@ }),
    {
        Resource::Bytes { name, bytes }
    }
}

/// How to fetch a URL: the time limit, in seconds, and the user agent to send.
pub struct FetchOptions {
    pub timeout_secs: u64,
    pub user_agent: String,
}

/// The user agent sent by default.
pub open spec fn default_user_agent() -> Seq<char> {
    "x86-native/0.1.1"@
}

impl Default for FetchOptions {
    /// A 60-second time limit and the user agent `x86-native/0.1.1`.
    fn default() -> (o: FetchOptions)
        ensures
            o.timeout_secs == 60,
            o.user_agent@ == default_user_agent(),
    {
        FetchOptions { timeout_secs: 60, user_agent: String::from_str("x86-native/0.1.1") }
    }
}

/// A bootloader image and where it came from.
pub struct Bootloader {
    pub image: Image,
    pub source: Resource,
}

/// What loading a resource leaves to do: nothing (the image is there), read
/// a local file, or fetch a URL.
pub enum LoadStep {
    Ready(Image),
    ReadFile(String),
    FetchUrl(String),
}

/// What loading a bootloader leaves to do; the resource is handed back with
/// the file or URL to read.
pub enum BootloaderLoad {
    Loaded(Bootloader),
    ReadFile { path: String, source: Resource },
    FetchUrl { url: String, source: Resource },
}

/// Whether `s` begins with `p`.
pub open spec fn starts_with(s: Seq<char>, p: Seq<char>) -> bool {
    p.len() <= s.len() && s.subrange(0, p.len() as int) == p
}

/// Whether `url` is an HTTP or HTTPS URL.
pub open spec fn is_http_url(url: Seq<char>) -> bool {
    starts_with(url, "http://"@) || starts_with(url, "https://"@)
}

/// The message for a URL of another scheme.
pub open spec fn scheme_message() -> Seq<char> {
    "only http:// and https:// URLs are supported"@
}

/// What loading `source` as an image of `kind` gives.
pub open spec fn load_outcome(source: ResourceView, kind: ImageKind, r: Result<LoadStep, X86Error>) -> bool {
    match source {
        ResourceView::File(p) => r matches Ok(LoadStep::ReadFile(q)) && q@ == p,
        ResourceView::Bytes { name, bytes } => r matches Ok(LoadStep::Ready(i)) && i@ == (ImageView {
            kind,
            name,
            bytes,
            source: None,
        }),
        ResourceView::Url(u) => if is_http_url(u) {
            r matches Ok(LoadStep::FetchUrl(v)) && v@ == u
        } else {
            r matches Err(X86Error::Remote { url, message }) && url@ == u && message@ == scheme_message()
        },
    }
}

/// Whether `s` begins with `p`.
pub(crate) fn has_prefix(s: &str, p: &str) -> (b: bool)
    ensures
        b == starts_with(s@, p@),
{
    let n = s.unicode_len();
    let m = p.unicode_len();
    if m > n {
        return false;
    }
    let mut i: usize = 0;
    while i < m
        invariant
            i <= m <= n,
            n == s@.len(),
            m == p@.len(),
            forall|k: int| 0 <= k < i ==> s@[k] == p@[k],
        decreases m - i,
    {
        if s.get_char(i) != p.get_char(i) {
            assert(s@.subrange(0, m as int)[i as int] != p@[i as int]);
            return false;
        }
        i = i + 1;
    }
    assert(s@.subrange(0, m as int) =~= p@);
    true
}

/// A copy of `b`.
fn copy_bytes(b: &Vec<u8>) -> (c: Vec<u8>)
    ensures
        c@ == b@,
{
    let mut c: Vec<u8> = Vec::with_capacity(b.len());
    let mut i: usize = 0;
    while i < b.len()
        invariant
            i <= b@.len(),
            c@ == b@.subrange(0, i as int),
        decreases b@.len() - i,
    {
        c.push(b[i]);
        i = i + 1;
        assert(c@ =~= b@.subrange(0, i as int));
    }
    assert(c@ =~= b@);
    c
}

/// Loads `source` as an image of `kind`: bytes in memory become the image
/// at once; a file or an HTTP(S) URL is handed back to be read or fetched
/// (with `options`); a URL of another scheme is refused.
pub fn load_resource(source: &Resource, kind: ImageKind, options: &FetchOptions) -> (r: Result<LoadStep, X86Error>)
    ensures
        load_outcome(source@, kind, r),
{
    match source {
        Resource::File(path) => Ok(LoadStep::ReadFile(path.clone())),
        Resource::Bytes { name, bytes } => Ok(LoadStep::Ready(Image::from_bytes(kind, name.clone(), copy_bytes(bytes)))),
        Resource::Url(url) => {
            if has_prefix(url.as_str(), "http://") || has_prefix(url.as_str(), "https://") {
                Ok(LoadStep::FetchUrl(url.clone()))
            } else {
                Err(
                    X86Error::Remote {
                        url: url.clone(),
                        message: String::from_str("only http:// and https:// URLs are supported"),
                    },
                )
            }
        },
    }
}

/// The part of `s` after its last `/` (all of `s` when it has none).
pub open spec fn last_segment(s: Seq<char>) -> Seq<char>
    decreases s.len(),
{
    if s.len() == 0 {
        s
    } else if s.last() == '/' {
        Seq::empty()
    } else {
        last_segment(s.drop_last()).push(s.last())
    }
}

/// The name of an image fetched from `url`: its last path segment, or
/// `remote-bootloader` when that is empty.
pub open spec fn download_name(url: Seq<char>) -> Seq<char> {
    if last_segment(url).len() > 0 {
        last_segment(url)
    } else {
        "remote-bootloader"@
    }
}

/// The image of `kind` made of the `bytes` fetched from `url`.
pub fn downloaded_image(url: &str, kind: ImageKind, bytes: Vec<u8>) -> (i: Image)
    ensures
        i@ == (ImageView { kind, name: download_name(url@), bytes: bytes@, source: None }),
{
    let n = url.unicode_len();
    let mut j: usize = n;
    assert(url@.subrange(0, n as int) =~= url@);
    assert(url@.subrange(n as int, n as int) =~= Seq::<char>::empty());
    while j > 0 && url.get_char(j - 1) != '/'
        invariant
            j <= n,
            n == url@.len(),
            last_segment(url@) == last_segment(url@.subrange(0, j as int)) + url@.subrange(j as int, n as int),
        decreases j,
    {
        let ghost pre = url@.subrange(0, j as int);
        assert(pre.drop_last() =~= url@.subrange(0, j - 1));
        assert(url@.subrange(j - 1, n as int) =~= url@.subrange(j as int, n as int).insert(0, pre.last()));
        assert(last_segment(pre) =~= last_segment(url@.subrange(0, j - 1)).push(pre.last()));
        assert(last_segment(pre) + url@.subrange(j as int, n as int) =~= last_segment(url@.subrange(0, j - 1))
            + url@.subrange(j - 1, n as int));
        j = j - 1;
    }
    assert(last_segment(url@.subrange(0, j as int)) =~= Seq::<char>::empty());
    assert(last_segment(url@) =~= url@.subrange(j as int, n as int));
    let name = if j < n {
        String::from_str(url.substring_char(j, n))
    } else {
        String::from_str("remote-bootloader")
    };
    Image::from_bytes(kind, name, bytes)
}

/// What loading `source` as a bootloader gives.
pub open spec fn bootloader_outcome(source: ResourceView, r: Result<BootloaderLoad, X86Error>) -> bool {
    match source {
        ResourceView::File(p) => r matches Ok(BootloaderLoad::ReadFile { path, source: s }) && path@ == p && s@ == source,
        ResourceView::Bytes { name, bytes } => r matches Ok(BootloaderLoad::Loaded(b)) && b.source@ == source && b.image@ == (
        ImageView { kind: ImageKind::Bootloader, name, bytes, source: None }),
        ResourceView::Url(u) => if is_http_url(u) {
            r matches Ok(BootloaderLoad::FetchUrl { url, source: s }) && url@ == u && s@ == source
        } else {
            r matches Err(X86Error::Remote { url, message }) && url@ == u && message@ == scheme_message()
        },
    }
}

impl Bootloader {
    /// Loads a bootloader from `source` with the default fetch options.
    pub fn load(source: Resource) -> (r: Result<BootloaderLoad, X86Error>)
        ensures
            bootloader_outcome(source@, r),
    {
        let options = FetchOptions::default();
        Bootloader::load_with_options(source, &options)
    }

    /// Loads a bootloader from `source`, a URL to be fetched with `options`.
    pub fn load_with_options(source: Resource, options: &FetchOptions) -> (r: Result<BootloaderLoad, X86Error>)
        ensures
            bootloader_outcome(source@, r),
    {
        let step = load_resource(&source, ImageKind::Bootloader, options)?;
        match step {
            LoadStep::Ready(image) => Ok(BootloaderLoad::Loaded(Bootloader { image, source })),
            LoadStep::ReadFile(path) => Ok(BootloaderLoad::ReadFile { path, source }),
            LoadStep::FetchUrl(url) => Ok(BootloaderLoad::FetchUrl { url, source }),
        }
    }

    /// Loads a bootloader from the local file at `path`.
    pub fn from_file(path: String) -> (r: Result<BootloaderLoad, X86Error>)
        ensures
            bootloader_outcome(ResourceView::File(path@), r),
    {
        Bootloader::load(Resource::file(path))
    }

    /// Loads a bootloader from the HTTP(S) URL `url`.
    pub fn from_url(url: String) -> (r: Result<BootloaderLoad, X86Error>)
        ensures
            bootloader_outcome(ResourceView::Url(url@), r),
    {
        Bootloader::load(Resource::url(url))
    }
}

} // verus!
