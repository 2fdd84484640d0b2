//! Thumbnail caching after the freedesktop.org Thumbnail Managing Standard:
//! where a thumbnail is cached, and whether a cached one is still valid.

use vstd::prelude::*;
use vstd::string::*;
use crate::paths::{join, starts_with, path_join, path_starts_with};
use crate::text::{push_char, str_equal, copy_str, decimal, u64_to_decimal};

verus! {

/// The sizes in which thumbnails are cached.
#[derive(Copy, Clone, Debug, PartialEq, Eq, Structural)]
pub enum ThumbnailSize {
    Normal,
    Large,
    XLarge,
    XXLarge,
}

/// The edge length in pixels of a thumbnail size.
pub open spec fn spec_pixel_size(s: ThumbnailSize) -> u32 {
    match s {
        ThumbnailSize::Normal => 128,
        ThumbnailSize::Large => 256,
        ThumbnailSize::XLarge => 512,
        ThumbnailSize::XXLarge => 1024,
    }
}

/// The cache directory of a thumbnail size.
pub open spec fn spec_subdirectory_name(s: ThumbnailSize) -> Seq<char> {
    match s {
        ThumbnailSize::Normal => "normal"@,
        ThumbnailSize::Large => "large"@,
        ThumbnailSize::XLarge => "x-large"@,
        ThumbnailSize::XXLarge => "xx-large"@,
    }
}

/// The smallest size that holds `pixel_size` pixels, or the largest size.
pub open spec fn spec_from_pixel_size(pixel_size: u32) -> ThumbnailSize {
    if pixel_size <= 128 {
        ThumbnailSize::Normal
    } else if pixel_size <= 256 {
        ThumbnailSize::Large
    } else if pixel_size <= 512 {
        ThumbnailSize::XLarge
    } else {
        ThumbnailSize::XXLarge
    }
}

impl ThumbnailSize {
    /// The smallest size that holds `pixel_size` pixels, or the largest size.
    pub fn from_pixel_size(pixel_size: u32) -> (r: Self)
        ensures
            r == spec_from_pixel_size(pixel_size),
    {
        if pixel_size <= ThumbnailSize::Normal.pixel_size() {
            ThumbnailSize::Normal
        } else if pixel_size <= ThumbnailSize::Large.pixel_size() {
            ThumbnailSize::Large
        } else if pixel_size <= ThumbnailSize::XLarge.pixel_size() {
            ThumbnailSize::XLarge
        } else {
            ThumbnailSize::XXLarge
        }
    }

    /// The edge length in pixels of this size.
    pub fn pixel_size(self) -> (r: u32)
        ensures
            r == spec_pixel_size(self),
    {
        match self {
            ThumbnailSize::Normal => 128,
            ThumbnailSize::Large => 256,
            ThumbnailSize::XLarge => 512,
            ThumbnailSize::XXLarge => 1024,
        }
    }

    /// The name of this size's cache directory.
    pub fn subdirectory_name(self) -> (r: &'static str)
        ensures
            r@ == spec_subdirectory_name(self),
    {
        match self {
            ThumbnailSize::Normal => "normal",
            ThumbnailSize::Large => "large",
            ThumbnailSize::XLarge => "x-large",
            ThumbnailSize::XXLarge => "xx-large",
        }
    }
}

/// A size is the one chosen for its own pixel size; the size chosen for a
/// pixel size holds it unless it exceeds the largest size; and a larger pixel
/// size never gets a smaller thumbnail.
pub proof fn lemma_thumbnail_size_choice(s: ThumbnailSize, p: u32, q: u32)
    ensures
        spec_from_pixel_size(spec_pixel_size(s)) == s,
        p <= 1024 ==> p <= spec_pixel_size(spec_from_pixel_size(p)),
        p <= q ==> spec_pixel_size(spec_from_pixel_size(p)) <= spec_pixel_size(spec_from_pixel_size(q)),
{
}

/// What `Md5::digest` gives for a text's bytes.
pub uninterp spec fn md5_digest_of(data: Seq<char>) -> Seq<u8>;

/// The MD5 digest of a text's UTF-8 bytes (`md5::Md5::digest`), as its
/// sixteen bytes; the digest itself is named, not restated.
#[verifier::external_body]
fn md5_digest(data: &str) -> (r: Vec<u8>)
    ensures
        r@ == md5_digest_of(data@),
        r@.len() == 16,
{
    <md5::Md5 as md5::Digest>::digest(data.as_bytes()).to_vec()
}

/// The lower-case hexadecimal digit for `d`.
pub open spec fn hex_digit(d: u8) -> char {
    if d < 10 {
        (('0' as u8) + d) as char
    } else {
        (('a' as u8) + (d - 10)) as char
    }
}

/// Bytes as lower-case hexadecimal, two digits per byte.
pub open spec fn hex_lower(bytes: Seq<u8>) -> Seq<char>
    decreases bytes.len(),
{
    if bytes.len() == 0 {
        seq![]
    } else {
        hex_lower(bytes.drop_last()).push(hex_digit(bytes.last() / 16)).push(hex_digit(bytes.last() % 16))
    }
}

fn hex_char(d: u8) -> (c: char)
    requires
        d < 16,
    ensures
        c == hex_digit(d),
{
    if d == 0 { '0' }
    else if d == 1 { '1' }
    else if d == 2 { '2' }
    else if d == 3 { '3' }
    else if d == 4 { '4' }
    else if d == 5 { '5' }
    else if d == 6 { '6' }
    else if d == 7 { '7' }
    else if d == 8 { '8' }
    else if d == 9 { '9' }
    else if d == 10 { 'a' }
    else if d == 11 { 'b' }
    else if d == 12 { 'c' }
    else if d == 13 { 'd' }
    else if d == 14 { 'e' }
    else { 'f' }
}

/// Writes bytes as lower-case hexadecimal.
pub fn to_hex_lower(bytes: &Vec<u8>) -> (r: String)
    ensures
        r@ == hex_lower(bytes@),
{
    let mut s = String::new();
    let mut i: usize = 0;
    while i < bytes.len()
        invariant
            i <= bytes@.len(),
            s@ == hex_lower(bytes@.subrange(0, i as int)),
        decreases bytes@.len() - i,
    {
        let b = bytes[i];
        push_char(&mut s, hex_char(b / 16));
        push_char(&mut s, hex_char(b % 16));
        assert(bytes@.subrange(0, i + 1).drop_last() =~= bytes@.subrange(0, i as int));
        i = i + 1;
    }
    assert(bytes@.subrange(0, bytes@.len() as int) =~= bytes@);
    s
}

/// The file name under which the thumbnail of `file_uri` is cached: the MD5
/// digest of the URI in hexadecimal, with a `.png` extension.
pub open spec fn spec_cache_filename(file_uri: Seq<char>) -> Seq<char> {
    hex_lower(md5_digest_of(file_uri)) + ".png"@
}

/// The file name under which the thumbnail of `file_uri` is cached.
pub fn thumbnail_cache_filename(file_uri: &str) -> (r: String)
    ensures
        r@ == spec_cache_filename(file_uri@),
{
    let digest = md5_digest(file_uri);
    let mut s = to_hex_lower(&digest);
    s.append(".png");
    s
}

/// Where the thumbnail of `file_uri` at `size` is cached, relative to the
/// cache root: the size's directory, then the cache file name.
pub open spec fn spec_cache_relative_path(file_uri: Seq<char>, size: ThumbnailSize) -> Seq<char> {
    spec_subdirectory_name(size) + seq!['/'] + spec_cache_filename(file_uri)
}

/// Where the thumbnail of `file_uri` at `size` is cached, relative to the
/// cache root. The size is part of the key: each size has its own directory.
pub fn thumbnail_cache_relative_path(file_uri: &str, size: ThumbnailSize) -> (r: String)
    ensures
        r@ == spec_cache_relative_path(file_uri@, size),
{
    let mut s = copy_str(size.subdirectory_name());
    push_char(&mut s, '/');
    let f = thumbnail_cache_filename(file_uri);
    s.append(f.as_str());
    s
}

/// A thumbnail cached at one size is never stored where one of another size
/// is, and every cache entry lies in its size's directory.
pub proof fn lemma_cache_paths_keep_sizes_apart(uri_a: Seq<char>, uri_b: Seq<char>, a: ThumbnailSize, b: ThumbnailSize)
    ensures
        a != b ==> spec_cache_relative_path(uri_a, a) != spec_cache_relative_path(uri_b, b),
        spec_cache_relative_path(uri_a, a).subrange(0, spec_subdirectory_name(a).len() as int)
            == spec_subdirectory_name(a),
{
    reveal_strlit("normal");
    reveal_strlit("large");
    reveal_strlit("x-large");
    reveal_strlit("xx-large");
    let pa = spec_cache_relative_path(uri_a, a);
    let pb = spec_cache_relative_path(uri_b, b);
    let na = spec_subdirectory_name(a);
    let nb = spec_subdirectory_name(b);
    assert(pa.subrange(0, na.len() as int) =~= na);
    if a != b && pa == pb {
        assert(pa[na.len() as int] == '/');
        assert(pb[nb.len() as int] == '/');
        assert(forall|i: int| 0 <= i < na.len() ==> pa[i] == na[i]);
        assert(forall|i: int| 0 <= i < nb.len() ==> pb[i] == nb[i]);
        if na.len() < nb.len() {
            assert(pb[na.len() as int] == nb[na.len() as int]);
        } else if nb.len() < na.len() {
            assert(pa[nb.len() as int] == na[nb.len() as int]);
        } else {
            assert(pa[0] == na[0] && pb[0] == nb[0]);
            assert(pa[1] == na[1] && pb[1] == nb[1]);
        }
    }
}

/// What `Url::from_file_path(..).as_str()` gives for a path.
pub uninterp spec fn file_url_of(path: Seq<char>) -> Option<Seq<char>>;

/// The `file://` URL of a path (`url::Url::from_file_path`). Its source
/// accepts exactly the absolute paths and writes the URL after `file://`.
#[verifier::external_body]
fn file_url(path: &str) -> (r: Option<String>)
    ensures
        match r {
            Some(u) => file_url_of(path@) == Some(u@),
            None => file_url_of(path@) is None,
        },
        r is Some <==> (path@.len() > 0 && path@[0] == '/'),
{
    url::Url::from_file_path(path).ok().map(|u| u.as_str().to_string())
}

/// A URL with square brackets percent-encoded, as other thumbnailers write
/// them, so that their cached thumbnails are shared.
pub open spec fn escape_brackets(s: Seq<char>) -> Seq<char>
    decreases s.len(),
{
    if s.len() == 0 {
        seq![]
    } else {
        let rest = escape_brackets(s.drop_last());
        if s.last() == '[' {
            rest + seq!['%', '5', 'B']
        } else if s.last() == ']' {
            rest + seq!['%', '5', 'D']
        } else {
            rest.push(s.last())
        }
    }
}

/// The URI that names a file in the thumbnail cache, from its canonical path.
pub open spec fn spec_thumbnail_uri(canonical_path: Seq<char>) -> Option<Seq<char>> {
    match file_url_of(canonical_path) {
        Some(u) => Some(escape_brackets(u)),
        None => None,
    }
}

/// The URI that names a file in the thumbnail cache, from its canonical path:
/// its `file://` URL with square brackets percent-encoded.
pub fn thumbnail_uri(canonical_path: &str) -> (r: Option<String>)
    ensures
        match spec_thumbnail_uri(canonical_path@) {
            Some(u) => r matches Some(s) && s@ == u,
            None => r is None,
        },
{
    let url = match file_url(canonical_path) {
        Some(u) => u,
        None => return None,
    };
    let n = url.as_str().unicode_len();
    let mut s = String::new();
    let mut i: usize = 0;
    while i < n
        invariant
            n == url@.len(),
            i <= n,
            s@ == escape_brackets(url@.subrange(0, i as int)),
        decreases n - i,
    {
        let c = url.as_str().get_char(i);
        let ghost before = s@;
        assert(url@.subrange(0, i + 1).drop_last() =~= url@.subrange(0, i as int));
        if c == '[' {
            push_char(&mut s, '%');
            push_char(&mut s, '5');
            push_char(&mut s, 'B');
            assert(s@ =~= before + seq!['%', '5', 'B']);
        } else if c == ']' {
            push_char(&mut s, '%');
            push_char(&mut s, '5');
            push_char(&mut s, 'D');
            assert(s@ =~= before + seq!['%', '5', 'D']);
        } else {
            push_char(&mut s, c);
        }
        i = i + 1;
    }
    assert(url@.subrange(0, n as int) =~= url@);
    Some(s)
}

/// The modification time (whole seconds since the epoch, if known) and size
/// of the file that a thumbnail shows.
#[derive(Clone, Copy, Debug)]
pub struct FileStamp {
    pub mtime_secs: Option<u64>,
    pub size: u64,
}

/// The text of the first chunk from `i` on whose keyword is `key`.
pub open spec fn find_text(texts: Seq<(String, String)>, key: Seq<char>, i: int) -> Option<Seq<char>>
    decreases texts.len() - i,
{
    if i < 0 || i >= texts.len() {
        None
    } else if texts[i].0@ == key {
        Some(texts[i].1@)
    } else {
        find_text(texts, key, i + 1)
    }
}

/// Whether a cached thumbnail with these text chunks is valid for the file
/// `file_uri` with stamp `stamp` (none where the file's metadata could not
/// be read): `Thumb::URI` and `Thumb::MTime` must be present and match, and
/// `Thumb::Size` must match where present.
pub open spec fn spec_thumbnail_valid(texts: Seq<(String, String)>, file_uri: Seq<char>, stamp: Option<FileStamp>) -> bool {
    match find_text(texts, "Thumb::URI"@, 0) {
        None => false,
        Some(u) => u == file_uri && match stamp {
            None => false,
            Some(st) => match find_text(texts, "Thumb::MTime"@, 0) {
                None => false,
                Some(m) => match st.mtime_secs {
                    None => false,
                    Some(t) => m == decimal(t as nat) && match find_text(texts, "Thumb::Size"@, 0) {
                        None => true,
                        Some(z) => z == decimal(st.size as nat),
                    },
                },
            },
        },
    }
}

fn lookup_text(texts: &Vec<(String, String)>, key: &str) -> (r: Option<String>)
    ensures
        match find_text(texts@, key@, 0) {
            Some(t) => r matches Some(s) && s@ == t,
            None => r is None,
        },
{
    let mut i: usize = 0;
    while i < texts.len()
        invariant
            i <= texts@.len(),
            find_text(texts@, key@, 0) == find_text(texts@, key@, i as int),
        decreases texts@.len() - i,
    {
        if str_equal(texts[i].0.as_str(), key) {
            return Some(texts[i].1.clone());
        }
        i = i + 1;
    }
    None
}

/// Checks the text chunks of a cached thumbnail against the file it shows.
pub fn thumbnail_texts_valid(texts: &Vec<(String, String)>, file_uri: &str, stamp: Option<FileStamp>) -> (r: bool)
    ensures
        r == spec_thumbnail_valid(texts@, file_uri@, stamp),
{
    let uri = match lookup_text(texts, "Thumb::URI") {
        Some(u) => u,
        None => return false,
    };
    if !str_equal(uri.as_str(), file_uri) {
        return false;
    }
    let st = match stamp {
        Some(st) => st,
        None => return false,
    };
    let mtime = match lookup_text(texts, "Thumb::MTime") {
        Some(m) => m,
        None => return false,
    };
    let secs = match st.mtime_secs {
        Some(t) => t,
        None => return false,
    };
    let expected = u64_to_decimal(secs);
    if !str_equal(mtime.as_str(), expected.as_str()) {
        return false;
    }
    match lookup_text(texts, "Thumb::Size") {
        Some(z) => {
            let expected = u64_to_decimal(st.size);
            str_equal(z.as_str(), expected.as_str())
        },
        None => true,
    }
}

/// A cached thumbnail is valid only for the file it names, with the file's
/// metadata read, and only when it records, in its first `Thumb::MTime`
/// chunk, the decimal text of the file's modification time in seconds: a
/// thumbnail made before the file last changed, or one that records no
/// time, is never valid. A recorded `Thumb::Size` must be the file's size in
/// decimal. A thumbnail that meets all of these is valid.
pub proof fn lemma_valid_thumbnail_matches_file(texts: Seq<(String, String)>, file_uri: Seq<char>, stamp: Option<FileStamp>)
    ensures
        spec_thumbnail_valid(texts, file_uri, stamp) ==> {
            &&& find_text(texts, "Thumb::URI"@, 0) == Some(file_uri)
            &&& stamp matches Some(st) && st.mtime_secs matches Some(t)
                && find_text(texts, "Thumb::MTime"@, 0) == Some(decimal(t as nat))
        },
        forall|m: Seq<char>, t: u64|
            find_text(texts, "Thumb::MTime"@, 0) == Some(m) && (stamp matches Some(st) && st.mtime_secs == Some(t))
                && m != decimal(t as nat) ==> !spec_thumbnail_valid(texts, file_uri, stamp),
        spec_thumbnail_valid(texts, file_uri, stamp) ==> (stamp matches Some(st) && (find_text(
            texts,
            "Thumb::Size"@,
            0,
        ) matches Some(z) ==> z == decimal(st.size as nat))),
        (stamp matches Some(st) && st.mtime_secs matches Some(t) && find_text(texts, "Thumb::URI"@, 0) == Some(
            file_uri,
        ) && find_text(texts, "Thumb::MTime"@, 0) == Some(decimal(t as nat)) && (find_text(texts, "Thumb::Size"@, 0) is None
            || find_text(texts, "Thumb::Size"@, 0) == Some(decimal(st.size as nat)))) ==> spec_thumbnail_valid(
            texts,
            file_uri,
            stamp,
        ),
{
}

/// The state of a file's cached thumbnail.
#[derive(Clone, Debug)]
pub enum CachedThumbnail {
    /// The cached thumbnail is valid and should be used with size if known.
    Valid(String, Option<ThumbnailSize>),
    /// The cached thumbnail doesn't exist or it's invalid and
    /// needs to be recreated with the pixel size.
    RequiresUpdate(ThumbnailSize),
    /// Making a thumbnail failed before and is not tried again.
    Failed,
}

/// Why a file's thumbnail cache could not be set up.
#[derive(Clone, Debug)]
pub enum ThumbnailCacherError {
    /// No `file://` URI could be made for the file at this path.
    Uri(String),
    /// There is no thumbnail cache directory.
    NoCacheDir,
}

/// Where the thumbnail of one file is cached, at one size.
pub struct ThumbnailCacher {
    file_path: String,
    file_uri: String,
    cache_base_dir: String,
    thumbnail_dir: String,
    thumbnail_path: String,
    thumbnail_size: ThumbnailSize,
    thumbnail_fail_marker_path: String,
}

/// The directory that holds the fail markers of this program's version.
pub open spec fn spec_fail_dir(cache_base_dir: Seq<char>, version: Seq<char>) -> Seq<char> {
    path_join(path_join(cache_base_dir, "fail"@), "cosmic-files-"@ + version)
}

impl ThumbnailCacher {
    /// The path of the file whose thumbnail is cached.
    pub closed spec fn spec_file_path(&self) -> Seq<char> {
        self.file_path@
    }

    /// The root of the thumbnail cache.
    pub closed spec fn spec_cache_base_dir(&self) -> Seq<char> {
        self.cache_base_dir@
    }

    /// The URI that names the file in the cache.
    pub closed spec fn spec_file_uri(&self) -> Seq<char> {
        self.file_uri@
    }

    /// The directory of the cached thumbnail's size.
    pub closed spec fn spec_thumbnail_dir(&self) -> Seq<char> {
        self.thumbnail_dir@
    }

    /// The path of the cached thumbnail.
    pub closed spec fn spec_thumbnail_path(&self) -> Seq<char> {
        self.thumbnail_path@
    }

    /// The path of the marker left where making a thumbnail failed.
    pub closed spec fn spec_fail_marker_path(&self) -> Seq<char> {
        self.thumbnail_fail_marker_path@
    }

    /// The size of the cached thumbnail.
    pub closed spec fn spec_size(&self) -> ThumbnailSize {
        self.thumbnail_size
    }

    /// The thumbnail cache of the file at `file_path`, whose canonical path is
    /// `canonical_path`, at `thumbnail_size`, under the cache root
    /// `cache_base_dir` (none where there is no cache directory); `version`
    /// names this program's version in the fail-marker directory.
    pub fn new(
        file_path: &str,
        canonical_path: &str,
        cache_base_dir: Option<&str>,
        thumbnail_size: ThumbnailSize,
        version: &str,
    ) -> (r: Result<Self, ThumbnailCacherError>)
        ensures
            match spec_thumbnail_uri(canonical_path@) {
                None => r matches Err(ThumbnailCacherError::Uri(p)) && p@ == file_path@,
                Some(uri) => match cache_base_dir {
                    None => r matches Err(ThumbnailCacherError::NoCacheDir),
                    Some(base) => r matches Ok(c) && {
                        &&& c.spec_file_path() == file_path@
                        &&& c.spec_file_uri() == uri
                        &&& c.spec_cache_base_dir() == base@
                        &&& c.spec_size() == thumbnail_size
                        &&& c.spec_thumbnail_dir() == path_join(base@, spec_subdirectory_name(thumbnail_size))
                        &&& c.spec_thumbnail_path() == path_join(base@, spec_cache_relative_path(uri, thumbnail_size))
                        &&& c.spec_fail_marker_path() == path_join(spec_fail_dir(base@, version@), spec_cache_filename(uri))
                    },
                },
            },
    {
        let file_uri = match thumbnail_uri(canonical_path) {
            Some(u) => u,
            None => return Err(ThumbnailCacherError::Uri(copy_str(file_path))),
        };
        let base = match cache_base_dir {
            Some(b) => b,
            None => return Err(ThumbnailCacherError::NoCacheDir),
        };
        let relative = thumbnail_cache_relative_path(file_uri.as_str(), thumbnail_size);
        let filename = thumbnail_cache_filename(file_uri.as_str());
        let thumbnail_dir = join(base, thumbnail_size.subdirectory_name());
        let thumbnail_path = join(base, relative.as_str());
        let fail_root = join(base, "fail");
        let mut version_dir = copy_str("cosmic-files-");
        version_dir.append(version);
        let fail_dir = join(fail_root.as_str(), version_dir.as_str());
        let thumbnail_fail_marker_path = join(fail_dir.as_str(), filename.as_str());
        Ok(ThumbnailCacher {
            file_path: copy_str(file_path),
            file_uri,
            cache_base_dir: copy_str(base),
            thumbnail_dir,
            thumbnail_path,
            thumbnail_size,
            thumbnail_fail_marker_path,
        })
    }

    /// The directory of the cached thumbnail's size.
    pub fn thumbnail_dir(&self) -> (r: &str)
        ensures
            r@ == self.spec_thumbnail_dir(),
    {
        self.thumbnail_dir.as_str()
    }

    /// The path of the cached thumbnail.
    pub fn thumbnail_path(&self) -> (r: &str)
        ensures
            r@ == self.spec_thumbnail_path(),
    {
        self.thumbnail_path.as_str()
    }

    /// The path of the fail marker.
    pub fn fail_marker_path(&self) -> (r: &str)
        ensures
            r@ == self.spec_fail_marker_path(),
    {
        self.thumbnail_fail_marker_path.as_str()
    }

    /// The path of the file whose thumbnail is cached.
    pub fn file_path(&self) -> (r: &str)
        ensures
            r@ == self.spec_file_path(),
    {
        self.file_path.as_str()
    }

    /// The URI that names the file in the cache.
    pub fn file_uri(&self) -> (r: &str)
        ensures
            r@ == self.spec_file_uri(),
    {
        self.file_uri.as_str()
    }

    /// Checks the text chunks of a cached thumbnail of this file against the
    /// file's stamp (none where its metadata could not be read).
    pub fn is_thumbnail_valid(&self, texts: &Vec<(String, String)>, stamp: Option<FileStamp>) -> (r: bool)
        ensures
            r == spec_thumbnail_valid(texts@, self.spec_file_uri(), stamp),
    {
        thumbnail_texts_valid(texts, self.file_uri.as_str(), stamp)
    }

    /// The state of the cached thumbnail. `file_is_regular` tells whether the
    /// file itself is a regular file; `thumbnail_valid` and
    /// `fail_marker_valid` whether the cached thumbnail and the fail marker
    /// are valid for it. A regular file inside the cache is a thumbnail
    /// already and is used as it is; else a valid cached thumbnail; else a
    /// valid fail marker means failure; else the thumbnail must be made.
    pub fn get_cached_thumbnail(&self, file_is_regular: bool, thumbnail_valid: bool, fail_marker_valid: bool) -> (r: CachedThumbnail)
        ensures
            if file_is_regular && path_starts_with(self.spec_file_path(), self.spec_cache_base_dir()) {
                r matches CachedThumbnail::Valid(p, None) && p@ == self.spec_file_path()
            } else if thumbnail_valid {
                r matches CachedThumbnail::Valid(p, Some(s)) && p@ == self.spec_thumbnail_path() && s == self.spec_size()
            } else if fail_marker_valid {
                r is Failed
            } else {
                r == CachedThumbnail::RequiresUpdate(self.spec_size())
            },
    {
        if file_is_regular && starts_with(self.file_path.as_str(), self.cache_base_dir.as_str()) {
            return CachedThumbnail::Valid(self.file_path.clone(), None);
        }
        if thumbnail_valid {
            return CachedThumbnail::Valid(self.thumbnail_path.clone(), Some(self.thumbnail_size));
        }
        if fail_marker_valid {
            return CachedThumbnail::Failed;
        }
        CachedThumbnail::RequiresUpdate(self.thumbnail_size)
    }
}

} // verus!
