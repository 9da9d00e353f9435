//! Routing for the bundled web app: which file a request path names, which
//! file is served for it, and the headers it is served with.
//!
//! The bundle itself is compiled into the binary by the caller; here it is
//! only asked whether a path is in it.
use vstd::prelude::*;

use crate::gate::texts;
use crate::text::{chars_of, range_equals};

verus! {

/// The entry document of the single-page app.
pub const INDEX: &'static str = "index.html";

/// `Cache-Control` for the entry document, which must always be revalidated.
pub const NO_CACHE: &'static str = "no-cache";

/// `Cache-Control` for every other asset: the bundler fingerprints their
/// names, so they can be cached for a year.
pub const IMMUTABLE: &'static str = "public, max-age=31536000, immutable";

/// `s` without the slashes it starts with.
pub open spec fn without_leading_slashes(s: Seq<char>) -> Seq<char>
    decreases s.len(),
{
    if s.len() > 0 && s[0] == '/' {
        without_leading_slashes(s.drop_first())
    } else {
        s
    }
}

/// The bundle path a request path names: the leading slashes go, and the
/// bare root names the entry document.
pub open spec fn asset_path_of(uri_path: Seq<char>) -> Seq<char> {
    let p = without_leading_slashes(uri_path);
    if p.len() == 0 {
        INDEX@
    } else {
        p
    }
}

/// A path without a file extension is a route of the app itself, answered
/// with the entry document; one with an extension names a file.
pub open spec fn is_client_route(path: Seq<char>) -> bool {
    !path.contains('.')
}

/// The file served for `path`: the file itself when it is bundled, the entry
/// document for a client route when that is bundled, and nothing otherwise.
pub open spec fn served_file(path: Seq<char>, path_bundled: bool, index_bundled: bool) -> Option<
    Seq<char>,
> {
    if path_bundled {
        Some(path)
    } else if is_client_route(path) && index_bundled {
        Some(INDEX@)
    } else {
        None
    }
}

/// The `Cache-Control` value for a served file.
pub open spec fn cache_control_of(path: Seq<char>) -> Seq<char> {
    if path == INDEX@ {
        NO_CACHE@
    } else {
        IMMUTABLE@
    }
}

/// What `mime_guess` makes of a path's extension, as a media type string,
/// `application/octet-stream` when it knows none.
pub uninterp spec fn guessed_mime(path: Seq<char>) -> Seq<char>;

/// Trusted: calls `mime_guess::from_path(path).first_or_octet_stream()`,
/// which looks the extension up in the crate's static table, and returns the
/// media type's text. The contract names the result and says no more: it is
/// a function of the path alone.
#[verifier::external_body]
fn guess_mime(path: &str) -> (m: String)
    ensures
        m@ == guessed_mime(path@),
{
    let mime = mime_guess::from_path(path).first_or_octet_stream();
    let text: &str = mime.as_ref();
    text.to_owned()
}

/// Maps a request path to the bundle path it names.
pub fn asset_path(uri_path: &str) -> (p: String)
    ensures
        p@ == asset_path_of(uri_path@),
{
    let v = chars_of(uri_path);
    let n = v.len();
    let mut i: usize = 0;
    assert(v@.skip(0) =~= v@);
    while i < n && v[i] == '/'
        invariant
            i <= n == v@.len(),
            v@ == uri_path@,
            without_leading_slashes(v@) == without_leading_slashes(v@.skip(i as int)),
        decreases n - i,
    {
        assert(v@.skip(i as int).drop_first() =~= v@.skip(i + 1));
        i += 1;
    }
    if i == n {
        assert(v@.skip(i as int).len() == 0);
        INDEX.to_owned()
    } else {
        let rest = uri_path.substring_char(i, n);
        assert(rest@ =~= v@.skip(i as int));
        rest.to_owned()
    }
}

/// Whether a path has no `.` in it.
pub fn is_client_route_path(path: &str) -> (r: bool)
    ensures
        r == is_client_route(path@),
{
    let v = chars_of(path);
    let mut i: usize = 0;
    while i < v.len()
        invariant
            i <= v.len(),
            v@ == path@,
            forall|j: int| 0 <= j < i ==> v@[j] != '.',
        decreases v.len() - i,
    {
        if v[i] == '.' {
            assert(v@[i as int] == '.');
            return false;
        }
        i += 1;
    }
    true
}

/// The files compiled into the binary, by path.
pub struct Bundle {
    paths: Vec<String>,
}

impl View for Bundle {
    type V = Set<Seq<char>>;

    closed spec fn view(&self) -> Set<Seq<char>> {
        texts(self.paths@).to_set()
    }
}

impl Bundle {
    /// The bundle holding exactly the files named in `paths`.
    pub fn new(paths: Vec<String>) -> (b: Self)
        ensures
            b@ == texts(paths@).to_set(),
    {
        Bundle { paths }
    }

    /// Whether `path` names a bundled file.
    pub fn contains(&self, path: &str) -> (r: bool)
        ensures
            r == self@.contains(path@),
    {
        let want = chars_of(path);
        let mut i: usize = 0;
        while i < self.paths.len()
            invariant
                i <= self.paths@.len(),
                want@ == path@,
                forall|j: int| 0 <= j < i ==> texts(self.paths@)[j] != path@,
            decreases self.paths.len() - i,
        {
            let have = chars_of(self.paths[i].as_str());
            if range_equals(&have, 0, have.len(), &want) {
                assert(have@.subrange(0, have@.len() as int) =~= have@);
                assert(texts(self.paths@)[i as int] == path@);
                return true;
            }
            assert(have@.subrange(0, have@.len() as int) =~= have@);
            i += 1;
        }
        assert(!texts(self.paths@).contains(path@));
        false
    }
}

/// True when the web app was actually built into this binary.
pub fn is_embedded(bundle: &Bundle) -> (r: bool)
    ensures
        r == bundle@.contains(INDEX@),
{
    bundle.contains(INDEX)
}

/// Picks the file to serve for a bundle path; `None` is a 404.
pub fn choose_asset(bundle: &Bundle, path: &str) -> (r: Option<String>)
    ensures
        r matches Some(f) ==> served_file(path@, bundle@.contains(path@), bundle@.contains(INDEX@))
            == Some(f@),
        r is None ==> served_file(path@, bundle@.contains(path@), bundle@.contains(INDEX@)) is None,
{
    if bundle.contains(path) {
        Some(path.to_owned())
    } else if is_client_route_path(path) && is_embedded(bundle) {
        Some(INDEX.to_owned())
    } else {
        None
    }
}

/// The cache policy for a served file.
pub fn cache_control(path: &str) -> (c: &'static str)
    ensures
        c@ == cache_control_of(path@),
{
    let p = chars_of(path);
    let index = chars_of(INDEX);
    if range_equals(&p, 0, p.len(), &index) {
        assert(p@.subrange(0, p@.len() as int) =~= p@);
        NO_CACHE
    } else {
        assert(p@.subrange(0, p@.len() as int) =~= p@);
        IMMUTABLE
    }
}

/// The two headers an asset is served with.
pub struct AssetHeaders {
    pub content_type: String,
    pub cache_control: String,
}

/// The headers for `path`, given the media type guessed for it.
pub fn headers_for(path: &str, mime: String) -> (h: AssetHeaders)
    ensures
        h.content_type@ == mime@,
        h.cache_control@ == cache_control_of(path@),
{
    AssetHeaders { content_type: mime, cache_control: cache_control(path).to_owned() }
}

/// The headers a bundled file is served with: its guessed media type, and
/// the cache policy of its name.
pub fn asset_headers(path: &str) -> (h: AssetHeaders)
    ensures
        h.content_type@ == guessed_mime(path@),
        h.cache_control@ == cache_control_of(path@),
{
    let mime = guess_mime(path);
    headers_for(path, mime)
}

} // verus!
