//! Avatars: which message's avatar to show, `data:` URLs, file extensions and
//! names of cached images, and the cache from avatar URL to image file.

use vstd::prelude::*;
use vstd::utf8::encode_utf8;
use crate::client::{ChatLine, ChatState, LineView};
use crate::route::{lemma_next_sep_at, next_sep};
use crate::text::{
    append_str, ascii_lower_seq, chars_of, copy_str, ends_with, ends_with_str, hex_fixed,
    hex_fixed_u64, lower_ascii_str, starts_with, starts_with_str, str_eq, string_of,
    trim_start_seq, trim_start_seq_str,
};
use crate::wrappers::{base64_decode, base64_standard_decoded, percent_decode};
use std::collections::hash_map::DefaultHasher;
use std::hash::Hasher;
use vstd::std_specs::hash::DefaultHasherAdditionalSpecFns;
use crate::text::percent_decoded;

verus! {

// ---------------------------------------------------------------------------
// Extensions
// ---------------------------------------------------------------------------

/// The file extension an avatar image is stored under.
#[derive(Debug, Clone, Copy, PartialEq, Eq, Structural)]
pub enum ImageExt {
    Png,
    Jpg,
    Webp,
    Gif,
    Svg,
    /// Unknown image type.
    Img,
}

impl ImageExt {
    pub open spec fn text(self) -> Seq<char> {
        match self {
            ImageExt::Png => "png"@,
            ImageExt::Jpg => "jpg"@,
            ImageExt::Webp => "webp"@,
            ImageExt::Gif => "gif"@,
            ImageExt::Svg => "svg"@,
            ImageExt::Img => "img"@,
        }
    }

    /// The extension without its dot.
    pub fn as_str(&self) -> (res: &'static str)
        ensures
            res@ == self.text(),
    {
        match self {
            ImageExt::Png => "png",
            ImageExt::Jpg => "jpg",
            ImageExt::Webp => "webp",
            ImageExt::Gif => "gif",
            ImageExt::Svg => "svg",
            ImageExt::Img => "img",
        }
    }
}

/// The extension of an image MIME type the client knows.
pub open spec fn mime_ext(mime: Seq<char>) -> Option<ImageExt> {
    if mime == "image/png"@ {
        Some(ImageExt::Png)
    } else if mime == "image/jpeg"@ {
        Some(ImageExt::Jpg)
    } else if mime == "image/webp"@ {
        Some(ImageExt::Webp)
    } else if mime == "image/gif"@ {
        Some(ImageExt::Gif)
    } else if mime == "image/svg+xml"@ {
        Some(ImageExt::Svg)
    } else {
        None
    }
}

/// The extension a URL ends with, ignoring ASCII case.
pub open spec fn url_ext(url: Seq<char>) -> Option<ImageExt> {
    let lower = ascii_lower_seq(url);
    if ends_with(lower, ".png"@) {
        Some(ImageExt::Png)
    } else if ends_with(lower, ".jpg"@) || ends_with(lower, ".jpeg"@) {
        Some(ImageExt::Jpg)
    } else if ends_with(lower, ".webp"@) {
        Some(ImageExt::Webp)
    } else if ends_with(lower, ".gif"@) {
        Some(ImageExt::Gif)
    } else {
        None
    }
}

/// The extension for a MIME type: png, jpg, webp, gif or svg.
pub fn extension_from_mime(mime: &str) -> (res: Option<ImageExt>)
    ensures
        res == mime_ext(mime@),
{
    if str_eq(mime, "image/png") {
        Some(ImageExt::Png)
    } else if str_eq(mime, "image/jpeg") {
        Some(ImageExt::Jpg)
    } else if str_eq(mime, "image/webp") {
        Some(ImageExt::Webp)
    } else if str_eq(mime, "image/gif") {
        Some(ImageExt::Gif)
    } else if str_eq(mime, "image/svg+xml") {
        Some(ImageExt::Svg)
    } else {
        None
    }
}

/// The extension a URL's path ends with, in any ASCII case.
pub fn infer_extension_from_url(url: &str) -> (res: Option<ImageExt>)
    ensures
        res == url_ext(url@),
{
    let lower = lower_ascii_str(url);
    if ends_with_str(lower.as_str(), ".png") {
        Some(ImageExt::Png)
    } else if ends_with_str(lower.as_str(), ".jpg") || ends_with_str(lower.as_str(), ".jpeg") {
        Some(ImageExt::Jpg)
    } else if ends_with_str(lower.as_str(), ".webp") {
        Some(ImageExt::Webp)
    } else if ends_with_str(lower.as_str(), ".gif") {
        Some(ImageExt::Gif)
    } else {
        None
    }
}

// ---------------------------------------------------------------------------
// data: URLs
// ---------------------------------------------------------------------------

/// Why a `data:` avatar URL cannot be read.
#[derive(Debug, Clone, Copy, PartialEq, Eq, Structural)]
pub enum DataUrlError {
    MissingComma,
    InvalidBase64,
}

impl DataUrlError {
    pub open spec fn text(self) -> Seq<char> {
        match self {
            DataUrlError::MissingComma => "invalid data URL avatar: missing comma separator"@,
            DataUrlError::InvalidBase64 => "invalid base64 data URL payload"@,
        }
    }

    /// The message the client shows for this error.
    pub fn message(&self) -> (res: String)
        ensures
            res@ == self.text(),
    {
        match self {
            DataUrlError::MissingComma => copy_str("invalid data URL avatar: missing comma separator"),
            DataUrlError::InvalidBase64 => copy_str("invalid base64 data URL payload"),
        }
    }
}

/// The image carried inside a `data:` URL.
#[derive(Debug, Clone)]
pub struct DataAvatar {
    pub bytes: Vec<u8>,
    pub ext: ImageExt,
}

/// Whether `seg` stands in `s` as one of its `;`-separated parts.
pub open spec fn has_part(s: Seq<char>, seg: Seq<char>) -> bool {
    exists|i: int|
        0 <= i && i + seg.len() <= s.len() && (i == 0 || s[i - 1] == ';') && (i + seg.len()
            == s.len() || s[i + seg.len()] == ';') && #[trigger] s.subrange(i, i + seg.len()) == seg
}

/// The MIME type of the metadata of a `data:` URL: its first `;`-separated
/// part, or `application/octet-stream` when that part is empty.
pub open spec fn data_mime(mime_and_flags: Seq<char>) -> Seq<char> {
    let m = mime_and_flags.take(next_sep(mime_and_flags, ';', 0));
    if m.len() == 0 {
        "application/octet-stream"@
    } else {
        m
    }
}

/// The metadata of a `data:` URL: what stands before the first comma, without
/// its leading `data:` prefixes.
pub open spec fn data_meta(url: Seq<char>) -> Seq<char> {
    trim_start_seq(url.take(next_sep(url, ',', 0)), "data:"@)
}

/// The payload of a `data:` URL: what follows the first comma.
pub open spec fn data_payload(url: Seq<char>) -> Seq<char> {
    url.skip(next_sep(url, ',', 0) + 1)
}

/// What a `data:` URL carries: `Ok(None)` for any other URL; the bytes
/// (base64-decoded when `base64` is one of the metadata parts, else
/// percent-decoded) with the extension of the MIME type (`img` when unknown).
pub open spec fn data_avatar_of(url: Seq<char>) -> Result<Option<(Seq<u8>, ImageExt)>, DataUrlError> {
    if !starts_with(url, "data:"@) {
        Ok(None)
    } else if next_sep(url, ',', 0) >= url.len() {
        Err(DataUrlError::MissingComma)
    } else {
        let meta = data_meta(url);
        let ext = match mime_ext(data_mime(meta)) {
            Some(e) => e,
            None => ImageExt::Img,
        };
        let payload = encode_utf8(data_payload(url));
        if has_part(meta, "base64"@) {
            match base64_standard_decoded(payload) {
                Some(d) => Ok(Some((d, ext))),
                None => Err(DataUrlError::InvalidBase64),
            }
        } else {
            Ok(Some((percent_decoded(payload), ext)))
        }
    }
}

pub open spec fn data_avatar_view(r: Result<Option<DataAvatar>, DataUrlError>) -> Result<
    Option<(Seq<u8>, ImageExt)>,
    DataUrlError,
> {
    match r {
        Ok(Some(a)) => Ok(Some((a.bytes@, a.ext))),
        Ok(None) => Ok(None),
        Err(e) => Err(e),
    }
}

/// Finds `next_sep(cs, c, 0)`.
fn find_char(cs: &[char], c: char) -> (k: usize)
    ensures
        k == next_sep(cs@, c, 0),
        k <= cs@.len(),
{
    let mut k: usize = 0;
    while k < cs.len() && cs[k] != c
        invariant
            k <= cs@.len(),
            next_sep(cs@, c, 0) == next_sep(cs@, c, k as int),
        decreases cs@.len() - k,
    {
        k += 1;
    }
    k
}

/// Whether `seg` is one of the `;`-separated parts of `s`.
fn has_part_exec(s: &str, seg: &str) -> (res: bool)
    requires
        seg@.len() > 0,
    ensures
        res == has_part(s@, seg@),
{
    let cs = chars_of(s);
    let ss = chars_of(seg);
    let n = cs.len();
    let m = ss.len();
    if m > n {
        return false;
    }
    let mut i: usize = 0;
    while i <= n - m
        invariant
            n == cs@.len(),
            m == ss@.len(),
            cs@ == s@,
            ss@ == seg@,
            0 < m <= n,
            forall|j: int|
                0 <= j < i && j + m <= n && (j == 0 || cs@[j - 1] == ';') && (j + m == n || cs@[j
                    + m] == ';') ==> #[trigger] cs@.subrange(j, j + m) != ss@,
        decreases n - m + 1 - i,
    {
        let start_ok = i == 0 || cs[i - 1] == ';';
        let end_ok = i + m == n || cs[i + m] == ';';
        if start_ok && end_ok {
            let here = crate::text::chars_start_with_at(cs.as_slice(), i, ss.as_slice());
            if here {
                assert(cs@.skip(i as int).take(m as int) =~= cs@.subrange(i as int, i + m));
                return true;
            }
            assert(cs@.skip(i as int).take(m as int) =~= cs@.subrange(i as int, i + m));
        }
        i += 1;
    }
    false
}

/// Reads an avatar URL of the `data:` scheme.
pub fn decode_data_avatar_url(avatar_url: &str) -> (res: Result<Option<DataAvatar>, DataUrlError>)
    ensures
        data_avatar_view(res) == data_avatar_of(avatar_url@),
{
    if !starts_with_str(avatar_url, "data:") {
        return Ok(None);
    }
    let cs = chars_of(avatar_url);
    let k = find_char(cs.as_slice(), ',');
    if k >= cs.len() {
        return Err(DataUrlError::MissingComma);
    }
    let meta_raw = string_of(cs.as_slice(), 0, k);
    let data = string_of(cs.as_slice(), k + 1, cs.len());
    assert(meta_raw@ =~= avatar_url@.take(k as int));
    assert(data@ =~= data_payload(avatar_url@));
    proof {
        reveal_strlit("data:");
        reveal_strlit("base64");
    }
    let meta = trim_start_seq_str(meta_raw.as_str(), "data:");
    let is_base64 = has_part_exec(meta.as_str(), "base64");
    let ms = chars_of(meta.as_str());
    let j = find_char(ms.as_slice(), ';');
    let first = string_of(ms.as_slice(), 0, j);
    assert(first@ =~= meta@.take(j as int));
    let mime = if first.unicode_len() == 0 {
        copy_str("application/octet-stream")
    } else {
        first
    };
    let ext = match extension_from_mime(mime.as_str()) {
        Some(e) => e,
        None => ImageExt::Img,
    };
    if is_base64 {
        match base64_decode(data.as_str()) {
            Some(bytes) => Ok(Some(DataAvatar { bytes, ext })),
            None => Err(DataUrlError::InvalidBase64),
        }
    } else {
        let bytes = percent_decode(data.as_str());
        Ok(Some(DataAvatar { bytes, ext }))
    }
}

/// The bytes of a `data:` URL are the decoding of everything after its first
/// comma: base64 when `base64` is one of the metadata parts before that
/// comma, else percent-decoding.
pub proof fn lemma_data_payload_after_first_comma(url: Seq<char>, k: int)
    requires
        starts_with(url, "data:"@),
        0 <= k < url.len(),
        url[k] == ',',
        forall|j: int| 0 <= j < k ==> url[j] != ',',
    ensures
        !has_part(trim_start_seq(url.take(k), "data:"@), "base64"@) ==> (data_avatar_of(
            url,
        ) matches Ok(Some((b, _))) && b == percent_decoded(encode_utf8(url.skip(k + 1)))),
        has_part(trim_start_seq(url.take(k), "data:"@), "base64"@) ==> match base64_standard_decoded(
            encode_utf8(url.skip(k + 1)),
        ) {
            Some(d) => data_avatar_of(url) matches Ok(Some((b, _))) && b == d,
            None => data_avatar_of(url) == Err::<Option<(Seq<u8>, ImageExt)>, DataUrlError>(
                DataUrlError::InvalidBase64,
            ),
        },
        data_payload(url).len() == url.len() - k - 1,
{
    lemma_next_sep_at(url, ',', 0, k);
}

/// A `data:` URL without a comma is refused, and any other URL is not a
/// `data:` URL at all.
pub proof fn lemma_data_url_shape(url: Seq<char>)
    ensures
        !starts_with(url, "data:"@) ==> data_avatar_of(url) == Ok::<
            Option<(Seq<u8>, ImageExt)>,
            DataUrlError,
        >(None),
        starts_with(url, "data:"@) && (forall|j: int| 0 <= j < url.len() ==> url[j] != ',')
            ==> data_avatar_of(url) == Err::<Option<(Seq<u8>, ImageExt)>, DataUrlError>(
            DataUrlError::MissingComma,
        ),
{
    if starts_with(url, "data:"@) && (forall|j: int| 0 <= j < url.len() ==> url[j] != ',') {
        lemma_next_sep_at(url, ',', 0, url.len() as int);
    }
}

// ---------------------------------------------------------------------------
// Cached image files
// ---------------------------------------------------------------------------

/// What a fresh `DefaultHasher` finishes with after hashing a string: the
/// string's UTF-8 bytes are written, then the byte `0xff` (how `str`
/// feeds a hasher).
pub open spec fn url_hash(url: Seq<char>) -> u64 {
    DefaultHasher::spec_finish(seq![encode_utf8(url), seq![0xffu8]])
}

/// The file an avatar URL is cached under: the URL's hash in sixteen
/// lowercase hexadecimal digits, a dot, and the extension.
pub open spec fn avatar_file_name_of(url: Seq<char>, ext: ImageExt) -> Seq<char> {
    hex_fixed(url_hash(url) as nat, 16) + "."@ + ext.text()
}

/// The hash of a string as `str`'s `Hash` impl feeds a fresh `DefaultHasher`.
pub fn hash_url(url: &str) -> (h: u64)
    ensures
        h == url_hash(url@),
{
    let mut hasher = DefaultHasher::new();
    hasher.write(url.as_bytes());
    let mut end: Vec<u8> = Vec::new();
    end.push(0xff);
    assert(end@ =~= seq![0xffu8]);
    hasher.write(end.as_slice());
    assert(hasher@ =~= seq![encode_utf8(url@), seq![0xffu8]]);
    hasher.finish()
}

/// The file name for an avatar URL and image type.
pub fn avatar_file_name(avatar_url: &str, ext: ImageExt) -> (res: String)
    ensures
        res@ == avatar_file_name_of(avatar_url@, ext),
{
    let h = hash_url(avatar_url);
    let mut name = hex_fixed_u64(h, 16);
    append_str(&mut name, ".");
    append_str(&mut name, ext.as_str());
    name
}

/// How to obtain an avatar image and where to keep it.
#[derive(Debug, Clone)]
pub struct AvatarPlan {
    /// The bytes, when the URL carries them (`data:`); else they are fetched.
    pub inline: Option<Vec<u8>>,
    /// The name of the cache file.
    pub file_name: String,
}

/// The extension an avatar URL is stored under: the data URL's type, else the
/// URL's ending, else `img`.
pub open spec fn plan_ext(url: Seq<char>, data: Option<(Seq<u8>, ImageExt)>) -> ImageExt {
    match data {
        Some((_, e)) => e,
        None => match url_ext(url) {
            Some(e) => e,
            None => ImageExt::Img,
        },
    }
}

/// Plans how to cache an avatar URL: a `data:` URL carries its bytes; any
/// other URL is fetched and named after its ending.
pub fn avatar_plan(avatar_url: &str) -> (res: Result<AvatarPlan, DataUrlError>)
    ensures
        match data_avatar_of(avatar_url@) {
            Err(e) => res == Err::<AvatarPlan, DataUrlError>(e),
            Ok(d) => res matches Ok(p) && p.file_name@ == avatar_file_name_of(
                avatar_url@,
                plan_ext(avatar_url@, d),
            ) && match d {
                Some((bytes, _)) => p.inline matches Some(b) && b@ == bytes,
                None => p.inline is None,
            },
        },
{
    match decode_data_avatar_url(avatar_url) {
        Err(e) => Err(e),
        Ok(Some(a)) => {
            let file_name = avatar_file_name(avatar_url, a.ext);
            Ok(AvatarPlan { inline: Some(a.bytes), file_name })
        },
        Ok(None) => {
            let ext = match infer_extension_from_url(avatar_url) {
                Some(e) => e,
                None => ImageExt::Img,
            };
            let file_name = avatar_file_name(avatar_url, ext);
            Ok(AvatarPlan { inline: None, file_name })
        },
    }
}

/// The avatar cache: which image file holds the image of each avatar URL.
/// Each URL has at most one entry; writing a URL again replaces its entry.
#[derive(Debug)]
pub struct AvatarCache {
    entries: Vec<(String, String)>,
}

pub open spec fn entries_map(entries: Seq<(String, String)>) -> Map<Seq<char>, Seq<char>>
    decreases entries.len(),
{
    if entries.len() == 0 {
        Map::empty()
    } else {
        entries_map(entries.drop_last()).insert(entries.last().0@, entries.last().1@)
    }
}

impl View for AvatarCache {
    type V = Map<Seq<char>, Seq<char>>;

    closed spec fn view(&self) -> Map<Seq<char>, Seq<char>> {
        entries_map(self.entries@)
    }
}

proof fn lemma_entries_map_last(entries: Seq<(String, String)>, k: Seq<char>, i: int)
    requires
        0 <= i < entries.len(),
        entries[i].0@ == k,
        forall|j: int| i < j < entries.len() ==> #[trigger] entries[j].0@ != k,
    ensures
        entries_map(entries).contains_key(k),
        entries_map(entries)[k] == entries[i].1@,
    decreases entries.len(),
{
    if i < entries.len() - 1 {
        lemma_entries_map_last(entries.drop_last(), k, i);
    }
}

proof fn lemma_entries_map_absent(entries: Seq<(String, String)>, k: Seq<char>)
    requires
        forall|j: int| 0 <= j < entries.len() ==> #[trigger] entries[j].0@ != k,
    ensures
        !entries_map(entries).contains_key(k),
    decreases entries.len(),
{
    if entries.len() > 0 {
        lemma_entries_map_absent(entries.drop_last(), k);
    }
}

proof fn lemma_entries_map_update(
    entries: Seq<(String, String)>,
    k: Seq<char>,
    v: Seq<char>,
    i: int,
)
    requires
        0 <= i < entries.len(),
        entries[i].0@ == k,
        forall|j: int| i < j < entries.len() ==> #[trigger] entries[j].0@ != k,
    ensures
        forall|e: (String, String)|
            e.0@ == k && e.1@ == v ==> #[trigger] entries_map(entries.update(i, e))
                == entries_map(entries).insert(k, v),
    decreases entries.len(),
{
    assert forall|e: (String, String)| e.0@ == k && e.1@ == v implies #[trigger] entries_map(
        entries.update(i, e),
    ) == entries_map(entries).insert(k, v) by {
        let u = entries.update(i, e);
        if i == entries.len() - 1 {
            assert(u.drop_last() =~= entries.drop_last());
            assert(entries_map(u) =~= entries_map(entries).insert(k, v));
        } else {
            lemma_entries_map_update(entries.drop_last(), k, v, i);
            assert(u.drop_last() =~= entries.drop_last().update(i, e));
            assert(entries_map(entries.drop_last().update(i, e)) == entries_map(
                entries.drop_last(),
            ).insert(k, v));
            let last = entries.last();
            assert(u.last() == last);
            assert(last.0@ != k);
            assert(entries_map(u) =~= entries_map(entries).insert(k, v));
        }
    }
}

impl AvatarCache {
    /// An empty cache.
    pub fn new() -> (res: AvatarCache)
        ensures
            res@ == Map::<Seq<char>, Seq<char>>::empty(),
    {
        AvatarCache { entries: Vec::new() }
    }

    /// The file cached for an avatar URL.
    pub fn get(&self, avatar_url: &str) -> (res: Option<String>)
        ensures
            self@.contains_key(avatar_url@) ==> (res matches Some(p) && p@ == self@[avatar_url@]),
            !self@.contains_key(avatar_url@) ==> res is None,
    {
        let n = self.entries.len();
        let mut i: usize = n;
        while i > 0
            invariant
                n == self.entries@.len(),
                i <= n,
                forall|j: int| i <= j < n ==> #[trigger] self.entries@[j].0@ != avatar_url@,
            decreases i,
        {
            let e = &self.entries[i - 1];
            if str_eq(e.0.as_str(), avatar_url) {
                proof {
                    lemma_entries_map_last(self.entries@, avatar_url@, i - 1);
                }
                return Some(e.1.clone());
            }
            i -= 1;
        }
        proof {
            lemma_entries_map_absent(self.entries@, avatar_url@);
        }
        None
    }

    /// Records the file that holds the image of an avatar URL, replacing the
    /// entry of that URL if there is one.
    pub fn insert(&mut self, avatar_url: String, path: String)
        ensures
            final(self)@ == old(self)@.insert(avatar_url@, path@),
    {
        let ghost before = self.entries@;
        let n = self.entries.len();
        let mut i: usize = n;
        while i > 0
            invariant
                n == self.entries@.len(),
                self.entries@ == before,
                old(self).entries@ == before,
                i <= n,
                forall|j: int| i <= j < n ==> #[trigger] self.entries@[j].0@ != avatar_url@,
            decreases i,
        {
            if str_eq(self.entries[i - 1].0.as_str(), avatar_url.as_str()) {
                let ghost k = avatar_url@;
                let ghost v = path@;
                let ghost e = (avatar_url, path);
                self.entries.set(i - 1, (avatar_url, path));
                proof {
                    lemma_entries_map_update(before, k, v, i - 1);
                    assert(self.entries@ == before.update(i - 1, e));
                    assert(entries_map(before.update(i - 1, e)) == entries_map(before).insert(k, v));
                }
                return;
            }
            i -= 1;
        }
        self.entries.push((avatar_url, path));
        assert(self.entries@.drop_last() =~= before);
    }
}

// ---------------------------------------------------------------------------
// Which avatar to show
// ---------------------------------------------------------------------------

/// Whether a line can show the avatar asked for: it has an avatar, and is
/// from the given sender when one is given.
pub open spec fn avatar_candidate(l: LineView, filter: Option<Seq<char>>) -> bool {
    &&& l.avatar_url is Some
    &&& match filter {
        Some(f) => l.sender_id == f,
        None => true,
    }
}

pub open spec fn filter_view(f: Option<&str>) -> Option<Seq<char>> {
    match f {
        Some(s) => Some(s@),
        None => None,
    }
}

/// The latest line with an avatar, from the given sender when one is given.
pub fn select_avatar_message<'a>(messages: &'a [ChatLine], sender_filter: Option<&str>) -> (res:
    Option<&'a ChatLine>)
    ensures
        res is None <==> forall|j: int|
            0 <= j < messages@.len() ==> !avatar_candidate(
                #[trigger] messages@[j]@,
                filter_view(sender_filter),
            ),
        res matches Some(m) ==> exists|i: int|
            0 <= i < messages@.len() && *m == messages@[i] && avatar_candidate(
                messages@[i]@,
                filter_view(sender_filter),
            ) && forall|j: int|
                i < j < messages@.len() ==> !avatar_candidate(
                    #[trigger] messages@[j]@,
                    filter_view(sender_filter),
                ),
{
    let n = messages.len();
    let mut i: usize = n;
    while i > 0
        invariant
            n == messages@.len(),
            i <= n,
            forall|j: int|
                i <= j < n ==> !avatar_candidate(#[trigger] messages@[j]@, filter_view(sender_filter)),
        decreases i,
    {
        let m = &messages[i - 1];
        let matches_sender = match sender_filter {
            Some(s) => str_eq(m.sender_id.as_str(), s),
            None => true,
        };
        if matches_sender && m.avatar_url.is_some() {
            assert(avatar_candidate(messages@[i - 1]@, filter_view(sender_filter)));
            return Some(m);
        }
        i -= 1;
    }
    None
}

/// Why no avatar can be shown.
#[derive(Debug, Clone, Copy, PartialEq, Eq, Structural)]
pub enum AvatarError {
    NoMatchingMessage,
    SelfAvatarUnset,
}

impl AvatarError {
    pub open spec fn text(self) -> Seq<char> {
        match self {
            AvatarError::NoMatchingMessage => "no matching message with avatar_url found"@,
            AvatarError::SelfAvatarUnset => "self avatar URL is not set; use /avatar <https://image-url>"@,
        }
    }

    /// The message the client shows for this error.
    pub fn message(&self) -> (res: String)
        ensures
            res@ == self.text(),
    {
        match self {
            AvatarError::NoMatchingMessage => copy_str("no matching message with avatar_url found"),
            AvatarError::SelfAvatarUnset => copy_str(
                "self avatar URL is not set; use /avatar <https://image-url>",
            ),
        }
    }
}

/// The avatar URL `/icat [sender]` shows: that of the latest message with an
/// avatar (from the sender, when given).
pub fn avatar_to_show(messages: &[ChatLine], sender_filter: Option<&str>) -> (res: Result<
    String,
    AvatarError,
>)
    ensures
        res is Err <==> forall|j: int|
            0 <= j < messages@.len() ==> !avatar_candidate(
                #[trigger] messages@[j]@,
                filter_view(sender_filter),
            ),
        res matches Err(e) ==> e == AvatarError::NoMatchingMessage,
        res matches Ok(u) ==> exists|i: int|
            0 <= i < messages@.len() && messages@[i]@.avatar_url == Some(u@) && avatar_candidate(
                messages@[i]@,
                filter_view(sender_filter),
            ) && forall|j: int|
                i < j < messages@.len() ==> !avatar_candidate(
                    #[trigger] messages@[j]@,
                    filter_view(sender_filter),
                ),
{
    match select_avatar_message(messages, sender_filter) {
        Some(m) => match &m.avatar_url {
            Some(u) => Ok(u.clone()),
            None => Err(AvatarError::NoMatchingMessage),
        },
        None => Err(AvatarError::NoMatchingMessage),
    }
}

impl ChatState {
    /// The avatar URL `/icat self` shows.
    pub fn self_avatar_url(&self) -> (res: Result<String, AvatarError>)
        ensures
            match self.avatar_url {
                Some(u) => res matches Ok(r) && r@ == u@,
                None => res == Err::<String, AvatarError>(AvatarError::SelfAvatarUnset),
            },
    {
        match &self.avatar_url {
            Some(u) => Ok(u.clone()),
            None => Err(AvatarError::SelfAvatarUnset),
        }
    }
}

} // verus!
