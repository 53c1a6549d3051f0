//! What accompanies an object in the store: its content type, and the
//! metadata and tags given on the command line as `key=value` pairs.

use vstd::prelude::*;
use crate::text::{
    byte_len, byte_length, chars_of, is_text, split, split_chars, string_of, texts_of, trim,
    trim_chars,
};

verus! {

/// `Path` of std, which is carried through as it is.
#[verifier::external_type_specification]
#[verifier::external_body]
pub struct ExPath(std::path::Path);

/// Longest key of a tag, in bytes.
pub const MAX_TAG_KEY_BYTES: usize = 128;

/// Longest value of a tag, in bytes.
pub const MAX_TAG_VALUE_BYTES: usize = 256;

/// The content type for a file name's extension, which is given without its
/// period and is told apart by case. An extension that is not listed, or none
/// at all, gives `application/octet-stream`.
pub open spec fn content_type_of(extension: Option<Seq<char>>) -> Seq<char> {
    match extension {
        None => "application/octet-stream"@,
        Some(ext) => if ext == "mp4"@ {
            "video/mp4"@
        } else if ext == "mov"@ {
            "video/quicktime"@
        } else if ext == "avi"@ {
            "video/x-msvideo"@
        } else if ext == "mkv"@ {
            "video/x-matroska"@
        } else if ext == "webm"@ {
            "video/webm"@
        } else if ext == "flv"@ {
            "video/x-flv"@
        } else if ext == "wmv"@ {
            "video/x-ms-wmv"@
        } else if ext == "m4v"@ {
            "video/x-m4v"@
        } else if ext == "jpg"@ || ext == "jpeg"@ {
            "image/jpeg"@
        } else if ext == "png"@ {
            "image/png"@
        } else if ext == "gif"@ {
            "image/gif"@
        } else if ext == "bmp"@ {
            "image/bmp"@
        } else if ext == "svg"@ {
            "image/svg+xml"@
        } else if ext == "webp"@ {
            "image/webp"@
        } else if ext == "ico"@ {
            "image/x-icon"@
        } else if ext == "tif"@ || ext == "tiff"@ {
            "image/tiff"@
        } else if ext == "mp3"@ {
            "audio/mpeg"@
        } else if ext == "wav"@ {
            "audio/wav"@
        } else if ext == "ogg"@ {
            "audio/ogg"@
        } else if ext == "flac"@ {
            "audio/flac"@
        } else if ext == "aac"@ {
            "audio/aac"@
        } else if ext == "m4a"@ {
            "audio/mp4"@
        } else if ext == "pdf"@ {
            "application/pdf"@
        } else if ext == "doc"@ {
            "application/msword"@
        } else if ext == "docx"@ {
            "application/vnd.openxmlformats-officedocument.wordprocessingml.document"@
        } else if ext == "xls"@ {
            "application/vnd.ms-excel"@
        } else if ext == "xlsx"@ {
            "application/vnd.openxmlformats-officedocument.spreadsheetml.sheet"@
        } else if ext == "ppt"@ {
            "application/vnd.ms-powerpoint"@
        } else if ext == "pptx"@ {
            "application/vnd.openxmlformats-officedocument.presentationml.presentation"@
        } else if ext == "txt"@ {
            "text/plain"@
        } else if ext == "html"@ || ext == "htm"@ {
            "text/html"@
        } else if ext == "css"@ {
            "text/css"@
        } else if ext == "js"@ {
            "text/javascript"@
        } else if ext == "json"@ {
            "application/json"@
        } else if ext == "xml"@ {
            "application/xml"@
        } else if ext == "csv"@ {
            "text/csv"@
        } else if ext == "md"@ {
            "text/markdown"@
        } else if ext == "zip"@ {
            "application/zip"@
        } else if ext == "tar"@ {
            "application/x-tar"@
        } else if ext == "gz"@ {
            "application/gzip"@
        } else if ext == "bz2"@ {
            "application/x-bzip2"@
        } else if ext == "7z"@ {
            "application/x-7z-compressed"@
        } else if ext == "rar"@ {
            "application/vnd.rar"@
        } else if ext == "exe"@ {
            "application/x-msdownload"@
        } else if ext == "dmg"@ {
            "application/x-apple-diskimage"@
        } else if ext == "iso"@ {
            "application/x-iso9660-image"@
        } else {
            "application/octet-stream"@
        },
    }
}

fn listed_type(ext: &Vec<char>) -> (name: &'static str)
    ensures
        name@ == content_type_of(Some(ext@)),
{
    if is_text(ext, "mp4") {
        "video/mp4"
    } else if is_text(ext, "mov") {
        "video/quicktime"
    } else if is_text(ext, "avi") {
        "video/x-msvideo"
    } else if is_text(ext, "mkv") {
        "video/x-matroska"
    } else if is_text(ext, "webm") {
        "video/webm"
    } else if is_text(ext, "flv") {
        "video/x-flv"
    } else if is_text(ext, "wmv") {
        "video/x-ms-wmv"
    } else if is_text(ext, "m4v") {
        "video/x-m4v"
    } else if is_text(ext, "jpg") || is_text(ext, "jpeg") {
        "image/jpeg"
    } else if is_text(ext, "png") {
        "image/png"
    } else if is_text(ext, "gif") {
        "image/gif"
    } else if is_text(ext, "bmp") {
        "image/bmp"
    } else if is_text(ext, "svg") {
        "image/svg+xml"
    } else if is_text(ext, "webp") {
        "image/webp"
    } else if is_text(ext, "ico") {
        "image/x-icon"
    } else if is_text(ext, "tif") || is_text(ext, "tiff") {
        "image/tiff"
    } else if is_text(ext, "mp3") {
        "audio/mpeg"
    } else if is_text(ext, "wav") {
        "audio/wav"
    } else if is_text(ext, "ogg") {
        "audio/ogg"
    } else if is_text(ext, "flac") {
        "audio/flac"
    } else if is_text(ext, "aac") {
        "audio/aac"
    } else if is_text(ext, "m4a") {
        "audio/mp4"
    } else if is_text(ext, "pdf") {
        "application/pdf"
    } else if is_text(ext, "doc") {
        "application/msword"
    } else if is_text(ext, "docx") {
        "application/vnd.openxmlformats-officedocument.wordprocessingml.document"
    } else if is_text(ext, "xls") {
        "application/vnd.ms-excel"
    } else if is_text(ext, "xlsx") {
        "application/vnd.openxmlformats-officedocument.spreadsheetml.sheet"
    } else if is_text(ext, "ppt") {
        "application/vnd.ms-powerpoint"
    } else if is_text(ext, "pptx") {
        "application/vnd.openxmlformats-officedocument.presentationml.presentation"
    } else if is_text(ext, "txt") {
        "text/plain"
    } else if is_text(ext, "html") || is_text(ext, "htm") {
        "text/html"
    } else if is_text(ext, "css") {
        "text/css"
    } else if is_text(ext, "js") {
        "text/javascript"
    } else if is_text(ext, "json") {
        "application/json"
    } else if is_text(ext, "xml") {
        "application/xml"
    } else if is_text(ext, "csv") {
        "text/csv"
    } else if is_text(ext, "md") {
        "text/markdown"
    } else if is_text(ext, "zip") {
        "application/zip"
    } else if is_text(ext, "tar") {
        "application/x-tar"
    } else if is_text(ext, "gz") {
        "application/gzip"
    } else if is_text(ext, "bz2") {
        "application/x-bzip2"
    } else if is_text(ext, "7z") {
        "application/x-7z-compressed"
    } else if is_text(ext, "rar") {
        "application/vnd.rar"
    } else if is_text(ext, "exe") {
        "application/x-msdownload"
    } else if is_text(ext, "dmg") {
        "application/x-apple-diskimage"
    } else if is_text(ext, "iso") {
        "application/x-iso9660-image"
    } else {
        "application/octet-stream"
    }
}

/// An extension as a text, where there is one.
pub open spec fn extension_text(extension: Option<&str>) -> Option<Seq<char>> {
    match extension {
        Some(ext) => Some(ext@),
        None => None,
    }
}

/// The content type for a file name's extension.
pub fn content_type_for(extension: Option<&str>) -> (content_type: String)
    ensures
        content_type@ == content_type_of(extension_text(extension)),
{
    let name = match extension {
        Some(ext) => listed_type(&chars_of(ext)),
        None => "application/octet-stream",
    };
    string_of(&chars_of(name))
}

/// `Path::extension` of std, as a text: the part of the path's file name
/// behind its last period. Nothing is stated of it, since what counts as the
/// file name of a path differs between systems.
#[verifier::external_body]
fn extension_of(path: &std::path::Path) -> (extension: Option<String>) {
    path.extension().and_then(|ext| ext.to_str()).map(|ext| ext.to_string())
}

/// The content type of the file at `path`, by the extension of its name:
/// what [`content_type_for`] gives for the extension that the path has on
/// this system.
pub fn detect_content_type(path: &std::path::Path) -> (content_type: String)
    ensures
        exists|extension: Option<Seq<char>>| content_type@ == content_type_of(extension),
{
    let extension = extension_of(path);
    match extension {
        Some(ext) => {
            let content_type = content_type_for(Some(ext.as_str()));
            assert(content_type@ == content_type_of(Some(ext@)));
            content_type
        },
        None => {
            let content_type = content_type_for(None);
            assert(content_type@ == content_type_of(None));
            content_type
        },
    }
}

/// Keys with their values, at most one value to a key.
#[derive(Debug, Clone)]
pub struct Metadata {
    entries: Vec<(String, String)>,
}

/// The keys and values of `entries` as texts.
pub open spec fn pairs_of(entries: Seq<(String, String)>) -> Seq<(Seq<char>, Seq<char>)> {
    Seq::new(entries.len(), |i: int| (entries[i].0@, entries[i].1@))
}

/// The map that results when the pairs are entered one after the other, a
/// later value for a key taking the place of an earlier one.
pub open spec fn map_of(pairs: Seq<(Seq<char>, Seq<char>)>) -> Map<Seq<char>, Seq<char>>
    decreases pairs.len(),
{
    if pairs.len() == 0 {
        Map::empty()
    } else {
        map_of(pairs.drop_last()).insert(pairs.last().0, pairs.last().1)
    }
}

/// No key occurs twice.
pub open spec fn distinct_keys(pairs: Seq<(Seq<char>, Seq<char>)>) -> bool {
    forall|i: int, j: int| 0 <= i < j < pairs.len() ==> pairs[i].0 != pairs[j].0
}

proof fn lemma_map_of_keys(pairs: Seq<(Seq<char>, Seq<char>)>)
    ensures
        forall|key: Seq<char>| #[trigger]
            map_of(pairs).contains_key(key) <==> exists|i: int|
                0 <= i < pairs.len() && #[trigger] pairs[i].0 == key,
        map_of(pairs).dom().finite(),
    decreases pairs.len(),
{
    if pairs.len() > 0 {
        let before = pairs.drop_last();
        lemma_map_of_keys(before);
        assert forall|key: Seq<char>| #[trigger]
            map_of(pairs).contains_key(key) <==> exists|i: int|
                0 <= i < pairs.len() && #[trigger] pairs[i].0 == key by {
            if map_of(pairs).contains_key(key) {
                if key == pairs.last().0 {
                    assert(pairs[pairs.len() - 1].0 == key);
                } else {
                    assert(map_of(before).contains_key(key));
                    let i = choose|i: int| 0 <= i < before.len() && #[trigger] before[i].0 == key;
                    assert(pairs[i].0 == key);
                }
            }
            if exists|i: int| 0 <= i < pairs.len() && #[trigger] pairs[i].0 == key {
                let i = choose|i: int| 0 <= i < pairs.len() && #[trigger] pairs[i].0 == key;
                if i < pairs.len() - 1 {
                    assert(before[i].0 == key);
                }
            }
        }
    }
}

proof fn lemma_map_of_distinct(pairs: Seq<(Seq<char>, Seq<char>)>)
    requires
        distinct_keys(pairs),
    ensures
        forall|i: int| 0 <= i < pairs.len() ==> map_of(pairs)[(#[trigger] pairs[i]).0] == pairs[i].1,
        map_of(pairs).dom().len() == pairs.len(),
    decreases pairs.len(),
{
    if pairs.len() > 0 {
        let before = pairs.drop_last();
        assert(distinct_keys(before));
        lemma_map_of_distinct(before);
        lemma_map_of_keys(before);
        assert(!map_of(before).contains_key(pairs.last().0)) by {
            if map_of(before).contains_key(pairs.last().0) {
                let i = choose|i: int|
                    0 <= i < before.len() && #[trigger] before[i].0 == pairs.last().0;
                assert(pairs[i].0 == pairs[pairs.len() - 1].0);
            }
        }
        assert forall|i: int| 0 <= i < pairs.len() implies map_of(pairs)[(#[trigger] pairs[i]).0]
            == pairs[i].1 by {
            if i < pairs.len() - 1 {
                assert(before[i] == pairs[i]);
                assert(pairs[i].0 != pairs[pairs.len() - 1].0);
            }
        }
    }
}

proof fn lemma_map_of_update(
    pairs: Seq<(Seq<char>, Seq<char>)>,
    at: int,
    value: Seq<char>,
)
    requires
        distinct_keys(pairs),
        0 <= at < pairs.len(),
    ensures
        map_of(pairs.update(at, (pairs[at].0, value))) == map_of(pairs).insert(pairs[at].0, value),
        distinct_keys(pairs.update(at, (pairs[at].0, value))),
    decreases pairs.len(),
{
    let key = pairs[at].0;
    let updated = pairs.update(at, (key, value));
    let before = pairs.drop_last();
    if at == pairs.len() - 1 {
        assert(updated.drop_last() == before);
        assert(map_of(updated) == map_of(before).insert(key, value));
        assert(map_of(before).insert(pairs.last().0, pairs.last().1).insert(key, value) == map_of(
            before,
        ).insert(key, value));
    } else {
        assert(distinct_keys(before));
        lemma_map_of_update(before, at, value);
        assert(updated.drop_last() == before.update(at, (key, value)));
        assert(updated.last() == pairs.last());
        assert(pairs[at].0 != pairs[pairs.len() - 1].0);
        assert(map_of(before).insert(key, value).insert(pairs.last().0, pairs.last().1) == map_of(
            before,
        ).insert(pairs.last().0, pairs.last().1).insert(key, value));
    }
}

impl View for Metadata {
    type V = Map<Seq<char>, Seq<char>>;

    closed spec fn view(&self) -> Map<Seq<char>, Seq<char>> {
        map_of(pairs_of(self.entries@))
    }
}

impl Metadata {
    /// Validity: no key is stored twice.
    pub closed spec fn wf(&self) -> bool {
        distinct_keys(pairs_of(self.entries@))
    }

    /// The keys are finitely many.
    pub proof fn lemma_finite(&self)
        ensures
            self@.dom().finite(),
    {
        lemma_map_of_keys(pairs_of(self.entries@));
    }

    /// Metadata without any key.
    pub fn new() -> (metadata: Self)
        ensures
            metadata.wf(),
            metadata@ == Map::<Seq<char>, Seq<char>>::empty(),
    {
        Metadata { entries: Vec::new() }
    }

    fn position(&self, key: &String) -> (at: Option<usize>)
        ensures
            match at {
                Some(i) => i < self.entries@.len() && self.entries@[i as int].0@ == key@,
                None => forall|i: int|
                    0 <= i < self.entries@.len() ==> (#[trigger] self.entries@[i]).0@ != key@,
            },
    {
        let mut i: usize = 0;
        while i < self.entries.len()
            invariant
                i <= self.entries.len(),
                forall|k: int| 0 <= k < i ==> (#[trigger] self.entries@[k]).0@ != key@,
            decreases self.entries.len() - i,
        {
            if is_text(&chars_of(self.entries[i].0.as_str()), key.as_str()) {
                return Some(i);
            }
            i += 1;
        }
        None
    }

    /// Enters `value` under `key`, in place of the value that the key had.
    pub fn insert(&mut self, key: String, value: String)
        requires
            old(self).wf(),
        ensures
            final(self).wf(),
            final(self)@ == old(self)@.insert(key@, value@),
    {
        let ghost before = pairs_of(self.entries@);
        match self.position(&key) {
            Some(at) => {
                proof {
                    lemma_map_of_update(before, at as int, value@);
                }
                self.entries.set(at, (key, value));
                assert(pairs_of(self.entries@) == before.update(at as int, (key@, value@)));
            },
            None => {
                self.entries.push((key, value));
                assert(pairs_of(self.entries@) == before.push((key@, value@)));
                assert(pairs_of(self.entries@).drop_last() == before);
                assert(distinct_keys(pairs_of(self.entries@))) by {
                    assert forall|i: int, j: int|
                        0 <= i < j < pairs_of(self.entries@).len() implies pairs_of(
                        self.entries@,
                    )[i].0 != pairs_of(self.entries@)[j].0 by {
                        if j < before.len() {
                            assert(before[i].0 != before[j].0);
                        } else {
                            assert(old(self).entries@[i].0@ != key@);
                        }
                    }
                }
            },
        }
    }

    /// The value entered under `key`, if there is one.
    pub fn get(&self, key: &str) -> (value: Option<&String>)
        requires
            self.wf(),
        ensures
            match value {
                Some(found) => self@.contains_key(key@) && self@[key@] == found@,
                None => !self@.contains_key(key@),
            },
    {
        let wanted = string_of(&chars_of(key));
        let ghost pairs = pairs_of(self.entries@);
        proof {
            lemma_map_of_keys(pairs);
            lemma_map_of_distinct(pairs);
        }
        match self.position(&wanted) {
            Some(at) => {
                assert(pairs[at as int].0 == key@);
                Some(&self.entries[at].1)
            },
            None => {
                assert(!map_of(pairs).contains_key(key@)) by {
                    if map_of(pairs).contains_key(key@) {
                        let i = choose|i: int| 0 <= i < pairs.len() && #[trigger] pairs[i].0 == key@;
                        assert(self.entries@[i].0@ == key@);
                    }
                }
                None
            },
        }
    }

    /// Number of keys.
    pub fn len(&self) -> (count: usize)
        requires
            self.wf(),
        ensures
            count == self@.dom().len(),
    {
        proof {
            lemma_map_of_distinct(pairs_of(self.entries@));
        }
        self.entries.len()
    }

    /// Whether there is no key at all.
    pub fn is_empty(&self) -> (empty: bool)
        requires
            self.wf(),
        ensures
            empty == (self@.dom().len() == 0),
    {
        proof {
            lemma_map_of_distinct(pairs_of(self.entries@));
        }
        self.entries.len() == 0
    }

    /// The keys with their values, each key once, in the order in which the
    /// keys were first entered.
    pub fn entries(&self) -> (entries: &Vec<(String, String)>)
        requires
            self.wf(),
        ensures
            map_of(pairs_of(entries@)) == self@,
            distinct_keys(pairs_of(entries@)),
    {
        &self.entries
    }
}

/// The key and value that one `key=value` pair gives: what stands before
/// the first `=` and what stands between the first and the second, each
/// without the whitespace around it. A pair without `=`, or with an empty
/// key or value, gives nothing; with `limited`, so does a pair whose key or
/// value is longer than a tag's may be.
pub open spec fn entry_of(pair: Seq<char>, limited: bool) -> Option<(Seq<char>, Seq<char>)> {
    let pieces = split(pair, '=');
    if pieces.len() < 2 {
        None
    } else {
        let key = trim(pieces[0]);
        let value = trim(pieces[1]);
        if key.len() == 0 || value.len() == 0 {
            None
        } else if limited && (byte_len(key) > MAX_TAG_KEY_BYTES || byte_len(value)
            > MAX_TAG_VALUE_BYTES) {
            None
        } else {
            Some((key, value))
        }
    }
}

/// The map that the pairs give, entered in their order.
pub open spec fn collect_entries(pairs: Seq<Seq<char>>, limited: bool) -> Map<
    Seq<char>,
    Seq<char>,
>
    decreases pairs.len(),
{
    if pairs.len() == 0 {
        Map::empty()
    } else {
        let before = collect_entries(pairs.drop_last(), limited);
        match entry_of(pairs.last(), limited) {
            Some((key, value)) => before.insert(key, value),
            None => before,
        }
    }
}

/// The metadata that a text of comma-separated `key=value` pairs gives.
pub open spec fn metadata_of(text: Seq<char>) -> Map<Seq<char>, Seq<char>> {
    collect_entries(split(text, ','), false)
}

/// The tags that a text of comma-separated `key=value` pairs gives: as the
/// metadata, without the pairs that are too long for a tag.
pub open spec fn tags_of(text: Seq<char>) -> Map<Seq<char>, Seq<char>> {
    collect_entries(split(text, ','), true)
}

fn parse_entry(pair: &Vec<char>, limited: bool) -> (entry: Option<(String, String)>)
    ensures
        match entry_of(pair@, limited) {
            Some((key, value)) => entry matches Some(found) && found.0@ == key && found.1@
                == value,
            None => entry is None,
        },
{
    let pieces = split_chars(pair, '=');
    if pieces.len() < 2 {
        return None;
    }
    assert(texts_of(pieces@)[0] == pieces@[0]@);
    assert(texts_of(pieces@)[1] == pieces@[1]@);
    let key_chars = trim_chars(&pieces[0]);
    let value_chars = trim_chars(&pieces[1]);
    if key_chars.len() == 0 || value_chars.len() == 0 {
        return None;
    }
    let key = string_of(&key_chars);
    let value = string_of(&value_chars);
    if limited && (byte_length(key.as_str()) > MAX_TAG_KEY_BYTES || byte_length(value.as_str())
        > MAX_TAG_VALUE_BYTES) {
        return None;
    }
    Some((key, value))
}

fn parse_pairs(text: &str, limited: bool) -> (metadata: Metadata)
    ensures
        metadata.wf(),
        metadata@ == collect_entries(split(text@, ','), limited),
{
    let pairs = split_chars(&chars_of(text), ',');
    let mut metadata = Metadata::new();
    let mut i: usize = 0;
    assert(texts_of(pairs@).take(0) == Seq::<Seq<char>>::empty());
    while i < pairs.len()
        invariant
            i <= pairs.len(),
            texts_of(pairs@) == split(text@, ','),
            metadata.wf(),
            metadata@ == collect_entries(texts_of(pairs@).take(i as int), limited),
        decreases pairs.len() - i,
    {
        assert(texts_of(pairs@).take(i + 1).drop_last() == texts_of(pairs@).take(i as int));
        assert(texts_of(pairs@).take(i + 1).last() == pairs@[i as int]@);
        match parse_entry(&pairs[i], limited) {
            Some(entry) => {
                metadata.insert(entry.0, entry.1);
            },
            None => {},
        }
        i += 1;
    }
    assert(texts_of(pairs@).take(pairs.len() as int) == texts_of(pairs@));
    metadata
}

/// Reads metadata given as `key1=value1,key2=value2`. Pairs that give no key
/// and value are passed over.
pub fn parse_metadata(metadata_str: &str) -> (metadata: Metadata)
    ensures
        metadata.wf(),
        metadata@ == metadata_of(metadata_str@),
{
    parse_pairs(metadata_str, false)
}

/// Reads tags given as `key1=value1,key2=value2`. Pairs that give no key and
/// value are passed over, and so are those with a key of more than 128 bytes
/// or a value of more than 256.
pub fn parse_tags(tags_str: &str) -> (tags: Metadata)
    ensures
        tags.wf(),
        tags@ == tags_of(tags_str@),
{
    parse_pairs(tags_str, true)
}

/// The pairs that give a key and a value but are left out of the tags for
/// their length, in their order.
pub open spec fn overlong_of(pairs: Seq<Seq<char>>) -> Seq<(Seq<char>, Seq<char>)>
    decreases pairs.len(),
{
    if pairs.len() == 0 {
        Seq::empty()
    } else {
        let before = overlong_of(pairs.drop_last());
        if entry_of(pairs.last(), false) is Some && entry_of(pairs.last(), true) is None {
            before.push(entry_of(pairs.last(), false)->0)
        } else {
            before
        }
    }
}

/// The tags that [`parse_tags`] leaves out because their key or value is too
/// long, so that the user can be told of them.
pub fn overlong_tags(tags_str: &str) -> (left_out: Vec<(String, String)>)
    ensures
        pairs_of(left_out@) == overlong_of(split(tags_str@, ',')),
{
    let pairs = split_chars(&chars_of(tags_str), ',');
    let mut left_out: Vec<(String, String)> = Vec::new();
    let mut i: usize = 0;
    assert(texts_of(pairs@).take(0) == Seq::<Seq<char>>::empty());
    assert(pairs_of(left_out@) == Seq::<(Seq<char>, Seq<char>)>::empty());
    while i < pairs.len()
        invariant
            i <= pairs.len(),
            texts_of(pairs@) == split(tags_str@, ','),
            pairs_of(left_out@) == overlong_of(texts_of(pairs@).take(i as int)),
        decreases pairs.len() - i,
    {
        assert(texts_of(pairs@).take(i + 1).drop_last() == texts_of(pairs@).take(i as int));
        assert(texts_of(pairs@).take(i + 1).last() == pairs@[i as int]@);
        let ghost before = pairs_of(left_out@);
        match parse_entry(&pairs[i], false) {
            Some(entry) => {
                if parse_entry(&pairs[i], true).is_none() {
                    left_out.push(entry);
                    assert(pairs_of(left_out@) == before.push((entry.0@, entry.1@)));
                }
            },
            None => {},
        }
        i += 1;
    }
    assert(texts_of(pairs@).take(pairs.len() as int) == texts_of(pairs@));
    left_out
}

} // verus!
