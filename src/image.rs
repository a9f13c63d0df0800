//! Image references and layer materialization: repository names, cache
//! keys, download progress, and the whiteout markers of OCI layers.
use vstd::prelude::*;
use vstd::string::StrSliceExecFns;
use vstd::string::StringExecFns;

use crate::image_config::strs;
use crate::paths::{prefixed, prefixed_destination};
use crate::tar::{entries_from, entries_view, tar_entries, ArchiveEntry, ArchiveError};
use vstd::utf8::{decode_utf8, valid_utf8};

verus! {

/// A repository name as the registry knows it: names without a `/` live
/// under `library/`.
pub open spec fn normalized_name(image: Seq<char>) -> Seq<char> {
    if image.contains('/') {
        image
    } else {
        "library/"@ + image
    }
}

/// The key under which a resolved image is remembered: `<name>:<tag>`.
pub open spec fn cache_key_of(name: Seq<char>, tag: Seq<char>) -> Seq<char> {
    name + seq![':'] + tag
}

fn has_slash(s: &str) -> (r: bool)
    ensures
        r == s@.contains('/'),
{
    let n = s.unicode_len();
    let mut i: usize = 0;
    while i < n
        invariant
            n == s@.len(),
            i <= n,
            forall|j: int| 0 <= j < i ==> s@[j] != '/',
        decreases n - i,
    {
        if s.get_char(i) == '/' {
            return true;
        }
        i = i + 1;
    }
    false
}

/// Prefixes `library/` to a name without a `/`.
pub fn normalize_image_name(image: &str) -> (r: String)
    ensures
        r@ == normalized_name(image@),
{
    if has_slash(image) {
        String::from_str(image)
    } else {
        String::from_str("library/").concat(image)
    }
}

/// `<name>:<tag>`.
pub fn cache_key(image_name: &str, tag: &str) -> (r: String)
    ensures
        r@ == cache_key_of(image_name@, tag@),
{
    proof {
        reveal_strlit(":");
    }
    String::from_str(image_name).concat(":").concat(tag)
}

/// Progress of one layer download.
pub enum LayerDownloadStatus {
    /// The layer was in the store already.
    Cached(String),
    /// `(digest, bytes received, size)`.
    InProgress(String, usize, usize),
}

impl LayerDownloadStatus {
    pub open spec fn is_complete_spec(&self) -> bool {
        self matches LayerDownloadStatus::InProgress(_, got, size) && got == size
    }

    /// The download of this layer is complete.
    pub fn is_complete(&self) -> (r: bool)
        ensures
            r == self.is_complete_spec(),
    {
        match self {
            LayerDownloadStatus::Cached(_) => false,
            LayerDownloadStatus::InProgress(_, got, size) => *got == *size,
        }
    }
}

/// Index of the last `/` in `p`, or `-1`.
pub open spec fn last_slash(p: Seq<char>) -> int
    decreases p.len(),
{
    if p.len() == 0 {
        -1
    } else if p.last() == '/' {
        p.len() - 1
    } else {
        last_slash(p.drop_last())
    }
}

proof fn lemma_last_slash_bounds(p: Seq<char>)
    ensures
        -1 <= last_slash(p) < p.len(),
    decreases p.len(),
{
    if p.len() > 0 {
        lemma_last_slash_bounds(p.drop_last());
    }
}

/// The directory part of an archive path: what precedes its last `/`.
pub open spec fn dir_part(p: Seq<char>) -> Seq<char> {
    if last_slash(p) >= 0 {
        p.take(last_slash(p))
    } else {
        seq![]
    }
}

/// The file name of an archive path: what follows its last `/`.
pub open spec fn base_part(p: Seq<char>) -> Seq<char> {
    p.skip(last_slash(p) + 1)
}

pub open spec fn wh_prefix() -> Seq<char> {
    ".wh."@
}

pub open spec fn opaque_marker() -> Seq<char> {
    ".wh..wh..opq"@
}

/// The file name marks a whiteout: it starts with `.wh.`.
pub open spec fn is_whiteout_name(name: Seq<char>) -> bool {
    name.len() >= 4 && name.take(4) == wh_prefix()
}

/// What a whiteout entry asks to remove from the destination.
pub enum Whiteout {
    /// An opaque marker: the directory it stands in.
    RemoveDir(String),
    /// `.wh.<name>`: the sibling `<name>`.
    RemoveFile(String),
}

/// What removing the whiteout entry `p` of a layer means under `dest`.
pub open spec fn whiteout_of(dest: Seq<char>, p: Seq<char>) -> Option<(bool, Seq<char>)> {
    let base = base_part(p);
    if base == opaque_marker() {
        Some((true, prefixed(dest, dir_part(p))))
    } else if is_whiteout_name(base) {
        Some((false, prefixed(dest, dir_part(p) + seq!['/'] + base.skip(4))))
    } else {
        None
    }
}

pub open spec fn whiteout_view(w: Whiteout) -> (bool, Seq<char>) {
    match w {
        Whiteout::RemoveDir(d) => (true, d@),
        Whiteout::RemoveFile(f) => (false, f@),
    }
}

fn find_last_slash(p: &str) -> (r: Option<usize>)
    ensures
        match r {
            Some(k) => last_slash(p@) == k,
            None => last_slash(p@) == -1,
        },
{
    let n = p.unicode_len();
    let mut last: Option<usize> = None;
    let mut i: usize = 0;
    while i < n
        invariant
            n == p@.len(),
            i <= n,
            match last {
                Some(k) => last_slash(p@.take(i as int)) == k,
                None => last_slash(p@.take(i as int)) == -1,
            },
        decreases n - i,
    {
        assert(p@.take(i as int + 1).drop_last() =~= p@.take(i as int));
        if p.get_char(i) == '/' {
            last = Some(i);
        }
        i = i + 1;
    }
    assert(p@.take(n as int) =~= p@);
    last
}

fn starts_with_wh(name: &str) -> (r: bool)
    ensures
        r == is_whiteout_name(name@),
{
    proof {
        reveal_strlit(".wh.");
    }
    if name.unicode_len() < 4 {
        return false;
    }
    let r = name.get_char(0) == '.' && name.get_char(1) == 'w' && name.get_char(2) == 'h'
        && name.get_char(3) == '.';
    if r {
        assert(name@.take(4) =~= wh_prefix());
    } else {
        assert(name@.take(4) != wh_prefix()) by {
            if name@.take(4) == wh_prefix() {
                assert(name@.take(4)[0] == '.' && name@.take(4)[1] == 'w');
                assert(name@.take(4)[2] == 'h' && name@.take(4)[3] == '.');
            }
        }
    }
    r
}

fn is_opaque_marker(name: &str) -> (r: bool)
    ensures
        r == (name@ == opaque_marker()),
{
    let m = ".wh..wh..opq";
    proof {
        reveal_strlit(".wh..wh..opq");
    }
    if name.unicode_len() != 12 {
        return false;
    }
    assert(m@.len() == 12);
    let mut i: usize = 0;
    while i < 12
        invariant
            i <= 12,
            name@.len() == 12,
            m@ == opaque_marker(),
            m@.len() == 12,
            forall|j: int| 0 <= j < i ==> name@[j] == m@[j],
        decreases 12 - i,
    {
        if name.get_char(i) != m.get_char(i) {
            return false;
        }
        i = i + 1;
    }
    assert(name@ =~= m@);
    true
}

/// The file name of an archive entry marks a whiteout; such entries are
/// not extracted.
pub fn is_whiteout(entry: &str) -> (r: bool)
    ensures
        r == is_whiteout_name(base_part(entry@)),
{
    let n = entry.unicode_len();
    proof {
        lemma_last_slash_bounds(entry@);
    }
    let start: usize = match find_last_slash(entry) {
        Some(k) => k + 1,
        None => 0,
    };
    let base = entry.substring_char(start, n);
    assert(base@ =~= base_part(entry@));
    starts_with_wh(base)
}

/// What the archive entry `entry` asks to remove under `destination`, if it
/// is a whiteout.
pub fn whiteout_target(destination: &str, entry: &str) -> (r: Option<Whiteout>)
    ensures
        match whiteout_of(destination@, entry@) {
            Some(w) => r matches Some(x) && whiteout_view(x) == w,
            None => r is None,
        },
{
    let n = entry.unicode_len();
    proof {
        lemma_last_slash_bounds(entry@);
    }
    let (dir, start): (&str, usize) = match find_last_slash(entry) {
        Some(k) => (entry.substring_char(0, k), k + 1),
        None => (entry.substring_char(0, 0), 0),
    };
    assert(dir@ =~= dir_part(entry@));
    let base = entry.substring_char(start, n);
    assert(base@ =~= base_part(entry@));
    if is_opaque_marker(base) {
        return Some(Whiteout::RemoveDir(prefixed_destination(destination, dir)));
    }
    if starts_with_wh(base) {
        let name = base.substring_char(4, base.unicode_len());
        proof {
            reveal_strlit("/");
        }
        let target = String::from_str(dir).concat("/").concat(name);
        assert(target@ =~= dir_part(entry@) + seq!['/'] + base_part(entry@).skip(4));
        return Some(Whiteout::RemoveFile(prefixed_destination(destination, target.as_str())));
    }
    None
}

/// Layers of an image are laid out under one destination directory.
pub struct Unpacker {
    destination: String,
}

impl Unpacker {
    pub closed spec fn spec_destination(&self) -> Seq<char> {
        self.destination@
    }

    pub fn new(destination: &str) -> (r: Unpacker)
        ensures
            r.spec_destination() == destination@,
    {
        Unpacker { destination: String::from_str(destination) }
    }

    pub fn destination(&self) -> (r: &String)
        ensures
            r@ == self.spec_destination(),
    {
        &self.destination
    }

    /// The removals the whiteouts among a layer's entries ask for, in entry
    /// order; they are applied before the layer is extracted.
    pub fn handle_whiteouts(&self, entries: &Vec<String>) -> (r: Vec<Whiteout>)
        ensures
            r@.map_values(|w: Whiteout| whiteout_view(w)) == whiteouts_of(
                self.spec_destination(),
                strs(entries@),
            ),
    {
        let mut out: Vec<Whiteout> = Vec::new();
        let mut i: usize = 0;
        while i < entries.len()
            invariant
                i <= entries@.len(),
                out@.map_values(|w: Whiteout| whiteout_view(w)) == whiteouts_of(
                    self.spec_destination(),
                    strs(entries@).take(i as int),
                ),
            decreases entries@.len() - i,
        {
            let ghost es = strs(entries@);
            assert(es.take(i as int + 1).drop_last() =~= es.take(i as int));
            assert(es.take(i as int + 1).last() == entries@[i as int]@);
            let ghost o = out@;
            match whiteout_target(self.destination.as_str(), entries[i].as_str()) {
                Some(w) => {
                    out.push(w);
                    assert(out@.map_values(|w: Whiteout| whiteout_view(w)) =~= o.map_values(
                        |w: Whiteout| whiteout_view(w),
                    ).push(whiteout_view(out@.last())));
                },
                None => {},
            }
            i = i + 1;
        }
        assert(strs(entries@).take(i as int) =~= strs(entries@));
        out
    }
}

/// The removals asked for by the whiteouts among `entries`, in order.
pub open spec fn whiteouts_of(dest: Seq<char>, entries: Seq<Seq<char>>) -> Seq<(bool, Seq<char>)>
    decreases entries.len(),
{
    if entries.len() == 0 {
        seq![]
    } else {
        let r = whiteouts_of(dest, entries.drop_last());
        match whiteout_of(dest, entries.last()) {
            Some(w) => r.push(w),
            None => r,
        }
    }
}

/// The bytes a gzip stream decompresses to; `None` for a malformed stream.
pub uninterp spec fn gunzip_of(data: Seq<u8>) -> Option<Seq<u8>>;

/// Relies on `flate2::read::GzDecoder` read to its end: the decompressed
/// bytes of the gzip stream, or an error for a malformed one. The result
/// depends on the input alone.
#[verifier::external_body]
fn gunzip(data: &[u8]) -> (r: Option<Vec<u8>>)
    ensures
        match r {
            Some(v) => gunzip_of(data@) == Some(v@),
            None => gunzip_of(data@) is None,
        },
{
    let mut out: Vec<u8> = Vec::new();
    match std::io::Read::read_to_end(&mut flate2::read::GzDecoder::new(data), &mut out) {
        Ok(_) => Some(out),
        Err(_) => None,
    }
}

/// Relies on `String::from_utf8`: the text of bytes that are valid UTF-8,
/// an error for any other bytes.
#[verifier::external_body]
fn utf8_text(b: Vec<u8>) -> (r: Option<String>)
    ensures
        match r {
            Some(s) => valid_utf8(b@) && s@ == decode_utf8(b@),
            None => !valid_utf8(b@),
        },
{
    String::from_utf8(b).ok()
}

impl ArchiveEntry {
    /// The entry's path as text, if it is valid UTF-8.
    pub fn path_text(&self) -> (r: Option<String>)
        ensures
            match r {
                Some(s) => valid_utf8(self.pathname@) && s@ == decode_utf8(self.pathname@),
                None => !valid_utf8(self.pathname@),
            },
    {
        utf8_text(crate::text::copy_bytes(self.pathname.as_slice()))
    }
}

/// A layer archive held in memory.
pub struct Archive {
    data: Vec<u8>,
}

impl Archive {
    pub closed spec fn bytes(&self) -> Seq<u8> {
        self.data@
    }

    pub fn new(data: Vec<u8>) -> (r: Archive)
        ensures
            r.bytes() == data@,
    {
        Archive { data }
    }

    /// The archive's bytes.
    pub fn data(&self) -> (r: &Vec<u8>)
        ensures
            r@ == self.bytes(),
    {
        &self.data
    }

    /// The entries of the gzip-compressed tar stream, in stream order.
    pub fn entries(&self) -> (r: Result<Vec<ArchiveEntry>, ArchiveError>)
        ensures
            match gunzip_of(self.bytes()) {
                None => r == Err::<Vec<ArchiveEntry>, ArchiveError>(ArchiveError::Malformed),
                Some(t) => match entries_from(t, 0, None) {
                    Some(es) => r matches Ok(v) && entries_view(v@) == es,
                    None => r == Err::<Vec<ArchiveEntry>, ArchiveError>(ArchiveError::Malformed),
                },
            },
    {
        match gunzip(self.data.as_slice()) {
            Some(t) => tar_entries(t.as_slice()),
            None => Err(ArchiveError::Malformed),
        }
    }
}

} // verus!
