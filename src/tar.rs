//! Reading the entries of a tar stream: POSIX ustar headers, with the
//! paths that pax extended headers and GNU long-name headers give.
use vstd::prelude::*;

use crate::text::{copy_bytes, decimal_u32, is_digit, parse_decimal_u32};

verus! {

pub const BLOCK: usize = 512;

/// Sizes are read up to 2^40 bytes.
pub const SIZE_LIMIT: u64 = 0x100_0000_0000;

/// Index of the first NUL in `b` at or after `i`, or `b.len()`.
pub open spec fn nul_from(b: Seq<u8>, i: int) -> int
    decreases b.len() - i,
{
    if i < 0 || i >= b.len() {
        b.len() as int
    } else if b[i] == 0 {
        i
    } else {
        nul_from(b, i + 1)
    }
}

/// The text of a NUL-terminated field.
pub open spec fn cstr(b: Seq<u8>) -> Seq<u8> {
    b.take(nul_from(b, 0))
}

/// Index of the first byte at or after `i` that is not a space, or `b.len()`.
pub open spec fn skip_spaces(b: Seq<u8>, i: int) -> int
    decreases b.len() - i,
{
    if i < 0 || i >= b.len() {
        b.len() as int
    } else if b[i] == 32 {
        skip_spaces(b, i + 1)
    } else {
        i
    }
}

pub open spec fn is_octal(c: u8) -> bool {
    48 <= c && c <= 55
}

/// Index of the first byte at or after `i` that is not an octal digit, or
/// `b.len()`.
pub open spec fn octal_end(b: Seq<u8>, i: int) -> int
    decreases b.len() - i,
{
    if i < 0 || i >= b.len() {
        b.len() as int
    } else if is_octal(b[i]) {
        octal_end(b, i + 1)
    } else {
        i
    }
}

/// The value of a string of octal digits.
pub open spec fn oct_val(d: Seq<u8>) -> int
    decreases d.len(),
{
    if d.len() == 0 {
        0
    } else {
        oct_val(d.drop_last()) * 8 + (d.last() - 48)
    }
}

/// A numeric header field: optional leading spaces, octal digits, then the
/// end of the field, a NUL or a space; values from 2^40 on are refused.
pub open spec fn octal_field(f: Seq<u8>) -> Option<int> {
    let a = skip_spaces(f, 0);
    let e = octal_end(f, a);
    let v = oct_val(f.subrange(a, e));
    if (e == f.len() || f[e] == 0 || f[e] == 32) && v < SIZE_LIMIT {
        Some(v)
    } else {
        None
    }
}

/// The POSIX magic `ustar\0`; the old GNU format writes `ustar  ` and
/// keeps other fields where ustar keeps the name prefix.
pub open spec fn ustar_magic() -> Seq<u8> {
    seq![117u8, 115, 116, 97, 114, 0]
}

/// The header at `o`: its path (ustar prefix and name), type flag and
/// size.
pub open spec fn header_at(data: Seq<u8>, o: int) -> Option<(Seq<u8>, u8, int)> {
    let name = cstr(data.subrange(o, o + 100));
    let prefix = if data.subrange(o + 257, o + 263) == ustar_magic() {
        cstr(data.subrange(o + 345, o + 500))
    } else {
        seq![]
    };
    let path = if prefix.len() > 0 {
        prefix + seq![47u8] + name
    } else {
        name
    };
    match octal_field(data.subrange(o + 124, o + 136)) {
        Some(s) => Some((path, data[o + 156], s)),
        None => None,
    }
}

/// The data of an entry of `size` bytes fills whole blocks.
pub open spec fn padded(size: int) -> int {
    (size + 511) / 512 * 512
}

pub open spec fn block_is_zero(data: Seq<u8>, o: int) -> bool {
    forall|j: int| o <= j < o + 512 ==> data[j] == 0
}

/// Index of the first byte at or after `i` that is not a decimal digit,
/// or `c.len()`.
pub open spec fn digit_end(c: Seq<u8>, i: int) -> int
    decreases c.len() - i,
{
    if i < 0 || i >= c.len() {
        c.len() as int
    } else if is_digit(c[i]) {
        digit_end(c, i + 1)
    } else {
        i
    }
}

/// The key of a pax record that names the entry's path.
pub open spec fn path_key() -> Seq<u8> {
    seq![112u8, 97, 116, 104, 61]
}

/// The path named by the pax records of `c` from `i` on (the last `path`
/// record wins; `found` is what earlier records named). A record is
/// `<length> <key>=<value>\n`, its decimal length counting the whole
/// record; `None` when a record is malformed.
pub open spec fn pax_path_from(c: Seq<u8>, i: int, found: Option<Seq<u8>>) -> Option<
    Option<Seq<u8>>,
>
    decreases c.len() - i,
{
    if i < 0 || i > c.len() {
        None
    } else if i == c.len() {
        Some(found)
    } else {
        let d = digit_end(c, i);
        if d <= i || d >= c.len() || c[d] != 32 {
            None
        } else {
            match decimal_u32(c.subrange(i, d)) {
                None => None,
                Some(n) => {
                    let e = i + n;
                    if e <= d + 1 || e > c.len() || c[e - 1] != 10 {
                        None
                    } else {
                        let body = c.subrange(d + 1, e - 1);
                        let f = if body.len() >= 5 && body.take(5) == path_key() {
                            Some(body.skip(5))
                        } else {
                            found
                        };
                        pax_path_from(c, e, f)
                    }
                },
            }
        }
    }
}

/// Type flags: GNU long name (`L`) and long link (`K`), pax extended
/// header (`x`) and pax global header (`g`).
pub const GNU_LONG_NAME: u8 = 76;

pub const GNU_LONG_LINK: u8 = 75;

pub const PAX_HEADER: u8 = 120;

pub const PAX_GLOBAL: u8 = 103;

/// The entries from offset `o` on, as `(path, type flag, size, data
/// offset)`: `None` if the stream is cut short or a header or pax record
/// is malformed. The stream ends at its end or at a block of zeros.
/// `pending` is the path that a GNU long-name header or a pax `path`
/// record gave the next entry; those headers, link-name and global pax
/// headers are not entries themselves.
pub open spec fn entries_from(data: Seq<u8>, o: int, pending: Option<Seq<u8>>) -> Option<
    Seq<(Seq<u8>, u8, int, int)>,
>
    decreases data.len() - o,
{
    if o < 0 || o > data.len() {
        None
    } else if o == data.len() {
        Some(seq![])
    } else if o + 512 > data.len() {
        None
    } else if block_is_zero(data, o) {
        Some(seq![])
    } else {
        match header_at(data, o) {
            None => None,
            Some((p, t, s)) => {
                let next = o + 512 + padded(s);
                if s < 0 || next > data.len() {
                    None
                } else {
                    let content = data.subrange(o + 512, o + 512 + s);
                    if t == GNU_LONG_NAME {
                        entries_from(data, next, Some(cstr(content)))
                    } else if t == PAX_HEADER {
                        match pax_path_from(content, 0, None) {
                            None => None,
                            Some(f) => entries_from(
                                data,
                                next,
                                if f is Some {
                                    f
                                } else {
                                    pending
                                },
                            ),
                        }
                    } else if t == PAX_GLOBAL || t == GNU_LONG_LINK {
                        entries_from(data, next, pending)
                    } else {
                        let path = match pending {
                            Some(q) => q,
                            None => p,
                        };
                        match entries_from(data, next, None) {
                            None => None,
                            Some(r) => Some(seq![(path, t, s, o + 512)] + r),
                        }
                    }
                }
            },
        }
    }
}

/// One entry of a tar stream.
pub struct ArchiveEntry {
    pub pathname: Vec<u8>,
    pub kind: u8,
    pub size: u64,
    /// Where the entry's data starts in the stream.
    pub offset: usize,
}

impl View for ArchiveEntry {
    type V = (Seq<u8>, u8, int, int);

    open spec fn view(&self) -> (Seq<u8>, u8, int, int) {
        (self.pathname@, self.kind, self.size as int, self.offset as int)
    }
}

/// The stream is not a well-formed tar stream.
#[derive(Debug, PartialEq, Eq, Clone, Copy, Structural)]
pub enum ArchiveError {
    Malformed,
}

pub open spec fn entries_view(v: Seq<ArchiveEntry>) -> Seq<(Seq<u8>, u8, int, int)> {
    v.map_values(|e: ArchiveEntry| e@)
}

proof fn lemma_nul_from_bounds(b: Seq<u8>, i: int)
    requires
        0 <= i <= b.len(),
    ensures
        i <= nul_from(b, i) <= b.len(),
    decreases b.len() - i,
{
    if i < b.len() && b[i] != 0 {
        lemma_nul_from_bounds(b, i + 1);
    }
}

/// The text of the NUL-terminated field `data[from..to]`.
fn field_text(data: &[u8], from: usize, to: usize) -> (r: Vec<u8>)
    requires
        from <= to <= data@.len(),
    ensures
        r@ == cstr(data@.subrange(from as int, to as int)),
{
    let ghost f = data@.subrange(from as int, to as int);
    let mut r: Vec<u8> = Vec::new();
    let mut i: usize = from;
    while i < to && data[i] != 0
        invariant
            from <= i <= to,
            to <= data@.len(),
            f == data@.subrange(from as int, to as int),
            r@ == f.take(i - from),
            nul_from(f, 0) == nul_from(f, i - from),
        decreases to - i,
    {
        r.push(data[i]);
        assert(r@ =~= f.take(i - from + 1));
        i = i + 1;
    }
    proof {
        lemma_nul_from_bounds(f, 0);
    }
    assert(nul_from(f, i - from) == i - from);
    r
}

proof fn lemma_oct_val_nonneg(d: Seq<u8>)
    requires
        forall|k: int| 0 <= k < d.len() ==> is_octal(#[trigger] d[k]),
    ensures
        oct_val(d) >= 0,
    decreases d.len(),
{
    if d.len() > 0 {
        let e = d.drop_last();
        assert forall|k: int| 0 <= k < e.len() implies is_octal(#[trigger] e[k]) by {
            assert(e[k] == d[k]);
        }
        lemma_oct_val_nonneg(e);
    }
}

proof fn lemma_octal_end_bounds(b: Seq<u8>, i: int)
    requires
        0 <= i <= b.len(),
    ensures
        i <= octal_end(b, i) <= b.len(),
        forall|k: int| i <= k < octal_end(b, i) ==> is_octal(#[trigger] b[k]),
    decreases b.len() - i,
{
    if i < b.len() && is_octal(b[i]) {
        lemma_octal_end_bounds(b, i + 1);
    }
}

proof fn lemma_skip_spaces_bounds(b: Seq<u8>, i: int)
    requires
        0 <= i <= b.len(),
    ensures
        i <= skip_spaces(b, i) <= b.len(),
    decreases b.len() - i,
{
    if i < b.len() && b[i] == 32 {
        lemma_skip_spaces_bounds(b, i + 1);
    }
}

/// Reads the numeric field `data[from..to]`.
fn octal_at(data: &[u8], from: usize, to: usize) -> (r: Option<u64>)
    requires
        from <= to <= data@.len(),
    ensures
        match octal_field(data@.subrange(from as int, to as int)) {
            Some(v) => r == Some(v as u64) && 0 <= v,
            None => r is None,
        },
{
    let ghost f = data@.subrange(from as int, to as int);
    let mut a: usize = from;
    while a < to && data[a] == 32
        invariant
            from <= a <= to,
            to <= data@.len(),
            f == data@.subrange(from as int, to as int),
            skip_spaces(f, 0) == skip_spaces(f, a - from),
        decreases to - a,
    {
        a = a + 1;
    }
    proof {
        lemma_skip_spaces_bounds(f, 0);
    }
    assert(skip_spaces(f, a - from) == a - from);
    let ghost a0 = a - from;
    let mut e: usize = a;
    let mut acc: u64 = 0;
    let mut big = false;
    while e < to && 48 <= data[e] && data[e] <= 55
        invariant
            from <= a <= e <= to,
            to <= data@.len(),
            f == data@.subrange(from as int, to as int),
            a0 == a - from,
            octal_end(f, a0) == octal_end(f, e - from),
            forall|k: int| a0 <= k < e - from ==> is_octal(#[trigger] f[k]),
            big ==> oct_val(f.subrange(a0, e - from)) >= SIZE_LIMIT,
            !big ==> acc == oct_val(f.subrange(a0, e - from)) && acc < SIZE_LIMIT,
        decreases to - e,
    {
        let ghost d = f.subrange(a0, e - from);
        assert(f.subrange(a0, e - from + 1).drop_last() =~= d);
        assert(f.subrange(a0, e - from + 1).last() == data@[e as int]);
        proof {
            assert forall|k: int| 0 <= k < d.len() implies is_octal(#[trigger] d[k]) by {
                assert(d[k] == f[a0 + k]);
            }
            lemma_oct_val_nonneg(d);
        }
        if !big {
            acc = acc * 8 + (data[e] - 48) as u64;
            if acc >= SIZE_LIMIT {
                big = true;
            }
        }
        e = e + 1;
    }
    proof {
        lemma_octal_end_bounds(f, a0);
    }
    assert(octal_end(f, e - from) == e - from);
    let ends = e == to || data[e] == 0 || data[e] == 32;
    if ends && !big {
        Some(acc)
    } else {
        None
    }
}

fn block_zero(data: &[u8], o: usize) -> (r: bool)
    requires
        o + 512 <= data@.len(),
    ensures
        r == block_is_zero(data@, o as int),
{
    let _n = data.len();
    let end = o + 512;
    let mut j: usize = o;
    while j < end
        invariant
            end == o + 512,
            o <= j <= end,
            end <= data@.len(),
            forall|k: int| o <= k < j ==> data@[k] == 0,
        decreases end - j,
    {
        if data[j] != 0 {
            return false;
        }
        j = j + 1;
    }
    true
}

fn has_ustar_magic(data: &[u8], o: usize) -> (r: bool)
    requires
        o + 512 <= data@.len(),
    ensures
        r == (data@.subrange(o + 257, o + 263) == ustar_magic()),
{
    let _n = data.len();
    let r = data[o + 257] == 117 && data[o + 258] == 115 && data[o + 259] == 116 && data[o + 260]
        == 97 && data[o + 261] == 114 && data[o + 262] == 0;
    let ghost m = data@.subrange(o + 257, o + 263);
    if r {
        assert(m =~= ustar_magic());
    } else {
        assert(m != ustar_magic()) by {
            if m == ustar_magic() {
                assert(m[0] == 117 && m[1] == 115 && m[2] == 116);
                assert(m[3] == 97 && m[4] == 114 && m[5] == 0);
            }
        }
    }
    r
}

pub open spec fn opt_bytes(p: Option<Vec<u8>>) -> Option<Seq<u8>> {
    match p {
        Some(v) => Some(v@),
        None => None,
    }
}

proof fn lemma_digit_end_bounds(c: Seq<u8>, i: int)
    requires
        0 <= i <= c.len(),
    ensures
        i <= digit_end(c, i) <= c.len(),
    decreases c.len() - i,
{
    if i < c.len() && is_digit(c[i]) {
        lemma_digit_end_bounds(c, i + 1);
    }
}

/// The path the pax records `c` name, if any; `None` when a record is
/// malformed.
pub fn pax_path(c: &[u8]) -> (r: Option<Option<Vec<u8>>>)
    ensures
        match pax_path_from(c@, 0, None) {
            None => r is None,
            Some(f) => r matches Some(g) && opt_bytes(g) == f,
        },
{
    let n = c.len();
    let mut found: Option<Vec<u8>> = None;
    let mut i: usize = 0;
    loop
        invariant
            n == c@.len(),
            i <= n,
            pax_path_from(c@, 0, None) == pax_path_from(c@, i as int, opt_bytes(found)),
        decreases n - i,
    {
        if i == n {
            return Some(found);
        }
        let mut d: usize = i;
        while d < n && 48 <= c[d] && c[d] <= 57
            invariant
                i <= d <= n,
                n == c@.len(),
                digit_end(c@, i as int) == digit_end(c@, d as int),
            decreases n - d,
        {
            d = d + 1;
        }
        proof {
            lemma_digit_end_bounds(c@, i as int);
        }
        assert(digit_end(c@, d as int) == d);
        if d <= i || d >= n || c[d] != 32 {
            return None;
        }
        let len = match parse_decimal_u32(&c[i..d]) {
            Some(len) => len,
            None => return None,
        };
        assert(c@.subrange(i as int, d as int) == c@.subrange(i as int, d as int));
        if len as usize > n - i {
            return None;
        }
        let e = i + len as usize;
        if e <= d + 1 || c[e - 1] != 10 {
            return None;
        }
        let body = &c[d + 1..e - 1];
        if body.len() >= 5 && body[0] == 112 && body[1] == 97 && body[2] == 116 && body[3] == 104
            && body[4] == 61 {
            assert(body@.take(5) =~= path_key());
            let v = copy_bytes(&body[5..body.len()]);
            assert(v@ =~= body@.skip(5));
            found = Some(v);
        } else {
            assert(!(body@.len() >= 5 && body@.take(5) == path_key())) by {
                if body@.len() >= 5 && body@.take(5) == path_key() {
                    assert(body@.take(5)[0] == 112 && body@.take(5)[1] == 97);
                    assert(body@.take(5)[2] == 116 && body@.take(5)[3] == 104);
                    assert(body@.take(5)[4] == 61);
                }
            }
        }
        i = e;
    }
}

/// Reads the header block at `o`.
fn read_header(data: &[u8], o: usize) -> (r: Option<ArchiveEntry>)
    requires
        o + 512 <= data@.len(),
    ensures
        match header_at(data@, o as int) {
            Some((p, t, s)) => r matches Some(e) && e.pathname@ == p && e.kind == t && e.size == s
                && e.offset == o + 512,
            None => r is None,
        },
{
    let _n = data.len();
    let size = match octal_at(data, o + 124, o + 136) {
        Some(s) => s,
        None => return None,
    };
    let name = field_text(data, o, o + 100);
    let mut path: Vec<u8>;
    if has_ustar_magic(data, o) {
        path = field_text(data, o + 345, o + 500);
    } else {
        path = Vec::new();
    }
    if path.len() > 0 {
        path.push(47);
        crate::text::extend_bytes(&mut path, name.as_slice());
    } else {
        path = name;
    }
    Some(ArchiveEntry { pathname: path, kind: data[o + 156], size, offset: o + 512 })
}

/// The entries of a tar stream, in stream order.
pub fn tar_entries(data: &[u8]) -> (r: Result<Vec<ArchiveEntry>, ArchiveError>)
    ensures
        match entries_from(data@, 0, None) {
            Some(es) => r matches Ok(v) && entries_view(v@) == es,
            None => r == Err::<Vec<ArchiveEntry>, ArchiveError>(ArchiveError::Malformed),
        },
{
    let mut out: Vec<ArchiveEntry> = Vec::new();
    let mut pending: Option<Vec<u8>> = None;
    let mut o: usize = 0;
    let n = data.len();
    loop
        invariant
            n == data@.len(),
            o <= n,
            entries_from(data@, 0, None) == match entries_from(data@, o as int, opt_bytes(pending)) {
                Some(rest) => Some(entries_view(out@) + rest),
                None => None::<Seq<(Seq<u8>, u8, int, int)>>,
            },
        decreases n - o,
    {
        if o == n {
            assert(entries_view(out@) + seq![] =~= entries_view(out@));
            return Ok(out);
        }
        if n - o < BLOCK {
            return Err(ArchiveError::Malformed);
        }
        if block_zero(data, o) {
            assert(entries_view(out@) + seq![] =~= entries_view(out@));
            return Ok(out);
        }
        let mut e = match read_header(data, o) {
            Some(e) => e,
            None => return Err(ArchiveError::Malformed),
        };
        let blocks = (e.size + 511) / 512;
        let room = ((n - o - BLOCK) as u64);
        if blocks > room / 512 {
            assert(padded(e.size as int) > n - o - 512) by (nonlinear_arith)
                requires
                    blocks == (e.size as int + 511) / 512,
                    blocks > room as int / 512,
                    room == n - o - 512,
                    padded(e.size as int) == (e.size as int + 511) / 512 * 512;
            return Err(ArchiveError::Malformed);
        }
        let next = o + BLOCK + (blocks * 512) as usize;
        assert(next == o + 512 + padded(e.size as int) && e.size as int <= padded(e.size as int))
            by (nonlinear_arith)
            requires
                blocks == (e.size as int + 511) / 512,
                blocks <= room as int / 512,
                room == n - o - 512,
                next == o + 512 + blocks * 512,
                e.size >= 0,
                padded(e.size as int) == (e.size as int + 511) / 512 * 512;
        let end = o + BLOCK + e.size as usize;
        if e.kind == GNU_LONG_NAME {
            pending = Some(field_text(data, o + BLOCK, end));
        } else if e.kind == PAX_HEADER {
            match pax_path(&data[o + BLOCK..end]) {
                None => return Err(ArchiveError::Malformed),
                Some(Some(p)) => {
                    pending = Some(p);
                },
                Some(None) => {},
            }
        } else if e.kind == PAX_GLOBAL || e.kind == GNU_LONG_LINK {
        } else {
            match pending {
                Some(q) => {
                    e.pathname = q;
                },
                None => {},
            }
            pending = None;
            let ghost ev = e@;
            out.push(e);
            assert(entries_view(out@) =~= entries_view(out@.drop_last()).push(ev));
            proof {
                match entries_from(data@, next as int, None) {
                    Some(rest) => {
                        assert(entries_view(out@) + rest =~= entries_view(out@.drop_last()) + (seq![ev] + rest));
                    },
                    None => {},
                }
            }
        }
        o = next;
    }
}

} // verus!
