use vstd::prelude::*;
use vstd::utf8::{decode_utf8, valid_utf8};

use base64::Engine;

verus! {

/// `ESC ] 5 2 ;`, the OSC 52 introducer.
pub open spec fn osc52_prefix() -> Seq<u8> {
    seq![0x1bu8, 0x5du8, 0x35u8, 0x32u8, 0x3bu8]
}

/// Most bytes carried over while waiting for a sequence to terminate.
pub const OSC52_MAX_PENDING: usize = 65536;

/// Whether `pat` occurs in `s` at index `i`.
pub open spec fn bytes_match_at(s: Seq<u8>, pat: Seq<u8>, i: int) -> bool {
    0 <= i && i + pat.len() <= s.len() && s.subrange(i, i + pat.len()) == pat
}

/// Index of the first occurrence of a non-empty `pat` in `s` at or after
/// `from`, or -1.
pub open spec fn find_bytes(s: Seq<u8>, pat: Seq<u8>, from: int) -> int
    decreases s.len() - from,
{
    if from < 0 || from >= s.len() || from + pat.len() > s.len() {
        -1
    } else if bytes_match_at(s, pat, from) {
        from
    } else {
        find_bytes(s, pat, from + 1)
    }
}

pub proof fn lemma_find_bytes_range(s: Seq<u8>, pat: Seq<u8>, from: int)
    ensures
        find_bytes(s, pat, from) == -1 || (from <= find_bytes(s, pat, from) && find_bytes(s, pat, from)
            + pat.len() <= s.len() && bytes_match_at(s, pat, find_bytes(s, pat, from))),
    decreases s.len() - from,
{
    if !(from < 0 || from >= s.len() || from + pat.len() > s.len()) && !bytes_match_at(s, pat, from) {
        lemma_find_bytes_range(s, pat, from + 1);
    }
}

/// First index of `needle` in `haystack`; `None` for an empty needle or no match.
pub open spec fn find_subslice_spec(haystack: Seq<u8>, needle: Seq<u8>) -> Option<int> {
    if needle.len() == 0 || find_bytes(haystack, needle, 0) < 0 {
        None
    } else {
        Some(find_bytes(haystack, needle, 0))
    }
}

fn bytes_match_at_exec(s: &[u8], pat: &[u8], i: usize) -> (r: bool)
    ensures
        r == bytes_match_at(s@, pat@, i as int),
{
    if pat.len() > s.len() || i > s.len() - pat.len() {
        return false;
    }
    let mut k: usize = 0;
    while k < pat.len()
        invariant
            k <= pat@.len(),
            i + pat@.len() <= s@.len(),
            s@.len() <= usize::MAX,
            forall|j: int| 0 <= j < k ==> s@[i + j] == pat@[j],
        decreases pat@.len() - k,
    {
        if s[i + k] != pat[k] {
            assert(s@.subrange(i as int, i + pat@.len())[k as int] != pat@[k as int]);
            return false;
        }
        k = k + 1;
    }
    assert(s@.subrange(i as int, i + pat@.len()) =~= pat@);
    true
}

fn find_bytes_from(s: &[u8], pat: &[u8], from: usize) -> (r: Option<usize>)
    requires
        pat@.len() > 0,
    ensures
        match r {
            Some(i) => i == find_bytes(s@, pat@, from as int),
            None => find_bytes(s@, pat@, from as int) == -1,
        },
{
    let mut j: usize = from;
    while j < s.len()
        invariant
            from <= j,
            find_bytes(s@, pat@, from as int) == find_bytes(s@, pat@, j as int),
        decreases s@.len() - j,
    {
        if pat.len() > s.len() - j {
            return None;
        }
        if bytes_match_at_exec(s, pat, j) {
            return Some(j);
        }
        j = j + 1;
    }
    None
}

/// The first index of `needle` in `haystack`, `None` for an empty needle.
pub fn find_subslice(haystack: &[u8], needle: &[u8]) -> (r: Option<usize>)
    ensures
        match find_subslice_spec(haystack@, needle@) {
            Some(i) => r == Some(i as usize),
            None => r is None,
        },
{
    if needle.len() == 0 || haystack.len() < needle.len() {
        return None;
    }
    find_bytes_from(haystack, needle, 0)
}

/// The standard-alphabet, padded base64 decoding of `input`, `None` when it
/// is not valid base64.
pub uninterp spec fn base64_standard_decode(input: Seq<u8>) -> Option<Seq<u8>>;

/// `base64::engine::general_purpose::STANDARD.decode`: the decoded bytes,
/// or `None` on a decode error.
#[verifier::external_body]
fn decode_base64(input: &[u8]) -> (r: Option<Vec<u8>>)
    ensures
        match base64_standard_decode(input@) {
            Some(d) => r is Some && r->0@ == d,
            None => r is None,
        },
{
    base64::engine::general_purpose::STANDARD.decode(input).ok()
}

/// The text `String::from_utf8_lossy` makes of `bytes`: invalid sequences
/// become U+FFFD.
pub uninterp spec fn utf8_lossy(bytes: Seq<u8>) -> Seq<char>;

/// `String::from_utf8_lossy(..).into_owned()`: valid UTF-8 decodes as is,
/// as std documents.
#[verifier::external_body]
fn string_from_utf8_lossy(bytes: &[u8]) -> (r: String)
    ensures
        r@ == utf8_lossy(bytes@),
        valid_utf8(bytes@) ==> r@ == decode_utf8(bytes@),
{
    String::from_utf8_lossy(bytes).into_owned()
}

/// Index of the first `b` in `s` at or after `from`, or -1.
pub open spec fn find_byte(s: Seq<u8>, b: u8) -> int {
    find_bytes(s, seq![b], 0)
}

/// Where an OSC 52 body's terminator lies: `(payload end, sequence end)`
/// for the earlier of BEL and `ESC \` (BEL on a tie), if either occurs.
pub open spec fn terminator(body: Seq<u8>) -> Option<(int, int)> {
    let bel = find_byte(body, 0x07u8);
    let st = find_bytes(body, seq![0x1bu8, 0x5cu8], 0);
    if bel >= 0 && (st < 0 || bel <= st) {
        Some((bel, bel + 1))
    } else if st >= 0 {
        Some((st, st + 2))
    } else {
        None
    }
}

/// A clipboard query (`?` or `...;?`), which is not a copy.
pub open spec fn is_clipboard_query(payload: Seq<u8>) -> bool {
    payload == seq![0x3fu8] || (payload.len() >= 2 && payload.skip(payload.len() - 2) == seq![
        0x3bu8,
        0x3fu8,
    ])
}

/// The base64 part of a `Pc;Pd` payload: after the first `;`, or all of it.
pub open spec fn base64_part(payload: Seq<u8>) -> Seq<u8> {
    let i = find_byte(payload, 0x3bu8);
    if i >= 0 {
        payload.skip(i + 1)
    } else {
        payload
    }
}

/// How many of the last `n` (or fewer) bytes of `b` to keep: the longest
/// suffix of at most `n` bytes that is a prefix of the introducer.
pub open spec fn tail_keep_len(b: Seq<u8>, n: int) -> int
    decreases n,
{
    if n <= 0 {
        0
    } else if n <= b.len() && b.skip(b.len() - n).is_prefix_of(osc52_prefix()) {
        n
    } else {
        tail_keep_len(b, n - 1)
    }
}

/// The kept length is at most `n` and at most the buffer's length.
pub proof fn lemma_tail_keep_len_range(b: Seq<u8>, n: int)
    ensures
        0 <= tail_keep_len(b, n),
        tail_keep_len(b, n) <= b.len(),
        n >= 0 ==> tail_keep_len(b, n) <= n,
    decreases n,
{
    if n > 0 {
        lemma_tail_keep_len_range(b, n - 1);
    }
}

/// What is kept of a buffer with no introducer: its longest tail, of at
/// most four bytes, that could still grow into one (nothing when none can).
pub open spec fn keep_tail(b: Seq<u8>) -> Seq<u8> {
    b.skip(b.len() - tail_keep_len(b, 4))
}

/// Scans buffered PTY bytes for complete OSC 52 sequences: each one's
/// payload (queries skipped) is base64-decoded, and the text of the last
/// one that decodes wins over `found`. Returns that text and the bytes kept
/// for the next chunk: an unterminated sequence (dropped once longer than
/// `OSC52_MAX_PENDING`), or a tail that may begin one.
pub open spec fn osc52_scan(b: Seq<u8>, found: Option<Seq<char>>) -> (Option<Seq<char>>, Seq<u8>)
    decreases b.len(),
{
    let start = find_bytes(b, osc52_prefix(), 0);
    if start < 0 || start + 5 > b.len() {
        (found, keep_tail(b))
    } else {
        let seq_buf = b.skip(start);
        let body = seq_buf.skip(5);
        match terminator(body) {
            None => (found, if seq_buf.len() > OSC52_MAX_PENDING {
                Seq::empty()
            } else {
                seq_buf
            }),
            Some((payload_end, seq_end)) => {
                if seq_end < 1 || 5 + seq_end > seq_buf.len() || payload_end > seq_end {
                    (found, seq_buf)
                } else {
                    let payload = seq_buf.subrange(5, 5 + payload_end);
                    let rest = seq_buf.skip(5 + seq_end);
                    let next = if is_clipboard_query(payload) {
                        found
                    } else {
                        match base64_standard_decode(base64_part(payload)) {
                            Some(d) => Some(utf8_lossy(d)),
                            None => found,
                        }
                    };
                    osc52_scan(rest, next)
                }
            },
        }
    }
}

/// Where a terminator is found, the payload ends before the sequence
/// does, and the sequence ends within the body, one or two bytes later.
pub proof fn lemma_terminator_range(body: Seq<u8>)
    ensures
        match terminator(body) {
            Some((pe, se)) => 0 <= pe < se <= body.len() && se == pe + 1 || se == pe + 2,
            None => true,
        },
        match terminator(body) {
            Some((pe, se)) => 0 <= pe && pe < se && se <= body.len(),
            None => true,
        },
{
    lemma_find_bytes_range(body, seq![0x07u8], 0);
    lemma_find_bytes_range(body, seq![0x1bu8, 0x5cu8], 0);
}

fn sub_vec(v: &[u8], from: usize, to: usize) -> (r: Vec<u8>)
    requires
        from <= to <= v@.len(),
    ensures
        r@ == v@.subrange(from as int, to as int),
{
    vstd::slice::slice_to_vec(vstd::slice::slice_subrange(v, from, to))
}

/// The chars of an optional string.
pub open spec fn opt_string_view(o: Option<String>) -> Option<Seq<char>> {
    match o {
        Some(t) => Some(t@),
        None => None,
    }
}

/// Scans raw PTY bytes (appended to what `partial` carried over) for OSC 52
/// "set clipboard" sequences and returns the decoded text of the last one;
/// `partial` keeps what may still complete a sequence on the next chunk.
pub fn scan_osc52(partial: &mut Vec<u8>, data: &[u8]) -> (r: Option<String>)
    ensures
        ({
            let (found, rest) = osc52_scan(old(partial)@ + data@, None);
            &&& final(partial)@ == rest
            &&& match found {
                Some(t) => r is Some && r->0@ == t,
                None => r is None,
            }
        }),
{
    let prefix: Vec<u8> = vec![0x1b, 0x5d, 0x35, 0x32, 0x3b];
    let bel: Vec<u8> = vec![0x07];
    let st: Vec<u8> = vec![0x1b, 0x5c];
    let semi: Vec<u8> = vec![0x3b];
    let mut buf: Vec<u8> = partial.clone();
    let mut k: usize = 0;
    let ghost init = old(partial)@;
    assert(buf@ == init);
    while k < data.len()
        invariant
            k <= data@.len(),
            buf@ == init + data@.take(k as int),
        decreases data@.len() - k,
    {
        buf.push(data[k]);
        assert(data@.take(k + 1) == data@.take(k as int).push(data@[k as int]));
        k = k + 1;
    }
    assert(data@.take(data@.len() as int) == data@);
    let ghost whole = buf@;
    let mut found: Option<String> = None;
    loop
        invariant
            prefix@ == osc52_prefix(),
            bel@ == seq![0x07u8],
            st@ == seq![0x1bu8, 0x5cu8],
            semi@ == seq![0x3bu8],
            whole == old(partial)@ + data@,
            osc52_scan(buf@, opt_string_view(found)) == osc52_scan(whole, None),
        decreases buf@.len(),
    {
        proof {
            lemma_find_bytes_range(buf@, prefix@, 0);
        }
        let start = match find_bytes_from(buf.as_slice(), prefix.as_slice(), 0) {
            Some(s) => s,
            None => {
                proof {
                    lemma_tail_keep_len_range(buf@, 4);
                }
                let mut n: usize = 4;
                while n > 0
                    invariant
                        n <= 4,
                        prefix@ == osc52_prefix(),
                        tail_keep_len(buf@, 4) == tail_keep_len(buf@, n as int),
                    ensures
                        tail_keep_len(buf@, 4) == n,
                        n <= buf@.len(),
                    decreases n,
                {
                    if n <= buf.len() {
                        let tail = sub_vec(buf.as_slice(), buf.len() - n, buf.len());
                        let is_prefix = bytes_match_at_exec(prefix.as_slice(), tail.as_slice(), 0);
                        assert(is_prefix == tail@.is_prefix_of(prefix@)) by {
                            assert(prefix@.subrange(0, tail@.len() as int) == prefix@.take(tail@.len() as int));
                        }
                        assert(tail@ == buf@.skip(buf@.len() - n));
                        if is_prefix {
                            break;
                        }
                    }
                    n = n - 1;
                }
                proof {
                    lemma_tail_keep_len_range(buf@, n as int);
                }
                assert(osc52_scan(buf@, opt_string_view(found)) == (opt_string_view(found), keep_tail(buf@)));
                *partial = sub_vec(buf.as_slice(), buf.len() - n, buf.len());
                return found;
            },
        };
        let seq_buf = sub_vec(buf.as_slice(), start, buf.len());
        let body = sub_vec(seq_buf.as_slice(), 5, seq_buf.len());
        assert(seq_buf@.skip(5) == body@);
        proof {
            lemma_find_bytes_range(body@, bel@, 0);
            lemma_find_bytes_range(body@, st@, 0);
            lemma_terminator_range(body@);
        }
        let bel_at = find_bytes_from(body.as_slice(), bel.as_slice(), 0);
        let st_at = find_bytes_from(body.as_slice(), st.as_slice(), 0);
        let term: Option<(usize, usize)> = match (bel_at, st_at) {
            (Some(a), Some(b)) => if a <= b {
                Some((a, a + 1))
            } else {
                Some((b, b + 2))
            },
            (Some(a), None) => Some((a, a + 1)),
            (None, Some(b)) => Some((b, b + 2)),
            (None, None) => None,
        };
        let (payload_end, seq_end) = match term {
            Some(t) => t,
            None => {
                assert(terminator(body@) is None);
                assert(osc52_scan(buf@, opt_string_view(found)) == (opt_string_view(found), if seq_buf@.len()
                    > OSC52_MAX_PENDING {
                    Seq::<u8>::empty()
                } else {
                    seq_buf@
                }));
                if seq_buf.len() > OSC52_MAX_PENDING {
                    *partial = Vec::new();
                } else {
                    *partial = seq_buf;
                }
                return found;
            },
        };
        let payload = sub_vec(seq_buf.as_slice(), 5, 5 + payload_end);
        let rest = sub_vec(seq_buf.as_slice(), 5 + seq_end, seq_buf.len());
        let is_query = (payload.len() == 1 && payload[0] == 0x3f) || (payload.len() >= 2 && payload[
        payload.len() - 2] == 0x3b && payload[payload.len() - 1] == 0x3f);
        assert(is_query == is_clipboard_query(payload@)) by {
            if payload@.len() >= 2 {
                let t = payload@.skip(payload@.len() - 2);
                assert(t.len() == 2);
                assert(t[0] == payload@[payload@.len() - 2]);
                assert(t[1] == payload@[payload@.len() - 1]);
                if t == seq![0x3bu8, 0x3fu8] {
                    assert(t[0] == 0x3b && t[1] == 0x3f);
                }
                if payload[payload.len() - 2] == 0x3b && payload[payload.len() - 1] == 0x3f {
                    assert(t =~= seq![0x3bu8, 0x3fu8]);
                }
            }
            if payload@.len() == 1 && payload@[0] == 0x3f {
                assert(payload@ =~= seq![0x3fu8]);
            }
        }
        if !is_query {
            proof {
                lemma_find_bytes_range(payload@, semi@, 0);
            }
            let b64 = match find_bytes_from(payload.as_slice(), semi.as_slice(), 0) {
                Some(i) => sub_vec(payload.as_slice(), i + 1, payload.len()),
                None => payload,
            };
            if let Some(decoded) = decode_base64(b64.as_slice()) {
                found = Some(string_from_utf8_lossy(decoded.as_slice()));
            }
        }
        buf = rest;
    }
}

} // verus!
