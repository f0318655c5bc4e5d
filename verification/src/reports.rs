use vstd::prelude::*;
use vstd::string::StrSliceExecFns;
use vstd::utf8::encode_utf8;

use crate::terminal_protocol::ESC;
use crate::text::{chars_of, string_from_chars};

verus! {

/// The ASCII decimal digits of `n`, most significant first.
pub open spec fn decimal(n: nat) -> Seq<u8>
    decreases n,
{
    if n < 10 {
        seq![(48 + n) as u8]
    } else {
        decimal(n / 10).push((48 + n % 10) as u8)
    }
}

fn push_decimal(n: u32, out: &mut Vec<u8>)
    ensures
        final(out)@ == old(out)@ + decimal(n as nat),
    decreases n,
{
    if n >= 10 {
        push_decimal(n / 10, out);
    }
    let d: u8 = (n % 10) as u8;
    out.push(48 + d);
}

/// `n` written in decimal.
pub fn decimal_bytes(n: u32) -> (r: Vec<u8>)
    ensures
        r@ == decimal(n as nat),
{
    let mut out: Vec<u8> = Vec::new();
    push_decimal(n, &mut out);
    assert(out@ == Seq::<u8>::empty() + decimal(n as nat));
    out
}

fn push_all(out: &mut Vec<u8>, bytes: &Vec<u8>)
    ensures
        final(out)@ == old(out)@ + bytes@,
{
    let mut i: usize = 0;
    let ghost start = out@;
    while i < bytes.len()
        invariant
            i <= bytes@.len(),
            out@ == start + bytes@.take(i as int),
        decreases bytes@.len() - i,
    {
        out.push(bytes[i]);
        assert(bytes@.take(i + 1) == bytes@.take(i as int).push(bytes@[i as int]));
        i = i + 1;
    }
    assert(bytes@.take(bytes@.len() as int) == bytes@);
}

/// `ESC [ 200 ~`, which opens a bracketed paste.
pub open spec fn paste_open() -> Seq<u8> {
    seq![ESC, 0x5b, 0x32, 0x30, 0x30, 0x7e]
}

/// `ESC [ 201 ~`, which closes a bracketed paste.
pub open spec fn paste_close() -> Seq<u8> {
    seq![ESC, 0x5b, 0x32, 0x30, 0x31, 0x7e]
}

/// `text` in UTF-8 between the bracketed-paste markers, so a program that
/// understands them takes it as one paste rather than typed keys.
pub fn bracketed_paste(text: &str) -> (r: Vec<u8>)
    ensures
        r@ == paste_open() + encode_utf8(text@) + paste_close(),
{
    let mut out: Vec<u8> = Vec::new();
    out.push(ESC);
    out.push(0x5b);
    out.push(0x32);
    out.push(0x30);
    out.push(0x30);
    out.push(0x7e);
    let body = text.as_bytes_vec();
    push_all(&mut out, &body);
    out.push(ESC);
    out.push(0x5b);
    out.push(0x32);
    out.push(0x30);
    out.push(0x31);
    out.push(0x7e);
    assert(out@ =~= paste_open() + encode_utf8(text@) + paste_close());
    out
}

/// An SGR mouse report `ESC [ < button ; col ; row M` (`m` for a release).
pub open spec fn sgr_report_spec(button: u8, col: u16, row: u16, release: bool) -> Seq<u8> {
    seq![ESC, 0x5b, 0x3c] + decimal(button as nat) + seq![0x3b] + decimal(col as nat) + seq![0x3b] + decimal(
        row as nat,
    ) + seq![if release { 0x6d } else { 0x4d }]
}

pub fn sgr_report(button: u8, col: u16, row: u16, release: bool) -> (r: Vec<u8>)
    ensures
        r@ == sgr_report_spec(button, col, row, release),
{
    let mut out: Vec<u8> = Vec::new();
    out.push(ESC);
    out.push(0x5b);
    out.push(0x3c);
    push_decimal(button as u32, &mut out);
    out.push(0x3b);
    push_decimal(col as u32, &mut out);
    out.push(0x3b);
    push_decimal(row as u32, &mut out);
    out.push(if release { 0x6d } else { 0x4d });
    assert(out@ =~= sgr_report_spec(button, col, row, release));
    out
}

/// `count` copies of `unit`, back to back.
pub open spec fn repeat_bytes(unit: Seq<u8>, count: nat) -> Seq<u8>
    decreases count,
{
    if count == 0 {
        Seq::empty()
    } else {
        repeat_bytes(unit, (count - 1) as nat) + unit
    }
}

pub fn repeated(unit: &Vec<u8>, count: u32) -> (r: Vec<u8>)
    ensures
        r@ == repeat_bytes(unit@, count as nat),
{
    let mut out: Vec<u8> = Vec::new();
    let mut k: u32 = 0;
    while k < count
        invariant
            k <= count,
            out@ == repeat_bytes(unit@, k as nat),
        decreases count - k,
    {
        push_all(&mut out, unit);
        k = k + 1;
    }
    out
}

/// `@p` for each path, separated by spaces.
pub open spec fn at_paths(paths: Seq<Seq<char>>) -> Seq<char>
    decreases paths.len(),
{
    if paths.len() == 0 {
        Seq::empty()
    } else if paths.len() == 1 {
        seq!['@'] + paths[0]
    } else {
        at_paths(paths.drop_last()) + seq![' ', '@'] + paths.last()
    }
}

/// The text inserted into a prompt for some paths: `@a @b ` (with a
/// trailing space so typing can go on).
pub fn prompt_paths_text(paths: &Vec<String>) -> (r: String)
    ensures
        r@ == at_paths(paths@.map_values(|p: String| p@)) + seq![' '],
{
    let ghost views = paths@.map_values(|p: String| p@);
    let mut out: Vec<char> = Vec::new();
    let mut i: usize = 0;
    while i < paths.len()
        invariant
            i <= paths@.len(),
            views == paths@.map_values(|p: String| p@),
            out@ == at_paths(views.take(i as int)),
        decreases paths@.len() - i,
    {
        let ghost before = out@;
        if i > 0 {
            out.push(' ');
        }
        out.push('@');
        let cs = chars_of(paths[i].as_str());
        let mut k: usize = 0;
        let ghost mid = out@;
        while k < cs.len()
            invariant
                k <= cs@.len(),
                out@ == mid + cs@.take(k as int),
            decreases cs@.len() - k,
        {
            out.push(cs[k]);
            assert(cs@.take(k + 1) == cs@.take(k as int).push(cs@[k as int]));
            k = k + 1;
        }
        assert(cs@.take(cs@.len() as int) == cs@);
        assert(views.take(i + 1).drop_last() == views.take(i as int));
        assert(views.take(i + 1).last() == paths@[i as int]@);
        if i == 0 {
            assert(views.take(1) == seq![paths@[0]@]);
        }
        i = i + 1;
    }
    assert(views.take(paths@.len() as int) == views);
    out.push(' ');
    string_from_chars(out.as_slice())
}

} // verus!
