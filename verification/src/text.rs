use vstd::prelude::*;

verus! {

/// `String::push`: appends `c` to `s`, as std documents.
#[verifier::external_body]
pub(crate) fn string_push(s: &mut String, c: char)
    ensures
        final(s)@ == old(s)@.push(c),
{
    s.push(c);
}

/// `String::pop`: removes and returns the last char, `None` on an empty
/// string, as std documents.
#[verifier::external_body]
pub(crate) fn string_pop(s: &mut String) -> (r: Option<char>)
    ensures
        old(s)@.len() == 0 ==> r is None && final(s)@ == old(s)@,
        old(s)@.len() > 0 ==> r == Some(old(s)@.last()) && final(s)@ == old(s)@.drop_last(),
{
    s.pop()
}

/// The chars of `s`, in order.
pub fn chars_of(s: &str) -> (r: Vec<char>)
    ensures
        r@ == s@,
{
    let mut out: Vec<char> = Vec::new();
    for c in it: s.chars()
        invariant
            out@ == it.seq().take(it.index() as int),
            it.seq() == s@,
    {
        out.push(c);
    }
    out
}

/// A string holding exactly the given chars.
pub fn string_from_chars(cs: &[char]) -> (r: String)
    ensures
        r@ == cs@,
{
    let mut s = String::new();
    let mut i: usize = 0;
    while i < cs.len()
        invariant
            i <= cs@.len(),
            s@ == cs@.take(i as int),
        decreases cs@.len() - i,
    {
        string_push(&mut s, cs[i]);
        assert(cs@.take(i + 1) == cs@.take(i as int).push(cs@[i as int]));
        i = i + 1;
    }
    assert(cs@.take(cs@.len() as int) == cs@);
    s
}

} // verus!

verus! {

/// Whether `pat` occurs in `s` starting at index `i`.
pub open spec fn matches_at(s: Seq<char>, pat: Seq<char>, i: int) -> bool {
    0 <= i && i + pat.len() <= s.len() && s.subrange(i, i + pat.len()) == pat
}

/// `s` with every occurrence of `pat` replaced by `rep`, scanning left to
/// right without overlaps (`str::replace`).
pub open spec fn replace_all(s: Seq<char>, pat: Seq<char>, rep: Seq<char>) -> Seq<char>
    decreases s.len(),
{
    if pat.len() == 0 || s.len() < pat.len() {
        s
    } else if s.take(pat.len() as int) == pat {
        rep + replace_all(s.skip(pat.len() as int), pat, rep)
    } else {
        seq![s[0]] + replace_all(s.skip(1), pat, rep)
    }
}

/// Whether `pat` occurs in `v` at index `i`.
pub fn chars_match_at(v: &Vec<char>, pat: &Vec<char>, i: usize) -> (r: bool)
    ensures
        r == matches_at(v@, pat@, i as int),
{
    if pat.len() > v.len() || i > v.len() - pat.len() {
        return false;
    }
    let mut k: usize = 0;
    while k < pat.len()
        invariant
            k <= pat@.len(),
            i + pat@.len() <= v@.len(),
            v@.len() <= usize::MAX,
            forall|j: int| 0 <= j < k ==> v@[i + j] == pat@[j],
        decreases pat@.len() - k,
    {
        if v[i + k] != pat[k] {
            assert(v@.subrange(i as int, i + pat@.len())[k as int] != pat@[k as int]);
            return false;
        }
        k = k + 1;
    }
    assert(v@.subrange(i as int, i + pat@.len()) =~= pat@);
    true
}

/// `s` with every occurrence of `pat` replaced by `rep`.
pub fn replace_chars(s: &Vec<char>, pat: &Vec<char>, rep: &Vec<char>) -> (r: Vec<char>)
    ensures
        r@ == replace_all(s@, pat@, rep@),
{
    let mut out: Vec<char> = Vec::new();
    let mut i: usize = 0;
    assert(s@.skip(0) == s@);
    while i < s.len()
        invariant
            i <= s@.len(),
            out@ + replace_all(s@.skip(i as int), pat@, rep@) == replace_all(s@, pat@, rep@),
        decreases s@.len() - i,
    {
        let ghost rest = s@.skip(i as int);
        if pat.len() > 0 && chars_match_at(s, pat, i) {
            assert(rest.take(pat@.len() as int) == pat@);
            assert(rest.skip(pat@.len() as int) == s@.skip(i + pat@.len()));
            let mut k: usize = 0;
            let ghost before = out@;
            while k < rep.len()
                invariant
                    k <= rep@.len(),
                    out@ == before + rep@.take(k as int),
                decreases rep@.len() - k,
            {
                out.push(rep[k]);
                k = k + 1;
            }
            assert(rep@.take(rep@.len() as int) == rep@);
            assert(out@ + replace_all(s@.skip(i + pat@.len()), pat@, rep@) == before + (rep@ + replace_all(
                rest.skip(pat@.len() as int),
                pat@,
                rep@,
            )));
            i = i + pat.len();
        } else {
            proof {
                if pat@.len() == 0 || rest.len() < pat@.len() {
                    assert(replace_all(rest, pat@, rep@) == rest);
                    assert(rest == seq![rest[0]] + rest.skip(1));
                    assert(replace_all(rest.skip(1), pat@, rep@) == rest.skip(1)) by {
                        assert(pat@.len() == 0 || rest.skip(1).len() < pat@.len());
                    }
                } else {
                    assert(rest.take(pat@.len() as int) != pat@) by {
                        if rest.take(pat@.len() as int) == pat@ {
                            assert(s@.subrange(i as int, i + pat@.len()) == rest.take(pat@.len() as int));
                        }
                    }
                }
            }
            assert(rest.skip(1) == s@.skip(i + 1));
            let ghost before = out@;
            out.push(s[i]);
            assert(out@ + replace_all(s@.skip(i + 1), pat@, rep@) == before + (seq![rest[0]] + replace_all(
                rest.skip(1),
                pat@,
                rep@,
            )));
            i = i + 1;
        }
    }
    assert(replace_all(s@.skip(s@.len() as int), pat@, rep@) == Seq::<char>::empty());
    out
}

} // verus!

verus! {

/// Whether the chars in `v` spell exactly `lit`.
pub fn eq_chars_str(v: &Vec<char>, lit: &str) -> (r: bool)
    ensures
        r == (v@ == lit@),
{
    let l = chars_of(lit);
    if l.len() != v.len() {
        return false;
    }
    let mut i: usize = 0;
    while i < v.len()
        invariant
            i <= v@.len(),
            l@ == lit@,
            l@.len() == v@.len(),
            forall|k: int| 0 <= k < i ==> v@[k] == l@[k],
        decreases v@.len() - i,
    {
        if v[i] != l[i] {
            return false;
        }
        i = i + 1;
    }
    assert(v@ =~= l@);
    true
}

/// Whether the chars in `v` start with `lit`.
pub fn starts_with_str(v: &Vec<char>, lit: &str) -> (r: bool)
    ensures
        r == lit@.is_prefix_of(v@),
{
    let l = chars_of(lit);
    if l.len() > v.len() {
        return false;
    }
    let mut i: usize = 0;
    while i < l.len()
        invariant
            i <= l@.len(),
            l@ == lit@,
            l@.len() <= v@.len(),
            forall|k: int| 0 <= k < i ==> v@[k] == l@[k],
        decreases l@.len() - i,
    {
        if v[i] != l[i] {
            return false;
        }
        i = i + 1;
    }
    assert(v@.take(l@.len() as int) =~= l@);
    true
}

} // verus!

verus! {

/// `char::is_whitespace`: the Unicode `White_Space` code points.
pub open spec fn is_whitespace_spec(c: char) -> bool {
    let u = c as u32;
    (0x09 <= u && u <= 0x0d) || u == 0x20 || u == 0x85 || u == 0xa0 || u == 0x1680 || (0x2000 <= u && u
        <= 0x200a) || u == 0x2028 || u == 0x2029 || u == 0x202f || u == 0x205f || u == 0x3000
}

pub fn is_whitespace(c: char) -> (r: bool)
    ensures
        r == is_whitespace_spec(c),
{
    let u = c as u32;
    (0x09 <= u && u <= 0x0d) || u == 0x20 || u == 0x85 || u == 0xa0 || u == 0x1680 || (0x2000 <= u && u
        <= 0x200a) || u == 0x2028 || u == 0x2029 || u == 0x202f || u == 0x205f || u == 0x3000
}

/// Whether `s` is empty once surrounding whitespace is trimmed.
pub open spec fn blank(s: Seq<char>) -> bool {
    forall|i: int| 0 <= i < s.len() ==> is_whitespace_spec(#[trigger] s[i])
}

/// Whether `s.trim()` is empty.
pub fn is_blank(s: &str) -> (r: bool)
    ensures
        r == blank(s@),
{
    let cs = chars_of(s);
    let mut i: usize = 0;
    while i < cs.len()
        invariant
            i <= cs@.len(),
            cs@ == s@,
            forall|k: int| 0 <= k < i ==> is_whitespace_spec(#[trigger] cs@[k]),
        decreases cs@.len() - i,
    {
        if !is_whitespace(cs[i]) {
            return false;
        }
        i = i + 1;
    }
    true
}

/// The base letter of an accented Latin letter (Latin-1 range), any other
/// char unchanged: `ã` folds to `a`, `Ç` to `C`.
pub open spec fn fold_diacritic(c: char) -> char {
    let u = c as u32;
    if 0xc0 <= u && u <= 0xc5 {
        'A'
    } else if u == 0xc7 {
        'C'
    } else if 0xc8 <= u && u <= 0xcb {
        'E'
    } else if 0xcc <= u && u <= 0xcf {
        'I'
    } else if u == 0xd1 {
        'N'
    } else if 0xd2 <= u && u <= 0xd6 {
        'O'
    } else if 0xd9 <= u && u <= 0xdc {
        'U'
    } else if u == 0xdd {
        'Y'
    } else if 0xe0 <= u && u <= 0xe5 {
        'a'
    } else if u == 0xe7 {
        'c'
    } else if 0xe8 <= u && u <= 0xeb {
        'e'
    } else if 0xec <= u && u <= 0xef {
        'i'
    } else if u == 0xf1 {
        'n'
    } else if 0xf2 <= u && u <= 0xf6 {
        'o'
    } else if 0xf9 <= u && u <= 0xfc {
        'u'
    } else if u == 0xfd || u == 0xff {
        'y'
    } else {
        c
    }
}

pub fn fold_diacritic_char(c: char) -> (r: char)
    ensures
        r == fold_diacritic(c),
{
    let u = c as u32;
    if 0xc0 <= u && u <= 0xc5 {
        'A'
    } else if u == 0xc7 {
        'C'
    } else if 0xc8 <= u && u <= 0xcb {
        'E'
    } else if 0xcc <= u && u <= 0xcf {
        'I'
    } else if u == 0xd1 {
        'N'
    } else if 0xd2 <= u && u <= 0xd6 {
        'O'
    } else if 0xd9 <= u && u <= 0xdc {
        'U'
    } else if u == 0xdd {
        'Y'
    } else if 0xe0 <= u && u <= 0xe5 {
        'a'
    } else if u == 0xe7 {
        'c'
    } else if 0xe8 <= u && u <= 0xeb {
        'e'
    } else if 0xec <= u && u <= 0xef {
        'i'
    } else if u == 0xf1 {
        'n'
    } else if 0xf2 <= u && u <= 0xf6 {
        'o'
    } else if 0xf9 <= u && u <= 0xfc {
        'u'
    } else if u == 0xfd || u == 0xff {
        'y'
    } else {
        c
    }
}

/// `s` with diacritics stripped char by char; the length never changes.
pub open spec fn strip_diacritics_spec(s: Seq<char>) -> Seq<char> {
    s.map_values(|c: char| fold_diacritic(c))
}

/// `s` with every accented Latin letter folded to its base letter.
pub fn strip_diacritics(s: &str) -> (r: String)
    ensures
        r@ == strip_diacritics_spec(s@),
{
    let cs = chars_of(s);
    let mut out: Vec<char> = Vec::new();
    let mut i: usize = 0;
    while i < cs.len()
        invariant
            i <= cs@.len(),
            cs@ == s@,
            out@ == strip_diacritics_spec(s@).take(i as int),
        decreases cs@.len() - i,
    {
        out.push(fold_diacritic_char(cs[i]));
        assert(strip_diacritics_spec(s@).take(i + 1) == strip_diacritics_spec(s@).take(i as int).push(
            fold_diacritic(cs@[i as int]),
        ));
        i = i + 1;
    }
    assert(strip_diacritics_spec(s@).take(s@.len() as int) == strip_diacritics_spec(s@));
    string_from_chars(out.as_slice())
}

} // verus!

verus! {

/// `s` without leading whitespace.
pub open spec fn trim_start_spec(s: Seq<char>) -> Seq<char>
    decreases s.len(),
{
    if s.len() > 0 && is_whitespace_spec(s[0]) {
        trim_start_spec(s.skip(1))
    } else {
        s
    }
}

/// `s` without trailing whitespace.
pub open spec fn trim_end_spec(s: Seq<char>) -> Seq<char>
    decreases s.len(),
{
    if s.len() > 0 && is_whitespace_spec(s.last()) {
        trim_end_spec(s.drop_last())
    } else {
        s
    }
}

/// `str::trim`: `s` without leading and trailing whitespace.
pub open spec fn trim_spec(s: Seq<char>) -> Seq<char> {
    trim_end_spec(trim_start_spec(s))
}

proof fn lemma_trim_start_skip(s: Seq<char>, i: int)
    requires
        0 <= i <= s.len(),
        forall|k: int| 0 <= k < i ==> is_whitespace_spec(#[trigger] s[k]),
    ensures
        trim_start_spec(s) == trim_start_spec(s.skip(i)),
    decreases i,
{
    if i > 0 {
        assert(s.skip(1).skip(i - 1) == s.skip(i));
        assert forall|k: int| 0 <= k < i - 1 implies is_whitespace_spec(#[trigger] s.skip(1)[k]) by {
            assert(s.skip(1)[k] == s[k + 1]);
        }
        lemma_trim_start_skip(s.skip(1), i - 1);
    } else {
        assert(s.skip(0) == s);
    }
}

proof fn lemma_trim_end_take(s: Seq<char>, j: int)
    requires
        0 <= j <= s.len(),
        forall|k: int| j <= k < s.len() ==> is_whitespace_spec(#[trigger] s[k]),
    ensures
        trim_end_spec(s) == trim_end_spec(s.take(j)),
    decreases s.len() - j,
{
    if j < s.len() {
        assert(s.drop_last().take(j) == s.take(j));
        lemma_trim_end_take(s.drop_last(), j);
    } else {
        assert(s.take(j) == s);
    }
}

/// `str::trim` on `s`.
pub fn trim(s: &str) -> (r: String)
    ensures
        r@ == trim_spec(s@),
        r@.len() == 0 <==> blank(s@),
{
    let cs = chars_of(s);
    let mut i: usize = 0;
    while i < cs.len() && is_whitespace(cs[i])
        invariant
            i <= cs@.len(),
            cs@ == s@,
            forall|k: int| 0 <= k < i ==> is_whitespace_spec(#[trigger] cs@[k]),
        decreases cs@.len() - i,
    {
        i = i + 1;
    }
    proof {
        lemma_trim_start_skip(s@, i as int);
    }
    let ghost rest = s@.skip(i as int);
    assert(i < cs@.len() ==> trim_start_spec(rest) == rest);
    let mut j: usize = cs.len();
    while j > i && is_whitespace(cs[j - 1])
        invariant
            i <= j <= cs@.len(),
            cs@ == s@,
            forall|k: int| j <= k < cs@.len() ==> is_whitespace_spec(#[trigger] cs@[k]),
        decreases j,
    {
        j = j - 1;
    }
    let mut out: Vec<char> = Vec::new();
    let mut k: usize = i;
    while k < j
        invariant
            i <= k <= j <= cs@.len(),
            cs@ == s@,
            out@ == s@.subrange(i as int, k as int),
        decreases j - k,
    {
        out.push(cs[k]);
        assert(s@.subrange(i as int, k + 1) == s@.subrange(i as int, k as int).push(s@[k as int]));
        k = k + 1;
    }
    proof {
        if i < cs@.len() {
            assert(trim_start_spec(s@) == rest);
            assert forall|q: int| j - i <= q < rest.len() implies is_whitespace_spec(#[trigger] rest[q]) by {
                assert(rest[q] == s@[q + i]);
            }
            lemma_trim_end_take(rest, j - i);
            assert(rest.take(j - i) == s@.subrange(i as int, j as int));
            if j > i {
                assert(!is_whitespace_spec(rest.take(j - i).last()));
            }
        } else {
            assert(rest.len() == 0);
            assert(trim_start_spec(s@) == rest);
            assert(j == i);
        }
        if out@.len() == 0 {
            assert(j == i);
            if i < cs@.len() {
                assert(!is_whitespace_spec(cs@[i as int]));
                assert(false);
            }
        } else {
            assert(!is_whitespace_spec(cs@[i as int]));
        }
    }
    string_from_chars(out.as_slice())
}

proof fn lemma_trim_end_keeps_first(s: Seq<char>)
    requires
        s.len() > 0,
        !is_whitespace_spec(s[0]),
    ensures
        trim_end_spec(s).len() > 0,
    decreases s.len(),
{
    if is_whitespace_spec(s.last()) {
        if s.len() > 1 {
            assert(s.drop_last()[0] == s[0]);
            lemma_trim_end_keeps_first(s.drop_last());
        }
    }
}

/// A string trims to nothing exactly when it is all whitespace.
pub proof fn lemma_trim_blank(s: Seq<char>)
    ensures
        trim_spec(s).len() == 0 <==> blank(s),
    decreases s.len(),
{
    if s.len() > 0 && is_whitespace_spec(s[0]) {
        lemma_trim_blank(s.skip(1));
        assert(blank(s) <==> blank(s.skip(1))) by {
            if blank(s.skip(1)) {
                assert forall|i: int| 0 <= i < s.len() implies is_whitespace_spec(#[trigger] s[i]) by {
                    if i > 0 {
                        assert(s[i] == s.skip(1)[i - 1]);
                    }
                }
            }
            if blank(s) {
                assert forall|i: int| 0 <= i < s.skip(1).len() implies is_whitespace_spec(#[trigger] s.skip(1)[i]) by {
                    assert(s.skip(1)[i] == s[i + 1]);
                }
            }
        }
    } else if s.len() > 0 {
        lemma_trim_end_keeps_first(s);
        assert(!blank(s)) by {
            assert(!is_whitespace_spec(s[0]));
        }
    }
}

} // verus!
