use vstd::prelude::*;

use crate::terminal_protocol::ascii_lower;
use crate::text::{chars_of, replace_all, replace_chars, string_from_chars};

verus! {

/// The locale used when nothing else resolves, and the one every other
/// locale is checked against.
pub const FALLBACK_LOCALE: &'static str = "pt_BR";

/// A locale argus ships.
#[derive(Clone, Copy, Debug, PartialEq, Eq, Structural)]
pub enum Locale {
    PtBr,
    EnUs,
    EsEs,
}

/// Locale codes in the order argus ships them.
pub open spec fn supported_locales() -> Seq<Seq<char>> {
    seq![seq!['p', 't', '_', 'B', 'R'], seq!['e', 'n', '_', 'U', 'S'], seq!['e', 's', '_', 'E', 'S']]
}

impl Locale {
    pub open spec fn index_spec(self) -> int {
        match self {
            Locale::PtBr => 0,
            Locale::EnUs => 1,
            Locale::EsEs => 2,
        }
    }

    /// The locale's code, such as `pt_BR`.
    pub fn code(self) -> (r: &'static str)
        ensures
            r@ == supported_locales()[self.index_spec()],
    {
        match self {
            Locale::PtBr => {
                proof {
                    reveal_strlit("pt_BR");
                }
                "pt_BR"
            },
            Locale::EnUs => {
                proof {
                    reveal_strlit("en_US");
                }
                "en_US"
            },
            Locale::EsEs => {
                proof {
                    reveal_strlit("es_ES");
                }
                "es_ES"
            },
        }
    }
}

/// `-` replaced by `_`.
pub open spec fn normalize_locale(raw: Seq<char>) -> Seq<char> {
    raw.map_values(|c: char| if c == '-' {
        '_'
    } else {
        c
    })
}

/// ASCII case-insensitive equality (`str::eq_ignore_ascii_case`).
pub open spec fn eq_ignore_ascii_case(a: Seq<char>, b: Seq<char>) -> bool {
    a.len() == b.len() && forall|i: int| 0 <= i < a.len() ==> ascii_lower(#[trigger] a[i]) == ascii_lower(b[i])
}

/// Index of the first `c` in `s`, if any.
pub open spec fn first_index_of(s: Seq<char>, c: char) -> Option<int> {
    if exists|i: int| 0 <= i < s.len() && s[i] == c {
        Some(choose|i: int| 0 <= i < s.len() && s[i] == c && forall|j: int| 0 <= j < i ==> s[j] != c)
    } else {
        None
    }
}

/// The part of `s` before the first `_` (all of it when there is none).
pub open spec fn language_part(s: Seq<char>) -> Seq<char> {
    match first_index_of(s, '_') {
        Some(i) => s.take(i),
        None => s,
    }
}

/// Index of the first supported locale satisfying `p`, if any.
pub open spec fn first_locale(p: spec_fn(Seq<char>) -> bool) -> Option<int> {
    if p(supported_locales()[0]) {
        Some(0int)
    } else if p(supported_locales()[1]) {
        Some(1int)
    } else if p(supported_locales()[2]) {
        Some(2int)
    } else {
        None
    }
}

/// The supported locale `raw` names: first an ASCII case-insensitive exact
/// match (after `-` becomes `_`), then the first locale whose code starts
/// with `raw`'s language part, if that part is at least two chars long.
pub open spec fn match_locale_spec(raw: Seq<char>) -> Option<int> {
    let n = normalize_locale(raw);
    match first_locale(|l: Seq<char>| eq_ignore_ascii_case(l, n)) {
        Some(i) => Some(i),
        None => {
            let lang = language_part(n);
            if lang.len() < 2 {
                None
            } else {
                first_locale(|l: Seq<char>| lang.is_prefix_of(l))
            }
        },
    }
}

pub(crate) fn ascii_lower_char(c: char) -> (r: char)
    ensures
        r == ascii_lower(c),
{
    if 'A' <= c && c <= 'Z' {
        ((c as u8) + 32) as char
    } else {
        c
    }
}

fn chars_eq_ignore_ascii_case(a: &Vec<char>, b: &Vec<char>) -> (r: bool)
    ensures
        r == eq_ignore_ascii_case(a@, b@),
{
    if a.len() != b.len() {
        return false;
    }
    let mut i: usize = 0;
    while i < a.len()
        invariant
            i <= a@.len(),
            a@.len() == b@.len(),
            forall|k: int| 0 <= k < i ==> ascii_lower(#[trigger] a@[k]) == ascii_lower(b@[k]),
        decreases a@.len() - i,
    {
        if ascii_lower_char(a[i]) != ascii_lower_char(b[i]) {
            return false;
        }
        i = i + 1;
    }
    true
}

fn chars_is_prefix(p: &Vec<char>, s: &Vec<char>) -> (r: bool)
    ensures
        r == p@.is_prefix_of(s@),
{
    if p.len() > s.len() {
        return false;
    }
    let mut i: usize = 0;
    while i < p.len()
        invariant
            i <= p@.len(),
            p@.len() <= s@.len(),
            forall|k: int| 0 <= k < i ==> p@[k] == s@[k],
        decreases p@.len() - i,
    {
        if p[i] != s[i] {
            return false;
        }
        i = i + 1;
    }
    assert(s@.take(p@.len() as int) =~= p@);
    true
}

fn locale_at(i: usize) -> (r: Locale)
    requires
        i < 3,
    ensures
        r.index_spec() == i,
{
    if i == 0 {
        Locale::PtBr
    } else if i == 1 {
        Locale::EnUs
    } else {
        Locale::EsEs
    }
}

/// Normalizes a locale string (`en-US`, `en_US`, `pt-BR`, ...) and matches it
/// against the supported locales, exactly first, then by language code.
pub fn match_locale(raw: &str) -> (r: Option<&'static str>)
    ensures
        match match_locale_spec(raw@) {
            Some(i) => r is Some && r->0@ == supported_locales()[i],
            None => r is None,
        },
{
    let raw_chars = chars_of(raw);
    let mut n: Vec<char> = Vec::new();
    let mut i: usize = 0;
    while i < raw_chars.len()
        invariant
            i <= raw_chars@.len(),
            raw_chars@ == raw@,
            n@ == normalize_locale(raw@).take(i as int),
        decreases raw_chars@.len() - i,
    {
        let c = raw_chars[i];
        n.push(if c == '-' {
            '_'
        } else {
            c
        });
        assert(normalize_locale(raw@).take(i + 1) == normalize_locale(raw@).take(i as int).push(
            normalize_locale(raw@)[i as int],
        ));
        i = i + 1;
    }
    assert(normalize_locale(raw@).take(raw@.len() as int) == normalize_locale(raw@));
    let ghost ns = n@;
    let codes = [Locale::PtBr.code(), Locale::EnUs.code(), Locale::EsEs.code()];
    let mut k: usize = 0;
    while k < 3
        invariant
            k <= 3,
            n@ == ns,
            ns == normalize_locale(raw@),
            forall|j: int| 0 <= j < 3 ==> (#[trigger] codes@[j])@ == supported_locales()[j],
            forall|j: int| 0 <= j < k ==> !eq_ignore_ascii_case(#[trigger] supported_locales()[j], ns),
        decreases 3 - k,
    {
        let code = chars_of(codes[k]);
        if chars_eq_ignore_ascii_case(&code, &n) {
            assert(match_locale_spec(raw@) == Some(k as int));
            return Some(codes[k]);
        }
        k = k + 1;
    }
    assert(!eq_ignore_ascii_case(supported_locales()[0], ns));
    assert(!eq_ignore_ascii_case(supported_locales()[1], ns));
    assert(!eq_ignore_ascii_case(supported_locales()[2], ns));
    assert(first_locale(|l: Seq<char>| eq_ignore_ascii_case(l, ns)) is None);
    let mut lang_len: usize = 0;
    while lang_len < n.len() && n[lang_len] != '_'
        invariant
            lang_len <= n@.len(),
            forall|j: int| 0 <= j < lang_len ==> n@[j] != '_',
        decreases n@.len() - lang_len,
    {
        lang_len = lang_len + 1;
    }
    let lang = vstd::slice::slice_to_vec(vstd::slice::slice_subrange(n.as_slice(), 0, lang_len));
    assert(lang@ == language_part(ns)) by {
        if lang_len < n@.len() {
            assert(n@[lang_len as int] == '_');
            let f = first_index_of(ns, '_');
            assert(f == Some(lang_len as int));
        } else {
            assert(first_index_of(ns, '_') is None);
            assert(ns.take(lang_len as int) == ns);
        }
    }
    if lang_len < 2 {
        assert(match_locale_spec(raw@) is None);
        return None;
    }
    let mut k: usize = 0;
    while k < 3
        invariant
            k <= 3,
            lang@ == language_part(ns),
            ns == normalize_locale(raw@),
            lang@.len() >= 2,
            first_locale(|l: Seq<char>| eq_ignore_ascii_case(l, ns)) is None,
            forall|j: int| 0 <= j < 3 ==> (#[trigger] codes@[j])@ == supported_locales()[j],
            forall|j: int| 0 <= j < k ==> !lang@.is_prefix_of(#[trigger] supported_locales()[j]),
        decreases 3 - k,
    {
        let code = chars_of(codes[k]);
        if chars_is_prefix(&lang, &code) {
            assert(match_locale_spec(raw@) == Some(k as int));
            return Some(codes[k]);
        }
        k = k + 1;
    }
    None
}


/// The value stored for `key` in a translation table (a later entry wins,
/// as when the entries are inserted into a map in order).
pub open spec fn table_get(t: Seq<(String, String)>, key: Seq<char>) -> Option<Seq<char>>
    decreases t.len(),
{
    if t.len() == 0 {
        None
    } else if t.last().0@ == key {
        Some(t.last().1@)
    } else {
        table_get(t.drop_last(), key)
    }
}

/// `{name}`.
pub open spec fn placeholder(name: Seq<char>) -> Seq<char> {
    seq!['{'] + name + seq!['}']
}

/// `s` with each `{name}` placeholder replaced by its value, one parameter
/// after the other.
pub open spec fn interpolate(s: Seq<char>, params: Seq<(&str, &str)>) -> Seq<char>
    decreases params.len(),
{
    if params.len() == 0 {
        s
    } else {
        interpolate(replace_all(s, placeholder(params[0].0@), params[0].1@), params.skip(1))
    }
}

/// The bundled translation tables and the locale chosen at startup.
pub struct Catalog {
    pt_br: Vec<(String, String)>,
    en_us: Vec<(String, String)>,
    es_es: Vec<(String, String)>,
    active: Locale,
}

impl Catalog {
    pub closed spec fn table_spec(&self, l: Locale) -> Seq<(String, String)> {
        match l {
            Locale::PtBr => self.pt_br@,
            Locale::EnUs => self.en_us@,
            Locale::EsEs => self.es_es@,
        }
    }

    pub closed spec fn active_spec(&self) -> Locale {
        self.active
    }

    /// The text `key` resolves to: the active locale's entry, else the
    /// fallback locale's, else the key itself.
    pub open spec fn resolve_spec(&self, key: Seq<char>) -> Seq<char> {
        match table_get(self.table_spec(self.active_spec()), key) {
            Some(v) => v,
            None => match table_get(self.table_spec(Locale::PtBr), key) {
                Some(v) => v,
                None => key,
            },
        }
    }

    /// A catalog from the three tables and the active locale.
    pub fn new(
        pt_br: Vec<(String, String)>,
        en_us: Vec<(String, String)>,
        es_es: Vec<(String, String)>,
        active: Locale,
    ) -> (r: Catalog)
        ensures
            r.table_spec(Locale::PtBr) == pt_br@,
            r.table_spec(Locale::EnUs) == en_us@,
            r.table_spec(Locale::EsEs) == es_es@,
            r.active_spec() == active,
    {
        Catalog { pt_br, en_us, es_es, active }
    }

    fn table(&self, l: Locale) -> (r: &Vec<(String, String)>)
        ensures
            r@ == self.table_spec(l),
    {
        match l {
            Locale::PtBr => &self.pt_br,
            Locale::EnUs => &self.en_us,
            Locale::EsEs => &self.es_es,
        }
    }
}

fn table_lookup<'a>(t: &'a Vec<(String, String)>, key: &String) -> (r: Option<&'a String>)
    ensures
        match table_get(t@, key@) {
            Some(v) => r is Some && r->0@ == v,
            None => r is None,
        },
{
    let mut i: usize = t.len();
    assert(t@.take(i as int) == t@);
    while i > 0
        invariant
            i <= t@.len(),
            table_get(t@, key@) == table_get(t@.take(i as int), key@),
        decreases i,
    {
        assert(t@.take(i as int).drop_last() == t@.take(i - 1));
        if t[i - 1].0 == *key {
            return Some(&t[i - 1].1);
        }
        i = i - 1;
    }
    None
}

/// Looks `key` up in the active locale (then the fallback locale, then the
/// key itself) and fills in `{name}` placeholders from `params`.
pub fn t(catalog: &Catalog, key: &str, params: &[(&str, &str)]) -> (r: String)
    ensures
        r@ == interpolate(catalog.resolve_spec(key@), params@),
{
    let key_string = key.to_owned();
    let active = catalog.table(catalog.active);
    let found = match table_lookup(active, &key_string) {
        Some(v) => Some(v),
        None => table_lookup(catalog.table(Locale::PtBr), &key_string),
    };
    let mut out: Vec<char> = match found {
        Some(v) => chars_of(v.as_str()),
        None => chars_of(key),
    };
    let mut i: usize = 0;
    assert(params@.skip(0) == params@);
    while i < params.len()
        invariant
            i <= params@.len(),
            interpolate(out@, params@.skip(i as int)) == interpolate(catalog.resolve_spec(key@), params@),
        decreases params@.len() - i,
    {
        let (name, val) = params[i];
        let mut pat: Vec<char> = vec!['{'];
        let name_chars = chars_of(name);
        pat.append(&mut name_chars.clone());
        pat.push('}');
        assert(pat@ == placeholder(name@));
        let val_chars = chars_of(val);
        assert(params@.skip(i as int).skip(1) == params@.skip(i + 1));
        out = replace_chars(&out, &pat, &val_chars);
        i = i + 1;
    }
    string_from_chars(out.as_slice())
}

} // verus!

verus! {

/// Index of the first occurrence of `pat` in `s` at or after `from`, or -1.
pub open spec fn find_pat(s: Seq<char>, pat: Seq<char>, from: int) -> int
    decreases s.len() - from,
{
    if from < 0 || from >= s.len() || from + pat.len() > s.len() {
        -1
    } else if crate::text::matches_at(s, pat, from) {
        from
    } else {
        find_pat(s, pat, from + 1)
    }
}

/// A found occurrence lies at or after `from` and fits in `s`.
pub proof fn lemma_find_pat_range(s: Seq<char>, pat: Seq<char>, from: int)
    ensures
        find_pat(s, pat, from) == -1 || (from <= find_pat(s, pat, from) && find_pat(s, pat, from) + pat.len()
            <= s.len()),
    decreases s.len() - from,
{
    if !(from < 0 || from >= s.len() || from + pat.len() > s.len()) && !crate::text::matches_at(s, pat, from) {
        lemma_find_pat_range(s, pat, from + 1);
    }
}

/// `t("`.
pub open spec fn t_call_open() -> Seq<char> {
    seq!['t', '(', '"']
}

/// An ASCII letter, digit or underscore.
pub open spec fn is_ident_char(c: char) -> bool {
    ('a' <= c && c <= 'z') || ('A' <= c && c <= 'Z') || ('0' <= c && c <= '9') || c == '_'
}

/// The literal keys of the bare `t("...")` calls in `s` from index `idx` on:
/// each `t("` up to the next `"`, skipping calls whose `t` directly follows
/// an identifier char (`print("..")`, `sort("..")`), resuming after that `"`.
pub open spec fn t_keys_from(s: Seq<char>, idx: int) -> Seq<Seq<char>>
    decreases s.len() - idx,
{
    let pos = find_pat(s, t_call_open(), idx);
    if idx < 0 || idx > s.len() || pos < 0 {
        Seq::empty()
    } else {
        let start = pos + 3;
        let q = find_pat(s, seq!['"'], start);
        if q < 0 || q + 1 <= idx || q + 1 > s.len() {
            Seq::empty()
        } else {
            let preceded = pos > 0 && is_ident_char(s[pos - 1]);
            let here = if preceded {
                Seq::empty()
            } else {
                seq![s.subrange(start, q)]
            };
            here + t_keys_from(s, q + 1)
        }
    }
}

pub(crate) fn find_chars(s: &Vec<char>, pat: &Vec<char>, from: usize) -> (r: Option<usize>)
    requires
        from <= s@.len(),
        pat@.len() > 0,
    ensures
        match r {
            Some(i) => i == find_pat(s@, pat@, from as int),
            None => find_pat(s@, pat@, from as int) == -1,
        },
{
    let mut j: usize = from;
    while j < s.len()
        invariant
            from <= j <= s@.len(),
            find_pat(s@, pat@, from as int) == find_pat(s@, pat@, j as int),
        decreases s@.len() - j,
    {
        if pat.len() > s.len() - j {
            return None;
        }
        if crate::text::chars_match_at(s, pat, j) {
            return Some(j);
        }
        j = j + 1;
    }
    None
}

fn is_ident(c: char) -> (r: bool)
    ensures
        r == is_ident_char(c),
{
    ('a' <= c && c <= 'z') || ('A' <= c && c <= 'Z') || ('0' <= c && c <= '9') || c == '_'
}

/// The literal keys of every bare `t("...")` call in `src`, in order.
pub fn extract_t_keys(src: &str) -> (r: Vec<String>)
    ensures
        r@.map_values(|k: String| k@) == t_keys_from(src@, 0),
{
    let s = chars_of(src);
    let open = vec!['t', '(', '"'];
    let quote = vec!['"'];
    let mut keys: Vec<String> = Vec::new();
    let mut idx: usize = 0;
    assert(keys@.map_values(|k: String| k@) =~= Seq::<Seq<char>>::empty());
    while idx <= s.len()
        invariant
            s@ == src@,
            open@ == t_call_open(),
            quote@ == seq!['"'],
            idx <= s@.len() + 1,
            idx <= s@.len() ==> keys@.map_values(|k: String| k@) + t_keys_from(s@, idx as int) == t_keys_from(
                s@,
                0,
            ),
            idx > s@.len() ==> keys@.map_values(|k: String| k@) == t_keys_from(s@, 0),
        decreases s@.len() + 1 - idx,
    {
        let pos = match find_chars(&s, &open, idx) {
            Some(p) => p,
            None => {
                assert(t_keys_from(s@, idx as int) == Seq::<Seq<char>>::empty());
                assert(keys@.map_values(|k: String| k@) + Seq::<Seq<char>>::empty() == keys@.map_values(
                    |k: String| k@,
                ));
                return keys;
            },
        };
        proof {
            lemma_find_pat_range(s@, open@, idx as int);
        }
        let start = pos + 3;
        let q = match find_chars(&s, &quote, start) {
            Some(q) => q,
            None => {
                assert(t_keys_from(s@, idx as int) == Seq::<Seq<char>>::empty());
                assert(keys@.map_values(|k: String| k@) + Seq::<Seq<char>>::empty() == keys@.map_values(
                    |k: String| k@,
                ));
                return keys;
            },
        };
        proof {
            lemma_find_pat_range(s@, quote@, start as int);
        }
        let preceded = pos > 0 && is_ident(s[pos - 1]);
        let ghost before = keys@.map_values(|k: String| k@);
        if !preceded {
            let key = string_from_chars(vstd::slice::slice_subrange(s.as_slice(), start, q));
            keys.push(key);
            assert(keys@.map_values(|k: String| k@) =~= before.push(s@.subrange(start as int, q as int)));
        }
        assert(keys@.map_values(|k: String| k@) + t_keys_from(s@, q + 1) == t_keys_from(s@, 0)) by {
            if !preceded {
                assert(before + t_keys_from(s@, idx as int) == before + (seq![s@.subrange(start as int, q as int)]
                    + t_keys_from(s@, q + 1)));
                assert(before + (seq![s@.subrange(start as int, q as int)] + t_keys_from(s@, q + 1)) =~= before.push(
                    s@.subrange(start as int, q as int),
                ) + t_keys_from(s@, q + 1));
            } else {
                assert(t_keys_from(s@, idx as int) =~= t_keys_from(s@, q + 1));
            }
        }
        idx = q + 1;
    }
    keys
}

} // verus!

verus! {

/// The locale matching `raw` (see `match_locale`), as a `Locale`.
pub fn match_locale_to(raw: &str) -> (r: Option<Locale>)
    ensures
        match match_locale_spec(raw@) {
            Some(i) => r is Some && r->0.index_spec() == i,
            None => r is None,
        },
{
    match match_locale(raw) {
        Some(code) => {
            let cs = chars_of(code);
            proof {
                reveal_strlit("pt_BR");
                reveal_strlit("en_US");
                assert("pt_BR"@ =~= supported_locales()[0]);
                assert("en_US"@ =~= supported_locales()[1]);
                assert(supported_locales()[1][0] != supported_locales()[0][0]);
                assert(supported_locales()[2][0] != supported_locales()[0][0]);
                assert(supported_locales()[2][1] != supported_locales()[1][1]);
            }
            if crate::text::eq_chars_str(&cs, "pt_BR") {
                Some(Locale::PtBr)
            } else if crate::text::eq_chars_str(&cs, "en_US") {
                Some(Locale::EnUs)
            } else {
                Some(Locale::EsEs)
            }
        },
        None => None,
    }
}

/// The locale argus runs in: the one `requested` names (the user's
/// override), else the one `detected` names (the system's), else the
/// fallback.
pub open spec fn resolve_locale_spec(requested: Option<Seq<char>>, detected: Option<Seq<char>>) -> int {
    let from_requested = match requested {
        Some(r) => match_locale_spec(r),
        None => None,
    };
    let from_detected = match detected {
        Some(d) => match_locale_spec(d),
        None => None,
    };
    match from_requested {
        Some(i) => i,
        None => match from_detected {
            Some(i) => i,
            None => 0,
        },
    }
}

pub fn resolve_locale(requested: Option<&str>, detected: Option<&str>) -> (r: Locale)
    ensures
        r.index_spec() == resolve_locale_spec(
            match requested {
                Some(s) => Some(s@),
                None => None,
            },
            match detected {
                Some(s) => Some(s@),
                None => None,
            },
        ),
{
    match requested {
        Some(req) => match match_locale_to(req) {
            Some(l) => {
                return l;
            },
            None => {},
        },
        None => {},
    }
    match detected {
        Some(det) => match match_locale_to(det) {
            Some(l) => {
                return l;
            },
            None => {},
        },
        None => {},
    }
    Locale::PtBr
}

/// What `serde_json` reads from `json` as a map of strings to strings: the
/// entries in ascending key order, `None` when it is not such a map.
pub uninterp spec fn json_string_table(json: Seq<char>) -> Option<Seq<(Seq<char>, Seq<char>)>>;

/// The entries of a translation table, as strings.
pub open spec fn table_view(t: Seq<(String, String)>) -> Seq<(Seq<char>, Seq<char>)> {
    t.map_values(|e: (String, String)| (e.0@, e.1@))
}

/// `serde_json::from_str::<BTreeMap<String, String>>`, its entries listed
/// in key order; `None` on a parse error.
#[verifier::external_body]
fn parse_string_table(json: &str) -> (r: Option<Vec<(String, String)>>)
    ensures
        match r {
            Some(t) => json_string_table(json@) == Some(table_view(t@)),
            None => json_string_table(json@) is None,
        },
{
    match serde_json::from_str::<std::collections::BTreeMap<String, String>>(json) {
        Ok(m) => Some(m.into_iter().collect()),
        Err(_) => None,
    }
}

/// Builds the catalog from the three bundled JSON translation files and the
/// active locale; `None` when a file is not a JSON map of strings.
pub fn load_catalog(pt_br: &str, en_us: &str, es_es: &str, active: Locale) -> (r: Option<Catalog>)
    ensures
        r is Some <==> (json_string_table(pt_br@) is Some && json_string_table(en_us@) is Some
            && json_string_table(es_es@) is Some),
        r is Some ==> {
            let c = r->0;
            &&& json_string_table(pt_br@) == Some(table_view(c.table_spec(Locale::PtBr)))
            &&& json_string_table(en_us@) == Some(table_view(c.table_spec(Locale::EnUs)))
            &&& json_string_table(es_es@) == Some(table_view(c.table_spec(Locale::EsEs)))
            &&& c.active_spec() == active
        },
{
    let pt = match parse_string_table(pt_br) {
        Some(t) => t,
        None => {
            return None;
        },
    };
    let en = match parse_string_table(en_us) {
        Some(t) => t,
        None => {
            return None;
        },
    };
    let es = match parse_string_table(es_es) {
        Some(t) => t,
        None => {
            return None;
        },
    };
    Some(Catalog::new(pt, en, es, active))
}

} // verus!
