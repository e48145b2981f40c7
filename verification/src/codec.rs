//! The reference codec: parsing and formatting of the canonical reference
//! string `https://mod.io/g/drg/m/<slug>[#<mod-id>[/<file-id>]]`.
//!
//! The grammar is specified over character sequences by [`spec_parse`] and
//! [`spec_format`]; [`lemma_parse_format_round_trip`] states that formatting
//! a reference and parsing it back yields the components that went in.

use vstd::prelude::*;
use vstd::string::StrSliceExecFns;
use vstd::string::StringExecFns;
use vstd::arithmetic::div_mod::lemma_fundamental_div_mod;
use crate::types::ModSpecification;

verus! {

/// The fixed scheme-and-path prefix of every canonical reference.
pub open spec fn spec_prefix() -> Seq<char> {
    "https://mod.io/g/drg/m/"@
}

/// The marker of a preview link, rejected before any other processing.
pub open spec fn spec_preview_marker() -> Seq<char> {
    "?preview="@
}

pub open spec fn is_digit(c: char) -> bool {
    '0' <= c && c <= '9'
}

pub open spec fn digit_val(c: char) -> nat {
    (c as int - '0' as int) as nat
}

pub open spec fn all_digits(s: Seq<char>) -> bool {
    s.len() > 0 && forall|i: int| 0 <= i < s.len() ==> is_digit(#[trigger] s[i])
}

/// Numeric value of a digit string, most significant digit first.
pub open spec fn spec_digits_value(s: Seq<char>) -> nat
    decreases s.len(),
{
    if s.len() == 0 {
        0
    } else {
        spec_digits_value(s.drop_last()) * 10 + digit_val(s.last())
    }
}

/// A digit string stands for a `u32` only when nonempty and in range.
pub open spec fn spec_parse_u32(s: Seq<char>) -> Option<u32> {
    if all_digits(s) && spec_digits_value(s) <= u32::MAX {
        Some(spec_digits_value(s) as u32)
    } else {
        None
    }
}

/// A slug the grammar accepts: nonempty and free of both separators.
pub open spec fn valid_slug(s: Seq<char>) -> bool {
    s.len() > 0 && forall|i: int| 0 <= i < s.len() ==> #[trigger] s[i] != '/' && s[i] != '#'
}

/// The reference grammar: what a canonical reference string decomposes to,
/// or `None` when the string is not a canonical reference.
pub open spec fn spec_parse(s: Seq<char>) -> Option<(Seq<char>, Option<u32>, Option<u32>)> {
    let p = spec_prefix();
    if s.len() <= p.len() || s.subrange(0, p.len() as int) != p {
        None
    } else {
        let rest = s.subrange(p.len() as int, s.len() as int);
        match rest.index_of_first('#') {
            None => if valid_slug(rest) {
                Some((rest, None, None))
            } else {
                None
            },
            Some(h) => {
                let slug = rest.subrange(0, h);
                let tail = rest.subrange(h + 1, rest.len() as int);
                if !valid_slug(slug) {
                    None
                } else {
                    match tail.index_of_first('/') {
                        None => match spec_parse_u32(tail) {
                            Some(v) => Some((slug, Some(v), None)),
                            None => None,
                        },
                        Some(k) => {
                            let ds = tail.subrange(0, k);
                            let fs = tail.subrange(k + 1, tail.len() as int);
                            match (spec_parse_u32(ds), spec_parse_u32(fs)) {
                                (Some(a), Some(b)) => Some((slug, Some(a), Some(b))),
                                _ => None,
                            }
                        },
                    }
                }
            },
        }
    }
}

/// The digit character for a value below ten.
pub open spec fn spec_digit_char(d: nat) -> char {
    if d == 0 {
        '0'
    } else if d == 1 {
        '1'
    } else if d == 2 {
        '2'
    } else if d == 3 {
        '3'
    } else if d == 4 {
        '4'
    } else if d == 5 {
        '5'
    } else if d == 6 {
        '6'
    } else if d == 7 {
        '7'
    } else if d == 8 {
        '8'
    } else {
        '9'
    }
}

/// Decimal digit string of a number, without leading zeros.
pub open spec fn spec_u32_digits(n: nat) -> Seq<char>
    decreases n,
{
    if n < 10 {
        seq![spec_digit_char(n)]
    } else {
        spec_u32_digits(n / 10).push(spec_digit_char(n % 10))
    }
}

/// The canonical reference string for the given components.
pub open spec fn spec_format(slug: Seq<char>, mod_id: u32, file_id: Option<u32>) -> Seq<char> {
    let base = spec_prefix() + slug + seq!['#'] + spec_u32_digits(mod_id as nat);
    match file_id {
        None => base,
        Some(f) => base + seq!['/'] + spec_u32_digits(f as nat),
    }
}

/// The components of a reference string that matched the grammar.
pub struct ParsedRef {
    pub slug: String,
    pub mod_id: Option<u32>,
    pub file_id: Option<u32>,
}

/// What [`spec_parse`] yields on the views of a parsed reference.
pub open spec fn parsed_ref_of(p: ParsedRef) -> (Seq<char>, Option<u32>, Option<u32>) {
    (p.slug@, p.mod_id, p.file_id)
}

fn append_digit(out: &mut String, d: u32)
    requires
        d < 10,
    ensures
        final(out)@ == old(out)@ + seq![spec_digit_char(d as nat)],
{
    if d == 0 {
        out.append("0");
        proof { reveal_strlit("0"); assert("0"@ =~= seq![spec_digit_char(0)]); }
    } else if d == 1 {
        out.append("1");
        proof { reveal_strlit("1"); assert("1"@ =~= seq![spec_digit_char(1)]); }
    } else if d == 2 {
        out.append("2");
        proof { reveal_strlit("2"); assert("2"@ =~= seq![spec_digit_char(2)]); }
    } else if d == 3 {
        out.append("3");
        proof { reveal_strlit("3"); assert("3"@ =~= seq![spec_digit_char(3)]); }
    } else if d == 4 {
        out.append("4");
        proof { reveal_strlit("4"); assert("4"@ =~= seq![spec_digit_char(4)]); }
    } else if d == 5 {
        out.append("5");
        proof { reveal_strlit("5"); assert("5"@ =~= seq![spec_digit_char(5)]); }
    } else if d == 6 {
        out.append("6");
        proof { reveal_strlit("6"); assert("6"@ =~= seq![spec_digit_char(6)]); }
    } else if d == 7 {
        out.append("7");
        proof { reveal_strlit("7"); assert("7"@ =~= seq![spec_digit_char(7)]); }
    } else if d == 8 {
        out.append("8");
        proof { reveal_strlit("8"); assert("8"@ =~= seq![spec_digit_char(8)]); }
    } else {
        out.append("9");
        proof { reveal_strlit("9"); assert("9"@ =~= seq![spec_digit_char(9)]); }
    }
}

/// Appends the decimal digits of `n` to `out`.
pub fn append_u32(out: &mut String, n: u32)
    ensures
        final(out)@ == old(out)@ + spec_u32_digits(n as nat),
    decreases n,
{
    if n < 10 {
        append_digit(out, n);
    } else {
        append_u32(out, n / 10);
        append_digit(out, n % 10);
        proof {
            assert(old(out)@ + spec_u32_digits((n / 10) as nat) + seq![
                spec_digit_char((n % 10) as nat),
            ] =~= old(out)@ + spec_u32_digits(n as nat));
        }
    }
}

/// Builds the canonical reference string for the given components.
pub fn format_spec(name_id: &str, mod_id: u32, file_id: Option<u32>) -> (r: ModSpecification)
    ensures
        r.url@ == spec_format(name_id@, mod_id, file_id),
{
    let mut url = String::from_str("https://mod.io/g/drg/m/");
    url.append(name_id);
    url.append("#");
    proof { reveal_strlit("#"); assert("#"@ =~= seq!['#']); }
    append_u32(&mut url, mod_id);
    match file_id {
        None => {
            proof {
                assert(url@ =~= spec_format(name_id@, mod_id, file_id));
            }
        },
        Some(f) => {
            url.append("/");
            proof { reveal_strlit("/"); assert("/"@ =~= seq!['/']); }
            append_u32(&mut url, f);
            proof {
                assert(url@ =~= spec_format(name_id@, mod_id, file_id));
            }
        },
    }
    ModSpecification { url }
}

/// First position of `c` in `s` at or after `from`.
fn find_char(s: &str, from: usize, c: char) -> (r: Option<usize>)
    requires
        from <= s@.len(),
    ensures
        match r {
            Some(j) => from <= j < s@.len() && s@[j as int] == c && forall|t: int|
                from <= t < j ==> s@[t] != c,
            None => forall|t: int| from <= t < s@.len() ==> s@[t] != c,
        },
{
    let n = s.unicode_len();
    let mut j = from;
    while j < n
        invariant
            from <= j <= n,
            n == s@.len(),
            forall|t: int| from <= t < j ==> s@[t] != c,
        decreases n - j,
    {
        if s.get_char(j) == c {
            return Some(j);
        }
        j = j + 1;
    }
    None
}

/// Any scan result that finds the first occurrence agrees with
/// `index_of_first`.
proof fn lemma_scan_is_index_of_first(s: Seq<char>, c: char, r: Option<int>)
    requires
        match r {
            Some(j) => 0 <= j < s.len() && s[j] == c && forall|t: int| 0 <= t < j ==> s[t] != c,
            None => forall|t: int| 0 <= t < s.len() ==> s[t] != c,
        },
    ensures
        s.index_of_first(c) == r,
{
    s.index_of_first_ensures(c);
    match s.index_of_first(c) {
        Some(i) => {
            match r {
                Some(j) => {
                    if i < j {
                        assert(s[i] != c);
                        assert(false);
                    }
                    if j < i {
                        assert(s[j] != c);
                        assert(false);
                    }
                },
                None => {
                    assert(s[i] != c);
                    assert(false);
                },
            }
        },
        None => {
            match r {
                Some(j) => {
                    assert(s.contains(c));
                    assert(false);
                },
                None => {},
            }
        },
    }
}

/// The value of a digit string never shrinks as digits are appended.
pub(crate) proof fn lemma_digits_value_prefix_mono(s: Seq<char>, i: int)
    requires
        0 <= i <= s.len(),
    ensures
        spec_digits_value(s) >= spec_digits_value(s.subrange(0, i)),
    decreases s.len() - i,
{
    if i < s.len() {
        lemma_digits_value_prefix_mono(s, i + 1);
        assert(s.subrange(0, i + 1).drop_last() =~= s.subrange(0, i));
        assert(s.subrange(0, i + 1).last() == s[i]);
        assert(spec_digits_value(s.subrange(0, i + 1)) >= spec_digits_value(s.subrange(0, i)));
    } else {
        assert(s.subrange(0, i) =~= s);
    }
}

/// Parses the digit string `s[from..to]` as a `u32`.
fn parse_u32_range(s: &str, from: usize, to: usize) -> (r: Option<u32>)
    requires
        from <= to <= s@.len(),
    ensures
        r == spec_parse_u32(s@.subrange(from as int, to as int)),
{
    let ghost whole = s@.subrange(from as int, to as int);
    if from == to {
        return None;
    }
    let mut acc: u32 = 0;
    let mut i = from;
    while i < to
        invariant
            from <= i <= to <= s@.len(),
            whole == s@.subrange(from as int, to as int),
            acc == spec_digits_value(s@.subrange(from as int, i as int)),
            forall|t: int| from <= t < i ==> is_digit(#[trigger] s@[t]),
        decreases to - i,
    {
        let c = s.get_char(i);
        let cv = c as u32;
        if cv < 48 || cv > 57 {
            proof {
                assert(!is_digit(whole[i - from]));
                assert(!all_digits(whole));
            }
            return None;
        }
        let d = cv - 48;
        let big: u64 = acc as u64 * 10 + d as u64;
        proof {
            assert(s@.subrange(from as int, i + 1).drop_last() =~= s@.subrange(
                from as int,
                i as int,
            ));
            assert(s@.subrange(from as int, i + 1).last() == s@[i as int]);
            assert(digit_val(s@[i as int]) == d);
        }
        if big > u32::MAX as u64 {
            proof {
                assert(spec_digits_value(s@.subrange(from as int, i + 1)) == big);
                lemma_digits_value_prefix_mono(whole, i + 1 - from);
                assert(whole.subrange(0, i + 1 - from) =~= s@.subrange(from as int, i + 1));
                assert(spec_digits_value(whole) > u32::MAX);
            }
            return None;
        }
        acc = big as u32;
        i = i + 1;
    }
    proof {
        assert(whole =~= s@.subrange(from as int, to as int));
        assert(all_digits(whole));
    }
    Some(acc)
}

/// Parses a canonical reference string into its components; `None` when the
/// string does not match the grammar.
pub fn parse_reference(url: &str) -> (r: Option<ParsedRef>)
    ensures
        match r {
            Some(p) => spec_parse(url@) == Some(parsed_ref_of(p)),
            None => spec_parse(url@) is None,
        },
{
    let prefix = "https://mod.io/g/drg/m/";
    proof { reveal_strlit("https://mod.io/g/drg/m/"); }
    let plen = prefix.unicode_len();
    let n = url.unicode_len();
    if n <= plen {
        return None;
    }
    let mut i: usize = 0;
    while i < plen
        invariant
            0 <= i <= plen,
            plen == spec_prefix().len(),
            plen < n == url@.len(),
            prefix@ == spec_prefix(),
            forall|t: int| 0 <= t < i ==> url@[t] == spec_prefix()[t],
        decreases plen - i,
    {
        if url.get_char(i) != prefix.get_char(i) {
            proof {
                assert(url@.subrange(0, spec_prefix().len() as int)[i as int] != spec_prefix()[i as int]);
            }
            return None;
        }
        i = i + 1;
    }
    proof {
        assert(url@.subrange(0, spec_prefix().len() as int) =~= spec_prefix());
    }
    let ghost rest = url@.subrange(spec_prefix().len() as int, url@.len() as int);

    let hash = find_char(url, plen, '#');
    let slash = find_char(url, plen, '/');
    match hash {
        None => {
            proof {
                assert(forall|t: int| 0 <= t < rest.len() ==> rest[t] == url@[t + plen]);
                lemma_scan_is_index_of_first(rest, '#', None::<int>);
            }
            match slash {
                Some(j) => {
                    proof {
                        assert(rest[j - plen] == '/');
                        assert(!valid_slug(rest));
                    }
                    None
                },
                None => {
                    let slug_str = url.substring_char(plen, n);
                    proof {
                        assert(slug_str@ =~= rest);
                        assert(valid_slug(rest));
                    }
                    Some(ParsedRef { slug: slug_str.to_owned(), mod_id: None, file_id: None })
                },
            }
        },
        Some(h) => {
            proof {
                assert(forall|t: int| 0 <= t < rest.len() ==> rest[t] == url@[t + plen]);
                lemma_scan_is_index_of_first(rest, '#', Some(h - plen as int));
            }
            let ghost slug_seq = rest.subrange(0, h - plen as int);
            let ghost tail = rest.subrange(h + 1 - plen as int, rest.len() as int);
            proof {
                assert(forall|t: int| 0 <= t < slug_seq.len() ==> slug_seq[t] == url@[t + plen]);
                assert(forall|t: int| 0 <= t < tail.len() ==> tail[t] == url@[t + h + 1]);
            }
            if h == plen {
                proof {
                    assert(slug_seq.len() == 0);
                    assert(!valid_slug(slug_seq));
                }
                return None;
            }
            let slug_ok = match slash {
                Some(j) => j > h,
                None => true,
            };
            if !slug_ok {
                proof {
                    let j = slash.unwrap() as int;
                    assert(slug_seq[j - plen] == '/');
                    assert(!valid_slug(slug_seq));
                }
                return None;
            }
            proof {
                assert(forall|t: int| 0 <= t < slug_seq.len() ==> slug_seq[t] != '/');
                assert(valid_slug(slug_seq));
            }
            let slug_str = url.substring_char(plen, h);
            proof {
                assert(slug_str@ =~= slug_seq);
            }
            let tslash = find_char(url, h + 1, '/');
            match tslash {
                None => {
                    proof {
                        lemma_scan_is_index_of_first(tail, '/', None::<int>);
                    }
                    match parse_u32_range(url, h + 1, n) {
                        Some(v) => {
                            proof {
                                assert(url@.subrange(h + 1, n as int) =~= tail);
                            }
                            Some(
                                ParsedRef {
                                    slug: slug_str.to_owned(),
                                    mod_id: Some(v),
                                    file_id: None,
                                },
                            )
                        },
                        None => {
                            proof {
                                assert(url@.subrange(h + 1, n as int) =~= tail);
                            }
                            None
                        },
                    }
                },
                Some(k) => {
                    proof {
                        lemma_scan_is_index_of_first(tail, '/', Some(k - (h + 1) as int));
                    }
                    let ghost ds = tail.subrange(0, k - (h + 1) as int);
                    let ghost fs = tail.subrange(k + 1 - (h + 1) as int, tail.len() as int);
                    proof {
                        assert(url@.subrange(h + 1, k as int) =~= ds);
                        assert(url@.subrange(k + 1, n as int) =~= fs);
                    }
                    let mv = parse_u32_range(url, h + 1, k);
                    let fv = parse_u32_range(url, k + 1, n);
                    match (mv, fv) {
                        (Some(a), Some(b)) => Some(
                            ParsedRef { slug: slug_str.to_owned(), mod_id: Some(a), file_id: Some(b) },
                        ),
                        _ => None,
                    }
                },
            }
        },
    }
}

/// Whether the string contains the preview marker anywhere.
pub open spec fn has_preview_marker(s: Seq<char>) -> bool {
    exists|i: int|
        0 <= i && i + spec_preview_marker().len() <= s.len() && #[trigger] s.subrange(
            i,
            i + spec_preview_marker().len(),
        ) == spec_preview_marker()
}

/// Scans for the preview marker.
pub fn contains_preview_marker(url: &str) -> (r: bool)
    ensures
        r == has_preview_marker(url@),
{
    let marker = "?preview=";
    proof { reveal_strlit("?preview="); }
    let mlen = marker.unicode_len();
    let n = url.unicode_len();
    if n < mlen {
        return false;
    }
    let mut i: usize = 0;
    while i <= n - mlen
        invariant
            0 <= i <= n - mlen + 1,
            mlen == spec_preview_marker().len(),
            mlen <= n == url@.len(),
            marker@ == spec_preview_marker(),
            forall|j: int| 0 <= j < i ==> #[trigger] url@.subrange(
                j,
                j + spec_preview_marker().len(),
            ) != spec_preview_marker(),
        decreases n - i,
    {
        let mut k: usize = 0;
        let mut ok = true;
        while ok && k < mlen
            invariant
                0 <= k <= mlen,
                mlen == spec_preview_marker().len(),
                i + mlen <= n == url@.len(),
                marker@ == spec_preview_marker(),
                ok ==> forall|t: int| 0 <= t < k ==> url@[i + t] == spec_preview_marker()[t],
                !ok ==> k < mlen && url@[i + k] != spec_preview_marker()[k as int],
            decreases mlen - k + (if ok { 1int } else { 0int }),
        {
            if url.get_char(i + k) != marker.get_char(k) {
                ok = false;
            } else {
                k = k + 1;
            }
        }
        if ok {
            proof {
                assert(url@.subrange(i as int, i + spec_preview_marker().len())
                    =~= spec_preview_marker());
            }
            return true;
        }
        proof {
            assert(url@.subrange(i as int, i + spec_preview_marker().len())[k as int]
                != spec_preview_marker()[k as int]);
        }
        i = i + 1;
    }
    false
}

/// Digit strings produced by [`spec_u32_digits`] are digits throughout and
/// stand for the number that produced them.
pub proof fn lemma_u32_digits_value(n: nat)
    ensures
        all_digits(spec_u32_digits(n)),
        spec_digits_value(spec_u32_digits(n)) == n,
        spec_u32_digits(n).len() > 0,
    decreases n,
{
    if n < 10 {
        let s = spec_u32_digits(n);
        assert(s.last() == spec_digit_char(n));
        assert(s.drop_last() =~= Seq::<char>::empty());
        assert(spec_digits_value(Seq::<char>::empty()) == 0);
        assert(digit_val(spec_digit_char(n)) == n);
        assert(is_digit(s[0]));
    } else {
        lemma_u32_digits_value(n / 10);
        lemma_fundamental_div_mod(n as int, 10);
        let s = spec_u32_digits(n);
        assert(s.drop_last() =~= spec_u32_digits(n / 10));
        assert(s.last() == spec_digit_char(n % 10));
        assert(digit_val(spec_digit_char(n % 10)) == n % 10);
        assert(spec_digits_value(s.drop_last()) == n / 10);
        assert(spec_digits_value(s) == (n / 10) * 10 + n % 10);
        assert(n == 10 * (n / 10) + n % 10);
        assert(forall|i: int| 0 <= i < s.len() - 1 ==> is_digit(#[trigger] s[i]));
        assert(is_digit(s[s.len() - 1]));
    }
}

/// Round trip: formatting components that satisfy the grammar and parsing
/// the result yields the same components.
pub proof fn lemma_parse_format_round_trip(slug: Seq<char>, mod_id: u32, file_id: Option<u32>)
    requires
        valid_slug(slug),
    ensures
        spec_parse(spec_format(slug, mod_id, file_id)) == Some(
            (slug, Some(mod_id), file_id),
        ),
{
    reveal_strlit("https://mod.io/g/drg/m/");
    let p = spec_prefix();
    let md = spec_u32_digits(mod_id as nat);
    let fd = match file_id {
        None => seq![],
        Some(f) => seq!['/'] + spec_u32_digits(f as nat),
    };
    let s = spec_format(slug, mod_id, file_id);
    lemma_u32_digits_value(mod_id as nat);
    assert(s =~= p + slug + seq!['#'] + md + fd);
    assert(s.len() > p.len());
    assert(s.subrange(0, p.len() as int) =~= p);
    let rest = s.subrange(p.len() as int, s.len() as int);
    assert(rest =~= slug + seq!['#'] + md + fd);
    let h = slug.len() as int;
    assert(rest[h] == '#');
    assert(forall|t: int| 0 <= t < h ==> rest[t] == slug[t]);
    lemma_scan_is_index_of_first(rest, '#', Some(h));
    assert(rest.subrange(0, h) =~= slug);
    let tail = rest.subrange(h + 1, rest.len() as int);
    assert(tail =~= md + fd);
    match file_id {
        None => {
            assert(tail =~= md);
            assert(forall|t: int| 0 <= t < tail.len() ==> tail[t] != '/') by {
                assert(forall|t: int| 0 <= t < md.len() ==> is_digit(#[trigger] md[t]));
            }
            lemma_scan_is_index_of_first(tail, '/', None::<int>);
            assert(spec_parse_u32(tail) == Some(mod_id));
        },
        Some(f) => {
            lemma_u32_digits_value(f as nat);
            let k = md.len() as int;
            assert(tail[k] == '/');
            assert(forall|t: int| 0 <= t < k ==> is_digit(#[trigger] md[t]) && tail[t] == md[t]);
            lemma_scan_is_index_of_first(tail, '/', Some(k));
            assert(tail.subrange(0, k) =~= md);
            assert(tail.subrange(k + 1, tail.len() as int) =~= spec_u32_digits(f as nat));
            assert(spec_parse_u32(md) == Some(mod_id));
            assert(spec_parse_u32(spec_u32_digits(f as nat)) == Some(f));
        },
    }
}

} // verus!
