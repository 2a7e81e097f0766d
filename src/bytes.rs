//! Byte-level helpers shared by the HTTP and WebSocket layers.

use vstd::prelude::*;
use vstd::utf8::*;
use vstd::string::StrSliceExecFns;

verus! {

broadcast use vstd::std_specs::vec::group_vec_axioms;

/// Appends every byte of `b` to `out`.
pub fn append_bytes(out: &mut Vec<u8>, b: &[u8])
    ensures
        final(out)@ == old(out)@ + b@,
{
    let ghost start = out@;
    let mut i: usize = 0;
    while i < b.len()
        invariant
            i <= b@.len(),
            out@ == start + b@.subrange(0, i as int),
        decreases b@.len() - i,
    {
        out.push(b[i]);
        i = i + 1;
        assert(b@.subrange(0, i as int) == b@.subrange(0, i - 1).push(b@[i - 1]));
    }
    assert(b@.subrange(0, b@.len() as int) == b@);
}

/// Relies on `String::from_utf8`, which succeeds exactly on well-formed UTF-8
/// and then holds the characters that the bytes encode.
#[verifier::external_body]
pub(crate) fn string_from_utf8(b: Vec<u8>) -> (r: Option<String>)
    ensures
        r is Some <==> valid_utf8(b@),
        r is Some ==> r->0@ == decode_utf8(b@),
{
    String::from_utf8(b).ok()
}

} // verus!

verus! {

/// Index of the first occurrence of `pat` in `b` at or after `from`.
pub open spec fn find_pat(b: Seq<u8>, pat: Seq<u8>, from: nat) -> Option<nat>
    decreases b.len() + 1 - from,
{
    if from + pat.len() > b.len() {
        None
    } else if b.subrange(from as int, from + pat.len() as int) == pat {
        Some(from)
    } else {
        find_pat(b, pat, from + 1)
    }
}

pub open spec fn crlf() -> Seq<u8> {
    seq![0x0du8, 0x0au8]
}

pub open spec fn crlf2() -> Seq<u8> {
    seq![0x0du8, 0x0au8, 0x0du8, 0x0au8]
}

/// A found occurrence stays the first one when more bytes are appended.
pub proof fn lemma_find_pat_extend(b: Seq<u8>, c: Seq<u8>, pat: Seq<u8>, from: nat)
    requires
        find_pat(b, pat, from) is Some,
    ensures
        find_pat(b + c, pat, from) == find_pat(b, pat, from),
    decreases b.len() + 1 - from,
{
    assert((b + c).subrange(from as int, from + pat.len() as int) == b.subrange(from as int, from + pat.len() as int));
    if b.subrange(from as int, from + pat.len() as int) != pat {
        lemma_find_pat_extend(b, c, pat, from + 1);
    }
}

/// What `find_pat` returns is an occurrence, and none comes before it.
pub proof fn lemma_find_pat_found(b: Seq<u8>, pat: Seq<u8>, from: nat)
    ensures
        find_pat(b, pat, from) matches Some(i) ==> from <= i && i + pat.len() <= b.len()
            && b.subrange(i as int, i + pat.len() as int) == pat,
        forall|j: nat| from <= j && (find_pat(b, pat, from) is None || j < find_pat(b, pat, from)->0)
            && j + pat.len() <= b.len() ==> #[trigger] b.subrange(j as int, j + pat.len() as int) != pat,
    decreases b.len() + 1 - from,
{
    if from + pat.len() <= b.len() && b.subrange(from as int, from + pat.len() as int) != pat {
        lemma_find_pat_found(b, pat, from + 1);
    }
}

/// Finds the first occurrence of `pat` in `b` at or after `from`.
pub fn find_pattern(b: &[u8], pat: &[u8], from: usize) -> (r: Option<usize>)
    ensures
        r matches Some(i) ==> find_pat(b@, pat@, from as nat) == Some(i as nat),
        r is None ==> find_pat(b@, pat@, from as nat) is None,
{
    if b.len() < pat.len() {
        proof {
            if from + pat@.len() <= b@.len() {
                assert(false);
            }
        }
        return None;
    }
    let last = b.len() - pat.len();
    let bl = b.len();
    let mut i = from;
    while i <= last
        invariant
            bl == b@.len(),
            last == b@.len() - pat@.len(),
            from <= i,
            find_pat(b@, pat@, from as nat) == find_pat(b@, pat@, i as nat),
        decreases last + 1 - i,
    {
        let mut j: usize = 0;
        let mut same = true;
        while j < pat.len()
            invariant
                bl == b@.len(),
                i <= last,
                last == b@.len() - pat@.len(),
                j <= pat@.len(),
                same == (forall|k: int| 0 <= k < j ==> b@[i + k] == pat@[k]),
            decreases pat@.len() - j,
        {
            if b[i + j] != pat[j] {
                same = false;
            }
            j = j + 1;
        }
        proof {
            let w = b@.subrange(i as int, i + pat@.len());
            if same {
                assert(w =~= pat@);
            } else if w == pat@ {
                assert(forall|k: int| 0 <= k < pat@.len() ==> b@[i + k] == #[trigger] w[k]);
            }
        }
        if same {
            return Some(i);
        }
        if i == last {
            assert(find_pat(b@, pat@, (i + 1) as nat) is None);
            return None;
        }
        i = i + 1;
    }
    None
}

/// Unicode White_Space, the characters that `char::is_whitespace` accepts
/// and `str::trim` removes.
pub open spec fn is_white_space(c: char) -> bool {
    let u = c as u32;
    (0x09 <= u && u <= 0x0d) || u == 0x20 || u == 0x85 || u == 0xa0 || u == 0x1680
        || (0x2000 <= u && u <= 0x200a) || u == 0x2028 || u == 0x2029 || u == 0x202f
        || u == 0x205f || u == 0x3000
}

/// Whether `c` is Unicode White_Space.
pub fn white_space(c: char) -> (r: bool)
    ensures
        r == is_white_space(c),
{
    let u = c as u32;
    (0x09 <= u && u <= 0x0d) || u == 0x20 || u == 0x85 || u == 0xa0 || u == 0x1680
        || (0x2000 <= u && u <= 0x200a) || u == 0x2028 || u == 0x2029 || u == 0x202f
        || u == 0x205f || u == 0x3000
}

pub open spec fn trim_start(s: Seq<char>) -> Seq<char>
    decreases s.len(),
{
    if s.len() > 0 && is_white_space(s[0]) {
        trim_start(s.drop_first())
    } else {
        s
    }
}

pub open spec fn trim_end(s: Seq<char>) -> Seq<char>
    decreases s.len(),
{
    if s.len() > 0 && is_white_space(s.last()) {
        trim_end(s.drop_last())
    } else {
        s
    }
}

/// `s` without its leading and trailing white space.
pub open spec fn trim(s: Seq<char>) -> Seq<char> {
    trim_end(trim_start(s))
}

/// Removes leading and trailing white space, as `str::trim` does.
pub fn trim_str(s: &str) -> (r: &str)
    ensures
        r@ == trim(s@),
{
    let n = s.unicode_len();
    let mut i: usize = 0;
    assert(s@.subrange(0, s@.len() as int) == s@);
    while i < n && white_space(s.get_char(i))
        invariant
            n == s@.len(),
            i <= n,
            trim_start(s@) == trim_start(s@.subrange(i as int, n as int)),
        decreases n - i,
    {
        assert(s@.subrange(i as int, n as int).drop_first() == s@.subrange(i + 1, n as int));
        i = i + 1;
    }
    let mut j: usize = n;
    assert(s@.subrange(i as int, j as int) == trim_start(s@));
    while j > i && white_space(s.get_char(j - 1))
        invariant
            n == s@.len(),
            i <= j <= n,
            trim(s@) == trim_end(s@.subrange(i as int, j as int)),
        decreases j,
    {
        assert(s@.subrange(i as int, j as int).drop_last() == s@.subrange(i as int, j - 1));
        j = j - 1;
    }
    s.substring_char(i, j)
}

} // verus!

verus! {

/// Whether two byte strings are equal.
pub fn bytes_eq(a: &[u8], b: &[u8]) -> (r: bool)
    ensures
        r == (a@ == b@),
{
    if a.len() != b.len() {
        return false;
    }
    let mut i: usize = 0;
    while i < a.len()
        invariant
            a@.len() == b@.len(),
            i <= a@.len(),
            forall|k: int| 0 <= k < i ==> a@[k] == b@[k],
        decreases a@.len() - i,
    {
        if a[i] != b[i] {
            return false;
        }
        i = i + 1;
    }
    assert(a@ =~= b@);
    true
}

} // verus!

verus! {

/// The result of lowercasing a string the way `str::to_lowercase` does.
pub uninterp spec fn lower_of(s: Seq<char>) -> Seq<char>;

/// Relies on `str::to_lowercase`, whose result depends on the characters alone.
#[verifier::external_body]
pub(crate) fn to_lowercase(s: &str) -> (r: String)
    ensures
        r@ == lower_of(s@),
{
    s.to_lowercase()
}

pub open spec fn is_digit(c: u8) -> bool {
    0x30 <= c <= 0x39
}

/// The number that a string of decimal digits spells.
pub open spec fn digits_value(s: Seq<u8>) -> nat
    decreases s.len(),
{
    if s.len() == 0 {
        0
    } else {
        digits_value(s.drop_last()) * 10 + (s.last() - 0x30) as nat
    }
}

/// A decimal `usize` as `str::parse` reads it: an optional `+`, then one or
/// more digits, and a value that fits.
/// The digits after an optional leading `+`.
pub open spec fn unsigned_part(s: Seq<u8>) -> Seq<u8> {
    if s.len() > 0 && s[0] == 0x2b {
        s.drop_first()
    } else {
        s
    }
}

pub open spec fn all_digits(d: Seq<u8>) -> bool {
    forall|i: int| 0 <= i < d.len() ==> is_digit(#[trigger] d[i])
}

/// A decimal `usize` as `str::parse` reads it: an optional `+`, then one or
/// more digits, and a value that fits.
pub open spec fn decimal_spec(s: Seq<u8>) -> Option<nat> {
    let d = unsigned_part(s);
    if d.len() > 0 && all_digits(d) && digits_value(d) <= usize::MAX {
        Some(digits_value(d))
    } else {
        None
    }
}

proof fn lemma_digits_grow(s: Seq<u8>, i: nat, j: nat)
    requires
        i <= j <= s.len(),
        forall|k: int| 0 <= k < s.len() ==> is_digit(#[trigger] s[k]),
    ensures
        digits_value(s.subrange(0, i as int)) <= digits_value(s.subrange(0, j as int)),
    decreases j - i,
{
    if i < j {
        lemma_digits_grow(s, i, (j - 1) as nat);
        assert(s.subrange(0, j as int).drop_last() =~= s.subrange(0, j - 1));
    }
}

/// Reads a decimal `usize`.
pub fn parse_decimal(s: &[u8]) -> (r: Option<usize>)
    ensures
        r matches Some(n) ==> decimal_spec(s@) == Some(n as nat),
        r is None ==> decimal_spec(s@) is None,
{
    let d = if s.len() > 0 && s[0] == 0x2b { vstd::slice::slice_subrange(s, 1, s.len()) } else { s };
    let ghost dd = unsigned_part(s@);
    assert(d@ =~= dd);
    if d.len() == 0 {
        return None;
    }
    let mut i: usize = 0;
    while i < d.len()
        invariant
            i <= d@.len(),
            d@ == dd,
            dd == unsigned_part(s@),
            forall|k: int| 0 <= k < i ==> is_digit(#[trigger] d@[k]),
        decreases d@.len() - i,
    {
        if d[i] < 0x30 || d[i] > 0x39 {
            assert(!is_digit(dd[i as int]));
            return None;
        }
        i = i + 1;
    }
    let mut acc: usize = 0;
    let mut i: usize = 0;
    assert(d@.subrange(0, 0) =~= Seq::<u8>::empty());
    while i < d.len()
        invariant
            i <= d@.len(),
            d@ == dd,
            dd == unsigned_part(s@),
            forall|k: int| 0 <= k < d@.len() ==> is_digit(#[trigger] d@[k]),
            acc as nat == digits_value(d@.subrange(0, i as int)),
        decreases d@.len() - i,
    {
        let digit = (d[i] - 0x30) as usize;
        assert(d@.subrange(0, i + 1).drop_last() =~= d@.subrange(0, i as int));
        if acc > (usize::MAX - digit) / 10 {
            proof {
                let m = usize::MAX as int;
                let a = acc as int;
                let g = digit as int;
                assert(a * 10 + g > m) by (nonlinear_arith)
                    requires a > (m - g) / 10, 0 <= g <= 9, m > 9;
                lemma_digits_grow(d@, (i + 1) as nat, d@.len());
                assert(d@.subrange(0, d@.len() as int) =~= d@);
            }
            return None;
        }
        acc = acc * 10 + digit;
        i = i + 1;
    }
    assert(d@.subrange(0, d@.len() as int) =~= d@);
    Some(acc)
}

} // verus!

verus! {

/// What `String::from_utf8_lossy` makes of a byte string.
pub uninterp spec fn lossy_of(b: Seq<u8>) -> Seq<char>;

/// Relies on `String::from_utf8_lossy`: invalid sequences become U+FFFD, and
/// well-formed UTF-8 is taken as it is.
#[verifier::external_body]
pub(crate) fn utf8_lossy(b: &[u8]) -> (r: String)
    ensures
        r@ == lossy_of(b@),
        valid_utf8(b@) ==> r@ == decode_utf8(b@),
{
    String::from_utf8_lossy(b).into_owned()
}

pub open spec fn digit_char(d: nat) -> char {
    ((d % 10) + 48) as char
}

/// The decimal digits of a number, without sign or leading zeros.
pub open spec fn decimal_chars(n: nat) -> Seq<char>
    decreases n,
{
    if n < 10 {
        seq![digit_char(n)]
    } else {
        decimal_chars(n / 10).push(digit_char(n % 10))
    }
}

/// The ASCII bytes of the decimal digits of a number.
pub open spec fn decimal_bytes(n: nat) -> Seq<u8>
    decreases n,
{
    if n < 10 {
        seq![((n % 10) + 48) as u8]
    } else {
        decimal_bytes(n / 10).push(((n % 10) + 48) as u8)
    }
}

proof fn lemma_decimal_ascii(n: nat)
    ensures
        is_ascii_chars(decimal_chars(n)),
        decimal_bytes(n).len() == decimal_chars(n).len(),
        forall|i: int| 0 <= i < decimal_chars(n).len() ==> #[trigger] decimal_bytes(n)[i] == decimal_chars(n)[i] as u8,
    decreases n,
{
    if n >= 10 {
        lemma_decimal_ascii(n / 10);
    }
    let d = n % 10;
    assert(((d + 48) as char) as u8 == (d + 48) as u8);
}

fn push_decimal(out: &mut Vec<u8>, n: usize)
    ensures
        final(out)@ == old(out)@ + decimal_bytes(n as nat),
    decreases n,
{
    if n >= 10 {
        push_decimal(out, n / 10);
    }
    out.push((n % 10 + 48) as u8);
    assert(decimal_bytes(n as nat) =~= if n < 10 {
        seq![((n % 10) + 48) as u8]
    } else {
        decimal_bytes((n / 10) as nat).push(((n % 10) + 48) as u8)
    });
}

/// Writes a number in decimal, as `ToString` for `usize` does.
pub fn usize_to_string(n: usize) -> (r: String)
    ensures
        r@ == decimal_chars(n as nat),
{
    let mut b: Vec<u8> = Vec::new();
    push_decimal(&mut b, n);
    proof {
        let c = decimal_chars(n as nat);
        lemma_decimal_ascii(n as nat);
        is_ascii_chars_encode_utf8(c);
        assert(b@ =~= encode_utf8(c));
        encode_utf8_valid_utf8(c);
        encode_utf8_decode_utf8(c);
    }
    match string_from_utf8(b) {
        Some(s) => s,
        None => String::new(),
    }
}

} // verus!

verus! {

/// The pieces of `s` between occurrences of `pat`.
pub open spec fn split_pat(s: Seq<u8>, pat: Seq<u8>) -> Seq<Seq<u8>>
    decreases s.len(),
{
    match find_pat(s, pat, 0) {
        Some(i) => if pat.len() > 0 && i + pat.len() <= s.len() {
            seq![s.subrange(0, i as int)] + split_pat(s.subrange(i + pat.len() as int, s.len() as int), pat)
        } else {
            seq![s]
        },
        None => seq![s],
    }
}

/// Splits `s` at each occurrence of `pat`.
pub fn split_bytes(s: &[u8], pat: &[u8]) -> (r: Vec<Vec<u8>>)
    requires
        pat@.len() > 0,
    ensures
        r@.map_values(|l: Vec<u8>| l@) == split_pat(s@, pat@),
{
    let mut pieces: Vec<Vec<u8>> = Vec::new();
    let mut rest = s;
    loop
        invariant
            pat@.len() > 0,
            pieces@.map_values(|l: Vec<u8>| l@) + split_pat(rest@, pat@) == split_pat(s@, pat@),
        decreases rest@.len(),
    {
        let rl = rest.len();
        proof {
            lemma_find_pat_found(rest@, pat@, 0);
        }
        match find_pattern(rest, pat, 0) {
            Some(i) => {
                let ghost old_pieces = pieces@.map_values(|l: Vec<u8>| l@);
                let ghost old_rest = rest@;
                pieces.push(vstd::slice::slice_to_vec(vstd::slice::slice_subrange(rest, 0, i)));
                rest = vstd::slice::slice_subrange(rest, i + pat.len(), rest.len());
                assert(pieces@.map_values(|l: Vec<u8>| l@) =~= old_pieces.push(old_rest.subrange(0, i as int)));
                assert(split_pat(old_rest, pat@) == seq![old_rest.subrange(0, i as int)] + split_pat(rest@, pat@));
                assert(old_pieces + split_pat(old_rest, pat@) =~= pieces@.map_values(|l: Vec<u8>| l@) + split_pat(rest@, pat@));
            },
            None => {
                let ghost old_pieces = pieces@.map_values(|l: Vec<u8>| l@);
                pieces.push(vstd::slice::slice_to_vec(rest));
                assert(pieces@.map_values(|l: Vec<u8>| l@) =~= old_pieces.push(rest@));
                assert(old_pieces + split_pat(rest@, pat@) =~= pieces@.map_values(|l: Vec<u8>| l@));
                return pieces;
            },
        }
    }
}

} // verus!
