//! Text primitives shared by the rest of the library: building strings,
//! decimal and hexadecimal rendering, percent-encoding, ASCII case mapping,
//! substring search and the lexicographic order used by every sort.
use vstd::prelude::*;
use vstd::string::StringSliceAdditionalSpecFns;

verus! {

// ── Names for results of std text functions ─────────────────

/// The characters that `char::to_uppercase` yields for `c`.
pub uninterp spec fn char_upper(c: char) -> Seq<char>;

/// The string that `str::to_lowercase` returns for `s`.
pub uninterp spec fn lowercase_text(s: Seq<char>) -> Seq<char>;

/// Whether a character has Unicode's `White_Space` property.
pub open spec fn is_white_space(c: char) -> bool {
    let u = c as u32;
    ||| 0x09 <= u <= 0x0D
    ||| u == 0x20
    ||| u == 0x85
    ||| u == 0xA0
    ||| u == 0x1680
    ||| 0x2000 <= u <= 0x200A
    ||| u == 0x2028
    ||| u == 0x2029
    ||| u == 0x202F
    ||| u == 0x205F
    ||| u == 0x3000
}

/// A text without its leading white space.
pub open spec fn trim_start_text(s: Seq<char>) -> Seq<char>
    decreases s.len(),
{
    if s.len() > 0 && is_white_space(s[0]) {
        trim_start_text(s.drop_first())
    } else {
        s
    }
}

/// A text without its trailing white space.
pub open spec fn trim_end_text(s: Seq<char>) -> Seq<char>
    decreases s.len(),
{
    if s.len() > 0 && is_white_space(s.last()) {
        trim_end_text(s.drop_last())
    } else {
        s
    }
}

/// A text without its leading and trailing white space, as `str::trim`
/// returns it.
pub open spec fn trim_text(s: Seq<char>) -> Seq<char> {
    trim_end_text(trim_start_text(s))
}

// ── Trusted calls into std ──────────────────────────────────

/// Appends one character to a string.
///
/// Trusted: `String::push` appends the character at the end of the string.
#[verifier::external_body]
pub fn push_char(s: &mut String, c: char)
    ensures
        final(s)@ == old(s)@.push(c),
{
    s.push(c);
}

/// The uppercase mapping of one character, as a string.
///
/// Trusted: `char::to_uppercase` yields one or more characters; for an ASCII
/// lowercase letter it yields the matching ASCII capital, and any other ASCII
/// character maps to itself. Which characters it yields for other input is
/// left to the name `char_upper`.
#[verifier::external_body]
pub fn upper_char(c: char) -> (r: String)
    ensures
        r@ == char_upper(c),
        r@.len() >= 1,
        is_ascii_lower(c) ==> r@ == seq![ascii_upper_char(c)],
        (c as u32) < 128 && !is_ascii_lower(c) ==> r@ == seq![c],
{
    c.to_uppercase().to_string()
}

/// The lowercase mapping of a string.
///
/// Trusted: `str::to_lowercase`; its result is a function of the argument
/// alone, named `lowercase_text`. Nothing more of the Unicode mapping is stated.
#[verifier::external_body]
pub fn lowercase(s: &str) -> (r: String)
    ensures
        r@ == lowercase_text(s@),
{
    s.to_lowercase()
}

/// A string with leading and trailing whitespace removed.
///
/// Trusted: `str::trim` removes leading and trailing characters with the
/// Unicode `White_Space` property, as its documentation says.
#[verifier::external_body]
pub fn trim(s: &str) -> (r: &str)
    ensures
        r@ == trim_text(s@),
{
    s.trim()
}

// ── Conversions between strings and character vectors ───────

/// The characters of a string slice, collected into a vector.
pub fn chars_of(s: &str) -> (v: Vec<char>)
    ensures
        v@ == s@,
{
    let mut v: Vec<char> = Vec::new();
    for c in it: s.chars()
        invariant
            v@ == it.seq().take(it.index() as int),
            it.seq() == s@,
    {
        v.push(c);
    }
    v
}

/// Appends every character of `v` to `s`.
pub fn push_chars(s: &mut String, v: &Vec<char>)
    ensures
        final(s)@ == old(s)@ + v@,
{
    let ghost start = s@;
    let mut i: usize = 0;
    while i < v.len()
        invariant
            i <= v.len(),
            s@ == start + v@.take(i as int),
        decreases v.len() - i,
    {
        push_char(s, v[i]);
        assert(start + v@.take(i as int) + seq![v@[i as int]] =~= start + v@.take(i + 1));
        i = i + 1;
    }
    assert(v@.take(v.len() as int) =~= v@);
}

/// Appends every character of a string slice to `s`.
pub fn push_str(s: &mut String, t: &str)
    ensures
        final(s)@ == old(s)@ + t@,
{
    let v = chars_of(t);
    push_chars(s, &v);
}

/// Builds a string from a sequence of characters.
pub fn string_of(v: &Vec<char>) -> (s: String)
    ensures
        s@ == v@,
{
    let mut s = String::new();
    push_chars(&mut s, v);
    assert(Seq::<char>::empty() + v@ =~= v@);
    s
}

/// An owned copy of a string slice.
pub fn owned(t: &str) -> (s: String)
    ensures
        s@ == t@,
{
    let mut s = String::new();
    push_str(&mut s, t);
    assert(Seq::<char>::empty() + t@ =~= t@);
    s
}

/// Concatenation of two string slices.
pub fn concat2(a: &str, b: &str) -> (s: String)
    ensures
        s@ == a@ + b@,
{
    let mut s = owned(a);
    push_str(&mut s, b);
    s
}

/// Concatenation of three string slices.
pub fn concat3(a: &str, b: &str, c: &str) -> (s: String)
    ensures
        s@ == a@ + b@ + c@,
{
    let mut s = concat2(a, b);
    push_str(&mut s, c);
    s
}

/// Whether two string slices hold the same characters.
pub fn text_eq(a: &str, b: &str) -> (r: bool)
    ensures
        r == (a@ == b@),
{
    let va = chars_of(a);
    let vb = chars_of(b);
    chars_eq(&va, &vb)
}

/// Whether two character vectors are equal.
pub fn chars_eq(a: &Vec<char>, b: &Vec<char>) -> (r: bool)
    ensures
        r == (a@ == b@),
{
    if a.len() != b.len() {
        return false;
    }
    let mut i: usize = 0;
    while i < a.len()
        invariant
            a.len() == b.len(),
            i <= a.len(),
            forall|k: int| 0 <= k < i ==> a@[k] == b@[k],
        decreases a.len() - i,
    {
        if a[i] != b[i] {
            return false;
        }
        i = i + 1;
    }
    assert(a@ =~= b@);
    true
}

/// Copy of an optional string.
pub fn clone_opt(s: &Option<String>) -> (r: Option<String>)
    ensures
        r == *s,
{
    match s {
        Some(x) => Some(x.clone()),
        None => None,
    }
}

/// The view of an optional string.
pub open spec fn opt_view(s: Option<String>) -> Option<Seq<char>> {
    match s {
        Some(x) => Some(x@),
        None => None,
    }
}

/// The texts of a list of strings.
pub open spec fn string_views(s: Seq<String>) -> Seq<Seq<char>> {
    s.map_values(|x: String| x@)
}

/// `Some(text)` when `text` is non-empty, `None` otherwise.
pub open spec fn non_empty(s: Option<String>) -> Option<Seq<char>> {
    match s {
        Some(x) => if x@.len() > 0 { Some(x@) } else { None },
        None => None,
    }
}

// ── Decimal and hexadecimal digits ─────────────────────────

/// The character for a decimal digit.
pub open spec fn digit_char(d: nat) -> char {
    (48 + d) as char
}

/// The decimal rendering of a natural number, as `Display` prints it.
pub open spec fn decimal(n: nat) -> Seq<char>
    decreases n,
{
    if n < 10 {
        seq![digit_char(n)]
    } else {
        decimal(n / 10).push(digit_char(n % 10))
    }
}

proof fn lemma_decimal_len(n: nat)
    ensures
        decimal(n).len() >= 1,
        n >= 10 ==> decimal(n).len() >= 2,
    decreases n,
{
    if n >= 10 {
        lemma_decimal_len(n / 10);
    }
}

/// Different numbers have different decimal renderings.
pub proof fn lemma_decimal_injective(a: nat, b: nat)
    requires
        decimal(a) == decimal(b),
    ensures
        a == b,
    decreases a,
{
    lemma_decimal_len(a);
    lemma_decimal_len(b);
    if a < 10 && b < 10 {
        assert(decimal(a)[0] == digit_char(a));
        assert(decimal(b)[0] == digit_char(b));
        assert(digit_char(a) as int == 48 + a);
        assert(digit_char(b) as int == 48 + b);
    } else if a >= 10 && b >= 10 {
        let da = decimal(a / 10);
        let db = decimal(b / 10);
        assert(decimal(a).drop_last() =~= da);
        assert(decimal(b).drop_last() =~= db);
        lemma_decimal_injective(a / 10, b / 10);
        assert(decimal(a).last() == digit_char(a % 10));
        assert(decimal(b).last() == digit_char(b % 10));
        assert(digit_char(a % 10) as int == 48 + a % 10);
        assert(digit_char(b % 10) as int == 48 + b % 10);
    }
}

fn digit(d: u64) -> (c: char)
    requires
        d < 10,
    ensures
        c == digit_char(d as nat),
{
    let b: u8 = 48u8 + (d as u8);
    b as char
}

/// The decimal rendering of an unsigned integer.
pub fn decimal_string(n: u64) -> (s: String)
    ensures
        s@ == decimal(n as nat),
{
    // digits in reverse order
    let mut rev: Vec<char> = Vec::new();
    let mut m: u64 = n;
    let ghost mut tail: Seq<char> = Seq::empty();
    loop
        invariant_except_break
            decimal(n as nat) == decimal(m as nat) + tail,
        invariant
            rev@.len() == tail.len(),
            forall|k: int| 0 <= k < tail.len() ==> rev@[k] == tail[tail.len() - 1 - k],
        ensures
            decimal(n as nat) =~= tail,
        decreases m,
    {
        if m < 10 {
            rev.push(digit(m));
            proof {
                assert(decimal(m as nat) == seq![digit_char(m as nat)]);
                tail = seq![digit_char(m as nat)] + tail;
                assert(decimal(n as nat) =~= tail);
            }
            break;
        }
        let d = m % 10;
        rev.push(digit(d));
        proof {
            let q = (m / 10) as nat;
            assert(decimal(m as nat) == decimal(q).push(digit_char((m % 10) as nat)));
            assert(decimal(q).push(digit_char((m % 10) as nat)) + tail
                =~= decimal(q) + (seq![digit_char((m % 10) as nat)] + tail));
            tail = seq![digit_char((m % 10) as nat)] + tail;
        }
        m = m / 10;
    }
    assert(decimal(n as nat) =~= tail);
    let mut s = String::new();
    let mut i: usize = rev.len();
    while i > 0
        invariant
            i <= rev.len(),
            rev@.len() == tail.len(),
            forall|k: int| 0 <= k < tail.len() ==> rev@[k] == tail[tail.len() - 1 - k],
            s@ == tail.take(rev.len() - i),
        decreases i,
    {
        i = i - 1;
        push_char(&mut s, rev[i]);
        assert(tail.take(rev.len() - i - 1).push(tail[rev.len() - i - 1]) =~= tail.take(
            rev.len() - i,
        ));
    }
    assert(tail.take(rev.len() as int) =~= tail);
    s
}

/// The character for a hexadecimal digit, in upper case.
pub open spec fn hex_char(d: nat) -> char {
    if d < 10 {
        (48 + d) as char
    } else {
        (55 + d) as char
    }
}

fn hex_digit(d: u8) -> (c: char)
    requires
        d < 16,
    ensures
        c == hex_char(d as nat),
{
    if d < 10 {
        (48u8 + d) as char
    } else {
        (55u8 + d) as char
    }
}

/// Two upper-case hexadecimal digits of a byte (as `{:02X}` prints it).
pub open spec fn hex_byte(b: u8) -> Seq<char> {
    seq![hex_char((b / 16) as nat), hex_char((b % 16) as nat)]
}

// ── Percent-encoding ────────────────────────────────────────

/// Whether a byte is written as-is by the URI encoders: ASCII letters,
/// digits, `-`, `_`, `.`, `~`, and `/` where `keep_slash` holds.
pub open spec fn is_unreserved(b: u8, keep_slash: bool) -> bool {
    ||| 65 <= b <= 90
    ||| 97 <= b <= 122
    ||| 48 <= b <= 57
    ||| b == 45
    ||| b == 95
    ||| b == 46
    ||| b == 126
    ||| keep_slash && b == 47
}

/// The encoding of one byte: itself, or `%` and two hexadecimal digits.
pub open spec fn encode_byte(b: u8, keep_slash: bool) -> Seq<char> {
    if is_unreserved(b, keep_slash) {
        seq![b as char]
    } else {
        seq!['%'].add(hex_byte(b))
    }
}

/// The percent-encoding of a byte sequence.
pub open spec fn percent_encoding(bytes: Seq<u8>, keep_slash: bool) -> Seq<char>
    decreases bytes.len(),
{
    if bytes.len() == 0 {
        Seq::empty()
    } else {
        percent_encoding(bytes.drop_last(), keep_slash) + encode_byte(bytes.last(), keep_slash)
    }
}

/// Whether every character of an encoding is an unreserved ASCII character
/// or part of a `%XX` escape.
pub open spec fn is_encoded_char(c: char, keep_slash: bool) -> bool {
    (c as u32) < 128 && (is_unreserved(c as u8, keep_slash) || c == '%')
}

proof fn lemma_encoding_chars(bytes: Seq<u8>, keep_slash: bool)
    ensures
        forall|k: int|
            0 <= k < percent_encoding(bytes, keep_slash).len() ==> is_encoded_char(
                #[trigger] percent_encoding(bytes, keep_slash)[k],
                keep_slash,
            ),
    decreases bytes.len(),
{
    if bytes.len() > 0 {
        lemma_encoding_chars(bytes.drop_last(), keep_slash);
        let b = bytes.last();
        let hi = (b / 16) as nat;
        let lo = (b % 16) as nat;
        assert(hi < 16 && lo < 16);
        let pre = percent_encoding(bytes.drop_last(), keep_slash);
        let e = encode_byte(b, keep_slash);
        assert forall|k: int| 0 <= k < e.len() implies is_encoded_char(#[trigger] e[k], keep_slash) by {
            if !is_unreserved(b, keep_slash) {
                if k == 1 {
                    assert(e[k] == hex_char(hi));
                } else if k == 2 {
                    assert(e[k] == hex_char(lo));
                }
            }
        }
        assert forall|k: int|
            0 <= k < percent_encoding(bytes, keep_slash).len() implies is_encoded_char(
                #[trigger] percent_encoding(bytes, keep_slash)[k],
                keep_slash,
            ) by {
            if k < pre.len() {
                assert(percent_encoding(bytes, keep_slash)[k] == pre[k]);
            } else {
                assert(percent_encoding(bytes, keep_slash)[k] == e[k - pre.len()]);
            }
        }
    }
}

// ── Decoding ────────────────────────────────────────────────

/// The value of a hexadecimal digit (either case).
pub open spec fn hex_value(c: char) -> int {
    if '0' <= c && c <= '9' {
        c as int - 48
    } else if 'A' <= c && c <= 'F' {
        c as int - 55
    } else if 'a' <= c && c <= 'f' {
        c as int - 87
    } else {
        0
    }
}

/// Percent-decoding of an encoded text into bytes: a `%` with two more
/// characters is the byte their hexadecimal digits give, any other
/// character is its own byte.
pub open spec fn percent_decoding(s: Seq<char>) -> Seq<u8>
    decreases s.len(),
{
    if s.len() == 0 {
        Seq::empty()
    } else if s[0] == '%' && s.len() >= 3 {
        seq![(hex_value(s[1]) * 16 + hex_value(s[2])) as u8] + percent_decoding(s.skip(3))
    } else {
        seq![s[0] as u8] + percent_decoding(s.drop_first())
    }
}

proof fn lemma_hex_char_value(d: nat)
    requires
        d < 16,
    ensures
        hex_value(hex_char(d)) == d,
        hex_char(d) != '/',
        hex_char(d) != '%',
{
}

proof fn lemma_decode_byte(b: u8, keep_slash: bool, y: Seq<char>)
    ensures
        percent_decoding(encode_byte(b, keep_slash) + y) == seq![b] + percent_decoding(y),
{
    let e = encode_byte(b, keep_slash);
    let x = e + y;
    if is_unreserved(b, keep_slash) {
        assert(x[0] == b as char);
        assert((b as char) as u8 == b);
        assert(x.drop_first() =~= y);
    } else {
        let hi = (b / 16) as nat;
        let lo = (b % 16) as nat;
        lemma_hex_char_value(hi);
        lemma_hex_char_value(lo);
        assert(x[0] == '%');
        assert(x[1] == hex_char(hi));
        assert(x[2] == hex_char(lo));
        assert(x.skip(3) =~= y);
        assert(hi * 16 + lo == b) by (nonlinear_arith)
            requires hi == (b / 16) as nat, lo == (b % 16) as nat;
    }
}

proof fn lemma_decode_prefix(bytes: Seq<u8>, keep_slash: bool, y: Seq<char>)
    ensures
        percent_decoding(percent_encoding(bytes, keep_slash) + y) == bytes + percent_decoding(y),
    decreases bytes.len(),
{
    if bytes.len() == 0 {
        assert(percent_encoding(bytes, keep_slash) + y =~= y);
        assert(bytes + percent_decoding(y) =~= percent_decoding(y));
    } else {
        let p = bytes.drop_last();
        let l = bytes.last();
        assert(percent_encoding(bytes, keep_slash) + y =~= percent_encoding(p, keep_slash) + (encode_byte(l, keep_slash) + y));
        lemma_decode_prefix(p, keep_slash, encode_byte(l, keep_slash) + y);
        lemma_decode_byte(l, keep_slash, y);
        assert(p + (seq![l] + percent_decoding(y)) =~= bytes + percent_decoding(y));
    }
}

/// Decoding an encoding gives back the bytes that were encoded.
pub proof fn lemma_decode_encoding(bytes: Seq<u8>, keep_slash: bool)
    ensures
        percent_decoding(percent_encoding(bytes, keep_slash)) == bytes,
{
    lemma_decode_prefix(bytes, keep_slash, Seq::empty());
    assert(percent_encoding(bytes, keep_slash) + Seq::<char>::empty() =~= percent_encoding(bytes, keep_slash));
    assert(bytes + Seq::<u8>::empty() =~= bytes);
}

proof fn lemma_replace_slash_concat(x: Seq<char>, y: Seq<char>)
    ensures
        replace_text(x + y, "/"@, "%2F"@) == replace_text(x, "/"@, "%2F"@) + replace_text(y, "/"@, "%2F"@),
    decreases x.len(),
{
    reveal_strlit("/");
    if x.len() == 0 {
        assert(x + y =~= y);
        assert(replace_text(x, "/"@, "%2F"@) == x);
        assert(x + replace_text(y, "/"@, "%2F"@) =~= replace_text(y, "/"@, "%2F"@));
    } else {
        let xy = x + y;
        assert(xy.take(1) =~= x.take(1));
        assert(xy.skip(1) =~= x.skip(1) + y);
        assert(xy.drop_first() =~= x.drop_first() + y);
        assert(x.skip(1) =~= x.drop_first());
        lemma_replace_slash_concat(x.drop_first(), y);
        if x.take(1) == "/"@ {
            assert(("%2F"@ + replace_text(x.skip(1), "/"@, "%2F"@)) + replace_text(y, "/"@, "%2F"@) =~= "%2F"@ + (replace_text(x.skip(1), "/"@, "%2F"@) + replace_text(y, "/"@, "%2F"@)));
        } else {
            assert(xy[0] == x[0]);
            assert((seq![x[0]] + replace_text(x.drop_first(), "/"@, "%2F"@)) + replace_text(y, "/"@, "%2F"@) =~= seq![x[0]] + (replace_text(x.drop_first(), "/"@, "%2F"@) + replace_text(y, "/"@, "%2F"@)));
        }
    }
}

proof fn lemma_replace_byte(b: u8)
    ensures
        replace_text(encode_byte(b, true), "/"@, "%2F"@) == encode_byte(b, false),
{
    reveal_strlit("/");
    reveal_strlit("%2F");
    let e = encode_byte(b, true);
    let empty = Seq::<char>::empty();
    assert(replace_text(empty, "/"@, "%2F"@) == empty);
    if b == 47 {
        assert(e == seq!['/']);
        assert(e.take(1) =~= "/"@);
        assert(e.skip(1) =~= Seq::<char>::empty());
        assert(hex_byte(b) == seq!['2', 'F']);
        assert(encode_byte(b, false) =~= "%2F"@ + Seq::<char>::empty());
        assert(replace_text(e, "/"@, "%2F"@) == "%2F"@ + replace_text(e.skip(1), "/"@, "%2F"@));
    } else if is_unreserved(b, true) {
        assert(e == seq![b as char]);
        assert((b as char) as u8 == b);
        assert(e.take(1) != "/"@) by {
            if e.take(1) == "/"@ {
                assert(e.take(1)[0] == '/');
            }
        }
        assert(e.drop_first() =~= Seq::<char>::empty());
        assert(seq![e[0]] + Seq::<char>::empty() =~= e);
        assert(replace_text(e, "/"@, "%2F"@) == seq![e[0]] + replace_text(e.drop_first(), "/"@, "%2F"@));
    } else {
        let hi = (b / 16) as nat;
        let lo = (b % 16) as nat;
        lemma_hex_char_value(hi);
        lemma_hex_char_value(lo);
        let t2 = seq![hex_char(lo)];
        let t1 = seq![hex_char(hi), hex_char(lo)];
        assert(t2.take(1) != "/"@) by {
            if t2.take(1) == "/"@ { assert(t2.take(1)[0] == '/'); }
        }
        assert(t2.drop_first() =~= Seq::<char>::empty());
        assert(replace_text(t2, "/"@, "%2F"@) == seq![t2[0]] + replace_text(t2.drop_first(), "/"@, "%2F"@));
        assert(replace_text(t2, "/"@, "%2F"@) =~= t2);
        assert(t1.take(1) != "/"@) by {
            if t1.take(1) == "/"@ { assert(t1.take(1)[0] == '/'); }
        }
        assert(t1.drop_first() =~= t2);
        assert(replace_text(t1, "/"@, "%2F"@) == seq![t1[0]] + replace_text(t1.drop_first(), "/"@, "%2F"@));
        assert(replace_text(t1, "/"@, "%2F"@) =~= t1);
        assert(e.take(1) != "/"@) by {
            if e.take(1) == "/"@ { assert(e.take(1)[0] == '/'); }
        }
        assert(e.drop_first() =~= t1);
        assert(replace_text(e, "/"@, "%2F"@) == seq![e[0]] + replace_text(e.drop_first(), "/"@, "%2F"@));
        assert(replace_text(e, "/"@, "%2F"@) =~= e);
    }
}

/// The encoding that leaves `/` alone and the one that escapes it differ
/// exactly in that: every `/` of the first is `%2F` in the second.
pub proof fn lemma_slash_escaping(bytes: Seq<u8>)
    ensures
        percent_encoding(bytes, false) == replace_text(percent_encoding(bytes, true), "/"@, "%2F"@),
    decreases bytes.len(),
{
    if bytes.len() > 0 {
        let p = bytes.drop_last();
        lemma_slash_escaping(p);
        lemma_replace_slash_concat(percent_encoding(p, true), encode_byte(bytes.last(), true));
        lemma_replace_byte(bytes.last());
    }
}

/// Percent-encodes the UTF-8 bytes of `value`, writing unreserved bytes as
/// themselves and every other byte as `%` followed by two upper-case
/// hexadecimal digits.
pub fn percent_encode(value: &str, keep_slash: bool) -> (out: String)
    ensures
        out@ == percent_encoding(value.spec_bytes(), keep_slash),
        forall|k: int| 0 <= k < out@.len() ==> is_encoded_char(#[trigger] out@[k], keep_slash),
{
    let bytes = value.as_bytes();
    let mut out = String::new();
    let mut i: usize = 0;
    while i < bytes.len()
        invariant
            i <= bytes@.len(),
            bytes@ == value.spec_bytes(),
            out@ == percent_encoding(bytes@.take(i as int), keep_slash),
        decreases bytes@.len() - i,
    {
        let b = bytes[i];
        proof {
            assert(bytes@.take(i + 1).drop_last() =~= bytes@.take(i as int));
            assert(bytes@.take(i + 1).last() == b);
        }
        if (65 <= b && b <= 90) || (97 <= b && b <= 122) || (48 <= b && b <= 57) || b == 45 || b
            == 95 || b == 46 || b == 126 || (keep_slash && b == 47) {
            push_char(&mut out, b as char);
        } else {
            push_char(&mut out, '%');
            push_char(&mut out, hex_digit(b / 16));
            push_char(&mut out, hex_digit(b % 16));
            assert(encode_byte(b, keep_slash) =~= seq!['%', hex_char((b / 16) as nat), hex_char((b % 16) as nat)]);
        }
        i = i + 1;
    }
    assert(bytes@.take(bytes@.len() as int) =~= bytes@);
    proof {
        lemma_encoding_chars(value.spec_bytes(), keep_slash);
    }
    out
}

// ── ASCII case mapping ──────────────────────────────────────

/// Whether `c` is an ASCII lowercase letter.
pub open spec fn is_ascii_lower(c: char) -> bool {
    97 <= (c as u32) <= 122
}

/// Whether `c` is an ASCII capital letter.
pub open spec fn is_ascii_upper(c: char) -> bool {
    65 <= (c as u32) <= 90
}

/// The ASCII capital matching an ASCII lowercase letter.
pub open spec fn ascii_upper_char(c: char) -> char {
    ((c as u32) - 32) as char
}

/// `char::to_ascii_lowercase`: capitals map to lowercase, all else is kept.
pub open spec fn ascii_lower_of(c: char) -> char {
    if is_ascii_upper(c) {
        ((c as u32) + 32) as char
    } else {
        c
    }
}

/// `char::to_ascii_uppercase`: lowercase letters map to capitals, all else is kept.
pub open spec fn ascii_upper_of(c: char) -> char {
    if is_ascii_lower(c) {
        ascii_upper_char(c)
    } else {
        c
    }
}

fn ascii_lower_char(c: char) -> (r: char)
    ensures
        r == ascii_lower_of(c),
{
    let u = c as u32;
    if 65 <= u && u <= 90 {
        ((u + 32) as u8) as char
    } else {
        c
    }
}

fn ascii_upper_one(c: char) -> (r: char)
    ensures
        r == ascii_upper_of(c),
{
    let u = c as u32;
    if 97 <= u && u <= 122 {
        ((u - 32) as u8) as char
    } else {
        c
    }
}

/// `str::to_ascii_lowercase`.
pub fn to_ascii_lowercase(s: &Vec<char>) -> (r: Vec<char>)
    ensures
        r@ == s@.map_values(|c: char| ascii_lower_of(c)),
{
    let mut r: Vec<char> = Vec::new();
    let mut i: usize = 0;
    while i < s.len()
        invariant
            i <= s.len(),
            r@ == s@.take(i as int).map_values(|c: char| ascii_lower_of(c)),
        decreases s.len() - i,
    {
        r.push(ascii_lower_char(s[i]));
        assert(s@.take(i + 1).map_values(|c: char| ascii_lower_of(c)) =~= s@.take(
            i as int,
        ).map_values(|c: char| ascii_lower_of(c)).push(ascii_lower_of(s@[i as int])));
        i = i + 1;
    }
    assert(s@.take(s.len() as int) =~= s@);
    r
}

/// `str::to_ascii_uppercase`.
pub fn to_ascii_uppercase(s: &Vec<char>) -> (r: Vec<char>)
    ensures
        r@ == s@.map_values(|c: char| ascii_upper_of(c)),
{
    let mut r: Vec<char> = Vec::new();
    let mut i: usize = 0;
    while i < s.len()
        invariant
            i <= s.len(),
            r@ == s@.take(i as int).map_values(|c: char| ascii_upper_of(c)),
        decreases s.len() - i,
    {
        r.push(ascii_upper_one(s[i]));
        assert(s@.take(i + 1).map_values(|c: char| ascii_upper_of(c)) =~= s@.take(
            i as int,
        ).map_values(|c: char| ascii_upper_of(c)).push(ascii_upper_of(s@[i as int])));
        i = i + 1;
    }
    assert(s@.take(s.len() as int) =~= s@);
    r
}

// ── Substring search ────────────────────────────────────────

/// Whether `needle` occurs in `hay` at position `i`.
pub open spec fn occurs_at(hay: Seq<char>, needle: Seq<char>, i: int) -> bool {
    0 <= i && i + needle.len() <= hay.len() && hay.subrange(i, i + needle.len()) == needle
}

/// Whether `needle` occurs anywhere in `hay` (`str::contains`).
pub open spec fn contains_text(hay: Seq<char>, needle: Seq<char>) -> bool {
    exists|i: int| occurs_at(hay, needle, i)
}

fn matches_at(hay: &Vec<char>, needle: &Vec<char>, i: usize) -> (r: bool)
    requires
        i + needle@.len() <= hay@.len(),
    ensures
        r == occurs_at(hay@, needle@, i as int),
{
    let mut k: usize = 0;
    while k < needle.len()
        invariant
            i + needle@.len() <= hay@.len(),
            i + needle@.len() <= hay.len(),
            k <= needle.len(),
            forall|j: int| 0 <= j < k ==> hay@[i + j] == needle@[j],
        decreases needle.len() - k,
    {
        if hay[i + k] != needle[k] {
            assert(hay@.subrange(i as int, i + needle@.len())[k as int] != needle@[k as int]);
            return false;
        }
        k = k + 1;
    }
    assert(hay@.subrange(i as int, i + needle@.len()) =~= needle@);
    true
}

/// Whether `needle` occurs in `hay`.
pub fn contains_chars(hay: &Vec<char>, needle: &Vec<char>) -> (r: bool)
    ensures
        r == contains_text(hay@, needle@),
{
    if needle.len() > hay.len() {
        assert forall|i: int| !occurs_at(hay@, needle@, i) by {}
        return false;
    }
    if needle.len() == 0 {
        assert(hay@.subrange(0, 0) =~= needle@);
        assert(occurs_at(hay@, needle@, 0));
        return true;
    }
    let bound = hay.len() - needle.len() + 1;
    let mut i: usize = 0;
    while i < bound
        invariant
            bound + needle@.len() == hay@.len() + 1,
            i <= bound,
            forall|j: int| 0 <= j < i ==> !occurs_at(hay@, needle@, j),
        decreases bound - i,
    {
        if matches_at(hay, needle, i) {
            return true;
        }
        i = i + 1;
    }
    assert forall|j: int| !occurs_at(hay@, needle@, j) by {
        if 0 <= j && j + needle@.len() <= hay@.len() {
            assert(j < bound);
        }
    }
    false
}

// ── Lexicographic order of text ─────────────────────────────

/// Strict lexicographic order of character sequences by code point; this
/// is the order of `String::cmp`, whose byte order on UTF-8 agrees with it.
pub open spec fn text_lt(a: Seq<char>, b: Seq<char>) -> bool
    decreases a.len(),
{
    if a.len() == 0 {
        b.len() > 0
    } else if b.len() == 0 {
        false
    } else if a[0] != b[0] {
        (a[0] as u32) < (b[0] as u32)
    } else {
        text_lt(a.drop_first(), b.drop_first())
    }
}

/// `text_lt` is irreflexive.
pub proof fn lemma_text_lt_irreflexive(a: Seq<char>)
    ensures
        !text_lt(a, a),
    decreases a.len(),
{
    if a.len() > 0 {
        lemma_text_lt_irreflexive(a.drop_first());
    }
}

/// `text_lt` is transitive.
pub proof fn lemma_text_lt_transitive(a: Seq<char>, b: Seq<char>, c: Seq<char>)
    requires
        text_lt(a, b),
        text_lt(b, c),
    ensures
        text_lt(a, c),
    decreases a.len(),
{
    if a.len() > 0 && b.len() > 0 && c.len() > 0 {
        if a[0] == b[0] && b[0] == c[0] {
            lemma_text_lt_transitive(a.drop_first(), b.drop_first(), c.drop_first());
        }
    }
}

/// Two different sequences are ordered one way or the other.
pub proof fn lemma_text_lt_total(a: Seq<char>, b: Seq<char>)
    requires
        a != b,
    ensures
        text_lt(a, b) || text_lt(b, a),
    decreases a.len(),
{
    if a.len() > 0 && b.len() > 0 && a[0] != b[0] {
        lemma_char_code_injective(a[0], b[0]);
    }
    if a.len() > 0 && b.len() > 0 && a[0] == b[0] {
        if a.drop_first() == b.drop_first() {
            assert(a =~= seq![a[0]] + a.drop_first());
            assert(b =~= seq![b[0]] + b.drop_first());
        }
        lemma_text_lt_total(a.drop_first(), b.drop_first());
    } else if a.len() == 0 && b.len() == 0 {
        assert(a =~= b);
    }
}

/// Different characters have different code points.
pub proof fn lemma_char_code_injective(a: char, b: char)
    requires
        a != b,
    ensures
        (a as u32) != (b as u32),
{
    if (a as u32) == (b as u32) {
        assert((a as u32) as char == a);
        assert((b as u32) as char == b);
    }
}

/// `text_lt` is asymmetric.
pub proof fn lemma_text_lt_asymmetric(a: Seq<char>, b: Seq<char>)
    requires
        text_lt(a, b),
    ensures
        !text_lt(b, a),
{
    if text_lt(b, a) {
        lemma_text_lt_transitive(a, b, a);
        lemma_text_lt_irreflexive(a);
    }
}

/// Compares two character vectors: -1, 0 or 1.
pub fn compare_chars(a: &Vec<char>, b: &Vec<char>) -> (r: i8)
    ensures
        r == 0 <==> a@ == b@,
        r < 0 <==> text_lt(a@, b@),
        r > 0 <==> text_lt(b@, a@),
        -1 <= r <= 1,
{
    let mut i: usize = 0;
    while i < a.len() && i < b.len()
        invariant
            i <= a.len(),
            i <= b.len(),
            a@.take(i as int) == b@.take(i as int),
        decreases a.len() - i,
    {
        if a[i] != b[i] {
            proof {
                lemma_text_lt_prefix(a@, b@, i as int);
                lemma_char_code_injective(a@[i as int], b@[i as int]);
                assert(a@.skip(i as int)[0] == a@[i as int]);
                assert(b@.skip(i as int)[0] == b@[i as int]);
            }
            if (a[i] as u32) < (b[i] as u32) {
                proof { lemma_text_lt_asymmetric(a@, b@); }
                return -1;
            } else {
                proof { lemma_text_lt_asymmetric(b@, a@); }
                return 1;
            }
        }
        assert(a@.take(i + 1) =~= a@.take(i as int).push(a@[i as int]));
        assert(b@.take(i + 1) =~= b@.take(i as int).push(b@[i as int]));
        i = i + 1;
    }
    proof {
        lemma_text_lt_prefix(a@, b@, i as int);
        if a.len() == b.len() {
            assert(a@ =~= a@.take(i as int));
            assert(b@ =~= b@.take(i as int));
        }
    }
    if a.len() < b.len() {
        proof { lemma_text_lt_asymmetric(a@, b@); }
        -1
    } else if a.len() > b.len() {
        proof { lemma_text_lt_asymmetric(b@, a@); }
        1
    } else {
        proof { lemma_text_lt_irreflexive(a@); }
        0
    }
}

/// With a common prefix of length `i`, the order is decided from position `i` on.
proof fn lemma_text_lt_prefix(a: Seq<char>, b: Seq<char>, i: int)
    requires
        0 <= i <= a.len(),
        i <= b.len(),
        a.take(i) == b.take(i),
    ensures
        text_lt(a, b) == text_lt(a.skip(i), b.skip(i)),
        text_lt(b, a) == text_lt(b.skip(i), a.skip(i)),
    decreases i,
{
    if i > 0 {
        assert(a[0] == a.take(i)[0]);
        assert(b[0] == b.take(i)[0]);
        assert(a.drop_first().take(i - 1) =~= a.take(i).drop_first());
        assert(b.drop_first().take(i - 1) =~= b.take(i).drop_first());
        lemma_text_lt_prefix(a.drop_first(), b.drop_first(), i - 1);
        assert(a.drop_first().skip(i - 1) =~= a.skip(i));
        assert(b.drop_first().skip(i - 1) =~= b.skip(i));
    } else {
        assert(a.skip(0) =~= a);
        assert(b.skip(0) =~= b);
    }
}

// ── Initials ────────────────────────────────────────────────

/// The initial shown in place of a missing picture.
pub open spec fn initial_of(name: Seq<char>) -> Seq<char> {
    if name.len() == 0 {
        seq!['?']
    } else {
        char_upper(name[0])
    }
}

/// Extract the first character of a name as an uppercase initial, or "?" if empty.
pub fn fallback_initial(name: &str) -> (r: String)
    ensures
        r@ == initial_of(name@),
{
    let v = chars_of(name);
    if v.len() == 0 {
        let mut s = String::new();
        push_char(&mut s, '?');
        assert(s@ =~= seq!['?']);
        s
    } else {
        upper_char(v[0])
    }
}

// ── Replacement ─────────────────────────────────────────────

/// `str::replace` for a non-empty pattern: every non-overlapping occurrence,
/// scanning from the left, is replaced.
pub open spec fn replace_text(s: Seq<char>, pat: Seq<char>, rep: Seq<char>) -> Seq<char>
    recommends
        pat.len() > 0,
    decreases s.len(),
{
    if s.len() == 0 || pat.len() == 0 {
        s
    } else if pat.len() <= s.len() && s.take(pat.len() as int) == pat {
        rep + replace_text(s.skip(pat.len() as int), pat, rep)
    } else {
        seq![s[0]] + replace_text(s.drop_first(), pat, rep)
    }
}

/// Replaces every occurrence of a non-empty pattern.
pub fn replace_all(s: &Vec<char>, pat: &Vec<char>, rep: &Vec<char>) -> (r: Vec<char>)
    requires
        pat@.len() > 0,
    ensures
        r@ == replace_text(s@, pat@, rep@),
{
    let mut out: Vec<char> = Vec::new();
    let mut i: usize = 0;
    assert(s@.skip(0) =~= s@);
    assert(out@ + replace_text(s@, pat@, rep@) =~= replace_text(s@, pat@, rep@));
    while i < s.len()
        invariant
            i <= s.len(),
            pat@.len() > 0,
            out@ + replace_text(s@.skip(i as int), pat@, rep@) == replace_text(s@, pat@, rep@),
        decreases s.len() - i,
    {
        let ghost rest = s@.skip(i as int);
        let hit = pat.len() <= s.len() - i && matches_at(s, pat, i);
        if hit {
            proof {
                assert(s@.subrange(i as int, i + pat@.len()) =~= rest.take(pat@.len() as int));
                assert(rest.skip(pat@.len() as int) =~= s@.skip(i + pat@.len()));
            }
            let mut k: usize = 0;
            let ghost before = out@;
            while k < rep.len()
                invariant
                    k <= rep.len(),
                    out@ == before + rep@.take(k as int),
                decreases rep.len() - k,
            {
                out.push(rep[k]);
                assert(before + rep@.take(k + 1) =~= before + rep@.take(k as int) + seq![rep@[k as int]]);
                k = k + 1;
            }
            assert(rep@.take(rep@.len() as int) =~= rep@);
            assert(before + (rep@ + replace_text(s@.skip(i + pat@.len()), pat@, rep@)) =~= before
                + rep@ + replace_text(s@.skip(i + pat@.len()), pat@, rep@));
            i = i + pat.len();
        } else {
            proof {
                if pat@.len() <= rest.len() && rest.take(pat@.len() as int) == pat@ {
                    assert(s@.subrange(i as int, i + pat@.len()) =~= rest.take(pat@.len() as int));
                }
                assert(rest.drop_first() =~= s@.skip(i + 1));
                assert(rest[0] == s@[i as int]);
            }
            let ghost before = out@;
            out.push(s[i]);
            assert(before + (seq![s@[i as int]] + replace_text(s@.skip(i + 1), pat@, rep@)) =~= before.push(
                s@[i as int],
            ) + replace_text(s@.skip(i + 1), pat@, rep@));
            i = i + 1;
        }
    }
    assert(s@.skip(s.len() as int) =~= Seq::<char>::empty());
    assert(out@ + Seq::<char>::empty() =~= out@);
    out
}

} // verus!
