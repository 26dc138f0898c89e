//! Text operations on character sequences, each with the specification it is
//! proved against: splitting at a separator, trimming whitespace, ASCII
//! case-insensitive comparison and decimal parsing.
use vstd::prelude::*;
use vstd::std_specs::iter::IteratorSpec;

verus! {

/// Unicode `White_Space` characters (those for which `char::is_whitespace` holds).
pub open spec fn spec_is_whitespace(c: char) -> bool {
    let v = c as u32;
    (0x9 <= v && v <= 0xd) || v == 0x20 || v == 0x85 || v == 0xa0 || v == 0x1680 || (0x2000 <= v
        && v <= 0x200a) || v == 0x2028 || v == 0x2029 || v == 0x202f || v == 0x205f || v == 0x3000
}

/// `s` without its leading whitespace.
pub open spec fn trim_start(s: Seq<char>) -> Seq<char>
    decreases s.len(),
{
    if s.len() > 0 && spec_is_whitespace(s[0]) {
        trim_start(s.subrange(1, s.len() as int))
    } else {
        s
    }
}

/// `s` without its trailing whitespace.
pub open spec fn trim_end(s: Seq<char>) -> Seq<char>
    decreases s.len(),
{
    if s.len() > 0 && spec_is_whitespace(s[s.len() - 1]) {
        trim_end(s.subrange(0, s.len() - 1))
    } else {
        s
    }
}

/// `s` without leading and trailing whitespace (as `str::trim`).
pub open spec fn trim(s: Seq<char>) -> Seq<char> {
    trim_end(trim_start(s))
}

/// The part of `s` before the first `sep` (all of `s` if there is none).
pub open spec fn split_head(s: Seq<char>, sep: char) -> Seq<char>
    decreases s.len(),
{
    if s.len() == 0 || s[0] == sep {
        Seq::empty()
    } else {
        seq![s[0]] + split_head(s.subrange(1, s.len() as int), sep)
    }
}

/// The part of `s` after the first `sep`, or `None` if `s` holds no `sep`.
pub open spec fn split_tail(s: Seq<char>, sep: char) -> Option<Seq<char>>
    decreases s.len(),
{
    if s.len() == 0 {
        None
    } else if s[0] == sep {
        Some(s.subrange(1, s.len() as int))
    } else {
        split_tail(s.subrange(1, s.len() as int), sep)
    }
}

/// Splitting at the first separator: when `a` holds no `sep`, the text
/// `a`, `sep`, `b` splits into `a` before it and `b` (later separators
/// included) after it.
pub proof fn lemma_split_at_first(a: Seq<char>, sep: char, b: Seq<char>)
    requires
        forall|i: int| 0 <= i < a.len() ==> a[i] != sep,
    ensures
        split_head(a + seq![sep] + b, sep) == a,
        split_tail(a + seq![sep] + b, sep) == Some(b),
    decreases a.len(),
{
    let s = a + seq![sep] + b;
    if a.len() == 0 {
        assert(s.subrange(1, s.len() as int) =~= b);
    } else {
        let rest = a.subrange(1, a.len() as int);
        assert(s.subrange(1, s.len() as int) =~= rest + seq![sep] + b);
        lemma_split_at_first(rest, sep, b);
        assert(seq![a[0]] + rest =~= a);
    }
}

/// Text without a separator does not split: all of it is the head, and
/// there is no tail.
pub proof fn lemma_split_without_separator(a: Seq<char>, sep: char)
    requires
        forall|i: int| 0 <= i < a.len() ==> a[i] != sep,
    ensures
        split_head(a, sep) == a,
        split_tail(a, sep) is None,
    decreases a.len(),
{
    if a.len() > 0 {
        let rest = a.subrange(1, a.len() as int);
        lemma_split_without_separator(rest, sep);
        assert(seq![a[0]] + rest =~= a);
    }
}

/// Trimming text that holds no whitespace leaves it as it is.
pub proof fn lemma_trim_without_whitespace(s: Seq<char>)
    requires
        forall|i: int| 0 <= i < s.len() ==> !spec_is_whitespace(#[trigger] s[i]),
    ensures
        trim(s) == s,
{
    if s.len() > 0 {
        assert(!spec_is_whitespace(s[0]));
        assert(!spec_is_whitespace(s[s.len() - 1]));
    }
}

/// Trimming removes exactly the whitespace around the text: whitespace
/// `a` before and `b` after a text `s` that neither starts nor ends with
/// whitespace are removed, and `s` is kept whole.
pub proof fn lemma_trim_strips(a: Seq<char>, s: Seq<char>, b: Seq<char>)
    requires
        forall|i: int| 0 <= i < a.len() ==> spec_is_whitespace(#[trigger] a[i]),
        forall|i: int| 0 <= i < b.len() ==> spec_is_whitespace(#[trigger] b[i]),
        s.len() > 0 ==> !spec_is_whitespace(s[0]) && !spec_is_whitespace(s[s.len() - 1]),
    ensures
        trim(a + s + b) == s,
{
    if s.len() > 0 {
        lemma_trim_start_strips(a, s + b);
        assert(a + s + b =~= a + (s + b));
        lemma_trim_end_strips(s, b);
    } else {
        let w = a + b;
        assert forall|i: int| 0 <= i < w.len() implies spec_is_whitespace(#[trigger] w[i]) by {
            if i < a.len() {
                assert(w[i] == a[i]);
            } else {
                assert(w[i] == b[i - a.len()]);
            }
        }
        lemma_trim_start_strips(w, s);
        assert(a + s + b =~= w + s);
        assert(trim_end(Seq::<char>::empty()) == Seq::<char>::empty());
    }
}

proof fn lemma_trim_start_strips(a: Seq<char>, t: Seq<char>)
    requires
        forall|i: int| 0 <= i < a.len() ==> spec_is_whitespace(#[trigger] a[i]),
        t.len() > 0 ==> !spec_is_whitespace(t[0]),
    ensures
        t.len() > 0 ==> trim_start(a + t) == t,
        t.len() == 0 ==> trim_start(a + t) == Seq::<char>::empty(),
    decreases a.len(),
{
    if a.len() > 0 {
        let rest = a.subrange(1, a.len() as int);
        assert((a + t).subrange(1, (a + t).len() as int) =~= rest + t);
        assert((a + t)[0] == a[0]);
        lemma_trim_start_strips(rest, t);
    } else {
        assert(a + t =~= t);
    }
}

proof fn lemma_trim_end_strips(s: Seq<char>, b: Seq<char>)
    requires
        forall|i: int| 0 <= i < b.len() ==> spec_is_whitespace(#[trigger] b[i]),
        s.len() > 0 ==> !spec_is_whitespace(s[s.len() - 1]),
    ensures
        trim_end(s + b) == s,
    decreases b.len(),
{
    if b.len() > 0 {
        let rest = b.subrange(0, b.len() - 1);
        assert((s + b).subrange(0, (s + b).len() - 1) =~= s + rest);
        assert((s + b)[(s + b).len() - 1] == b[b.len() - 1]);
        lemma_trim_end_strips(s, rest);
    } else {
        assert(s + b =~= s);
        if s.len() > 0 {
            assert(!spec_is_whitespace(s[s.len() - 1]));
        }
    }
}

/// ASCII lower-case of a character code.
pub open spec fn ascii_lower(c: char) -> u32 {
    if 'A' <= c && c <= 'Z' {
        (c as u32 + 32) as u32
    } else {
        c as u32
    }
}

/// Equality up to ASCII case (as `str::eq_ignore_ascii_case`).
pub open spec fn eq_ignore_ascii_case(a: Seq<char>, b: Seq<char>) -> bool {
    a.len() == b.len() && forall|i: int| 0 <= i < a.len() ==> ascii_lower(a[i]) == ascii_lower(b[i])
}

/// ASCII case is ignored: an upper-case ASCII letter and its lower-case
/// letter (32 code points above it) compare equal, while two different
/// letters stay different whatever their case.
pub proof fn lemma_ascii_lower_folds_case()
    ensures
        forall|c: char|
            'A' <= c <= 'Z' ==> #[trigger] ascii_lower(c) == ascii_lower(
                ((c as u32) + 32) as char,
            ),
        forall|c: char, d: char|
            #![trigger ascii_lower(c), ascii_lower(d)]
            'a' <= c <= 'z' && 'a' <= d <= 'z' ==> (ascii_lower(c) == ascii_lower(d) <==> c == d),
        forall|c: char, d: char|
            #![trigger ascii_lower(c), ascii_lower(d)]
            'A' <= c <= 'Z' && 'a' <= d <= 'z' ==> (ascii_lower(c) == ascii_lower(d) <==> (d as u32)
                == (c as u32) + 32),
{
    assert forall|c: char| 'A' <= c <= 'Z' implies #[trigger] ascii_lower(c) == ascii_lower(
        ((c as u32) + 32) as char,
    ) by {
        let l = ((c as u32) + 32) as char;
        assert(l as u32 == c as u32 + 32);
    }
}

/// Every character is an ASCII decimal digit.
pub open spec fn all_digits(s: Seq<char>) -> bool {
    forall|i: int| 0 <= i < s.len() ==> '0' <= #[trigger] s[i] && s[i] <= '9'
}

/// The value of a string of decimal digits.
pub open spec fn digits_value(s: Seq<char>) -> int
    decreases s.len(),
{
    if s.len() == 0 {
        0
    } else {
        digits_value(s.subrange(0, s.len() - 1)) * 10 + (s[s.len() - 1] as int - '0' as int)
    }
}

/// What `str::parse::<usize>` gives: an optional `+`, then one or more ASCII
/// digits whose value fits in `usize`.
pub open spec fn parse_usize(s: Seq<char>) -> Option<usize> {
    let d = if s.len() > 0 && s[0] == '+' {
        s.subrange(1, s.len() as int)
    } else {
        s
    };
    if d.len() > 0 && all_digits(d) && digits_value(d) <= usize::MAX {
        Some(digits_value(d) as usize)
    } else {
        None
    }
}

/// Whether `c` is whitespace.
pub fn is_whitespace(c: char) -> (r: bool)
    ensures
        r == spec_is_whitespace(c),
{
    let v = c as u32;
    (0x9 <= v && v <= 0xd) || v == 0x20 || v == 0x85 || v == 0xa0 || v == 0x1680 || (0x2000 <= v
        && v <= 0x200a) || v == 0x2028 || v == 0x2029 || v == 0x202f || v == 0x205f || v == 0x3000
}

/// Copies `s[from..to]`.
pub fn copy_range(s: &[char], from: usize, to: usize) -> (r: Vec<char>)
    requires
        from <= to <= s@.len(),
    ensures
        r@ == s@.subrange(from as int, to as int),
{
    let mut r: Vec<char> = Vec::new();
    let mut i = from;
    while i < to
        invariant
            from <= i <= to,
            to <= s@.len(),
            r@ == s@.subrange(from as int, i as int),
        decreases to - i,
    {
        r.push(s[i]);
        i = i + 1;
    }
    r
}

/// `s` without leading and trailing whitespace.
pub fn trim_chars(s: &[char]) -> (r: Vec<char>)
    ensures
        r@ == trim(s@),
{
    let len = s.len();
    let mut i: usize = 0;
    assert(s@.subrange(0, len as int) =~= s@);
    while i < len && is_whitespace(s[i])
        invariant
            i <= len,
            len == s@.len(),
            trim_start(s@) == trim_start(s@.subrange(i as int, len as int)),
        decreases len - i,
    {
        assert(s@.subrange(i as int, len as int).subrange(1, len - i) =~= s@.subrange(
            i + 1,
            len as int,
        ));
        i = i + 1;
    }
    let ghost t = s@.subrange(i as int, len as int);
    assert(trim_start(t) == t);
    let mut j: usize = len;
    assert(t.subrange(0, (j - i) as int) =~= t);
    while j > i && is_whitespace(s[j - 1])
        invariant
            i <= j <= len,
            len == s@.len(),
            t == s@.subrange(i as int, len as int),
            trim_end(t) == trim_end(s@.subrange(i as int, j as int)),
        decreases j,
    {
        assert(s@.subrange(i as int, j as int).subrange(0, j - i - 1) =~= s@.subrange(
            i as int,
            j - 1,
        ));
        j = j - 1;
    }
    copy_range(s, i, j)
}

/// Splits `s` at its first `sep`: the part before it, and the part after it
/// if there is a `sep`.
pub fn split_first(s: &[char], sep: char) -> (r: (Vec<char>, Option<Vec<char>>))
    ensures
        r.0@ == split_head(s@, sep),
        match split_tail(s@, sep) {
            Some(t) => r.1 matches Some(v) && v@ == t,
            None => r.1 is None,
        },
{
    let len = s.len();
    let mut i: usize = 0;
    assert(s@.subrange(0, len as int) =~= s@);
    while i < len && s[i] != sep
        invariant
            i <= len,
            len == s@.len(),
            forall|k: int| 0 <= k < i ==> s@[k] != sep,
            split_head(s@, sep) == s@.subrange(0, i as int) + split_head(
                s@.subrange(i as int, len as int),
                sep,
            ),
            split_tail(s@, sep) == split_tail(s@.subrange(i as int, len as int), sep),
        decreases len - i,
    {
        let ghost rest = s@.subrange(i as int, len as int);
        assert(rest.subrange(1, rest.len() as int) =~= s@.subrange(i + 1, len as int));
        assert(s@.subrange(0, i as int) + seq![s@[i as int]] =~= s@.subrange(0, i + 1));
        i = i + 1;
    }
    let head = copy_range(s, 0, i);
    if i == len {
        assert(s@.subrange(i as int, len as int) =~= Seq::<char>::empty());
        assert(head@ =~= split_head(s@, sep));
        (head, None)
    } else {
        let ghost rest = s@.subrange(i as int, len as int);
        assert(rest.subrange(1, rest.len() as int) =~= s@.subrange(i + 1, len as int));
        assert(head@ =~= split_head(s@, sep));
        let tail = copy_range(s, i + 1, len);
        (head, Some(tail))
    }
}

/// Whether `a` and `b` are equal.
pub fn chars_eq(a: &[char], b: &[char]) -> (r: bool)
    ensures
        r == (a@ == b@),
{
    if a.len() != b.len() {
        return false;
    }
    let mut i: usize = 0;
    while i < a.len()
        invariant
            i <= a@.len(),
            a@.len() == b@.len(),
            forall|k: int| 0 <= k < i ==> a@[k] == b@[k],
        decreases a@.len() - i,
    {
        if a[i] != b[i] {
            return false;
        }
        i = i + 1;
    }
    assert(a@ =~= b@);
    true
}

fn lower(c: char) -> (r: u32)
    ensures
        r == ascii_lower(c),
{
    if 'A' <= c && c <= 'Z' {
        c as u32 + 32
    } else {
        c as u32
    }
}

/// Whether `a` and `b` are equal up to ASCII case.
pub fn chars_eq_ignore_ascii_case(a: &[char], b: &[char]) -> (r: bool)
    ensures
        r == eq_ignore_ascii_case(a@, b@),
{
    if a.len() != b.len() {
        return false;
    }
    let mut i: usize = 0;
    while i < a.len()
        invariant
            i <= a@.len(),
            a@.len() == b@.len(),
            forall|k: int| 0 <= k < i ==> ascii_lower(a@[k]) == ascii_lower(b@[k]),
        decreases a@.len() - i,
    {
        if lower(a[i]) != lower(b[i]) {
            return false;
        }
        i = i + 1;
    }
    true
}

proof fn lemma_digits_value_monotone(s: Seq<char>, i: int, j: int)
    requires
        0 <= i <= j <= s.len(),
        all_digits(s),
    ensures
        digits_value(s.subrange(0, i)) <= digits_value(s.subrange(0, j)),
        digits_value(s.subrange(0, j)) >= 0,
    decreases j,
{
    if j > 0 {
        let p = s.subrange(0, j);
        assert(p.subrange(0, j - 1) =~= s.subrange(0, j - 1));
        assert('0' <= s[j - 1]);
        assert(p[j - 1] == s[j - 1]);
        let i2 = if i < j {
            i
        } else {
            j - 1
        };
        lemma_digits_value_monotone(s, i2, j - 1);
    }
}

/// Parses a decimal `usize` as `str::parse::<usize>` does.
pub fn parse_usize_chars(s: &[char]) -> (r: Option<usize>)
    ensures
        r == parse_usize(s@),
{
    let len = s.len();
    let start: usize = if len > 0 && s[0] == '+' { 1 } else { 0 };
    let ghost d = s@.subrange(start as int, len as int);
    assert(d == (if s@.len() > 0 && s@[0] == '+' {
        s@.subrange(1, s@.len() as int)
    } else {
        s@
    }));
    if start == len {
        return None;
    }
    let mut value: usize = 0;
    let mut i = start;
    assert(d.subrange(0, 0) =~= Seq::<char>::empty());
    while i < len
        invariant
            start <= i <= len,
            len == s@.len(),
            start < len,
            d == s@.subrange(start as int, len as int),
            d == (if s@.len() > 0 && s@[0] == '+' {
                s@.subrange(1, s@.len() as int)
            } else {
                s@
            }),
            all_digits(d.subrange(0, i - start)),
            value == digits_value(d.subrange(0, i - start)),
        decreases len - i,
    {
        let c = s[i];
        if c < '0' || c > '9' {
            assert(d[i - start] == c);
            assert(!all_digits(d));
            return None;
        }
        let digit = (c as u32 - '0' as u32) as usize;
        let ghost prefix = d.subrange(0, i + 1 - start);
        assert(prefix.subrange(0, i - start) =~= d.subrange(0, i - start));
        assert(all_digits(prefix)) by {
            assert forall|k: int| 0 <= k < prefix.len() implies '0' <= #[trigger] prefix[k]
                && prefix[k] <= '9' by {
                if k < i - start {
                    assert(prefix[k] == d.subrange(0, i - start)[k]);
                }
            }
        }
        assert(prefix[i - start] == c);
        assert(digits_value(prefix) == value * 10 + (c as int - '0' as int));
        match value.checked_mul(10) {
            None => {
                proof {
                    if all_digits(d) {
                        lemma_digits_value_monotone(d, i + 1 - start, d.len() as int);
                        assert(d.subrange(0, d.len() as int) =~= d);
                    }
                }
                return None;
            },
            Some(m) => match m.checked_add(digit) {
                None => {
                    proof {
                        if all_digits(d) {
                            lemma_digits_value_monotone(d, i + 1 - start, d.len() as int);
                            assert(d.subrange(0, d.len() as int) =~= d);
                        }
                    }
                    return None;
                },
                Some(v) => {
                    value = v;
                },
            },
        }
        i = i + 1;
    }
    assert(d.subrange(0, len - start) =~= d);
    assert(all_digits(d));
    Some(value)
}

/// Reads `bytes` as UTF-8 text; `None` when they are not valid UTF-8.
///
/// Calls `core::str::from_utf8`.  Trusted: that it accepts exactly the valid
/// UTF-8 byte sequences, and that the text it gives holds their decoding,
/// both as vstd's `valid_utf8` and `decode_utf8` define them.
#[verifier::external_body]
fn str_from_utf8(bytes: &[u8]) -> (r: Option<&str>)
    ensures
        r is Some <==> vstd::utf8::valid_utf8(bytes@),
        r matches Some(s) ==> s@ == vstd::utf8::decode_utf8(bytes@),
{
    core::str::from_utf8(bytes).ok()
}

/// Decodes UTF-8 text into its characters; `None` when `bytes` is not valid UTF-8.
pub(crate) fn utf8_chars(bytes: &[u8]) -> (r: Option<Vec<char>>)
    ensures
        r is Some <==> vstd::utf8::valid_utf8(bytes@),
        r matches Some(v) ==> v@ == vstd::utf8::decode_utf8(bytes@),
{
    broadcast use vstd::string::group_string_axioms;

    let s = match str_from_utf8(bytes) {
        Some(s) => s,
        None => {
            return None;
        },
    };
    let mut chars = s.chars();
    let mut v: Vec<char> = Vec::new();
    loop
        invariant
            v@ + chars.remaining() == s@,
            chars.decrease() is Some,
        ensures
            v@ == s@,
        decreases chars.decrease()->0,
    {
        match chars.next() {
            Some(c) => {
                v.push(c);
            },
            None => {
                assert(v@ + chars.remaining() =~= v@);
                break;
            },
        }
    }
    Some(v)
}

/// Builds a `String` from characters.
///
/// Calls `FromIterator<&char>` for `String`.  Trusted: the string holds
/// exactly the given characters, in order.
#[verifier::external_body]
pub(crate) fn string_from_chars(v: &[char]) -> (s: String)
    ensures
        s@ == v@,
{
    v.iter().collect()
}

} // verus!
