//! Character-sequence helpers shared by the string-producing rules.
use vstd::prelude::*;

verus! {

/// Appends one character to a string.
///
/// Trusted: calls `String::push`, which the standard library documents as
/// appending the given `char` to the end of the string.
#[verifier::external_body]
pub(crate) fn push_char(s: &mut String, c: char)
    ensures
        final(s)@ == old(s)@.push(c),
{
    s.push(c);
}

/// The characters of `s`, in order.
pub fn chars_of(s: &str) -> (v: Vec<char>)
    ensures
        v@ == s@,
{
    let mut v: Vec<char> = Vec::new();
    for c in it: s.chars()
        invariant
            it.seq() == s@,
            v@ == it.seq().take(it.index() as int),
    {
        proof {
            assert(it.seq().take(it.index() as int + 1) =~= v@.push(c));
        }
        v.push(c);
    }
    proof {
        assert(s@.take(s@.len() as int) =~= s@);
    }
    v
}

/// A string holding `chars[lo..hi]`.
pub fn string_from_range(chars: &Vec<char>, lo: usize, hi: usize) -> (s: String)
    requires
        lo <= hi <= chars@.len(),
    ensures
        s@ == chars@.subrange(lo as int, hi as int),
{
    let mut s = String::new();
    let mut i = lo;
    while i < hi
        invariant
            lo <= i <= hi <= chars@.len(),
            s@ == chars@.subrange(lo as int, i as int),
        decreases hi - i,
    {
        push_char(&mut s, chars[i]);
        proof {
            assert(chars@.subrange(lo as int, i as int + 1) =~= chars@.subrange(lo as int, i as int).push(chars@[i as int]));
        }
        i = i + 1;
    }
    s
}

/// Appends all of `chars` to `s`.
pub fn push_all(s: &mut String, chars: &Vec<char>)
    ensures
        final(s)@ == old(s)@ + chars@,
{
    let ghost start = s@;
    let mut i: usize = 0;
    while i < chars.len()
        invariant
            i <= chars@.len(),
            s@ == start + chars@.take(i as int),
        decreases chars@.len() - i,
    {
        push_char(s, chars[i]);
        proof {
            assert(start + chars@.take(i as int + 1) =~= (start + chars@.take(i as int)).push(chars@[i as int]));
        }
        i = i + 1;
    }
    proof {
        assert(chars@.take(chars@.len() as int) =~= chars@);
    }
}

/// Appends the characters of `t` to `s`.
pub fn append_str(s: &mut String, t: &str)
    ensures
        final(s)@ == old(s)@ + t@,
{
    let chars = chars_of(t);
    push_all(s, &chars);
}

/// Drops leading characters that satisfy `p`.
pub open spec fn strip_leading(s: Seq<char>, p: spec_fn(char) -> bool) -> Seq<char>
    decreases s.len(),
{
    if s.len() > 0 && p(s[0]) {
        strip_leading(s.drop_first(), p)
    } else {
        s
    }
}

/// Drops trailing characters that satisfy `p`.
pub open spec fn strip_trailing(s: Seq<char>, p: spec_fn(char) -> bool) -> Seq<char>
    decreases s.len(),
{
    if s.len() > 0 && p(s.last()) {
        strip_trailing(s.drop_last(), p)
    } else {
        s
    }
}

/// Dropping leading characters leaves a suffix whose first character, if
/// any, does not satisfy `p`.
pub proof fn lemma_strip_leading(s: Seq<char>, p: spec_fn(char) -> bool)
    ensures
        strip_leading(s, p).len() <= s.len(),
        strip_leading(s, p) == s.subrange(s.len() - strip_leading(s, p).len(), s.len() as int),
        strip_leading(s, p).len() > 0 ==> !p(strip_leading(s, p)[0]),
    decreases s.len(),
{
    if s.len() > 0 && p(s[0]) {
        lemma_strip_leading(s.drop_first(), p);
        let r = strip_leading(s.drop_first(), p);
        assert(s.drop_first().subrange(s.drop_first().len() - r.len(), s.drop_first().len() as int) =~= s.subrange(
            s.len() - r.len(),
            s.len() as int,
        ));
    } else {
        assert(s.subrange(0, s.len() as int) =~= s);
    }
}

/// Dropping trailing characters leaves a prefix whose last character, if
/// any, does not satisfy `p`.
pub proof fn lemma_strip_trailing(s: Seq<char>, p: spec_fn(char) -> bool)
    ensures
        strip_trailing(s, p).len() <= s.len(),
        strip_trailing(s, p) == s.subrange(0, strip_trailing(s, p).len() as int),
        strip_trailing(s, p).len() > 0 ==> !p(strip_trailing(s, p).last()),
    decreases s.len(),
{
    if s.len() > 0 && p(s.last()) {
        lemma_strip_trailing(s.drop_last(), p);
        let r = strip_trailing(s.drop_last(), p);
        assert(s.drop_last().subrange(0, r.len() as int) =~= s.subrange(0, r.len() as int));
    } else {
        assert(s.subrange(0, s.len() as int) =~= s);
    }
}

/// Characters with the Unicode `White_Space` property, which `str::trim` removes.
pub open spec fn is_unicode_whitespace(c: char) -> bool {
    let n = c as u32;
    ||| 0x09 <= n <= 0x0D
    ||| n == 0x20
    ||| n == 0x85
    ||| n == 0xA0
    ||| n == 0x1680
    ||| 0x2000 <= n <= 0x200A
    ||| n == 0x2028
    ||| n == 0x2029
    ||| n == 0x202F
    ||| n == 0x205F
    ||| n == 0x3000
}

/// Whether `c` has the Unicode `White_Space` property.
pub fn is_whitespace_char(c: char) -> (ws: bool)
    ensures
        ws == is_unicode_whitespace(c),
{
    let n = c as u32;
    (0x09 <= n && n <= 0x0D) || n == 0x20 || n == 0x85 || n == 0xA0 || n == 0x1680 || (0x2000 <= n
        && n <= 0x200A) || n == 0x2028 || n == 0x2029 || n == 0x202F || n == 0x205F || n == 0x3000
}

/// `s` without leading and trailing Unicode white space, as `str::trim` gives it.
pub open spec fn trimmed(s: Seq<char>) -> Seq<char> {
    strip_trailing(strip_leading(s, |c: char| is_unicode_whitespace(c)), |c: char| is_unicode_whitespace(c))
}

/// Sets of characters that the string rules strip from the ends of names.
#[derive(Clone, Copy, Debug)]
pub enum CharClass {
    /// Unicode white space.
    Whitespace,
    /// The full stop `.`.
    Dot,
    /// A full stop or a space.
    DotOrSpace,
}

/// Membership in a character class.
pub open spec fn in_class(class: CharClass) -> spec_fn(char) -> bool {
    match class {
        CharClass::Whitespace => |c: char| is_unicode_whitespace(c),
        CharClass::Dot => |c: char| c == '.',
        CharClass::DotOrSpace => |c: char| c == '.' || c == ' ',
    }
}

/// Whether `c` is in `class`.
pub fn is_in_class(class: CharClass, c: char) -> (yes: bool)
    ensures
        yes == in_class(class)(c),
{
    match class {
        CharClass::Whitespace => is_whitespace_char(c),
        CharClass::Dot => c == '.',
        CharClass::DotOrSpace => c == '.' || c == ' ',
    }
}

/// The start of `chars[lo..hi]` once leading characters of `class` are dropped.
pub fn skip_leading(chars: &Vec<char>, lo: usize, hi: usize, class: CharClass) -> (start: usize)
    requires
        lo <= hi <= chars@.len(),
    ensures
        lo <= start <= hi,
        chars@.subrange(start as int, hi as int) == strip_leading(chars@.subrange(lo as int, hi as int), in_class(class)),
{
    let mut i = lo;
    while i < hi && is_in_class(class, chars[i])
        invariant
            lo <= i <= hi <= chars@.len(),
            strip_leading(chars@.subrange(i as int, hi as int), in_class(class)) == strip_leading(
                chars@.subrange(lo as int, hi as int),
                in_class(class),
            ),
        decreases hi - i,
    {
        proof {
            assert(chars@.subrange(i as int, hi as int).drop_first() =~= chars@.subrange(i + 1, hi as int));
        }
        i = i + 1;
    }
    i
}

/// The end of `chars[lo..hi]` once trailing characters of `class` are dropped.
pub fn skip_trailing(chars: &Vec<char>, lo: usize, hi: usize, class: CharClass) -> (end: usize)
    requires
        lo <= hi <= chars@.len(),
    ensures
        lo <= end <= hi,
        chars@.subrange(lo as int, end as int) == strip_trailing(chars@.subrange(lo as int, hi as int), in_class(class)),
{
    let mut j = hi;
    while j > lo && is_in_class(class, chars[j - 1])
        invariant
            lo <= j <= hi <= chars@.len(),
            strip_trailing(chars@.subrange(lo as int, j as int), in_class(class)) == strip_trailing(
                chars@.subrange(lo as int, hi as int),
                in_class(class),
            ),
        decreases j - lo,
    {
        proof {
            assert(chars@.subrange(lo as int, j as int).drop_last() =~= chars@.subrange(lo as int, j - 1));
        }
        j = j - 1;
    }
    j
}

/// Whether `s` holds exactly the characters of `t`.
pub fn chars_equal(s: &Vec<char>, t: &str) -> (eq: bool)
    ensures
        eq == (s@ == t@),
{
    let tv = chars_of(t);
    if s.len() != tv.len() {
        return false;
    }
    let mut i: usize = 0;
    while i < s.len()
        invariant
            s@.len() == tv@.len(),
            tv@ == t@,
            i <= s@.len(),
            forall|k: int| 0 <= k < i ==> s@[k] == tv@[k],
        decreases s@.len() - i,
    {
        if s[i] != tv[i] {
            return false;
        }
        i = i + 1;
    }
    proof {
        assert(s@ =~= tv@);
    }
    true
}

/// Whether `needle` occurs in `hay` starting at position `at`.
pub open spec fn occurs_at(hay: Seq<char>, needle: Seq<char>, at: int) -> bool {
    &&& 0 <= at
    &&& at + needle.len() <= hay.len()
    &&& hay.subrange(at, at + needle.len()) == needle
}

/// Whether `needle` occurs anywhere in `hay`.
pub open spec fn contains_seq(hay: Seq<char>, needle: Seq<char>) -> bool {
    exists|at: int| occurs_at(hay, needle, at)
}

/// Whether `hay` contains `needle` as a contiguous run of characters.
pub fn contains_str(hay: &str, needle: &str) -> (found: bool)
    ensures
        found == contains_seq(hay@, needle@),
{
    let h = chars_of(hay);
    let n = chars_of(needle);
    if n.len() == 0 {
        proof {
            assert(hay@.subrange(0, 0) =~= needle@);
            assert(occurs_at(hay@, needle@, 0));
        }
        return true;
    }
    if n.len() > h.len() {
        proof {
            assert forall|at: int| !occurs_at(hay@, needle@, at) by {}
        }
        return false;
    }
    let end = h.len() - n.len() + 1;
    let mut at: usize = 0;
    while at < end
        invariant
            h@ == hay@,
            n@ == needle@,
            1 <= n@.len() <= h@.len(),
            end == h@.len() - n@.len() + 1,
            at <= end,
            h@.len() <= usize::MAX,
            forall|a: int| 0 <= a < at ==> !occurs_at(hay@, needle@, a),
        decreases end - at,
    {
        let mut j: usize = 0;
        let mut matched = true;
        while j < n.len()
            invariant
                h@ == hay@,
                n@ == needle@,
                1 <= n@.len() <= h@.len(),
                at < end,
                end == h@.len() - n@.len() + 1,
                h@.len() <= usize::MAX,
                j <= n@.len(),
                matched == (forall|k: int| 0 <= k < j ==> h@[at + k] == n@[k]),
            decreases n@.len() - j,
        {
            if h[at + j] != n[j] {
                matched = false;
            }
            j = j + 1;
        }
        if matched {
            proof {
                assert(hay@.subrange(at as int, at + needle@.len()) =~= needle@);
                assert(occurs_at(hay@, needle@, at as int));
            }
            return true;
        }
        proof {
            assert(!occurs_at(hay@, needle@, at as int)) by {
                if occurs_at(hay@, needle@, at as int) {
                    assert forall|k: int| 0 <= k < n@.len() implies h@[at + k] == n@[k] by {
                        assert(hay@.subrange(at as int, at + needle@.len())[k] == needle@[k]);
                    }
                }
            }
        }
        at = at + 1;
    }
    false
}

/// Decimal digits of `n`, most significant first, without leading zeros.
pub open spec fn decimal(n: nat) -> Seq<char>
    decreases n,
{
    if n < 10 {
        seq![digit_char(n)]
    } else {
        decimal(n / 10).push(digit_char(n % 10))
    }
}

pub open spec fn digit_char(d: nat) -> char {
    if d == 0 { '0' }
    else if d == 1 { '1' }
    else if d == 2 { '2' }
    else if d == 3 { '3' }
    else if d == 4 { '4' }
    else if d == 5 { '5' }
    else if d == 6 { '6' }
    else if d == 7 { '7' }
    else if d == 8 { '8' }
    else { '9' }
}

fn digit(d: u64) -> (c: char)
    requires
        d < 10,
    ensures
        c == digit_char(d as nat),
{
    if d == 0 { '0' }
    else if d == 1 { '1' }
    else if d == 2 { '2' }
    else if d == 3 { '3' }
    else if d == 4 { '4' }
    else if d == 5 { '5' }
    else if d == 6 { '6' }
    else if d == 7 { '7' }
    else if d == 8 { '8' }
    else { '9' }
}

/// The decimal representation of `n`, as `u64::to_string` writes it.
pub fn decimal_string(n: u64) -> (s: String)
    ensures
        s@ == decimal(n as nat),
    decreases n,
{
    if n < 10 {
        let mut s = String::new();
        push_char(&mut s, digit(n));
        proof {
            assert(s@ =~= seq![digit_char(n as nat)]);
        }
        s
    } else {
        let mut s = decimal_string(n / 10);
        push_char(&mut s, digit(n % 10));
        s
    }
}

} // verus!
