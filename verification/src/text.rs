//! Character-level helpers shared by the rest of the library: whitespace
//! trimming, ASCII case folding, prefix tests and decimal rendering.

use vstd::prelude::*;

verus! {

/// The characters that `char::is_whitespace` accepts: the Unicode
/// `White_Space` property.
pub open spec fn is_space(c: char) -> bool {
    let u = c as u32;
    ||| 0x09 <= u <= 0x0d
    ||| u == 0x20
    ||| u == 0x85
    ||| u == 0xa0
    ||| u == 0x1680
    ||| 0x2000 <= u <= 0x200a
    ||| u == 0x2028
    ||| u == 0x2029
    ||| u == 0x202f
    ||| u == 0x205f
    ||| u == 0x3000
}

/// `s` without its leading whitespace.
pub open spec fn trim_front(s: Seq<char>) -> Seq<char>
    decreases s.len(),
{
    if s.len() > 0 && is_space(s[0]) {
        trim_front(s.drop_first())
    } else {
        s
    }
}

/// `s` without its trailing whitespace.
pub open spec fn trim_back(s: Seq<char>) -> Seq<char>
    decreases s.len(),
{
    if s.len() > 0 && is_space(s.last()) {
        trim_back(s.drop_last())
    } else {
        s
    }
}

/// `s` without leading and trailing whitespace, as `str::trim` gives it.
pub open spec fn trimmed(s: Seq<char>) -> Seq<char> {
    trim_back(trim_front(s))
}

/// Whether `c` is whitespace.
pub fn is_space_char(c: char) -> (b: bool)
    ensures
        b == is_space(c),
{
    let u = c as u32;
    (0x09 <= u && u <= 0x0d) || u == 0x20 || u == 0x85 || u == 0xa0 || u == 0x1680 || (0x2000
        <= u && u <= 0x200a) || u == 0x2028 || u == 0x2029 || u == 0x202f || u == 0x205f || u
        == 0x3000
}

/// The characters of `s`, one by one.
pub fn chars_of(s: &str) -> (res: Vec<char>)
    ensures
        res@ == s@,
{
    let n = s.unicode_len();
    let mut res: Vec<char> = Vec::new();
    let mut i: usize = 0;
    while i < n
        invariant
            n == s@.len(),
            i <= n,
            res@ == s@.subrange(0, i as int),
        decreases n - i,
    {
        res.push(s.get_char(i));
        i = i + 1;
    }
    assert(res@ =~= s@);
    res
}

proof fn lemma_trim_front_skip(s: Seq<char>, i: int)
    requires
        0 <= i < s.len(),
        is_space(s[i]),
    ensures
        trim_front(s.subrange(i, s.len() as int)) == trim_front(s.subrange(i + 1, s.len() as int)),
{
    assert(s.subrange(i, s.len() as int).drop_first() =~= s.subrange(i + 1, s.len() as int));
}

proof fn lemma_trim_back_skip(s: Seq<char>, j: int)
    requires
        0 < j <= s.len(),
        is_space(s[j - 1]),
    ensures
        trim_back(s.subrange(0, j)) == trim_back(s.subrange(0, j - 1)),
{
    assert(s.subrange(0, j).drop_last() =~= s.subrange(0, j - 1));
}

/// The characters `v[from..to]` as a new vector.
pub fn slice_chars(v: &Vec<char>, from: usize, to: usize) -> (res: Vec<char>)
    requires
        from <= to <= v.len(),
    ensures
        res@ == v@.subrange(from as int, to as int),
{
    let mut res: Vec<char> = Vec::new();
    let mut k = from;
    while k < to
        invariant
            from <= k <= to <= v.len(),
            res@ == v@.subrange(from as int, k as int),
        decreases to - k,
    {
        res.push(v[k]);
        k = k + 1;
    }
    res
}

/// `s` without leading and trailing whitespace.
pub fn trim(s: &str) -> (res: String)
    ensures
        res@ == trimmed(s@),
{
    let v = chars_of(s);
    let n = v.len();
    let mut i: usize = 0;
    assert(v@.subrange(0, n as int) =~= v@);
    while i < n && is_space_char(v[i])
        invariant
            n == v@.len(),
            i <= n,
            trim_front(v@) == trim_front(v@.subrange(i as int, n as int)),
        decreases n - i,
    {
        proof {
            lemma_trim_front_skip(v@, i as int);
        }
        i = i + 1;
    }
    let ghost front = v@.subrange(i as int, n as int);
    assert(trim_front(v@) == front);
    let mut j: usize = n;
    while j > i && is_space_char(v[j - 1])
        invariant
            n == v@.len(),
            i <= j <= n,
            front == v@.subrange(i as int, n as int),
            trim_back(front) == trim_back(v@.subrange(i as int, j as int)),
        decreases j - i,
    {
        proof {
            lemma_trim_back_skip(v@.subrange(i as int, j as int), (j - i) as int);
            assert(v@.subrange(i as int, j as int).subrange(0, (j - i) as int) =~= v@.subrange(
                i as int,
                j as int,
            ));
            assert(v@.subrange(i as int, j as int).subrange(0, (j - i - 1) as int) =~= v@.subrange(
                i as int,
                j - 1,
            ));
        }
        j = j - 1;
    }
    assert(v@.subrange(i as int, j as int).subrange(0, (j - i) as int) =~= v@.subrange(i as int, j as int));
    String::from_str(s.substring_char(i, j))
}


/// `c` with an ASCII capital letter mapped to its small letter, as a code point.
pub open spec fn ascii_fold(c: char) -> u32 {
    let u = c as u32;
    if 0x41 <= u <= 0x5a {
        (u + 0x20) as u32
    } else {
        u
    }
}

/// Whether `a` and `b` match when ASCII letters are compared without case,
/// as `str::eq_ignore_ascii_case` decides.
pub open spec fn same_ignoring_ascii_case(a: Seq<char>, b: Seq<char>) -> bool {
    &&& a.len() == b.len()
    &&& forall|i: int| 0 <= i < a.len() ==> #[trigger] ascii_fold(a[i]) == ascii_fold(b[i])
}

/// Whether `s` begins with `p`.
pub open spec fn has_prefix(s: Seq<char>, p: Seq<char>) -> bool {
    p.len() <= s.len() && s.subrange(0, p.len() as int) == p
}

/// Whether `s` ends with `p`.
pub open spec fn has_suffix(s: Seq<char>, p: Seq<char>) -> bool {
    p.len() <= s.len() && s.subrange(s.len() - p.len(), s.len() as int) == p
}

/// The ASCII case fold of one character.
pub fn fold_char(c: char) -> (r: u32)
    ensures
        r == ascii_fold(c),
{
    let u = c as u32;
    if 0x41 <= u && u <= 0x5a {
        u + 0x20
    } else {
        u
    }
}

/// Whether `a` and `b` are equal up to the case of ASCII letters.
pub fn eq_ignore_ascii_case(a: &str, b: &str) -> (r: bool)
    ensures
        r == same_ignoring_ascii_case(a@, b@),
{
    let va = chars_of(a);
    let vb = chars_of(b);
    if va.len() != vb.len() {
        return false;
    }
    let mut i: usize = 0;
    while i < va.len()
        invariant
            va@ == a@,
            vb@ == b@,
            va.len() == vb.len(),
            i <= va.len(),
            forall|k: int| 0 <= k < i ==> #[trigger] ascii_fold(a@[k]) == ascii_fold(b@[k]),
        decreases va.len() - i,
    {
        if fold_char(va[i]) != fold_char(vb[i]) {
            return false;
        }
        i = i + 1;
    }
    true
}

/// Whether the characters `v` begin with the characters `p`.
pub fn starts_with_chars(v: &Vec<char>, p: &Vec<char>) -> (r: bool)
    ensures
        r == has_prefix(v@, p@),
{
    if p.len() > v.len() {
        return false;
    }
    let mut i: usize = 0;
    while i < p.len()
        invariant
            p.len() <= v.len(),
            i <= p.len(),
            forall|k: int| 0 <= k < i ==> v@[k] == p@[k],
        decreases p.len() - i,
    {
        if v[i] != p[i] {
            assert(v@.subrange(0, p.len() as int)[i as int] != p@[i as int]);
            return false;
        }
        i = i + 1;
    }
    assert(v@.subrange(0, p.len() as int) =~= p@);
    true
}

/// Whether the characters `v` end with the characters `p`.
pub fn ends_with_chars(v: &Vec<char>, p: &Vec<char>) -> (r: bool)
    ensures
        r == has_suffix(v@, p@),
{
    if p.len() > v.len() {
        return false;
    }
    let start = v.len() - p.len();
    let mut i: usize = 0;
    while i < p.len()
        invariant
            p.len() <= v.len(),
            start == v.len() - p.len(),
            i <= p.len(),
            forall|k: int| 0 <= k < i ==> v@[start + k] == p@[k],
        decreases p.len() - i,
    {
        if v[start + i] != p[i] {
            assert(v@.subrange(start as int, v.len() as int)[i as int] != p@[i as int]);
            return false;
        }
        i = i + 1;
    }
    assert(v@.subrange(start as int, v.len() as int) =~= p@);
    true
}

/// Whether `s` ends with `p`.
pub fn ends_with(s: &str, p: &str) -> (r: bool)
    ensures
        r == has_suffix(s@, p@),
{
    let v = chars_of(s);
    let w = chars_of(p);
    ends_with_chars(&v, &w)
}

/// Whether `a` and `b` hold the same characters.
pub fn same_text(a: &str, b: &str) -> (r: bool)
    ensures
        r == (a@ == b@),
{
    let v = chars_of(a);
    let w = chars_of(b);
    if v.len() != w.len() {
        return false;
    }
    let r = starts_with_chars(&v, &w);
    assert(v@.subrange(0, w@.len() as int) =~= v@);
    r
}

/// What `str::to_lowercase` gives for a string with the characters `s`.
pub uninterp spec fn lowercase(s: Seq<char>) -> Seq<char>;

/// The small-letter form of an ASCII string: each capital letter replaced by
/// its small letter, every other character kept.
pub open spec fn ascii_lowered(s: Seq<char>) -> Seq<char> {
    s.map_values(|c: char| ascii_fold(c) as char)
}

/// Whether every character of `s` is ASCII.
pub open spec fn all_ascii(s: Seq<char>) -> bool {
    forall|i: int| 0 <= i < s.len() ==> (#[trigger] s[i] as u32) < 0x80
}

/// The lowercase form of `s`: the ASCII small-letter form when `s` is
/// ASCII, and what `str::to_lowercase` gives otherwise.
pub open spec fn lowered(s: Seq<char>) -> Seq<char> {
    if all_ascii(s) {
        ascii_lowered(s)
    } else {
        lowercase(s)
    }
}

/// Calls `str::to_lowercase`. Its result is named `lowercase`; for a string of
/// ASCII characters only, the contract states that it is the ASCII small-letter
/// form, as Unicode lowercasing maps ASCII capitals to ASCII small letters and
/// leaves every other ASCII character alone. For other strings nothing more is
/// stated than the name.
#[verifier::external_body]
pub(crate) fn to_lowercase(s: &str) -> (res: String)
    ensures
        res@ == lowercase(s@),
        all_ascii(s@) ==> res@ == ascii_lowered(s@),
        res@ == lowered(s@),
{
    s.to_lowercase()
}

/// The decimal digit character for `d`, which is below ten.
pub open spec fn digit_char(d: nat) -> char {
    (0x30 + d) as char
}

/// The decimal numeral of `n`, without sign or leading zeros.
pub open spec fn decimal(n: nat) -> Seq<char>
    decreases n,
{
    if n < 10 {
        seq![digit_char(n)]
    } else {
        decimal(n / 10).push(digit_char(n % 10))
    }
}

/// `s` read from its last character to its first.
pub open spec fn flipped(s: Seq<char>) -> Seq<char> {
    Seq::new(s.len(), |i: int| s[s.len() - 1 - i])
}

/// The digit character of `d`, which is below ten.
fn digit_of(d: u64) -> (c: char)
    requires
        d < 10,
    ensures
        c == digit_char(d as nat),
{
    let b: u8 = 0x30u8 + (d as u8);
    b as char
}

/// The decimal numeral of `n`, as `n.to_string()` writes it.
pub fn decimal_string(n: u64) -> (res: String)
    ensures
        res@ == decimal(n as nat),
{
    let mut rev: Vec<char> = Vec::new();
    let mut m: u64 = n;
    assert(decimal(n as nat) =~= decimal(m as nat) + flipped(rev@));
    loop
        invariant_except_break
            decimal(n as nat) == decimal(m as nat) + flipped(rev@),
        invariant
            forall|t: int| 0 <= t < rev@.len() ==> 0x30 <= (#[trigger] rev@[t] as u32) <= 0x39,
        ensures
            decimal(n as nat) == flipped(rev@),
        decreases m,
    {
        let c = digit_of(m % 10);
        let ghost old_rev = rev@;
        rev.push(c);
        assert(flipped(rev@) =~= seq![c] + flipped(old_rev));
        if m < 10 {
            assert(decimal(m as nat) =~= seq![c]);
            assert(decimal(n as nat) =~= flipped(rev@));
            break;
        }
        assert(decimal(m as nat) == decimal((m / 10) as nat).push(c));
        assert(decimal(m as nat) + flipped(old_rev) =~= decimal((m / 10) as nat) + flipped(rev@));
        m = m / 10;
    }
    let mut out = String::new();
    let mut k: usize = rev.len();
    while k > 0
        invariant
            k <= rev.len(),
            out@ =~= Seq::new((rev@.len() - k) as nat, |i: int| rev@[rev@.len() - 1 - i]),
            forall|t: int| 0 <= t < rev@.len() ==> 0x30 <= (#[trigger] rev@[t] as u32) <= 0x39,
        decreases k,
    {
        k = k - 1;
        let ghost before = out@;
        append_digit(&mut out, rev[k]);
        assert(out@ =~= before.push(rev@[k as int]));
    }
    assert(out@ =~= flipped(rev@));
    out
}

/// Appends the decimal digit character `c` to `out`.
fn append_digit(out: &mut String, c: char)
    requires
        0x30 <= (c as u32) <= 0x39,
    ensures
        final(out)@ == old(out)@.push(c),
{
    proof {
        reveal_strlit("0");
        reveal_strlit("1");
        reveal_strlit("2");
        reveal_strlit("3");
        reveal_strlit("4");
        reveal_strlit("5");
        reveal_strlit("6");
        reveal_strlit("7");
        reveal_strlit("8");
        reveal_strlit("9");
    }
    let digit = match c {
        '0' => "0",
        '1' => "1",
        '2' => "2",
        '3' => "3",
        '4' => "4",
        '5' => "5",
        '6' => "6",
        '7' => "7",
        '8' => "8",
        _ => "9",
    };
    assert(digit@ =~= seq![c]);
    out.append(digit);
}

/// The number of characters of `s` before the first `c` (all of them when
/// `c` does not occur).
pub open spec fn chars_before(s: Seq<char>, c: char) -> nat
    decreases s.len(),
{
    if s.len() == 0 {
        0
    } else if s[0] == c {
        0
    } else {
        1 + chars_before(s.drop_first(), c)
    }
}

/// `chars_before` stops at the first `c`, or at the end of the text.
pub proof fn chars_before_bounds(s: Seq<char>, c: char)
    ensures
        chars_before(s, c) <= s.len(),
        chars_before(s, c) < s.len() ==> s[chars_before(s, c) as int] == c,
        forall|i: int| 0 <= i < chars_before(s, c) ==> s[i] != c,
        chars_before(s, c) == s.len() ==> !s.contains(c),
    decreases s.len(),
{
    if s.len() > 0 && s[0] != c {
        chars_before_bounds(s.drop_first(), c);
        assert forall|i: int| 0 <= i < chars_before(s, c) implies s[i] != c by {
            if i > 0 {
                assert(s[i] == s.drop_first()[i - 1]);
            }
        }
    }
}

/// The position of the first `c` in `v` at or after `from`, or the length of
/// `v` when there is none.
pub fn find_char(v: &Vec<char>, from: usize, c: char) -> (k: usize)
    requires
        from <= v.len(),
    ensures
        from <= k <= v.len(),
        k - from == chars_before(v@.subrange(from as int, v.len() as int), c),
{
    let n = v.len();
    let mut j: usize = from;
    while j < n && v[j] != c
        invariant
            n == v.len(),
            from <= j <= n,
            chars_before(v@.subrange(from as int, n as int), c) == (j - from) + chars_before(
                v@.subrange(j as int, n as int),
                c,
            ),
        decreases n - j,
    {
        assert(v@.subrange(j as int, n as int).drop_first() =~= v@.subrange(j + 1, n as int));
        j = j + 1;
    }
    j
}

proof fn trim_front_from(s: Seq<char>, a: int)
    requires
        0 <= a <= s.len(),
        forall|i: int| 0 <= i < a ==> is_space(s[i]),
        a < s.len() ==> !is_space(s[a]),
    ensures
        trim_front(s) == s.subrange(a, s.len() as int),
    decreases a,
{
    if a == 0 {
        assert(s.subrange(0, s.len() as int) =~= s);
    } else {
        let t = s.drop_first();
        assert forall|i: int| 0 <= i < a - 1 implies is_space(t[i]) by {
            assert(t[i] == s[i + 1]);
        }
        trim_front_from(t, a - 1);
        assert(t.subrange(a - 1, t.len() as int) =~= s.subrange(a, s.len() as int));
    }
}

proof fn trim_back_to(s: Seq<char>, b: int)
    requires
        0 <= b <= s.len(),
        forall|i: int| b <= i < s.len() ==> is_space(s[i]),
        b > 0 ==> !is_space(s[b - 1]),
    ensures
        trim_back(s) == s.subrange(0, b),
    decreases s.len() - b,
{
    if b == s.len() {
        assert(s.subrange(0, b) =~= s);
    } else {
        let t = s.drop_last();
        trim_back_to(t, b);
        assert(t.subrange(0, b) =~= s.subrange(0, b));
    }
}

/// When `s` has only whitespace before position `a` and from position `b`
/// on, and none at `a` and at `b - 1`, trimming leaves `s[a..b]`.
pub proof fn trimmed_between(s: Seq<char>, a: int, b: int)
    requires
        0 <= a < b <= s.len(),
        forall|i: int| 0 <= i < a ==> is_space(s[i]),
        forall|i: int| b <= i < s.len() ==> is_space(s[i]),
        !is_space(s[a]),
        !is_space(s[b - 1]),
    ensures
        trimmed(s) == s.subrange(a, b),
{
    trim_front_from(s, a);
    let f = s.subrange(a, s.len() as int);
    assert forall|i: int| b - a <= i < f.len() implies is_space(f[i]) by {
        assert(f[i] == s[i + a]);
    }
    trim_back_to(f, b - a);
    assert(f.subrange(0, b - a) =~= s.subrange(a, b));
}

/// Dropping trailing whitespace keeps the first character when it is no
/// whitespace.
proof fn trim_back_keeps_first(s: Seq<char>)
    requires
        s.len() > 0,
        !is_space(s[0]),
    ensures
        trim_back(s).len() > 0,
        trim_back(s)[0] == s[0],
    decreases s.len(),
{
    if is_space(s.last()) {
        assert(s.len() > 1);
        trim_back_keeps_first(s.drop_last());
    }
}

/// Trimming keeps the first character when it is no whitespace.
pub proof fn trimmed_keeps_first(s: Seq<char>)
    requires
        s.len() > 0,
        !is_space(s[0]),
    ensures
        trimmed(s).len() > 0,
        trimmed(s)[0] == s[0],
{
    assert(trim_front(s) == s);
    trim_back_keeps_first(s);
}

} // verus!
