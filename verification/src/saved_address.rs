//! The small settings file that remembers the server address between runs.
//! It holds lines of text; the line `NAS_IP=<address>` gives the address.

use vstd::prelude::*;
use crate::text::{
    chars_before, chars_before_bounds, chars_of, find_char, has_prefix, is_space, slice_chars, starts_with_chars, trim, trim_back,
    trim_front, trimmed,
};

verus! {

/// The key that starts the address line.
pub open spec fn address_key() -> Seq<char> {
    "NAS_IP="@
}

/// The number of characters before the first line break of `s` (all of
/// them when there is none).
pub open spec fn line_end(s: Seq<char>) -> nat {
    chars_before(s, '\n')
}

/// The address that the settings text `content` holds: the rest of the first
/// line that starts with `NAS_IP=`, without surrounding whitespace, or the
/// empty text when no line does.
pub open spec fn saved_address(content: Seq<char>) -> Seq<char>
    decreases content.len(),
{
    let k = line_end(content);
    let line = content.subrange(0, k as int);
    if has_prefix(line, address_key()) {
        trimmed(line.subrange(address_key().len() as int, line.len() as int))
    } else if k < content.len() {
        proof {
            chars_before_bounds(content, '\n');
        }
        saved_address(content.subrange(k + 1 as int, content.len() as int))
    } else {
        Seq::empty()
    }
}

/// The settings text that records the address `ip`.
pub open spec fn address_file_text(ip: Seq<char>) -> Seq<char> {
    address_key() + ip + seq!['\n']
}

/// The address held by the settings text `content`.
pub fn read_saved_address(content: &str) -> (res: String)
    ensures
        res@ == saved_address(content@),
{
    let v = chars_of(content);
    let key = chars_of("NAS_IP=");
    let n = v.len();
    let mut pos: usize = 0;
    assert(v@.subrange(0, n as int) =~= v@);
    loop
        invariant
            v@ == content@,
            n == v.len(),
            key@ == address_key(),
            pos <= n,
            saved_address(content@) == saved_address(v@.subrange(pos as int, n as int)),
        decreases n - pos,
    {
        let ghost rest = v@.subrange(pos as int, n as int);
        let j = find_char(&v, pos, '\n');
        assert(line_end(rest) == j - pos);
        let line = slice_chars(&v, pos, j);
        assert(line@ =~= rest.subrange(0, (j - pos) as int));
        if starts_with_chars(&line, &key) {
            let value = content.substring_char(pos + key.len(), j);
            assert(value@ =~= line@.subrange(key.len() as int, line.len() as int));
            return trim(value);
        }
        if j == n {
            return String::new();
        }
        assert(rest.subrange((j - pos) + 1, rest.len() as int) =~= v@.subrange(j + 1, n as int));
        pos = j + 1;
    }
}

/// The settings text that records the address `ip`.
pub fn address_file(ip: &str) -> (res: String)
    ensures
        res@ == address_file_text(ip@),
{
    let mut res = String::from_str("NAS_IP=");
    res.append(ip);
    res.append("\n");
    proof {
        reveal_strlit("\n");
    }
    res
}

proof fn trim_front_shape(s: Seq<char>) -> (m: int)
    ensures
        0 <= m <= s.len(),
        trim_front(s) == s.subrange(m, s.len() as int),
        m < s.len() ==> !is_space(s[m]),
    decreases s.len(),
{
    if s.len() > 0 && is_space(s[0]) {
        let m1 = trim_front_shape(s.drop_first());
        assert(s.drop_first().subrange(m1, s.len() - 1) =~= s.subrange(m1 + 1, s.len() as int));
        m1 + 1
    } else {
        assert(s.subrange(0, s.len() as int) =~= s);
        0
    }
}

proof fn trim_back_shape(s: Seq<char>) -> (m: int)
    ensures
        0 <= m <= s.len(),
        trim_back(s) == s.subrange(0, m),
        m > 0 ==> !is_space(s[m - 1]),
    decreases s.len(),
{
    if s.len() > 0 && is_space(s.last()) {
        let m1 = trim_back_shape(s.drop_last());
        assert(s.drop_last().subrange(0, m1) =~= s.subrange(0, m1));
        m1
    } else {
        assert(s.subrange(0, s.len() as int) =~= s);
        s.len() as int
    }
}

/// Trimming twice is trimming once.
pub proof fn trimmed_twice(s: Seq<char>)
    ensures
        trimmed(trimmed(s)) == trimmed(s),
{
    let a = trim_front_shape(s);
    let f = trim_front(s);
    let b = trim_back_shape(f);
    let t = trimmed(s);
    assert(t == f.subrange(0, b));
    if t.len() > 0 {
        assert(t[0] == f[0]);
        assert(!is_space(t[0]));
        assert(trim_front(t) == t);
        assert(t.last() == f[b - 1]);
        assert(trim_back(t) == t);
    } else {
        assert(trim_front(t) == t);
    }
}

/// Reading back the text written for an address gives that address without
/// surrounding whitespace, for every address on one line.
pub proof fn saved_address_round_trip(ip: Seq<char>)
    requires
        !ip.contains('\n'),
    ensures
        saved_address(address_file_text(ip)) == trimmed(ip),
{
    reveal_strlit("NAS_IP=");
    let text = address_file_text(ip);
    let k: int = (address_key().len() + ip.len()) as int;
    assert forall|i: int| 0 <= i < k implies text[i] != '\n' by {
        if i >= address_key().len() {
            assert(text[i] == ip[i - address_key().len()]);
        }
    }
    assert(text[k] == '\n');
    chars_before_bounds(text, '\n');
    assert(line_end(text) == k) by {
        if line_end(text) < k {
            assert(text[line_end(text) as int] == '\n');
        }
    }
    let line = text.subrange(0, k);
    assert(line.subrange(0, address_key().len() as int) =~= address_key());
    assert(line.subrange(address_key().len() as int, line.len() as int) =~= ip);
}

/// Saving the trimmed address and reading it back gives that same address:
/// the address field shows after a restart what was used for the last login.
pub proof fn saved_address_restores_login(ip: Seq<char>)
    requires
        !ip.contains('\n'),
    ensures
        saved_address(address_file_text(trimmed(ip))) == trimmed(ip),
{
    let t = trimmed(ip);
    assert(!t.contains('\n')) by {
        let a = trim_front_shape(ip);
        let b = trim_back_shape(trim_front(ip));
        if t.contains('\n') {
            let i = choose|i: int| 0 <= i < t.len() && t[i] == '\n';
            assert(t[i] == ip[a + i]);
        }
    }
    saved_address_round_trip(t);
    trimmed_twice(ip);
}

} // verus!
