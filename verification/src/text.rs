//! Text helpers shared by the protocol and the diagnostics code.

use vstd::prelude::*;
use vstd::utf8::*;

verus! {

/// Decodes `bytes` as UTF-8 with `std::str::from_utf8`.
///
/// Trusted: std documents that `from_utf8` succeeds exactly on valid UTF-8
/// and then yields the string those bytes encode; the contract states both
/// with vstd's model of UTF-8.
#[verifier::external_body]
pub fn utf8_to_string(bytes: &[u8]) -> (res: Option<String>)
    ensures
        res is Some <==> valid_utf8(bytes@),
        res matches Some(s) ==> s@ == decode_utf8(bytes@),
{
    match std::str::from_utf8(bytes) {
        Ok(s) => Some(s.to_string()),
        Err(_) => None,
    }
}

/// Whether two strings hold the same characters (compared through their
/// UTF-8 bytes).
pub fn str_eq(a: &str, b: &str) -> (eq: bool)
    ensures
        eq == (a@ == b@),
{
    let x = a.as_bytes();
    let y = b.as_bytes();
    proof {
        encode_utf8_decode_utf8(a@);
        encode_utf8_decode_utf8(b@);
    }
    if x.len() != y.len() {
        assert(a@ != b@) by {
            if a@ == b@ {
                assert(x@ == encode_utf8(b@));
            }
        }
        return false;
    }
    let mut i: usize = 0;
    while i < x.len()
        invariant
            x@.len() == y@.len(),
            x@ == encode_utf8(a@),
            y@ == encode_utf8(b@),
            i <= x@.len(),
            forall|k: int| 0 <= k < i ==> x@[k] == y@[k],
        decreases x@.len() - i,
    {
        if x[i] != y[i] {
            assert(x@[i as int] != y@[i as int]);
            assert(a@ != b@) by {
                if a@ == b@ {
                    assert(x@ == encode_utf8(b@));
                }
            }
            return false;
        }
        i += 1;
    }
    assert(x@ =~= y@);
    true
}

/// The characters of a string.
pub fn chars_of(s: &str) -> (v: Vec<char>)
    ensures
        v@ == s@,
{
    let mut v: Vec<char> = Vec::new();
    for c in it: s.chars()
        invariant
            v@ == it.history(),
    {
        v.push(c);
    }
    v
}

/// Whether `c` has Unicode's White_Space property, which
/// `char::is_whitespace` tests and `str::trim` removes.
pub open spec fn is_white_space(c: char) -> bool {
    let v = c as u32;
    ||| 0x09 <= v <= 0x0D
    ||| v == 0x20
    ||| v == 0x85
    ||| v == 0xA0
    ||| v == 0x1680
    ||| 0x2000 <= v <= 0x200A
    ||| v == 0x2028
    ||| v == 0x2029
    ||| v == 0x202F
    ||| v == 0x205F
    ||| v == 0x3000
}

/// `s` without the white space it starts with.
pub open spec fn trim_start_ws(s: Seq<char>) -> Seq<char>
    decreases s.len(),
{
    if s.len() > 0 && is_white_space(s[0]) {
        trim_start_ws(s.drop_first())
    } else {
        s
    }
}

/// `s` without the white space it ends with.
pub open spec fn trim_end_ws(s: Seq<char>) -> Seq<char>
    decreases s.len(),
{
    if s.len() > 0 && is_white_space(s.last()) {
        trim_end_ws(s.drop_last())
    } else {
        s
    }
}

/// What `str::trim` leaves of a string: the string without its leading and
/// trailing white space.
pub open spec fn trimmed(s: Seq<char>) -> Seq<char> {
    trim_end_ws(trim_start_ws(s))
}

/// Whether `c` is white space.
pub fn char_is_white_space(c: char) -> (b: bool)
    ensures
        b == is_white_space(c),
{
    let v = c as u32;
    (0x09 <= v && v <= 0x0D) || v == 0x20 || v == 0x85 || v == 0xA0 || v == 0x1680 || (0x2000 <= v
        && v <= 0x200A) || v == 0x2028 || v == 0x2029 || v == 0x202F || v == 0x205F || v == 0x3000
}

/// `s` without its leading and trailing white space.
pub fn trim_chars(s: &[char]) -> (r: Vec<char>)
    ensures
        r@ == trimmed(s@),
{
    let mut a: usize = 0;
    assert(s@.skip(0) =~= s@);
    while a < s.len() && char_is_white_space(s[a])
        invariant
            a <= s@.len(),
            trim_start_ws(s@) == trim_start_ws(s@.skip(a as int)),
        decreases s@.len() - a,
    {
        assert(s@.skip(a as int).drop_first() =~= s@.skip(a + 1));
        a += 1;
    }
    assert(trim_start_ws(s@) == s@.skip(a as int));
    let mut b: usize = s.len();
    assert(s@.skip(a as int) =~= s@.subrange(a as int, b as int));
    while b > a && char_is_white_space(s[b - 1])
        invariant
            a <= b <= s@.len(),
            trimmed(s@) == trim_end_ws(s@.subrange(a as int, b as int)),
        decreases b - a,
    {
        assert(s@.subrange(a as int, b as int).drop_last() =~= s@.subrange(a as int, b - 1));
        b -= 1;
    }
    copy_range(s, a, b)
}

/// Removes leading and trailing white space, as `str::trim` does.
pub fn trim_text(s: &str) -> (t: String)
    ensures
        t@ == trimmed(s@),
{
    let cs = chars_of(s);
    let r = trim_chars(cs.as_slice());
    string_from_chars(r.as_slice())
}

/// What `str::to_lowercase` makes of a string: each character replaced by
/// its Unicode lowercase mapping.
pub uninterp spec fn lowercased(s: Seq<char>) -> Seq<char>;

/// Lowercases a string with `str::to_lowercase`.
///
/// Trusted: the result depends on `s` alone and is named by `lowercased`;
/// Unicode's case mapping tables, which `to_lowercase` follows, are not
/// stated.
#[verifier::external_body]
pub fn lowercase_text(s: &str) -> (t: String)
    ensures
        t@ == lowercased(s@),
{
    s.to_lowercase()
}

/// Whether `s` ends with `suffix`.
pub open spec fn ends_with(s: Seq<char>, suffix: Seq<char>) -> bool {
    suffix.len() <= s.len() && s.skip(s.len() - suffix.len()) == suffix
}

/// Whether `s` starts with `prefix`.
pub open spec fn starts_with(s: Seq<char>, prefix: Seq<char>) -> bool {
    prefix.len() <= s.len() && s.take(prefix.len() as int) == prefix
}

/// Whether the characters `s` end with `suffix`.
pub fn chars_end_with(s: &[char], suffix: &[char]) -> (b: bool)
    ensures
        b == ends_with(s@, suffix@),
{
    if suffix.len() > s.len() {
        return false;
    }
    let off = s.len() - suffix.len();
    let mut i: usize = 0;
    while i < suffix.len()
        invariant
            off + suffix@.len() == s@.len(),
            s@.len() <= usize::MAX,
            i <= suffix@.len(),
            forall|k: int| 0 <= k < i ==> s@[off + k] == suffix@[k],
        decreases suffix@.len() - i,
    {
        if s[off + i] != suffix[i] {
            assert(s@.skip(off as int)[i as int] != suffix@[i as int]);
            return false;
        }
        i += 1;
    }
    assert(s@.skip(off as int) =~= suffix@);
    true
}

/// Whether the characters `s` start with `prefix`.
pub fn chars_start_with(s: &[char], prefix: &[char]) -> (b: bool)
    ensures
        b == starts_with(s@, prefix@),
{
    if prefix.len() > s.len() {
        return false;
    }
    let mut i: usize = 0;
    while i < prefix.len()
        invariant
            prefix@.len() <= s@.len(),
            i <= prefix@.len(),
            forall|k: int| 0 <= k < i ==> s@[k] == prefix@[k],
        decreases prefix@.len() - i,
    {
        if s[i] != prefix[i] {
            assert(s@.take(prefix@.len() as int)[i as int] != prefix@[i as int]);
            return false;
        }
        i += 1;
    }
    assert(s@.take(prefix@.len() as int) =~= prefix@);
    true
}

/// Appends the UTF-8 encoding of `c`.
fn push_utf8(bytes: &mut Vec<u8>, c: char)
    ensures
        final(bytes)@ == old(bytes)@ + encode_scalar(c as u32),
{
    let v = c as u32;
    proof {
        char_is_scalar(c);
    }
    if v <= 0x7F {
        bytes.push((v & 0x7F) as u8);
    } else if v <= 0x7FF {
        bytes.push(0xC0u8 | ((v >> 6u32) & 0x1F) as u8);
        bytes.push(0x80u8 | (v & 0x3F) as u8);
    } else if v <= 0xFFFF {
        bytes.push(0xE0u8 | ((v >> 12u32) & 0x0F) as u8);
        bytes.push(0x80u8 | ((v >> 6u32) & 0x3F) as u8);
        bytes.push(0x80u8 | (v & 0x3F) as u8);
    } else {
        bytes.push(0xF0u8 | ((v >> 18u32) & 0x7) as u8);
        bytes.push(0x80u8 | ((v >> 12u32) & 0x3F) as u8);
        bytes.push(0x80u8 | ((v >> 6u32) & 0x3F) as u8);
        bytes.push(0x80u8 | (v & 0x3F) as u8);
    }
}

/// The string made of the characters `cs`.
pub fn string_from_chars(cs: &[char]) -> (s: String)
    ensures
        s@ == cs@,
{
    let mut bytes: Vec<u8> = Vec::new();
    let mut i: usize = 0;
    assert(cs@.skip(0) =~= cs@);
    while i < cs.len()
        invariant
            i <= cs@.len(),
            bytes@ + encode_utf8(cs@.skip(i as int)) == encode_utf8(cs@),
        decreases cs@.len() - i,
    {
        let ghost rest = cs@.skip(i as int);
        assert(rest.drop_first() =~= cs@.skip(i + 1));
        assert(rest[0] == cs@[i as int]);
        push_utf8(&mut bytes, cs[i]);
        i += 1;
        assert(bytes@ + encode_utf8(cs@.skip(i as int)) =~= encode_utf8(cs@));
    }
    assert(cs@.skip(cs@.len() as int) =~= Seq::<char>::empty());
    assert(bytes@ =~= encode_utf8(cs@));
    proof {
        encode_utf8_valid_utf8(cs@);
        encode_utf8_decode_utf8(cs@);
    }
    match utf8_to_string(bytes.as_slice()) {
        Some(s) => s,
        None => String::new(),
    }
}

/// Appends the characters of `s`.
pub fn push_str(buf: &mut Vec<char>, s: &str)
    ensures
        final(buf)@ == old(buf)@ + s@,
{
    let cs = chars_of(s);
    push_chars(buf, cs.as_slice());
}

/// Appends the characters `cs`.
pub fn push_chars(buf: &mut Vec<char>, cs: &[char])
    ensures
        final(buf)@ == old(buf)@ + cs@,
{
    let ghost start = buf@;
    let mut i: usize = 0;
    while i < cs.len()
        invariant
            i <= cs@.len(),
            buf@ == start + cs@.take(i as int),
        decreases cs@.len() - i,
    {
        buf.push(cs[i]);
        i += 1;
        assert(cs@.take(i as int) =~= cs@.take(i - 1).push(cs@[i - 1]));
    }
    assert(cs@.take(cs@.len() as int) =~= cs@);
}

/// The pieces of `s` between its `sep` characters, in order: one more
/// piece than `s` has separators.
pub open spec fn split_on(s: Seq<char>, sep: char) -> Seq<Seq<char>>
    decreases s.len(),
{
    if s.len() == 0 {
        seq![Seq::<char>::empty()]
    } else {
        let p = split_on(s.drop_last(), sep);
        if s.last() == sep {
            p.push(Seq::<char>::empty())
        } else {
            p.update(p.len() - 1, p.last().push(s.last()))
        }
    }
}

/// The pieces of `s` between its newline characters.
pub open spec fn newline_pieces(s: Seq<char>) -> Seq<Seq<char>> {
    split_on(s, '\n')
}

/// A line without the carriage return that ends a `\r\n` line ending.
pub open spec fn strip_cr(l: Seq<char>) -> Seq<char> {
    if l.len() > 0 && l.last() == '\r' {
        l.drop_last()
    } else {
        l
    }
}

/// The lines of `s`, as `str::lines` yields them: split at each `\n`, a
/// `\r` just before a `\n` dropped, and no empty line after a final `\n`.
pub open spec fn lines(s: Seq<char>) -> Seq<Seq<char>> {
    let p = newline_pieces(s);
    let ended = Seq::new((p.len() - 1) as nat, |k: int| strip_cr(p[k]));
    if p.last().len() == 0 {
        ended
    } else {
        ended.push(p.last())
    }
}

/// The characters of each vector in `v`.
pub open spec fn char_lines(v: Seq<Vec<char>>) -> Seq<Seq<char>> {
    Seq::new(v.len(), |k: int| v[k]@)
}

/// `l` without a final carriage return.
fn strip_cr_chars(l: Vec<char>) -> (r: Vec<char>)
    ensures
        r@ == strip_cr(l@),
{
    let mut l = l;
    let n = l.len();
    if n > 0 && l[n - 1] == '\r' {
        l.pop();
    }
    l
}

/// The lines of `s`, each as its characters.
pub fn text_lines(s: &str) -> (ls: Vec<Vec<char>>)
    ensures
        char_lines(ls@) == lines(s@),
{
    let cs = chars_of(s);
    let mut done: Vec<Vec<char>> = Vec::new();
    let mut cur: Vec<char> = Vec::new();
    let mut i: usize = 0;
    assert(cs@.take(0) =~= Seq::<char>::empty());
    while i < cs.len()
        invariant
            i <= cs@.len(),
            newline_pieces(cs@.take(i as int)).len() == done@.len() + 1,
            forall|k: int|
                0 <= k < done@.len() ==> done@[k]@ == strip_cr(
                    #[trigger] newline_pieces(cs@.take(i as int))[k],
                ),
            newline_pieces(cs@.take(i as int)).last() == cur@,
        decreases cs@.len() - i,
    {
        let ghost before = newline_pieces(cs@.take(i as int));
        let c = cs[i];
        assert(cs@.take(i + 1).drop_last() =~= cs@.take(i as int));
        assert(cs@.take(i + 1).last() == c);
        if c == '\n' {
            let line = strip_cr_chars(cur);
            done.push(line);
            cur = Vec::new();
            assert(newline_pieces(cs@.take(i + 1)) == before.push(Seq::<char>::empty()));
        } else {
            cur.push(c);
            assert(newline_pieces(cs@.take(i + 1)) == before.update(
                before.len() - 1,
                before.last().push(c),
            ));
        }
        i += 1;
    }
    assert(cs@.take(cs@.len() as int) =~= s@);
    let ghost p = newline_pieces(s@);
    if cur.len() > 0 {
        done.push(cur);
    }
    assert(char_lines(done@) =~= lines(s@));
    done
}

/// The first of `ls` that starts with `prefix`.
pub open spec fn first_starting(ls: Seq<Seq<char>>, prefix: Seq<char>) -> Option<Seq<char>>
    decreases ls.len(),
{
    if ls.len() == 0 {
        None
    } else if starts_with(ls[0], prefix) {
        Some(ls[0])
    } else {
        first_starting(ls.drop_first(), prefix)
    }
}

/// What a search by prefix finds starts with the prefix.
pub proof fn lemma_first_starting_starts(ls: Seq<Seq<char>>, prefix: Seq<char>)
    ensures
        first_starting(ls, prefix) matches Some(l) ==> starts_with(l, prefix),
    decreases ls.len(),
{
    if ls.len() > 0 && !starts_with(ls[0], prefix) {
        lemma_first_starting_starts(ls.drop_first(), prefix);
    }
}

/// The index of the first of `ls` that starts with `prefix`.
pub fn find_starting(ls: &Vec<Vec<char>>, prefix: &[char]) -> (r: Option<usize>)
    ensures
        match r {
            Some(k) => k < ls@.len() && first_starting(char_lines(ls@), prefix@) == Some(
                ls@[k as int]@,
            ),
            None => first_starting(char_lines(ls@), prefix@) is None,
        },
{
    let ghost all = char_lines(ls@);
    let mut i: usize = 0;
    assert(all.skip(0) =~= all);
    while i < ls.len()
        invariant
            i <= ls@.len(),
            all == char_lines(ls@),
            first_starting(all, prefix@) == first_starting(all.skip(i as int), prefix@),
        decreases ls@.len() - i,
    {
        assert(all.skip(i as int)[0] == ls@[i as int]@);
        assert(all.skip(i as int).drop_first() =~= all.skip(i + 1));
        if chars_start_with(ls[i].as_slice(), prefix) {
            return Some(i);
        }
        i += 1;
    }
    assert(all.skip(i as int) =~= Seq::<Seq<char>>::empty());
    None
}

/// `s` without the copies of `c` it starts with.
pub open spec fn drop_leading(s: Seq<char>, c: char) -> Seq<char>
    decreases s.len(),
{
    if s.len() > 0 && s[0] == c {
        drop_leading(s.drop_first(), c)
    } else {
        s
    }
}

/// `s` without the copies of `c` it ends with.
pub open spec fn drop_trailing(s: Seq<char>, c: char) -> Seq<char>
    decreases s.len(),
{
    if s.len() > 0 && s.last() == c {
        drop_trailing(s.drop_last(), c)
    } else {
        s
    }
}

/// `s` without the copies of `c` it starts or ends with, as
/// `str::trim_matches` does with a character.
pub fn trim_char(s: &[char], c: char) -> (r: Vec<char>)
    ensures
        r@ == drop_trailing(drop_leading(s@, c), c),
{
    let mut a: usize = 0;
    assert(s@.skip(0) =~= s@);
    while a < s.len() && s[a] == c
        invariant
            a <= s@.len(),
            drop_leading(s@, c) == drop_leading(s@.skip(a as int), c),
        decreases s@.len() - a,
    {
        assert(s@.skip(a as int).drop_first() =~= s@.skip(a + 1));
        a += 1;
    }
    assert(drop_leading(s@, c) == s@.skip(a as int));
    let mut b: usize = s.len();
    assert(s@.skip(a as int) =~= s@.subrange(a as int, b as int));
    while b > a && s[b - 1] == c
        invariant
            a <= b <= s@.len(),
            drop_trailing(drop_leading(s@, c), c) == drop_trailing(
                s@.subrange(a as int, b as int),
                c,
            ),
        decreases b - a,
    {
        assert(s@.subrange(a as int, b as int).drop_last() =~= s@.subrange(a as int, b - 1));
        b -= 1;
    }
    copy_range(s, a, b)
}

/// The pieces of `s` between its `sep` characters.
pub fn split_chars(s: &[char], sep: char) -> (ps: Vec<Vec<char>>)
    ensures
        char_lines(ps@) == split_on(s@, sep),
{
    let mut done: Vec<Vec<char>> = Vec::new();
    let mut cur: Vec<char> = Vec::new();
    let mut i: usize = 0;
    assert(s@.take(0) =~= Seq::<char>::empty());
    while i < s.len()
        invariant
            i <= s@.len(),
            split_on(s@.take(i as int), sep).len() == done@.len() + 1,
            forall|k: int|
                0 <= k < done@.len() ==> done@[k]@ == #[trigger] split_on(s@.take(i as int), sep)[k],
            split_on(s@.take(i as int), sep).last() == cur@,
        decreases s@.len() - i,
    {
        let ghost before = split_on(s@.take(i as int), sep);
        let c = s[i];
        assert(s@.take(i + 1).drop_last() =~= s@.take(i as int));
        assert(s@.take(i + 1).last() == c);
        if c == sep {
            done.push(cur);
            cur = Vec::new();
            assert(split_on(s@.take(i + 1), sep) == before.push(Seq::<char>::empty()));
        } else {
            cur.push(c);
            assert(split_on(s@.take(i + 1), sep) == before.update(before.len() - 1, before.last().push(c)));
        }
        i += 1;
    }
    assert(s@.take(s@.len() as int) =~= s@);
    done.push(cur);
    assert(char_lines(done@) =~= split_on(s@, sep));
    done
}

/// Whether `needle` occurs in `s` at position `i`.
pub open spec fn infix_at(s: Seq<char>, needle: Seq<char>, i: int) -> bool {
    0 <= i && i + needle.len() <= s.len() && s.subrange(i, i + needle.len()) == needle
}

/// Whether `needle` occurs in `s`, as `str::contains` tells.
pub open spec fn has_infix(s: Seq<char>, needle: Seq<char>) -> bool {
    exists|i: int| infix_at(s, needle, i)
}

/// Whether `needle` occurs in `s` at position `i`.
pub fn matches_at(s: &[char], needle: &[char], i: usize) -> (b: bool)
    requires
        i + needle@.len() <= s@.len(),
    ensures
        b == (s@.subrange(i as int, i + needle@.len()) == needle@),
{
    let _len = s.len();
    let mut j: usize = 0;
    while j < needle.len()
        invariant
            i + needle@.len() <= s@.len(),
            s@.len() <= usize::MAX,
            j <= needle@.len(),
            forall|k: int| 0 <= k < j ==> s@[i + k] == needle@[k],
        decreases needle@.len() - j,
    {
        if s[i + j] != needle[j] {
            assert(s@.subrange(i as int, i + needle@.len())[j as int] != needle@[j as int]);
            return false;
        }
        j += 1;
    }
    assert(s@.subrange(i as int, i + needle@.len()) =~= needle@);
    true
}

/// Whether `needle` occurs in `s`.
pub fn chars_contain(s: &[char], needle: &[char]) -> (b: bool)
    ensures
        b == has_infix(s@, needle@),
{
    if needle.len() == 0 {
        assert(s@.subrange(0, 0) =~= needle@);
        assert(infix_at(s@, needle@, 0));
        return true;
    }
    if needle.len() > s.len() {
        return false;
    }
    let last = s.len() - needle.len();
    let mut i: usize = 0;
    while i <= last
        invariant
            last + needle@.len() == s@.len(),
            s@.len() <= usize::MAX,
            needle@.len() > 0,
            i <= last + 1,
            forall|k: int| 0 <= k < i ==> !infix_at(s@, needle@, k),
        decreases last + 1 - i,
    {
        if matches_at(s, needle, i) {
            assert(infix_at(s@, needle@, i as int));
            return true;
        }
        i += 1;
    }
    false
}

/// The strings `ls` joined with `sep` between each two.
pub open spec fn join(ls: Seq<Seq<char>>, sep: Seq<char>) -> Seq<char>
    decreases ls.len(),
{
    if ls.len() == 0 {
        Seq::empty()
    } else if ls.len() == 1 {
        ls[0]
    } else {
        join(ls.drop_last(), sep) + sep + ls.last()
    }
}

/// Appends the lines `ls` joined with `sep`.
pub fn push_joined(buf: &mut Vec<char>, ls: &[Vec<char>], sep: &str)
    ensures
        final(buf)@ == old(buf)@ + join(char_lines(ls@), sep@),
{
    let ghost start = buf@;
    let mut i: usize = 0;
    assert(char_lines(ls@.take(0)) =~= Seq::<Seq<char>>::empty());
    while i < ls.len()
        invariant
            i <= ls@.len(),
            buf@ == start + join(char_lines(ls@.take(i as int)), sep@),
        decreases ls@.len() - i,
    {
        let ghost prev = char_lines(ls@.take(i as int));
        if i > 0 {
            push_str(buf, sep);
        }
        push_chars(buf, ls[i].as_slice());
        assert(char_lines(ls@.take(i + 1)).drop_last() =~= prev);
        assert(char_lines(ls@.take(i + 1)).last() == ls@[i as int]@);
        i += 1;
        assert(buf@ =~= start + join(char_lines(ls@.take(i as int)), sep@));
    }
    assert(ls@.take(ls@.len() as int) =~= ls@);
}

/// The characters of `s` from `a` up to `b`.
pub fn copy_range(s: &[char], a: usize, b: usize) -> (v: Vec<char>)
    requires
        a <= b <= s@.len(),
    ensures
        v@ == s@.subrange(a as int, b as int),
{
    let mut v: Vec<char> = Vec::new();
    let mut k: usize = a;
    while k < b
        invariant
            a <= k <= b,
            b <= s@.len(),
            v@ == s@.subrange(a as int, k as int),
        decreases b - k,
    {
        v.push(s[k]);
        k += 1;
        assert(v@ =~= s@.subrange(a as int, k as int));
    }
    v
}

/// `n` spaces.
pub open spec fn spaces(n: nat) -> Seq<char> {
    Seq::new(n, |i: int| ' ')
}

/// `s` padded with spaces on the right to `width` characters, as `{:<w}`
/// formats it.
pub open spec fn pad_right(s: Seq<char>, width: nat) -> Seq<char> {
    if s.len() < width {
        s + spaces((width - s.len()) as nat)
    } else {
        s
    }
}

/// `s` padded with spaces on the left to `width` characters, as `{:>w}`
/// formats it.
pub open spec fn pad_left(s: Seq<char>, width: nat) -> Seq<char> {
    if s.len() < width {
        spaces((width - s.len()) as nat) + s
    } else {
        s
    }
}

/// Appends `n` spaces.
pub fn push_spaces(buf: &mut Vec<char>, n: usize)
    ensures
        final(buf)@ == old(buf)@ + spaces(n as nat),
{
    let ghost start = buf@;
    let mut k: usize = 0;
    while k < n
        invariant
            k <= n,
            buf@ == start + spaces(k as nat),
        decreases n - k,
    {
        buf.push(' ');
        k += 1;
        assert(buf@ =~= start + spaces(k as nat));
    }
}

/// Appends `s` padded on the right to `width` characters.
pub fn push_padded_right(buf: &mut Vec<char>, s: &[char], width: usize)
    ensures
        final(buf)@ == old(buf)@ + pad_right(s@, width as nat),
{
    push_chars(buf, s);
    if s.len() < width {
        push_spaces(buf, width - s.len());
    }
    assert(final(buf)@ =~= old(buf)@ + pad_right(s@, width as nat));
}

/// Appends `s` padded on the left to `width` characters.
pub fn push_padded_left(buf: &mut Vec<char>, s: &[char], width: usize)
    ensures
        final(buf)@ == old(buf)@ + pad_left(s@, width as nat),
{
    if s.len() < width {
        push_spaces(buf, width - s.len());
    }
    push_chars(buf, s);
    assert(final(buf)@ =~= old(buf)@ + pad_left(s@, width as nat));
}

/// The character of a decimal digit.
pub open spec fn digit_char(d: int) -> char {
    ((d + 48) as u8) as char
}

/// The decimal numeral of `n`.
pub open spec fn decimal(n: nat) -> Seq<char>
    decreases n,
{
    if n < 10 {
        seq![digit_char(n as int)]
    } else {
        decimal(n / 10).push(digit_char((n % 10) as int))
    }
}

/// The decimal numeral of a signed number.
pub open spec fn signed_decimal(n: int) -> Seq<char> {
    if n < 0 {
        seq!['-'] + decimal((-n) as nat)
    } else {
        decimal(n as nat)
    }
}

/// Appends the decimal numeral of `n`.
pub fn push_decimal(buf: &mut Vec<char>, n: u64)
    ensures
        final(buf)@ == old(buf)@ + decimal(n as nat),
    decreases n,
{
    if n >= 10 {
        push_decimal(buf, n / 10);
    }
    let d = (n % 10) as u8;
    buf.push((d + 48u8) as char);
    assert(decimal(n as nat) =~= if n < 10 {
        seq![digit_char(n as int)]
    } else {
        decimal((n / 10) as nat).push(digit_char((n % 10) as int))
    });
}

/// Appends the decimal numeral of a signed number, with a leading `-` when
/// it is negative.
pub fn push_signed_decimal(buf: &mut Vec<char>, n: i64)
    ensures
        final(buf)@ == old(buf)@ + signed_decimal(n as int),
{
    if n < 0 {
        buf.push('-');
        let m: u64 = if n == i64::MIN {
            0x8000_0000_0000_0000u64
        } else {
            (-n) as u64
        };
        let ghost mid = buf@;
        push_decimal(buf, m);
        assert(buf@ =~= old(buf)@ + signed_decimal(n as int));
    } else {
        push_decimal(buf, n as u64);
    }
}

/// The decimal numeral of `n`, as a string.
pub fn decimal_string(n: u64) -> (s: String)
    ensures
        s@ == decimal(n as nat),
{
    let mut buf: Vec<char> = Vec::new();
    push_decimal(&mut buf, n);
    assert(buf@ =~= decimal(n as nat));
    string_from_chars(buf.as_slice())
}

} // verus!
