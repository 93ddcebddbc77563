//! Text as sequences of characters: the handful of `str` operations the
//! parsers here are built from, each stated over `Seq<char>` and computed over
//! `Vec<char>`.

use vstd::prelude::*;

verus! {

// ------------------------------------------------------------ char classes

pub open spec fn is_digit(c: char) -> bool {
    '0' <= c && c <= '9'
}

pub open spec fn is_upper(c: char) -> bool {
    'A' <= c && c <= 'Z'
}

pub open spec fn is_lower(c: char) -> bool {
    'a' <= c && c <= 'z'
}

pub open spec fn is_alphanumeric(c: char) -> bool {
    is_digit(c) || is_upper(c) || is_lower(c)
}

/// `char::is_whitespace`: the Unicode `White_Space` property.
pub open spec fn is_whitespace(c: char) -> bool {
    let u = c as u32;
    ||| 0x9 <= u && u <= 0xd
    ||| u == 0x20
    ||| u == 0x85
    ||| u == 0xa0
    ||| u == 0x1680
    ||| 0x2000 <= u && u <= 0x200a
    ||| u == 0x2028
    ||| u == 0x2029
    ||| u == 0x202f
    ||| u == 0x205f
    ||| u == 0x3000
}

/// `char::to_ascii_lowercase`.
pub open spec fn lower_char(c: char) -> char {
    if is_upper(c) {
        ((c as u32) + 32) as char
    } else {
        c
    }
}

pub open spec fn ascii_lower(s: Seq<char>) -> Seq<char> {
    Seq::new(s.len(), |i: int| lower_char(s[i]))
}

pub open spec fn all_digits(s: Seq<char>) -> bool {
    forall|i: int| 0 <= i < s.len() ==> is_digit(#[trigger] s[i])
}

/// The number of bytes `c` takes in UTF-8.
pub open spec fn utf8_width(c: char) -> nat {
    let u = c as u32;
    if u <= 0x7f {
        1
    } else if u <= 0x7ff {
        2
    } else if u <= 0xffff {
        3
    } else {
        4
    }
}

/// The number of bytes `s` takes in UTF-8, which is what `str::len` reports.
pub open spec fn utf8_len(s: Seq<char>) -> nat
    decreases s.len(),
{
    if s.len() == 0 {
        0
    } else {
        utf8_width(s[0]) + utf8_len(s.drop_first())
    }
}

/// `str::len` counts the bytes of the UTF-8 encoding.
pub proof fn lemma_utf8_len_is_encoded_len(s: Seq<char>)
    ensures
        vstd::utf8::encode_utf8(s).len() == utf8_len(s),
    decreases s.len(),
{
    broadcast use vstd::utf8::char_is_scalar;

    if s.len() > 0 {
        lemma_utf8_len_is_encoded_len(s.drop_first());
        let c: char = s[0];
        vstd::utf8::char_is_scalar(c);
        let u: u32 = c as u32;
        assert(vstd::utf8::encode_scalar(u).len() == utf8_width(s[0]));
    }
}

pub proof fn lemma_utf8_len_concat(a: Seq<char>, b: Seq<char>)
    ensures
        utf8_len(a + b) == utf8_len(a) + utf8_len(b),
    decreases a.len(),
{
    if a.len() > 0 {
        assert((a + b).drop_first() =~= a.drop_first() + b);
        lemma_utf8_len_concat(a.drop_first(), b);
    } else {
        assert(a + b =~= b);
    }
}

pub proof fn lemma_utf8_len_single(c: char)
    ensures
        utf8_len(seq![c]) == utf8_width(c),
{
    assert(seq![c].drop_first() =~= Seq::<char>::empty());
    assert(utf8_len(Seq::<char>::empty()) == 0);
}

/// All-ASCII text is as many bytes long as it is characters.
pub proof fn lemma_utf8_len_ascii(s: Seq<char>)
    requires
        forall|i: int| 0 <= i < s.len() ==> (#[trigger] s[i] as u32) <= 0x7f,
    ensures
        utf8_len(s) == s.len(),
    decreases s.len(),
{
    if s.len() > 0 {
        assert forall|i: int| 0 <= i < s.drop_first().len() implies (#[trigger] s.drop_first()[i]
            as u32) <= 0x7f by {
            assert(s.drop_first()[i] == s[i + 1]);
        }
        lemma_utf8_len_ascii(s.drop_first());
    }
}

/// The byte length of a `str`, as a number of characters' worth of UTF-8.
pub fn byte_len(s: &str) -> (n: usize)
    ensures
        n == utf8_len(s@),
{
    proof {
        lemma_utf8_len_is_encoded_len(s@);
    }
    s.as_bytes().len()
}

pub fn is_digit_exec(c: char) -> (b: bool)
    ensures
        b == is_digit(c),
{
    '0' <= c && c <= '9'
}

pub fn is_alphanumeric_exec(c: char) -> (b: bool)
    ensures
        b == is_alphanumeric(c),
{
    ('0' <= c && c <= '9') || ('A' <= c && c <= 'Z') || ('a' <= c && c <= 'z')
}

pub fn is_whitespace_exec(c: char) -> (b: bool)
    ensures
        b == is_whitespace(c),
{
    let u = c as u32;
    (0x9 <= u && u <= 0xd) || u == 0x20 || u == 0x85 || u == 0xa0 || u == 0x1680 || (0x2000 <= u
        && u <= 0x200a) || u == 0x2028 || u == 0x2029 || u == 0x202f || u == 0x205f || u == 0x3000
}

pub fn lower_char_exec(c: char) -> (r: char)
    ensures
        r == lower_char(c),
{
    if 'A' <= c && c <= 'Z' {
        let b = (c as u8) + 32;
        assert(b as u32 == (c as u32) + 32);
        b as char
    } else {
        c
    }
}

pub fn utf8_width_exec(c: char) -> (w: usize)
    ensures
        w == utf8_width(c),
{
    let u = c as u32;
    if u <= 0x7f {
        1
    } else if u <= 0x7ff {
        2
    } else if u <= 0xffff {
        3
    } else {
        4
    }
}

// ------------------------------------------------------------ conversions

/// Every character of `s`, in order.
pub fn chars_of(s: &str) -> (v: Vec<char>)
    ensures
        v@ == s@,
{
    let mut v: Vec<char> = Vec::new();
    for c in it: s.chars()
        invariant
            v@ == it.seq().take(it.index() as int),
    {
        v.push(c);
    }
    v
}


/// `String::push`: one character onto the end.
#[verifier::external_body]
fn push_char(s: &mut String, c: char)
    ensures
        final(s)@ == old(s)@.push(c),
{
    s.push(c)
}

/// A `String` holding exactly `cs`.
pub fn string_of(cs: &[char]) -> (s: String)
    ensures
        s@ == cs@,
{
    let mut s = String::new();
    let mut i: usize = 0;
    while i < cs.len()
        invariant
            i <= cs@.len(),
            s@ == cs@.subrange(0, i as int),
        decreases cs@.len() - i,
    {
        push_char(&mut s, cs[i]);
        i = i + 1;
        assert(s@ =~= cs@.subrange(0, i as int));
    }
    assert(cs@.subrange(0, cs@.len() as int) =~= cs@);
    s
}

/// Appends `cs` to `out`.
pub fn push_all(out: &mut Vec<char>, cs: &[char])
    ensures
        final(out)@ == old(out)@ + cs@,
{
    let mut i: usize = 0;
    while i < cs.len()
        invariant
            i <= cs@.len(),
            out@ == old(out)@ + cs@.subrange(0, i as int),
        decreases cs@.len() - i,
    {
        out.push(cs[i]);
        i = i + 1;
        assert(out@ =~= old(out)@ + cs@.subrange(0, i as int));
    }
    assert(cs@.subrange(0, cs@.len() as int) =~= cs@);
}

/// Appends the characters of a `str` to `out`.
pub fn push_str(out: &mut Vec<char>, s: &str)
    ensures
        final(out)@ == old(out)@ + s@,
{
    let cs = chars_of(s);
    push_all(out, cs.as_slice());
}

/// `s[from..to]`, copied.
pub fn slice_of(s: &[char], from: usize, to: usize) -> (r: Vec<char>)
    requires
        from <= to <= s@.len(),
    ensures
        r@ == s@.subrange(from as int, to as int),
{
    let mut r: Vec<char> = Vec::new();
    let mut i: usize = from;
    while i < to
        invariant
            from <= i <= to <= s@.len(),
            r@ == s@.subrange(from as int, i as int),
        decreases to - i,
    {
        r.push(s[i]);
        i = i + 1;
        assert(r@ =~= s@.subrange(from as int, i as int));
    }
    r
}

pub fn seq_eq(a: &[char], b: &[char]) -> (e: bool)
    ensures
        e == (a@ == b@),
{
    if a.len() != b.len() {
        return false;
    }
    let mut i: usize = 0;
    while i < a.len()
        invariant
            a@.len() == b@.len(),
            i <= a@.len(),
            forall|j: int| 0 <= j < i ==> a@[j] == b@[j],
        decreases a@.len() - i,
    {
        if a[i] != b[i] {
            return false;
        }
        i = i + 1;
    }
    assert(a@ =~= b@);
    true
}

/// Whether `s` equals the string literal (or any `str`) `lit`.
pub fn eq_str(s: &[char], lit: &str) -> (e: bool)
    ensures
        e == (s@ == lit@),
{
    let l = chars_of(lit);
    seq_eq(s, l.as_slice())
}

pub fn all_digits_exec(s: &[char]) -> (b: bool)
    ensures
        b == all_digits(s@),
{
    let mut i: usize = 0;
    while i < s.len()
        invariant
            i <= s@.len(),
            forall|j: int| 0 <= j < i ==> is_digit(#[trigger] s@[j]),
        decreases s@.len() - i,
    {
        if !is_digit_exec(s[i]) {
            return false;
        }
        i = i + 1;
    }
    true
}

/// `str::to_ascii_lowercase`.
pub fn ascii_lower_exec(s: &[char]) -> (r: Vec<char>)
    ensures
        r@ == ascii_lower(s@),
{
    let mut r: Vec<char> = Vec::new();
    let mut i: usize = 0;
    while i < s.len()
        invariant
            i <= s@.len(),
            r@ == ascii_lower(s@.subrange(0, i as int)),
        decreases s@.len() - i,
    {
        r.push(lower_char_exec(s[i]));
        i = i + 1;
        assert(r@ =~= ascii_lower(s@.subrange(0, i as int)));
    }
    assert(s@.subrange(0, s@.len() as int) =~= s@);
    r
}

// ------------------------------------------------------------ searching

/// `i` is the first position of `s` holding a character of `set`.
pub open spec fn is_first_in(s: Seq<char>, set: Seq<char>, i: int) -> bool {
    &&& 0 <= i < s.len()
    &&& set.contains(s[i])
    &&& forall|j: int| 0 <= j < i ==> !set.contains(#[trigger] s[j])
}

/// The first position of `s` holding a character of `set`, as
/// `str::find` with a set of `char`s answers it.
pub open spec fn first_in(s: Seq<char>, set: Seq<char>) -> Option<int> {
    if exists|i: int| is_first_in(s, set, i) {
        Some(choose|i: int| is_first_in(s, set, i))
    } else {
        None
    }
}

pub proof fn lemma_first_in_unique(s: Seq<char>, set: Seq<char>, i: int)
    requires
        is_first_in(s, set, i),
    ensures
        first_in(s, set) == Some(i),
{
    let k = choose|k: int| is_first_in(s, set, k);
    assert(is_first_in(s, set, k));
    if k < i {
        assert(!set.contains(s[k]));
    } else if i < k {
        assert(!set.contains(s[i]));
    }
}

pub proof fn lemma_first_in_bounds(s: Seq<char>, set: Seq<char>)
    ensures
        first_in(s, set) matches Some(i) ==> is_first_in(s, set, i),
        first_in(s, set) is None ==> forall|j: int|
            0 <= j < s.len() ==> !set.contains(#[trigger] s[j]),
{
    if first_in(s, set) is None {
        assert forall|j: int| 0 <= j < s.len() implies !set.contains(#[trigger] s[j]) by {
            if set.contains(s[j]) {
                // the least such position would be a first one
                let k = least_in(s, set, j);
                assert(is_first_in(s, set, k));
            }
        }
    }
}

/// A position holding a character of `set`, no later than `j`, with none
/// before it.
proof fn least_in(s: Seq<char>, set: Seq<char>, j: int) -> (k: int)
    requires
        0 <= j < s.len(),
        set.contains(s[j]),
    ensures
        is_first_in(s, set, k),
    decreases j,
{
    if exists|m: int| 0 <= m < j && set.contains(#[trigger] s[m]) {
        let m = choose|m: int| 0 <= m < j && set.contains(#[trigger] s[m]);
        least_in(s, set, m)
    } else {
        j
    }
}

/// Whether `set` holds `c`.
pub fn set_contains(set: &[char], c: char) -> (b: bool)
    ensures
        b == set@.contains(c),
{
    let mut i: usize = 0;
    while i < set.len()
        invariant
            i <= set@.len(),
            forall|j: int| 0 <= j < i ==> set@[j] != c,
        decreases set@.len() - i,
    {
        if set[i] == c {
            assert(set@[i as int] == c);
            return true;
        }
        i = i + 1;
    }
    false
}

/// `s.find(set)`.
pub fn find_in(s: &[char], set: &[char]) -> (r: Option<usize>)
    ensures
        r matches Some(i) ==> first_in(s@, set@) == Some(i as int),
        r is None ==> first_in(s@, set@) is None,
{
    let mut i: usize = 0;
    while i < s.len()
        invariant
            i <= s@.len(),
            forall|j: int| 0 <= j < i ==> !set@.contains(#[trigger] s@[j]),
        decreases s@.len() - i,
    {
        if set_contains(set, s[i]) {
            proof {
                lemma_first_in_unique(s@, set@, i as int);
            }
            return Some(i);
        }
        i = i + 1;
    }
    None
}

/// `needle` sits at `i` in `hay`.
pub open spec fn occurs_at(hay: Seq<char>, needle: Seq<char>, i: int) -> bool {
    0 <= i && i + needle.len() <= hay.len() && hay.subrange(i, i + needle.len()) == needle
}

pub open spec fn is_first_occurrence(hay: Seq<char>, needle: Seq<char>, i: int) -> bool {
    occurs_at(hay, needle, i) && forall|j: int| 0 <= j < i ==> !#[trigger] occurs_at(hay, needle, j)
}

pub open spec fn contains(hay: Seq<char>, needle: Seq<char>) -> bool {
    exists|i: int| occurs_at(hay, needle, i)
}

/// `str::find` with a `str` pattern: the first place `needle` occurs.
pub open spec fn find(hay: Seq<char>, needle: Seq<char>) -> Option<int> {
    if exists|i: int| is_first_occurrence(hay, needle, i) {
        Some(choose|i: int| is_first_occurrence(hay, needle, i))
    } else {
        None
    }
}

pub proof fn lemma_find_unique(hay: Seq<char>, needle: Seq<char>, i: int)
    requires
        is_first_occurrence(hay, needle, i),
    ensures
        find(hay, needle) == Some(i),
{
    let k = choose|k: int| is_first_occurrence(hay, needle, k);
    assert(is_first_occurrence(hay, needle, k));
    if k < i {
        assert(!occurs_at(hay, needle, k));
    } else if i < k {
        assert(!occurs_at(hay, needle, i));
    }
}

proof fn least_occurrence(hay: Seq<char>, needle: Seq<char>, j: int) -> (k: int)
    requires
        occurs_at(hay, needle, j),
    ensures
        is_first_occurrence(hay, needle, k),
    decreases j,
{
    if exists|m: int| 0 <= m < j && #[trigger] occurs_at(hay, needle, m) {
        let m = choose|m: int| 0 <= m < j && #[trigger] occurs_at(hay, needle, m);
        least_occurrence(hay, needle, m)
    } else {
        j
    }
}

pub proof fn lemma_find_facts(hay: Seq<char>, needle: Seq<char>)
    ensures
        find(hay, needle) matches Some(i) ==> is_first_occurrence(hay, needle, i),
        find(hay, needle) is None <==> !contains(hay, needle),
{
    if contains(hay, needle) {
        let j = choose|j: int| occurs_at(hay, needle, j);
        let k = least_occurrence(hay, needle, j);
        lemma_find_unique(hay, needle, k);
    }
}

/// Whether `needle` sits at `i` in `hay`.
pub fn matches_at(hay: &[char], needle: &[char], i: usize) -> (b: bool)
    ensures
        b == occurs_at(hay@, needle@, i as int),
{
    if i > hay.len() || needle.len() > hay.len() - i {
        return false;
    }
    let mut k: usize = 0;
    while k < needle.len()
        invariant
            i + needle@.len() <= hay@.len() <= usize::MAX,
            k <= needle@.len(),
            forall|j: int| 0 <= j < k ==> hay@[i + j] == needle@[j],
        decreases needle@.len() - k,
    {
        if hay[i + k] != needle[k] {
            assert(hay@.subrange(i as int, i + needle@.len())[k as int] != needle@[k as int]);
            return false;
        }
        k = k + 1;
    }
    assert(hay@.subrange(i as int, i + needle@.len()) =~= needle@);
    true
}

/// `hay.find(needle)`.
pub fn find_exec(hay: &[char], needle: &[char]) -> (r: Option<usize>)
    ensures
        r matches Some(i) ==> find(hay@, needle@) == Some(i as int) && i + needle@.len()
            <= hay@.len(),
        r is None ==> find(hay@, needle@) is None,
{
    let mut i: usize = 0;
    while i < hay.len()
        invariant
            i <= hay@.len(),
            forall|j: int| 0 <= j < i ==> !#[trigger] occurs_at(hay@, needle@, j),
        decreases hay@.len() - i,
    {
        if matches_at(hay, needle, i) {
            proof {
                lemma_find_unique(hay@, needle@, i as int);
            }
            return Some(i);
        }
        i = i + 1;
    }
    if matches_at(hay, needle, i) {
        proof {
            lemma_find_unique(hay@, needle@, i as int);
        }
        return Some(i);
    }
    proof {
        lemma_find_facts(hay@, needle@);
        if contains(hay@, needle@) {
            let j = choose|j: int| occurs_at(hay@, needle@, j);
            assert(j <= hay@.len());
        }
    }
    None
}

pub fn contains_exec(hay: &[char], needle: &str) -> (b: bool)
    ensures
        b == contains(hay@, needle@),
{
    let n = chars_of(needle);
    proof {
        lemma_find_facts(hay@, needle@);
    }
    find_exec(hay, n.as_slice()).is_some()
}

/// `str::split_once` with a `str` pattern.
pub open spec fn split_once(hay: Seq<char>, needle: Seq<char>) -> Option<(Seq<char>, Seq<char>)> {
    match find(hay, needle) {
        Some(i) => Some((hay.subrange(0, i), hay.subrange(i + needle.len(), hay.len() as int))),
        None => None,
    }
}

/// `str::split_once` with a `char` pattern.
pub open spec fn split_once_char(hay: Seq<char>, c: char) -> Option<(Seq<char>, Seq<char>)> {
    split_once(hay, seq![c])
}

pub fn split_once_exec(hay: &[char], needle: &[char]) -> (r: Option<(Vec<char>, Vec<char>)>)
    ensures
        r matches Some(p) ==> split_once(hay@, needle@) == Some((p.0@, p.1@)),
        r is None ==> split_once(hay@, needle@) is None,
{
    match find_exec(hay, needle) {
        Some(i) => {
            proof {
                lemma_find_facts(hay@, needle@);
            }
            let hl = hay.len();
            let a = slice_of(hay, 0, i);
            let b = slice_of(hay, i + needle.len(), hay.len());
            Some((a, b))
        },
        None => None,
    }
}

pub fn split_once_char_exec(hay: &[char], c: char) -> (r: Option<(Vec<char>, Vec<char>)>)
    ensures
        r matches Some(p) ==> split_once_char(hay@, c) == Some((p.0@, p.1@)),
        r is None ==> split_once_char(hay@, c) is None,
{
    let mut n: Vec<char> = Vec::new();
    n.push(c);
    assert(n@ =~= seq![c]);
    split_once_exec(hay, n.as_slice())
}

pub fn split_once_str(hay: &[char], needle: &str) -> (r: Option<(Vec<char>, Vec<char>)>)
    ensures
        r matches Some(p) ==> split_once(hay@, needle@) == Some((p.0@, p.1@)),
        r is None ==> split_once(hay@, needle@) is None,
{
    let n = chars_of(needle);
    split_once_exec(hay, n.as_slice())
}


// ------------------------------------------------------------ splitting

/// `str::split` on any character of `set`: every piece, empty ones included.
pub open spec fn split_by(s: Seq<char>, set: Seq<char>) -> Seq<Seq<char>>
    decreases s.len(),
{
    match first_in(s, set) {
        Some(i) => if 0 <= i < s.len() {
            seq![s.subrange(0, i)] + split_by(s.subrange(i + 1, s.len() as int), set)
        } else {
            seq![s]
        },
        None => seq![s],
    }
}

/// What a list of owned pieces holds, piece by piece.
pub open spec fn views(v: Seq<Vec<char>>) -> Seq<Seq<char>> {
    Seq::new(v.len(), |i: int| v[i]@)
}

pub fn split_exec(s: &[char], set: &[char]) -> (r: Vec<Vec<char>>)
    ensures
        views(r@) == split_by(s@, set@),
{
    let mut r: Vec<Vec<char>> = Vec::new();
    let mut start: usize = 0;
    let n = s.len();
    assert(s@.subrange(0, n as int) =~= s@);
    assert(views(r@) + split_by(s@, set@) =~= split_by(s@, set@));
    loop
        invariant
            n == s@.len(),
            start <= n,
            views(r@) + split_by(s@.subrange(start as int, n as int), set@) == split_by(s@, set@),
        decreases n - start,
    {
        let rest = slice_of(s, start, n);
        proof {
            lemma_first_in_bounds(rest@, set@);
        }
        match find_in(rest.as_slice(), set) {
            Some(i) => {
                let piece = slice_of(rest.as_slice(), 0, i);
                let ghost old_r = views(r@);
                r.push(piece);
                proof {
                    assert(views(r@) =~= old_r + seq![rest@.subrange(0, i as int)]);
                    assert(rest@.subrange(i + 1, rest@.len() as int) =~= s@.subrange(
                        start + i + 1,
                        n as int,
                    ));
                    assert(split_by(rest@, set@) == seq![rest@.subrange(0, i as int)] + split_by(
                        rest@.subrange(i + 1, rest@.len() as int),
                        set@,
                    ));
                    assert(views(r@) + split_by(s@.subrange(start + i + 1, n as int), set@)
                        =~= old_r + split_by(rest@, set@));
                }
                start = start + i + 1;
            },
            None => {
                let ghost old_r = views(r@);
                r.push(rest);
                proof {
                    assert(views(r@) =~= old_r + seq![rest@]);
                    assert(split_by(rest@, set@) == seq![rest@]);
                }
                return r;
            },
        }
    }
}

// ------------------------------------------------------------ trimming

/// `str::trim_start`.
pub open spec fn trim_start(s: Seq<char>) -> Seq<char>
    decreases s.len(),
{
    if s.len() > 0 && is_whitespace(s[0]) {
        trim_start(s.drop_first())
    } else {
        s
    }
}

/// `str::trim_end`.
pub open spec fn trim_end(s: Seq<char>) -> Seq<char>
    decreases s.len(),
{
    if s.len() > 0 && is_whitespace(s.last()) {
        trim_end(s.drop_last())
    } else {
        s
    }
}

/// `str::trim`.
pub open spec fn trim(s: Seq<char>) -> Seq<char> {
    trim_end(trim_start(s))
}

/// `str::trim_start_matches` with a `char`.
pub open spec fn trim_start_char(s: Seq<char>, c: char) -> Seq<char>
    decreases s.len(),
{
    if s.len() > 0 && s[0] == c {
        trim_start_char(s.drop_first(), c)
    } else {
        s
    }
}

pub fn trim_start_exec(s: &[char]) -> (r: Vec<char>)
    ensures
        r@ == trim_start(s@),
{
    let n = s.len();
    let mut i: usize = 0;
    assert(s@.subrange(0, n as int) =~= s@);
    while i < n && is_whitespace_exec(s[i])
        invariant
            n == s@.len(),
            i <= n,
            trim_start(s@) == trim_start(s@.subrange(i as int, n as int)),
        decreases n - i,
    {
        assert(s@.subrange(i as int, n as int).drop_first() =~= s@.subrange(i + 1, n as int));
        i = i + 1;
    }
    slice_of(s, i, n)
}

pub fn trim_end_exec(s: &[char]) -> (r: Vec<char>)
    ensures
        r@ == trim_end(s@),
{
    let mut j: usize = s.len();
    assert(s@.subrange(0, j as int) =~= s@);
    while j > 0 && is_whitespace_exec(s[j - 1])
        invariant
            j <= s@.len(),
            trim_end(s@) == trim_end(s@.subrange(0, j as int)),
        decreases j,
    {
        assert(s@.subrange(0, j as int).drop_last() =~= s@.subrange(0, j - 1));
        j = j - 1;
    }
    slice_of(s, 0, j)
}

pub fn trim_exec(s: &[char]) -> (r: Vec<char>)
    ensures
        r@ == trim(s@),
{
    let a = trim_start_exec(s);
    trim_end_exec(a.as_slice())
}

pub fn trim_start_char_exec(s: &[char], c: char) -> (r: Vec<char>)
    ensures
        r@ == trim_start_char(s@, c),
{
    let n = s.len();
    let mut i: usize = 0;
    assert(s@.subrange(0, n as int) =~= s@);
    while i < n && s[i] == c
        invariant
            n == s@.len(),
            i <= n,
            trim_start_char(s@, c) == trim_start_char(s@.subrange(i as int, n as int), c),
        decreases n - i,
    {
        assert(s@.subrange(i as int, n as int).drop_first() =~= s@.subrange(i + 1, n as int));
        i = i + 1;
    }
    slice_of(s, i, n)
}

/// `str::starts_with`.
pub open spec fn starts_with(s: Seq<char>, p: Seq<char>) -> bool {
    p.len() <= s.len() && s.subrange(0, p.len() as int) == p
}

pub fn starts_with_exec(s: &[char], p: &str) -> (b: bool)
    ensures
        b == starts_with(s@, p@),
{
    let pc = chars_of(p);
    let r = matches_at(s, pc.as_slice(), 0);
    assert(r == starts_with(s@, p@));
    r
}

// ------------------------------------------------------------ numbers

pub open spec fn digit_value(c: char) -> nat {
    (c as u32 - '0' as u32) as nat
}

/// The number a run of decimal digits spells.
pub open spec fn digits_value(s: Seq<char>) -> nat
    decreases s.len(),
{
    if s.len() == 0 {
        0
    } else {
        digits_value(s.drop_last()) * 10 + digit_value(s.last())
    }
}

/// What `str::parse` for an unsigned integer type reads: an optional `+`,
/// then one or more decimal digits, no larger than `max`.
pub open spec fn parse_unsigned(s: Seq<char>, max: nat) -> Option<nat> {
    let d = if s.len() > 0 && s[0] == '+' {
        s.drop_first()
    } else {
        s
    };
    if d.len() > 0 && all_digits(d) && digits_value(d) <= max {
        Some(digits_value(d))
    } else {
        None
    }
}

proof fn reveal_parse_unsigned(s: Seq<char>, max: nat, d: Seq<char>)
    requires
        d == (if s.len() > 0 && s[0] == '+' {
            s.drop_first()
        } else {
            s
        }),
        !all_digits(d),
    ensures
        parse_unsigned(s, max) is None,
{
}

proof fn lemma_digits_value_grows(s: Seq<char>, k: int)
    requires
        0 <= k <= s.len(),
        all_digits(s),
    ensures
        digits_value(s.subrange(0, k)) <= digits_value(s),
    decreases s.len() - k,
{
    if k < s.len() {
        let t = s.subrange(0, k + 1);
        assert(t.drop_last() =~= s.subrange(0, k));
        assert(is_digit(s[k]));
        lemma_digits_value_grows(s, k + 1);
    } else {
        assert(s.subrange(0, k) =~= s);
    }
}

/// `str::parse::<u64>`.
pub fn parse_u64(s: &[char]) -> (r: Option<u64>)
    ensures
        r matches Some(v) ==> parse_unsigned(s@, u64::MAX as nat) == Some(v as nat),
        r is None ==> parse_unsigned(s@, u64::MAX as nat) is None,
{
    let n = s.len();
    let start: usize = if n > 0 && s[0] == '+' {
        1
    } else {
        0
    };
    let ghost d = if s@.len() > 0 && s@[0] == '+' {
        s@.drop_first()
    } else {
        s@
    };
    assert(d =~= s@.subrange(start as int, n as int));
    if start == n {
        assert(d.len() == 0);
        return None;
    }
    let mut v: u64 = 0;
    let mut i: usize = start;
    let mut overflow = false;
    while i < n
        invariant
            n == s@.len(),
            start <= i <= n,
            d == s@.subrange(start as int, n as int),
            d == (if s@.len() > 0 && s@[0] == '+' {
                s@.drop_first()
            } else {
                s@
            }),
            forall|j: int| start <= j < i ==> is_digit(#[trigger] s@[j]),
            !overflow ==> v as nat == digits_value(s@.subrange(start as int, i as int)),
            overflow ==> digits_value(s@.subrange(start as int, i as int)) > u64::MAX,
        decreases n - i,
    {
        let c = s[i];
        if !is_digit_exec(c) {
            assert(d[i - start] == c);
            assert(!all_digits(d));
            proof { reveal_parse_unsigned(s@, u64::MAX as nat, d); }
            return None;
        }
        let dv = (c as u32 - '0' as u32) as u64;
        let ghost prefix = s@.subrange(start as int, i + 1);
        assert(prefix.drop_last() =~= s@.subrange(start as int, i as int));
        assert(prefix.last() == c);
        if !overflow {
            if v > (u64::MAX - dv) / 10 {
                overflow = true;
                assert(v * 10 + dv > u64::MAX) by (nonlinear_arith)
                    requires
                        v > (u64::MAX - dv) / 10,
                        dv <= 9,
                ;
            } else {
                assert(v * 10 + dv <= u64::MAX) by (nonlinear_arith)
                    requires
                        v <= (u64::MAX - dv) / 10,
                        dv <= 9,
                ;
                v = v * 10 + dv;
            }
        } else {
            assert(digits_value(prefix) >= digits_value(prefix.drop_last()) * 10) by (
            nonlinear_arith)
                requires
                    digits_value(prefix) == digits_value(prefix.drop_last()) * 10 + digit_value(
                        prefix.last(),
                    ),
            ;
        }
        i = i + 1;
    }
    assert(all_digits(d));
    if overflow {
        None
    } else {
        Some(v)
    }
}

/// What `str::parse` for a signed integer type reads: an optional `+` or
/// `-`, then one or more decimal digits, the value within `min..=max`.
pub open spec fn parse_signed(s: Seq<char>, min: int, max: int) -> Option<int> {
    let signed = s.len() > 0 && (s[0] == '+' || s[0] == '-');
    let d = if signed {
        s.drop_first()
    } else {
        s
    };
    let v = if s.len() > 0 && s[0] == '-' {
        -(digits_value(d) as int)
    } else {
        digits_value(d) as int
    };
    if d.len() > 0 && all_digits(d) && min <= v && v <= max {
        Some(v)
    } else {
        None
    }
}

/// `str::parse::<i32>`.
pub fn parse_i32(s: &[char]) -> (r: Option<i32>)
    ensures
        r matches Some(v) ==> parse_signed(s@, i32::MIN as int, i32::MAX as int) == Some(v as int),
        r is None ==> parse_signed(s@, i32::MIN as int, i32::MAX as int) is None,
{
    let n = s.len();
    let signed = n > 0 && (s[0] == '+' || s[0] == '-');
    let neg = n > 0 && s[0] == '-';
    let start: usize = if signed {
        1
    } else {
        0
    };
    let d = slice_of(s, start, n);
    assert(d@ =~= (if signed {
        s@.drop_first()
    } else {
        s@
    }));
    if d.len() == 0 || !all_digits_exec(d.as_slice()) {
        return None;
    }
    assert(d@[0] != '+');
    let v = match parse_u64(d.as_slice()) {
        Some(v) => v,
        None => return None,
    };
    if neg {
        if v <= 0x8000_0000u64 {
            Some((0i64 - (v as i64)) as i32)
        } else {
            None
        }
    } else {
        if v <= 0x7fff_ffffu64 {
            Some(v as i32)
        } else {
            None
        }
    }
}

/// `str::split_whitespace`: the runs of non-whitespace characters, in order.
pub open spec fn words(s: Seq<char>) -> Seq<Seq<char>>
    decreases s.len(),
{
    if s.len() == 0 {
        seq![]
    } else {
        let w = words(s.drop_last());
        let c = s.last();
        if is_whitespace(c) {
            w
        } else if s.len() >= 2 && !is_whitespace(s[s.len() - 2]) && w.len() > 0 {
            w.update(w.len() - 1, w.last().push(c))
        } else {
            w.push(seq![c])
        }
    }
}

pub fn words_exec(s: &[char]) -> (r: Vec<Vec<char>>)
    ensures
        views(r@) == words(s@),
{
    let mut out: Vec<Vec<char>> = Vec::new();
    let mut i: usize = 0;
    while i < s.len()
        invariant
            i <= s@.len(),
            views(out@) == words(s@.subrange(0, i as int)),
            out@.len() == views(out@).len(),
            i > 0 && !is_whitespace(s@[i - 1]) ==> out@.len() > 0,
        decreases s@.len() - i,
    {
        let c = s[i];
        let ghost before = views(out@);
        let ghost prefix = s@.subrange(0, i + 1);
        assert(prefix.drop_last() =~= s@.subrange(0, i as int));
        assert(prefix.last() == c);
        if is_whitespace_exec(c) {
        } else if i > 0 && !is_whitespace_exec(s[i - 1]) {
            assert(prefix[prefix.len() - 2] == s@[i - 1]);
            let k = out.len() - 1;
            let mut last: Vec<char> = Vec::new();
            out.set_and_swap(k, &mut last);
            last.push(c);
            out.set(k, last);
            assert(views(out@) =~= before.update(before.len() - 1, before.last().push(c)));
        } else {
            if i > 0 {
                assert(prefix[prefix.len() - 2] == s@[i - 1]);
            }
            let mut w: Vec<char> = Vec::new();
            w.push(c);
            out.push(w);
            assert(views(out@) =~= before.push(seq![c]));
        }
        i = i + 1;
    }
    assert(s@.subrange(0, s@.len() as int) =~= s@);
    out
}

/// What follows the first whitespace character, if there is one: the second
/// half of `splitn(2, char::is_whitespace)`.
pub open spec fn after_first_whitespace(s: Seq<char>) -> Option<Seq<char>> {
    if exists|k: int| 0 <= k < s.len() && is_whitespace(s[k]) {
        let k = choose|k: int|
            0 <= k < s.len() && is_whitespace(s[k]) && forall|j: int|
                0 <= j < k ==> !is_whitespace(#[trigger] s[j]);
        Some(s.subrange(k + 1, s.len() as int))
    } else {
        None
    }
}

pub fn after_first_whitespace_exec(s: &[char]) -> (r: Option<Vec<char>>)
    ensures
        match after_first_whitespace(s@) {
            Some(t) => r matches Some(v) && v@ == t,
            None => r is None,
        },
{
    let mut i: usize = 0;
    while i < s.len()
        invariant
            i <= s@.len(),
            forall|j: int| 0 <= j < i ==> !is_whitespace(#[trigger] s@[j]),
        decreases s@.len() - i,
    {
        if is_whitespace_exec(s[i]) {
            let ghost k = choose|k: int|
                0 <= k < s@.len() && is_whitespace(s@[k]) && forall|j: int|
                    0 <= j < k ==> !is_whitespace(#[trigger] s@[j]);
            assert(0 <= i < s@.len() && is_whitespace(s@[i as int]) && forall|j: int|
                0 <= j < i ==> !is_whitespace(#[trigger] s@[j]));
            assert(k == i) by {
                if k < i {
                    assert(!is_whitespace(s@[k]));
                } else if k > i {
                    assert(!is_whitespace(s@[i as int]));
                }
            }
            return Some(slice_of(s, i + 1, s.len()));
        }
        i = i + 1;
    }
    None
}

/// The ASCII digit for `d`.
pub open spec fn digit_char(d: nat) -> char {
    (('0' as u32) + d) as char
}

/// `n` written in decimal, as `Display` writes an integer.
pub open spec fn decimal(n: nat) -> Seq<char>
    decreases n,
{
    if n < 10 {
        seq![digit_char(n)]
    } else {
        decimal(n / 10) + seq![digit_char(n % 10)]
    }
}

/// Appends `n` in decimal.
pub fn push_decimal(out: &mut Vec<char>, n: u64)
    ensures
        final(out)@ == old(out)@ + decimal(n as nat),
    decreases n,
{
    if n >= 10 {
        push_decimal(out, n / 10);
    }
    let d = (n % 10) as u8;
    let c = (48u8 + d) as char;
    assert(c == digit_char((n % 10) as nat));
    out.push(c);
    assert(out@ =~= old(out)@ + decimal(n as nat));
}

/// An integer as `Display` writes it: a `-` before a negative one.
pub open spec fn signed_decimal(t: int) -> Seq<char> {
    if t < 0 {
        seq!['-'] + decimal((-t) as nat)
    } else {
        decimal(t as nat)
    }
}

/// Appends `t` in decimal.
pub fn push_signed_decimal(out: &mut Vec<char>, t: i64)
    ensures
        final(out)@ == old(out)@ + signed_decimal(t as int),
{
    if t < 0 {
        out.push('-');
        let magnitude: u64 = (0i128 - (t as i128)) as u64;
        push_decimal(out, magnitude);
    } else {
        push_decimal(out, t as u64);
    }
    assert(out@ =~= old(out)@ + signed_decimal(t as int));
}

/// The pieces of `parts` with `sep` between each pair, as `[..].join(sep)`.
pub open spec fn join(parts: Seq<Seq<char>>, sep: Seq<char>) -> Seq<char>
    decreases parts.len(),
{
    if parts.len() == 0 {
        seq![]
    } else if parts.len() == 1 {
        parts[0]
    } else {
        join(parts.drop_last(), sep) + sep + parts.last()
    }
}

pub fn join_exec(parts: &Vec<Vec<char>>, sep: &str) -> (r: Vec<char>)
    ensures
        r@ == join(views(parts@), sep@),
{
    let mut r: Vec<char> = Vec::new();
    let mut i: usize = 0;
    while i < parts.len()
        invariant
            i <= parts@.len(),
            r@ == join(views(parts@).subrange(0, i as int), sep@),
        decreases parts@.len() - i,
    {
        let ghost before = views(parts@).subrange(0, i as int);
        if i > 0 {
            push_str(&mut r, sep);
        }
        push_all(&mut r, parts[i].as_slice());
        proof {
            let now = views(parts@).subrange(0, i + 1);
            assert(now.drop_last() =~= before);
            assert(now.last() == parts@[i as int]@);
            if i == 0 {
                assert(r@ =~= join(now, sep@));
            }
        }
        i = i + 1;
    }
    assert(views(parts@).subrange(0, parts@.len() as int) =~= views(parts@));
    r
}

/// `format!("{:?}", s)`: a string as `Debug` writes it, quoted and escaped.
pub uninterp spec fn str_debug(s: Seq<char>) -> Seq<char>;

/// `<str as Debug>::fmt`, through `format!`. Claimed: the text depends on
/// `s` alone.
#[verifier::external_body]
pub(crate) fn debug_text(s: &str) -> (r: String)
    ensures
        r@ == str_debug(s@),
{
    format!("{s:?}")
}

} // verus!
