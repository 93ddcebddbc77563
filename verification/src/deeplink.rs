//! `roblox-player://` and `roblox://` — a URL from a browser click, into the
//! engine.
//!
//! The URL is hostile input. It arrives from a browser, which got it from a
//! page, which got it from anywhere. [`validate`] length-caps it, checks it for
//! one of the two schemes Cordial claims, and restricts it to printable ASCII
//! before anything else sees it — the last of those so that a URL cannot carry
//! a newline into the log and forge a line.
//!
//! Its contents are not printed. [`JoinUrl::describe`] reports the scheme, the
//! parameter *names*, and the length, and never a value: a `roblox://` link can
//! carry a private-server `accessCode`, and the desktop form's `gameinfo` is a
//! live one-time authentication ticket.
//!
//! roblox.com's play button emits the desktop launcher's format, which the
//! engine's own game-link pattern does not admit. [`translate`] takes it apart
//! — a version, then `+`-separated `key:value` pairs — percent-decodes its
//! `placelauncherurl`, and carries the `placeId` out of that launcher query into
//! `roblox://experiences/start?placeId=<id>`, the string measured to work.
//! Nothing else is carried; a launcher query that picks a particular server is
//! refused rather than flattened into a join somewhere else.

use vstd::prelude::*;
use crate::text::{
    all_digits, all_digits_exec, ascii_lower, ascii_lower_exec, byte_len, chars_of, decimal, eq_str,
    is_alphanumeric, is_alphanumeric_exec, join, join_exec, lemma_find_unique, lemma_utf8_len_concat,
    lemma_utf8_len_single, push_all, push_decimal, push_str, seq_eq, split_by, split_exec,
    first_in, is_first_in, lemma_first_in_unique, occurs_at, split_once_char, split_once_char_exec, string_of, trim_start_char, trim_start_char_exec,
    utf8_len, utf8_width_exec, views,
};

verus! {

/// The longest URL Cordial will carry, in bytes.
pub const MAX_LEN: usize = 2048;

// ------------------------------------------------------------ the rules

/// Printable ASCII, space excluded: what a browser hands over once it has
/// percent-encoded everything else.
pub open spec fn is_printable(c: char) -> bool {
    0x21 <= (c as u32) && (c as u32) <= 0x7e
}

pub open spec fn is_first_unprintable(s: Seq<char>, k: int) -> bool {
    &&& 0 <= k < s.len()
    &&& !is_printable(s[k])
    &&& forall|j: int| 0 <= j < k ==> is_printable(#[trigger] s[j])
}

/// Where the first character that is not printable ASCII sits, if any.
pub open spec fn first_unprintable(s: Seq<char>) -> Option<int> {
    if exists|k: int| is_first_unprintable(s, k) {
        Some(choose|k: int| is_first_unprintable(s, k))
    } else {
        None
    }
}

/// Backslash before every `"` and `\`: JSON's escaping for a string built
/// from printable ASCII, and also what `{:?}` does to such a string.
pub open spec fn escape_piece(c: char) -> Seq<char> {
    if c == '"' || c == '\\' {
        seq!['\\', c]
    } else {
        seq![c]
    }
}

pub open spec fn escaped(s: Seq<char>) -> Seq<char>
    decreases s.len(),
{
    if s.len() == 0 {
        seq![]
    } else {
        escape_piece(s[0]) + escaped(s.drop_first())
    }
}

/// `{:?}` of a string of printable ASCII.
pub open spec fn debug_quoted(s: Seq<char>) -> Seq<char> {
    seq!['"'] + escaped(s) + seq!['"']
}

/// Why [`validate`] refused a URL, or the scheme it accepted it on.
pub open spec fn spec_validate(raw: Seq<char>) -> Result<Seq<char>, Seq<char>> {
    if raw.len() == 0 {
        Err("--join-url was given an empty string"@)
    } else if utf8_len(raw) > MAX_LEN {
        Err("--join-url is "@ + decimal(utf8_len(raw)) + " bytes and the limit is 2048"@)
    } else if first_unprintable(raw) is Some {
        Err("--join-url has a character that is not printable ASCII at byte "@ + decimal(
            first_unprintable(raw)->0 as nat,
        ))
    } else {
        match split_once_char(raw, ':') {
            None => Err("--join-url has no scheme"@),
            Some(parts) => {
                let lower = ascii_lower(parts.0);
                if lower == "roblox-player"@ {
                    Ok("roblox-player"@)
                } else if lower == "roblox"@ {
                    Ok("roblox"@)
                } else {
                    Err("--join-url has scheme "@ + debug_quoted(lower)
                        + "; Cordial handles roblox-player and roblox"@)
                }
            },
        }
    }
}

/// Everything after the scheme, with any leading slashes removed.
pub open spec fn spec_payload(raw: Seq<char>) -> Seq<char> {
    match split_once_char(raw, ':') {
        Some(parts) => trim_start_char(parts.1, '/'),
        None => seq![],
    }
}

/// The payload, when the link is in the desktop launcher's form: on the
/// `roblox-player` scheme, led by an all-digits version and a `+`.
pub open spec fn spec_desktop_payload(raw: Seq<char>, scheme: Seq<char>) -> Option<Seq<char>> {
    if scheme != "roblox-player"@ {
        None
    } else {
        let payload = spec_payload(raw);
        match split_once_char(payload, '+') {
            None => None,
            Some(parts) => if parts.0.len() > 0 && all_digits(parts.0) {
                Some(payload)
            } else {
                None
            },
        }
    }
}

/// Safe to print as a parameter name: a short identifier.
pub open spec fn spec_is_identifier(s: Seq<char>) -> bool {
    &&& s.len() > 0
    &&& utf8_len(s) <= 40
    &&& forall|i: int|
        0 <= i < s.len() ==> is_alphanumeric(#[trigger] s[i]) || s[i] == '_' || s[i] == '-'
}

/// The keys of `tokens` — the part before `sep` — that look like
/// identifiers, in order. A token without `sep` has no key.
pub open spec fn identifier_keys(tokens: Seq<Seq<char>>, sep: char) -> Seq<Seq<char>>
    decreases tokens.len(),
{
    if tokens.len() == 0 {
        seq![]
    } else {
        let before = identifier_keys(tokens.drop_last(), sep);
        match split_once_char(tokens.last(), sep) {
            Some(kv) => if spec_is_identifier(kv.0) {
                before.push(kv.0)
            } else {
                before
            },
            None => before,
        }
    }
}

/// `Vec::dedup`: runs of equal neighbours collapsed to one.
pub open spec fn dedup(s: Seq<Seq<char>>) -> Seq<Seq<char>>
    decreases s.len(),
{
    if s.len() == 0 {
        seq![]
    } else {
        let d = dedup(s.drop_last());
        if d.len() > 0 && d.last() == s.last() {
            d
        } else {
            d.push(s.last())
        }
    }
}

/// The parameter names in a link, in the order they appear.
pub open spec fn spec_parameter_names(raw: Seq<char>, scheme: Seq<char>) -> Seq<Seq<char>> {
    match spec_desktop_payload(raw, scheme) {
        Some(payload) => dedup(identifier_keys(split_by(payload, seq!['+']), ':')),
        None => dedup(identifier_keys(split_by(spec_payload(raw), seq!['&', '?']), '=')),
    }
}

/// What is safe to print: the scheme, the parameter names, and the length.
pub open spec fn spec_describe(raw: Seq<char>, scheme: Seq<char>) -> Seq<char> {
    let names = spec_parameter_names(raw, scheme);
    if names.len() == 0 {
        scheme + ":// ("@ + decimal(utf8_len(raw)) + " bytes, no parameters)"@
    } else {
        scheme + ":// with "@ + join(names, ", "@) + " ("@ + decimal(utf8_len(raw))
            + " bytes; values not shown)"@
    }
}

// ------------------------------------------------------------ the URL

/// A URL that has passed [`validate`]. Construct it no other way.
pub struct JoinUrl {
    raw: String,
    scheme: &'static str,
}

impl View for JoinUrl {
    /// The link itself, and the scheme it arrived on.
    type V = (Seq<char>, Seq<char>);

    closed spec fn view(&self) -> (Seq<char>, Seq<char>) {
        (self.raw@, self.scheme@)
    }
}

impl JoinUrl {
    #[verifier::type_invariant]
    closed spec fn wf(self) -> bool {
        spec_validate(self.raw@) == Ok::<Seq<char>, Seq<char>>(self.scheme@)
    }

    /// The URL itself, for the one caller that hands it to the engine.
    ///
    /// Whatever it returns is a URL [`validate`] accepts, on this scheme.
    pub fn expose(&self) -> (s: &str)
        ensures
            s@ == self@.0,
            spec_validate(self@.0) == Ok::<Seq<char>, Seq<char>>(self@.1),
    {
        proof {
            use_type_invariant(self);
        }
        self.raw.as_str()
    }

    /// Which of the two schemes this arrived on.
    pub fn scheme(&self) -> (s: &'static str)
        ensures
            s@ == self@.1,
    {
        self.scheme
    }

    /// What is safe to print: the scheme, the parameter names, and the length.
    /// Never a parameter value.
    pub fn describe(&self) -> (d: String)
        ensures
            d@ == spec_describe(self@.0, self@.1),
    {
        let names = self.parameter_names();
        let mut out: Vec<char> = Vec::new();
        push_str(&mut out, self.scheme);
        let n = byte_len(self.raw.as_str()) as u64;
        if names.len() == 0 {
            push_str(&mut out, ":// (");
            push_decimal(&mut out, n);
            push_str(&mut out, " bytes, no parameters)");
        } else {
            push_str(&mut out, ":// with ");
            let joined = join_exec(&names, ", ");
            push_all(&mut out, joined.as_slice());
            push_str(&mut out, " (");
            push_decimal(&mut out, n);
            push_str(&mut out, " bytes; values not shown)");
        }
        string_of(out.as_slice())
    }

    /// The parameter names in this link, in the order they appear, and
    /// nothing else: a token without a separator, or whose key does not look
    /// like an identifier, contributes nothing.
    fn parameter_names(&self) -> (names: Vec<Vec<char>>)
        ensures
            views(names@) == spec_parameter_names(self@.0, self@.1),
    {
        let (tokens, sep) = match self.desktop_payload() {
            Some(payload) => {
                let set = vec!['+'];
                assert(set@ =~= seq!['+']);
                (split_exec(payload.as_slice(), set.as_slice()), ':')
            },
            None => {
                let payload = self.payload();
                let set = vec!['&', '?'];
                assert(set@ =~= seq!['&', '?']);
                (split_exec(payload.as_slice(), set.as_slice()), '=')
            },
        };
        let keys = identifier_keys_exec(&tokens, sep);
        dedup_exec(&keys)
    }

    /// Everything after the scheme, with any leading slashes removed.
    fn payload(&self) -> (p: Vec<char>)
        ensures
            p@ == spec_payload(self@.0),
    {
        let raw = chars_of(self.raw.as_str());
        match split_once_char_exec(raw.as_slice(), ':') {
            Some((_, rest)) => trim_start_char_exec(rest.as_slice(), '/'),
            None => Vec::new(),
        }
    }

    /// The payload, when this link is in the desktop launcher's form.
    fn desktop_payload(&self) -> (p: Option<Vec<char>>)
        ensures
            p matches Some(v) ==> spec_desktop_payload(self@.0, self@.1) == Some(v@),
            p is None ==> spec_desktop_payload(self@.0, self@.1) is None,
    {
        let scheme = chars_of(self.scheme);
        if !eq_str(scheme.as_slice(), "roblox-player") {
            return None;
        }
        let payload = self.payload();
        match split_once_char_exec(payload.as_slice(), '+') {
            None => None,
            Some((version, _)) => {
                if version.len() > 0 && all_digits_exec(version.as_slice()) {
                    Some(payload)
                } else {
                    None
                }
            },
        }
    }
}

/// Whether a name is safe to print as a parameter name.
fn is_identifier(s: &[char]) -> (b: bool)
    ensures
        b == spec_is_identifier(s@),
{
    if s.len() == 0 {
        return false;
    }
    let mut bytes: usize = 0;
    let mut i: usize = 0;
    while i < s.len()
        invariant
            i <= s@.len(),
            bytes == utf8_len(s@.subrange(0, i as int)),
            bytes <= 40,
            forall|j: int|
                0 <= j < i ==> is_alphanumeric(#[trigger] s@[j]) || s@[j] == '_' || s@[j] == '-',
        decreases s@.len() - i,
    {
        let c = s[i];
        if !(is_alphanumeric_exec(c) || c == '_' || c == '-') {
            return false;
        }
        proof {
            lemma_utf8_len_concat(s@.subrange(0, i as int), seq![c]);
            assert(s@.subrange(0, i + 1) =~= s@.subrange(0, i as int) + seq![c]);
            lemma_utf8_len_single(c);
        }
        bytes = bytes + utf8_width_exec(c);
        if bytes > 40 {
            proof {
                lemma_utf8_len_prefix(s@, i + 1);
            }
            return false;
        }
        i = i + 1;
    }
    assert(s@.subrange(0, s@.len() as int) =~= s@);
    true
}

/// A prefix is never longer in UTF-8 than the whole.
proof fn lemma_utf8_len_prefix(s: Seq<char>, k: int)
    requires
        0 <= k <= s.len(),
    ensures
        utf8_len(s.subrange(0, k)) <= utf8_len(s),
{
    lemma_utf8_len_concat(s.subrange(0, k), s.subrange(k, s.len() as int));
    assert(s.subrange(0, k) + s.subrange(k, s.len() as int) =~= s);
}

fn identifier_keys_exec(tokens: &Vec<Vec<char>>, sep: char) -> (keys: Vec<Vec<char>>)
    ensures
        views(keys@) == identifier_keys(views(tokens@), sep),
{
    let mut keys: Vec<Vec<char>> = Vec::new();
    let mut i: usize = 0;
    while i < tokens.len()
        invariant
            i <= tokens@.len(),
            views(keys@) == identifier_keys(views(tokens@).subrange(0, i as int), sep),
        decreases tokens@.len() - i,
    {
        let ghost prefix = views(tokens@).subrange(0, i + 1);
        assert(prefix.drop_last() =~= views(tokens@).subrange(0, i as int));
        assert(prefix.last() == tokens@[i as int]@);
        match split_once_char_exec(tokens[i].as_slice(), sep) {
            Some((k, _)) => {
                if is_identifier(k.as_slice()) {
                    let ghost before = views(keys@);
                    keys.push(k);
                    assert(views(keys@) =~= before.push(k@));
                }
            },
            None => {},
        }
        i = i + 1;
    }
    assert(views(tokens@).subrange(0, tokens@.len() as int) =~= views(tokens@));
    keys
}

fn dedup_exec(s: &Vec<Vec<char>>) -> (d: Vec<Vec<char>>)
    ensures
        views(d@) == dedup(views(s@)),
{
    let mut d: Vec<Vec<char>> = Vec::new();
    let mut i: usize = 0;
    while i < s.len()
        invariant
            i <= s@.len(),
            views(d@) == dedup(views(s@).subrange(0, i as int)),
        decreases s@.len() - i,
    {
        let ghost prefix = views(s@).subrange(0, i + 1);
        assert(prefix.drop_last() =~= views(s@).subrange(0, i as int));
        assert(prefix.last() == s@[i as int]@);
        let n = d.len();
        let same = n > 0 && seq_eq(d[n - 1].as_slice(), s[i].as_slice());
        if !same {
            let ghost before = views(d@);
            d.push(s[i].clone());
            assert(views(d@) =~= before.push(s@[i as int]@));
        }
        i = i + 1;
    }
    assert(views(s@).subrange(0, s@.len() as int) =~= views(s@));
    d
}


// ------------------------------------------------------------ validation

proof fn lemma_first_unprintable_at(s: Seq<char>, k: int)
    requires
        is_first_unprintable(s, k),
    ensures
        first_unprintable(s) == Some(k),
{
    let m = choose|m: int| is_first_unprintable(s, m);
    assert(is_first_unprintable(s, m));
    if m < k {
        assert(is_printable(s[m]));
    } else if k < m {
        assert(is_printable(s[k]));
    }
}

proof fn lemma_escaped_push(a: Seq<char>, c: char)
    ensures
        escaped(a.push(c)) == escaped(a) + escape_piece(c),
    decreases a.len(),
{
    if a.len() == 0 {
        assert(a.push(c).drop_first() =~= Seq::<char>::empty());
        assert(escaped(Seq::<char>::empty()) == Seq::<char>::empty());
        assert(escaped(a.push(c)) =~= escaped(a) + escape_piece(c));
    } else {
        assert(a.push(c).drop_first() =~= a.drop_first().push(c));
        lemma_escaped_push(a.drop_first(), c);
        assert(escaped(a.push(c)) =~= escaped(a) + escape_piece(c));
    }
}

/// Appends `s` with a backslash before every `"` and `\`.
fn push_escaped(out: &mut Vec<char>, s: &[char])
    ensures
        final(out)@ == old(out)@ + escaped(s@),
{
    let mut i: usize = 0;
    assert(s@.subrange(0, 0) =~= Seq::<char>::empty());
    assert(old(out)@ + escaped(Seq::<char>::empty()) =~= old(out)@);
    while i < s.len()
        invariant
            i <= s@.len(),
            out@ == old(out)@ + escaped(s@.subrange(0, i as int)),
        decreases s@.len() - i,
    {
        let c = s[i];
        if c == '"' || c == '\\' {
            out.push('\\');
        }
        out.push(c);
        proof {
            assert(s@.subrange(0, i + 1) =~= s@.subrange(0, i as int).push(c));
            lemma_escaped_push(s@.subrange(0, i as int), c);
        }
        i = i + 1;
        assert(out@ =~= old(out)@ + escaped(s@.subrange(0, i as int)));
    }
    assert(s@.subrange(0, s@.len() as int) =~= s@);
}

fn error_text(parts: &[char]) -> (e: String)
    ensures
        e@ == parts@,
{
    string_of(parts)
}

/// Accept a URL, or say precisely why not.
///
/// Deliberately strict and deliberately dull. Every rejection is a sentence
/// the user sees.
pub fn validate(raw: &str) -> (r: Result<JoinUrl, String>)
    ensures
        r matches Ok(u) ==> u@.0 == raw@ && spec_validate(raw@) == Ok::<Seq<char>, Seq<char>>(
            u@.1,
        ),
        r matches Err(e) ==> spec_validate(raw@) == Err::<Seq<char>, Seq<char>>(e@),
{
    let cs = chars_of(raw);
    if cs.len() == 0 {
        return Err(String::from_str("--join-url was given an empty string"));
    }
    let n = byte_len(raw);
    if n > MAX_LEN {
        let mut e: Vec<char> = Vec::new();
        push_str(&mut e, "--join-url is ");
        push_decimal(&mut e, n as u64);
        push_str(&mut e, " bytes and the limit is 2048");
        return Err(error_text(e.as_slice()));
    }
    let mut i: usize = 0;
    while i < cs.len()
        invariant
            cs@ == raw@,
            raw@.len() > 0,
            utf8_len(raw@) <= MAX_LEN,
            i <= cs@.len(),
            forall|j: int| 0 <= j < i ==> is_printable(#[trigger] cs@[j]),
        decreases cs@.len() - i,
    {
        let c: char = cs[i];
        let u: u32 = c as u32;
        if !(0x21 <= u && u <= 0x7e) {
            proof {
                lemma_first_unprintable_at(raw@, i as int);
            }
            let mut e: Vec<char> = Vec::new();
            push_str(&mut e, "--join-url has a character that is not printable ASCII at byte ");
            push_decimal(&mut e, i as u64);
            return Err(error_text(e.as_slice()));
        }
        i = i + 1;
    }
    assert(first_unprintable(raw@) is None);
    match split_once_char_exec(cs.as_slice(), ':') {
        None => Err(String::from_str("--join-url has no scheme")),
        Some((scheme, _)) => {
            let lower = ascii_lower_exec(scheme.as_slice());
            if eq_str(lower.as_slice(), "roblox-player") {
                Ok(JoinUrl { raw: String::from_str(raw), scheme: "roblox-player" })
            } else if eq_str(lower.as_slice(), "roblox") {
                Ok(JoinUrl { raw: String::from_str(raw), scheme: "roblox" })
            } else {
                let mut e: Vec<char> = Vec::new();
                push_str(&mut e, "--join-url has scheme \"");
                push_escaped(&mut e, lower.as_slice());
                push_str(&mut e, "\"; Cordial handles roblox-player and roblox");
                assert(e@ =~= "--join-url has scheme "@ + debug_quoted(lower@)
                    + "; Cordial handles roblox-player and roblox"@) by {
                    reveal_strlit("--join-url has scheme \"");
                    reveal_strlit("--join-url has scheme ");
                    reveal_strlit("\"; Cordial handles roblox-player and roblox");
                    reveal_strlit("; Cordial handles roblox-player and roblox");
                }
                Err(error_text(e.as_slice()))
            }
        },
    }
}

/// The two characters that would break out of a JSON string literal,
/// escaped. [`validate`] admits every printable ASCII byte, `"` and `\`
/// included, so a payload built from a URL must not carry them bare.
pub fn escape_json(s: &str) -> (r: String)
    ensures
        r@ == escaped(s@),
{
    let cs = chars_of(s);
    let mut out: Vec<char> = Vec::new();
    push_escaped(&mut out, cs.as_slice());
    assert(out@ =~= escaped(s@));
    string_of(out.as_slice())
}


// ------------------------------------------------------------ percent-decoding

/// What the two bytes after a `%` decode to.
pub enum HexEscape {
    Value(u8),
    /// Valid UTF-8, but not two hexadecimal digits.
    NotHex,
    /// Not a whole character's worth of UTF-8.
    CutShort,
}

pub open spec fn is_hex_byte(b: u8) -> bool {
    (0x30 <= b && b <= 0x39) || (0x61 <= b && b <= 0x66) || (0x41 <= b && b <= 0x46)
}

pub open spec fn hex_byte_value(b: u8) -> u8 {
    if 0x30 <= b && b <= 0x39 {
        (b - 0x30) as u8
    } else if 0x61 <= b && b <= 0x66 {
        (b - 0x61 + 10) as u8
    } else {
        (b - 0x41 + 10) as u8
    }
}

/// `str::from_utf8` on the two bytes, then `u8::from_str_radix(_, 16)` on
/// what that gives: two ASCII bytes are two hex digits, or a `+` and one hex
/// digit; a two-byte UTF-8 character is text but no digit; anything else is
/// not UTF-8 at all.
pub open spec fn spec_hex_escape(x: u8, y: u8) -> HexEscape {
    if x < 0x80 && y < 0x80 {
        if x == 0x2b && is_hex_byte(y) {
            HexEscape::Value(hex_byte_value(y))
        } else if is_hex_byte(x) && is_hex_byte(y) {
            HexEscape::Value((hex_byte_value(x) * 16 + hex_byte_value(y)) as u8)
        } else {
            HexEscape::NotHex
        }
    } else if 0xc2 <= x && x <= 0xdf && 0x80 <= y && y <= 0xbf {
        HexEscape::NotHex
    } else {
        HexEscape::CutShort
    }
}

pub open spec fn prepend(
    front: Seq<char>,
    r: Result<Seq<char>, Seq<char>>,
) -> Result<Seq<char>, Seq<char>> {
    match r {
        Ok(t) => Ok(front + t),
        Err(e) => Err(e),
    }
}

/// The percent-decoding of the UTF-8 bytes `b`, or the first reason it
/// fails. Every other byte becomes the character with that number.
pub open spec fn spec_percent_decode(b: Seq<u8>) -> Result<Seq<char>, Seq<char>>
    decreases b.len(),
{
    if b.len() == 0 {
        Ok(seq![])
    } else if b[0] != 0x25 {
        prepend(seq![b[0] as char], spec_percent_decode(b.drop_first()))
    } else if b.len() < 3 {
        Err("ends in a percent escape that is cut short"@)
    } else {
        match spec_hex_escape(b[1], b[2]) {
            HexEscape::CutShort => Err("ends in a percent escape that is cut short"@),
            HexEscape::NotHex => Err("has a percent escape that is not two hexadecimal digits"@),
            HexEscape::Value(v) => if v < 0x20 || v > 0x7e {
                Err("has a percent escape for a character that is not printable"@)
            } else {
                prepend(seq![v as char], spec_percent_decode(b.subrange(3, b.len() as int)))
            },
        }
    }
}

fn is_hex_byte_exec(b: u8) -> (r: bool)
    ensures
        r == is_hex_byte(b),
{
    (0x30 <= b && b <= 0x39) || (0x61 <= b && b <= 0x66) || (0x41 <= b && b <= 0x46)
}

fn hex_byte_value_exec(b: u8) -> (v: u8)
    requires
        is_hex_byte(b),
    ensures
        v == hex_byte_value(b),
        v < 16,
{
    if 0x30 <= b && b <= 0x39 {
        b - 0x30
    } else if 0x61 <= b && b <= 0x66 {
        b - 0x61 + 10
    } else {
        b - 0x41 + 10
    }
}

fn hex_escape(x: u8, y: u8) -> (r: HexEscape)
    ensures
        r == spec_hex_escape(x, y),
{
    if x < 0x80 && y < 0x80 {
        if x == 0x2b && is_hex_byte_exec(y) {
            HexEscape::Value(hex_byte_value_exec(y))
        } else if is_hex_byte_exec(x) && is_hex_byte_exec(y) {
            let hi = hex_byte_value_exec(x);
            let lo = hex_byte_value_exec(y);
            HexEscape::Value(hi * 16 + lo)
        } else {
            HexEscape::NotHex
        }
    } else if 0xc2 <= x && x <= 0xdf && 0x80 <= y && y <= 0xbf {
        HexEscape::NotHex
    } else {
        HexEscape::CutShort
    }
}

/// Undo the percent-encoding on a desktop link's `placelauncherurl`.
///
/// Strict rather than lenient: a malformed escape means the link is not the
/// shape this claims to understand, and the answer is to refuse rather than
/// to salvage what parses. A decoded byte must be printable ASCII, space
/// allowed.
pub fn percent_decode(s: &str) -> (r: Result<String, String>)
    ensures
        r matches Ok(t) ==> spec_percent_decode(vstd::utf8::encode_utf8(s@)) == Ok::<Seq<char>, Seq<char>>(
            t@,
        ),
        r matches Err(e) ==> spec_percent_decode(vstd::utf8::encode_utf8(s@)) == Err::<Seq<char>, Seq<char>>(
            e@,
        ),
{
    let bytes = s.as_bytes();
    let n = bytes.len();
    let ghost b = bytes@;
    let mut out: Vec<char> = Vec::new();
    let mut i: usize = 0;
    assert(b.subrange(0, n as int) =~= b);
    assert(prepend(out@, spec_percent_decode(b)) =~= spec_percent_decode(b));
    while i < n
        invariant
            b == bytes@,
            b == vstd::utf8::encode_utf8(s@),
            n == b.len(),
            i <= n,
            spec_percent_decode(b) == prepend(out@, spec_percent_decode(b.subrange(i as int, n as int))),
        decreases n - i,
    {
        let ghost rest = b.subrange(i as int, n as int);
        assert(rest.len() == n - i);
        assert(rest[0] == b[i as int]);
        assert(n - i >= 3 ==> rest[1] == b[i + 1] && rest[2] == b[i + 2]);
        if bytes[i] != 0x25 {
            let c = bytes[i] as char;
            proof {
                assert(rest.drop_first() =~= b.subrange(i + 1, n as int));
                assert(out@.push(c) =~= out@ + seq![c]);
                match spec_percent_decode(rest.drop_first()) {
                    Ok(t) => assert(out@ + (seq![c] + t) =~= out@.push(c) + t),
                    Err(_) => {},
                }
            }
            out.push(c);
            i = i + 1;
        } else if n - i < 3 {
            return Err(String::from_str("ends in a percent escape that is cut short"));
        } else {
            match hex_escape(bytes[i + 1], bytes[i + 2]) {
                HexEscape::CutShort => {
                    return Err(String::from_str("ends in a percent escape that is cut short"));
                },
                HexEscape::NotHex => {
                    return Err(
                        String::from_str("has a percent escape that is not two hexadecimal digits"),
                    );
                },
                HexEscape::Value(v) => {
                    if v < 0x20 || v > 0x7e {
                        return Err(
                            String::from_str(
                                "has a percent escape for a character that is not printable",
                            ),
                        );
                    }
                    let c = v as char;
                    proof {
                        assert(rest.subrange(3, rest.len() as int) =~= b.subrange(i + 3, n as int));
                        match spec_percent_decode(b.subrange(i + 3, n as int)) {
                            Ok(t) => assert(out@ + (seq![c] + t) =~= out@.push(c) + t),
                            Err(_) => {},
                        }
                    }
                    out.push(c);
                    i = i + 3;
                },
            }
        }
    }
    assert(b.subrange(n as int, n as int) =~= Seq::<u8>::empty());
    assert(out@ + Seq::<char>::empty() =~= out@);
    Ok(string_of(out.as_slice()))
}


// ------------------------------------------------------------ translation

/// The value of the last `key:value` token whose key, lower-cased, is `key`.
pub open spec fn last_value(tokens: Seq<Seq<char>>, key: Seq<char>) -> Option<Seq<char>>
    decreases tokens.len(),
{
    if tokens.len() == 0 {
        None
    } else {
        match split_once_char(tokens.last(), ':') {
            Some(kv) => if ascii_lower(kv.0) == key {
                Some(kv.1)
            } else {
                last_value(tokens.drop_last(), key)
            },
            None => last_value(tokens.drop_last(), key),
        }
    }
}

/// Parameters in a `PlaceLauncher.ashx` query that choose a *particular
/// server* rather than an experience, lower-cased.
pub open spec fn is_server_selecting(lower: Seq<char>) -> bool {
    ||| lower == "accesscode"@
    ||| lower == "linkcode"@
    ||| lower == "reservedserveraccesscode"@
    ||| lower == "gameid"@
    ||| lower == "jobid"@
}

/// What a launcher query says: its `placeId` (the last one), the
/// server-selecting parameters it carries, and the other parameter names.
pub struct LauncherQuery {
    pub place: Option<Seq<char>>,
    pub blocking: Seq<Seq<char>>,
    pub dropped: Seq<Seq<char>>,
}

pub open spec fn scan_query(pairs: Seq<Seq<char>>) -> LauncherQuery
    decreases pairs.len(),
{
    if pairs.len() == 0 {
        LauncherQuery { place: None, blocking: seq![], dropped: seq![] }
    } else {
        let q = scan_query(pairs.drop_last());
        match split_once_char(pairs.last(), '=') {
            None => q,
            Some(kv) => {
                let lower = ascii_lower(kv.0);
                if lower == "placeid"@ {
                    LauncherQuery { place: Some(kv.1), ..q }
                } else if is_server_selecting(lower) {
                    LauncherQuery { blocking: q.blocking.push(lower), ..q }
                } else if spec_is_identifier(kv.0) {
                    LauncherQuery { dropped: q.dropped.push(kv.0), ..q }
                } else {
                    q
                }
            },
        }
    }
}

/// What [`translate`] made of a link.
pub enum TranslatedView {
    AsIs,
    To((Seq<char>, Seq<char>), Seq<Seq<char>>),
    Refused(Seq<char>),
}

/// The prefix of the one link shape measured to reach the engine.
pub open spec fn mobile_link(place: Seq<char>) -> Seq<char> {
    "roblox://experiences/start?placeId="@ + place
}

pub open spec fn spec_translate(raw: Seq<char>, scheme: Seq<char>) -> TranslatedView {
    match spec_desktop_payload(raw, scheme) {
        None => TranslatedView::AsIs,
        Some(payload) => {
            let tokens = split_by(payload, seq!['+']);
            let mode = last_value(tokens, "launchmode"@);
            let launcher = last_value(tokens, "placelauncherurl"@);
            if mode is Some && ascii_lower(mode->0) != "play"@ {
                TranslatedView::Refused(
                    "this link's launchmode is not play, so it is not a request to join an experience"@,
                )
            } else if launcher is None {
                TranslatedView::Refused(
                    "this link carries no placelauncherurl, so there is no place id in it to translate"@,
                )
            } else {
                match spec_percent_decode(vstd::utf8::encode_utf8(launcher->0)) {
                    Err(e) => TranslatedView::Refused("its placelauncherurl "@ + e),
                    Ok(decoded) => {
                        let query = match split_once_char(decoded, '?') {
                            Some(p) => p.1,
                            None => seq![],
                        };
                        let q = scan_query(split_by(query, seq!['&']));
                        if q.blocking.len() > 0 {
                            TranslatedView::Refused(
                                "its placelauncherurl carries "@ + join(q.blocking, ", "@)
                                    + ", which picks a particular server rather than an experience; carrying only the place id would join a different game from the one clicked"@,
                            )
                        } else {
                            match q.place {
                                None => TranslatedView::Refused(
                                    "its placelauncherurl names no placeId, so there is nothing to join"@,
                                ),
                                Some(place) => if place.len() == 0 || utf8_len(place) > 20
                                    || !all_digits(place) {
                                    TranslatedView::Refused(
                                        "its placelauncherurl's placeId is not a number, and Cordial will not invent one"@,
                                    )
                                } else {
                                    match spec_validate(mobile_link(place)) {
                                        Ok(s) => TranslatedView::To(
                                            (mobile_link(place), s),
                                            q.dropped,
                                        ),
                                        Err(e) => TranslatedView::Refused(
                                            "the link it translates to is not one Cordial takes: "@
                                                + e,
                                        ),
                                    }
                                },
                            }
                        }
                    },
                }
            }
        },
    }
}

/// What [`translate`] made of the link.
#[derive(Debug)]
pub enum Translated {
    /// Already in a form the engine's own pattern matches. Deliver it unchanged.
    AsIs,
    /// A desktop link, rewritten into the mobile form. `dropped` names the
    /// launcher-URL parameters that were not carried.
    To { url: JoinUrl, dropped: Vec<String> },
    /// A desktop link this will not translate, and why — in parameter names,
    /// never values.
    Refused(String),
}

pub open spec fn string_views(v: Seq<String>) -> Seq<Seq<char>> {
    Seq::new(v.len(), |i: int| v[i]@)
}

impl View for Translated {
    type V = TranslatedView;

    open spec fn view(&self) -> TranslatedView {
        match self {
            Translated::AsIs => TranslatedView::AsIs,
            Translated::To { url, dropped } => TranslatedView::To(url@, string_views(dropped@)),
            Translated::Refused(why) => TranslatedView::Refused(why@),
        }
    }
}

fn last_value_exec(tokens: &Vec<Vec<char>>, key: &str) -> (v: Option<Vec<char>>)
    ensures
        v matches Some(x) ==> last_value(views(tokens@), key@) == Some(x@),
        v is None ==> last_value(views(tokens@), key@) is None,
{
    let mut found: Option<Vec<char>> = None;
    let mut i: usize = 0;
    while i < tokens.len()
        invariant
            i <= tokens@.len(),
            found matches Some(x) ==> last_value(views(tokens@).subrange(0, i as int), key@)
                == Some(x@),
            found is None ==> last_value(views(tokens@).subrange(0, i as int), key@) is None,
        decreases tokens@.len() - i,
    {
        let ghost prefix = views(tokens@).subrange(0, i + 1);
        assert(prefix.drop_last() =~= views(tokens@).subrange(0, i as int));
        assert(prefix.last() == tokens@[i as int]@);
        match split_once_char_exec(tokens[i].as_slice(), ':') {
            Some((k, value)) => {
                let lower = ascii_lower_exec(k.as_slice());
                if eq_str(lower.as_slice(), key) {
                    found = Some(value);
                }
            },
            None => {},
        }
        i = i + 1;
    }
    assert(views(tokens@).subrange(0, tokens@.len() as int) =~= views(tokens@));
    found
}

fn is_server_selecting_exec(lower: &[char]) -> (b: bool)
    ensures
        b == is_server_selecting(lower@),
{
    eq_str(lower, "accesscode") || eq_str(lower, "linkcode") || eq_str(
        lower,
        "reservedserveraccesscode",
    ) || eq_str(lower, "gameid") || eq_str(lower, "jobid")
}

fn strings_of(v: &Vec<Vec<char>>) -> (r: Vec<String>)
    ensures
        string_views(r@) == views(v@),
{
    let mut r: Vec<String> = Vec::new();
    let mut i: usize = 0;
    while i < v.len()
        invariant
            i <= v@.len(),
            r@.len() == i,
            string_views(r@) == views(v@).subrange(0, i as int),
        decreases v@.len() - i,
    {
        let ghost before = r@;
        let t = string_of(v[i].as_slice());
        assert(t@ == views(v@)[i as int]);
        r.push(t);
        assert(r@ == before.push(t));
        i = i + 1;
        assert forall|j: int| 0 <= j < i implies #[trigger] string_views(r@)[j] == views(v@).subrange(
            0,
            i as int,
        )[j] by {
            if j < i - 1 {
                assert(string_views(before)[j] == views(v@).subrange(0, i - 1)[j]);
            }
        }
        assert(string_views(r@) =~= views(v@).subrange(0, i as int));
    }
    assert(views(v@).subrange(0, v@.len() as int) =~= views(v@));
    r
}

fn refused(why: &str) -> (t: Translated)
    ensures
        t@ == TranslatedView::Refused(why@),
{
    Translated::Refused(String::from_str(why))
}

/// Rewrite roblox.com's desktop launch link into the mobile one the engine
/// matches, or say why not.
///
/// The `placeId` in the decoded `placelauncherurl`, and only that, is carried
/// into `roblox://experiences/start?placeId=<id>`. The `gameinfo` ticket is
/// dropped; a launcher query that picks a particular server is refused.
pub fn translate(url: &JoinUrl) -> (t: Translated)
    ensures
        t@ == spec_translate(url@.0, url@.1),
{
    let payload = match url.desktop_payload() {
        None => return Translated::AsIs,
        Some(p) => p,
    };
    let plus = vec!['+'];
    assert(plus@ =~= seq!['+']);
    let tokens = split_exec(payload.as_slice(), plus.as_slice());
    let mode = last_value_exec(&tokens, "launchmode");
    let launcher = last_value_exec(&tokens, "placelauncherurl");
    if let Some(m) = mode {
        let lower = ascii_lower_exec(m.as_slice());
        if !eq_str(lower.as_slice(), "play") {
            return refused(
                "this link's launchmode is not play, so it is not a request to join an experience",
            );
        }
    }
    let launcher = match launcher {
        None => {
            return refused(
                "this link carries no placelauncherurl, so there is no place id in it to translate",
            )
        },
        Some(l) => l,
    };
    let launcher_text = string_of(launcher.as_slice());
    let decoded = match percent_decode(launcher_text.as_str()) {
        Err(e) => {
            let mut why = String::from_str("its placelauncherurl ");
            why.append(e.as_str());
            return Translated::Refused(why);
        },
        Ok(d) => d,
    };
    let decoded = chars_of(decoded.as_str());
    let query = match split_once_char_exec(decoded.as_slice(), '?') {
        Some((_, q)) => q,
        None => Vec::new(),
    };
    let amp = vec!['&'];
    assert(amp@ =~= seq!['&']);
    let pairs = split_exec(query.as_slice(), amp.as_slice());
    let mut place: Option<Vec<char>> = None;
    let mut blocking: Vec<Vec<char>> = Vec::new();
    let mut dropped: Vec<Vec<char>> = Vec::new();
    let mut i: usize = 0;
    while i < pairs.len()
        invariant
            i <= pairs@.len(),
            ({
                let q = scan_query(views(pairs@).subrange(0, i as int));
                &&& (place matches Some(p) ==> q.place == Some(p@))
                &&& (place is None ==> q.place is None)
                &&& views(blocking@) == q.blocking
                &&& views(dropped@) == q.dropped
            }),
        decreases pairs@.len() - i,
    {
        let ghost prefix = views(pairs@).subrange(0, i + 1);
        assert(prefix.drop_last() =~= views(pairs@).subrange(0, i as int));
        assert(prefix.last() == pairs@[i as int]@);
        match split_once_char_exec(pairs[i].as_slice(), '=') {
            None => {},
            Some((key, value)) => {
                let lower = ascii_lower_exec(key.as_slice());
                if eq_str(lower.as_slice(), "placeid") {
                    place = Some(value);
                } else if is_server_selecting_exec(lower.as_slice()) {
                    let ghost before = views(blocking@);
                    blocking.push(lower);
                    assert(views(blocking@) =~= before.push(ascii_lower(key@)));
                } else if is_identifier(key.as_slice()) {
                    let ghost before = views(dropped@);
                    dropped.push(key);
                    assert(views(dropped@) =~= before.push(key@));
                }
            },
        }
        i = i + 1;
    }
    assert(views(pairs@).subrange(0, pairs@.len() as int) =~= views(pairs@));
    if blocking.len() > 0 {
        let mut why: Vec<char> = Vec::new();
        push_str(&mut why, "its placelauncherurl carries ");
        let joined = join_exec(&blocking, ", ");
        push_all(&mut why, joined.as_slice());
        push_str(
            &mut why,
            ", which picks a particular server rather than an experience; carrying only the place id would join a different game from the one clicked",
        );
        return Translated::Refused(string_of(why.as_slice()));
    }
    let place = match place {
        None => {
            return refused("its placelauncherurl names no placeId, so there is nothing to join")
        },
        Some(p) => p,
    };
    let place_text = string_of(place.as_slice());
    if place.len() == 0 || byte_len(place_text.as_str()) > 20 || !all_digits_exec(
        place.as_slice(),
    ) {
        return refused(
            "its placelauncherurl's placeId is not a number, and Cordial will not invent one",
        );
    }
    let mut link: Vec<char> = Vec::new();
    push_str(&mut link, "roblox://experiences/start?placeId=");
    push_all(&mut link, place.as_slice());
    let link_text = string_of(link.as_slice());
    match validate(link_text.as_str()) {
        Ok(u) => Translated::To { url: u, dropped: strings_of(&dropped) },
        Err(e) => {
            let mut why = String::from_str("the link it translates to is not one Cordial takes: ");
            why.append(e.as_str());
            Translated::Refused(why)
        },
    }
}

/// `com.roblox.universalapp.linking.JNIBaseUrlProtocol`.
pub const BASE_URL: &'static str = "com/roblox/universalapp/linking/JNIBaseUrlProtocol";
/// `com.roblox.universalapp.linking.JNIWebLoginProtocol`.
pub const WEB_LOGIN: &'static str = "com/roblox/universalapp/linking/JNIWebLoginProtocol";
/// `com.roblox.universalapp.linking.JNILinkingProtocol`.
pub const LINKING: &'static str = "com/roblox/universalapp/linking/JNILinkingProtocol";
/// `com.roblox.universalapp.messagebus.MessageBus`.
pub const BUS: &'static str = "com/roblox/universalapp/messagebus/MessageBus";
/// The message a URL is published on, read out of a running engine.
pub const DETECT_URL: &'static str = "Linking.detectURL";
/// The message the app shell publishes when it wants an experience launched.
pub const GAME_LAUNCH: &'static str = "Game.launch";

/// What is published on [`DETECT_URL`]: a one-field object whose `url` is
/// the link, escaped — the engine's `getUrlKey()` answers `"url"`.
pub open spec fn spec_url_payload(raw: Seq<char>) -> Seq<char> {
    "{\"url\":\""@ + escaped(raw) + "\"}"@
}

pub fn url_payload(url: &JoinUrl) -> (p: String)
    ensures
        p@ == spec_url_payload(url@.0),
{
    let e = escape_json(url.expose());
    let mut out: Vec<char> = Vec::new();
    push_str(&mut out, "{\"url\":\"");
    push_str(&mut out, e.as_str());
    push_str(&mut out, "\"}");
    string_of(out.as_slice())
}

/// The symbol a JNI native is exported under: `Java_`, the class with `/` as
/// `_`, `_`, and the method.
pub open spec fn spec_native_symbol(class: Seq<char>, method: Seq<char>) -> Seq<char> {
    "Java_"@ + class.map_values(|c: char| if c == '/' { '_' } else { c }) + "_"@ + method
}

pub fn native_symbol(class: &str, method: &str) -> (s: String)
    ensures
        s@ == spec_native_symbol(class@, method@),
{
    let cs = chars_of(class);
    let mut out: Vec<char> = Vec::new();
    push_str(&mut out, "Java_");
    let ghost start = out@;
    let mut i: usize = 0;
    while i < cs.len()
        invariant
            i <= cs@.len(),
            out@ == start + cs@.subrange(0, i as int).map_values(
                |c: char| if c == '/' { '_' } else { c },
            ),
        decreases cs@.len() - i,
    {
        let c = cs[i];
        out.push(if c == '/' { '_' } else { c });
        i = i + 1;
        assert(out@ =~= start + cs@.subrange(0, i as int).map_values(
            |c: char| if c == '/' { '_' } else { c },
        ));
    }
    assert(cs@.subrange(0, cs@.len() as int) =~= cs@);
    push_str(&mut out, "_");
    push_str(&mut out, method);
    assert(out@ =~= spec_native_symbol(class@, method@));
    string_of(out.as_slice())
}

/// The link `deliver` works on once `translate` has spoken: the rewritten one
/// when there is one, else the link as it arrived.
pub fn link_to_deliver<'a>(url: &'a JoinUrl, translated: &'a Translated) -> (l: &'a JoinUrl)
    ensures
        translated matches Translated::To { url: rewritten, .. } ==> l == rewritten,
        !(translated is To) ==> l == url,
{
    match translated {
        Translated::To { url: rewritten, .. } => rewritten,
        _ => url,
    }
}

/// The note `deliver` prints about launcher-URL parameters that were not
/// carried across, naming them; none when nothing was dropped.
pub fn dropped_note(dropped: &Vec<String>) -> (n: Option<String>)
    ensures
        dropped@.len() == 0 ==> n is None,
        dropped@.len() > 0 ==> (n matches Some(t) && t@ == "its launcher URL also carried "@
            + join(string_views(dropped@), ", "@) + ", which Cordial does not carry across"@),
{
    if dropped.len() == 0 {
        return None;
    }
    let mut parts: Vec<Vec<char>> = Vec::new();
    let mut i: usize = 0;
    while i < dropped.len()
        invariant
            i <= dropped@.len(),
            parts@.len() == i,
            views(parts@) == string_views(dropped@).subrange(0, i as int),
        decreases dropped@.len() - i,
    {
        let cs = chars_of(dropped[i].as_str());
        let ghost before = parts@;
        parts.push(cs);
        assert(parts@ == before.push(cs));
        assert(views(parts@)[i as int] == dropped@[i as int]@);
        i = i + 1;
        assert forall|j: int| 0 <= j < i implies #[trigger] views(parts@)[j] == string_views(
            dropped@,
        ).subrange(0, i as int)[j] by {
            if j < i - 1 {
                assert(views(before)[j] == string_views(dropped@).subrange(0, i - 1)[j]);
            }
        }
        assert(views(parts@) =~= string_views(dropped@).subrange(0, i as int));
    }
    assert(string_views(dropped@).subrange(0, dropped@.len() as int) =~= string_views(dropped@));
    let joined = join_exec(&parts, ", ");
    let mut out: Vec<char> = Vec::new();
    push_str(&mut out, "its launcher URL also carried ");
    push_all(&mut out, joined.as_slice());
    push_str(&mut out, ", which Cordial does not carry across");
    Some(string_of(out.as_slice()))
}

/// A `roblox-player://` link still in hand after translation is not expected
/// to reach an experience: the engine's own link pattern matches `roblox://`
/// and `robloxmobile://` only.
pub fn expects_no_experience(url: &JoinUrl) -> (w: bool)
    ensures
        w == (url@.1 == "roblox-player"@),
{
    let s = chars_of(url.scheme());
    eq_str(s.as_slice(), "roblox-player")
}

/// What became of the link once the app shell is up, as `tick` reports it.
#[derive(Debug, PartialEq, Eq)]
pub enum LaunchReport {
    /// The app shell asked to launch an experience.
    Launched,
    /// The engine registered a deep link but has not asked to launch.
    RegisteredOnly,
    /// Nothing asked to launch an experience.
    NotReached,
}

/// `tick`'s verdict from what the bus last carried on `Game.launch` and the
/// engine's own cold-start flag: a launch request settles it; without one, a
/// registered cold-start link is reported as such; anything else did not
/// reach an experience.
pub fn launch_report(launched: bool, cold_start: Option<bool>) -> (r: LaunchReport)
    ensures
        r == (if launched {
            LaunchReport::Launched
        } else if cold_start == Some(true) {
            LaunchReport::RegisteredOnly
        } else {
            LaunchReport::NotReached
        }),
{
    if launched {
        LaunchReport::Launched
    } else {
        match cold_start {
            Some(true) => LaunchReport::RegisteredOnly,
            _ => LaunchReport::NotReached,
        }
    }
}

impl LaunchReport {
    /// The line `tick` prints.
    pub fn message(&self) -> (m: &'static str)
        ensures
            m@ == (match self {
                LaunchReport::Launched => "the app shell asked to launch an experience; the link reached the engine"@,
                LaunchReport::RegisteredOnly => "the engine registered a deep link, but has not asked to launch an experience"@,
                LaunchReport::NotReached => "the app shell is up and nothing asked to launch an experience — this link did not reach an experience. Signing in is required before a join can proceed"@,
            }),
    {
        match self {
            LaunchReport::Launched => "the app shell asked to launch an experience; the link reached the engine",
            LaunchReport::RegisteredOnly => "the engine registered a deep link, but has not asked to launch an experience",
            LaunchReport::NotReached => "the app shell is up and nothing asked to launch an experience — this link did not reach an experience. Signing in is required before a join can proceed",
        }
    }
}

/// `getLastRaw`'s answer as a payload: an empty answer means nothing was ever
/// published on that id.
pub fn last_payload(raw: String) -> (p: Option<String>)
    ensures
        raw@.len() == 0 ==> p is None,
        raw@.len() > 0 ==> p == Some(raw),
{
    if raw.as_str().unicode_len() == 0 {
        None
    } else {
        Some(raw)
    }
}

/// How `deliver` ends: claimed by a cold-start protocol if one took it;
/// otherwise published when any surface was there to take it (a cold-start
/// export or a reachable bus), and `NoSurface` when the build exports none of
/// it.
pub fn delivery_outcome(claimed_by: Option<&'static str>, any_export: bool, bus_reachable: bool) -> (o:
    Outcome)
    ensures
        o == (match claimed_by {
            Some(tag) => Outcome::Claimed(tag),
            None => if any_export || bus_reachable {
                Outcome::Published
            } else {
                Outcome::NoSurface
            },
        }),
{
    match claimed_by {
        Some(tag) => Outcome::Claimed(tag),
        None => if any_export || bus_reachable {
            Outcome::Published
        } else {
            Outcome::NoSurface
        },
    }
}

/// What was *done* with the link at cold start — not a verdict on whether it
/// worked, which nothing at that point in a launch knows.
#[derive(Debug, PartialEq, Eq)]
pub enum Outcome {
    /// A `maybeHandleColdStartProtocolLaunch` claimed the URL outright.
    Claimed(&'static str),
    /// On the engine's message bus.
    Published,
    /// The build exports none of it.
    NoSurface,
}


// ------------------------------------------------------------ laws

/// Reading a JSON string's body: whether a quote ends it before its end, or
/// a backslash is left with nothing to escape — which would swallow the
/// closing quote.
pub open spec fn ends_early(e: Seq<char>) -> bool
    decreases e.len(),
{
    if e.len() == 0 {
        false
    } else if e[0] == '"' {
        true
    } else if e[0] == '\\' {
        e.len() < 2 || ends_early(e.subrange(2, e.len() as int))
    } else {
        ends_early(e.drop_first())
    }
}

/// A JSON string's body, with each backslash escape read back.
pub open spec fn unescaped(e: Seq<char>) -> Seq<char>
    decreases e.len(),
{
    if e.len() == 0 {
        seq![]
    } else if e[0] == '\\' && e.len() >= 2 {
        seq![e[1]] + unescaped(e.subrange(2, e.len() as int))
    } else {
        seq![e[0]] + unescaped(e.drop_first())
    }
}

/// Whatever the link holds — quotes, backslashes — its escaped form, put
/// between quotes in the payload, is one string that nothing in it can end
/// early, and that reads back as the link exactly. So a quote cannot add a
/// field to the payload and a backslash cannot escape the closing quote.
pub proof fn law_an_escaped_link_stays_one_string(s: Seq<char>)
    ensures
        !ends_early(escaped(s)),
        unescaped(escaped(s)) == s,
    decreases s.len(),
{
    if s.len() > 0 {
        law_an_escaped_link_stays_one_string(s.drop_first());
        let rest = escaped(s.drop_first());
        let e = escaped(s);
        assert(e == escape_piece(s[0]) + rest);
        if s[0] == '"' || s[0] == '\\' {
            assert(e.subrange(2, e.len() as int) =~= rest);
            assert(e[0] == '\\' && e[1] == s[0]);
        } else {
            assert(e.drop_first() =~= rest);
            assert(e[0] == s[0]);
        }
        assert(seq![s[0]] + s.drop_first() =~= s);
    }
}

proof fn lemma_identifier_keys(tokens: Seq<Seq<char>>, sep: char)
    ensures
        forall|i: int|
            0 <= i < identifier_keys(tokens, sep).len() ==> spec_is_identifier(
                #[trigger] identifier_keys(tokens, sep)[i],
            ),
    decreases tokens.len(),
{
    if tokens.len() > 0 {
        lemma_identifier_keys(tokens.drop_last(), sep);
        let before = identifier_keys(tokens.drop_last(), sep);
        let all = identifier_keys(tokens, sep);
        assert forall|i: int| 0 <= i < all.len() implies spec_is_identifier(#[trigger] all[i]) by {
            if i < before.len() {
                assert(all[i] == before[i]);
            }
        }
    }
}

proof fn lemma_dedup_keeps_only_members(s: Seq<Seq<char>>)
    ensures
        forall|i: int| 0 <= i < dedup(s).len() ==> s.contains(#[trigger] dedup(s)[i]),
    decreases s.len(),
{
    if s.len() > 0 {
        lemma_dedup_keeps_only_members(s.drop_last());
        let d = dedup(s.drop_last());
        let all = dedup(s);
        assert forall|i: int| 0 <= i < all.len() implies s.contains(#[trigger] all[i]) by {
            if i < d.len() {
                assert(all[i] == d[i]);
                let j = choose|j: int| 0 <= j < s.drop_last().len() && s.drop_last()[j] == d[i];
                assert(s[j] == d[i]);
            } else {
                assert(all[i] == s.last());
                assert(s[s.len() - 1] == s.last());
            }
        }
    }
}

/// Every name a link is described by is a short identifier — a key, never a
/// value: letters, digits, `_` and `-`, at most forty bytes.
pub proof fn law_a_description_names_only_identifiers(raw: Seq<char>, scheme: Seq<char>)
    ensures
        forall|i: int|
            0 <= i < spec_parameter_names(raw, scheme).len() ==> spec_is_identifier(
                #[trigger] spec_parameter_names(raw, scheme)[i],
            ),
{
    let keys = match spec_desktop_payload(raw, scheme) {
        Some(payload) => identifier_keys(split_by(payload, seq!['+']), ':'),
        None => identifier_keys(split_by(spec_payload(raw), seq!['&', '?']), '='),
    };
    match spec_desktop_payload(raw, scheme) {
        Some(payload) => lemma_identifier_keys(split_by(payload, seq!['+']), ':'),
        None => lemma_identifier_keys(split_by(spec_payload(raw), seq!['&', '?']), '='),
    }
    lemma_dedup_keeps_only_members(keys);
    let names = spec_parameter_names(raw, scheme);
    assert forall|i: int| 0 <= i < names.len() implies spec_is_identifier(#[trigger] names[i]) by {
        let j = choose|j: int| 0 <= j < keys.len() && keys[j] == names[i];
        assert(spec_is_identifier(keys[j]));
    }
}

/// What `{:?}` prints of a link: its description inside `JoinUrl(..)`.
pub open spec fn spec_debug_line(raw: Seq<char>, scheme: Seq<char>) -> Seq<char> {
    "JoinUrl("@ + spec_describe(raw, scheme) + ")"@
}

/// A description — and so what `{:?}` prints — is a function of the scheme,
/// the parameter names and the length alone: two links that differ only in
/// their values are printed alike, so no value can show through.
pub proof fn law_describe_never_shows_a_value(raw1: Seq<char>, raw2: Seq<char>, scheme: Seq<char>)
    requires
        spec_parameter_names(raw1, scheme) == spec_parameter_names(raw2, scheme),
        utf8_len(raw1) == utf8_len(raw2),
    ensures
        spec_describe(raw1, scheme) == spec_describe(raw2, scheme),
        spec_debug_line(raw1, scheme) == spec_debug_line(raw2, scheme),
{
}
proof fn lemma_identifier_keys_has(tokens: Seq<Seq<char>>, sep: char, i: int)
    requires
        0 <= i < tokens.len(),
        split_once_char(tokens[i], sep) matches Some(kv) && spec_is_identifier(kv.0),
    ensures
        identifier_keys(tokens, sep).contains(split_once_char(tokens[i], sep).unwrap().0),
    decreases tokens.len(),
{
    let key = split_once_char(tokens[i], sep).unwrap().0;
    let before = identifier_keys(tokens.drop_last(), sep);
    if i == tokens.len() - 1 {
        assert(identifier_keys(tokens, sep) == before.push(key));
        assert(before.push(key)[before.len() as int] == key);
    } else {
        assert(tokens.drop_last()[i] == tokens[i]);
        lemma_identifier_keys_has(tokens.drop_last(), sep, i);
        let j = choose|j: int| 0 <= j < before.len() && before[j] == key;
        let all = identifier_keys(tokens, sep);
        assert(all[j] == before[j]);
    }
}

proof fn lemma_dedup_keeps_every_member(s: Seq<Seq<char>>)
    ensures
        forall|i: int| 0 <= i < s.len() ==> dedup(s).contains(#[trigger] s[i]),
    decreases s.len(),
{
    if s.len() > 0 {
        lemma_dedup_keeps_every_member(s.drop_last());
        let d = dedup(s.drop_last());
        let all = dedup(s);
        assert forall|i: int| 0 <= i < s.len() implies all.contains(#[trigger] s[i]) by {
            if i < s.len() - 1 {
                assert(s.drop_last()[i] == s[i]);
                let j = choose|j: int| 0 <= j < d.len() && d[j] == s[i];
                assert(all[j] == d[j]);
            } else if d.len() > 0 && d.last() == s.last() {
                assert(all[d.len() - 1] == s[i]);
            } else {
                assert(all[d.len() as int] == s[i]);
            }
        }
    }
}

/// A link not in the desktop form is described by every identifier key of
/// its query: each piece of the payload between `&` and `?` separators that
/// is `key=value` with an identifier key has that key named, whichever of the
/// two separators came before it.
pub proof fn law_every_query_key_is_named(raw: Seq<char>, scheme: Seq<char>, piece: int)
    requires
        spec_desktop_payload(raw, scheme) is None,
        0 <= piece < split_by(spec_payload(raw), seq!['&', '?']).len(),
        split_once_char(split_by(spec_payload(raw), seq!['&', '?'])[piece], '=') matches Some(kv)
            && spec_is_identifier(kv.0),
    ensures
        spec_parameter_names(raw, scheme).contains(
            split_once_char(split_by(spec_payload(raw), seq!['&', '?'])[piece], '=').unwrap().0,
        ),
{
    let tokens = split_by(spec_payload(raw), seq!['&', '?']);
    lemma_identifier_keys_has(tokens, '=', piece);
    let keys = identifier_keys(tokens, '=');
    let key = split_once_char(tokens[piece], '=').unwrap().0;
    let j = choose|j: int| 0 <= j < keys.len() && keys[j] == key;
    lemma_dedup_keeps_every_member(keys);
    assert(dedup(keys).contains(keys[j]));
}

/// No character of `s` is one of `set`.
pub open spec fn free_of(s: Seq<char>, set: Seq<char>) -> bool {
    forall|i: int| 0 <= i < s.len() ==> !set.contains(#[trigger] s[i])
}

proof fn lemma_split_unbroken(s: Seq<char>, set: Seq<char>)
    requires
        free_of(s, set),
    ensures
        split_by(s, set) == seq![s],
{
    if exists|i: int| is_first_in(s, set, i) {
        let i = choose|i: int| is_first_in(s, set, i);
        assert(set.contains(s[i]));
    }
}

proof fn lemma_split_once_at(s: Seq<char>, c: char, k: int)
    requires
        0 <= k < s.len(),
        s[k] == c,
        forall|j: int| 0 <= j < k ==> s[j] != c,
    ensures
        split_once_char(s, c) == Some((s.subrange(0, k), s.subrange(k + 1, s.len() as int))),
{
    let needle = seq![c];
    assert(s.subrange(k, k + 1) =~= needle);
    assert forall|j: int| 0 <= j < k implies !#[trigger] occurs_at(s, needle, j) by {
        assert(s.subrange(j, j + 1)[0] == s[j]);
    }
    lemma_find_unique(s, needle, k);
}

/// The mobile-form link `roblox://path?key=value` is described by `key`:
/// the query after `?` is read for its keys just as one after `&` is.
pub proof fn law_a_query_after_a_path_is_named(
    path: Seq<char>,
    key: Seq<char>,
    value: Seq<char>,
)
    requires
        free_of(path, seq!['&', '?']),
        path.len() == 0 || path[0] != '/',
        spec_is_identifier(key),
        free_of(value, seq!['&', '?']),
    ensures
        spec_parameter_names("roblox://"@ + path + "?"@ + key + "="@ + value, "roblox"@).contains(
            key,
        ),
{
    reveal_strlit("roblox://");
    reveal_strlit("?");
    reveal_strlit("=");
    reveal_strlit("roblox");
    reveal_strlit("roblox-player");
    let set = seq!['&', '?'];
    let pair = key + "="@ + value;
    let rest = path + "?"@ + pair;
    let raw = "roblox://"@ + path + "?"@ + key + "="@ + value;
    assert(raw =~= "roblox:"@ + (seq!['/', '/'] + rest)) by {
        reveal_strlit("roblox:");
    }
    reveal_strlit("roblox:");
    lemma_split_once_at(raw, ':', 6);
    assert(raw.subrange(0, 6) =~= "roblox"@);
    let after = raw.subrange(7, raw.len() as int);
    assert(after =~= seq!['/', '/'] + rest);
    assert(after.drop_first().drop_first() =~= rest);
    assert(trim_start_char(after, '/') == trim_start_char(after.drop_first(), '/'));
    assert(trim_start_char(after.drop_first(), '/') == trim_start_char(rest, '/'));
    assert(rest[0] != '/') by {
        if path.len() == 0 {
            assert(rest[0] == '?');
        } else {
            assert(rest[0] == path[0]);
        }
    }
    assert(trim_start_char(rest, '/') == rest);
    assert(spec_payload(raw) == rest);
    assert(spec_desktop_payload(raw, "roblox"@) is None);
    // the payload splits at the `?` after the path
    let at = path.len() as int;
    assert(rest[at] == '?');
    assert(set.contains(rest[at])) by {
        assert(set[1] == '?');
    }
    assert forall|j: int| 0 <= j < at implies !set.contains(#[trigger] rest[j]) by {
        assert(rest[j] == path[j]);
    }
    lemma_first_in_unique(rest, set, at);
    assert(rest.subrange(at + 1, rest.len() as int) =~= pair);
    assert(free_of(pair, set)) by {
        assert forall|j: int| 0 <= j < pair.len() implies !set.contains(#[trigger] pair[j]) by {
            if j < key.len() {
                assert(pair[j] == key[j]);
                assert(is_alphanumeric(key[j]) || key[j] == '_' || key[j] == '-');
                if set.contains(pair[j]) {
                    let m = choose|m: int| 0 <= m < set.len() && set[m] == pair[j];
                    assert(m == 0 || m == 1);
                }
            } else if j == key.len() {
                assert(pair[j] == '=');
                if set.contains(pair[j]) {
                    let m = choose|m: int| 0 <= m < set.len() && set[m] == pair[j];
                    assert(m == 0 || m == 1);
                }
            } else {
                assert(pair[j] == value[j - key.len() - 1]);
            }
        }
    }
    lemma_split_unbroken(pair, set);
    let tokens = split_by(rest, set);
    assert(tokens == seq![rest.subrange(0, at)] + seq![pair]);
    assert(tokens[1] == pair);
    // the piece splits at the `=` after the key
    assert forall|j: int| 0 <= j < key.len() implies pair[j] != '=' by {
        assert(pair[j] == key[j]);
        assert(is_alphanumeric(key[j]) || key[j] == '_' || key[j] == '-');
    }
    lemma_split_once_at(pair, '=', key.len() as int);
    assert(pair.subrange(0, key.len() as int) =~= key);
    law_every_query_key_is_named(raw, "roblox"@, 1);
}

/// The uppercase hexadecimal digit for `d`, as a byte.
pub open spec fn hex_digit_byte(d: u32) -> u8 {
    if d < 10 {
        (0x30 + d) as u8
    } else {
        (0x41 + d - 10) as u8
    }
}

/// Printable ASCII text with every character written as `%XX`.
pub open spec fn percent_encoded(t: Seq<char>) -> Seq<u8>
    decreases t.len(),
{
    if t.len() == 0 {
        seq![]
    } else {
        seq![0x25u8, hex_digit_byte((t[0] as u32) / 16), hex_digit_byte((t[0] as u32) % 16)]
            + percent_encoded(t.drop_first())
    }
}

/// Percent-decoding is exact: printable ASCII written entirely as escapes
/// reads back as itself, character for character.
pub proof fn law_percent_decoding_is_exact(t: Seq<char>)
    requires
        forall|i: int| 0 <= i < t.len() ==> 0x20 <= (#[trigger] t[i] as u32) <= 0x7e,
    ensures
        spec_percent_decode(percent_encoded(t)) == Ok::<Seq<char>, Seq<char>>(t),
    decreases t.len(),
{
    if t.len() > 0 {
        assert forall|i: int| 0 <= i < t.drop_first().len() implies 0x20 <= (
        #[trigger] t.drop_first()[i] as u32) <= 0x7e by {
            assert(t.drop_first()[i] == t[i + 1]);
        }
        law_percent_decoding_is_exact(t.drop_first());
        assert(0x20 <= (t[0] as u32) <= 0x7e);
        let c = t[0] as u32;
        let e = percent_encoded(t);
        let x = hex_digit_byte(c / 16);
        let y = hex_digit_byte(c % 16);
        assert(2 <= c / 16 <= 7);
        assert(e[0] == 0x25u8 && e[1] == x && e[2] == y);
        assert(e.subrange(3, e.len() as int) =~= percent_encoded(t.drop_first()));
        assert(is_hex_byte(x) && hex_byte_value(x) == c / 16);
        assert(is_hex_byte(y) && hex_byte_value(y) == c % 16);
        assert(x != 0x2bu8);
        assert(c / 16 * 16 + c % 16 == c);
        assert(spec_hex_escape(x, y) == HexEscape::Value(c as u8));
        vstd::utf8::char_u32_cast(t[0], c);
        assert((c as u8) as u32 == c);
        assert((c as u8) as char == t[0]);
        assert(e.len() >= 3);
        assert(!((c as u8) < 0x20 || (c as u8) > 0x7e));
        assert(spec_percent_decode(e) == prepend(
            seq![(c as u8) as char],
            spec_percent_decode(e.subrange(3, e.len() as int)),
        ));
        assert(seq![t[0]] + t.drop_first() =~= t);
    } else {
        assert(t =~= Seq::<char>::empty());
    }
}


/// The `placeId` a desktop link's launcher query names last, when the link
/// has a launcher URL that decodes.
pub open spec fn launcher_place(raw: Seq<char>, scheme: Seq<char>) -> Option<Seq<char>> {
    match spec_desktop_payload(raw, scheme) {
        None => None,
        Some(payload) => match last_value(split_by(payload, seq!['+']), "placelauncherurl"@) {
            None => None,
            Some(launcher) => match spec_percent_decode(vstd::utf8::encode_utf8(launcher)) {
                Err(_) => None,
                Ok(decoded) => {
                    let query = match split_once_char(decoded, '?') {
                        Some(p) => p.1,
                        None => seq![],
                    };
                    scan_query(split_by(query, seq!['&'])).place
                },
            },
        },
    }
}

proof fn lemma_dropped_are_identifiers(pairs: Seq<Seq<char>>)
    ensures
        forall|k: int|
            0 <= k < scan_query(pairs).dropped.len() ==> spec_is_identifier(
                #[trigger] scan_query(pairs).dropped[k],
            ),
    decreases pairs.len(),
{
    if pairs.len() > 0 {
        lemma_dropped_are_identifiers(pairs.drop_last());
    }
}

/// The mobile link's scheme is `roblox`: its first `:` follows those six letters.
proof fn lemma_mobile_link_scheme(place: Seq<char>)
    ensures
        split_once_char(mobile_link(place), ':') matches Some(parts) && ascii_lower(parts.0)
            == "roblox"@,
{
    reveal_strlit("roblox://experiences/start?placeId=");
    reveal_strlit("roblox");
    let link = mobile_link(place);
    let colon = seq![':'];
    assert(link.subrange(6, 7) =~= colon);
    assert forall|j: int| 0 <= j < 6 implies !#[trigger] occurs_at(link, colon, j) by {
        assert(link.subrange(j, j + 1)[0] == link[j]);
    }
    lemma_find_unique(link, colon, 6);
    assert(ascii_lower(link.subrange(0, 6)) =~= "roblox"@);
}

/// A link that [`translate`] rewrote came on `roblox-player` and leaves on
/// `roblox`, as the mobile link for the launcher query's last `placeId` — one
/// to twenty digits. Translating it again leaves it as it is, and every name
/// reported as dropped is an identifier, never a value.
pub proof fn law_a_translated_link_is_final(raw: Seq<char>, scheme: Seq<char>)
    requires
        spec_validate(raw) == Ok::<Seq<char>, Seq<char>>(scheme),
    ensures
        spec_translate(raw, scheme) matches TranslatedView::To(url, dropped) ==> {
            &&& scheme == "roblox-player"@
            &&& url.1 == "roblox"@
            &&& launcher_place(raw, scheme) matches Some(place)
            &&& url.0 == mobile_link(place)
            &&& 1 <= place.len() && utf8_len(place) <= 20 && all_digits(place)
            &&& spec_translate(url.0, url.1) == TranslatedView::AsIs
            &&& forall|k: int|
                0 <= k < dropped.len() ==> spec_is_identifier(#[trigger] dropped[k])
        },
{
    reveal_strlit("roblox");
    reveal_strlit("roblox-player");
    if let TranslatedView::To(url, dropped) = spec_translate(raw, scheme) {
        let payload = spec_desktop_payload(raw, scheme)->0;
        let launcher = last_value(split_by(payload, seq!['+']), "placelauncherurl"@)->0;
        let decoded = spec_percent_decode(vstd::utf8::encode_utf8(launcher))->Ok_0;
        let query = match split_once_char(decoded, '?') {
            Some(p) => p.1,
            None => seq![],
        };
        let q = scan_query(split_by(query, seq!['&']));
        let place = q.place->0;
        assert(url.0 == mobile_link(place));
        lemma_mobile_link_scheme(place);
        assert(url.1 == "roblox"@);
        lemma_dropped_are_identifiers(split_by(query, seq!['&']));
    }
}

} // verus!

verus! {

#[verifier::external_type_specification]
#[verifier::external_body]
pub struct ExFormatter<'a>(std::fmt::Formatter<'a>);

#[verifier::external_type_specification]
#[verifier::external_body]
pub struct ExFmtError(std::fmt::Error);

/// Everything a formatter has been handed to write so far.
pub uninterp spec fn formatter_written(f: std::fmt::Formatter<'_>) -> Seq<char>;

/// `Formatter::write_str`: on success, `s` now follows what the formatter had
/// been handed before. What the sink behind the formatter does with it, and
/// when it reports an error, is left unsaid.
#[verifier::external_body]
fn write_text(f: &mut std::fmt::Formatter<'_>, s: &str) -> (r: std::fmt::Result)
    ensures
        r is Ok ==> formatter_written(*final(f)) == formatter_written(*old(f)) + s@,
{
    f.write_str(s)
}

impl JoinUrl {
    /// The `{:?}` text: the description inside `JoinUrl(..)`, so it carries
    /// no more of the link than [`JoinUrl::describe`] does.
    pub fn debug_line(&self) -> (s: String)
        ensures
            s@ == spec_debug_line(self@.0, self@.1),
    {
        let mut out: Vec<char> = Vec::new();
        push_str(&mut out, "JoinUrl(");
        let d = self.describe();
        push_str(&mut out, d.as_str());
        push_str(&mut out, ")");
        string_of(out.as_slice())
    }
}

impl std::fmt::Debug for JoinUrl {
    /// Reports the shape, never the value — so a stray `{:?}` in a future
    /// caller cannot leak a join link into a log.
    fn fmt(&self, f: &mut std::fmt::Formatter<'_>) -> (r: std::fmt::Result)
        ensures
            r is Ok ==> formatter_written(*final(f)) == formatter_written(*old(f))
                + spec_debug_line(self@.0, self@.1),
    {
        let line = self.debug_line();
        write_text(f, line.as_str())
    }
}
} // verus!
