//! The JSON wire representation of posts.
//!
//! A post travels as an object with the five fields `title`, `body`,
//! `author`, `created_at` and `id`, in that order, each a JSON string.
//! String values may use the two-character escapes `\"`, `\\`, `\/`, `\n`,
//! `\r`, `\t`, `\b` and `\f`; any other character stands for itself.
//! Whitespace is allowed around every token. The `id` field must carry a
//! parseable unique identifier and `created_at` an RFC 3339 timestamp.

use vstd::prelude::*;
use crate::models::{Post, PostView};
use crate::text::{push_char, chars_vec};
use crate::ids::{parsed_uuid, parse_uuid, uuid_text, uuid_text_acc, hex_char, uuid_string};
use crate::timefmt::{is_rfc3339, rfc3339_valid};

verus! {

/// Why a create payload was rejected.
#[derive(Clone, Copy, PartialEq, Eq, Structural, Debug)]
pub enum DecodeError {
    /// The payload is not an object of the five expected string fields.
    Syntax,
    /// The `id` field does not parse as a unique identifier.
    BadId,
    /// The `created_at` field does not parse as an RFC 3339 timestamp.
    BadTimestamp,
}

/// The description a rejected payload is answered with.
pub open spec fn error_text(e: DecodeError) -> Seq<char> {
    match e {
        DecodeError::Syntax => "malformed post object"@,
        DecodeError::BadId => "malformed id"@,
        DecodeError::BadTimestamp => "malformed created_at timestamp"@,
    }
}

impl DecodeError {
    /// A human-readable description of the failure.
    pub fn description(&self) -> (r: String)
        ensures
            r@ == error_text(*self),
    {
        match self {
            DecodeError::Syntax => String::from_str("malformed post object"),
            DecodeError::BadId => String::from_str("malformed id"),
            DecodeError::BadTimestamp => String::from_str("malformed created_at timestamp"),
        }
    }
}

/// JSON insignificant whitespace.
pub open spec fn is_ws(c: char) -> bool {
    c == ' ' || c == '\t' || c == '\n' || c == '\r'
}

/// The first position at or after `i` holding no whitespace.
pub open spec fn spec_skip_ws(s: Seq<char>, i: int) -> int
    decreases s.len() - i,
{
    if 0 <= i < s.len() && is_ws(s[i]) {
        spec_skip_ws(s, i + 1)
    } else {
        i
    }
}

/// The position after the literal `l`, if `s` carries it at `i`.
pub open spec fn spec_expect_lit(s: Seq<char>, i: int, l: Seq<char>) -> Option<int> {
    if 0 <= i && i + l.len() <= s.len() && s.subrange(i, i + l.len()) == l {
        Some(i + l.len())
    } else {
        None
    }
}

/// The character an escape letter stands for.
pub open spec fn unesc(c: char) -> Option<char> {
    if c == '"' { Some('"') }
    else if c == '\\' { Some('\\') }
    else if c == '/' { Some('/') }
    else if c == 'n' { Some('\n') }
    else if c == 'r' { Some('\r') }
    else if c == 't' { Some('\t') }
    else if c == 'b' { Some('\u{0008}') }
    else if c == 'f' { Some('\u{000C}') }
    else { None }
}

/// The value and end position of a string body starting at `i` (just past
/// the opening quote), accumulated onto `acc`.
pub open spec fn spec_string_body(s: Seq<char>, i: int, acc: Seq<char>) -> Option<(Seq<char>, int)>
    decreases s.len() - i,
{
    if i < 0 || i >= s.len() {
        None
    } else if s[i] == '"' {
        Some((acc, i + 1))
    } else if s[i] == '\\' {
        if i + 1 < s.len() {
            match unesc(s[i + 1]) {
                Some(c) => spec_string_body(s, i + 2, acc.push(c)),
                None => None,
            }
        } else {
            None
        }
    } else {
        spec_string_body(s, i + 1, acc.push(s[i]))
    }
}

/// The value and end position of one `"key" : "value"` member at `i`.
pub open spec fn spec_member(s: Seq<char>, i: int, key: Seq<char>) -> Option<(Seq<char>, int)> {
    match spec_expect_lit(s, spec_skip_ws(s, i), key) {
        None => None,
        Some(j) => match spec_expect_lit(s, spec_skip_ws(s, j), ":"@) {
            None => None,
            Some(k) => match spec_expect_lit(s, spec_skip_ws(s, k), "\""@) {
                None => None,
                Some(m) => spec_string_body(s, m, Seq::empty()),
            },
        },
    }
}

/// What decoding a create payload yields: the post it describes, or the
/// error it is rejected with.
pub open spec fn spec_decode(s: Seq<char>) -> Result<PostView, DecodeError> {
    match spec_expect_lit(s, spec_skip_ws(s, 0), "{"@) {
        None => Err(DecodeError::Syntax),
        Some(i1) => match spec_member(s, i1, "\"title\""@) {
            None => Err(DecodeError::Syntax),
            Some((title, i2)) => match spec_expect_lit(s, spec_skip_ws(s, i2), ","@) {
                None => Err(DecodeError::Syntax),
                Some(i3) => match spec_member(s, i3, "\"body\""@) {
                    None => Err(DecodeError::Syntax),
                    Some((body, i4)) => match spec_expect_lit(s, spec_skip_ws(s, i4), ","@) {
                        None => Err(DecodeError::Syntax),
                        Some(i5) => match spec_member(s, i5, "\"author\""@) {
                            None => Err(DecodeError::Syntax),
                            Some((author, i6)) => match spec_expect_lit(s, spec_skip_ws(s, i6), ","@) {
                                None => Err(DecodeError::Syntax),
                                Some(i7) => match spec_member(s, i7, "\"created_at\""@) {
                                    None => Err(DecodeError::Syntax),
                                    Some((created, i8)) => match spec_expect_lit(s, spec_skip_ws(s, i8), ","@) {
                                        None => Err(DecodeError::Syntax),
                                        Some(i9) => match spec_member(s, i9, "\"id\""@) {
                                            None => Err(DecodeError::Syntax),
                                            Some((idtext, i10)) => match spec_expect_lit(s, spec_skip_ws(s, i10), "}"@) {
                                                None => Err(DecodeError::Syntax),
                                                Some(i11) => if spec_skip_ws(s, i11) != s.len() {
                                                    Err(DecodeError::Syntax)
                                                } else {
                                                    match parsed_uuid(idtext) {
                                                        None => Err(DecodeError::BadId),
                                                        Some(v) => if !is_rfc3339(created) {
                                                            Err(DecodeError::BadTimestamp)
                                                        } else {
                                                            Ok(PostView {
                                                                title,
                                                                body,
                                                                author,
                                                                created_at: created,
                                                                id: v,
                                                            })
                                                        },
                                                    }
                                                },
                                            },
                                        },
                                    },
                                },
                            },
                        },
                    },
                },
            },
        },
    }
}

fn skip_ws(cs: &Vec<char>, i: usize) -> (r: usize)
    requires
        i <= cs@.len(),
    ensures
        r as int == spec_skip_ws(cs@, i as int),
        i <= r <= cs@.len(),
{
    let mut j: usize = i;
    while j < cs.len() && (cs[j] == ' ' || cs[j] == '\t' || cs[j] == '\n' || cs[j] == '\r')
        invariant
            i <= j <= cs@.len(),
            spec_skip_ws(cs@, i as int) == spec_skip_ws(cs@, j as int),
        decreases cs@.len() - j,
    {
        j = j + 1;
    }
    j
}

fn expect_lit(cs: &Vec<char>, i: usize, lit: &str) -> (r: Option<usize>)
    requires
        i <= cs@.len(),
    ensures
        match r {
            Some(j) => Some(j as int) == spec_expect_lit(cs@, i as int, lit@) && j <= cs@.len(),
            None => spec_expect_lit(cs@, i as int, lit@) is None,
        },
{
    let n = lit.unicode_len();
    if n > cs.len() - i {
        return None;
    }
    proof {
        assert(cs@.len() <= usize::MAX);
    }
    let mut j: usize = 0;
    while j < n
        invariant
            j <= n,
            n == lit@.len(),
            i + n <= cs@.len() <= usize::MAX,
            forall|k: int| 0 <= k < j ==> cs@[i + k] == lit@[k],
        decreases n - j,
    {
        proof {
            assert(i + j < cs@.len());
        }
        let idx = i + j;
        if cs[idx] != lit.get_char(j) {
            proof {
                let sub = cs@.subrange(i as int, i as int + lit@.len());
                if sub == lit@ {
                    assert(sub[j as int] == cs@[i as int + j as int]);
                }
            }
            return None;
        }
        j = j + 1;
    }
    proof {
        assert(cs@.subrange(i as int, i as int + lit@.len()) =~= lit@);
    }
    Some(i + n)
}

fn parse_string_body(cs: &Vec<char>, i: usize) -> (r: Option<(String, usize)>)
    requires
        i <= cs@.len(),
    ensures
        match r {
            Some(v) => spec_string_body(cs@, i as int, Seq::empty()) == Some((v.0@, v.1 as int))
                && v.1 <= cs@.len(),
            None => spec_string_body(cs@, i as int, Seq::empty()) is None,
        },
{
    let mut out = String::new();
    let mut j: usize = i;
    loop
        invariant
            i <= j <= cs@.len(),
            spec_string_body(cs@, i as int, Seq::empty()) == spec_string_body(cs@, j as int, out@),
        decreases cs@.len() - j,
    {
        if j >= cs.len() {
            return None;
        }
        let c = cs[j];
        if c == '"' {
            return Some((out, j + 1));
        }
        if c == '\\' {
            if j + 1 >= cs.len() {
                return None;
            }
            let e = cs[j + 1];
            let u: char = if e == '"' { '"' }
                else if e == '\\' { '\\' }
                else if e == '/' { '/' }
                else if e == 'n' { '\n' }
                else if e == 'r' { '\r' }
                else if e == 't' { '\t' }
                else if e == 'b' { '\u{0008}' }
                else if e == 'f' { '\u{000C}' }
                else { return None; };
            push_char(&mut out, u);
            j = j + 2;
        } else {
            push_char(&mut out, c);
            j = j + 1;
        }
    }
}

fn parse_member(cs: &Vec<char>, i: usize, key: &str) -> (r: Option<(String, usize)>)
    requires
        i <= cs@.len(),
    ensures
        match r {
            Some(v) => spec_member(cs@, i as int, key@) == Some((v.0@, v.1 as int))
                && v.1 <= cs@.len(),
            None => spec_member(cs@, i as int, key@) is None,
        },
{
    let j = skip_ws(cs, i);
    let k = match expect_lit(cs, j, key) {
        Some(k) => k,
        None => return None,
    };
    let m = skip_ws(cs, k);
    let m2 = match expect_lit(cs, m, ":") {
        Some(m2) => m2,
        None => return None,
    };
    let q = skip_ws(cs, m2);
    let q2 = match expect_lit(cs, q, "\"") {
        Some(q2) => q2,
        None => return None,
    };
    parse_string_body(cs, q2)
}

/// Decodes a create payload into the post it describes, or reports why it
/// is rejected, exactly as `spec_decode` says.
pub fn decode_post(payload: &str) -> (r: Result<Post, DecodeError>)
    ensures
        match r {
            Ok(p) => spec_decode(payload@) == Ok::<PostView, DecodeError>(p@),
            Err(e) => spec_decode(payload@) == Err::<PostView, DecodeError>(e),
        },
{
    let cs = chars_vec(payload);
    let i0 = skip_ws(&cs, 0);
    let i1 = match expect_lit(&cs, i0, "{") {
        Some(j) => j,
        None => return Err(DecodeError::Syntax),
    };
    let (title, i2) = match parse_member(&cs, i1, "\"title\"") {
        Some(x) => x,
        None => return Err(DecodeError::Syntax),
    };
    let i3 = match expect_lit(&cs, skip_ws(&cs, i2), ",") {
        Some(j) => j,
        None => return Err(DecodeError::Syntax),
    };
    let (body, i4) = match parse_member(&cs, i3, "\"body\"") {
        Some(x) => x,
        None => return Err(DecodeError::Syntax),
    };
    let i5 = match expect_lit(&cs, skip_ws(&cs, i4), ",") {
        Some(j) => j,
        None => return Err(DecodeError::Syntax),
    };
    let (author, i6) = match parse_member(&cs, i5, "\"author\"") {
        Some(x) => x,
        None => return Err(DecodeError::Syntax),
    };
    let i7 = match expect_lit(&cs, skip_ws(&cs, i6), ",") {
        Some(j) => j,
        None => return Err(DecodeError::Syntax),
    };
    let (created_at, i8) = match parse_member(&cs, i7, "\"created_at\"") {
        Some(x) => x,
        None => return Err(DecodeError::Syntax),
    };
    let i9 = match expect_lit(&cs, skip_ws(&cs, i8), ",") {
        Some(j) => j,
        None => return Err(DecodeError::Syntax),
    };
    let (idtext, i10) = match parse_member(&cs, i9, "\"id\"") {
        Some(x) => x,
        None => return Err(DecodeError::Syntax),
    };
    let i11 = match expect_lit(&cs, skip_ws(&cs, i10), "}") {
        Some(j) => j,
        None => return Err(DecodeError::Syntax),
    };
    if skip_ws(&cs, i11) != cs.len() {
        return Err(DecodeError::Syntax);
    }
    let id = match parse_uuid(idtext.as_str()) {
        Some(v) => v,
        None => return Err(DecodeError::BadId),
    };
    if !rfc3339_valid(created_at.as_str()) {
        return Err(DecodeError::BadTimestamp);
    }
    Ok(Post { title, body, author, created_at, id })
}

/// The one- or two-character rendering of `c` inside a JSON string.
pub open spec fn esc_of(c: char) -> Seq<char> {
    if c == '"' { seq!['\\', '"'] }
    else if c == '\\' { seq!['\\', '\\'] }
    else if c == '\n' { seq!['\\', 'n'] }
    else if c == '\r' { seq!['\\', 'r'] }
    else if c == '\t' { seq!['\\', 't'] }
    else if c == '\u{0008}' { seq!['\\', 'b'] }
    else if c == '\u{000C}' { seq!['\\', 'f'] }
    else { seq![c] }
}

/// The escaped rendering of `s` from position `i` on, accumulated onto `acc`.
pub open spec fn escape_acc(s: Seq<char>, i: int, acc: Seq<char>) -> Seq<char>
    decreases s.len() - i,
{
    if i < 0 || i >= s.len() {
        acc
    } else {
        escape_acc(s, i + 1, acc + esc_of(s[i]))
    }
}

/// The escaped rendering of a whole string.
pub open spec fn escaped(s: Seq<char>) -> Seq<char> {
    escape_acc(s, 0, Seq::empty())
}

/// The accumulator of `escape_acc` only ever grows at the end.
proof fn lemma_escape_acc_prefix(s: Seq<char>, i: int, acc: Seq<char>)
    ensures
        escape_acc(s, i, acc) == acc + escape_acc(s, i, Seq::empty()),
    decreases s.len() - i,
{
    if i < 0 || i >= s.len() {
        assert(acc + Seq::<char>::empty() =~= acc);
    } else {
        lemma_escape_acc_prefix(s, i + 1, acc + esc_of(s[i]));
        lemma_escape_acc_prefix(s, i + 1, Seq::empty() + esc_of(s[i]));
        assert(Seq::<char>::empty() + esc_of(s[i]) =~= esc_of(s[i]));
        assert((acc + esc_of(s[i])) + escape_acc(s, i + 1, Seq::empty())
            =~= acc + (esc_of(s[i]) + escape_acc(s, i + 1, Seq::empty())));
    }
}

/// Appends the escaped rendering of `s` to `out`.
fn append_escaped(out: &mut String, s: &str)
    ensures
        final(out)@ == old(out)@ + escaped(s@),
{
    let cs = chars_vec(s);
    let ghost out0 = out@;
    let mut i: usize = 0;
    while i < cs.len()
        invariant
            i <= cs@.len(),
            cs@ == s@,
            escape_acc(s@, i as int, out@) == escape_acc(s@, 0, out0),
        decreases cs@.len() - i,
    {
        let c = cs[i];
        let ghost before = out@;
        if c == '"' {
            push_char(out, '\\');
            push_char(out, '"');
        } else if c == '\\' {
            push_char(out, '\\');
            push_char(out, '\\');
        } else if c == '\n' {
            push_char(out, '\\');
            push_char(out, 'n');
        } else if c == '\r' {
            push_char(out, '\\');
            push_char(out, 'r');
        } else if c == '\t' {
            push_char(out, '\\');
            push_char(out, 't');
        } else if c == '\u{0008}' {
            push_char(out, '\\');
            push_char(out, 'b');
        } else if c == '\u{000C}' {
            push_char(out, '\\');
            push_char(out, 'f');
        } else {
            push_char(out, c);
        }
        proof {
            assert(out@ =~= before + esc_of(cs@[i as int]));
        }
        i = i + 1;
    }
    proof {
        lemma_escape_acc_prefix(s@, 0, out0);
    }
}

/// Dropping a string's first character commutes with escaping its tail.
proof fn lemma_escape_acc_shift(s: Seq<char>, i: int, acc: Seq<char>)
    requires
        s.len() >= 1,
        0 <= i,
    ensures
        escape_acc(s.skip(1), i, acc) == escape_acc(s, i + 1, acc),
    decreases s.len() - i,
{
    if i < s.skip(1).len() {
        assert(s.skip(1)[i] == s[i + 1]);
        lemma_escape_acc_shift(s, i + 1, acc + esc_of(s[i + 1]));
    }
}

/// The escaped text of a non-empty string starts with its first character's
/// rendering.
proof fn lemma_escaped_head(s: Seq<char>)
    requires
        s.len() >= 1,
    ensures
        escaped(s) == esc_of(s[0]) + escaped(s.skip(1)),
{
    lemma_escape_acc_prefix(s, 1, Seq::<char>::empty() + esc_of(s[0]));
    lemma_escape_acc_shift(s, 0, Seq::empty());
    assert(Seq::<char>::empty() + esc_of(s[0]) =~= esc_of(s[0]));
}

/// A string-body scan started just past a prefix sees only the suffix.
proof fn lemma_body_shift(pre: Seq<char>, u: Seq<char>, j: int, acc: Seq<char>)
    requires
        0 <= j,
    ensures
        match spec_string_body(u, j, acc) {
            Some(r) => spec_string_body(pre + u, pre.len() + j, acc) == Some(
                (r.0, r.1 + pre.len()),
            ),
            None => spec_string_body(pre + u, pre.len() + j, acc) is None,
        },
    decreases u.len() - j,
{
    let t = pre + u;
    if j < u.len() {
        assert(t[pre.len() + j] == u[j]);
        if u[j] == '"' {
        } else if u[j] == '\\' {
            if j + 1 < u.len() {
                assert(t[pre.len() + j + 1] == u[j + 1]);
                match unesc(u[j + 1]) {
                    Some(c) => lemma_body_shift(pre, u, j + 2, acc.push(c)),
                    None => {},
                }
            }
        } else {
            lemma_body_shift(pre, u, j + 1, acc.push(u[j]));
        }
    }
}

/// Escaping round trip, generalized over what follows the closing quote and
/// over what the scan has gathered so far.
proof fn lemma_unescape_escape(s: Seq<char>, rest: Seq<char>, acc: Seq<char>)
    ensures
        spec_string_body(escaped(s) + seq!['"'] + rest, 0, acc) == Some(
            (acc + s, escaped(s).len() as int + 1),
        ),
    decreases s.len(),
{
    let t = escaped(s) + seq!['"'] + rest;
    if s.len() == 0 {
        assert(escaped(s) =~= Seq::<char>::empty());
        assert(t[0] == '"');
        assert(acc + s =~= acc);
    } else {
        let c = s[0];
        lemma_escaped_head(s);
        let tail = escaped(s.skip(1)) + seq!['"'] + rest;
        assert(t =~= esc_of(c) + tail);
        lemma_unescape_escape(s.skip(1), rest, acc.push(c));
        lemma_body_shift(esc_of(c), tail, 0, acc.push(c));
        if c == '"' || c == '\\' || c == '\n' || c == '\r' || c == '\t' || c == '\u{0008}'
            || c == '\u{000C}' {
            assert(t[0] == '\\');
            assert(t[1] == esc_of(c)[1]);
            assert(unesc(esc_of(c)[1]) == Some(c));
        } else {
            assert(t[0] == c);
            assert(c != '"' && c != '\\');
        }
        assert(acc.push(c) + s.skip(1) =~= acc + s);
        assert(escaped(s).len() == esc_of(c).len() + escaped(s.skip(1)).len());
    }
}

/// Escaping round trip: the wire rendering of any string value, up to its
/// closing quote, scans back to exactly that value.
pub proof fn lemma_escape_round_trip(s: Seq<char>)
    ensures
        spec_string_body(escaped(s) + seq!['"'], 0, Seq::empty()) == Some(
            (s, escaped(s).len() as int + 1),
        ),
{
    lemma_unescape_escape(s, Seq::empty(), Seq::empty());
    assert(escaped(s) + seq!['"'] + Seq::<char>::empty() =~= escaped(s) + seq!['"']);
    assert(Seq::<char>::empty() + s =~= s);
}

/// A character that escaping leaves alone.
pub open spec fn plain_char(c: char) -> bool {
    c != '"' && c != '\\' && c != '\n' && c != '\r' && c != '\t' && c != '\u{0008}' && c
        != '\u{000C}'
}

/// Every character of a canonical identifier text is a hex digit or a
/// hyphen, which escaping leaves alone.
proof fn lemma_uuid_text_acc_plain(v: u128, i: int, acc: Seq<char>)
    requires
        forall|k: int| 0 <= k < acc.len() ==> plain_char(#[trigger] acc[k]),
    ensures
        forall|k: int|
            0 <= k < uuid_text_acc(v, i, acc).len() ==> plain_char(
                #[trigger] uuid_text_acc(v, i, acc)[k],
            ),
    decreases 32 - i,
{
    if 0 <= i < 32 {
        let withhyphen = if i == 8 || i == 12 || i == 16 || i == 20 {
            acc.push('-')
        } else {
            acc
        };
        let h = hex_char(((v >> (124 - 4 * i)) & 0xf) as int);
        let next = withhyphen.push(h);
        assert(plain_char(h));
        assert forall|k: int| 0 <= k < next.len() implies plain_char(#[trigger] next[k]) by {
            if k < withhyphen.len() {
                if k < acc.len() {
                    assert(next[k] == acc[k]);
                }
            }
        }
        lemma_uuid_text_acc_plain(v, i + 1, next);
        assert(uuid_text_acc(v, i, acc) == uuid_text_acc(v, i + 1, next));
    }
}

/// Escaping a string of untouched characters returns it unchanged.
proof fn lemma_escaped_plain_acc(s: Seq<char>, i: int, acc: Seq<char>)
    requires
        0 <= i <= s.len(),
        forall|k: int| i <= k < s.len() ==> plain_char(#[trigger] s[k]),
    ensures
        escape_acc(s, i, acc) == acc + s.skip(i),
    decreases s.len() - i,
{
    if i >= s.len() {
        assert(acc + s.skip(i) =~= acc);
    } else {
        assert(esc_of(s[i]) =~= seq![s[i]]);
        lemma_escaped_plain_acc(s, i + 1, acc + esc_of(s[i]));
        assert((acc + esc_of(s[i])) + s.skip(i + 1) =~= acc + s.skip(i));
    }
}

/// A canonical identifier text passes through escaping unchanged.
proof fn lemma_escaped_uuid(v: u128)
    ensures
        escaped(uuid_text(v)) == uuid_text(v),
{
    lemma_uuid_text_acc_plain(v, 0, Seq::empty());
    lemma_escaped_plain_acc(uuid_text(v), 0, Seq::empty());
    assert(Seq::<char>::empty() + uuid_text(v).skip(0) =~= uuid_text(v));
}

/// One `"key":"value"` member scans out of its wire rendering.
proof fn lemma_member_at(pre: Seq<char>, key: Seq<char>, val: Seq<char>, rest: Seq<char>)
    requires
        key.len() >= 1,
        !is_ws(key[0]),
    ensures
        ({
            let t = pre + key + ":"@ + "\""@ + escaped(val) + seq!['"'] + rest;
            spec_member(t, pre.len() as int, key) == Some(
                (val, pre.len() + key.len() + 2 + escaped(val).len() as int + 1),
            )
        }),
{
    let t = pre + key + ":"@ + "\""@ + escaped(val) + seq!['"'] + rest;
    reveal_strlit(":");
    reveal_strlit("\"");
    let n = pre.len() as int;
    let kl = key.len() as int;
    assert(t[n] == key[0]);
    assert(spec_skip_ws(t, n) == n);
    assert(t.subrange(n, n + kl) =~= key);
    assert(spec_expect_lit(t, n, key) == Some(n + kl));
    assert(t[n + kl] == ':');
    assert(spec_skip_ws(t, n + kl) == n + kl);
    assert(t.subrange(n + kl, n + kl + 1) =~= ":"@);
    assert(spec_expect_lit(t, n + kl, ":"@) == Some(n + kl + 1));
    assert(t[n + kl + 1] == '"');
    assert(spec_skip_ws(t, n + kl + 1) == n + kl + 1);
    assert(t.subrange(n + kl + 1, n + kl + 2) =~= "\""@);
    assert(spec_expect_lit(t, n + kl + 1, "\""@) == Some(n + kl + 2));
    let pre2 = pre + key + ":"@ + "\""@;
    let u = escaped(val) + seq!['"'] + rest;
    assert(t =~= pre2 + u);
    lemma_unescape_escape(val, rest, Seq::empty());
    lemma_body_shift(pre2, u, 0, Seq::empty());
    assert(Seq::<char>::empty() + val =~= val);
}

/// The wire text of one post.
pub open spec fn spec_encode_post(p: PostView) -> Seq<char> {
    "{\"title\":\""@ + escaped(p.title)
        + "\",\"body\":\""@ + escaped(p.body)
        + "\",\"author\":\""@ + escaped(p.author)
        + "\",\"created_at\":\""@ + escaped(p.created_at)
        + "\",\"id\":\""@ + uuid_text(p.id)
        + "\"}"@
}

/// Encodes one post for the wire. Never fails.
pub fn encode_post(p: &Post) -> (r: String)
    ensures
        r@ == spec_encode_post(p@),
{
    let mut out = String::new();
    out.append("{\"title\":\"");
    append_escaped(&mut out, p.title.as_str());
    out.append("\",\"body\":\"");
    append_escaped(&mut out, p.body.as_str());
    out.append("\",\"author\":\"");
    append_escaped(&mut out, p.author.as_str());
    out.append("\",\"created_at\":\"");
    append_escaped(&mut out, p.created_at.as_str());
    out.append("\",\"id\":\"");
    let u = uuid_string(p.id);
    out.append(u.as_str());
    out.append("\"}");
    proof {
        assert(out@ =~= spec_encode_post(p@));
    }
    out
}

/// The comma-separated wire texts of the posts from position `i` on,
/// accumulated onto `acc`.
pub open spec fn list_body_acc(ps: Seq<PostView>, i: int, acc: Seq<char>) -> Seq<char>
    decreases ps.len() - i,
{
    if i < 0 || i >= ps.len() {
        acc
    } else {
        let led = if i > 0 { acc + ","@ } else { acc };
        list_body_acc(ps, i + 1, led + spec_encode_post(ps[i]))
    }
}

/// The wire text of a whole listing: a JSON array of the posts in order.
pub open spec fn spec_encode_posts(ps: Seq<PostView>) -> Seq<char> {
    "["@ + list_body_acc(ps, 0, Seq::empty()) + "]"@
}

/// Encodes a listing for the wire. Never fails.
pub fn encode_posts(posts: &Vec<Post>) -> (r: String)
    ensures
        r@ == spec_encode_posts(posts@.map_values(|p: Post| p@)),
{
    let ghost ps = posts@.map_values(|p: Post| p@);
    let mut mid = String::new();
    let mut i: usize = 0;
    while i < posts.len()
        invariant
            i <= posts@.len(),
            ps == posts@.map_values(|p: Post| p@),
            ps.len() == posts@.len(),
            list_body_acc(ps, i as int, mid@) == list_body_acc(ps, 0, Seq::empty()),
        decreases posts@.len() - i,
    {
        let ghost before = mid@;
        if i > 0 {
            mid.append(",");
        }
        let e = encode_post(&posts[i]);
        mid.append(e.as_str());
        proof {
            assert(ps[i as int] == posts@[i as int]@);
            if i > 0 {
                assert(mid@ =~= (before + ","@) + spec_encode_post(ps[i as int]));
            } else {
                assert(mid@ =~= before + spec_encode_post(ps[i as int]));
            }
        }
        i = i + 1;
    }
    let mut out = String::new();
    out.append("[");
    out.append(mid.as_str());
    out.append("]");
    proof {
        assert(out@ =~= spec_encode_posts(ps));
    }
    out
}


/// In the wire text of a post the leading brace scans first.
#[verifier::rlimit(100)]
#[verifier::spinoff_prover]
proof fn lemma_rt_open(p: PostView)
    ensures
        spec_expect_lit(spec_encode_post(p), spec_skip_ws(spec_encode_post(p), 0), "{"@) == Some(
            1int,
        ),
{
    let t = spec_encode_post(p);
    let e1 = escaped(p.title);
    let e2 = escaped(p.body);
    let e3 = escaped(p.author);
    let e4 = escaped(p.created_at);
    let u = uuid_text(p.id);
    let k1 = "\"title\""@;
    let k2 = "\"body\""@;
    let k3 = "\"author\""@;
    let k4 = "\"created_at\""@;
    let k5 = "\"id\""@;
    reveal_strlit("{");
    reveal_strlit("}");
    reveal_strlit(":");
    reveal_strlit(",");
    reveal_strlit("\"");
    reveal_strlit("\"title\"");
    reveal_strlit("\"body\"");
    reveal_strlit("\"author\"");
    reveal_strlit("\"created_at\"");
    reveal_strlit("\"id\"");
    reveal_strlit("{\"title\":\"");
    reveal_strlit("\",\"body\":\"");
    reveal_strlit("\",\"author\":\"");
    reveal_strlit("\",\"created_at\":\"");
    reveal_strlit("\",\"id\":\"");
    reveal_strlit("\"}");
    assert("{\"title\":\""@ =~= "{"@ + k1 + ":"@ + "\""@);
    assert("\",\"body\":\""@ =~= seq!['"'] + ","@ + k2 + ":"@ + "\""@);
    assert("\",\"author\":\""@ =~= seq!['"'] + ","@ + k3 + ":"@ + "\""@);
    assert("\",\"created_at\":\""@ =~= seq!['"'] + ","@ + k4 + ":"@ + "\""@);
    assert("\",\"id\":\""@ =~= seq!['"'] + ","@ + k5 + ":"@ + "\""@);
    assert("\"}"@ =~= seq!['"'] + "}"@);
    assert(t[0] == '{');
    assert(spec_skip_ws(t, 0) == 0);
    assert(t.subrange(0, 1) =~= "{"@);
}

/// Member 1 (`title`) of the wire text scans out at its place.
#[verifier::rlimit(100)]
#[verifier::spinoff_prover]
proof fn lemma_rt_member1(p: PostView)
    ensures
        spec_member(spec_encode_post(p), 1, "\"title\""@) == Some(
            (p.title, 11 + escaped(p.title).len() as int),
        ),
        spec_expect_lit(
            spec_encode_post(p),
            spec_skip_ws(spec_encode_post(p), 11 + escaped(p.title).len() as int),
            ","@,
        ) == Some((11 + escaped(p.title).len() as int) + 1),
{
    let t = spec_encode_post(p);
    let e1 = escaped(p.title);
    let e2 = escaped(p.body);
    let e3 = escaped(p.author);
    let e4 = escaped(p.created_at);
    let u = uuid_text(p.id);
    let k1 = "\"title\""@;
    let k2 = "\"body\""@;
    let k3 = "\"author\""@;
    let k4 = "\"created_at\""@;
    let k5 = "\"id\""@;
    reveal_strlit("{");
    reveal_strlit("}");
    reveal_strlit(":");
    reveal_strlit(",");
    reveal_strlit("\"");
    reveal_strlit("\"title\"");
    reveal_strlit("\"body\"");
    reveal_strlit("\"author\"");
    reveal_strlit("\"created_at\"");
    reveal_strlit("\"id\"");
    reveal_strlit("{\"title\":\"");
    reveal_strlit("\",\"body\":\"");
    reveal_strlit("\",\"author\":\"");
    reveal_strlit("\",\"created_at\":\"");
    reveal_strlit("\",\"id\":\"");
    reveal_strlit("\"}");
    assert("{\"title\":\""@ =~= "{"@ + k1 + ":"@ + "\""@);
    assert("\",\"body\":\""@ =~= seq!['"'] + ","@ + k2 + ":"@ + "\""@);
    assert("\",\"author\":\""@ =~= seq!['"'] + ","@ + k3 + ":"@ + "\""@);
    assert("\",\"created_at\":\""@ =~= seq!['"'] + ","@ + k4 + ":"@ + "\""@);
    assert("\",\"id\":\""@ =~= seq!['"'] + ","@ + k5 + ":"@ + "\""@);
    assert("\"}"@ =~= seq!['"'] + "}"@);
    let pre1 = "{"@;
    assert(t =~= pre1 + k1 + ":"@ + "\""@ + e1 + seq!['"'] + (","@ + k2 + ":"@ + "\""@ + e2 + seq!['"'] + ","@ + k3 + ":"@ + "\""@ + e3 + seq!['"'] + ","@ + k4 + ":"@ + "\""@ + e4 + seq!['"'] + ","@ + k5 + ":"@ + "\""@ + u + seq!['"'] + "}"@));
    lemma_member_at(pre1, k1, p.title, ","@ + k2 + ":"@ + "\""@ + e2 + seq!['"'] + ","@ + k3 + ":"@ + "\""@ + e3 + seq!['"'] + ","@ + k4 + ":"@ + "\""@ + e4 + seq!['"'] + ","@ + k5 + ":"@ + "\""@ + u + seq!['"'] + "}"@);
    let qn = 11 + e1.len() as int;
    assert(t[qn] == ',');
    assert(spec_skip_ws(t, qn) == qn);
    assert(t.subrange(qn, qn + 1) =~= ","@);
}

/// Member 2 (`body`) of the wire text scans out at its place.
#[verifier::rlimit(100)]
#[verifier::spinoff_prover]
proof fn lemma_rt_member2(p: PostView)
    ensures
        spec_member(spec_encode_post(p), (11 + escaped(p.title).len() as int) + 1, "\"body\""@) == Some(
            (p.body, (11 + escaped(p.title).len() as int) + 10 + escaped(p.body).len() as int),
        ),
        spec_expect_lit(
            spec_encode_post(p),
            spec_skip_ws(spec_encode_post(p), (11 + escaped(p.title).len() as int) + 10 + escaped(p.body).len() as int),
            ","@,
        ) == Some(((11 + escaped(p.title).len() as int) + 10 + escaped(p.body).len() as int) + 1),
{
    let t = spec_encode_post(p);
    let e1 = escaped(p.title);
    let e2 = escaped(p.body);
    let e3 = escaped(p.author);
    let e4 = escaped(p.created_at);
    let u = uuid_text(p.id);
    let k1 = "\"title\""@;
    let k2 = "\"body\""@;
    let k3 = "\"author\""@;
    let k4 = "\"created_at\""@;
    let k5 = "\"id\""@;
    reveal_strlit("{");
    reveal_strlit("}");
    reveal_strlit(":");
    reveal_strlit(",");
    reveal_strlit("\"");
    reveal_strlit("\"title\"");
    reveal_strlit("\"body\"");
    reveal_strlit("\"author\"");
    reveal_strlit("\"created_at\"");
    reveal_strlit("\"id\"");
    reveal_strlit("{\"title\":\"");
    reveal_strlit("\",\"body\":\"");
    reveal_strlit("\",\"author\":\"");
    reveal_strlit("\",\"created_at\":\"");
    reveal_strlit("\",\"id\":\"");
    reveal_strlit("\"}");
    assert("{\"title\":\""@ =~= "{"@ + k1 + ":"@ + "\""@);
    assert("\",\"body\":\""@ =~= seq!['"'] + ","@ + k2 + ":"@ + "\""@);
    assert("\",\"author\":\""@ =~= seq!['"'] + ","@ + k3 + ":"@ + "\""@);
    assert("\",\"created_at\":\""@ =~= seq!['"'] + ","@ + k4 + ":"@ + "\""@);
    assert("\",\"id\":\""@ =~= seq!['"'] + ","@ + k5 + ":"@ + "\""@);
    assert("\"}"@ =~= seq!['"'] + "}"@);
    let pre1 = "{"@;
    let pre2 = pre1 + k1 + ":"@ + "\""@ + e1 + seq!['"'] + ","@;
    assert(t =~= pre2 + k2 + ":"@ + "\""@ + e2 + seq!['"'] + (","@ + k3 + ":"@ + "\""@ + e3 + seq!['"'] + ","@ + k4 + ":"@ + "\""@ + e4 + seq!['"'] + ","@ + k5 + ":"@ + "\""@ + u + seq!['"'] + "}"@));
    lemma_member_at(pre2, k2, p.body, ","@ + k3 + ":"@ + "\""@ + e3 + seq!['"'] + ","@ + k4 + ":"@ + "\""@ + e4 + seq!['"'] + ","@ + k5 + ":"@ + "\""@ + u + seq!['"'] + "}"@);
    let qn = (11 + e1.len() as int) + 10 + e2.len() as int;
    assert(t[qn] == ',');
    assert(spec_skip_ws(t, qn) == qn);
    assert(t.subrange(qn, qn + 1) =~= ","@);
}

/// Member 3 (`author`) of the wire text scans out at its place.
#[verifier::rlimit(100)]
#[verifier::spinoff_prover]
proof fn lemma_rt_member3(p: PostView)
    ensures
        spec_member(spec_encode_post(p), ((11 + escaped(p.title).len() as int) + 10 + escaped(p.body).len() as int) + 1, "\"author\""@) == Some(
            (p.author, ((11 + escaped(p.title).len() as int) + 10 + escaped(p.body).len() as int) + 12 + escaped(p.author).len() as int),
        ),
        spec_expect_lit(
            spec_encode_post(p),
            spec_skip_ws(spec_encode_post(p), ((11 + escaped(p.title).len() as int) + 10 + escaped(p.body).len() as int) + 12 + escaped(p.author).len() as int),
            ","@,
        ) == Some((((11 + escaped(p.title).len() as int) + 10 + escaped(p.body).len() as int) + 12 + escaped(p.author).len() as int) + 1),
{
    let t = spec_encode_post(p);
    let e1 = escaped(p.title);
    let e2 = escaped(p.body);
    let e3 = escaped(p.author);
    let e4 = escaped(p.created_at);
    let u = uuid_text(p.id);
    let k1 = "\"title\""@;
    let k2 = "\"body\""@;
    let k3 = "\"author\""@;
    let k4 = "\"created_at\""@;
    let k5 = "\"id\""@;
    reveal_strlit("{");
    reveal_strlit("}");
    reveal_strlit(":");
    reveal_strlit(",");
    reveal_strlit("\"");
    reveal_strlit("\"title\"");
    reveal_strlit("\"body\"");
    reveal_strlit("\"author\"");
    reveal_strlit("\"created_at\"");
    reveal_strlit("\"id\"");
    reveal_strlit("{\"title\":\"");
    reveal_strlit("\",\"body\":\"");
    reveal_strlit("\",\"author\":\"");
    reveal_strlit("\",\"created_at\":\"");
    reveal_strlit("\",\"id\":\"");
    reveal_strlit("\"}");
    assert("{\"title\":\""@ =~= "{"@ + k1 + ":"@ + "\""@);
    assert("\",\"body\":\""@ =~= seq!['"'] + ","@ + k2 + ":"@ + "\""@);
    assert("\",\"author\":\""@ =~= seq!['"'] + ","@ + k3 + ":"@ + "\""@);
    assert("\",\"created_at\":\""@ =~= seq!['"'] + ","@ + k4 + ":"@ + "\""@);
    assert("\",\"id\":\""@ =~= seq!['"'] + ","@ + k5 + ":"@ + "\""@);
    assert("\"}"@ =~= seq!['"'] + "}"@);
    let pre1 = "{"@;
    let pre2 = pre1 + k1 + ":"@ + "\""@ + e1 + seq!['"'] + ","@;
    let pre3 = pre2 + k2 + ":"@ + "\""@ + e2 + seq!['"'] + ","@;
    assert(t =~= pre3 + k3 + ":"@ + "\""@ + e3 + seq!['"'] + (","@ + k4 + ":"@ + "\""@ + e4 + seq!['"'] + ","@ + k5 + ":"@ + "\""@ + u + seq!['"'] + "}"@));
    lemma_member_at(pre3, k3, p.author, ","@ + k4 + ":"@ + "\""@ + e4 + seq!['"'] + ","@ + k5 + ":"@ + "\""@ + u + seq!['"'] + "}"@);
    let qn = ((11 + e1.len() as int) + 10 + e2.len() as int) + 12 + e3.len() as int;
    assert(t[qn] == ',');
    assert(spec_skip_ws(t, qn) == qn);
    assert(t.subrange(qn, qn + 1) =~= ","@);
}

/// Member 4 (`created_at`) of the wire text scans out at its place.
#[verifier::rlimit(100)]
#[verifier::spinoff_prover]
proof fn lemma_rt_member4(p: PostView)
    ensures
        spec_member(spec_encode_post(p), (((11 + escaped(p.title).len() as int) + 10 + escaped(p.body).len() as int) + 12 + escaped(p.author).len() as int) + 1, "\"created_at\""@) == Some(
            (p.created_at, (((11 + escaped(p.title).len() as int) + 10 + escaped(p.body).len() as int) + 12 + escaped(p.author).len() as int) + 16 + escaped(p.created_at).len() as int),
        ),
        spec_expect_lit(
            spec_encode_post(p),
            spec_skip_ws(spec_encode_post(p), (((11 + escaped(p.title).len() as int) + 10 + escaped(p.body).len() as int) + 12 + escaped(p.author).len() as int) + 16 + escaped(p.created_at).len() as int),
            ","@,
        ) == Some(((((11 + escaped(p.title).len() as int) + 10 + escaped(p.body).len() as int) + 12 + escaped(p.author).len() as int) + 16 + escaped(p.created_at).len() as int) + 1),
{
    let t = spec_encode_post(p);
    let e1 = escaped(p.title);
    let e2 = escaped(p.body);
    let e3 = escaped(p.author);
    let e4 = escaped(p.created_at);
    let u = uuid_text(p.id);
    let k1 = "\"title\""@;
    let k2 = "\"body\""@;
    let k3 = "\"author\""@;
    let k4 = "\"created_at\""@;
    let k5 = "\"id\""@;
    reveal_strlit("{");
    reveal_strlit("}");
    reveal_strlit(":");
    reveal_strlit(",");
    reveal_strlit("\"");
    reveal_strlit("\"title\"");
    reveal_strlit("\"body\"");
    reveal_strlit("\"author\"");
    reveal_strlit("\"created_at\"");
    reveal_strlit("\"id\"");
    reveal_strlit("{\"title\":\"");
    reveal_strlit("\",\"body\":\"");
    reveal_strlit("\",\"author\":\"");
    reveal_strlit("\",\"created_at\":\"");
    reveal_strlit("\",\"id\":\"");
    reveal_strlit("\"}");
    assert("{\"title\":\""@ =~= "{"@ + k1 + ":"@ + "\""@);
    assert("\",\"body\":\""@ =~= seq!['"'] + ","@ + k2 + ":"@ + "\""@);
    assert("\",\"author\":\""@ =~= seq!['"'] + ","@ + k3 + ":"@ + "\""@);
    assert("\",\"created_at\":\""@ =~= seq!['"'] + ","@ + k4 + ":"@ + "\""@);
    assert("\",\"id\":\""@ =~= seq!['"'] + ","@ + k5 + ":"@ + "\""@);
    assert("\"}"@ =~= seq!['"'] + "}"@);
    let pre1 = "{"@;
    let pre2 = pre1 + k1 + ":"@ + "\""@ + e1 + seq!['"'] + ","@;
    let pre3 = pre2 + k2 + ":"@ + "\""@ + e2 + seq!['"'] + ","@;
    let pre4 = pre3 + k3 + ":"@ + "\""@ + e3 + seq!['"'] + ","@;
    assert(t =~= pre4 + k4 + ":"@ + "\""@ + e4 + seq!['"'] + (","@ + k5 + ":"@ + "\""@ + u + seq!['"'] + "}"@));
    lemma_member_at(pre4, k4, p.created_at, ","@ + k5 + ":"@ + "\""@ + u + seq!['"'] + "}"@);
    let qn = (((11 + e1.len() as int) + 10 + e2.len() as int) + 12 + e3.len() as int) + 16 + e4.len() as int;
    assert(t[qn] == ',');
    assert(spec_skip_ws(t, qn) == qn);
    assert(t.subrange(qn, qn + 1) =~= ","@);
}

/// Member 5 (`id`) of the wire text scans out at its place.
#[verifier::rlimit(100)]
#[verifier::spinoff_prover]
proof fn lemma_rt_member5(p: PostView)
    ensures
        spec_member(spec_encode_post(p), ((((11 + escaped(p.title).len() as int) + 10 + escaped(p.body).len() as int) + 12 + escaped(p.author).len() as int) + 16 + escaped(p.created_at).len() as int) + 1, "\"id\""@) == Some(
            (uuid_text(p.id), ((((11 + escaped(p.title).len() as int) + 10 + escaped(p.body).len() as int) + 12 + escaped(p.author).len() as int) + 16 + escaped(p.created_at).len() as int) + 8 + uuid_text(p.id).len() as int),
        ),
        spec_expect_lit(
            spec_encode_post(p),
            spec_skip_ws(spec_encode_post(p), ((((11 + escaped(p.title).len() as int) + 10 + escaped(p.body).len() as int) + 12 + escaped(p.author).len() as int) + 16 + escaped(p.created_at).len() as int) + 8 + uuid_text(p.id).len() as int),
            "}"@,
        ) == Some((((((11 + escaped(p.title).len() as int) + 10 + escaped(p.body).len() as int) + 12 + escaped(p.author).len() as int) + 16 + escaped(p.created_at).len() as int) + 8 + uuid_text(p.id).len() as int) + 1),
        (((((11 + escaped(p.title).len() as int) + 10 + escaped(p.body).len() as int) + 12 + escaped(p.author).len() as int) + 16 + escaped(p.created_at).len() as int) + 8 + uuid_text(p.id).len() as int) + 1 == spec_encode_post(p).len(),
{
    let t = spec_encode_post(p);
    let e1 = escaped(p.title);
    let e2 = escaped(p.body);
    let e3 = escaped(p.author);
    let e4 = escaped(p.created_at);
    let u = uuid_text(p.id);
    let k1 = "\"title\""@;
    let k2 = "\"body\""@;
    let k3 = "\"author\""@;
    let k4 = "\"created_at\""@;
    let k5 = "\"id\""@;
    reveal_strlit("{");
    reveal_strlit("}");
    reveal_strlit(":");
    reveal_strlit(",");
    reveal_strlit("\"");
    reveal_strlit("\"title\"");
    reveal_strlit("\"body\"");
    reveal_strlit("\"author\"");
    reveal_strlit("\"created_at\"");
    reveal_strlit("\"id\"");
    reveal_strlit("{\"title\":\"");
    reveal_strlit("\",\"body\":\"");
    reveal_strlit("\",\"author\":\"");
    reveal_strlit("\",\"created_at\":\"");
    reveal_strlit("\",\"id\":\"");
    reveal_strlit("\"}");
    assert("{\"title\":\""@ =~= "{"@ + k1 + ":"@ + "\""@);
    assert("\",\"body\":\""@ =~= seq!['"'] + ","@ + k2 + ":"@ + "\""@);
    assert("\",\"author\":\""@ =~= seq!['"'] + ","@ + k3 + ":"@ + "\""@);
    assert("\",\"created_at\":\""@ =~= seq!['"'] + ","@ + k4 + ":"@ + "\""@);
    assert("\",\"id\":\""@ =~= seq!['"'] + ","@ + k5 + ":"@ + "\""@);
    assert("\"}"@ =~= seq!['"'] + "}"@);
    lemma_escaped_uuid(p.id);
    let pre1 = "{"@;
    let pre2 = pre1 + k1 + ":"@ + "\""@ + e1 + seq!['"'] + ","@;
    let pre3 = pre2 + k2 + ":"@ + "\""@ + e2 + seq!['"'] + ","@;
    let pre4 = pre3 + k3 + ":"@ + "\""@ + e3 + seq!['"'] + ","@;
    let pre5 = pre4 + k4 + ":"@ + "\""@ + e4 + seq!['"'] + ","@;
    assert(t =~= pre5 + k5 + ":"@ + "\""@ + u + seq!['"'] + ("}"@));
    lemma_member_at(pre5, k5, u, "}"@);
    let qn = ((((11 + e1.len() as int) + 10 + e2.len() as int) + 12 + e3.len() as int) + 16 + e4.len() as int) + 8 + u.len() as int;
    assert(t[qn] == '}');
    assert(spec_skip_ws(t, qn) == qn);
    assert(t.subrange(qn, qn + 1) =~= "}"@);
}

/// Wire round trip: the encoded text of any post decodes back to exactly
/// that post, whenever the canonical text of its identifier parses back to
/// the identifier's value and its timestamp is well-formed.
#[verifier::rlimit(100)]
#[verifier::spinoff_prover]
pub proof fn lemma_encode_decode_round_trip(p: PostView)
    ensures
        parsed_uuid(uuid_text(p.id)) == Some(p.id) && is_rfc3339(p.created_at)
            ==> spec_decode(spec_encode_post(p)) == Ok::<PostView, DecodeError>(p),
{
    if parsed_uuid(uuid_text(p.id)) == Some(p.id) && is_rfc3339(p.created_at) {
        let t = spec_encode_post(p);
        lemma_rt_open(p);
        lemma_rt_member1(p);
        lemma_rt_member2(p);
        lemma_rt_member3(p);
        lemma_rt_member4(p);
        lemma_rt_member5(p);
        assert(spec_skip_ws(t, t.len() as int) == t.len());
        assert(spec_decode(t) == Ok::<PostView, DecodeError>(
            PostView {
                title: p.title,
                body: p.body,
                author: p.author,
                created_at: p.created_at,
                id: p.id,
            },
        ));
        assert(PostView {
            title: p.title,
            body: p.body,
            author: p.author,
            created_at: p.created_at,
            id: p.id,
        } == p);
    }
}

} // verus!
