//! Small shared string helpers: `${VAR}` interpolation against an
//! environment, URL percent-encoding, and blank-to-`None` normalisation.

use vstd::prelude::*;
use crate::keyed::{KeyedList, lookup, lemma_lookup_insert};
use crate::text::{chars_of, string_of, trim, trimmed, first_match, find, push_all, opt_view};
use vstd::string::StringSliceAdditionalSpecFns;

verus! {

broadcast use vstd::string::group_string_axioms;

/// A snapshot of environment variables (name => value).
pub struct MapEnv {
    vars: KeyedList<String>,
}

/// `lookup` over a list with mapped values looks up the same entry.
pub proof fn lemma_lookup_map_values(s: Seq<(Seq<char>, String)>, k: Seq<char>)
    ensures
        lookup(s.map_values(|e: (Seq<char>, String)| (e.0, e.1@)), k) == match lookup(s, k) {
            Some(v) => Some(v@),
            None => None,
        },
    decreases s.len(),
{
    let m = s.map_values(|e: (Seq<char>, String)| (e.0, e.1@));
    if s.len() > 0 {
        assert(m.drop_first() == s.drop_first().map_values(
            |e: (Seq<char>, String)| (e.0, e.1@),
        ));
        lemma_lookup_map_values(s.drop_first(), k);
    }
}

impl View for MapEnv {
    type V = Seq<(Seq<char>, Seq<char>)>;

    closed spec fn view(&self) -> Seq<(Seq<char>, Seq<char>)> {
        self.vars@.map_values(|e: (Seq<char>, String)| (e.0, e.1@))
    }
}

impl MapEnv {
    /// An environment with no variables set.
    pub fn new() -> (env: Self)
        ensures
            env@ == Seq::<(Seq<char>, Seq<char>)>::empty(),
            forall|k: Seq<char>| lookup(#[trigger] env@, k) is None,
    {
        let env = MapEnv { vars: KeyedList::new() };
        assert(env@ == Seq::<(Seq<char>, Seq<char>)>::empty());
        env
    }

    /// The value of `name`, if set.
    pub fn get(&self, name: &str) -> (r: Option<String>)
        ensures
            opt_view(r) == lookup(self@, name@),
    {
        proof {
            lemma_lookup_map_values(self.vars@, name@);
        }
        match self.vars.get(name) {
            Some(v) => Some(v.clone()),
            None => None,
        }
    }

    /// The same environment with `name` set to `value`.
    pub fn with(self, name: &str, value: &str) -> (env: Self)
        ensures
            lookup(env@, name@) == Some(value@),
            forall|k: Seq<char>| k != name@ ==> lookup(#[trigger] env@, k) == lookup(self@, k),
    {
        let mut vars = self.vars;
        let ghost old_vars = vars@;
        let key = String::from_str(name);
        let val = String::from_str(value);
        let ghost gv = val;
        vars.insert(key, val);
        let env = MapEnv { vars };
        proof {
            lemma_lookup_insert(old_vars, name@, gv);
            lemma_lookup_map_values(vars@, name@);
            lemma_lookup_map_values(old_vars, name@);
            assert forall|k: Seq<char>| k != name@ implies lookup(#[trigger] env@, k) == lookup(self@, k) by {
                lemma_lookup_map_values(vars@, k);
                lemma_lookup_map_values(old_vars, k);
            }
        }
        env
    }
}


/// What a `${...}` body resolves to: `NAME` or `NAME:-default`; the trimmed
/// name's value when set, else the default, else the empty string.
pub open spec fn resolved_ref(body: Seq<char>, env: Seq<(Seq<char>, Seq<char>)>) -> Seq<char> {
    match first_match(body, seq![':', '-']) {
        Some(i) => match lookup(env, trim(body.take(i))) {
            Some(v) => v,
            None => body.skip(i + 2),
        },
        None => match lookup(env, trim(body)) {
            Some(v) => v,
            None => Seq::empty(),
        },
    }
}

/// `raw` with `$$` turned into `$` and each `${...}` reference (up to the next
/// `}`, or to the end when none follows) replaced by what it resolves to; any
/// other `$` is kept as is.
pub open spec fn interpolated(s: Seq<char>, env: Seq<(Seq<char>, Seq<char>)>) -> Seq<char>
    decreases s.len(),
{
    if s.len() == 0 {
        Seq::empty()
    } else if s[0] != '$' {
        seq![s[0]] + interpolated(s.drop_first(), env)
    } else if s.len() >= 2 && s[1] == '$' {
        seq!['$'] + interpolated(s.skip(2), env)
    } else if s.len() >= 2 && s[1] == '{' {
        let rest = s.skip(2);
        match first_match(rest, seq!['}']) {
            Some(k) => if 0 <= k < rest.len() {
                resolved_ref(rest.take(k), env) + interpolated(rest.skip(k + 1), env)
            } else {
                resolved_ref(rest, env)
            },
            None => resolved_ref(rest, env),
        }
    } else {
        seq!['$'] + interpolated(s.drop_first(), env)
    }
}

/// Resolves one `${...}` body against `env`.
fn resolve_ref(body: &[char], env: &MapEnv) -> (r: Vec<char>)
    ensures
        r@ == resolved_ref(body@, env@),
{
    let mut sep: Vec<char> = Vec::new();
    sep.push(':');
    sep.push('-');
    assert(sep@ == seq![':', '-']);
    match find(body, &sep) {
        Some(i) => {
            assert(crate::text::matches_at(body@, sep@, i as int));
            let blen = body.len();
            assert(i + 2 <= blen);
            let dstart: usize = i + 2;
            let name_raw = crate::text::slice_chars(body, 0, i);
            assert(name_raw@ == body@.take(i as int));
            let name = string_of(&trimmed(&name_raw));
            match env.get(name.as_str()) {
                Some(v) => chars_of(v.as_str()),
                None => {
                    let d = crate::text::slice_chars(body, dstart, body.len());
                    assert(d@ == body@.skip(i + 2));
                    d
                },
            }
        },
        None => {
            let name = string_of(&trimmed(body));
            match env.get(name.as_str()) {
                Some(v) => chars_of(v.as_str()),
                None => Vec::new(),
            }
        },
    }
}

/// Replaces `${VAR}` and `${VAR:-default}` references in `raw` using `env`.
/// An unset variable with no default resolves to an empty string; `$$`
/// escapes to a single `$`.
pub fn interpolate_env(raw: &str, env: &MapEnv) -> (out: String)
    ensures
        out@ == interpolated(raw@, env@),
{
    let s = chars_of(raw);
    let n = s.len();
    let mut close: Vec<char> = Vec::new();
    close.push('}');
    assert(close@ == seq!['}']);
    let mut out: Vec<char> = Vec::new();
    let mut i: usize = 0;
    assert(s@.skip(0) == s@);
    while i < n
        invariant
            i <= n == s@.len(),
            s@ == raw@,
            close@ == seq!['}'],
            interpolated(raw@, env@) == out@ + interpolated(s@.skip(i as int), env@),
        decreases n - i,
    {
        let ghost t = s@.skip(i as int);
        assert(t[0] == s@[i as int]);
        assert(t.drop_first() == s@.skip(i + 1));
        let c = s[i];
        if c != '$' {
            out.push(c);
            i = i + 1;
        } else if i + 1 < n && s[i + 1] == '$' {
            assert(t[1] == s@[i + 1]);
            assert(t.skip(2) == s@.skip(i + 2));
            out.push('$');
            i = i + 2;
        } else if i + 1 < n && s[i + 1] == '{' {
            assert(t[1] == s@[i + 1]);
            let rest = crate::text::slice_chars(&s, i + 2, n);
            assert(rest@ == t.skip(2));
            match find(&rest, &close) {
                Some(k) => {
                    let body = crate::text::slice_chars(&rest, 0, k);
                    assert(body@ == rest@.take(k as int));
                    let v = resolve_ref(&body, env);
                    push_all(&mut out, &v);
                    assert(rest@.skip(k + 1) == s@.skip(i + 2 + k + 1));
                    i = i + 2 + k + 1;
                },
                None => {
                    let v = resolve_ref(&rest, env);
                    push_all(&mut out, &v);
                    assert(s@.skip(n as int) == Seq::<char>::empty());
                    i = n;
                },
            }
        } else {
            out.push('$');
            i = i + 1;
        }
    }
    assert(s@.skip(n as int) == Seq::<char>::empty());
    assert(out@ + Seq::<char>::empty() == out@);
    string_of(&out)
}

/// RFC 3986 unreserved bytes: ASCII letters, digits and `-_.~`.
pub open spec fn unreserved(b: u8) -> bool {
    (65 <= b <= 90) || (97 <= b <= 122) || (48 <= b <= 57) || b == 45 || b == 95 || b == 46
        || b == 126
}

/// Upper-case hex digit for `d < 16`.
pub open spec fn hex_digit(d: u8) -> char {
    if d < 10 {
        ((48 + d) as u8) as char
    } else {
        ((55 + d) as u8) as char
    }
}

/// One byte percent-encoded: itself when unreserved, else `%XX`.
pub open spec fn encode_byte(b: u8) -> Seq<char> {
    if unreserved(b) {
        seq![b as char]
    } else {
        seq!['%', hex_digit(b / 16), hex_digit(b % 16)]
    }
}

/// A byte sequence percent-encoded byte by byte.
pub open spec fn percent_encoded(bytes: Seq<u8>) -> Seq<char>
    decreases bytes.len(),
{
    if bytes.len() == 0 {
        Seq::empty()
    } else {
        percent_encoded(bytes.drop_last()) + encode_byte(bytes.last())
    }
}

fn hex_digit_char(d: u8) -> (c: char)
    requires
        d < 16,
    ensures
        c == hex_digit(d),
{
    if d < 10 {
        (48 + d) as char
    } else {
        (55 + d) as char
    }
}

/// Percent-encodes a string for use as a URL query value: the UTF-8 bytes in
/// the RFC 3986 unreserved set are kept, every other byte becomes `%XX`.
pub fn percent_encode(value: &str) -> (out: String)
    ensures
        out@ == percent_encoded(value.spec_bytes()),
{
    let bytes = value.as_bytes();
    let mut out: Vec<char> = Vec::new();
    let mut i: usize = 0;
    while i < bytes.len()
        invariant
            i <= bytes@.len(),
            bytes@ == value.spec_bytes(),
            out@ == percent_encoded(bytes@.take(i as int)),
        decreases bytes.len() - i,
    {
        let b = bytes[i];
        let ghost before = out@;
        if (65 <= b && b <= 90) || (97 <= b && b <= 122) || (48 <= b && b <= 57) || b == 45 || b
            == 95 || b == 46 || b == 126 {
            out.push(b as char);
        } else {
            out.push('%');
            out.push(hex_digit_char(b / 16));
            out.push(hex_digit_char(b % 16));
        }
        assert(out@ == before + encode_byte(b));
        assert(bytes@.take(i + 1).drop_last() == bytes@.take(i as int));
        i = i + 1;
    }
    assert(bytes@.take(bytes.len() as int) == bytes@);
    string_of(&out)
}

/// Trims a value and collapses blank (empty or whitespace-only) values to
/// `None`.
pub fn blank_to_none(value: Option<String>) -> (r: Option<String>)
    ensures
        opt_view(r) == match value {
            None => None,
            Some(s) => if trim(s@).len() == 0 {
                None
            } else {
                Some(trim(s@))
            },
        },
{
    match value {
        None => None,
        Some(s) => {
            let v = chars_of(s.as_str());
            let t = trimmed(&v);
            if t.len() == 0 {
                None
            } else {
                Some(string_of(&t))
            }
        },
    }
}

/// Text without a `$` is left as it is.
pub proof fn lemma_plain_text_unchanged(s: Seq<char>, env: Seq<(Seq<char>, Seq<char>)>)
    requires
        !s.contains('$'),
    ensures
        interpolated(s, env) == s,
    decreases s.len(),
{
    if s.len() > 0 {
        assert(s[0] != '$');
        let t = s.drop_first();
        assert(!t.contains('$')) by {
            if t.contains('$') {
                let i = choose|i: int| 0 <= i < t.len() && t[i] == '$';
                assert(s[i + 1] == '$');
            }
        }
        lemma_plain_text_unchanged(t, env);
        assert(seq![s[0]] + t == s);
    }
}

/// A character that may appear in a percent-encoded value: an unreserved
/// character, `%`, or an upper-case hexadecimal digit.
pub open spec fn url_safe(c: char) -> bool {
    ||| ('A' <= c && c <= 'Z')
    ||| ('a' <= c && c <= 'z')
    ||| ('0' <= c && c <= '9')
    ||| c == '-' || c == '_' || c == '.' || c == '~' || c == '%'
}

/// Percent-encoding yields URL-safe text only.
pub proof fn lemma_percent_encoded_url_safe(bytes: Seq<u8>)
    ensures
        forall|i: int| 0 <= i < percent_encoded(bytes).len() ==> url_safe(#[trigger] percent_encoded(bytes)[i]),
    decreases bytes.len(),
{
    if bytes.len() > 0 {
        lemma_percent_encoded_url_safe(bytes.drop_last());
        let prior = percent_encoded(bytes.drop_last());
        let b = bytes.last();
        let e = encode_byte(b);
        assert forall|i: int| 0 <= i < e.len() implies url_safe(#[trigger] e[i]) by {
            if unreserved(b) {
                assert(e[i] == b as char);
            } else {
                assert(b / 16 < 16 && b % 16 < 16);
            }
        }
        assert forall|i: int| 0 <= i < percent_encoded(bytes).len() implies url_safe(
            #[trigger] percent_encoded(bytes)[i],
        ) by {
            if i < prior.len() {
                assert(percent_encoded(bytes)[i] == prior[i]);
            } else {
                assert(percent_encoded(bytes)[i] == e[i - prior.len()]);
            }
        }
    }
}

/// The value of a hexadecimal digit (either case).
pub open spec fn hex_value(c: char) -> Option<u8> {
    if '0' <= c && c <= '9' {
        Some((c as u32 - 48) as u8)
    } else if 'A' <= c && c <= 'F' {
        Some((c as u32 - 55) as u8)
    } else if 'a' <= c && c <= 'f' {
        Some((c as u32 - 87) as u8)
    } else {
        None
    }
}

/// Percent-decoding, read from the front: `%XX` is the byte with hex value
/// `XX`, another ASCII character is its own byte; `None` for a malformed
/// escape or a non-ASCII character.
pub open spec fn percent_decoded(s: Seq<char>) -> Option<Seq<u8>>
    decreases s.len(),
{
    if s.len() == 0 {
        Some(Seq::empty())
    } else if s[0] == '%' {
        if s.len() >= 3 && hex_value(s[1]) is Some && hex_value(s[2]) is Some {
            match percent_decoded(s.skip(3)) {
                Some(rest) => Some(seq![(hex_value(s[1])->0 * 16 + hex_value(s[2])->0) as u8] + rest),
                None => None,
            }
        } else {
            None
        }
    } else if (s[0] as u32) < 128 {
        match percent_decoded(s.drop_first()) {
            Some(rest) => Some(seq![s[0] as u8] + rest),
            None => None,
        }
    } else {
        None
    }
}

/// Encoding read from the front: the first byte's encoding, then the rest's.
proof fn lemma_encoded_front(b: Seq<u8>)
    requires
        b.len() > 0,
    ensures
        percent_encoded(b) == encode_byte(b[0]) + percent_encoded(b.drop_first()),
    decreases b.len(),
{
    if b.len() == 1 {
        assert(b.drop_last().len() == 0);
        assert(b.drop_first().len() == 0);
        assert(percent_encoded(b.drop_last()) =~= Seq::<char>::empty());
        assert(percent_encoded(b.drop_first()) =~= Seq::<char>::empty());
        assert(percent_encoded(b) =~= encode_byte(b[0]) + Seq::<char>::empty());
    } else {
        lemma_encoded_front(b.drop_last());
        assert(b.drop_last()[0] == b[0]);
        assert(b.drop_last().drop_first() =~= b.drop_first().drop_last());
        assert(b.drop_first().last() == b.last());
        assert(percent_encoded(b) == percent_encoded(b.drop_last()) + encode_byte(b.last()));
        assert(percent_encoded(b.drop_first()) == percent_encoded(b.drop_first().drop_last()) + encode_byte(
            b.last(),
        ));
        assert(percent_encoded(b) =~= encode_byte(b[0]) + percent_encoded(b.drop_first()));
    }
}

/// Decoding one encoded byte ahead of more text.
proof fn lemma_decode_byte(x: u8, rest: Seq<char>)
    ensures
        percent_decoded(encode_byte(x) + rest) == match percent_decoded(rest) {
            Some(r) => Some(seq![x] + r),
            None => None,
        },
{
    let s = encode_byte(x) + rest;
    if unreserved(x) {
        assert(s[0] == x as char);
        assert(s.drop_first() =~= rest);
        assert((x as char) as u8 == x);
    } else {
        let hi = x / 16;
        let lo = x % 16;
        assert(s[0] == '%');
        assert(s[1] == hex_digit(hi));
        assert(s[2] == hex_digit(lo));
        assert(hex_value(hex_digit(hi)) == Some(hi));
        assert(hex_value(hex_digit(lo)) == Some(lo));
        assert(s.skip(3) =~= rest);
        assert((hi * 16 + lo) as u8 == x);
    }
}

/// Decoding the encoding of `b` ahead of more text gives `b` ahead of the
/// decoding of that text.
proof fn lemma_decode_encoded(b: Seq<u8>, rest: Seq<char>)
    ensures
        percent_decoded(percent_encoded(b) + rest) == match percent_decoded(rest) {
            Some(r) => Some(b + r),
            None => None,
        },
    decreases b.len(),
{
    if b.len() == 0 {
        assert(percent_encoded(b) + rest =~= rest);
        if percent_decoded(rest) is Some {
            assert(b + percent_decoded(rest)->0 =~= percent_decoded(rest)->0);
        }
    } else {
        lemma_encoded_front(b);
        lemma_decode_encoded(b.drop_first(), rest);
        assert(percent_encoded(b) + rest =~= encode_byte(b[0]) + (percent_encoded(b.drop_first()) + rest));
        lemma_decode_byte(b[0], percent_encoded(b.drop_first()) + rest);
        if percent_decoded(rest) is Some {
            assert(seq![b[0]] + (b.drop_first() + percent_decoded(rest)->0) =~= b + percent_decoded(rest)->0);
        }
    }
}

/// Percent-decoding an encoded value gives back its bytes.
pub proof fn lemma_percent_roundtrip(bytes: Seq<u8>)
    ensures
        percent_decoded(percent_encoded(bytes)) == Some(bytes),
{
    lemma_decode_encoded(bytes, Seq::empty());
    assert(percent_encoded(bytes) + Seq::<char>::empty() =~= percent_encoded(bytes));
    assert(bytes + Seq::<u8>::empty() =~= bytes);
}

/// The bytes as characters, one for one.
pub open spec fn bytes_as_chars(bytes: Seq<u8>) -> Seq<char> {
    bytes.map_values(|b: u8| b as char)
}

/// The encoding is never shorter than the bytes, and is as long only when
/// every byte is unreserved, in which case it is the bytes themselves.
proof fn lemma_encoded_len(bytes: Seq<u8>)
    ensures
        percent_encoded(bytes).len() >= bytes.len(),
        percent_encoded(bytes).len() == bytes.len() <==> forall|i: int| 0 <= i < bytes.len() ==> unreserved(#[trigger] bytes[i]),
        (forall|i: int| 0 <= i < bytes.len() ==> unreserved(#[trigger] bytes[i])) ==> percent_encoded(bytes) == bytes_as_chars(bytes),
    decreases bytes.len(),
{
    if bytes.len() > 0 {
        let p = bytes.drop_last();
        lemma_encoded_len(p);
        if forall|i: int| 0 <= i < bytes.len() ==> unreserved(#[trigger] bytes[i]) {
            assert forall|i: int| 0 <= i < p.len() implies unreserved(#[trigger] p[i]) by {
                assert(p[i] == bytes[i]);
            }
            assert(unreserved(bytes[bytes.len() - 1]));
            assert(bytes_as_chars(bytes) =~= bytes_as_chars(p).push(bytes.last() as char));
            assert(percent_encoded(bytes) =~= percent_encoded(p) + seq![bytes.last() as char]);
        } else {
            let k = choose|i: int| 0 <= i < bytes.len() && !unreserved(#[trigger] bytes[i]);
            if k < p.len() {
                assert(!unreserved(p[k]));
            }
        }
    }
}

/// A character outside the ASCII range has a code above 127.
proof fn lemma_non_ascii_char(c: char)
    requires
        !('\0' <= c <= '\u{7f}'),
    ensures
        (c as int) > 127,
{
}

/// Percent-encoding leaves a value as it is exactly when every character
/// is unreserved (an ASCII letter, a digit, or one of `-_.~`); otherwise
/// the encoding differs from the value.
pub proof fn lemma_percent_fixed_point(value: &str)
    ensures
        percent_encoded(value.spec_bytes()) == value@ <==> forall|i: int|
            0 <= i < value@.len() ==> ((#[trigger] value@[i]) as int) < 128 && unreserved(value@[i] as u8),
{
    let b = value.spec_bytes();
    let all_unres = forall|i: int| 0 <= i < value@.len() ==> ((#[trigger] value@[i]) as int) < 128 && unreserved(value@[i] as u8);
    lemma_encoded_len(b);
    lemma_percent_encoded_url_safe(b);
    if vstd::utf8::is_ascii_chars(value@) {
        vstd::utf8::is_ascii_chars_encode_utf8(value@);
        assert(b.len() == value@.len());
        assert forall|i: int| 0 <= i < value@.len() implies (#[trigger] bytes_as_chars(b)[i]) == value@[i] by {
            assert(b[i] == value@[i] as u8);
            assert(value@[i] <= '\u{7f}');
        }
        assert(bytes_as_chars(b) =~= value@);
        if all_unres {
            assert forall|i: int| 0 <= i < b.len() implies unreserved(#[trigger] b[i]) by {
                assert(b[i] == value@[i] as u8);
                assert(((value@[i]) as int) < 128);
            }
        } else {
            let k = choose|i: int| 0 <= i < value@.len() && !(((#[trigger] value@[i]) as int) < 128 && unreserved(value@[i] as u8));
            assert(b[k] == value@[k] as u8);
            assert(!unreserved(b[k]));
            assert(percent_encoded(b).len() != value@.len());
        }
    } else {
        assert(!(forall|i: int| 0 <= i < value@.len() ==> '\0' <= #[trigger] value@[i] <= '\u{7f}'));
        let k = choose|i: int| 0 <= i < value@.len() && !('\0' <= #[trigger] value@[i] <= '\u{7f}');
        let c = value@[k];
        assert(!('\0' <= c <= '\u{7f}'));
        lemma_non_ascii_char(c);
        if percent_encoded(b) == value@ {
            assert(url_safe(percent_encoded(b)[k]));
        }
    }
}

} // verus!
