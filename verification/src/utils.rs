use vstd::prelude::*;

verus! {

/// The decimal digit character for `d` (0 through 9).
pub open spec fn spec_digit(d: nat) -> char {
    if d == 0 {
        '0'
    } else if d == 1 {
        '1'
    } else if d == 2 {
        '2'
    } else if d == 3 {
        '3'
    } else if d == 4 {
        '4'
    } else if d == 5 {
        '5'
    } else if d == 6 {
        '6'
    } else if d == 7 {
        '7'
    } else if d == 8 {
        '8'
    } else {
        '9'
    }
}

/// Decimal representation of `n`, most significant digit first, without
/// leading zeros (except for `n == 0` itself).
pub open spec fn spec_decimal(n: nat) -> Seq<char>
    decreases n,
{
    if n < 10 {
        seq![spec_digit(n)]
    } else {
        spec_decimal(n / 10).push(spec_digit(n % 10))
    }
}

/// ASCII letters and digits.
pub open spec fn spec_is_ascii_alnum(c: char) -> bool {
    (48 <= c as u32 && c as u32 <= 57) || (65 <= c as u32 && c as u32 <= 90) || (97 <= c as u32
        && c as u32 <= 122)
}

/// Characters the sanitizer passes through unchanged: ASCII letters and
/// digits, space, hyphen and underscore anywhere, and a period anywhere but
/// at the start of the segment (a leading period would produce a hidden
/// entry on Unix-like systems).
pub open spec fn spec_keeps(c: char, first: bool) -> bool {
    spec_is_ascii_alnum(c) || c == ' ' || c == '-' || c == '_' || (c == '.' && !first)
}

/// The escape marker for an unsafe character: its decimal Unicode code point
/// between two commas.
pub open spec fn spec_escape(c: char) -> Seq<char> {
    seq![','] + spec_decimal(c as u32 as nat) + seq![',']
}

/// What one input character contributes to the sanitized output.
pub open spec fn spec_sanitize_char(c: char, first: bool) -> Seq<char> {
    if spec_keeps(c, first) {
        seq![c]
    } else {
        spec_escape(c)
    }
}

/// The sanitized form of the first `n` characters of `s`.
pub open spec fn spec_sanitize_prefix(s: Seq<char>, n: int) -> Seq<char>
    decreases n,
{
    if n <= 0 {
        Seq::empty()
    } else {
        spec_sanitize_prefix(s, n - 1) + spec_sanitize_char(s[n - 1], n - 1 == 0)
    }
}

/// The sanitized form of a whole path segment.
pub open spec fn spec_sanitize(s: Seq<char>) -> Seq<char> {
    spec_sanitize_prefix(s, s.len() as int)
}

fn digit_char(d: u32) -> (c: char)
    requires
        d < 10,
    ensures
        c == spec_digit(d as nat),
{
    if d == 0 {
        '0'
    } else if d == 1 {
        '1'
    } else if d == 2 {
        '2'
    } else if d == 3 {
        '3'
    } else if d == 4 {
        '4'
    } else if d == 5 {
        '5'
    } else if d == 6 {
        '6'
    } else if d == 7 {
        '7'
    } else if d == 8 {
        '8'
    } else {
        '9'
    }
}

fn push_decimal(out: &mut Vec<char>, n: u32)
    ensures
        final(out)@ == old(out)@ + spec_decimal(n as nat),
    decreases n,
{
    if n >= 10 {
        push_decimal(out, n / 10);
    }
    out.push(digit_char(n % 10));
    assert(out@ =~= old(out)@ + spec_decimal(n as nat));
}

/// Relies on `String` implementing `FromIterator<char>`: collecting an
/// iterator of characters yields a string of exactly those characters, in
/// order.
#[verifier::external_body]
pub(crate) fn chars_to_string(v: Vec<char>) -> (s: String)
    ensures
        s@ == v@,
{
    v.into_iter().collect()
}

/// Returns a cross-platform-filename-safe version of any string.
///
/// Every character that is not an ASCII letter, digit, space, hyphen or
/// underscore is replaced by its decimal Unicode code point between two
/// commas (`é` becomes `,233,`); so is a period at the start of the segment,
/// to avoid accidentally producing a hidden directory. Periods elsewhere
/// pass through unchanged.
///
/// Apply this only to single path segments, never to full paths: `/` and
/// `\` are themselves escaped.
pub fn sanitized(component: &str) -> (result: String)
    ensures
        result@ == spec_sanitize(component@),
{
    let n = component.unicode_len();
    let mut out: Vec<char> = Vec::new();
    let mut i: usize = 0;
    while i < n
        invariant
            n == component@.len(),
            i <= n,
            out@ == spec_sanitize_prefix(component@, i as int),
        decreases n - i,
    {
        let c = component.get_char(i);
        let u = c as u32;
        let keep = (48 <= u && u <= 57) || (65 <= u && u <= 90) || (97 <= u && u <= 122) || c == ' '
            || c == '-' || c == '_' || (c == '.' && i != 0);
        if keep {
            out.push(c);
        } else {
            out.push(',');
            push_decimal(&mut out, u);
            out.push(',');
        }
        i = i + 1;
        assert(out@ =~= spec_sanitize_prefix(component@, i as int));
    }
    chars_to_string(out)
}

/// Every digit character is an ASCII digit.
proof fn lemma_digit_alnum(d: nat)
    ensures
        spec_is_ascii_alnum(spec_digit(d)),
{
}

/// The decimal representation of any number consists of digit characters
/// only.
proof fn lemma_decimal_digits(n: nat)
    ensures
        forall|i: int|
            0 <= i < spec_decimal(n).len() ==> spec_is_ascii_alnum(#[trigger] spec_decimal(n)[i]),
    decreases n,
{
    if n < 10 {
        assert forall|i: int| 0 <= i < spec_decimal(n).len() implies spec_is_ascii_alnum(
            #[trigger] spec_decimal(n)[i],
        ) by {
            lemma_digit_alnum(n);
            assert(spec_decimal(n)[i] == spec_digit(n));
        }
    } else {
        lemma_decimal_digits(n / 10);
        let rec = spec_decimal(n / 10);
        assert forall|i: int| 0 <= i < spec_decimal(n).len() implies spec_is_ascii_alnum(
            #[trigger] spec_decimal(n)[i],
        ) by {
            if i < rec.len() {
                assert(spec_decimal(n)[i] == rec[i]);
            } else {
                lemma_digit_alnum(n % 10);
                assert(spec_decimal(n)[i] == spec_digit(n % 10));
            }
        }
    }
}

/// Helper for [`lemma_sanitize_identity`]: on safe characters the
/// sanitizer copies every prefix unchanged.
proof fn lemma_sanitize_prefix_identity(s: Seq<char>, n: int)
    requires
        0 <= n <= s.len(),
        forall|i: int|
            0 <= i < s.len() ==> spec_is_ascii_alnum(#[trigger] s[i]) || s[i] == ' ' || s[i] == '-'
                || s[i] == '_',
    ensures
        spec_sanitize_prefix(s, n) =~= s.take(n),
    decreases n,
{
    if n > 0 {
        lemma_sanitize_prefix_identity(s, n - 1);
        assert(spec_keeps(s[n - 1], n - 1 == 0));
    }
}

/// On input already restricted to ASCII letters, digits, spaces, hyphens
/// and underscores, sanitization changes nothing. (On other input it is
/// one-way: escaping is not undone, so a second application may escape
/// the markers of the first.)
pub proof fn lemma_sanitize_identity(s: Seq<char>)
    requires
        forall|i: int|
            0 <= i < s.len() ==> spec_is_ascii_alnum(#[trigger] s[i]) || s[i] == ' ' || s[i] == '-'
                || s[i] == '_',
    ensures
        spec_sanitize(s) == s,
{
    lemma_sanitize_prefix_identity(s, s.len() as int);
    assert(s.take(s.len() as int) =~= s);
}

/// Whatever the input, the sanitized form of a segment never contains a
/// path separator: every character of it is an ASCII letter or digit, a
/// space, hyphen, underscore or period, or part of a `,<codepoint>,`
/// escape marker.
pub proof fn lemma_sanitize_separator_free(s: Seq<char>)
    ensures
        forall|i: int|
            0 <= i < spec_sanitize(s).len() ==> #[trigger] spec_sanitize(s)[i] != '/'
                && spec_sanitize(s)[i] != '\\',
{
    lemma_sanitize_prefix_separator_free(s, s.len() as int);
}

/// Helper for [`lemma_sanitize_separator_free`], by induction over the
/// processed prefix.
proof fn lemma_sanitize_prefix_separator_free(s: Seq<char>, n: int)
    ensures
        forall|i: int|
            0 <= i < spec_sanitize_prefix(s, n).len() ==> #[trigger] spec_sanitize_prefix(s, n)[i]
                != '/' && spec_sanitize_prefix(s, n)[i] != '\\',
    decreases n,
{
    if n > 0 {
        lemma_sanitize_prefix_separator_free(s, n - 1);
        let c = s[n - 1];
        let pre = spec_sanitize_prefix(s, n - 1);
        let tail = spec_sanitize_char(c, n - 1 == 0);
        if spec_keeps(c, n - 1 == 0) {
            assert(c != '/' && c != '\\');
        } else {
            lemma_decimal_digits(c as u32 as nat);
            assert(forall|i: int|
                0 <= i < tail.len() ==> #[trigger] tail[i] != '/' && tail[i] != '\\');
        }
        assert forall|i: int| 0 <= i < spec_sanitize_prefix(s, n).len() implies #[trigger]
        spec_sanitize_prefix(s, n)[i] != '/' && spec_sanitize_prefix(s, n)[i] != '\\' by {
            assert(spec_sanitize_prefix(s, n) == pre + tail);
            if i < pre.len() {
                assert(spec_sanitize_prefix(s, n)[i] == pre[i]);
            } else {
                assert(spec_sanitize_prefix(s, n)[i] == tail[i - pre.len()]);
            }
        }
    }
}

} // verus!
