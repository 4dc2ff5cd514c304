//! Character-level helpers shared by the reader, the writer and the value
//! resolver.
use vstd::prelude::*;

verus! {

/// Relies on `String::push`: appends one character at the end.
#[verifier::external_body]
fn push_char(s: &mut String, c: char)
    ensures
        final(s)@ == old(s)@.push(c),
{
    s.push(c);
}

/// The characters of `s`, in order.
pub fn chars_of(s: &str) -> (r: Vec<char>)
    ensures
        r@ == s@,
{
    let mut out: Vec<char> = Vec::new();
    for c in it: s.chars()
        invariant
            it.seq() == s@,
            out@ == it.seq().subrange(0, it.index() as int),
    {
        out.push(c);
    }
    out
}

/// A string holding exactly the characters `cs[from..to]`.
pub fn string_from_range(cs: &Vec<char>, from: usize, to: usize) -> (r: String)
    requires
        from <= to <= cs@.len(),
    ensures
        r@ == cs@.subrange(from as int, to as int),
{
    let mut out = String::new();
    let mut i: usize = from;
    while i < to
        invariant
            from <= i <= to <= cs@.len(),
            out@ == cs@.subrange(from as int, i as int),
        decreases to - i,
    {
        push_char(&mut out, cs[i]);
        i = i + 1;
        assert(out@ =~= cs@.subrange(from as int, i as int));
    }
    out
}

/// A string holding exactly the characters of `cs`.
pub fn string_from_chars(cs: &Vec<char>) -> (r: String)
    ensures
        r@ == cs@,
{
    let r = string_from_range(cs, 0, cs.len());
    assert(cs@.subrange(0, cs@.len() as int) =~= cs@);
    r
}


/// Unicode `White_Space`, the set that `char::is_whitespace` and `str::trim`
/// strip.
pub open spec fn is_unicode_space(c: char) -> bool {
    ('\u{9}' <= c && c <= '\u{d}') || c == ' ' || c == '\u{85}' || c == '\u{a0}'
        || c == '\u{1680}' || ('\u{2000}' <= c && c <= '\u{200a}') || c == '\u{2028}'
        || c == '\u{2029}' || c == '\u{202f}' || c == '\u{205f}' || c == '\u{3000}'
}

/// ASCII whitespace as `u8::is_ascii_whitespace` has it: space, tab, line
/// feed, form feed and carriage return.
pub open spec fn is_ascii_space(c: char) -> bool {
    c == ' ' || c == '\t' || c == '\n' || c == '\u{c}' || c == '\r'
}

/// Whitespace of one of the two kinds: Unicode when `unicode`, else ASCII.
pub open spec fn is_space(c: char, unicode: bool) -> bool {
    if unicode {
        is_unicode_space(c)
    } else {
        is_ascii_space(c)
    }
}

pub(crate) fn is_space_exec(c: char, unicode: bool) -> (r: bool)
    ensures
        r == is_space(c, unicode),
{
    if unicode {
        ('\u{9}' <= c && c <= '\u{d}') || c == ' ' || c == '\u{85}' || c == '\u{a0}'
            || c == '\u{1680}' || ('\u{2000}' <= c && c <= '\u{200a}') || c == '\u{2028}'
            || c == '\u{2029}' || c == '\u{202f}' || c == '\u{205f}' || c == '\u{3000}'
    } else {
        c == ' ' || c == '\t' || c == '\n' || c == '\u{c}' || c == '\r'
    }
}

/// `s` without its leading whitespace.
pub open spec fn strip_start(s: Seq<char>, unicode: bool) -> Seq<char>
    decreases s.len(),
{
    if s.len() > 0 && is_space(s[0], unicode) {
        strip_start(s.drop_first(), unicode)
    } else {
        s
    }
}

/// `s` without its trailing whitespace.
pub open spec fn strip_end(s: Seq<char>, unicode: bool) -> Seq<char>
    decreases s.len(),
{
    if s.len() > 0 && is_space(s.last(), unicode) {
        strip_end(s.drop_last(), unicode)
    } else {
        s
    }
}

/// `s` without leading and trailing ASCII whitespace.
pub open spec fn trim_ascii(s: Seq<char>) -> Seq<char> {
    strip_start(strip_end(s, false), false)
}

/// `s` without leading and trailing Unicode whitespace, as `str::trim` has it.
pub open spec fn trim_unicode(s: Seq<char>) -> Seq<char> {
    strip_start(strip_end(s, true), true)
}

/// Bounds `(i, j)` such that `cs[i..j]` is `cs` with its surrounding
/// whitespace of the given kind stripped.
fn trim_bounds(cs: &Vec<char>, unicode: bool) -> (r: (usize, usize))
    ensures
        r.0 <= r.1 <= cs@.len(),
        cs@.subrange(r.0 as int, r.1 as int) == strip_start(strip_end(cs@, unicode), unicode),
{
    let mut j: usize = cs.len();
    assert(cs@.subrange(0, j as int) =~= cs@);
    while j > 0 && is_space_exec(cs[j - 1], unicode)
        invariant
            j <= cs@.len(),
            strip_end(cs@, unicode) == strip_end(cs@.subrange(0, j as int), unicode),
        decreases j,
    {
        assert(cs@.subrange(0, j as int).drop_last() =~= cs@.subrange(0, j - 1));
        j = j - 1;
    }
    let mut i: usize = 0;
    while i < j && is_space_exec(cs[i], unicode)
        invariant
            i <= j <= cs@.len(),
            strip_end(cs@, unicode) == cs@.subrange(0, j as int),
            strip_start(strip_end(cs@, unicode), unicode) == strip_start(
                cs@.subrange(i as int, j as int),
                unicode,
            ),
        decreases j - i,
    {
        assert(cs@.subrange(i as int, j as int).drop_first() =~= cs@.subrange(i + 1, j as int));
        i = i + 1;
    }
    (i, j)
}

/// `s` without leading and trailing ASCII whitespace.
pub fn trim_ascii_str(s: &str) -> (r: String)
    ensures
        r@ == trim_ascii(s@),
{
    let cs = chars_of(s);
    let (i, j) = trim_bounds(&cs, false);
    string_from_range(&cs, i, j)
}

/// `s` without leading and trailing Unicode whitespace.
pub fn trim_unicode_str(s: &str) -> (r: String)
    ensures
        r@ == trim_unicode(s@),
{
    let cs = chars_of(s);
    let (i, j) = trim_bounds(&cs, true);
    string_from_range(&cs, i, j)
}

/// The decimal digit character for `d < 10`.
pub open spec fn digit_char(d: nat) -> char {
    if d == 0 {
        '0'
    } else if d == 1 {
        '1'
    } else if d == 2 {
        '2'
    } else if d == 3 {
        '3'
    } else if d == 4 {
        '4'
    } else if d == 5 {
        '5'
    } else if d == 6 {
        '6'
    } else if d == 7 {
        '7'
    } else if d == 8 {
        '8'
    } else {
        '9'
    }
}

/// `n` written in base ten, without sign or leading zeros, as `Display` writes
/// an unsigned integer.
pub open spec fn decimal(n: nat) -> Seq<char>
    decreases n,
{
    if n < 10 {
        seq![digit_char(n)]
    } else {
        decimal(n / 10).push(digit_char(n % 10))
    }
}

fn digit_to_char(d: usize) -> (r: char)
    requires
        d < 10,
    ensures
        r == digit_char(d as nat),
{
    if d == 0 {
        '0'
    } else if d == 1 {
        '1'
    } else if d == 2 {
        '2'
    } else if d == 3 {
        '3'
    } else if d == 4 {
        '4'
    } else if d == 5 {
        '5'
    } else if d == 6 {
        '6'
    } else if d == 7 {
        '7'
    } else if d == 8 {
        '8'
    } else {
        '9'
    }
}

/// Appends the decimal form of `n` to `out`.
pub fn push_decimal(out: &mut String, n: usize)
    ensures
        final(out)@ == old(out)@ + decimal(n as nat),
    decreases n,
{
    if n >= 10 {
        push_decimal(out, n / 10);
    }
    push_char(out, digit_to_char(n % 10));
    assert(final(out)@ =~= old(out)@ + decimal(n as nat));
}

/// `s` with each non-overlapping occurrence of the non-empty `pat`, found
/// from left to right, replaced by `rep`, as `str::replace` does.
pub open spec fn replaced(s: Seq<char>, pat: Seq<char>, rep: Seq<char>) -> Seq<char>
    decreases s.len(),
{
    if s.len() == 0 || pat.len() == 0 {
        s
    } else if pat.len() <= s.len() && s.subrange(0, pat.len() as int) == pat {
        rep + replaced(s.subrange(pat.len() as int, s.len() as int), pat, rep)
    } else {
        seq![s[0]] + replaced(s.subrange(1, s.len() as int), pat, rep)
    }
}

/// Whether `pat` occurs in `s` at position `i`.
fn occurs_at(s: &Vec<char>, i: usize, pat: &Vec<char>) -> (r: bool)
    requires
        i <= s@.len(),
    ensures
        r == (i + pat@.len() <= s@.len() && s@.subrange(i as int, i + pat@.len()) == pat@),
{
    if pat.len() > s.len() - i {
        return false;
    }
    let n: usize = s.len();
    let mut k: usize = 0;
    while k < pat.len()
        invariant
            n == s@.len(),
            k <= pat@.len(),
            i + pat@.len() <= s@.len(),
            forall|m: int| 0 <= m < k ==> s@[i + m] == pat@[m],
        decreases pat@.len() - k,
    {
        assert(i + k < n);
        if s[i + k] != pat[k] {
            assert(s@.subrange(i as int, i + pat@.len())[k as int] != pat@[k as int]);
            return false;
        }
        k = k + 1;
    }
    assert(s@.subrange(i as int, i + pat@.len()) =~= pat@);
    true
}

proof fn lemma_replaced_at_match(s: Seq<char>, i: int, pat: Seq<char>, rep: Seq<char>)
    requires
        0 <= i,
        pat.len() > 0,
        i + pat.len() <= s.len(),
        s.subrange(i, i + pat.len()) == pat,
    ensures
        replaced(s.subrange(i, s.len() as int), pat, rep) == rep + replaced(
            s.subrange(i + pat.len(), s.len() as int),
            pat,
            rep,
        ),
{
    let t = s.subrange(i, s.len() as int);
    assert(t.subrange(0, pat.len() as int) =~= s.subrange(i, i + pat.len()));
    assert(t.subrange(pat.len() as int, t.len() as int) =~= s.subrange(
        i + pat.len(),
        s.len() as int,
    ));
}

proof fn lemma_replaced_at_skip(s: Seq<char>, i: int, pat: Seq<char>, rep: Seq<char>)
    requires
        0 <= i < s.len(),
        pat.len() > 0,
        !(i + pat.len() <= s.len() && s.subrange(i, i + pat.len()) == pat),
    ensures
        replaced(s.subrange(i, s.len() as int), pat, rep) == seq![s[i]] + replaced(
            s.subrange(i + 1, s.len() as int),
            pat,
            rep,
        ),
{
    let t = s.subrange(i, s.len() as int);
    if i + pat.len() <= s.len() {
        assert(t.subrange(0, pat.len() as int) =~= s.subrange(i, i + pat.len()));
    }
    assert(t.subrange(1, t.len() as int) =~= s.subrange(i + 1, s.len() as int));
}

/// `s` with `pat` replaced by `rep` throughout, as `replaced` states.
pub fn replace_all(s: &Vec<char>, pat: &Vec<char>, rep: &Vec<char>) -> (r: Vec<char>)
    requires
        pat@.len() > 0,
    ensures
        r@ == replaced(s@, pat@, rep@),
{
    let mut out: Vec<char> = Vec::new();
    let mut i: usize = 0;
    assert(s@.subrange(0, s@.len() as int) =~= s@);
    while i < s.len()
        invariant
            i <= s@.len(),
            pat@.len() > 0,
            out@ + replaced(s@.subrange(i as int, s@.len() as int), pat@, rep@) == replaced(
                s@,
                pat@,
                rep@,
            ),
        decreases s@.len() - i,
    {
        let ghost out0 = out@;
        let ghost rest0 = replaced(s@.subrange(i as int, s@.len() as int), pat@, rep@);
        if occurs_at(s, i, pat) {
            proof {
                lemma_replaced_at_match(s@, i as int, pat@, rep@);
            }
            let mut k: usize = 0;
            while k < rep.len()
                invariant
                    k <= rep@.len(),
                    out@ == out0 + rep@.subrange(0, k as int),
                decreases rep@.len() - k,
            {
                out.push(rep[k]);
                k = k + 1;
                assert(out@ =~= out0 + rep@.subrange(0, k as int));
            }
            assert(rep@.subrange(0, rep@.len() as int) =~= rep@);
            i = i + pat.len();
            assert(out@ + replaced(s@.subrange(i as int, s@.len() as int), pat@, rep@) =~= out0
                + rest0);
        } else {
            proof {
                lemma_replaced_at_skip(s@, i as int, pat@, rep@);
            }
            out.push(s[i]);
            i = i + 1;
            assert(out@ + replaced(s@.subrange(i as int, s@.len() as int), pat@, rep@) =~= out0
                + rest0);
        }
    }
    assert(out@ + replaced(s@.subrange(i as int, s@.len() as int), pat@, rep@) =~= out@);
    out
}

/// The text that `escape_sanitize` gives for `s`: the escapes `\n`, `\r`,
/// `\t`, `\"` and `\\` replaced by the characters they stand for, one kind
/// after another in that order.
pub open spec fn sanitized(s: Seq<char>) -> Seq<char> {
    let s1 = replaced(s, seq!['\\', 'n'], seq!['\n']);
    let s2 = replaced(s1, seq!['\\', 'r'], seq!['\r']);
    let s3 = replaced(s2, seq!['\\', 't'], seq!['\t']);
    let s4 = replaced(s3, seq!['\\', '"'], seq!['"']);
    replaced(s4, seq!['\\', '\\'], seq!['\\'])
}

/// Turns backslash escape sequences into the characters they stand for.
pub fn escape_sanitize(s: &str) -> (r: String)
    ensures
        r@ == sanitized(s@),
{
    let cs = chars_of(s);
    let backslash_n = vec!['\\', 'n'];
    let backslash_r = vec!['\\', 'r'];
    let backslash_t = vec!['\\', 't'];
    let backslash_quote = vec!['\\', '"'];
    let backslash_backslash = vec!['\\', '\\'];
    assert(backslash_n@ =~= seq!['\\', 'n']);
    assert(backslash_r@ =~= seq!['\\', 'r']);
    assert(backslash_t@ =~= seq!['\\', 't']);
    assert(backslash_quote@ =~= seq!['\\', '"']);
    assert(backslash_backslash@ =~= seq!['\\', '\\']);
    let newline = vec!['\n'];
    let carriage_return = vec!['\r'];
    let tab = vec!['\t'];
    let quote = vec!['"'];
    let backslash = vec!['\\'];
    assert(newline@ =~= seq!['\n']);
    assert(carriage_return@ =~= seq!['\r']);
    assert(tab@ =~= seq!['\t']);
    assert(quote@ =~= seq!['"']);
    assert(backslash@ =~= seq!['\\']);
    let s1 = replace_all(&cs, &backslash_n, &newline);
    let s2 = replace_all(&s1, &backslash_r, &carriage_return);
    let s3 = replace_all(&s2, &backslash_t, &tab);
    let s4 = replace_all(&s3, &backslash_quote, &quote);
    let s5 = replace_all(&s4, &backslash_backslash, &backslash);
    string_from_chars(&s5)
}

} // verus!
