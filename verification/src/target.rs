//! Target lines. The input is one target per line, `host` or `host:port`;
//! surrounding whitespace is trimmed, blank lines and lines starting with
//! `#` carry no target, and a missing or unusable port falls back to the
//! default one.

use vstd::prelude::*;
use vstd::string::StrSliceExecFns;

use crate::packet::DEFAULT_PORT;

verus! {

/// One endpoint to probe.
pub struct Target {
    pub host: String,
    pub port: u16,
}

/// True of the ASCII whitespace characters that are trimmed off a line.
pub open spec fn is_space(c: char) -> bool {
    c == ' ' || c == '\t' || c == '\r' || c == '\n'
}

/// `s` without leading whitespace.
pub open spec fn trim_front(s: Seq<char>) -> Seq<char>
    decreases s.len(),
{
    if s.len() == 0 {
        s
    } else if is_space(s[0]) {
        trim_front(s.skip(1))
    } else {
        s
    }
}

/// `s` without trailing whitespace.
pub open spec fn trim_back(s: Seq<char>) -> Seq<char>
    decreases s.len(),
{
    if s.len() == 0 {
        s
    } else if is_space(s.last()) {
        trim_back(s.drop_last())
    } else {
        s
    }
}

/// `s` without surrounding whitespace.
pub open spec fn trimmed(s: Seq<char>) -> Seq<char> {
    trim_back(trim_front(s))
}

/// True of a decimal digit.
pub open spec fn is_digit(c: char) -> bool {
    48 <= c as u32 && c as u32 <= 57
}

/// True when every character of `s` is a decimal digit.
pub open spec fn all_digits(s: Seq<char>) -> bool {
    forall|i: int| 0 <= i < s.len() ==> is_digit(#[trigger] s[i])
}

/// The number the decimal digits of `s` spell, read left to right.
pub open spec fn digits_val(s: Seq<char>) -> int
    decreases s.len(),
{
    if s.len() == 0 {
        0
    } else {
        digits_val(s.drop_last()) * 10 + (s.last() as u32 - 48)
    }
}

/// The port a `host:port` suffix names: a non-empty all-digit string worth
/// at most 65535; anything else falls back to the default port.
pub open spec fn spec_parse_port(s: Seq<char>) -> u16 {
    if s.len() > 0 && all_digits(s) && digits_val(s) <= 65535 {
        digits_val(s) as u16
    } else {
        DEFAULT_PORT
    }
}

/// The index of the first ':' in `s`, or `s.len()` when there is none.
pub open spec fn first_colon(s: Seq<char>) -> int
    decreases s.len(),
{
    if s.len() == 0 {
        0
    } else if s[0] == ':' {
        0
    } else {
        1 + first_colon(s.skip(1))
    }
}

/// What a line of the target list means: `None` for blank lines and
/// comments, otherwise the host — everything before the first ':' of the
/// trimmed line, or all of it — and the port that follows it, if any.
pub open spec fn spec_parse_target(line: Seq<char>) -> Option<(Seq<char>, u16)> {
    let t = trimmed(line);
    if t.len() == 0 || t[0] == '#' {
        None
    } else {
        let k = first_colon(t);
        if k == t.len() {
            Some((t, DEFAULT_PORT))
        } else {
            Some((t.subrange(0, k), spec_parse_port(t.subrange(k + 1, t.len() as int))))
        }
    }
}

proof fn lemma_digits_val_nonneg(s: Seq<char>)
    requires
        all_digits(s),
    ensures
        digits_val(s) >= 0,
    decreases s.len(),
{
    if s.len() > 0 {
        assert forall|i: int| 0 <= i < s.drop_last().len() implies is_digit(
            #[trigger] s.drop_last()[i],
        ) by {
            assert(s.drop_last()[i] == s[i]);
        }
        lemma_digits_val_nonneg(s.drop_last());
        assert(is_digit(s.last()));
    }
}

proof fn lemma_digits_val_monotone(s: Seq<char>, i: int)
    requires
        0 <= i <= s.len(),
        all_digits(s),
    ensures
        digits_val(s) >= digits_val(s.subrange(0, i)),
    decreases s.len(),
{
    if i == s.len() {
        assert(s.subrange(0, i) =~= s);
    } else {
        assert forall|j: int| 0 <= j < s.drop_last().len() implies is_digit(
            #[trigger] s.drop_last()[j],
        ) by {
            assert(s.drop_last()[j] == s[j]);
        }
        lemma_digits_val_monotone(s.drop_last(), i);
        lemma_digits_val_nonneg(s.drop_last());
        assert(s.drop_last().subrange(0, i) =~= s.subrange(0, i));
        assert(is_digit(s.last()));
    }
}

proof fn lemma_first_colon_at(s: Seq<char>, k: int)
    requires
        0 <= k <= s.len(),
        forall|j: int| 0 <= j < k ==> s[j] != ':',
        k < s.len() ==> s[k] == ':',
    ensures
        first_colon(s) == k,
    decreases k,
{
    if k > 0 {
        assert(s[0] != ':');
        assert forall|j: int| 0 <= j < k - 1 implies s.skip(1)[j] != ':' by {
            assert(s.skip(1)[j] == s[j + 1]);
        }
        assert(k - 1 < s.skip(1).len() ==> s.skip(1)[k - 1] == s[k]);
        lemma_first_colon_at(s.skip(1), k - 1);
    }
}

fn is_space_char(c: char) -> (b: bool)
    ensures
        b == is_space(c),
{
    c == ' ' || c == '\t' || c == '\r' || c == '\n'
}

/// Parses a decimal port, falling back to the default port on an empty
/// string, a non-digit character, or a value over 65535.
fn parse_port_str(s: &str) -> (r: u16)
    ensures
        r == spec_parse_port(s@),
{
    let n = s.unicode_len();
    if n == 0 {
        return DEFAULT_PORT;
    }
    let mut val: u32 = 0;
    let mut i: usize = 0;
    proof {
        assert(s@.subrange(0, 0) =~= Seq::<char>::empty());
    }
    while i < n
        invariant
            i <= n,
            n == s@.len(),
            all_digits(s@.subrange(0, i as int)),
            val == digits_val(s@.subrange(0, i as int)),
            val <= 65535,
        decreases n - i,
    {
        let c = s.get_char(i);
        let u = c as u32;
        if u < 48 || u > 57 {
            proof {
                assert(!is_digit(s@[i as int]));
            }
            return DEFAULT_PORT;
        }
        let nv = val * 10 + (u - 48);
        proof {
            assert(s@.subrange(0, i as int + 1).drop_last() =~= s@.subrange(0, i as int));
            assert(s@.subrange(0, i as int + 1).last() == s@[i as int]);
            assert forall|j: int| 0 <= j < i + 1 implies is_digit(
                #[trigger] s@.subrange(0, i as int + 1)[j],
            ) by {
                assert(s@.subrange(0, i as int + 1)[j] == s@[j]);
            }
        }
        if nv > 65535 {
            proof {
                if all_digits(s@) {
                    lemma_digits_val_monotone(s@, i as int + 1);
                }
            }
            return DEFAULT_PORT;
        }
        val = nv;
        i += 1;
    }
    proof {
        assert(s@.subrange(0, n as int) =~= s@);
    }
    #[verifier::truncate] (val as u16)
}

/// The decimal digit characters of `n`, most significant first.
pub open spec fn decimal_digits(n: int) -> Seq<char>
    decreases n,
{
    if n < 10 {
        seq![((48 + n) as u8) as char]
    } else {
        decimal_digits(n / 10).push(((48 + n % 10) as u8) as char)
    }
}

/// The line the existence checker appends for a confirmed endpoint: the
/// host alone when the port is the default one, else `host:port`, each with
/// a trailing newline.
pub open spec fn spec_found_line(host: Seq<char>, port: u16) -> Seq<char> {
    if port == DEFAULT_PORT {
        host + seq!['\n']
    } else {
        host + seq![':'] + decimal_digits(port as int) + seq!['\n']
    }
}

fn push_decimal(out: &mut String, n: u16)
    ensures
        final(out)@ == old(out)@ + decimal_digits(n as int),
    decreases n,
{
    let ghost entry = out@;
    if n >= 10 {
        push_decimal(out, n / 10);
    }
    let ghost mid = out@;
    out.push((48 + (n % 10) as u8) as char);
    proof {
        if n < 10 {
            assert(out@ =~= entry + decimal_digits(n as int));
        } else {
            assert(mid == entry + decimal_digits(n as int / 10));
            assert(out@ =~= entry + decimal_digits(n as int));
        }
    }
}

/// Writes the line the existence checker records for a confirmed endpoint.
pub fn found_line(target: &Target) -> (r: String)
    ensures
        r@ == spec_found_line(target.host@, target.port),
{
    let mut out = target.host.clone();
    if !(target.port == DEFAULT_PORT) {
        out.push(':');
        push_decimal(&mut out, target.port);
    }
    out.push('\n');
    proof {
        if target.port == DEFAULT_PORT {
            assert(out@ =~= target.host@ + seq!['\n']);
        } else {
            assert(out@ =~= target.host@ + seq![':'] + decimal_digits(target.port as int)
                + seq!['\n']);
        }
    }
    out
}

/// Parses one line of the target list: `None` for blank lines and comments,
/// otherwise the host and the port, the port defaulting when the line names
/// none or names one that cannot be used.
pub fn parse_target_line(line: &str) -> (r: Option<Target>)
    ensures
        (match r {
            Some(t) => spec_parse_target(line@) matches Some(hp) && t.host@ == hp.0 && t.port
                == hp.1,
            None => spec_parse_target(line@) is None,
        }),
{
    let n = line.unicode_len();
    proof {
        assert(line@.skip(0) =~= line@);
    }
    let mut a: usize = 0;
    while a < n && is_space_char(line.get_char(a))
        invariant
            a <= n,
            n == line@.len(),
            trim_front(line@) == trim_front(line@.skip(a as int)),
        decreases n - a,
    {
        proof {
            assert(line@.skip(a as int)[0] == line@[a as int]);
            assert(line@.skip(a as int).skip(1) =~= line@.skip(a as int + 1));
        }
        a += 1;
    }
    if a == n {
        proof {
            assert(line@.skip(n as int).len() == 0);
            assert(trimmed(line@).len() == 0);
        }
        return None;
    }
    proof {
        assert(line@.skip(a as int)[0] == line@[a as int]);
        assert(trim_front(line@) == line@.skip(a as int));
    }
    let mut b: usize = n;
    proof {
        assert(line@.subrange(a as int, n as int) =~= line@.skip(a as int));
    }
    while b > a && is_space_char(line.get_char(b - 1))
        invariant
            a <= b <= n,
            n == line@.len(),
            trim_back(line@.skip(a as int)) == trim_back(line@.subrange(a as int, b as int)),
        decreases b,
    {
        proof {
            assert(line@.subrange(a as int, b as int).last() == line@[b as int - 1]);
            assert(line@.subrange(a as int, b as int).drop_last() =~= line@.subrange(
                a as int,
                b as int - 1,
            ));
        }
        b -= 1;
    }
    let ghost t = trimmed(line@);
    proof {
        if b > a {
            assert(line@.subrange(a as int, b as int).last() == line@[b as int - 1]);
        }
        assert(t == line@.subrange(a as int, b as int));
    }
    if b == a {
        return None;
    }
    let first = line.get_char(a);
    proof {
        assert(t[0] == line@[a as int]);
    }
    if first == '#' {
        return None;
    }
    let mut k: usize = a;
    while k < b && !(line.get_char(k) == ':')
        invariant
            a <= k <= b <= n,
            n == line@.len(),
            forall|j: int| a <= j < k ==> line@[j] != ':',
        decreases b - k,
    {
        k += 1;
    }
    proof {
        assert forall|j: int| 0 <= j < k - a implies t[j] != ':' by {
            assert(t[j] == line@[a + j]);
        }
        if k < b {
            assert(t[k - a] == line@[k as int]);
        }
        lemma_first_colon_at(t, k - a);
    }
    let host_str = line.substring_char(a, k);
    let host = host_str.to_owned();
    proof {
        assert(host@ =~= t.subrange(0, k - a));
    }
    if k == b {
        proof {
            assert(t.subrange(0, k - a) =~= t);
        }
        Some(Target { host, port: DEFAULT_PORT })
    } else {
        let port_str = line.substring_char(k + 1, b);
        let port = parse_port_str(port_str);
        proof {
            assert(port_str@ =~= t.subrange(k - a + 1, t.len() as int));
        }
        Some(Target { host, port })
    }
}

} // verus!
