//! Small verified string helpers: the `.md` suffix handling used to derive
//! node identifiers from file names, and decimal rendering of counters for
//! the per-node metadata map.

use vstd::prelude::*;
use vstd::string::{StrSliceExecFns, StringExecFns};

verus! {

/// The three characters of the markdown file suffix.
pub open spec fn spec_md_suffix() -> Seq<char> {
    seq!['.', 'm', 'd']
}

/// Whether a name ends in `.md`.
pub open spec fn spec_ends_with_md(s: Seq<char>) -> bool {
    &&& s.len() >= 3
    &&& s[s.len() - 3] == '.'
    &&& s[s.len() - 2] == 'm'
    &&& s[s.len() - 1] == 'd'
}

/// The name with every trailing `.md` removed, as `trim_end_matches` leaves
/// it.
pub open spec fn spec_strip_md(s: Seq<char>) -> Seq<char>
    decreases s.len(),
{
    if spec_ends_with_md(s) {
        spec_strip_md(s.subrange(0, s.len() - 3))
    } else {
        s
    }
}

/// The name with at most one trailing `.md` removed.
pub open spec fn spec_strip_one_md(s: Seq<char>) -> Seq<char> {
    if spec_ends_with_md(s) {
        s.subrange(0, s.len() - 3)
    } else {
        s
    }
}

/// Whether `s` ends in `.md`.
pub fn ends_with_md(s: &str) -> (r: bool)
    ensures
        r == spec_ends_with_md(s@),
{
    let n = s.unicode_len();
    if n < 3 {
        return false;
    }
    let a = s.get_char(n - 3);
    let b = s.get_char(n - 2);
    let c = s.get_char(n - 1);
    a == '.' && b == 'm' && c == 'd'
}

/// Removes every trailing `.md` from a name; the remainder is the node's
/// metadata identifier.
pub fn strip_md_suffix(s: &str) -> (r: String)
    ensures
        r@ == spec_strip_md(s@),
    decreases s@.len(),
{
    if ends_with_md(s) {
        let n = s.unicode_len();
        let head = s.substring_char(0, n - 3);
        strip_md_suffix(head)
    } else {
        s.to_owned()
    }
}

/// Removes at most one trailing `.md` from a name, as the display-name
/// fields in the metadata map want it.
pub fn strip_one_md_suffix(s: &str) -> (r: String)
    ensures
        r@ == spec_strip_one_md(s@),
{
    if ends_with_md(s) {
        let n = s.unicode_len();
        let head = s.substring_char(0, n - 3);
        head.to_owned()
    } else {
        s.to_owned()
    }
}

/// The decimal digit character for a value below ten.
pub open spec fn spec_digit_char(d: nat) -> char
    recommends
        d < 10,
{
    ((d + 48) as u8) as char
}

/// The decimal rendering of a number, most significant digit first, no
/// sign and no leading zeros (zero itself renders as one digit).
pub open spec fn spec_u64_string(n: nat) -> Seq<char>
    decreases n,
{
    if n < 10 {
        seq![spec_digit_char(n)]
    } else {
        spec_u64_string(n / 10).push(spec_digit_char(n % 10))
    }
}

fn digit_str(d: u64) -> (r: &'static str)
    requires
        d < 10,
    ensures
        r@ == seq![spec_digit_char(d as nat)],
{
    proof {
        reveal_strlit("0");
        reveal_strlit("1");
        reveal_strlit("2");
        reveal_strlit("3");
        reveal_strlit("4");
        reveal_strlit("5");
        reveal_strlit("6");
        reveal_strlit("7");
        reveal_strlit("8");
        reveal_strlit("9");
    }
    let r = if d == 0 {
        "0"
    } else if d == 1 {
        "1"
    } else if d == 2 {
        "2"
    } else if d == 3 {
        "3"
    } else if d == 4 {
        "4"
    } else if d == 5 {
        "5"
    } else if d == 6 {
        "6"
    } else if d == 7 {
        "7"
    } else {
        if d == 8 {
            "8"
        } else {
            "9"
        }
    };
    proof {
        assert(r@ =~= seq![spec_digit_char(d as nat)]);
    }
    r
}

/// Renders a counter in decimal for the string metadata map.
pub fn u64_to_string(n: u64) -> (r: String)
    ensures
        r@ == spec_u64_string(n as nat),
    decreases n,
{
    if n < 10 {
        digit_str(n).to_owned()
    } else {
        let head = u64_to_string(n / 10);
        let r = head.concat(digit_str(n % 10));
        proof {
            assert(r@ =~= spec_u64_string(n as nat));
        }
        r
    }
}

/// The string with every leading occurrence of the character removed.
pub open spec fn spec_drop_first_while(s: Seq<char>, c: char) -> Seq<char>
    decreases s.len(),
{
    if s.len() > 0 && s[0] == c {
        spec_drop_first_while(s.subrange(1, s.len() as int), c)
    } else {
        s
    }
}

/// The string with every trailing occurrence of the character removed.
pub open spec fn spec_drop_last_while(s: Seq<char>, c: char) -> Seq<char>
    decreases s.len(),
{
    if s.len() > 0 && s[s.len() - 1] == c {
        spec_drop_last_while(s.subrange(0, s.len() - 1), c)
    } else {
        s
    }
}

/// The string with every leading `0x` removed.
pub open spec fn spec_drop_0x(s: Seq<char>) -> Seq<char>
    decreases s.len(),
{
    if s.len() >= 2 && s[0] == '0' && s[1] == 'x' {
        spec_drop_0x(s.subrange(2, s.len() as int))
    } else {
        s
    }
}

/// Whether the string opens an `rgba(...)` form.
pub open spec fn spec_starts_with_rgba(s: Seq<char>) -> bool {
    s.len() >= 5 && s[0] == 'r' && s[1] == 'g' && s[2] == 'b' && s[3] == 'a' && s[4] == '('
}

/// A color normalized for the client: quotes and `0x` or `#` prefixes
/// removed, `rgba(...)` passed through, anything else given a `#`.
pub open spec fn spec_format_color(s: Seq<char>) -> Seq<char> {
    let t = spec_drop_first_while(
        spec_drop_0x(spec_drop_last_while(spec_drop_first_while(s, '"'), '"')),
        '#',
    );
    if spec_starts_with_rgba(t) {
        t
    } else {
        seq!['#'] + t
    }
}

fn drop_first_while(s: &str, c: char) -> (r: String)
    ensures
        r@ == spec_drop_first_while(s@, c),
    decreases s@.len(),
{
    let n = s.unicode_len();
    if n > 0 && s.get_char(0) == c {
        let rest = s.substring_char(1, n);
        drop_first_while(rest, c)
    } else {
        s.to_owned()
    }
}

fn drop_last_while(s: &str, c: char) -> (r: String)
    ensures
        r@ == spec_drop_last_while(s@, c),
    decreases s@.len(),
{
    let n = s.unicode_len();
    if n > 0 && s.get_char(n - 1) == c {
        let rest = s.substring_char(0, n - 1);
        drop_last_while(rest, c)
    } else {
        s.to_owned()
    }
}

fn drop_0x(s: &str) -> (r: String)
    ensures
        r@ == spec_drop_0x(s@),
    decreases s@.len(),
{
    let n = s.unicode_len();
    if n >= 2 && s.get_char(0) == '0' && s.get_char(1) == 'x' {
        let rest = s.substring_char(2, n);
        drop_0x(rest)
    } else {
        s.to_owned()
    }
}

fn starts_with_rgba(s: &str) -> (r: bool)
    ensures
        r == spec_starts_with_rgba(s@),
{
    let n = s.unicode_len();
    if n < 5 {
        return false;
    }
    s.get_char(0) == 'r' && s.get_char(1) == 'g' && s.get_char(2) == 'b' && s.get_char(3) == 'a'
        && s.get_char(4) == '('
}

/// Normalizes a color string to what the client renders: strips quotes
/// and a `0x` or `#` prefix, keeps an `rgba(...)` form as it is, and
/// prefixes everything else with `#`.
pub fn format_color(color: &str) -> (r: String)
    ensures
        r@ == spec_format_color(color@),
{
    let t1 = drop_first_while(color, '"');
    let t2 = drop_last_while(t1.as_str(), '"');
    let t3 = drop_0x(t2.as_str());
    let t4 = drop_first_while(t3.as_str(), '#');
    if starts_with_rgba(t4.as_str()) {
        t4
    } else {
        let mut out: String = "#".to_owned();
        out.append(t4.as_str());
        proof {
            reveal_strlit("#");
            assert("#"@ =~= seq!['#']);
            assert(out@ =~= spec_format_color(color@));
        }
        out
    }
}

} // verus!
