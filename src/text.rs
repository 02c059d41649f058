use vstd::prelude::*;

verus! {

/// A character of Unicode's `White_Space` property, the whitespace that `str::trim` removes.
pub open spec fn is_white_space(c: char) -> bool {
    let u = c as u32;
    ||| 0x9 <= u <= 0xd
    ||| u == 0x20
    ||| u == 0x85
    ||| u == 0xa0
    ||| u == 0x1680
    ||| 0x2000 <= u <= 0x200a
    ||| u == 0x2028
    ||| u == 0x2029
    ||| u == 0x202f
    ||| u == 0x205f
    ||| u == 0x3000
}

/// The first position at or after `i` that does not hold whitespace (or the end).
pub open spec fn skip_white_from(s: Seq<char>, i: int) -> int
    decreases s.len() - i,
{
    if i < 0 || i >= s.len() || !is_white_space(s[i]) {
        i
    } else {
        skip_white_from(s, i + 1)
    }
}

/// The position just after the last character before `j`, and at or after `lo`, that does
/// not hold whitespace (or `lo`).
pub open spec fn skip_white_back(s: Seq<char>, j: int, lo: int) -> int
    decreases j - lo,
{
    if j <= lo || !is_white_space(s[j - 1]) {
        j
    } else {
        skip_white_back(s, j - 1, lo)
    }
}

/// `s` with leading and trailing whitespace removed.
pub open spec fn trimmed(s: Seq<char>) -> Seq<char> {
    let a = skip_white_from(s, 0);
    s.subrange(a, skip_white_back(s, s.len() as int, a))
}

fn is_white_space_char(c: char) -> (r: bool)
    ensures
        r == is_white_space(c),
{
    let u = c as u32;
    (0x9 <= u && u <= 0xd) || u == 0x20 || u == 0x85 || u == 0xa0 || u == 0x1680 || (0x2000 <= u
        && u <= 0x200a) || u == 0x2028 || u == 0x2029 || u == 0x202f || u == 0x205f || u == 0x3000
}

/// `s` with leading and trailing whitespace removed (see `trimmed`), as `str::trim` does.
pub fn trim(s: &str) -> (r: String)
    ensures
        r@ == trimmed(s@),
{
    let len = s.unicode_len();
    let mut a: usize = 0;
    while a < len && is_white_space_char(s.get_char(a))
        invariant
            a <= len == s@.len(),
            skip_white_from(s@, 0) == skip_white_from(s@, a as int),
        decreases len - a,
    {
        a = a + 1;
    }
    let mut b: usize = len;
    while b > a && is_white_space_char(s.get_char(b - 1))
        invariant
            a <= b <= len == s@.len(),
            a == skip_white_from(s@, 0),
            skip_white_back(s@, len as int, a as int) == skip_white_back(s@, b as int, a as int),
        decreases b - a,
    {
        b = b - 1;
    }
    String::from_str(s.substring_char(a, b))
}

/// Relies on `String::push`, which appends one character.
#[verifier::external_body]
pub(crate) fn push_char(s: &mut String, c: char)
    ensures
        final(s)@ == old(s)@.push(c),
{
    s.push(c);
}

pub open spec fn is_digit(c: char) -> bool {
    '0' <= c && c <= '9'
}

pub open spec fn digit_value(c: char) -> int {
    (c as u32) as int - ('0' as u32) as int
}

/// The number that a run of decimal digits spells.
pub open spec fn digits_value(d: Seq<char>) -> int
    decreases d.len(),
{
    if d.len() == 0 {
        0
    } else {
        digits_value(d.drop_last()) * 10 + digit_value(d.last())
    }
}

pub open spec fn all_digits(d: Seq<char>) -> bool {
    forall|i: int| 0 <= i < d.len() ==> is_digit(#[trigger] d[i])
}

/// The digits of a count: the text with one leading `+` taken off.
pub open spec fn unsigned_part(s: Seq<char>) -> Seq<char> {
    if s.len() > 0 && s[0] == '+' {
        s.drop_first()
    } else {
        s
    }
}

pub const MAX_COUNT: u32 = 0x7fff_ffff;

/// A response count written in decimal: an optional `+`, then at least one digit, with a
/// value that fits a signed 32-bit column.
pub open spec fn count_value(s: Seq<char>) -> Option<u32> {
    let d = unsigned_part(s);
    if d.len() > 0 && all_digits(d) && digits_value(d) <= MAX_COUNT {
        Some(digits_value(d) as u32)
    } else {
        None
    }
}

proof fn lemma_digits_value_nonneg(d: Seq<char>, i: int)
    requires
        0 <= i <= d.len(),
        all_digits(d),
    ensures
        0 <= digits_value(d.subrange(0, i)),
    decreases i,
{
    if i > 0 {
        lemma_digits_value_nonneg(d, i - 1);
        assert(d.subrange(0, i).drop_last() =~= d.subrange(0, i - 1));
        assert(is_digit(d[i - 1]));
    }
}

proof fn lemma_digits_value_grows(d: Seq<char>, i: int, j: int)
    requires
        0 <= i <= j <= d.len(),
        all_digits(d),
    ensures
        digits_value(d.subrange(0, i)) <= digits_value(d.subrange(0, j)),
    decreases j,
{
    if i < j {
        lemma_digits_value_grows(d, i, j - 1);
        lemma_digits_value_nonneg(d, j - 1);
        assert(d.subrange(0, j).drop_last() =~= d.subrange(0, j - 1));
        assert(is_digit(d[j - 1]));
    }
}

/// The value of a run of decimal digits when it is non-empty, all digits, and at most
/// `limit`.
pub open spec fn bounded_digits(d: Seq<char>, limit: int) -> Option<u64> {
    if d.len() > 0 && all_digits(d) && digits_value(d) <= limit {
        Some(digits_value(d) as u64)
    } else {
        None
    }
}

proof fn lemma_bounded_digits(d: Seq<char>, limit: int)
    requires
        0 <= limit <= 0x8000_0000,
    ensures
        bounded_digits(d, limit) matches Some(v) ==> v as int == digits_value(d) && v <= limit,
{
    if d.len() > 0 && all_digits(d) {
        lemma_digits_value_nonneg(d, d.len() as int);
        assert(d.subrange(0, d.len() as int) =~= d);
    }
}

/// Reads the digits of `s` from position `start` to the end (see `bounded_digits`).
fn read_digits(s: &str, start: usize, limit: u64) -> (r: Option<u64>)
    requires
        start <= s@.len(),
        limit <= 0x8000_0000,
    ensures
        r == bounded_digits(s@.subrange(start as int, s@.len() as int), limit as int),
{
    let len = s.unicode_len();
    let ghost d = s@.subrange(start as int, len as int);
    if start == len {
        return None;
    }
    let mut v: u64 = 0;
    let mut i: usize = start;
    while i < len
        invariant
            start <= i <= len,
            len == s@.len(),
            limit <= 0x8000_0000,
            d == s@.subrange(start as int, len as int),
            all_digits(d.subrange(0, i - start)),
            v as int == digits_value(d.subrange(0, i - start)),
            v <= limit,
        decreases len - i,
    {
        let c = s.get_char(i);
        if !('0' <= c && c <= '9') {
            proof {
                assert(d[i - start] == c);
                assert(!is_digit(d[i - start]));
            }
            return None;
        }
        let ghost p = d.subrange(0, i + 1 - start);
        proof {
            assert(p.drop_last() =~= d.subrange(0, i - start));
            assert(p.last() == c);
            assert(all_digits(p)) by {
                assert forall|k: int| 0 <= k < p.len() implies is_digit(#[trigger] p[k]) by {
                    if k < p.len() - 1 {
                        assert(p[k] == d.subrange(0, i - start)[k]);
                    }
                }
            }
        }
        let dv = (c as u32 - '0' as u32) as u64;
        v = v * 10 + dv;
        if v > limit {
            proof {
                if all_digits(d) {
                    lemma_digits_value_grows(d, i + 1 - start, len - start);
                    assert(d.subrange(0, len - start) =~= d);
                }
            }
            return None;
        }
        i = i + 1;
    }
    proof {
        assert(d.subrange(0, len - start) =~= d);
    }
    Some(v)
}

/// Reads a response count (see `count_value`).
pub fn parse_count(s: &str) -> (r: Option<u32>)
    ensures
        r == count_value(s@),
{
    let len = s.unicode_len();
    let mut start: usize = 0;
    if len > 0 && s.get_char(0) == '+' {
        start = 1;
    }
    let ghost d = unsigned_part(s@);
    assert(d =~= s@.subrange(start as int, len as int));
    proof {
        if d.len() > 0 && all_digits(d) {
            lemma_digits_value_nonneg(d, d.len() as int);
            assert(d.subrange(0, d.len() as int) =~= d);
        }
    }
    match read_digits(s, start, MAX_COUNT as u64) {
        Some(v) => Some(v as u32),
        None => None,
    }
}

/// A signed 32-bit integer written in decimal: an optional `-` or `+`, then at least one
/// digit, with a value in the range of `i32`.
pub open spec fn int_value(s: Seq<char>) -> Option<i32> {
    if s.len() > 0 && s[0] == '-' {
        match bounded_digits(s.drop_first(), 0x8000_0000) {
            Some(v) => Some((-(v as int)) as i32),
            None => None,
        }
    } else {
        match bounded_digits(unsigned_part(s), MAX_COUNT as int) {
            Some(v) => Some(v as i32),
            None => None,
        }
    }
}

/// Reads a signed 32-bit integer (see `int_value`).
pub fn parse_int(s: &str) -> (r: Option<i32>)
    ensures
        r == int_value(s@),
{
    let len = s.unicode_len();
    let negative = len > 0 && s.get_char(0) == '-';
    let plus = len > 0 && s.get_char(0) == '+';
    let start: usize = if negative || plus { 1 } else { 0 };
    proof {
        if negative {
            assert(s@.drop_first() =~= s@.subrange(1, len as int));
        } else {
            assert(unsigned_part(s@) =~= s@.subrange(start as int, len as int));
        }
    }
    let limit: u64 = if negative { 0x8000_0000 } else { MAX_COUNT as u64 };
    proof {
        lemma_bounded_digits(s@.subrange(start as int, len as int), limit as int);
    }
    match read_digits(s, start, limit) {
        Some(v) => {
            if negative {
                if v == 0x8000_0000 {
                    Some(i32::MIN)
                } else {
                    Some(-(v as i32))
                }
            } else {
                Some(v as i32)
            }
        },
        None => None,
    }
}

/// The views of a list of strings.
pub open spec fn views(v: Seq<String>) -> Seq<Seq<char>> {
    v.map_values(|t: String| t@)
}

/// Index of the last `c` among the first `n` characters of `s`.
pub open spec fn last_index_before(s: Seq<char>, c: char, n: int) -> Option<int>
    decreases n,
{
    if n <= 0 {
        None
    } else if s[n - 1] == c {
        Some(n - 1)
    } else {
        last_index_before(s, c, n - 1)
    }
}

/// Index of the first occurrence of the two characters `a`, `b` at or after `i`.
pub open spec fn first_pair_from(s: Seq<char>, a: char, b: char, i: int) -> Option<int>
    decreases s.len() - i,
{
    if i < 0 || i + 1 >= s.len() {
        None
    } else if s[i] == a && s[i + 1] == b {
        Some(i)
    } else {
        first_pair_from(s, a, b, i + 1)
    }
}

/// Index of the first `c` at or after `i`.
pub open spec fn first_index_from(s: Seq<char>, c: char, i: int) -> Option<int>
    decreases s.len() - i,
{
    if i < 0 || i >= s.len() {
        None
    } else if s[i] == c {
        Some(i)
    } else {
        first_index_from(s, c, i + 1)
    }
}

/// The instructor named in a title line: the text that precedes the second comma from the
/// right, trimmed.
pub open spec fn instructor_of(s: Seq<char>) -> Option<Seq<char>> {
    match last_index_before(s, ',', s.len() as int) {
        None => None,
        Some(k) => match last_index_before(s, ',', k) {
            None => None,
            Some(j) => Some(trimmed(s.subrange(0, j))),
        },
    }
}

/// A term line split at its first comma: the trimmed term name and the rest.
pub open spec fn term_split_of(s: Seq<char>) -> Option<(Seq<char>, Seq<char>)> {
    match first_index_from(s, ',', 0) {
        None => None,
        Some(j) => Some((trimmed(s.subrange(0, j)), s.subrange(j + 1, s.len() as int))),
    }
}

/// The count in a `label: count` line.
pub open spec fn stat_value(s: Seq<char>) -> Option<u32> {
    match first_pair_from(s, ':', ' ', 0) {
        None => None,
        Some(j) => count_value(trimmed(s.subrange(j + 2, s.len() as int))),
    }
}

/// The counts of the lines that are `label: count` lines, in order.
pub open spec fn stat_values(lines: Seq<Seq<char>>) -> Seq<u32>
    decreases lines.len(),
{
    if lines.len() == 0 {
        Seq::empty()
    } else {
        let p = stat_values(lines.drop_last());
        match stat_value(lines.last()) {
            Some(v) => p.push(v),
            None => p,
        }
    }
}

proof fn lemma_last_index_before(s: Seq<char>, c: char, n: int)
    requires
        0 <= n <= s.len(),
    ensures
        last_index_before(s, c, n) matches Some(k) ==> 0 <= k < n && s[k] == c,
    decreases n,
{
    if n > 0 {
        lemma_last_index_before(s, c, n - 1);
    }
}

/// Finds the last `c` among the first `n` characters.
fn find_last_before(s: &str, c: char, n: usize) -> (r: Option<usize>)
    requires
        n <= s@.len(),
    ensures
        r matches Some(k) ==> last_index_before(s@, c, n as int) == Some(k as int),
        r is None ==> last_index_before(s@, c, n as int) is None,
{
    let mut i: usize = n;
    while i > 0
        invariant
            i <= n <= s@.len(),
            last_index_before(s@, c, n as int) == last_index_before(s@, c, i as int),
        decreases i,
    {
        if s.get_char(i - 1) == c {
            return Some(i - 1);
        }
        i = i - 1;
    }
    None
}

/// Finds the first `c` at or after `from`.
fn find_first_from(s: &str, c: char, from: usize) -> (r: Option<usize>)
    requires
        from <= s@.len(),
    ensures
        r matches Some(k) ==> first_index_from(s@, c, from as int) == Some(k as int),
        r is None ==> first_index_from(s@, c, from as int) is None,
{
    let len = s.unicode_len();
    let mut i: usize = from;
    while i < len
        invariant
            from <= i <= len == s@.len(),
            first_index_from(s@, c, from as int) == first_index_from(s@, c, i as int),
        decreases len - i,
    {
        if s.get_char(i) == c {
            return Some(i);
        }
        i = i + 1;
    }
    None
}

/// Finds the first occurrence of `a` directly followed by `b`.
fn find_pair(s: &str, a: char, b: char) -> (r: Option<usize>)
    ensures
        r matches Some(k) ==> first_pair_from(s@, a, b, 0) == Some(k as int),
        r is None ==> first_pair_from(s@, a, b, 0) is None,
{
    let len = s.unicode_len();
    let mut i: usize = 0;
    while i < len && i + 1 < len
        invariant
            i <= len == s@.len(),
            first_pair_from(s@, a, b, 0) == first_pair_from(s@, a, b, i as int),
        decreases len - i,
    {
        if s.get_char(i) == a && s.get_char(i + 1) == b {
            return Some(i);
        }
        i = i + 1;
    }
    None
}

/// Reads the instructor's name from the first line of a report title (see `instructor_of`).
pub fn parse_instructor(line: &str) -> (r: Option<String>)
    ensures
        match instructor_of(line@) {
            Some(n) => r is Some && r->Some_0@ == n,
            None => r is None,
        },
{
    let len = line.unicode_len();
    let k = match find_last_before(line, ',', len) {
        Some(k) => k,
        None => return None,
    };
    proof {
        lemma_last_index_before(line@, ',', len as int);
    }
    let j = match find_last_before(line, ',', k) {
        Some(j) => j,
        None => return None,
    };
    proof {
        lemma_last_index_before(line@, ',', k as int);
    }
    let head = line.substring_char(0, j);
    Some(trim(head))
}

/// Splits the second line of a report title into the term name and the section part
/// (see `term_split_of`).
pub fn split_term(line: &str) -> (r: Option<(String, String)>)
    ensures
        match term_split_of(line@) {
            Some(p) => r is Some && r->Some_0.0@ == p.0 && r->Some_0.1@ == p.1,
            None => r is None,
        },
{
    let len = line.unicode_len();
    let j = match find_first_from(line, ',', 0) {
        Some(j) => j,
        None => return None,
    };
    proof {
        lemma_first_index_from(line@, ',', 0);
    }
    let term = trim(line.substring_char(0, j));
    let rest = String::from_str(line.substring_char(j + 1, len));
    Some((term, rest))
}

proof fn lemma_first_index_from(s: Seq<char>, c: char, i: int)
    requires
        0 <= i,
    ensures
        first_index_from(s, c, i) matches Some(k) ==> i <= k < s.len() && s[k] == c,
    decreases s.len() - i,
{
    if i < s.len() {
        lemma_first_index_from(s, c, i + 1);
    }
}

proof fn lemma_first_pair_from(s: Seq<char>, a: char, b: char, i: int)
    requires
        0 <= i,
    ensures
        first_pair_from(s, a, b, i) matches Some(k) ==> i <= k && k + 1 < s.len(),
    decreases s.len() - i,
{
    if i + 1 < s.len() {
        lemma_first_pair_from(s, a, b, i + 1);
    }
}

/// Reads the count of a `label: count` line (see `stat_value`).
pub fn parse_stat(line: &str) -> (r: Option<u32>)
    ensures
        r == stat_value(line@),
{
    let len = line.unicode_len();
    let j = match find_pair(line, ':', ' ') {
        Some(j) => j,
        None => return None,
    };
    proof {
        lemma_first_pair_from(line@, ':', ' ', 0);
    }
    let value = trim(line.substring_char(j + 2, len));
    parse_count(value.as_str())
}

/// The counts of all `label: count` lines among `lines`, in order.
pub fn parse_stats(lines: &Vec<String>) -> (r: Vec<u32>)
    ensures
        r@ == stat_values(views(lines@)),
{
    let mut out: Vec<u32> = Vec::new();
    let mut i: usize = 0;
    while i < lines.len()
        invariant
            i <= lines@.len(),
            out@ == stat_values(views(lines@).subrange(0, i as int)),
        decreases lines@.len() - i,
    {
        let ghost pre = views(lines@).subrange(0, i as int);
        let ghost next = views(lines@).subrange(0, i + 1);
        proof {
            assert(next.drop_last() =~= pre);
            assert(next.last() == lines@[i as int]@);
        }
        match parse_stat(lines[i].as_str()) {
            Some(v) => out.push(v),
            None => {},
        }
        i = i + 1;
    }
    proof {
        assert(views(lines@).subrange(0, lines@.len() as int) =~= views(lines@));
    }
    out
}

} // verus!
