use vstd::prelude::*;
use vstd::slice::slice_subrange;
use vstd::slice::slice_to_vec;

verus! {

/// ASCII decimal digit.
pub open spec fn is_digit(b: u8) -> bool {
    0x30 <= b <= 0x39
}

/// Every byte of `s` is a decimal digit.
pub open spec fn all_digits(s: Seq<u8>) -> bool {
    forall|i: int| 0 <= i < s.len() ==> is_digit(s[i])
}

/// The number a run of decimal digits denotes, most significant first.
pub open spec fn digits_value(s: Seq<u8>) -> int
    decreases s.len(),
{
    if s.len() == 0 {
        0
    } else {
        digits_value(s.drop_last()) * 10 + (s.last() - 0x30)
    }
}

/// The digit run of a decimal literal: everything after a leading sign.
pub open spec fn int_body(s: Seq<u8>) -> Seq<u8> {
    if s.len() > 0 && (s[0] == 0x2b || s[0] == 0x2d) {
        s.skip(1)
    } else {
        s
    }
}

/// A well-formed decimal integer literal: an optional sign followed by one
/// or more digits and nothing else.
pub open spec fn is_int_literal(s: Seq<u8>) -> bool {
    int_body(s).len() > 0 && all_digits(int_body(s))
}

/// The mathematical value of a decimal integer literal.
pub open spec fn int_literal_value(s: Seq<u8>) -> int {
    if s.len() > 0 && s[0] == 0x2d {
        -digits_value(int_body(s))
    } else {
        digits_value(int_body(s))
    }
}

/// A run of digits denotes a non-negative number.
pub proof fn lemma_digits_value_nonneg(s: Seq<u8>)
    requires
        all_digits(s),
    ensures
        digits_value(s) >= 0,
    decreases s.len(),
{
    if s.len() > 0 {
        lemma_digits_value_nonneg(s.drop_last());
    }
}

/// Parses a decimal integer the way the numeric fields of the query outputs
/// are read: an optional `+` or `-` sign, then only digits; anything else,
/// an empty digit run, or a value outside the 32-bit range yields nothing.
pub fn parse_i32(s: &[u8]) -> (r: Option<i32>)
    ensures
        r is Some <==> is_int_literal(s@) && i32::MIN <= int_literal_value(s@) <= i32::MAX,
        r matches Some(v) ==> v == int_literal_value(s@),
{
    let n = s.len();
    if n == 0 {
        return None;
    }
    let mut start: usize = 0;
    let mut neg: bool = false;
    let c0 = s[0];
    if c0 == 0x2b {
        start = 1;
    } else if c0 == 0x2d {
        neg = true;
        start = 1;
    }
    if start == n {
        // a bare sign has an empty digit run
        return None;
    }
    let ghost body = int_body(s@);
    proof {
        assert(body =~= s@.subrange(start as int, n as int));
    }
    let mut i: usize = start;
    let mut acc: i64 = 0;
    let mut over: bool = false;
    while i < n
        invariant
            start <= i <= n,
            n == s@.len(),
            body == int_body(s@),
            body == s@.subrange(start as int, n as int),
            neg == (s@[0] == 0x2d),
            all_digits(s@.subrange(start as int, i as int)),
            !over ==> acc == digits_value(s@.subrange(start as int, i as int)) && 0 <= acc
                <= 0x8000_0000i64,
            over ==> digits_value(s@.subrange(start as int, i as int)) > 0x8000_0000,
        decreases n - i,
    {
        let c = s[i];
        if c < 0x30 || c > 0x39 {
            proof {
                assert(body[i - start] == s@[i as int]);
                assert(!all_digits(body)) by {
                    if all_digits(body) {
                        assert(is_digit(body[i - start]));
                    }
                };
            }
            return None;
        }
        let ghost prefix = s@.subrange(start as int, i as int);
        let ghost prefix2 = s@.subrange(start as int, i as int + 1);
        proof {
            assert(prefix2.drop_last() =~= prefix);
            assert(digits_value(prefix2) == digits_value(prefix) * 10 + (c - 0x30));
        }
        if !over {
            acc = acc * 10 + ((c - 0x30) as i64);
            if acc > 0x8000_0000i64 {
                over = true;
            }
        } else {
            proof {
                lemma_digits_value_nonneg(prefix);
                assert(digits_value(prefix) * 10 >= digits_value(prefix)) by (nonlinear_arith)
                    requires
                        digits_value(prefix) >= 0,
                ;
            }
        }
        i += 1;
    }
    proof {
        assert(s@.subrange(start as int, n as int) =~= body);
    }
    if over {
        // more than 32 bits in either direction
        proof {
            lemma_digits_value_nonneg(body);
        }
        return None;
    }
    if neg {
        proof {
            lemma_digits_value_nonneg(body);
        }
        Some((-acc) as i32)
    } else {
        if acc > 0x7fff_ffffi64 {
            return None;
        }
        Some(acc as i32)
    }
}

/// The number a byte string stands for, or `default` where it is not a
/// decimal literal of the 32-bit range.
pub open spec fn spec_parse_i32_or(s: Seq<u8>, default: int) -> int {
    if is_int_literal(s) && i32::MIN <= int_literal_value(s) <= i32::MAX {
        int_literal_value(s)
    } else {
        default
    }
}

/// Parses a decimal integer, falling back to `default`, the guard every
/// numeric field read from a query output carries.
pub fn parse_i32_or(s: &[u8], default: i32) -> (r: i32)
    ensures
        r == spec_parse_i32_or(s@, default as int),
{
    match parse_i32(s) {
        Some(v) => v,
        None => default,
    }
}

/// `needle` occurs in `hay` starting at index `i`.
pub open spec fn match_at(hay: Seq<u8>, needle: Seq<u8>, i: int) -> bool {
    0 <= i && i + needle.len() <= hay.len() && hay.subrange(i, i + needle.len()) == needle
}

/// `needle` occurs somewhere in `hay`.
pub open spec fn contains_seq(hay: Seq<u8>, needle: Seq<u8>) -> bool {
    exists|i: int| match_at(hay, needle, i)
}

/// Whether `needle` stands in `hay` at exactly the offset `i`.
fn matches_at(hay: &[u8], needle: &[u8], i: usize) -> (b: bool)
    requires
        i + needle@.len() <= hay@.len(),
    ensures
        b == match_at(hay@, needle@, i as int),
{
    let nl = needle.len();
    let hl = hay.len();
    let mut j: usize = 0;
    while j < nl
        invariant
            i + nl <= hl,
            nl == needle@.len(),
            hl == hay@.len(),
            j <= nl,
            forall|k: int| 0 <= k < j ==> hay@[i + k] == needle@[k],
        decreases nl - j,
    {
        if hay[i + j] != needle[j] {
            proof {
                assert(!match_at(hay@, needle@, i as int)) by {
                    if match_at(hay@, needle@, i as int) {
                        assert(hay@.subrange(i as int, i + nl)[j as int] == needle@[j as int]);
                    }
                };
            }
            return false;
        }
        j += 1;
    }
    proof {
        assert(hay@.subrange(i as int, i + nl) =~= needle@);
    }
    true
}

/// Byte-level substring search, the test the marker lines are found with.
pub fn contains_subslice(hay: &[u8], needle: &[u8]) -> (b: bool)
    ensures
        b == contains_seq(hay@, needle@),
{
    let nl = needle.len();
    let hl = hay.len();
    if nl == 0 {
        proof {
            assert(hay@.subrange(0, 0) =~= needle@);
            assert(match_at(hay@, needle@, 0));
        }
        return true;
    }
    if nl > hl {
        return false;
    }
    let bound = hl - nl + 1;
    let mut i: usize = 0;
    while i < bound
        invariant
            1 <= nl <= hl,
            nl == needle@.len(),
            hl == hay@.len(),
            bound == hl - nl + 1,
            i <= bound,
            forall|k: int| 0 <= k < i ==> !match_at(hay@, needle@, k),
        decreases bound - i,
    {
        if matches_at(hay, needle, i) {
            return true;
        }
        i += 1;
    }
    proof {
        assert forall|k: int| !match_at(hay@, needle@, k) by {
            if 0 <= k < i as int {
            }
        };
    }
    false
}

/// Index of the first occurrence of `b` in `s`, or the length when absent.
pub open spec fn first_at(s: Seq<u8>, b: u8) -> nat
    decreases s.len(),
{
    if s.len() == 0 {
        0
    } else if s[0] == b {
        0
    } else {
        1 + first_at(s.skip(1), b)
    }
}

/// Pins `first_at` down from the facts a left-to-right scan establishes.
pub proof fn lemma_first_at_is(s: Seq<u8>, b: u8, m: int)
    requires
        0 <= m <= s.len(),
        forall|j: int| 0 <= j < m ==> s[j] != b,
        m < s.len() ==> s[m] == b,
    ensures
        first_at(s, b) == m,
    decreases m,
{
    if m > 0 {
        assert(forall|j: int| 0 <= j < m - 1 ==> #[trigger] s.skip(1)[j] == s[j + 1]);
        lemma_first_at_is(s.skip(1), b, m - 1);
    }
}

/// The lines of a byte text: maximal runs between line-feed bytes, the
/// terminator itself dropped, with no empty line after a trailing
/// terminator. The outputs this crate reads are line-feed separated.
pub open spec fn lines_of(s: Seq<u8>) -> Seq<Seq<u8>>
    decreases s.len(),
{
    if s.len() == 0 {
        Seq::empty()
    } else {
        let i = first_at(s, 0x0a) as int;
        if i < s.len() {
            seq![s.take(i)] + lines_of(s.skip(i + 1))
        } else {
            seq![s]
        }
    }
}

/// First position of byte `b` in `s` at or after `from`, or the length.
fn find_from(s: &[u8], from: usize, b: u8) -> (r: usize)
    requires
        from <= s@.len(),
    ensures
        from <= r <= s@.len(),
        forall|j: int| from <= j < r ==> s@[j] != b,
        r < s@.len() ==> s@[r as int] == b,
{
    let n = s.len();
    let mut k = from;
    while k < n
        invariant
            from <= k <= n,
            n == s@.len(),
            forall|j: int| from <= j < k ==> s@[j] != b,
        decreases n - k,
    {
        if s[k] == b {
            return k;
        }
        k += 1;
    }
    k
}

/// Splits a byte text into its lines, as `lines_of` describes them.
pub fn split_lines(s: &[u8]) -> (r: Vec<Vec<u8>>)
    ensures
        r@.len() == lines_of(s@).len(),
        forall|i: int| 0 <= i < r@.len() ==> #[trigger] r@[i]@ == lines_of(s@)[i],
{
    let n = s.len();
    let mut out: Vec<Vec<u8>> = Vec::new();
    let ghost mut done: Seq<Seq<u8>> = Seq::empty();
    let mut pos: usize = 0;
    proof {
        assert(s@.skip(0) =~= s@);
        assert(done + lines_of(s@) =~= lines_of(s@));
    }
    while pos < n
        invariant
            pos <= n,
            n == s@.len(),
            out@.len() == done.len(),
            forall|i: int| 0 <= i < done.len() ==> #[trigger] out@[i]@ == done[i],
            lines_of(s@) == done + lines_of(s@.skip(pos as int)),
        decreases n - pos,
    {
        let ghost p0 = pos as int;
        let ghost d0 = done;
        let j = find_from(s, pos, 0x0a);
        let line = slice_to_vec(slice_subrange(s, pos, j));
        let ghost rest = s@.skip(p0);
        proof {
            assert(forall|k: int| 0 <= k < rest.len() ==> #[trigger] rest[k] == s@[p0 + k]);
            lemma_first_at_is(rest, 0x0a, j - p0);
            assert(rest.take(j - p0) =~= s@.subrange(p0, j as int));
        }
        out.push(line);
        proof {
            done = done.push(line@);
        }
        if j < n {
            pos = j + 1;
            proof {
                assert(rest.skip(j - p0 + 1) =~= s@.skip(j + 1));
                assert(lines_of(rest) == seq![line@] + lines_of(s@.skip(j + 1)));
                assert(d0 + lines_of(rest) =~= done + lines_of(s@.skip(pos as int)));
            }
        } else {
            pos = n;
            proof {
                assert(rest =~= s@.subrange(p0, n as int));
                assert(lines_of(rest) == seq![line@]);
                assert(s@.skip(n as int) =~= Seq::<u8>::empty());
                assert(d0 + lines_of(rest) =~= done + lines_of(s@.skip(pos as int)));
            }
        }
    }
    proof {
        assert(s@.skip(n as int) =~= Seq::<u8>::empty());
        assert(done + lines_of(s@.skip(pos as int)) =~= done);
    }
    out
}

/// ASCII whitespace, the token separators of the outputs this crate reads.
pub open spec fn is_space(b: u8) -> bool {
    b == 0x20 || b == 0x09 || b == 0x0a || b == 0x0b || b == 0x0c || b == 0x0d
}

/// Index of the first whitespace byte of `s`, or the length when absent.
pub open spec fn first_space(s: Seq<u8>) -> nat
    decreases s.len(),
{
    if s.len() == 0 {
        0
    } else if is_space(s[0]) {
        0
    } else {
        1 + first_space(s.skip(1))
    }
}

/// Pins `first_space` down from the facts a left-to-right scan establishes.
pub proof fn lemma_first_space_is(s: Seq<u8>, m: int)
    requires
        0 <= m <= s.len(),
        forall|j: int| 0 <= j < m ==> !is_space(s[j]),
        m < s.len() ==> is_space(s[m]),
    ensures
        first_space(s) == m,
    decreases m,
{
    if m > 0 {
        assert(forall|j: int| 0 <= j < m - 1 ==> #[trigger] s.skip(1)[j] == s[j + 1]);
        lemma_first_space_is(s.skip(1), m - 1);
    }
}

/// The whitespace-separated tokens of a byte string, in order; runs of
/// separators collapse and outer whitespace carries no empty token.
pub open spec fn tokens_of(s: Seq<u8>) -> Seq<Seq<u8>>
    decreases s.len(),
{
    if s.len() == 0 {
        Seq::empty()
    } else if is_space(s[0]) {
        tokens_of(s.skip(1))
    } else {
        let i = first_space(s) as int;
        if i < s.len() {
            seq![s.take(i)] + tokens_of(s.skip(i))
        } else {
            seq![s]
        }
    }
}

/// Dropping a whitespace prefix leaves the tokens unchanged.
proof fn lemma_tokens_skip_spaces(s: Seq<u8>, m: int)
    requires
        0 <= m <= s.len(),
        forall|j: int| 0 <= j < m ==> is_space(s[j]),
    ensures
        tokens_of(s) == tokens_of(s.skip(m)),
    decreases m,
{
    if m > 0 {
        assert(forall|j: int| 0 <= j < m - 1 ==> #[trigger] s.skip(1)[j] == s[j + 1]);
        lemma_tokens_skip_spaces(s.skip(1), m - 1);
        assert(s.skip(1).skip(m - 1) =~= s.skip(m));
    } else {
        assert(s.skip(0) =~= s);
    }
}

/// A string that opens with `m` non-whitespace bytes up to a separator or
/// its end yields those bytes as its head token.
proof fn lemma_tokens_head(s: Seq<u8>, m: int)
    requires
        0 < m <= s.len(),
        forall|j: int| 0 <= j < m ==> !is_space(s[j]),
        m < s.len() ==> is_space(s[m]),
    ensures
        tokens_of(s) == seq![s.take(m)] + tokens_of(s.skip(m)),
{
    lemma_first_space_is(s, m);
    if m == s.len() {
        assert(s.take(m) =~= s);
        assert(s.skip(m) =~= Seq::<u8>::empty());
        assert(seq![s.take(m)] + tokens_of(s.skip(m)) =~= seq![s]);
    }
}

/// Exact whitespace test for one byte.
fn space_byte(b: u8) -> (r: bool)
    ensures
        r == is_space(b),
{
    b == 0x20 || b == 0x09 || b == 0x0a || b == 0x0b || b == 0x0c || b == 0x0d
}

/// First position at or after `from` whose byte is not whitespace.
fn skip_spaces_from(s: &[u8], from: usize) -> (r: usize)
    requires
        from <= s@.len(),
    ensures
        from <= r <= s@.len(),
        forall|j: int| from <= j < r ==> is_space(s@[j]),
        r < s@.len() ==> !is_space(s@[r as int]),
{
    let n = s.len();
    let mut k = from;
    while k < n
        invariant
            from <= k <= n,
            n == s@.len(),
            forall|j: int| from <= j < k ==> is_space(s@[j]),
        decreases n - k,
    {
        if !space_byte(s[k]) {
            return k;
        }
        k += 1;
    }
    k
}

/// First position at or after `from` whose byte is whitespace.
fn find_space_from(s: &[u8], from: usize) -> (r: usize)
    requires
        from <= s@.len(),
    ensures
        from <= r <= s@.len(),
        forall|j: int| from <= j < r ==> !is_space(s@[j]),
        r < s@.len() ==> is_space(s@[r as int]),
{
    let n = s.len();
    let mut k = from;
    while k < n
        invariant
            from <= k <= n,
            n == s@.len(),
            forall|j: int| from <= j < k ==> !is_space(s@[j]),
        decreases n - k,
    {
        if space_byte(s[k]) {
            return k;
        }
        k += 1;
    }
    k
}

/// The second whitespace-separated token of a line, where the line has one.
pub fn second_token(line: &[u8]) -> (r: Option<Vec<u8>>)
    ensures
        tokens_of(line@).len() >= 2 ==> (r matches Some(t) && t@ == tokens_of(line@)[1]),
        tokens_of(line@).len() < 2 ==> r is None,
{
    let n = line.len();
    let a0 = skip_spaces_from(line, 0);
    proof {
        lemma_tokens_skip_spaces(line@, a0 as int);
    }
    if a0 == n {
        proof {
            assert(line@.skip(a0 as int) =~= Seq::<u8>::empty());
        }
        return None;
    }
    let e0 = find_space_from(line, a0);
    let ghost rest0 = line@.skip(a0 as int);
    proof {
        assert(forall|k: int| 0 <= k < rest0.len() ==> #[trigger] rest0[k] == line@[a0 + k]);
        lemma_tokens_head(rest0, e0 - a0);
        assert(rest0.skip(e0 - a0) =~= line@.skip(e0 as int));
    }
    let a1 = skip_spaces_from(line, e0);
    let ghost rest1 = line@.skip(e0 as int);
    proof {
        assert(forall|k: int| 0 <= k < rest1.len() ==> #[trigger] rest1[k] == line@[e0 + k]);
        lemma_tokens_skip_spaces(rest1, a1 - e0);
        assert(rest1.skip(a1 - e0) =~= line@.skip(a1 as int));
    }
    if a1 == n {
        proof {
            assert(line@.skip(a1 as int) =~= Seq::<u8>::empty());
            assert(tokens_of(line@).len() == 1);
        }
        return None;
    }
    let e1 = find_space_from(line, a1);
    let ghost rest2 = line@.skip(a1 as int);
    proof {
        assert(forall|k: int| 0 <= k < rest2.len() ==> #[trigger] rest2[k] == line@[a1 + k]);
        lemma_tokens_head(rest2, e1 - a1);
        assert(rest2.take(e1 - a1) =~= line@.subrange(a1 as int, e1 as int));
        assert(tokens_of(line@).len() >= 2);
        assert(tokens_of(line@)[1] == line@.subrange(a1 as int, e1 as int));
    }
    let t = slice_to_vec(slice_subrange(line, a1, e1));
    Some(t)
}

/// Width assumed until the display-geometry query answers otherwise.
pub const DEFAULT_SCREEN_WIDTH: i32 = 1920;

/// Height assumed until the display-geometry query answers otherwise.
pub const DEFAULT_SCREEN_HEIGHT: i32 = 1080;

/// The marker line of the display-geometry query's output: "dimensions:".
pub open spec fn dimensions_marker() -> Seq<u8> {
    seq![0x64u8, 0x69, 0x6d, 0x65, 0x6e, 0x73, 0x69, 0x6f, 0x6e, 0x73, 0x3a]
}

/// Width and height read from a "WIDTHxHEIGHT" token; a token without the
/// separator, and each side that is no number, falls back to the defaults.
pub open spec fn spec_dims_token(tok: Seq<u8>) -> (int, int) {
    let i = first_at(tok, 0x78) as int;
    if i < tok.len() {
        (
            spec_parse_i32_or(tok.take(i), DEFAULT_SCREEN_WIDTH as int),
            spec_parse_i32_or(tok.skip(i + 1), DEFAULT_SCREEN_HEIGHT as int),
        )
    } else {
        (DEFAULT_SCREEN_WIDTH as int, DEFAULT_SCREEN_HEIGHT as int)
    }
}

/// Dimensions read from a marker line: its second token, split at the `x`.
pub open spec fn spec_dims_line(line: Seq<u8>) -> (int, int) {
    if tokens_of(line).len() >= 2 {
        spec_dims_token(tokens_of(line)[1])
    } else {
        (DEFAULT_SCREEN_WIDTH as int, DEFAULT_SCREEN_HEIGHT as int)
    }
}

/// Dimensions read from a sequence of lines: the first line holding the
/// marker decides; without one the defaults stand.
pub open spec fn spec_dims_lines(ls: Seq<Seq<u8>>) -> (int, int)
    decreases ls.len(),
{
    if ls.len() == 0 {
        (DEFAULT_SCREEN_WIDTH as int, DEFAULT_SCREEN_HEIGHT as int)
    } else if contains_seq(ls[0], dimensions_marker()) {
        spec_dims_line(ls[0])
    } else {
        spec_dims_lines(ls.skip(1))
    }
}

/// The screen dimensions the display-geometry query's whole output reports.
pub open spec fn spec_display_dimensions(out: Seq<u8>) -> (int, int) {
    spec_dims_lines(lines_of(out))
}

/// Reads a "WIDTHxHEIGHT" token.
fn parse_dims_token(tok: &[u8]) -> (r: (i32, i32))
    ensures
        r.0 as int == spec_dims_token(tok@).0,
        r.1 as int == spec_dims_token(tok@).1,
{
    let n = tok.len();
    let i = find_from(tok, 0, 0x78);
    proof {
        lemma_first_at_is(tok@, 0x78, i as int);
    }
    if i == n {
        (DEFAULT_SCREEN_WIDTH, DEFAULT_SCREEN_HEIGHT)
    } else {
        proof {
            assert(tok@.subrange(0, i as int) =~= tok@.take(i as int));
            assert(tok@.subrange(i + 1, n as int) =~= tok@.skip(i + 1));
        }
        let w = parse_i32_or(slice_subrange(tok, 0, i), DEFAULT_SCREEN_WIDTH);
        let h = parse_i32_or(slice_subrange(tok, i + 1, n), DEFAULT_SCREEN_HEIGHT);
        (w, h)
    }
}

/// Reads the dimensions a marker line carries.
fn parse_dims_line(line: &[u8]) -> (r: (i32, i32))
    ensures
        r.0 as int == spec_dims_line(line@).0,
        r.1 as int == spec_dims_line(line@).1,
{
    match second_token(line) {
        Some(tok) => parse_dims_token(tok.as_slice()),
        None => (DEFAULT_SCREEN_WIDTH, DEFAULT_SCREEN_HEIGHT),
    }
}

/// Reads the screen dimensions out of the display-geometry query's output:
/// the first line holding "dimensions:" names them as its second token,
/// "WIDTHxHEIGHT"; whatever is missing or malformed falls back to the
/// defaults rather than failing the read.
pub fn parse_display_dimensions(out: &[u8]) -> (r: (i32, i32))
    ensures
        r.0 as int == spec_display_dimensions(out@).0,
        r.1 as int == spec_display_dimensions(out@).1,
{
    let lines = split_lines(out);
    let marker: Vec<u8> = vec![0x64u8, 0x69, 0x6d, 0x65, 0x6e, 0x73, 0x69, 0x6f, 0x6e, 0x73, 0x3a];
    proof {
        assert(marker@ =~= dimensions_marker());
        assert(lines_of(out@).skip(0) =~= lines_of(out@));
    }
    let n = lines.len();
    let mut idx: usize = 0;
    while idx < n
        invariant
            idx <= n,
            n == lines@.len(),
            lines@.len() == lines_of(out@).len(),
            forall|i: int| 0 <= i < lines@.len() ==> #[trigger] lines@[i]@ == lines_of(out@)[i],
            marker@ == dimensions_marker(),
            spec_dims_lines(lines_of(out@).skip(idx as int)) == spec_display_dimensions(out@),
        decreases n - idx,
    {
        let ghost ls = lines_of(out@).skip(idx as int);
        proof {
            assert(ls[0] == lines_of(out@)[idx as int]);
        }
        let line = &lines[idx];
        if contains_subslice(line.as_slice(), marker.as_slice()) {
            return parse_dims_line(line.as_slice());
        }
        proof {
            assert(ls.skip(1) =~= lines_of(out@).skip(idx as int + 1));
        }
        idx += 1;
    }
    proof {
        assert(lines_of(out@).skip(idx as int) =~= Seq::<Seq<u8>>::empty());
    }
    (DEFAULT_SCREEN_WIDTH, DEFAULT_SCREEN_HEIGHT)
}

/// One line's contribution to the cursor-position read: a line "X=VALUE"
/// or "Y=VALUE" replaces that axis, any other line changes nothing.
pub open spec fn spec_axis_update(line: Seq<u8>, x: int, y: int) -> (int, int) {
    let i = first_at(line, 0x3d) as int;
    if i < line.len() {
        if line.take(i) == seq![0x58u8] {
            (spec_parse_i32_or(line.skip(i + 1), 0), y)
        } else if line.take(i) == seq![0x59u8] {
            (x, spec_parse_i32_or(line.skip(i + 1), 0))
        } else {
            (x, y)
        }
    } else {
        (x, y)
    }
}

/// The cursor position after folding `ls` over starting axes `(x, y)`.
pub open spec fn spec_mouse_lines(ls: Seq<Seq<u8>>, x: int, y: int) -> (int, int)
    decreases ls.len(),
{
    if ls.len() == 0 {
        (x, y)
    } else {
        let p = spec_axis_update(ls[0], x, y);
        spec_mouse_lines(ls.skip(1), p.0, p.1)
    }
}

/// The cursor position the position query's whole output reports: both axes
/// start at zero, each "X=" or "Y=" line overwrites its axis in order.
pub open spec fn spec_mouse_location(out: Seq<u8>) -> (int, int) {
    spec_mouse_lines(lines_of(out), 0, 0)
}

/// Reads the global cursor position out of the position query's key=value
/// output. Lines keyed `X` and `Y` carry the axes; a missing or malformed
/// value counts as zero rather than failing the read.
pub fn parse_mouse_location(out: &[u8]) -> (r: (i32, i32))
    ensures
        r.0 as int == spec_mouse_location(out@).0,
        r.1 as int == spec_mouse_location(out@).1,
{
    let lines = split_lines(out);
    proof {
        assert(lines_of(out@).skip(0) =~= lines_of(out@));
    }
    let n = lines.len();
    let mut x: i32 = 0;
    let mut y: i32 = 0;
    let mut idx: usize = 0;
    while idx < n
        invariant
            idx <= n,
            n == lines@.len(),
            lines@.len() == lines_of(out@).len(),
            forall|i: int| 0 <= i < lines@.len() ==> #[trigger] lines@[i]@ == lines_of(out@)[i],
            spec_mouse_lines(lines_of(out@).skip(idx as int), x as int, y as int)
                == spec_mouse_location(out@),
        decreases n - idx,
    {
        let ghost ls = lines_of(out@).skip(idx as int);
        proof {
            assert(ls[0] == lines_of(out@)[idx as int]);
        }
        let line = &lines[idx];
        let ll = line.len();
        let i = find_from(line.as_slice(), 0, 0x3d);
        proof {
            lemma_first_at_is(line@, 0x3d, i as int);
        }
        if i < ll {
            let value = slice_subrange(line.as_slice(), i + 1, ll);
            proof {
                assert(value@ =~= line@.skip(i + 1));
            }
            if i == 1 && line[0] == 0x58 {
                proof {
                    assert(line@.take(1) =~= seq![0x58u8]);
                }
                x = parse_i32_or(value, 0);
            } else if i == 1 && line[0] == 0x59 {
                proof {
                    assert(line@.take(1) =~= seq![0x59u8]);
                    assert(line@.take(1) != seq![0x58u8]) by {
                        assert(line@.take(1)[0] == line@[0]);
                    };
                }
                y = parse_i32_or(value, 0);
            } else {
                proof {
                    assert(line@.take(i as int) != seq![0x58u8] && line@.take(i as int) != seq![
                        0x59u8,
                    ]) by {
                        assert(line@.take(i as int).len() == i);
                        if line@.take(i as int) == seq![0x58u8] || line@.take(i as int) == seq![
                            0x59u8,
                        ] {
                            assert(i == 1);
                            assert(line@.take(1)[0] == line@[0]);
                        }
                    };
                }
            }
        }
        proof {
            assert(ls.skip(1) =~= lines_of(out@).skip(idx as int + 1));
        }
        idx += 1;
    }
    proof {
        assert(lines_of(out@).skip(idx as int) =~= Seq::<Seq<u8>>::empty());
    }
    (x, y)
}

} // verus!
