//! Character-level text utilities: splitting raw tool output into lines and
//! whitespace-separated fields, locating separator characters, lower-casing,
//! and decimal number parsing.

use vstd::prelude::*;
use vstd::seq_lib::*;

verus! {

/// Converts a string slice into its sequence of characters.
pub fn chars_of(s: &str) -> (v: Vec<char>)
    ensures
        v@ == s@,
{
    let mut v: Vec<char> = Vec::new();
    for c in it: s.chars()
        invariant
            it.seq() == s@,
            v@ == it.seq().take(it.index() as int),
    {
        v.push(c);
    }
    proof {
        assert(v@ =~= s@);
    }
    v
}

/// True of the characters that separate fields within a line.
pub open spec fn is_space(c: char) -> bool {
    c == ' ' || c == '\t' || c == '\r'
}

/// True of the line separator.
pub open spec fn is_newline(c: char) -> bool {
    c == '\n'
}

/// The field separator class, as a single value usable in `spec_split`.
pub open spec fn space_pred() -> spec_fn(char) -> bool {
    (|c: char| is_space(c))
}

/// The line separator class, as a single value usable in `spec_split`.
pub open spec fn newline_pred() -> spec_fn(char) -> bool {
    (|c: char| is_newline(c))
}

/// Prepends `pre` to the first piece of a non-empty sequence of pieces.
pub open spec fn shift_first(pre: Seq<char>, ss: Seq<Seq<char>>) -> Seq<Seq<char>>
    recommends
        ss.len() > 0,
{
    seq![pre + ss[0]] + ss.drop_first()
}

/// Splits `s` at every character satisfying `sep`. Separators are consumed;
/// the result always has one piece more than there are separators, so empty
/// pieces mark leading, trailing and repeated separators.
pub open spec fn spec_split(s: Seq<char>, sep: spec_fn(char) -> bool) -> Seq<Seq<char>>
    decreases s.len(),
{
    if s.len() == 0 {
        seq![Seq::<char>::empty()]
    } else if sep(s[0]) {
        seq![Seq::<char>::empty()] + spec_split(s.drop_first(), sep)
    } else {
        shift_first(seq![s[0]], spec_split(s.drop_first(), sep))
    }
}

/// Drops the empty pieces of a split.
pub open spec fn keep_nonempty(ss: Seq<Seq<char>>) -> Seq<Seq<char>>
    decreases ss.len(),
{
    if ss.len() == 0 {
        Seq::empty()
    } else if ss[0].len() > 0 {
        seq![ss[0]] + keep_nonempty(ss.drop_first())
    } else {
        keep_nonempty(ss.drop_first())
    }
}

/// The lines of a raw text: the pieces between newline characters.
pub open spec fn spec_lines(s: Seq<char>) -> Seq<Seq<char>> {
    spec_split(s, newline_pred())
}

/// The whitespace-separated fields of a line.
pub open spec fn spec_fields(s: Seq<char>) -> Seq<Seq<char>> {
    keep_nonempty(spec_split(s, space_pred()))
}

pub proof fn lemma_split_len(s: Seq<char>, sep: spec_fn(char) -> bool)
    ensures
        spec_split(s, sep).len() >= 1,
    decreases s.len(),
{
    if s.len() > 0 {
        lemma_split_len(s.drop_first(), sep);
    }
}

pub proof fn lemma_shift_empty(ss: Seq<Seq<char>>)
    requires
        ss.len() > 0,
    ensures
        shift_first(Seq::empty(), ss) == ss,
{
    assert(Seq::<char>::empty() + ss[0] =~= ss[0]);
    assert(shift_first(Seq::empty(), ss) =~= ss);
}

pub proof fn lemma_shift_compose(a: Seq<char>, b: Seq<char>, ss: Seq<Seq<char>>)
    requires
        ss.len() > 0,
    ensures
        shift_first(a, shift_first(b, ss)) == shift_first(a + b, ss),
{
    assert(a + (b + ss[0]) =~= (a + b) + ss[0]);
    assert(shift_first(a, shift_first(b, ss)) =~~= shift_first(a + b, ss));
}

pub proof fn lemma_keep_cons(x: Seq<char>, ss: Seq<Seq<char>>)
    ensures
        x.len() > 0 ==> keep_nonempty(seq![x] + ss) == seq![x] + keep_nonempty(ss),
        x.len() == 0 ==> keep_nonempty(seq![x] + ss) == keep_nonempty(ss),
{
    let t = seq![x] + ss;
    assert(t[0] == x);
    assert(t.drop_first() =~= ss);
}

/// Splitting a sequence whose first character is a separator.
pub proof fn lemma_split_sep_head(s: Seq<char>, sep: spec_fn(char) -> bool)
    requires
        s.len() > 0,
        sep(s[0]),
    ensures
        spec_split(s, sep) == seq![Seq::<char>::empty()] + spec_split(s.drop_first(), sep),
{
}

/// Splitting a sequence whose first character is no separator.
pub proof fn lemma_split_plain_head(s: Seq<char>, sep: spec_fn(char) -> bool)
    requires
        s.len() > 0,
        !sep(s[0]),
    ensures
        spec_split(s, sep) == shift_first(seq![s[0]], spec_split(s.drop_first(), sep)),
{
}

/// Splits `v` at every newline character.
pub fn split_lines(v: &Vec<char>) -> (r: Vec<Vec<char>>)
    ensures
        r.deep_view() == spec_lines(v@),
{
    let mut r: Vec<Vec<char>> = Vec::new();
    let mut cur: Vec<char> = Vec::new();
    let mut i: usize = 0;
    proof {
        lemma_split_len(v@, newline_pred());
        lemma_shift_empty(spec_split(v@, newline_pred()));
        assert(v@.skip(0) =~= v@);
        assert(r.deep_view() =~= Seq::<Seq<char>>::empty());
        assert(r.deep_view() + shift_first(cur@, spec_split(v@.skip(0), newline_pred())) =~= spec_lines(
            v@,
        ));
    }
    while i < v.len()
        invariant
            i <= v.len(),
            spec_lines(v@) == r.deep_view() + shift_first(
                cur@,
                spec_split(v@.skip(i as int), newline_pred()),
            ),
        decreases v.len() - i,
    {
        let ghost tail = v@.skip(i as int);
        let ghost rest = v@.skip(i as int + 1);
        proof {
            assert(tail.len() > 0);
            assert(tail[0] == v@[i as int]);
            assert(tail.drop_first() =~= rest);
            lemma_split_len(rest, newline_pred());
        }
        let c = v[i];
        if c == '\n' {
            proof {
                lemma_split_sep_head(tail, newline_pred());
                let x = spec_split(rest, newline_pred());
                assert(shift_first(cur@, seq![Seq::<char>::empty()] + x) =~= seq![cur@] + x);
                lemma_shift_empty(x);
                assert(r.deep_view().push(cur@) =~= r.deep_view() + seq![cur@]);
            }
            let ghost old_r = r.deep_view();
            r.push(cur);
            proof {
                assert(r.deep_view() =~~= old_r.push(cur@));
            }
            cur = Vec::new();
            proof {
                assert(spec_lines(v@) == r.deep_view() + shift_first(
                    cur@,
                    spec_split(rest, newline_pred()),
                ));
            }
        } else {
            proof {
                lemma_split_plain_head(tail, newline_pred());
                lemma_shift_compose(cur@, seq![v@[i as int]], spec_split(rest, newline_pred()));
                assert(cur@ + seq![v@[i as int]] =~= cur@.push(v@[i as int]));
            }
            cur.push(c);
        }
        i += 1;
    }
    proof {
        assert(v@.skip(v@.len() as int) =~= Seq::<char>::empty());
        let x = spec_split(Seq::<char>::empty(), newline_pred());
        assert(x == seq![Seq::<char>::empty()]);
        assert(cur@ + Seq::<char>::empty() =~= cur@);
        assert(shift_first(cur@, x) =~= seq![cur@]);
        assert(r.deep_view().push(cur@) =~= r.deep_view() + seq![cur@]);
    }
    let ghost old_r = r.deep_view();
    r.push(cur);
    proof {
        assert(r.deep_view() =~~= old_r.push(cur@));
    }
    r
}

/// Splits `v` into its whitespace-separated fields, dropping empty pieces.
pub fn fields_of(v: &Vec<char>) -> (r: Vec<Vec<char>>)
    ensures
        r.deep_view() == spec_fields(v@),
{
    let mut r: Vec<Vec<char>> = Vec::new();
    let mut cur: Vec<char> = Vec::new();
    let mut i: usize = 0;
    proof {
        lemma_split_len(v@, space_pred());
        lemma_shift_empty(spec_split(v@, space_pred()));
        assert(v@.skip(0) =~= v@);
        assert(r.deep_view() =~= Seq::<Seq<char>>::empty());
        assert(r.deep_view() + keep_nonempty(
            shift_first(cur@, spec_split(v@.skip(0), space_pred())),
        ) =~= spec_fields(v@));
    }
    while i < v.len()
        invariant
            i <= v.len(),
            spec_fields(v@) == r.deep_view() + keep_nonempty(
                shift_first(cur@, spec_split(v@.skip(i as int), space_pred())),
            ),
        decreases v.len() - i,
    {
        let ghost tail = v@.skip(i as int);
        let ghost rest = v@.skip(i as int + 1);
        proof {
            assert(tail.len() > 0);
            assert(tail[0] == v@[i as int]);
            assert(tail.drop_first() =~= rest);
            lemma_split_len(rest, space_pred());
        }
        let c = v[i];
        if c == ' ' || c == '\t' || c == '\r' {
            proof {
                lemma_split_sep_head(tail, space_pred());
                let x = spec_split(rest, space_pred());
                assert(shift_first(cur@, seq![Seq::<char>::empty()] + x) =~= seq![cur@] + x);
                lemma_keep_cons(cur@, x);
                lemma_shift_empty(x);
            }
            if cur.len() > 0 {
                let ghost old_r = r.deep_view();
                r.push(cur);
                proof {
                    assert(r.deep_view() =~~= old_r.push(cur@));
                    assert(old_r.push(cur@) =~= old_r + seq![cur@]);
                }
                cur = Vec::new();
            }
            proof {
                assert(spec_fields(v@) == r.deep_view() + keep_nonempty(
                    shift_first(cur@, spec_split(rest, space_pred())),
                ));
            }
        } else {
            proof {
                lemma_split_plain_head(tail, space_pred());
                lemma_shift_compose(cur@, seq![v@[i as int]], spec_split(rest, space_pred()));
                assert(cur@ + seq![v@[i as int]] =~= cur@.push(v@[i as int]));
            }
            cur.push(c);
        }
        i += 1;
    }
    proof {
        assert(v@.skip(v@.len() as int) =~= Seq::<char>::empty());
        let x = spec_split(Seq::<char>::empty(), space_pred());
        assert(x == seq![Seq::<char>::empty()]);
        assert(cur@ + Seq::<char>::empty() =~= cur@);
        assert(shift_first(cur@, x) =~= seq![cur@]);
        assert(seq![cur@].drop_first() =~= Seq::<Seq<char>>::empty());
        assert(keep_nonempty(seq![cur@]) == if cur@.len() > 0 {
            seq![cur@] + keep_nonempty(Seq::<Seq<char>>::empty())
        } else {
            keep_nonempty(Seq::<Seq<char>>::empty())
        });
    }
    if cur.len() > 0 {
        let ghost old_r = r.deep_view();
        r.push(cur);
        proof {
            assert(r.deep_view() =~~= old_r.push(cur@));
            assert(old_r.push(cur@) =~= old_r + seq![cur@]);
            assert(seq![cur@] + Seq::<Seq<char>>::empty() =~= seq![cur@]);
        }
    } else {
        proof {
            assert(spec_fields(v@) =~= r.deep_view());
        }
    }
    r
}

/// The index of the first occurrence of `c` in `s`, if any.
pub open spec fn spec_first_index(s: Seq<char>, c: char) -> Option<int>
    decreases s.len(),
{
    if s.len() == 0 {
        None
    } else if s[0] == c {
        Some(0int)
    } else {
        match spec_first_index(s.drop_first(), c) {
            Some(j) => Some(j + 1),
            None => None,
        }
    }
}

/// The index of the last occurrence of `c` in `s`, if any.
pub open spec fn spec_last_index(s: Seq<char>, c: char) -> Option<int>
    decreases s.len(),
{
    if s.len() == 0 {
        None
    } else if s.last() == c {
        Some(s.len() - 1)
    } else {
        spec_last_index(s.drop_last(), c)
    }
}

pub proof fn lemma_first_index_found(s: Seq<char>, c: char, i: int)
    requires
        0 <= i < s.len(),
        s[i] == c,
        forall|k: int| 0 <= k < i ==> s[k] != c,
    ensures
        spec_first_index(s, c) == Some(i),
    decreases i,
{
    if s[0] != c {
        lemma_first_index_found(s.drop_first(), c, i - 1);
    }
}

pub proof fn lemma_first_index_absent(s: Seq<char>, c: char)
    requires
        forall|k: int| 0 <= k < s.len() ==> s[k] != c,
    ensures
        spec_first_index(s, c) is None,
    decreases s.len(),
{
    if s.len() > 0 {
        lemma_first_index_absent(s.drop_first(), c);
    }
}

pub proof fn lemma_last_index_found(s: Seq<char>, c: char, i: int)
    requires
        0 <= i < s.len(),
        s[i] == c,
        forall|k: int| i < k < s.len() ==> s[k] != c,
    ensures
        spec_last_index(s, c) == Some(i),
    decreases s.len(),
{
    if i != s.len() - 1 {
        assert(s.last() != c);
        lemma_last_index_found(s.drop_last(), c, i);
    }
}

pub proof fn lemma_last_index_absent(s: Seq<char>, c: char)
    requires
        forall|k: int| 0 <= k < s.len() ==> s[k] != c,
    ensures
        spec_last_index(s, c) is None,
    decreases s.len(),
{
    if s.len() > 0 {
        lemma_last_index_absent(s.drop_last(), c);
    }
}

/// Finds the first occurrence of `c` in `v`.
pub fn first_index_of(v: &Vec<char>, c: char) -> (r: Option<usize>)
    ensures
        r matches Some(i) ==> i < v@.len() && v@[i as int] == c && spec_first_index(v@, c)
            == Some(i as int),
        r is None ==> spec_first_index(v@, c) is None,
{
    let mut i: usize = 0;
    while i < v.len()
        invariant
            i <= v.len(),
            forall|k: int| 0 <= k < i ==> v@[k] != c,
        decreases v.len() - i,
    {
        if v[i] == c {
            proof {
                lemma_first_index_found(v@, c, i as int);
            }
            return Some(i);
        }
        i += 1;
    }
    proof {
        lemma_first_index_absent(v@, c);
    }
    None
}

/// Finds the last occurrence of `c` in `v`.
pub fn last_index_of(v: &Vec<char>, c: char) -> (r: Option<usize>)
    ensures
        r matches Some(i) ==> i < v@.len() && v@[i as int] == c && spec_last_index(v@, c)
            == Some(i as int),
        r is None ==> spec_last_index(v@, c) is None,
{
    let mut j: usize = v.len();
    while j > 0
        invariant
            j <= v.len(),
            forall|k: int| j <= k < v@.len() ==> v@[k] != c,
        decreases j,
    {
        j -= 1;
        if v[j] == c {
            proof {
                lemma_last_index_found(v@, c, j as int);
            }
            return Some(j);
        }
    }
    proof {
        lemma_last_index_absent(v@, c);
    }
    None
}

/// The ASCII lower-case image of a character; other characters are unchanged.
pub open spec fn spec_lower_char(c: char) -> char {
    if 'A' <= c && c <= 'Z' {
        ((c as u8) + 32) as char
    } else {
        c
    }
}

/// The character-wise ASCII lower-case image of a sequence.
pub open spec fn spec_lower(s: Seq<char>) -> Seq<char> {
    s.map_values(|c: char| spec_lower_char(c))
}

fn lower_char(c: char) -> (r: char)
    ensures
        r == spec_lower_char(c),
{
    if 'A' <= c && c <= 'Z' {
        ((c as u8) + 32) as char
    } else {
        c
    }
}

/// Lower-cases every ASCII upper-case letter of `v`.
pub fn to_lower(v: &Vec<char>) -> (r: Vec<char>)
    ensures
        r@ == spec_lower(v@),
{
    let mut r: Vec<char> = Vec::new();
    let mut i: usize = 0;
    proof {
        assert(r@ =~= spec_lower(v@.take(0)));
    }
    while i < v.len()
        invariant
            i <= v.len(),
            r@ == spec_lower(v@.take(i as int)),
        decreases v.len() - i,
    {
        r.push(lower_char(v[i]));
        proof {
            assert(r@ =~= spec_lower(v@.take(i as int + 1)));
        }
        i += 1;
    }
    proof {
        assert(v@.take(v@.len() as int) =~= v@);
    }
    r
}

/// True of decimal digit characters.
pub open spec fn is_digit(c: char) -> bool {
    '0' <= c && c <= '9'
}

/// The numeric value of a digit character.
pub open spec fn digit_val(c: char) -> nat {
    (c as u32 - '0' as u32) as nat
}

/// The value of a digit string read in base ten.
pub open spec fn spec_digits_val(s: Seq<char>) -> nat
    decreases s.len(),
{
    if s.len() == 0 {
        0
    } else {
        spec_digits_val(s.drop_last()) * 10 + digit_val(s.last())
    }
}

/// True when every character of `s` is a decimal digit.
pub open spec fn all_digits(s: Seq<char>) -> bool {
    forall|i: int| 0 <= i < s.len() ==> is_digit(s[i])
}

/// The number a string denotes under the rules of `u32` parsing: an optional
/// leading `+`, then at least one decimal digit, value at most `u32::MAX`.
pub open spec fn spec_parse_u32(s: Seq<char>) -> Option<u32> {
    let t = if s.len() > 0 && s[0] == '+' {
        s.drop_first()
    } else {
        s
    };
    if t.len() > 0 && all_digits(t) && spec_digits_val(t) <= u32::MAX {
        Some(spec_digits_val(t) as u32)
    } else {
        None
    }
}

/// Reading one more digit can only grow the value.
proof fn lemma_digits_val_grows(s: Seq<char>)
    requires
        s.len() > 0,
    ensures
        spec_digits_val(s) >= spec_digits_val(s.drop_last()),
{
}

/// The value of a prefix never exceeds the value of the whole digit string.
proof fn lemma_digits_val_prefix(s: Seq<char>, i: int)
    requires
        0 <= i <= s.len(),
    ensures
        spec_digits_val(s.take(i)) <= spec_digits_val(s),
    decreases s.len() - i,
{
    if i < s.len() {
        lemma_digits_val_prefix(s.drop_last(), i);
        assert(s.drop_last().take(i) =~= s.take(i));
        lemma_digits_val_grows(s);
    } else {
        assert(s.take(i) =~= s);
    }
}

/// Parses `v` as a `u32`, exactly as `str::parse::<u32>` would.
#[verifier::loop_isolation(false)]
pub fn parse_u32(v: &Vec<char>) -> (r: Option<u32>)
    ensures
        r == spec_parse_u32(v@),
{
    let start: usize = if v.len() > 0 && v[0] == '+' {
        1
    } else {
        0
    };
    let ghost t = v@.skip(start as int);
    proof {
        if start == 1 {
            assert(t =~= v@.drop_first());
        } else {
            assert(t =~= v@);
        }
    }
    if v.len() == start {
        return None;
    }
    let mut acc: u64 = 0;
    let mut i: usize = start;
    proof {
        assert(t.take(0) =~= Seq::<char>::empty());
    }
    while i < v.len()
        invariant
            start <= i <= v.len(),
            t == v@.skip(start as int),
            t.len() == v@.len() - start,
            forall|k: int| 0 <= k < i - start ==> #[trigger] is_digit(t[k]),
            acc == spec_digits_val(t.take(i - start)),
            acc <= u32::MAX,
        decreases v.len() - i,
    {
        let c = v[i];
        proof {
            assert(t[i - start] == v@[i as int]);
        }
        if !('0' <= c && c <= '9') {
            proof {
                assert(!all_digits(t)) by {
                    assert(0 <= i - start < t.len() && !is_digit(t[i - start]));
                }
                assert(spec_parse_u32(v@) is None);
            }
            return None;
        }
        let d: u64 = (c as u32 - 48) as u64;
        proof {
            assert(t.take(i - start + 1).drop_last() =~= t.take(i - start));
            assert(t.take(i - start + 1).last() == t[i - start]);
        }
        acc = acc * 10 + d;
        i += 1;
        if acc > 0xffff_ffff {
            proof {
                lemma_digits_val_prefix(t, i - start);
                assert(spec_digits_val(t) > u32::MAX);
                assert(spec_parse_u32(v@) is None);
            }
            return None;
        }
    }
    proof {
        assert(t.take(v@.len() - start) =~= t);
        assert(all_digits(t));
    }
    Some(acc as u32)
}

/// True when the (already lower-cased) protocol token begins with `tcp`.
pub open spec fn spec_is_tcp(p: Seq<char>) -> bool {
    p.len() >= 3 && p[0] == 't' && p[1] == 'c' && p[2] == 'p'
}

/// Decides whether a protocol token names a TCP variant.
pub fn is_tcp(p: &Vec<char>) -> (r: bool)
    ensures
        r == spec_is_tcp(p@),
{
    if p.len() >= 3 {
        p[0] == 't' && p[1] == 'c' && p[2] == 'p'
    } else {
        false
    }
}

/// Copies the characters of `v` from `from` (inclusive) to `to` (exclusive).
pub fn sub_chars(v: &Vec<char>, from: usize, to: usize) -> (r: Vec<char>)
    requires
        from <= to <= v@.len(),
    ensures
        r@ == v@.subrange(from as int, to as int),
{
    let mut r: Vec<char> = Vec::new();
    let mut i: usize = from;
    proof {
        assert(r@ =~= v@.subrange(from as int, from as int));
    }
    while i < to
        invariant
            from <= i <= to <= v@.len(),
            r@ == v@.subrange(from as int, i as int),
        decreases to - i,
    {
        r.push(v[i]);
        proof {
            assert(r@ =~= v@.subrange(from as int, i as int + 1));
        }
        i += 1;
    }
    r
}

/// Relies on `String::push`: appends the given character to the end of the
/// string.
#[verifier::external_body]
fn push_char(s: &mut String, c: char)
    ensures
        final(s)@ == old(s)@.push(c),
{
    s.push(c);
}

/// Builds a `String` holding exactly the characters of `v`.
pub fn string_of_chars(v: &Vec<char>) -> (s: String)
    ensures
        s@ == v@,
{
    let mut s = String::new();
    let mut i: usize = 0;
    proof {
        assert(s@ =~= v@.take(0));
    }
    while i < v.len()
        invariant
            i <= v.len(),
            s@ == v@.take(i as int),
        decreases v.len() - i,
    {
        push_char(&mut s, v[i]);
        proof {
            assert(s@ =~= v@.take(i as int + 1));
        }
        i += 1;
    }
    proof {
        assert(v@.take(v@.len() as int) =~= v@);
    }
    s
}

} // verus!
