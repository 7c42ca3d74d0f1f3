//! Character-sequence utilities shared by the topic codec: slash splitting,
//! string equality, and decimal rendering/parsing of `usize` values.

use vstd::prelude::*;

verus! {

/// A segment that may be embedded in a `/`-joined topic must not itself
/// contain the separator.
pub open spec fn no_slash(s: Seq<char>) -> bool {
    forall|i: int| 0 <= i < s.len() ==> s[i] != '/'
}

/// Character-wise string equality, usable where vstd specifies no `==` on
/// `&str`.
pub fn str_eq(a: &str, b: &str) -> (r: bool)
    ensures
        r == (a@ == b@),
{
    let n = a.unicode_len();
    let m = b.unicode_len();
    if n != m {
        assert(a@ != b@) by {
            assert(a@.len() != b@.len());
        }
        return false;
    }
    let mut i: usize = 0;
    while i < n
        invariant
            n == a@.len(),
            n == b@.len(),
            i <= n,
            forall|j: int| 0 <= j < i ==> a@[j] == b@[j],
        decreases n - i,
    {
        if a.get_char(i) != b.get_char(i) {
            return false;
        }
        i = i + 1;
    }
    assert(a@ =~= b@);
    true
}

/// `ps` with `c` prepended to its first element.
pub open spec fn prepend_first(c: Seq<char>, ps: Seq<Seq<char>>) -> Seq<Seq<char>>
    recommends
        ps.len() > 0,
{
    seq![c + ps[0]] + ps.drop_first()
}

/// The segments of `s` between occurrences of `/`, in order. Splitting the
/// empty string yields one empty segment, matching `str::split`.
pub open spec fn split_slash_spec(s: Seq<char>) -> Seq<Seq<char>>
    decreases s.len(),
{
    if s.len() == 0 {
        seq![Seq::<char>::empty()]
    } else if s[0] == '/' {
        seq![Seq::<char>::empty()] + split_slash_spec(s.drop_first())
    } else {
        prepend_first(seq![s[0]], split_slash_spec(s.drop_first()))
    }
}

pub proof fn lemma_split_len_pos(s: Seq<char>)
    ensures
        split_slash_spec(s).len() >= 1,
    decreases s.len(),
{
    if s.len() > 0 {
        lemma_split_len_pos(s.drop_first());
    }
}

/// A string without the separator is a single segment.
pub proof fn lemma_split_no_slash(s: Seq<char>)
    requires
        no_slash(s),
    ensures
        split_slash_spec(s) == seq![s],
    decreases s.len(),
{
    if s.len() == 0 {
        assert(s =~= Seq::<char>::empty());
        assert(split_slash_spec(s) =~~= seq![s]);
    } else {
        assert(no_slash(s.drop_first()));
        lemma_split_no_slash(s.drop_first());
        lemma_split_len_pos(s.drop_first());
        let ps = split_slash_spec(s.drop_first());
        assert(ps == seq![s.drop_first()]);
        assert(ps[0] == s.drop_first());
        assert(seq![s[0]] + s.drop_first() =~= s);
        assert(split_slash_spec(s) =~~= seq![s]);
    }
}

/// Splitting at the first separator: a separator-free prefix becomes the
/// first segment, and the rest splits independently.
pub proof fn lemma_split_append(a: Seq<char>, b: Seq<char>)
    requires
        no_slash(a),
    ensures
        split_slash_spec(a + seq!['/'] + b) == seq![a] + split_slash_spec(b),
    decreases a.len(),
{
    lemma_split_len_pos(b);
    if a.len() == 0 {
        assert(a =~= Seq::<char>::empty());
        assert(a + seq!['/'] + b =~= seq!['/'] + b);
        assert((seq!['/'] + b)[0] == '/');
        assert((seq!['/'] + b).drop_first() =~= b);
        assert(split_slash_spec(a + seq!['/'] + b) =~~= seq![a] + split_slash_spec(b));
    } else {
        let s = a + seq!['/'] + b;
        assert(s[0] == a[0]);
        assert(s[0] != '/');
        assert(no_slash(a.drop_first()));
        assert(s.drop_first() =~= a.drop_first() + seq!['/'] + b);
        lemma_split_append(a.drop_first(), b);
        let rest = split_slash_spec(s.drop_first());
        assert(rest == seq![a.drop_first()] + split_slash_spec(b));
        assert(rest.len() > 0);
        assert(rest[0] == a.drop_first());
        assert(seq![s[0]] + rest[0] =~= a);
        assert(rest.drop_first() =~= split_slash_spec(b));
        assert(split_slash_spec(s) =~~= seq![a] + split_slash_spec(b));
    }
}

/// The segments of `s` between `/` separators, as owned strings.
pub fn split_slash(s: &str) -> (parts: Vec<String>)
    ensures
        parts.deep_view() == split_slash_spec(s@),
{
    let n = s.unicode_len();
    let mut parts: Vec<String> = Vec::new();
    let mut start: usize = 0;
    let mut i: usize = 0;
    proof {
        lemma_split_len_pos(s@);
        assert(s@.skip(0) =~= s@);
        let cur = s@.subrange(0, 0);
        assert(cur + split_slash_spec(s@)[0] =~= split_slash_spec(s@)[0]);
        assert(prepend_first(cur, split_slash_spec(s@)) =~= split_slash_spec(s@));
        assert(parts.deep_view() + prepend_first(cur, split_slash_spec(s@))
            =~= split_slash_spec(s@));
    }
    while i < n
        invariant
            n == s@.len(),
            start <= i <= n,
            split_slash_spec(s@) == parts.deep_view() + prepend_first(
                s@.subrange(start as int, i as int),
                split_slash_spec(s@.skip(i as int)),
            ),
        decreases n - i,
    {
        let ghost cur = s@.subrange(start as int, i as int);
        let ghost rest = s@.skip(i as int);
        let ghost tail = split_slash_spec(s@.skip(i as int + 1));
        proof {
            assert(rest.len() > 0);
            assert(rest[0] == s@[i as int]);
            assert(rest.drop_first() =~= s@.skip(i as int + 1));
            lemma_split_len_pos(s@.skip(i as int + 1));
        }
        let c = s.get_char(i);
        if c == '/' {
            let ghost old_parts = parts.deep_view();
            let seg = s.substring_char(start, i).to_owned();
            parts.push(seg);
            start = i + 1;
            proof {
                assert(split_slash_spec(rest) =~= seq![Seq::<char>::empty()] + tail);
                assert((seq![Seq::<char>::empty()] + tail)[0] =~= Seq::<char>::empty());
                assert((seq![Seq::<char>::empty()] + tail).drop_first() =~= tail);
                assert(cur + Seq::<char>::empty() =~= cur);
                assert(prepend_first(cur, split_slash_spec(rest)) =~= seq![cur] + tail);
                assert(parts.deep_view() =~= old_parts.push(cur));
                let cur2 = s@.subrange(start as int, i as int + 1);
                assert(cur2 =~= Seq::<char>::empty());
                assert(cur2 + tail[0] =~= tail[0]);
                assert(prepend_first(cur2, tail) =~= tail);
                assert(old_parts.push(cur) + tail =~= old_parts + (seq![cur] + tail));
                assert(split_slash_spec(s@) =~= parts.deep_view() + prepend_first(cur2, tail));
            }
        } else {
            proof {
                assert(split_slash_spec(rest) =~= prepend_first(seq![c], tail));
                let cur2 = s@.subrange(start as int, i as int + 1);
                assert(cur2 =~= cur + seq![c]);
                assert((prepend_first(seq![c], tail)).drop_first() =~= tail.drop_first());
                assert(cur + (seq![c] + tail[0]) =~= cur2 + tail[0]);
                assert(prepend_first(cur, prepend_first(seq![c], tail))
                    =~= prepend_first(cur2, tail));
                assert(split_slash_spec(s@) =~= parts.deep_view() + prepend_first(cur2, tail));
            }
        }
        i = i + 1;
    }
    let ghost old_parts = parts.deep_view();
    let ghost cur = s@.subrange(start as int, n as int);
    let seg = s.substring_char(start, n).to_owned();
    parts.push(seg);
    proof {
        assert(s@.skip(n as int) =~= Seq::<char>::empty());
        assert(split_slash_spec(Seq::<char>::empty()) =~= seq![Seq::<char>::empty()]);
        assert(prepend_first(cur, seq![Seq::<char>::empty()]) =~= seq![cur]);
        assert(parts.deep_view() =~= old_parts.push(cur));
        assert(old_parts + seq![cur] =~= old_parts.push(cur));
        assert(parts.deep_view() =~= split_slash_spec(s@));
    }
    parts
}

pub open spec fn is_digit(c: char) -> bool {
    '0' as int <= c as int && c as int <= '9' as int
}

pub open spec fn all_digits(s: Seq<char>) -> bool {
    forall|i: int| 0 <= i < s.len() ==> is_digit(s[i])
}

pub open spec fn digit_val(c: char) -> nat
    recommends
        is_digit(c),
{
    (c as int - '0' as int) as nat
}

pub open spec fn char_of_digit(d: nat) -> char
    recommends
        d < 10,
{
    if d == 0 {
        '0'
    } else if d == 1 {
        '1'
    } else if d == 2 {
        '2'
    } else if d == 3 {
        '3'
    } else if d == 4 {
        '4'
    } else if d == 5 {
        '5'
    } else if d == 6 {
        '6'
    } else if d == 7 {
        '7'
    } else if d == 8 {
        '8'
    } else {
        '9'
    }
}

/// The canonical decimal rendering of `n`, most significant digit first.
pub open spec fn dec_str(n: nat) -> Seq<char>
    decreases n,
{
    if n < 10 {
        seq![char_of_digit(n)]
    } else {
        dec_str(n / 10) + seq![char_of_digit(n % 10)]
    }
}

/// The numeric value of a digit string.
pub open spec fn dec_value(s: Seq<char>) -> nat
    decreases s.len(),
{
    if s.len() == 0 {
        0
    } else {
        dec_value(s.drop_last()) * 10 + digit_val(s.last())
    }
}

pub proof fn lemma_dec_str_digits(n: nat)
    ensures
        dec_str(n).len() >= 1,
        all_digits(dec_str(n)),
    decreases n,
{
    if n >= 10 {
        lemma_dec_str_digits(n / 10);
    }
}

/// Every digit differs from the topic separator, so decimal renderings can
/// stand as topic segments.
pub proof fn lemma_digits_no_slash(s: Seq<char>)
    requires
        all_digits(s),
    ensures
        no_slash(s),
{
}

proof fn lemma_digit_round_trip(d: nat)
    requires
        d < 10,
    ensures
        digit_val(char_of_digit(d)) == d,
{
}

pub proof fn lemma_dec_str_value(n: nat)
    ensures
        dec_value(dec_str(n)) == n,
    decreases n,
{
    if n < 10 {
        lemma_digit_round_trip(n);
        let s = dec_str(n);
        assert(s == seq![char_of_digit(n)]);
        assert(s.len() == 1);
        assert(s.last() == char_of_digit(n));
        assert(s.drop_last() =~= Seq::<char>::empty());
        assert(dec_value(s) == dec_value(s.drop_last()) * 10 + digit_val(s.last()));
        assert(dec_value(s.drop_last()) == 0);
    } else {
        lemma_dec_str_value(n / 10);
        lemma_digit_round_trip(n % 10);
        assert(dec_str(n).drop_last() =~= dec_str(n / 10));
        assert(dec_str(n).last() == char_of_digit(n % 10));
    }
}

proof fn lemma_dec_value_mono(s: Seq<char>, i: int)
    requires
        0 <= i <= s.len(),
    ensures
        dec_value(s) >= dec_value(s.take(i)),
    decreases s.len(),
{
    if i < s.len() {
        assert(s.drop_last().take(i) =~= s.take(i));
        lemma_dec_value_mono(s.drop_last(), i);
        assert(dec_value(s.drop_last()) * 10 >= dec_value(s.drop_last()));
    } else {
        assert(s.take(i) =~= s);
    }
}

/// What `str::parse::<usize>` yields: an optional leading `+`, then at
/// least one digit, and a value within range; anything else is rejected.
pub open spec fn parse_usize_spec(s: Seq<char>) -> Option<usize> {
    let body = if s.len() > 0 && s[0] == '+' {
        s.drop_first()
    } else {
        s
    };
    if body.len() > 0 && all_digits(body) && dec_value(body) <= usize::MAX as nat {
        Some(dec_value(body) as usize)
    } else {
        None
    }
}

/// Parsing inverts rendering: the canonical decimal string of `n` parses
/// back to `n`.
pub proof fn lemma_parse_dec(n: usize)
    ensures
        parse_usize_spec(dec_str(n as nat)) == Some(n),
{
    lemma_dec_str_digits(n as nat);
    lemma_dec_str_value(n as nat);
    let s = dec_str(n as nat);
    assert(is_digit(s[0]));
    assert(s[0] != '+');
    assert(dec_value(s) == n as nat);
}

fn digit_str(d: usize) -> (r: &'static str)
    requires
        d < 10,
    ensures
        r@ == seq![char_of_digit(d as nat)],
{
    proof {
        reveal_strlit("0");
        reveal_strlit("1");
        reveal_strlit("2");
        reveal_strlit("3");
        reveal_strlit("4");
        reveal_strlit("5");
        reveal_strlit("6");
        reveal_strlit("7");
        reveal_strlit("8");
        reveal_strlit("9");
    }
    let r: &'static str = if d == 0 {
        "0"
    } else if d == 1 {
        "1"
    } else if d == 2 {
        "2"
    } else if d == 3 {
        "3"
    } else if d == 4 {
        "4"
    } else if d == 5 {
        "5"
    } else if d == 6 {
        "6"
    } else if d == 7 {
        "7"
    } else if d == 8 {
        "8"
    } else {
        "9"
    };
    proof {
        assert(r@ =~= seq![char_of_digit(d as nat)]);
    }
    r
}

/// Appends the decimal rendering of `n` to `out`.
pub fn push_dec(out: &mut String, n: usize)
    ensures
        final(out)@ == old(out)@ + dec_str(n as nat),
    decreases n,
{
    if n >= 10 {
        push_dec(out, n / 10);
    }
    let d = n % 10;
    out.append(digit_str(d));
    proof {
        if n >= 10 {
            assert(old(out)@ + dec_str((n / 10) as nat) + seq![char_of_digit((n % 10) as nat)]
                =~= old(out)@ + dec_str(n as nat));
        } else {
            assert(old(out)@ + seq![char_of_digit(n as nat)] =~= old(out)@ + dec_str(n as nat));
        }
    }
}

/// The decimal rendering of `n`, as `usize::to_string` would produce it.
pub fn to_dec(n: usize) -> (r: String)
    ensures
        r@ == dec_str(n as nat),
{
    let mut s = String::new();
    push_dec(&mut s, n);
    proof {
        assert(Seq::<char>::empty() + dec_str(n as nat) =~= dec_str(n as nat));
    }
    s
}

/// Decimal parsing with the acceptance rules of `str::parse::<usize>`.
pub fn parse_usize(s: &str) -> (r: Option<usize>)
    ensures
        r == parse_usize_spec(s@),
{
    let n = s.unicode_len();
    let mut i: usize = 0;
    if n > 0 && s.get_char(0) == '+' {
        i = 1;
    }
    let ghost body = if s@.len() > 0 && s@[0] == '+' {
        s@.drop_first()
    } else {
        s@
    };
    let ghost start = i as int;
    proof {
        assert(body =~= s@.skip(start));
    }
    if i == n {
        return None;
    }
    let mut acc: usize = 0;
    let mut j: usize = i;
    while j < n
        invariant
            n == s@.len(),
            0 <= start <= j <= n,
            start < n,
            start == (if s@.len() > 0 && s@[0] == '+' { 1int } else { 0int }),
            body == s@.skip(start),
            body == (if s@.len() > 0 && s@[0] == '+' { s@.drop_first() } else { s@ }),
            all_digits(body.take(j - start)),
            acc as nat == dec_value(body.take(j - start)),
        decreases n - j,
    {
        let c = s.get_char(j);
        let cv = c as u32;
        let ghost pre = body.take(j - start);
        proof {
            assert(body == s@.skip(start));
            assert(body.len() == n - start) by {
                assert(s@.skip(start).len() == n - start);
            }
            assert(body[j - start] == s@[j as int]) by {
                assert(s@.skip(start)[j - start] == s@[(j - start) + start]);
            }
            assert(body.take(j + 1 - start).drop_last() =~= pre);
            assert(body.take(j + 1 - start).last() == s@[j as int]);
        }
        if cv < '0' as u32 || cv > '9' as u32 {
            proof {
                assert(!is_digit(body[j - start]));
                assert(!all_digits(body));
            }
            return None;
        }
        let d = (cv - '0' as u32) as usize;
        proof {
            assert(d as nat == digit_val(s@[j as int]));
        }
        let step = match acc.checked_mul(10) {
            Some(t) => t.checked_add(d),
            None => None,
        };
        match step {
            Some(next) => {
                acc = next;
            },
            None => {
                proof {
                    assert(dec_value(body.take(j + 1 - start)) > usize::MAX as nat);
                    lemma_dec_value_mono(body, j + 1 - start);
                }
                return None;
            },
        }
        j = j + 1;
    }
    proof {
        assert(body.take(n - start) =~= body);
    }
    Some(acc)
}

} // verus!
