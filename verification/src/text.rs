//! Character-sequence utilities shared by the mailer's components: counting
//! occurrences of a character, splitting text into lines, trimming
//! whitespace, joining lines, and printing decimal numbers.

use vstd::prelude::*;
use vstd::string::*;

verus! {

/// Number of occurrences of `c` in `s`.
pub open spec fn count_char(s: Seq<char>, c: char) -> nat
    decreases s.len(),
{
    if s.len() == 0 {
        0
    } else {
        count_char(s.drop_last(), c) + (if s.last() == c {
            1nat
        } else {
            0nat
        })
    }
}

pub proof fn lemma_count_char_push(s: Seq<char>, c: char, x: char)
    ensures
        count_char(s.push(x), c) == count_char(s, c) + (if x == c {
            1nat
        } else {
            0nat
        }),
{
    assert(s.push(x).drop_last() =~= s);
}

/// Counts how many characters of `s` equal `c`.
pub fn count_char_in(s: &str, c: char) -> (n: usize)
    ensures
        n == count_char(s@, c),
{
    let len = s.unicode_len();
    let mut n: usize = 0;
    let mut i: usize = 0;
    while i < len
        invariant
            i <= len == s@.len(),
            n == count_char(s@.take(i as int), c),
            n <= i,
        decreases len - i,
    {
        let ch = s.get_char(i);
        proof {
            lemma_count_char_push(s@.take(i as int), c, s@[i as int]);
            assert(s@.take(i + 1) =~= s@.take(i as int).push(s@[i as int]));
        }
        if ch == c {
            n = n + 1;
        }
        i = i + 1;
    }
    proof {
        assert(s@.take(len as int) =~= s@);
    }
    n
}

/// Whitespace as `char::is_whitespace` accepts it — the Unicode
/// `White_Space` characters — so trimming strips what `str::trim` strips.
pub open spec fn is_space(c: char) -> bool {
    let u = c as u32;
    (9 <= u && u <= 13) || u == 32 || u == 0x85 || u == 0xa0 || u == 0x1680 || (0x2000 <= u && u
        <= 0x200a) || u == 0x2028 || u == 0x2029 || u == 0x202f || u == 0x205f || u == 0x3000
}

/// `s` without its leading whitespace.
pub open spec fn trim_start(s: Seq<char>) -> Seq<char>
    decreases s.len(),
{
    if s.len() > 0 && is_space(s[0]) {
        trim_start(s.drop_first())
    } else {
        s
    }
}

/// `s` without its trailing whitespace.
pub open spec fn trim_end(s: Seq<char>) -> Seq<char>
    decreases s.len(),
{
    if s.len() > 0 && is_space(s.last()) {
        trim_end(s.drop_last())
    } else {
        s
    }
}

/// `s` without leading and trailing whitespace.
pub open spec fn trim(s: Seq<char>) -> Seq<char> {
    trim_end(trim_start(s))
}

proof fn lemma_trim_start_at(s: Seq<char>, a: int)
    requires
        0 <= a <= s.len(),
        forall|j: int| 0 <= j < a ==> is_space(s[j]),
        a < s.len() ==> !is_space(s[a]),
    ensures
        trim_start(s) == s.skip(a),
    decreases a,
{
    if a == 0 {
        assert(s.skip(0) =~= s);
    } else {
        lemma_trim_start_at(s.drop_first(), a - 1);
        assert(s.drop_first().skip(a - 1) =~= s.skip(a));
    }
}

proof fn lemma_trim_end_at(s: Seq<char>, b: int)
    requires
        0 <= b <= s.len(),
        forall|j: int| b <= j < s.len() ==> is_space(s[j]),
        b > 0 ==> !is_space(s[b - 1]),
    ensures
        trim_end(s) == s.take(b),
    decreases s.len(),
{
    if s.len() == 0 {
        assert(s.take(0) =~= s);
    } else if b == s.len() {
        assert(s.take(b) =~= s);
    } else {
        lemma_trim_end_at(s.drop_last(), b);
        assert(s.drop_last().take(b) =~= s.take(b));
    }
}

proof fn lemma_trim_range(s: Seq<char>, a: int, b: int)
    requires
        0 <= a <= b <= s.len(),
        forall|j: int| 0 <= j < a ==> is_space(s[j]),
        forall|j: int| b <= j < s.len() ==> is_space(s[j]),
        a < b ==> !is_space(s[a]) && !is_space(s[b - 1]),
        a == b ==> a == s.len(),
    ensures
        trim(s) == s.subrange(a, b),
{
    lemma_trim_start_at(s, a);
    let t = s.skip(a);
    lemma_trim_end_at(t, b - a);
    assert(t.take(b - a) =~= s.subrange(a, b));
}

/// Tests whether `c` is a Unicode `White_Space` character.
pub fn is_space_char(c: char) -> (r: bool)
    ensures
        r == is_space(c),
{
    let u = c as u32;
    (9 <= u && u <= 13) || u == 32 || u == 0x85 || u == 0xa0 || u == 0x1680 || (0x2000 <= u && u
        <= 0x200a) || u == 0x2028 || u == 0x2029 || u == 0x202f || u == 0x205f || u == 0x3000
}

/// The slice of `s` with leading and trailing whitespace removed.
pub fn trim_of<'a>(s: &'a str) -> (r: &'a str)
    ensures
        r@ == trim(s@),
{
    let len = s.unicode_len();
    let mut a: usize = 0;
    while a < len && is_space_char(s.get_char(a))
        invariant
            a <= len == s@.len(),
            forall|j: int| 0 <= j < a ==> is_space(s@[j]),
        decreases len - a,
    {
        a = a + 1;
    }
    let mut b: usize = len;
    while b > a && is_space_char(s.get_char(b - 1))
        invariant
            a <= b <= len == s@.len(),
            forall|j: int| b <= j < len ==> is_space(s@[j]),
            a < len ==> !is_space(s@[a as int]),
        decreases b,
    {
        b = b - 1;
    }
    let r = s.substring_char(a, b);
    proof {
        lemma_trim_range(s@, a as int, b as int);
    }
    r
}

/// `s` split at every newline: one entry more than there are newlines.
pub open spec fn split_full(s: Seq<char>) -> Seq<Seq<char>>
    decreases s.len(),
{
    if s.len() == 0 {
        seq![Seq::<char>::empty()]
    } else if s.last() == '\n' {
        split_full(s.drop_last()).push(Seq::<char>::empty())
    } else {
        let r = split_full(s.drop_last());
        r.update(r.len() - 1, r.last().push(s.last()))
    }
}

/// The lines of `s`, as the newline-separated pieces; a final newline does
/// not open a further empty line.
pub open spec fn split_lines(s: Seq<char>) -> Seq<Seq<char>> {
    if s.len() == 0 {
        Seq::<Seq<char>>::empty()
    } else if s.last() == '\n' {
        split_full(s.drop_last())
    } else {
        split_full(s)
    }
}

pub proof fn lemma_split_full_len(s: Seq<char>)
    ensures
        split_full(s).len() >= 1,
    decreases s.len(),
{
    if s.len() > 0 {
        lemma_split_full_len(s.drop_last());
    }
}

pub proof fn lemma_split_full_push(s: Seq<char>, x: char)
    ensures
        x == '\n' ==> split_full(s.push(x)) == split_full(s).push(Seq::<char>::empty()),
        x != '\n' ==> split_full(s.push(x)) == split_full(s).update(
            split_full(s).len() - 1,
            split_full(s).last().push(x),
        ),
{
    assert(s.push(x).drop_last() =~= s);
    assert(s.push(x).last() == x);
}

pub proof fn lemma_split_full_no_newline(s: Seq<char>)
    requires
        !s.contains('\n'),
    ensures
        split_full(s) == seq![s],
    decreases s.len(),
{
    if s.len() == 0 {
        assert(split_full(s) =~~= seq![s]);
    } else {
        assert(s.last() != '\n') by {
            assert(s[s.len() - 1] == s.last());
        }
        assert(!s.drop_last().contains('\n')) by {
            if s.drop_last().contains('\n') {
                let i = choose|i: int| 0 <= i < s.drop_last().len() && s.drop_last()[i] == '\n';
                assert(s[i] == '\n');
            }
        }
        lemma_split_full_no_newline(s.drop_last());
        assert(split_full(s) =~= seq![s]) by {
            assert(s.drop_last().push(s.last()) =~= s);
        }
    }
}

/// Splitting at the first newline: everything before it is one line, and
/// the rest splits on its own.
pub proof fn lemma_split_full_sep(a: Seq<char>, b: Seq<char>)
    requires
        !a.contains('\n'),
    ensures
        split_full(a + seq!['\n'] + b) == seq![a] + split_full(b),
    decreases b.len(),
{
    if b.len() == 0 {
        lemma_split_full_no_newline(a);
        assert((a + seq!['\n'] + b).drop_last() =~= a);
        assert((a + seq!['\n'] + b).last() == '\n');
        assert(split_full(a + seq!['\n'] + b) =~= seq![a] + split_full(b));
    } else {
        let x = b.last();
        let s0 = a + seq!['\n'] + b.drop_last();
        lemma_split_full_sep(a, b.drop_last());
        assert((a + seq!['\n'] + b) =~= s0.push(x));
        lemma_split_full_push(s0, x);
        lemma_split_full_len(b.drop_last());
        if x == '\n' {
            assert(split_full(a + seq!['\n'] + b) =~= seq![a] + split_full(b)) by {
                assert(b.drop_last().push(x) =~= b);
                lemma_split_full_push(b.drop_last(), x);
            }
        } else {
            assert(split_full(a + seq!['\n'] + b) =~= seq![a] + split_full(b)) by {
                assert(b.drop_last().push(x) =~= b);
                lemma_split_full_push(b.drop_last(), x);
                assert((seq![a] + split_full(b.drop_last())).last() == split_full(
                    b.drop_last(),
                ).last());
            }
        }
    }
}

/// The lines of `s`, each line a fresh string.
pub fn lines_of(s: &str) -> (r: Vec<String>)
    ensures
        r.deep_view() == split_lines(s@),
{
    let len = s.unicode_len();
    let mut r: Vec<String> = Vec::new();
    let mut start: usize = 0;
    let mut i: usize = 0;
    while i < len
        invariant
            start <= i <= len == s@.len(),
            r.deep_view() == split_full(s@.take(i as int)).drop_last(),
            s@.subrange(start as int, i as int) == split_full(s@.take(i as int)).last(),
        decreases len - i,
    {
        let c = s.get_char(i);
        proof {
            lemma_split_full_push(s@.take(i as int), s@[i as int]);
            lemma_split_full_len(s@.take(i as int));
            assert(s@.take(i + 1) =~= s@.take(i as int).push(s@[i as int]));
        }
        if c == '\n' {
            let line = s.substring_char(start, i).to_owned();
            let ghost old_dv = r.deep_view();
            r.push(line);
            proof {
                assert(r.deep_view() =~= old_dv.push(line@));
                assert(r.deep_view() =~= split_full(s@.take(i + 1)).drop_last());
            }
            start = i + 1;
        } else {
            proof {
                let f0 = split_full(s@.take(i as int));
                let f1 = split_full(s@.take(i + 1));
                assert(f1.drop_last() =~= f0.drop_last());
                assert(s@.subrange(start as int, i + 1) =~= s@.subrange(start as int, i as int).push(
                    s@[i as int],
                ));
            }
        }
        i = i + 1;
    }
    proof {
        assert(s@.take(len as int) =~= s@);
    }
    if len > 0 {
        let last = s.get_char(len - 1);
        if last != '\n' {
            let line = s.substring_char(start, len).to_owned();
            let ghost old_dv = r.deep_view();
            r.push(line);
            proof {
                lemma_split_full_len(s@);
                assert(r.deep_view() =~= old_dv.push(line@));
                assert(r.deep_view() =~= split_full(s@));
            }
        } else {
            proof {
                lemma_split_full_push(s@.drop_last(), '\n');
                assert(s@.drop_last().push('\n') =~= s@);
            }
        }
    }
    r
}

/// The lines of `ls` joined with single newlines.
pub open spec fn join_lines(ls: Seq<Seq<char>>) -> Seq<char>
    decreases ls.len(),
{
    if ls.len() == 0 {
        Seq::<char>::empty()
    } else if ls.len() == 1 {
        ls[0]
    } else {
        ls[0] + seq!['\n'] + join_lines(ls.drop_first())
    }
}

pub proof fn lemma_join_lines_push(ls: Seq<Seq<char>>, x: Seq<char>)
    ensures
        ls.len() == 0 ==> join_lines(ls.push(x)) == x,
        ls.len() > 0 ==> join_lines(ls.push(x)) == join_lines(ls) + seq!['\n'] + x,
    decreases ls.len(),
{
    if ls.len() == 0 {
        assert(ls.push(x)[0] == x);
    } else if ls.len() == 1 {
        assert(ls.push(x).drop_first() =~~= seq![x]);
        assert(join_lines(seq![x]) == x);
        assert(ls.push(x)[0] == ls[0]);
        assert(join_lines(ls.push(x)) == ls[0] + seq!['\n'] + x);
    } else {
        lemma_join_lines_push(ls.drop_first(), x);
        assert(ls.push(x).drop_first() =~~= ls.drop_first().push(x));
        assert(join_lines(ls) + seq!['\n'] + x =~= ls[0] + seq!['\n'] + (join_lines(
            ls.drop_first(),
        ) + seq!['\n'] + x));
    }
}

/// The decimal digit `d` as a character.
pub open spec fn digit_char(d: nat) -> char {
    if d == 0 {
        '0'
    } else if d == 1 {
        '1'
    } else if d == 2 {
        '2'
    } else if d == 3 {
        '3'
    } else if d == 4 {
        '4'
    } else if d == 5 {
        '5'
    } else if d == 6 {
        '6'
    } else if d == 7 {
        '7'
    } else if d == 8 {
        '8'
    } else {
        '9'
    }
}

/// `n` written in decimal, most significant digit first, no leading zeros.
pub open spec fn dec_str(n: nat) -> Seq<char>
    decreases n,
{
    if n < 10 {
        seq![digit_char(n)]
    } else {
        dec_str(n / 10) + seq![digit_char(n % 10)]
    }
}

fn digit_of(d: u16) -> (r: &'static str)
    requires
        d < 10,
    ensures
        r@ == seq![digit_char(d as nat)],
{
    proof {
        reveal_strlit("0");
        reveal_strlit("1");
        reveal_strlit("2");
        reveal_strlit("3");
        reveal_strlit("4");
        reveal_strlit("5");
        reveal_strlit("6");
        reveal_strlit("7");
        reveal_strlit("8");
        reveal_strlit("9");
    }
    if d == 0 {
        "0"
    } else if d == 1 {
        "1"
    } else if d == 2 {
        "2"
    } else if d == 3 {
        "3"
    } else if d == 4 {
        "4"
    } else if d == 5 {
        "5"
    } else if d == 6 {
        "6"
    } else if d == 7 {
        "7"
    } else if d == 8 {
        "8"
    } else {
        "9"
    }
}

/// `n` written in decimal.
pub fn dec_of(n: u16) -> (r: String)
    ensures
        r@ == dec_str(n as nat),
    decreases n,
{
    if n < 10 {
        digit_of(n).to_owned()
    } else {
        let mut s = dec_of(n / 10);
        s.append(digit_of(n % 10));
        s
    }
}

/// `s` starts with `p`.
pub open spec fn has_prefix(s: Seq<char>, p: Seq<char>) -> bool {
    s.len() >= p.len() && s.take(p.len() as int) == p
}

pub proof fn lemma_concat_has_prefix(p: Seq<char>, d: Seq<char>)
    ensures
        has_prefix(p + d, p),
{
    assert((p + d).take(p.len() as int) =~= p);
}

/// `prefix` followed by `detail`, as one fresh string.
pub fn prefixed(prefix: &str, detail: &str) -> (r: String)
    ensures
        r@ == prefix@ + detail@,
        has_prefix(r@, prefix@),
{
    let mut s = prefix.to_owned();
    s.append(detail);
    proof {
        lemma_concat_has_prefix(prefix@, detail@);
    }
    s
}

} // verus!
