//! Character-level helpers: Unicode white space, splitting a command line
//! into words, decimal rendering and edits of a `String`.
use vstd::prelude::*;

verus! {

/// The Unicode `White_Space` property: the characters that
/// `char::is_whitespace` accepts.
pub open spec fn is_white_space(c: char) -> bool {
    let n = c as u32;
    ||| 0x09 <= n <= 0x0D
    ||| n == 0x20
    ||| n == 0x85
    ||| n == 0xA0
    ||| n == 0x1680
    ||| 0x2000 <= n <= 0x200A
    ||| n == 0x2028
    ||| n == 0x2029
    ||| n == 0x202F
    ||| n == 0x205F
    ||| n == 0x3000
}

/// Executable test for [`is_white_space`].
pub fn is_white_space_char(c: char) -> (r: bool)
    ensures
        r == is_white_space(c),
{
    let n = c as u32;
    (0x09 <= n && n <= 0x0D) || n == 0x20 || n == 0x85 || n == 0xA0 || n == 0x1680 || (0x2000
        <= n && n <= 0x200A) || n == 0x2028 || n == 0x2029 || n == 0x202F || n == 0x205F || n
        == 0x3000
}

/// The maximal runs of non-white-space characters of `s`, in order: what
/// `str::split_whitespace` yields.
pub open spec fn words(s: Seq<char>) -> Seq<Seq<char>>
    decreases s.len(),
{
    if s.len() == 0 {
        Seq::empty()
    } else {
        let prev = words(s.drop_last());
        let c = s.last();
        if is_white_space(c) {
            prev
        } else if s.len() >= 2 && !is_white_space(s[s.len() - 2]) {
            prev.update(prev.len() - 1, prev.last().push(c))
        } else {
            prev.push(seq![c])
        }
    }
}

/// A sequence of characters with no white space in it.
pub open spec fn is_word(w: Seq<char>) -> bool {
    &&& w.len() > 0
    &&& forall|k: int| 0 <= k < w.len() ==> !is_white_space(#[trigger] w[k])
}

/// The characters of `s` that are not white space, in order.
pub open spec fn non_white(s: Seq<char>) -> Seq<char>
    decreases s.len(),
{
    if s.len() == 0 {
        Seq::empty()
    } else if is_white_space(s.last()) {
        non_white(s.drop_last())
    } else {
        non_white(s.drop_last()).push(s.last())
    }
}

/// All the words laid end to end.
pub open spec fn concat_words(ws: Seq<Seq<char>>) -> Seq<char>
    decreases ws.len(),
{
    if ws.len() == 0 {
        Seq::empty()
    } else {
        concat_words(ws.drop_last()) + ws.last()
    }
}

proof fn lemma_concat_words_update_last(ws: Seq<Seq<char>>, c: char)
    requires
        ws.len() > 0,
    ensures
        concat_words(ws.update(ws.len() - 1, ws.last().push(c))) == concat_words(ws).push(c),
{
    let u = ws.update(ws.len() - 1, ws.last().push(c));
    assert(u.drop_last() =~= ws.drop_last());
    assert(concat_words(ws.drop_last()) + ws.last().push(c) =~= (concat_words(ws.drop_last())
        + ws.last()).push(c));
}

proof fn lemma_concat_words_push(ws: Seq<Seq<char>>, w: Seq<char>)
    ensures
        concat_words(ws.push(w)) == concat_words(ws) + w,
{
    assert(ws.push(w).drop_last() =~= ws);
}

/// Splitting a command line into words loses nothing but white space:
/// every word is non-empty and free of white space, the words laid end to
/// end are the non-white-space characters of the line in order, and the
/// line ends inside a word exactly when its last character is not white
/// space.
pub proof fn lemma_words_properties(s: Seq<char>)
    ensures
        forall|i: int| 0 <= i < words(s).len() ==> is_word(#[trigger] words(s)[i]),
        concat_words(words(s)) == non_white(s),
        s.len() > 0 && !is_white_space(s.last()) ==> words(s).len() > 0,
    decreases s.len(),
{
    if s.len() > 0 {
        let p = s.drop_last();
        lemma_words_properties(p);
        let prev = words(p);
        let c = s.last();
        if is_white_space(c) {
        } else if s.len() >= 2 && !is_white_space(s[s.len() - 2]) {
            assert(p.last() == s[s.len() - 2]);
            let u = prev.update(prev.len() - 1, prev.last().push(c));
            assert forall|i: int| 0 <= i < u.len() implies is_word(#[trigger] u[i]) by {
                if i == prev.len() - 1 {
                    assert(is_word(prev[i]));
                    assert forall|k: int| 0 <= k < u[i].len() implies !is_white_space(
                        #[trigger] u[i][k],
                    ) by {
                        if k < prev[i].len() {
                            assert(u[i][k] == prev[i][k]);
                        }
                    }
                } else {
                    assert(u[i] == prev[i]);
                }
            }
            lemma_concat_words_update_last(prev, c);
        } else {
            let u = prev.push(seq![c]);
            assert forall|i: int| 0 <= i < u.len() implies is_word(#[trigger] u[i]) by {
                if i < prev.len() {
                    assert(u[i] == prev[i]);
                } else {
                    assert(u[i] =~= seq![c]);
                }
            }
            lemma_concat_words_push(prev, seq![c]);
            assert(seq![c] =~= Seq::<char>::empty().push(c));
            assert(non_white(p) + seq![c] =~= non_white(p).push(c));
        }
    }
}

/// A line without white space that is not empty is a single word, however
/// long: words are never cut.
pub proof fn lemma_words_of_one_word(w: Seq<char>)
    requires
        is_word(w),
    ensures
        words(w) == seq![w],
    decreases w.len(),
{
    if w.len() == 1 {
        assert(w.drop_last() =~= Seq::<char>::empty());
        assert(seq![w.last()] =~= w);
        assert(!is_white_space(w[0]));
        assert(words(w) == words(w.drop_last()).push(seq![w.last()]));
        assert(Seq::<Seq<char>>::empty().push(seq![w.last()]) =~= seq![w]);
    } else {
        let p = w.drop_last();
        assert forall|k: int| 0 <= k < p.len() implies !is_white_space(#[trigger] p[k]) by {
            assert(p[k] == w[k]);
        }
        lemma_words_of_one_word(p);
        assert(w[w.len() - 2] == p[p.len() - 1]);
        assert(!is_white_space(w[w.len() - 2]));
        assert(p.push(w.last()) =~= w);
        assert(!is_white_space(w.last()));
        assert(words(w) == words(p).update(words(p).len() - 1, words(p).last().push(w.last())));
        assert(seq![p].update(0, p.push(w.last())) =~= seq![w]);
    }
}

/// The empty line has no words.
pub proof fn lemma_words_of_empty()
    ensures
        words(Seq::<char>::empty()).len() == 0,
{
}

/// White space separates words: the words of `a`, a white-space
/// character, then `b` are the words of `a` followed by the words of `b`.
/// With the two laws above this fixes the words of every line: they are its
/// maximal runs of non-white-space characters, in order.
pub proof fn lemma_words_split_at_white_space(a: Seq<char>, c: char, b: Seq<char>)
    requires
        is_white_space(c),
    ensures
        words(a.push(c) + b) == words(a) + words(b),
    decreases b.len(),
{
    if b.len() == 0 {
        assert(a.push(c) + b =~= a.push(c));
        assert(a.push(c).drop_last() =~= a);
        assert(words(b) =~= Seq::<Seq<char>>::empty());
        assert(words(a) + words(b) =~= words(a));
    } else {
        let bp = b.drop_last();
        let d = b.last();
        lemma_words_split_at_white_space(a, c, bp);
        let whole = a.push(c) + b;
        let wp = a.push(c) + bp;
        assert(whole.drop_last() =~= wp);
        assert(whole.last() == d);
        let left = words(wp);
        let right = words(bp);
        assert(left == words(a) + right);
        if is_white_space(d) {
        } else if b.len() >= 2 && !is_white_space(b[b.len() - 2]) {
            assert(whole[whole.len() - 2] == b[b.len() - 2]);
            assert(bp.last() == b[b.len() - 2]);
            lemma_words_properties(bp);
            assert(right.len() > 0);
            assert(left.update(left.len() - 1, left.last().push(d)) =~= words(a) + right.update(
                right.len() - 1,
                right.last().push(d),
            ));
        } else {
            if b.len() >= 2 {
                assert(whole[whole.len() - 2] == b[b.len() - 2]);
            } else {
                assert(whole[whole.len() - 2] == c);
            }
            assert(left.push(seq![d]) =~= words(a) + right.push(seq![d]));
        }
    }
}

/// Appends `c` to `s` (`String::push`).
#[verifier::external_body]
pub fn push_char(s: &mut String, c: char)
    ensures
        final(s)@ == old(s)@.push(c),
{
    s.push(c)
}

/// Removes the last character of `s` and hands it back, or `None` when `s`
/// is empty (`String::pop`).
#[verifier::external_body]
pub fn pop_char(s: &mut String) -> (r: Option<char>)
    ensures
        old(s)@.len() == 0 ==> r is None && final(s)@ == old(s)@,
        old(s)@.len() > 0 ==> r == Some(old(s)@.last()) && final(s)@ == old(s)@.drop_last(),
{
    s.pop()
}

/// A copy of `s` as an owned `String`.
pub fn to_string(s: &str) -> (r: String)
    ensures
        r@ == s@,
{
    s.to_owned()
}

/// The words of `line`, as `str::split_whitespace` cuts them.
pub fn split_whitespace(line: &str) -> (r: Vec<String>)
    ensures
        r@.len() == words(line@).len(),
        forall|i: int| 0 <= i < r@.len() ==> #[trigger] r@[i]@ == words(line@)[i],
{
    let n = line.unicode_len();
    let mut done: Vec<String> = Vec::new();
    let mut cur = String::new();
    let mut in_word = false;
    let mut i: usize = 0;
    while i < n
        invariant
            n == line@.len(),
            0 <= i <= n,
            in_word == (i > 0 && !is_white_space(line@[i - 1])),
            in_word ==> words(line@.take(i as int)).len() == done@.len() + 1 && words(
                line@.take(i as int),
            ).last() == cur@,
            !in_word ==> words(line@.take(i as int)).len() == done@.len(),
            forall|k: int| 0 <= k < done@.len() ==> #[trigger] done@[k]@ == words(
                line@.take(i as int),
            )[k],
        decreases n - i,
    {
        let c = line.get_char(i);
        let ghost t = line@.take(i as int);
        let ghost t1 = line@.take(i + 1);
        assert(t1.drop_last() =~= t);
        assert(t1.last() == c);
        if is_white_space_char(c) {
            if in_word {
                let w = cur;
                done.push(w);
                cur = String::new();
            }
            in_word = false;
        } else {
            if in_word {
                assert(t1[t1.len() - 2] == line@[i - 1]);
            } else {
                if i > 0 {
                    assert(t1[t1.len() - 2] == line@[i - 1]);
                }
                cur = String::new();
            }
            push_char(&mut cur, c);
            in_word = true;
        }
        i = i + 1;
    }
    assert(line@.take(n as int) =~= line@);
    if in_word {
        done.push(cur);
    }
    done
}

/// The decimal digit character for `d < 10`.
pub open spec fn digit_char(d: nat) -> char {
    (('0' as u32) + d) as char
}

/// The decimal notation of `n`, without leading zeros.
pub open spec fn decimal(n: nat) -> Seq<char>
    decreases n,
{
    if n < 10 {
        seq![digit_char(n)]
    } else {
        decimal(n / 10).push(digit_char(n % 10))
    }
}

/// The value of a decimal digit character.
pub open spec fn digit_value(c: char) -> int {
    (c as u32) as int - 0x30
}

/// The number that a string of decimal digits denotes, most significant
/// digit first.
pub open spec fn decimal_value(s: Seq<char>) -> int
    decreases s.len(),
{
    if s.len() == 0 {
        0
    } else {
        decimal_value(s.drop_last()) * 10 + digit_value(s.last())
    }
}

/// `decimal` is the standard base-10 notation: every character is a digit
/// `0` to `9`, the digits read back to `n`, and there is no leading zero
/// except in the notation of zero itself.
pub proof fn lemma_decimal_reads_back(n: nat)
    ensures
        decimal(n).len() > 0,
        forall|i: int|
            0 <= i < decimal(n).len() ==> 0x30 <= (#[trigger] decimal(n)[i]) as u32 <= 0x39,
        decimal_value(decimal(n)) == n,
        n > 0 ==> decimal(n)[0] != '0',
    decreases n,
{
    if n < 10 {
        assert(digit_char(n) as u32 == 0x30 + n);
        assert(decimal(n).drop_last() =~= Seq::<char>::empty());
        assert(decimal_value(decimal(n)) == decimal_value(Seq::<char>::empty()) * 10
            + digit_value(digit_char(n)));
    } else {
        lemma_decimal_reads_back(n / 10);
        let d = (n % 10) as nat;
        assert(digit_char(d) as u32 == 0x30 + d);
        let p = decimal(n / 10);
        assert(decimal(n).drop_last() =~= p);
        assert(decimal(n)[0] == p[0]);
        assert(decimal(n).last() == digit_char(d));
        assert(decimal_value(decimal(n)) == decimal_value(p) * 10 + digit_value(digit_char(d)));
        assert(n == (n / 10) * 10 + n % 10);
    }
}

/// Different numbers have different decimal notations.
pub proof fn lemma_decimal_injective(m: nat, n: nat)
    requires
        decimal(m) == decimal(n),
    ensures
        m == n,
{
    lemma_decimal_reads_back(m);
    lemma_decimal_reads_back(n);
}

/// Appends the decimal notation of `n` to `out`.
pub fn push_decimal(out: &mut String, n: u32)
    ensures
        final(out)@ == old(out)@ + decimal(n as nat),
    decreases n,
{
    if n >= 10 {
        push_decimal(out, n / 10);
    }
    let d = n % 10;
    let c = char_from_digit(d);
    push_char(out, c);
    proof {
        if n < 10 {
            assert(old(out)@ + decimal(n as nat) =~= old(out)@.push(digit_char(n as nat)));
        } else {
            assert(old(out)@ + decimal(n as nat) =~= (old(out)@ + decimal((n / 10) as nat)).push(
                digit_char((n % 10) as nat),
            ));
        }
    }
}

fn char_from_digit(d: u32) -> (c: char)
    requires
        d < 10,
    ensures
        c == digit_char(d as nat),
{
    if d == 0 {
        '0'
    } else if d == 1 {
        '1'
    } else if d == 2 {
        '2'
    } else if d == 3 {
        '3'
    } else if d == 4 {
        '4'
    } else if d == 5 {
        '5'
    } else if d == 6 {
        '6'
    } else if d == 7 {
        '7'
    } else if d == 8 {
        '8'
    } else {
        '9'
    }
}

} // verus!
