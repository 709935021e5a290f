//! Reading the counter table: words, lines and decimal numbers in bytes.

use vstd::prelude::*;

verus! {

/// Whether `b` is ASCII whitespace: a space, or one of tab, line feed,
/// vertical tab, form feed and carriage return.
pub open spec fn is_space(b: u8) -> bool {
    b == 32 || (9 <= b && b <= 13)
}

/// The length of the run of non-whitespace bytes at the start of `s`.
pub open spec fn word_len(s: Seq<u8>) -> nat
    decreases s.len(),
{
    if s.len() > 0 && !is_space(s[0]) {
        1 + word_len(s.drop_first())
    } else {
        0
    }
}

/// The maximal runs of non-whitespace bytes in `s`, in order.
pub open spec fn words(s: Seq<u8>) -> Seq<Seq<u8>>
    decreases s.len(),
    via words_decreases
{
    if s.len() == 0 {
        Seq::empty()
    } else if is_space(s[0]) {
        words(s.drop_first())
    } else {
        let n = word_len(s) as int;
        seq![s.subrange(0, n)] + words(s.subrange(n, s.len() as int))
    }
}

#[via_fn]
proof fn words_decreases(s: Seq<u8>) {
    lemma_word_len_bound(s);
}

/// The number that the decimal digits of `s` write, read as base ten.
pub open spec fn digits_value(s: Seq<u8>) -> nat
    decreases s.len(),
{
    if s.len() == 0 {
        0
    } else {
        (10 * digits_value(s.drop_last()) + (s.last() - 48)) as nat
    }
}

/// Whether every byte of `s` is a decimal digit.
pub open spec fn all_digits(s: Seq<u8>) -> bool {
    forall|i: int| 0 <= i < s.len() ==> 48 <= #[trigger] s[i] <= 57
}

/// The digits of a number word: the word without one leading plus sign.
pub open spec fn unsigned_digits(s: Seq<u8>) -> Seq<u8> {
    if s.len() > 0 && s[0] == 43 {
        s.drop_first()
    } else {
        s
    }
}

/// The unsigned 64-bit number that the word `s` writes: an optional plus
/// sign, then at least one decimal digit and nothing else, with a value
/// that fits. `None` for every other word.
pub open spec fn parsed_u64(s: Seq<u8>) -> Option<u64> {
    let d = unsigned_digits(s);
    if d.len() > 0 && all_digits(d) && digits_value(d) <= u64::MAX {
        Some(digits_value(d) as u64)
    } else {
        None
    }
}

/// The run of non-whitespace bytes at the start of a sequence is no longer
/// than the sequence.
pub proof fn lemma_word_len_bound(s: Seq<u8>)
    ensures
        word_len(s) <= s.len(),
        word_len(s) < s.len() ==> is_space(s[word_len(s) as int]),
        forall|i: int| 0 <= i < word_len(s) ==> !is_space(#[trigger] s[i]),
    decreases s.len(),
{
    if s.len() > 0 && !is_space(s[0]) {
        let t = s.drop_first();
        lemma_word_len_bound(t);
        assert forall|i: int| 0 <= i < word_len(s) implies !is_space(#[trigger] s[i]) by {
            if i > 0 {
                assert(s[i] == t[i - 1]);
            }
        }
    }
}

/// A value of digits only grows when a digit is appended.
pub proof fn lemma_digits_value_grows(s: Seq<u8>, k: int)
    requires
        all_digits(s),
        0 <= k <= s.len(),
    ensures
        digits_value(s.subrange(0, k)) <= digits_value(s),
    decreases s.len() - k,
{
    if k < s.len() {
        let longer = s.subrange(0, k + 1);
        assert(longer.drop_last() =~= s.subrange(0, k));
        assert(longer.last() == s[k]);
        lemma_digits_value_grows(s, k + 1);
    } else {
        assert(s.subrange(0, k) =~= s);
    }
}

/// Reads the word `word` as an unsigned 64-bit decimal number.
pub fn parse_u64(word: &[u8]) -> (r: Option<u64>)
    ensures
        r == parsed_u64(word@),
{
    let n: usize = word.len();
    let start: usize = if n > 0 && word[0] == 43 { 1 } else { 0 };
    let ghost d = unsigned_digits(word@);
    assert(d =~= word@.subrange(start as int, n as int));
    if start == n {
        return None;
    }
    let mut acc: u64 = 0;
    let mut i: usize = start;
    while i < n
        invariant
            start <= i <= n,
            n == word@.len(),
            d == unsigned_digits(word@),
            d == word@.subrange(start as int, n as int),
            all_digits(d.subrange(0, i - start)),
            acc == digits_value(d.subrange(0, i - start)),
        decreases n - i,
    {
        let b: u8 = word[i];
        let ghost seen = d.subrange(0, i - start);
        let ghost next = d.subrange(0, i - start + 1);
        proof {
            assert(next.drop_last() =~= seen);
            assert(next.last() == b);
        }
        if b < 48 || b > 57 {
            assert(d[i - start] == b);
            return None;
        }
        let digit: u64 = (b - 48) as u64;
        if acc > (u64::MAX - digit) / 10 {
            proof {
                assert(digits_value(next) > u64::MAX);
                if all_digits(d) {
                    lemma_digits_value_grows(d, i - start + 1);
                }
            }
            return None;
        }
        acc = 10 * acc + digit;
        proof {
            assert forall|j: int| 0 <= j < next.len() implies 48 <= #[trigger] next[j] <= 57 by {
                if j < seen.len() {
                    assert(next[j] == seen[j]);
                }
            }
        }
        i = i + 1;
    }
    proof {
        assert(d.subrange(0, i - start) =~= d);
    }
    Some(acc)
}

/// Splits `row` into its words.
pub fn split_words(row: &[u8]) -> (r: Vec<Vec<u8>>)
    ensures
        r@.len() == words(row@).len(),
        forall|j: int| 0 <= j < r@.len() ==> (#[trigger] r@[j])@ == words(row@)[j],
{
    let n: usize = row.len();
    let mut done: Vec<Vec<u8>> = Vec::new();
    let mut i: usize = 0;
    assert(row@.subrange(0, n as int) =~= row@);
    while i < n
        invariant
            i <= n,
            n == row@.len(),
            words(row@).len() == done@.len() + words(row@.subrange(i as int, n as int)).len(),
            forall|j: int| 0 <= j < done@.len() ==> (#[trigger] done@[j])@ == words(row@)[j],
            forall|j: int|
                0 <= j < words(row@.subrange(i as int, n as int)).len() ==> words(row@)[done@.len()
                    + j] == #[trigger] words(row@.subrange(i as int, n as int))[j],
        decreases n - i,
    {
        let ghost rest = row@.subrange(i as int, n as int);
        if is_space_byte(row[i]) {
            assert(rest.drop_first() =~= row@.subrange(i + 1, n as int));
            i = i + 1;
        } else {
            let mut word: Vec<u8> = Vec::new();
            let mut j: usize = i;
            assert(rest.subrange(0, rest.len() as int) =~= rest);
            while j < n && !is_space_byte(row[j])
                invariant
                    i <= j <= n,
                    n == row@.len(),
                    rest == row@.subrange(i as int, n as int),
                    word@ == rest.subrange(0, j - i),
                    word_len(rest) == (j - i) + word_len(rest.subrange(j - i, rest.len() as int)),
                decreases n - j,
            {
                let ghost tail = rest.subrange(j - i, rest.len() as int);
                proof {
                    assert(tail[0] == row@[j as int]);
                    assert(tail.drop_first() =~= rest.subrange(j - i + 1, rest.len() as int));
                    assert(rest.subrange(0, j - i).push(row@[j as int]) =~= rest.subrange(
                        0,
                        j - i + 1,
                    ));
                }
                word.push(row[j]);
                j = j + 1;
            }
            proof {
                let tail = rest.subrange(j - i, rest.len() as int);
                if j < n {
                    assert(tail[0] == row@[j as int]);
                }
                assert(word_len(tail) == 0);
                assert(word_len(rest) == j - i);
                assert(rest.subrange(j - i, rest.len() as int) =~= row@.subrange(
                    j as int,
                    n as int,
                ));
                let after = words(row@.subrange(j as int, n as int));
                assert(words(rest) == seq![rest.subrange(0, j - i)] + after);
                assert(words(rest)[0] == word@);
                assert(words(row@)[done@.len() as int + 0] == words(rest)[0]);
                assert forall|k: int| 0 <= k < after.len() implies words(row@)[done@.len() + 1
                    + k] == #[trigger] after[k] by {
                    assert(words(rest)[k + 1] == after[k]);
                    assert(words(row@)[done@.len() + (k + 1)] == words(rest)[k + 1]);
                }
            }
            let ghost before = done@;
            done.push(word);
            proof {
                assert forall|k: int| 0 <= k < done@.len() implies (#[trigger] done@[k])@ == words(
                    row@,
                )[k] by {
                    if k < before.len() {
                        assert(done@[k] == before[k]);
                    }
                }
            }
            i = j;
        }
    }
    proof {
        assert(row@.subrange(n as int, n as int).len() == 0);
    }
    done
}

/// Tests a byte for ASCII whitespace.
pub fn is_space_byte(b: u8) -> (r: bool)
    ensures
        r == is_space(b),
{
    b == 32 || (9 <= b && b <= 13)
}

} // verus!
