use vstd::prelude::*;

verus! {

/// The input cannot be split: some stretch of more than `max_size`
/// characters holds no separator.
#[derive(Debug, PartialEq, Eq, Structural, Clone, Copy)]
pub enum Error {
    SeparatorNotFound,
}

/// The last index below `end` holding the separator, if any.
pub open spec fn last_sep_in(s: Seq<char>, end: int, sep: char) -> Option<int>
    decreases end,
{
    if end <= 0 {
        Option::None
    } else if s[end - 1] == sep {
        Option::Some(end - 1)
    } else {
        last_sep_in(s, end - 1, sep)
    }
}

proof fn lemma_last_sep_characterization(s: Seq<char>, end: int, sep: char)
    requires
        0 <= end <= s.len(),
    ensures
        match last_sep_in(s, end, sep) {
            Option::Some(i) => 0 <= i < end && s[i] == sep && forall|k: int|
                i < k < end ==> s[k] != sep,
            Option::None => forall|k: int| 0 <= k < end ==> s[k] != sep,
        },
    decreases end,
{
    if end > 0 && s[end - 1] != sep {
        lemma_last_sep_characterization(s, end - 1, sep);
    }
}

/// Greedy splitting of `s` into stretches of at most `max` characters,
/// each cut at the last separator that fits; the separators are
/// dropped. `None` where some stretch cannot be cut.
pub open spec fn greedy_batches(s: Seq<char>, max: int, sep: char) -> Option<Seq<Seq<char>>>
    decreases s.len(),
{
    if s.len() <= max {
        Option::Some(seq![s])
    } else {
        match last_sep_in(s, max + 1, sep) {
            Option::None => Option::None,
            Option::Some(i) => if !(0 <= i <= max) {
                Option::None
            } else {
                match greedy_batches(s.skip(i + 1), max, sep) {
                    Option::None => Option::None,
                    Option::Some(rest) => Option::Some(seq![s.take(i)] + rest),
                }
            },
        }
    }
}

fn rfind_in_range(s: &str, start: usize, end: usize, sep: char) -> (r: Option<usize>)
    requires
        start <= end <= s@.len(),
    ensures
        r matches Some(i) ==> start <= i < end && s@[i as int] == sep && forall|k: int|
            i < k < end ==> s@[k] != sep,
        r is None ==> forall|k: int| start <= k < end ==> s@[k] != sep,
{
    let mut k: usize = end;
    while k > start
        invariant
            start <= k <= end <= s@.len(),
            forall|x: int| k <= x < end ==> s@[x] != sep,
        decreases k,
    {
        k -= 1;
        if s.get_char(k) == sep {
            return Some(k);
        }
    }
    None
}

/// Splits `input` into stretches of at most `max_size` characters,
/// cutting greedily at the last separator that fits each stretch and
/// dropping the separators. An input short enough to fit is returned
/// whole; an input holding a stretch of more than `max_size`
/// characters without a separator cannot be split and is refused.
pub fn batch_string<'a>(input: &'a str, max_size: usize, separator: char) -> (r: Result<
    Vec<&'a str>,
    Error,
>)
    ensures
        match r {
            Result::Ok(batches) => Option::Some(batches.deep_view()) == greedy_batches(
                input@,
                max_size as int,
                separator,
            ),
            Result::Err(e) => {
                &&& greedy_batches(input@, max_size as int, separator) is None
                &&& e == Error::SeparatorNotFound
            },
        },
{
    let n = input.unicode_len();
    let mut cur: usize = 0;
    let mut batches: Vec<&'a str> = Vec::new();
    proof {
        assert(input@.skip(0) =~= input@);
        assert(batches.deep_view() =~= Seq::<Seq<char>>::empty());
        match greedy_batches(input@, max_size as int, separator) {
            Option::Some(rest) => {
                assert(batches.deep_view() + rest =~= rest);
            },
            Option::None => {},
        }
    }
    while n - cur > max_size
        invariant
            cur <= n,
            n == input@.len(),
            match greedy_batches(input@.skip(cur as int), max_size as int, separator) {
                Option::Some(rest) => greedy_batches(input@, max_size as int, separator)
                    == Option::Some(batches.deep_view() + rest),
                Option::None => greedy_batches(input@, max_size as int, separator) is None,
            },
        decreases n - cur,
    {
        let ghost suffix = input@.skip(cur as int);
        let window_end = cur + max_size + 1;
        proof {
            assert(suffix.len() == n - cur);
            assert(suffix.len() > max_size);
        }
        match rfind_in_range(input, cur, window_end, separator) {
            Option::None => {
                proof {
                    lemma_last_sep_characterization(suffix, max_size as int + 1, separator);
                    match last_sep_in(suffix, max_size as int + 1, separator) {
                        Option::Some(x) => {
                            assert(suffix[x] == input@[cur + x]);
                            assert(false);
                        },
                        Option::None => {},
                    }
                }
                return Err(Error::SeparatorNotFound);
            },
            Option::Some(i) => {
                proof {
                    lemma_last_sep_characterization(suffix, max_size as int + 1, separator);
                    assert(suffix[i - cur] == input@[i as int]);
                    match last_sep_in(suffix, max_size as int + 1, separator) {
                        Option::None => {
                            assert(false);
                        },
                        Option::Some(x) => {
                            // the found absolute index corresponds to the
                            // spec's last separator in the window
                            assert(suffix[x] == input@[cur + x]);
                            if x < i - cur {
                                assert(false);
                            }
                            if x > i - cur {
                                assert(input@[cur + x] != separator);
                                assert(false);
                            }
                        },
                    }
                }
                let batch = input.substring_char(cur, i);
                let ghost old_batches = batches.deep_view();
                batches.push(batch);
                proof {
                    assert(batches.deep_view() =~= old_batches.push(batch@));
                    assert(suffix.take(i - cur) =~= input@.subrange(cur as int, i as int));
                    assert(batch@ == suffix.take(i - cur));
                    assert(suffix.skip(i - cur + 1) =~= input@.skip(i + 1));
                    match greedy_batches(input@.skip(i + 1), max_size as int, separator) {
                        Option::Some(rest2) => {
                            assert(greedy_batches(suffix, max_size as int, separator)
                                == Option::Some(seq![suffix.take(i - cur)] + rest2));
                            assert(old_batches + (seq![batch@] + rest2) =~= batches.deep_view()
                                + rest2);
                        },
                        Option::None => {
                            assert(greedy_batches(suffix, max_size as int, separator) is None);
                        },
                    }
                }
                cur = i + 1;
            },
        }
    }
    let tail = input.substring_char(cur, n);
    let ghost old_batches = batches.deep_view();
    batches.push(tail);
    proof {
        let suffix = input@.skip(cur as int);
        assert(tail@ =~= suffix);
        assert(greedy_batches(suffix, max_size as int, separator) == Option::Some(seq![suffix]));
        assert(batches.deep_view() =~= old_batches.push(tail@));
        assert(old_batches + seq![suffix] =~= batches.deep_view());
    }
    Ok(batches)
}

} // verus!
