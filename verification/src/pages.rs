//! Page files of a chapter: their names, their numbers and their order.
//!
//! A page file is named by its number and an extension, such as `12.png`.
//! Pages are read in the order of their numbers, not of their names.

use vstd::prelude::*;
use vstd::string::*;
use crate::text::{all_digits, digit_value, digits_value, find_last, is_digit, last_index_of};

verus! {

/// The part of a file name before its last dot. A name without a dot, or
/// whose only dot stands first, is its own stem.
pub open spec fn stem_of(name: Seq<char>) -> Seq<char> {
    match last_index_of(name, '.') {
        Some(i) => if i == 0 {
            name
        } else {
            name.take(i)
        },
        None => name,
    }
}

/// The part of a file name after its last dot. A name without a dot, or
/// whose only dot stands first, has no extension.
pub open spec fn extension_of(name: Seq<char>) -> Option<Seq<char>> {
    match last_index_of(name, '.') {
        Some(i) => if i == 0 {
            None
        } else {
            Some(name.skip(i + 1))
        },
        None => None,
    }
}

/// Splits a sign off the front of a number's text: whether it is negative, and the rest.
pub open spec fn signed_body(s: Seq<char>) -> (bool, Seq<char>) {
    if s.len() > 0 && s[0] == '-' {
        (true, s.skip(1))
    } else if s.len() > 0 && s[0] == '+' {
        (false, s.skip(1))
    } else {
        (false, s)
    }
}

/// The 32-bit integer that a text denotes: an optional sign, then one or more
/// digits, with a value in range. Any other text denotes none.
pub open spec fn int32_of(s: Seq<char>) -> Option<int> {
    let (negative, body) = signed_body(s);
    if body.len() == 0 || !all_digits(body) {
        None
    } else {
        let magnitude = digits_value(body) as int;
        let v = if negative {
            -magnitude
        } else {
            magnitude
        };
        if -2147483648 <= v <= 2147483647 {
            Some(v)
        } else {
            None
        }
    }
}

/// The number of the page that a file name stands for.
pub open spec fn page_number_of(name: Seq<char>) -> Option<int> {
    int32_of(stem_of(name))
}

/// Whether a file can serve as a page: its stem is a number and it has an extension.
pub open spec fn is_page_name(name: Seq<char>) -> bool {
    page_number_of(name).is_some() && extension_of(name).is_some()
}

/// A longer run of digits denotes no smaller a number than its beginning.
pub proof fn lemma_digits_value_grows(s: Seq<char>, k: int)
    requires
        all_digits(s),
        0 <= k <= s.len(),
    ensures
        digits_value(s.take(k)) <= digits_value(s),
    decreases s.len() - k,
{
    if k == s.len() {
        assert(s.take(k) =~= s);
    } else {
        lemma_digits_value_grows(s, k + 1);
        let t = s.take(k + 1);
        assert(t.drop_last() =~= s.take(k));
        assert(is_digit(s[k]));
        assert(t.last() == s[k]);
    }
}

/// The part of a file name before its last dot.
pub fn file_stem(name: &str) -> (stem: &str)
    ensures
        stem@ == stem_of(name@),
{
    match find_last(name, '.') {
        Some(i) => {
            if i == 0 {
                name
            } else {
                proof {
                    crate::text::lemma_last_index_of(name@, '.');
                }
                name.substring_char(0, i)
            }
        },
        None => name,
    }
}

/// The part of a file name after its last dot, if it has one.
pub fn file_extension(name: &str) -> (extension: Option<&str>)
    ensures
        match extension {
            Some(e) => extension_of(name@) == Some(e@),
            None => extension_of(name@).is_none(),
        },
{
    match find_last(name, '.') {
        Some(i) => {
            if i == 0 {
                None
            } else {
                proof {
                    crate::text::lemma_last_index_of(name@, '.');
                }
                let n = name.unicode_len();
                Some(name.substring_char(i + 1, n))
            }
        },
        None => None,
    }
}

/// Reads a 32-bit integer as `str::parse::<i32>` does: an optional sign,
/// then digits, and nothing else.
pub fn parse_i32(text: &str) -> (number: Option<i32>)
    ensures
        match number {
            Some(v) => int32_of(text@) == Some(v as int),
            None => int32_of(text@).is_none(),
        },
{
    let n = text.unicode_len();
    if n == 0 {
        return None;
    }
    let first = text.get_char(0);
    let negative = first == '-';
    let start: usize = if first == '-' || first == '+' {
        1
    } else {
        0
    };
    let ghost body = signed_body(text@).1;
    assert(body =~= text@.skip(start as int));
    assert(signed_body(text@) == (negative, body));
    if start == n {
        return None;
    }
    let mut acc: i64 = 0;
    let mut i: usize = start;
    assert(body.take(0) =~= Seq::<char>::empty());
    while i < n
        invariant
            start <= i <= n,
            n == text@.len(),
            body == text@.skip(start as int),
            signed_body(text@) == (negative, body),
            all_digits(body.take(i - start)),
            acc == digits_value(body.take(i - start)),
            0 <= acc <= 2147483648,
        decreases n - i,
    {
        let c = text.get_char(i);
        assert(body[i - start] == c);
        if !(c >= '0' && c <= '9') {
            assert(!is_digit(body[i - start]));
            return None;
        }
        let digit: i64 = (c as u32 - '0' as u32) as i64;
        proof {
            let t = body.take(i - start + 1);
            assert(t.drop_last() =~= body.take(i - start));
            assert(t.last() == c);
            assert(digit == digit_value(c));
            assert(digits_value(t) == acc * 10 + digit);
            assert forall|j: int| 0 <= j < t.len() implies is_digit(#[trigger] t[j]) by {
                if j < i - start {
                    assert(body.take(i - start)[j] == t[j]);
                }
            }
        }
        acc = acc * 10 + digit;
        if acc > 2147483648 {
            proof {
                if all_digits(body) {
                    lemma_digits_value_grows(body, i - start + 1);
                }
            }
            return None;
        }
        i += 1;
    }
    assert(body.take(n - start) =~= body);
    let v: i64 = if negative {
        -acc
    } else {
        acc
    };
    if v > 2147483647 {
        None
    } else {
        Some(v as i32)
    }
}

/// The number of the page that a file name stands for.
pub fn page_number(name: &str) -> (number: Option<i32>)
    ensures
        match number {
            Some(v) => page_number_of(name@) == Some(v as int),
            None => page_number_of(name@).is_none(),
        },
{
    parse_i32(file_stem(name))
}

/// Where a page with number `k` goes into pages already in order: behind the
/// last page whose number is not greater.
pub open spec fn insertion_point(numbers: Seq<int>, k: int) -> int
    decreases numbers.len(),
{
    if numbers.len() == 0 {
        0
    } else if numbers.last() <= k {
        numbers.len() as int
    } else {
        insertion_point(numbers.drop_last(), k)
    }
}

/// The order in which pages with the given numbers are read: the positions
/// `0..numbers.len()`, arranged by ascending number, pages with equal numbers
/// in the order in which they were listed.
pub open spec fn reading_order(numbers: Seq<int>) -> Seq<int>
    decreases numbers.len(),
{
    if numbers.len() == 0 {
        Seq::empty()
    } else {
        let earlier = reading_order(numbers.drop_last());
        let placed = Seq::new(earlier.len(), |j: int| numbers[earlier[j]]);
        earlier.insert(insertion_point(placed, numbers.last()), numbers.len() - 1)
    }
}

/// Whether `order` names positions of `numbers` whose numbers ascend.
pub open spec fn ascending(numbers: Seq<int>, order: Seq<int>) -> bool {
    forall|a: int, b: int|
        0 <= a < b < order.len() ==> numbers[#[trigger] order[a]] <= numbers[#[trigger] order[b]]
}

/// The insertion point lies within the sequence; every number from it on is
/// greater than `k`, and the number before it is not.
pub proof fn lemma_insertion_point(numbers: Seq<int>, k: int)
    ensures
        0 <= insertion_point(numbers, k) <= numbers.len(),
        forall|j: int|
            insertion_point(numbers, k) <= j < numbers.len() ==> (#[trigger] numbers[j]) > k,
        insertion_point(numbers, k) > 0 ==> numbers[insertion_point(numbers, k) - 1] <= k,
    decreases numbers.len(),
{
    if numbers.len() > 0 && numbers.last() > k {
        let t = numbers.drop_last();
        lemma_insertion_point(t, k);
        assert(forall|j: int| 0 <= j < t.len() ==> t[j] == numbers[j]);
    }
}

/// The reading order names every position exactly once, and the numbers
/// ascend along it.
pub proof fn lemma_reading_order(numbers: Seq<int>)
    ensures
        reading_order(numbers).len() == numbers.len(),
        forall|j: int|
            0 <= j < numbers.len() ==> 0 <= (#[trigger] reading_order(numbers)[j])
                < numbers.len(),
        reading_order(numbers).no_duplicates(),
        ascending(numbers, reading_order(numbers)),
    decreases numbers.len(),
{
    if numbers.len() > 0 {
        let before = numbers.drop_last();
        let earlier = reading_order(before);
        lemma_reading_order(before);
        let placed = Seq::new(earlier.len(), |j: int| numbers[earlier[j]]);
        let k = numbers.last();
        let p = insertion_point(placed, k);
        lemma_insertion_point(placed, k);
        let order = reading_order(numbers);
        let last = numbers.len() - 1;
        assert(order == earlier.insert(p, last));
        assert forall|j: int| 0 <= j < numbers.len() implies 0 <= (#[trigger] order[j])
            < numbers.len() by {
            if j < p {
                assert(order[j] == earlier[j]);
            } else if j > p {
                assert(order[j] == earlier[j - 1]);
            }
        }
        assert forall|a: int, b: int| 0 <= a < order.len() && 0 <= b < order.len() && a != b
            implies order[a] != order[b] by {
            let ea = if a < p {
                a
            } else {
                a - 1
            };
            let eb = if b < p {
                b
            } else {
                b - 1
            };
            if a != p && b != p {
                assert(order[a] == earlier[ea]);
                assert(order[b] == earlier[eb]);
                assert(ea != eb);
            } else if a == p {
                assert(order[b] == earlier[eb]);
            } else {
                assert(order[a] == earlier[ea]);
            }
        }
        assert forall|a: int, b: int| 0 <= a < b < order.len() implies numbers[#[trigger] order[a]]
            <= numbers[#[trigger] order[b]] by {
            let ea = if a < p {
                a
            } else {
                a - 1
            };
            let eb = if b < p {
                b
            } else {
                b - 1
            };
            if a != p && b != p {
                assert(order[a] == earlier[ea]);
                assert(order[b] == earlier[eb]);
                assert(before[earlier[ea]] == numbers[earlier[ea]]);
                assert(before[earlier[eb]] == numbers[earlier[eb]]);
                if ea < eb {
                    assert(before[earlier[ea]] <= before[earlier[eb]]);
                }
            } else if a == p {
                assert(order[b] == earlier[eb]);
                assert(placed[eb] > k);
            } else {
                assert(order[a] == earlier[ea]);
                assert(placed[p - 1] <= k);
                assert(placed[ea] == numbers[earlier[ea]]);
                if ea < p - 1 {
                    assert(before[earlier[ea]] <= before[earlier[p - 1]]);
                    assert(before[earlier[ea]] == numbers[earlier[ea]]);
                    assert(before[earlier[p - 1]] == numbers[earlier[p - 1]]);
                }
            }
        }
    }
}

/// The numbers of a sequence of 32-bit integers.
pub open spec fn numbers_of(keys: Seq<i32>) -> Seq<int> {
    Seq::new(keys.len(), |j: int| keys[j] as int)
}

/// The positions of a sequence of machine words.
pub open spec fn positions_of(order: Seq<usize>) -> Seq<int> {
    Seq::new(order.len(), |j: int| order[j] as int)
}

/// Arranges pages by their numbers: returns the positions of `numbers` in
/// reading order.
pub fn page_order(numbers: &Vec<i32>) -> (order: Vec<usize>)
    ensures
        positions_of(order@) == reading_order(numbers_of(numbers@)),
{
    let n = numbers.len();
    let mut order: Vec<usize> = Vec::new();
    let ghost all = numbers_of(numbers@);
    let mut i: usize = 0;
    assert(all.take(0) =~= Seq::<int>::empty());
    assert(positions_of(order@) =~= reading_order(all.take(0)));
    while i < n
        invariant
            i <= n,
            n == numbers@.len(),
            all == numbers_of(numbers@),
            positions_of(order@) == reading_order(all.take(i as int)),
        decreases n - i,
    {
        let k = numbers[i];
        let ghost seen = all.take(i as int);
        let ghost earlier = reading_order(seen);
        let ghost placed = Seq::new(earlier.len(), |j: int| all.take(i + 1)[earlier[j]]);
        proof {
            lemma_reading_order(seen);
            assert(all.take(i + 1).drop_last() =~= seen);
            assert(all.take(i + 1).last() == k as int);
            assert(order@.len() == earlier.len()) by {
                assert(positions_of(order@).len() == order@.len());
            }
        }
        let mut p: usize = order.len();
        assert(placed.take(p as int) =~= placed);
        while p > 0 && numbers[order[p - 1]] > k
            invariant
                p <= order@.len(),
                order@.len() == earlier.len(),
                earlier.len() == i,
                i < n,
                n == numbers@.len(),
                all == numbers_of(numbers@),
                positions_of(order@) == earlier,
                forall|j: int| 0 <= j < earlier.len() ==> 0 <= (#[trigger] earlier[j]) < i,
                placed == Seq::new(earlier.len(), |j: int| all.take(i + 1)[earlier[j]]),
                insertion_point(placed, k as int) == insertion_point(placed.take(p as int), k as int),
            decreases p,
        {
            proof {
                let t = placed.take(p as int);
                assert(positions_of(order@)[p - 1] == order@[p - 1]);
                assert(t.last() == placed[p - 1]);
                assert(placed[p - 1] == all[earlier[p - 1]]);
                assert(t.drop_last() =~= placed.take(p - 1));
            }
            p -= 1;
        }
        proof {
            assert(placed.take(order@.len() as int) =~= placed);
            let t = placed.take(p as int);
            if p > 0 {
                assert(positions_of(order@)[p - 1] == order@[p - 1]);
                assert(t.last() == placed[p - 1]);
                assert(placed[p - 1] == all[earlier[p - 1]]);
            }
            assert(insertion_point(placed, k as int) == p);
        }
        order.insert(p, i);
        proof {
            assert(positions_of(order@) =~= earlier.insert(p as int, i as int));
        }
        i += 1;
    }
    assert(all.take(n as int) =~= all);
    order
}

} // verus!
