//! Characters and strings: the character classes the lexer goes by, views of
//! vectors of strings, and decimal numbers.

use vstd::prelude::*;
use vstd::string::*;

verus! {

/// Whether `c` is white space as Unicode defines it.
pub uninterp spec fn is_space(c: char) -> bool;

/// Whether `c` is alphabetic as Unicode defines it.
pub uninterp spec fn is_letter(c: char) -> bool;

/// Whether `c` is numeric as Unicode defines it.
pub uninterp spec fn is_number(c: char) -> bool;

/// `char::is_whitespace`: the answer depends on the character alone.
pub assume_specification[ char::is_whitespace ](c: char) -> (b: bool)
    ensures
        b == is_space(c),
;

/// `char::is_alphabetic`: the answer depends on the character alone.
pub assume_specification[ char::is_alphabetic ](c: char) -> (b: bool)
    ensures
        b == is_letter(c),
;

/// `char::is_numeric`: the answer depends on the character alone.
pub assume_specification[ char::is_numeric ](c: char) -> (b: bool)
    ensures
        b == is_number(c),
;

/// The texts of a sequence of strings.
pub open spec fn texts(v: Seq<String>) -> Seq<Seq<char>> {
    v.map_values(|s: String| s@)
}

/// The texts of a sequence of rows.
pub open spec fn table(rows: Seq<Vec<String>>) -> Seq<Seq<Seq<char>>> {
    rows.map_values(|r: Vec<String>| texts(r@))
}

/// The value of a decimal digit.
pub open spec fn digit_value(c: char) -> Option<nat> {
    if '0' <= c && c <= '9' {
        Some((c as u32 - '0' as u32) as nat)
    } else {
        None
    }
}

/// The value of a run of decimal digits; `None` if a character is no digit.
pub open spec fn digits_value(s: Seq<char>) -> Option<nat>
    decreases s.len(),
{
    if s.len() == 0 {
        Some(0)
    } else {
        match (digits_value(s.drop_last()), digit_value(s.last())) {
            (Some(high), Some(d)) => Some(10 * high + d),
            _ => None,
        }
    }
}

/// The number that `s` writes: an optional `+`, then at least one decimal
/// digit and nothing else, with a value that fits in a `usize`.
pub open spec fn unsigned_of(s: Seq<char>) -> Option<usize> {
    let body = if s.len() > 0 && s[0] == '+' { s.skip(1) } else { s };
    if body.len() == 0 {
        None
    } else {
        match digits_value(body) {
            Some(v) => if v <= usize::MAX { Some(v as usize) } else { None },
            None => None,
        }
    }
}

/// A longer run of digits has no smaller value than each of its prefixes.
pub proof fn lemma_digits_prefix(s: Seq<char>, k: int)
    requires
        0 <= k <= s.len(),
        digits_value(s) is Some,
    ensures
        digits_value(s.take(k)) is Some,
        digits_value(s.take(k))->0 <= digits_value(s)->0,
    decreases s.len(),
{
    if k == s.len() {
        assert(s.take(k) =~= s);
    } else {
        lemma_digits_prefix(s.drop_last(), k);
        assert(s.drop_last().take(k) =~= s.take(k));
    }
}

/// Reads `s` as an unsigned decimal number.
pub fn parse_unsigned(s: &str) -> (r: Option<usize>)
    ensures
        r == unsigned_of(s@),
{
    let n: usize = s.unicode_len();
    let mut i: usize = 0;
    if n > 0 && s.get_char(0) == '+' {
        i = 1;
    }
    let start: usize = i;
    if start == n {
        return None;
    }
    let ghost body = s@.skip(start as int);
    let mut acc: usize = 0;
    assert(body.take(0) =~= Seq::<char>::empty());
    while i < n
        invariant
            start <= i <= n,
            n == s@.len(),
            start < n,
            start == (if s@.len() > 0 && s@[0] == '+' { 1usize } else { 0usize }),
            body == s@.skip(start as int),
            digits_value(body.take(i - start)) == Some(acc as nat),
        decreases n - i,
    {
        let c = s.get_char(i);
        proof {
            assert(body.take(i + 1 - start).drop_last() =~= body.take(i - start));
            assert(body.take(i + 1 - start).last() == c);
            assert(start == 0 ==> body =~= s@);
        }
        if !('0' <= c && c <= '9') {
            proof {
                if digits_value(body) is Some {
                    lemma_digits_prefix(body, i + 1 - start);
                }
            }
            return None;
        }
        let d: usize = (c as u32 - '0' as u32) as usize;
        if acc > (usize::MAX - d) / 10 {
            proof {
                if digits_value(body) is Some {
                    lemma_digits_prefix(body, i + 1 - start);
                }
            }
            return None;
        }
        acc = 10 * acc + d;
        i = i + 1;
    }
    proof {
        assert(body.take(n - start) =~= body);
        assert(start == 0 ==> body =~= s@);
    }
    Some(acc)
}

/// Whether two strings hold the same text.
pub fn same_text(a: &str, b: &str) -> (r: bool)
    ensures
        r == (a@ == b@),
{
    let n: usize = a.unicode_len();
    if n != b.unicode_len() {
        return false;
    }
    let mut i: usize = 0;
    while i < n
        invariant
            i <= n,
            n == a@.len(),
            n == b@.len(),
            forall|j: int| 0 <= j < i ==> a@[j] == b@[j],
        decreases n - i,
    {
        if a.get_char(i) != b.get_char(i) {
            return false;
        }
        i = i + 1;
    }
    assert(a@ =~= b@);
    true
}

/// Whether `i` is the first position of `name` in `list`.
pub open spec fn is_first_position(list: Seq<Seq<char>>, name: Seq<char>, i: int) -> bool {
    &&& 0 <= i < list.len()
    &&& list[i] == name
    &&& forall|j: int| 0 <= j < i ==> list[j] != name
}

/// The first position of `name` in `list`, if it occurs there.
pub open spec fn position_of(list: Seq<Seq<char>>, name: Seq<char>) -> Option<int> {
    if exists|i: int| is_first_position(list, name, i) {
        Some(choose|i: int| is_first_position(list, name, i))
    } else {
        None
    }
}

/// A name that the list holds has a first position in it.
pub proof fn lemma_position_found(list: Seq<Seq<char>>, name: Seq<char>)
    requires
        list.contains(name),
    ensures
        position_of(list, name) is Some,
        is_first_position(list, name, position_of(list, name)->0),
{
    let k = choose|k: int| 0 <= k < list.len() && list[k] == name;
    lemma_first_below(list, name, k);
}

proof fn lemma_first_below(list: Seq<Seq<char>>, name: Seq<char>, k: int)
    requires
        0 <= k < list.len(),
        list[k] == name,
    ensures
        exists|i: int| is_first_position(list, name, i),
    decreases k,
{
    if exists|j: int| 0 <= j < k && list[j] == name {
        let j = choose|j: int| 0 <= j < k && list[j] == name;
        lemma_first_below(list, name, j);
    } else {
        assert(is_first_position(list, name, k));
    }
}

/// A first position of a name is the position that `position_of` gives.
pub proof fn lemma_position_is_index(list: Seq<Seq<char>>, name: Seq<char>, i: int)
    requires
        is_first_position(list, name, i),
    ensures
        position_of(list, name) == Some(i),
{
    let c = choose|c: int| is_first_position(list, name, c);
    if c < i {
        assert(list[c] == name);
    }
    if i < c {
        assert(list[i] == name);
    }
}

/// The position of `name` in `list`: the first, where it occurs more than
/// once.
pub fn find_text(list: &Vec<String>, name: &str) -> (r: Option<usize>)
    ensures
        match r {
            Some(i) => position_of(texts(list@), name@) == Some(i as int) && i < list@.len(),
            None => position_of(texts(list@), name@) is None && !texts(list@).contains(
                name@,
            ),
        },
{
    let ghost hs = texts(list@);
    let mut i: usize = 0;
    while i < list.len()
        invariant
            i <= list@.len(),
            hs == texts(list@),
            forall|j: int| 0 <= j < i ==> hs[j] != name@,
        decreases list@.len() - i,
    {
        if same_text(list[i].as_str(), name) {
            proof {
                assert(hs[i as int] == name@);
                lemma_position_is_index(hs, name@, i as int);
            }
            return Some(i);
        }
        i = i + 1;
    }
    proof {
        assert forall|c: int| !is_first_position(hs, name@, c) by {
            if 0 <= c < hs.len() {
                assert(hs[c] != name@);
            }
        }
    }
    None
}

} // verus!
