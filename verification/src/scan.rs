//! Taking text apart: pieces, words, and numerals.

use vstd::prelude::*;
use vstd::string::*;

use crate::text::{
    decimal, decimal_string, hex_digits, hex_digits_upper, hex_string, hex_string_upper,
    signed_decimal_string,
};

verus! {

/// Whether a character is white space, by the Unicode property of that name.
pub open spec fn is_space(c: char) -> bool {
    let n = c as u32;
    ||| 0x9 <= n <= 0xd
    ||| n == 0x20
    ||| n == 0x85
    ||| n == 0xa0
    ||| n == 0x1680
    ||| 0x2000 <= n <= 0x200a
    ||| n == 0x2028
    ||| n == 0x2029
    ||| n == 0x202f
    ||| n == 0x205f
    ||| n == 0x3000
}

/// Whether a character is white space.
pub fn space(c: char) -> (b: bool)
    ensures
        b == is_space(c),
{
    let n: u32 = c as u32;
    (0x9 <= n && n <= 0xd) || n == 0x20 || n == 0x85 || n == 0xa0 || n == 0x1680 || (0x2000 <= n
        && n <= 0x200a) || n == 0x2028 || n == 0x2029 || n == 0x202f || n == 0x205f || n == 0x3000
}

/// The characters that pieces of text hold.
pub open spec fn pieces(v: Seq<Vec<char>>) -> Seq<Seq<char>> {
    Seq::new(v.len(), |i: int| v[i]@)
}

/// The pieces of a text between the separators in it: one more than there are
/// separators.
pub open spec fn split_on(s: Seq<char>, sep: char) -> Seq<Seq<char>>
    decreases s.len(),
{
    if s.len() == 0 {
        seq![Seq::empty()]
    } else {
        let front = split_on(s.drop_last(), sep);
        if s.last() == sep {
            front.push(Seq::empty())
        } else {
            front.drop_last().push(front.last().push(s.last()))
        }
    }
}

/// The pieces of a text between the separators in it.
pub fn split(s: &Vec<char>, sep: char) -> (r: Vec<Vec<char>>)
    ensures
        pieces(r@) == split_on(s@, sep),
        r@.len() >= 1,
{
    let mut out: Vec<Vec<char>> = Vec::new();
    let mut piece: Vec<char> = Vec::new();
    let mut i: usize = 0;
    assert(s@.take(0) =~= Seq::empty());
    assert(pieces(out@).push(piece@) =~= seq![Seq::<char>::empty()]);
    while i < s.len()
        invariant
            i <= s@.len(),
            pieces(out@).push(piece@) == split_on(s@.take(i as int), sep),
        decreases s.len() - i,
    {
        let c = s[i];
        proof {
            let next = s@.take(i + 1);
            assert(next.drop_last() =~= s@.take(i as int));
            assert(next.last() == c);
            let front = split_on(s@.take(i as int), sep);
            assert(front.drop_last() =~= pieces(out@));
            assert(front.last() == piece@);
        }
        if c == sep {
            let ghost before = pieces(out@);
            let ghost last = piece@;
            out.push(piece);
            piece = Vec::new();
            assert(pieces(out@) =~= before.push(last));
            assert(piece@ =~= Seq::<char>::empty());
        } else {
            piece.push(c);
        }
        i = i + 1;
    }
    assert(s@.take(i as int) =~= s@);
    let ghost before = pieces(out@);
    let ghost last = piece@;
    out.push(piece);
    assert(pieces(out@) =~= before.push(last));
    out
}

/// The words of a text: its runs of characters other than white space.
pub open spec fn words_of(s: Seq<char>) -> Seq<Seq<char>>
    decreases s.len(),
{
    if s.len() == 0 {
        Seq::empty()
    } else {
        let front = words_of(s.drop_last());
        if is_space(s.last()) {
            front
        } else if s.len() >= 2 && !is_space(s[s.len() - 2]) {
            front.drop_last().push(front.last().push(s.last()))
        } else {
            front.push(seq![s.last()])
        }
    }
}

/// The words of a text.
pub fn words(s: &Vec<char>) -> (r: Vec<Vec<char>>)
    ensures
        pieces(r@) == words_of(s@),
{
    let mut out: Vec<Vec<char>> = Vec::new();
    let mut word: Vec<char> = Vec::new();
    let mut i: usize = 0;
    assert(pieces(out@) =~= Seq::empty());
    while i < s.len()
        invariant
            i <= s@.len(),
            word@.len() > 0 <==> (i > 0 && !is_space(s@[i - 1])),
            words_of(s@.take(i as int)) == if word@.len() > 0 {
                pieces(out@).push(word@)
            } else {
                pieces(out@)
            },
        decreases s.len() - i,
    {
        let c = s[i];
        proof {
            let next = s@.take(i + 1);
            assert(next.drop_last() =~= s@.take(i as int));
            assert(next.last() == c);
            assert(i > 0 ==> next[next.len() - 2] == s@[i - 1]);
            if word@.len() > 0 {
                assert(pieces(out@).push(word@).drop_last() =~= pieces(out@));
            }
        }
        if space(c) {
            if word.len() > 0 {
                let ghost before = pieces(out@);
                let ghost last = word@;
                out.push(word);
                word = Vec::new();
                assert(pieces(out@) =~= before.push(last));
            }
        } else {
            let ghost was = word@;
            word.push(c);
            assert(was.len() == 0 ==> word@ =~= seq![c]);
        }
        i = i + 1;
    }
    assert(s@.take(i as int) =~= s@);
    if word.len() > 0 {
        let ghost before = pieces(out@);
        let ghost last = word@;
        out.push(word);
        assert(pieces(out@) =~= before.push(last));
    }
    out
}

/// A text without the white space in front of it.
pub open spec fn trim_front(s: Seq<char>) -> Seq<char>
    decreases s.len(),
{
    if s.len() > 0 && is_space(s[0]) {
        trim_front(s.skip(1))
    } else {
        s
    }
}

/// A text without the white space behind it.
pub open spec fn trim_back(s: Seq<char>) -> Seq<char>
    decreases s.len(),
{
    if s.len() > 0 && is_space(s.last()) {
        trim_back(s.drop_last())
    } else {
        s
    }
}

/// A text without the white space around it.
pub open spec fn trimmed(s: Seq<char>) -> Seq<char> {
    trim_back(trim_front(s))
}

/// The part of a text from one place to another.
pub fn part(s: &Vec<char>, from: usize, to: usize) -> (r: Vec<char>)
    requires
        from <= to <= s@.len(),
    ensures
        r@ == s@.subrange(from as int, to as int),
{
    let mut out: Vec<char> = Vec::new();
    let mut i: usize = from;
    while i < to
        invariant
            from <= i <= to <= s@.len(),
            out@ =~= s@.subrange(from as int, i as int),
        decreases to - i,
    {
        out.push(s[i]);
        i = i + 1;
    }
    out
}

/// A text without the white space around it.
pub fn trim(s: &Vec<char>) -> (r: Vec<char>)
    ensures
        r@ == trimmed(s@),
{
    let mut from: usize = 0;
    let n: usize = s.len();
    assert(s@.skip(0) =~= s@);
    while from < n && space(s[from])
        invariant
            from <= n == s@.len(),
            trim_front(s@) == trim_front(s@.skip(from as int)),
        decreases n - from,
    {
        assert(s@.skip(from as int).skip(1) =~= s@.skip(from + 1));
        from = from + 1;
    }
    let mut to: usize = n;
    let ghost t = s@.skip(from as int);
    assert(trim_front(s@) == t);
    assert(s@.subrange(from as int, n as int) =~= t);
    while to > from && space(s[to - 1])
        invariant
            from <= to <= n == s@.len(),
            trim_back(t) == trim_back(s@.subrange(from as int, to as int)),
        decreases to - from,
    {
        assert(s@.subrange(from as int, to as int).drop_last() =~= s@.subrange(
            from as int,
            to - 1,
        ));
        to = to - 1;
    }
    part(s, from, to)
}

/// The value of a digit, in a radix of at most 16.
pub open spec fn digit_value(c: char, radix: nat) -> Option<nat> {
    let n = c as u32;
    let d = if 48 <= n <= 57 {
        (n - 48) as nat
    } else if 97 <= n <= 102 {
        (n - 87) as nat
    } else if 65 <= n <= 70 {
        (n - 55) as nat
    } else {
        16
    };
    if d < radix {
        Some(d)
    } else {
        None
    }
}

/// What a text is as a numeral.
#[derive(Debug, Clone, Copy, PartialEq, Eq, Structural)]
pub enum Numeral {
    /// A number that is not too large.
    Value(u64),
    /// There is nothing.
    Empty,
    /// A character is no digit.
    InvalidDigit,
    /// The number is too large.
    TooLarge,
}

/// What digits alone are as a numeral, read from the front: the first
/// character that is no digit, or that makes the number too large, decides.
pub open spec fn digits_numeral(s: Seq<char>, radix: nat, max: nat) -> Numeral
    decreases s.len(),
{
    if s.len() == 0 {
        Numeral::Value(0)
    } else {
        match digits_numeral(s.drop_last(), radix, max) {
            Numeral::Value(v) => match digit_value(s.last(), radix) {
                Some(d) => if v * radix + d > max {
                    Numeral::TooLarge
                } else {
                    Numeral::Value((v * radix + d) as u64)
                },
                None => Numeral::InvalidDigit,
            },
            e => e,
        }
    }
}

/// What a text is as a numeral of a number up to `max`: digits, with a plus
/// sign before them or not.
pub open spec fn numeral(s: Seq<char>, radix: nat, max: nat) -> Numeral {
    if s.len() == 0 {
        Numeral::Empty
    } else if s.len() == 1 && (s[0] == '+' || s[0] == '-') {
        Numeral::InvalidDigit
    } else if s[0] == '+' {
        digits_numeral(s.skip(1), radix, max)
    } else {
        digits_numeral(s, radix, max)
    }
}

fn digit(c: char, radix: u64) -> (r: Option<u64>)
    requires
        2 <= radix <= 16,
    ensures
        r == match digit_value(c, radix as nat) {
            Some(d) => Some(d as u64),
            None => None,
        },
        r matches Some(d) ==> d < radix,
{
    let n: u32 = c as u32;
    let d: u64 = if 48 <= n && n <= 57 {
        (n - 48) as u64
    } else if 97 <= n && n <= 102 {
        (n - 87) as u64
    } else if 65 <= n && n <= 70 {
        (n - 55) as u64
    } else {
        16
    };
    if d < radix {
        Some(d)
    } else {
        None
    }
}

/// What a text is as a numeral of a number up to `max`.
pub fn parse_numeral(s: &Vec<char>, radix: u64, max: u64) -> (r: Numeral)
    requires
        2 <= radix <= 16,
        max <= 0xffff_ffff,
    ensures
        r == numeral(s@, radix as nat, max as nat),
{
    if s.len() == 0 {
        return Numeral::Empty;
    }
    if s.len() == 1 && (s[0] == '+' || s[0] == '-') {
        return Numeral::InvalidDigit;
    }
    let start: usize = if s[0] == '+' {
        1
    } else {
        0
    };
    let ghost t = s@.skip(start as int);
    assert(start == 0 ==> t =~= s@);
    let mut v: u64 = 0;
    let mut i: usize = start;
    assert(t.take(0) =~= Seq::empty());
    while i < s.len()
        invariant
            start <= i <= s@.len(),
            t == s@.skip(start as int),
            2 <= radix <= 16,
            v <= max <= 0xffff_ffff,
            digits_numeral(t.take(i - start), radix as nat, max as nat) == Numeral::Value(v),
            numeral(s@, radix as nat, max as nat) == digits_numeral(t, radix as nat, max as nat),
        decreases s.len() - i,
    {
        let ghost next = t.take(i - start + 1);
        proof {
            assert(next.drop_last() =~= t.take(i - start));
            assert(next.last() == s@[i as int]);
            assert(v * radix <= 0xffff_ffff * 16) by (nonlinear_arith)
                requires
                    v <= 0xffff_ffff,
                    radix <= 16,
            ;
        }
        match digit(s[i], radix) {
            Some(d) => {
                let w: u64 = v * radix + d;
                if w > max {
                    proof {
                        lemma_digits_final(t, i - start + 1, radix as nat, max as nat);
                    }
                    return Numeral::TooLarge;
                }
                v = w;
            },
            None => {
                proof {
                    lemma_digits_final(t, i - start + 1, radix as nat, max as nat);
                }
                return Numeral::InvalidDigit;
            },
        }
        i = i + 1;
    }
    assert(t.take(i - start) =~= t);
    Numeral::Value(v)
}

/// What makes some digits no numeral makes more digits none.
proof fn lemma_digits_final(s: Seq<char>, n: int, radix: nat, max: nat)
    requires
        0 <= n <= s.len(),
        !(digits_numeral(s.take(n), radix, max) is Value),
    ensures
        digits_numeral(s, radix, max) == digits_numeral(s.take(n), radix, max),
    decreases s.len() - n,
{
    if n == s.len() {
        assert(s.take(n) =~= s);
    } else {
        assert(s.take(n + 1).drop_last() =~= s.take(n));
        lemma_digits_final(s, n + 1, radix, max);
    }
}

/// A number is no larger than allowed.
pub proof fn lemma_numeral_bound(s: Seq<char>, radix: nat, max: nat)
    requires
        max <= u64::MAX,
    ensures
        numeral(s, radix, max) matches Numeral::Value(v) ==> v <= max,
{
    if s.len() > 0 {
        lemma_digits_bound(s, radix, max);
        lemma_digits_bound(s.skip(1), radix, max);
    }
}

proof fn lemma_digits_bound(s: Seq<char>, radix: nat, max: nat)
    requires
        max <= u64::MAX,
    ensures
        digits_numeral(s, radix, max) matches Numeral::Value(v) ==> v <= max,
    decreases s.len(),
{
    if s.len() > 0 {
        lemma_digits_bound(s.drop_last(), radix, max);
        match digits_numeral(s.drop_last(), radix, max) {
            Numeral::Value(v) => {
                assert(v * radix >= 0) by (nonlinear_arith);
            },
            _ => {},
        }
    }
}

/// Whether two texts are the same.
pub fn same(a: &Vec<char>, b: &Vec<char>) -> (r: bool)
    ensures
        r == (a@ == b@),
{
    if a.len() != b.len() {
        return false;
    }
    let mut i: usize = 0;
    while i < a.len()
        invariant
            i <= a@.len() == b@.len(),
            forall|j: int| 0 <= j < i ==> a@[j] == b@[j],
        decreases a.len() - i,
    {
        if a[i] != b[i] {
            return false;
        }
        i = i + 1;
    }
    assert(a@ =~= b@);
    true
}

/// Whether a text stands at a place in another.
pub open spec fn stands_at(s: Seq<char>, at: int, what: Seq<char>) -> bool {
    0 <= at && at + what.len() <= s.len() && s.subrange(at, at + what.len()) == what
}

/// Whether a text stands at a place in another.
pub fn at_place(s: &Vec<char>, at: usize, what: &Vec<char>) -> (r: bool)
    requires
        at <= s@.len(),
    ensures
        r == stands_at(s@, at as int, what@),
{
    let n: usize = s.len();
    if n - at < what.len() {
        return false;
    }
    let mut i: usize = 0;
    while i < what.len()
        invariant
            i <= what@.len(),
            at + what@.len() <= n == s@.len(),
            forall|j: int| 0 <= j < i ==> s@[at + j] == what@[j],
        decreases what.len() - i,
    {
        if s[at + i] != what[i] {
            assert(s@.subrange(at as int, at + what@.len())[i as int] != what@[i as int]);
            return false;
        }
        i = i + 1;
    }
    assert(s@.subrange(at as int, at + what@.len()) =~= what@);
    true
}

/// Whether a text begins with another.
pub open spec fn begins_with(s: Seq<char>, what: Seq<char>) -> bool {
    stands_at(s, 0, what)
}

/// Whether a text occurs in another.
pub open spec fn occurs_in(s: Seq<char>, what: Seq<char>) -> bool {
    exists|at: int| stands_at(s, at, what)
}

/// Where a text first occurs in another, or the other's length where it does
/// not.
pub open spec fn first_place(s: Seq<char>, what: Seq<char>, from: int) -> int
    decreases s.len() - from,
{
    if from >= s.len() || stands_at(s, from, what) {
        from
    } else {
        first_place(s, what, from + 1)
    }
}

/// Where a text first occurs in another, or the other's length where it does
/// not.
pub fn find(s: &Vec<char>, what: &Vec<char>) -> (r: usize)
    requires
        what@.len() > 0,
    ensures
        r == first_place(s@, what@, 0),
        r <= s@.len(),
        r < s@.len() <==> occurs_in(s@, what@),
{
    let mut i: usize = 0;
    while i < s.len()
        invariant
            what@.len() > 0,
            i <= s@.len(),
            first_place(s@, what@, 0) == first_place(s@, what@, i as int),
            forall|at: int| 0 <= at < i ==> !stands_at(s@, at, what@),
        decreases s.len() - i,
    {
        if at_place(s, i, what) {
            return i;
        }
        i = i + 1;
    }
    i
}

/// The pieces of a text with the separator between them again.
pub open spec fn joined_by(pieces: Seq<Seq<char>>, sep: char) -> Seq<char>
    decreases pieces.len(),
{
    if pieces.len() == 0 {
        Seq::empty()
    } else if pieces.len() == 1 {
        pieces[0]
    } else {
        joined_by(pieces.drop_last(), sep).push(sep) + pieces.last()
    }
}

/// The pieces of a text hold no separator, and put together with separators
/// they are the text again.
pub proof fn law_split(s: Vec<char>, sep: char, r: Vec<Vec<char>>)
    requires
        call_ensures(split, (&s, sep), r),
    ensures
        joined_by(pieces(r@), sep) == s@,
        forall|i: int, j: int|
            0 <= i < r@.len() && 0 <= j < r@[i]@.len() ==> #[trigger] r@[i]@[j] != sep,
{
    lemma_split_joined(s@, sep);
    assert forall|i: int, j: int| 0 <= i < r@.len() && 0 <= j < r@[i]@.len() implies
        #[trigger] r@[i]@[j] != sep by {
        assert(pieces(r@)[i] == r@[i]@);
    }
}

proof fn lemma_split_joined(s: Seq<char>, sep: char)
    ensures
        split_on(s, sep).len() >= 1,
        joined_by(split_on(s, sep), sep) == s,
        forall|i: int, j: int|
            0 <= i < split_on(s, sep).len() && 0 <= j < split_on(s, sep)[i].len()
                ==> #[trigger] split_on(s, sep)[i][j] != sep,
    decreases s.len(),
{
    if s.len() == 0 {
        assert(joined_by(split_on(s, sep), sep) =~= s);
    } else {
        lemma_split_joined(s.drop_last(), sep);
        let front = split_on(s.drop_last(), sep);
        let all = split_on(s, sep);
        if s.last() == sep {
            assert(all.drop_last() =~= front);
            assert(joined_by(all, sep) =~= s);
        } else {
            assert(all.drop_last() =~= front.drop_last());
            assert(all.last() =~= front.last().push(s.last()));
            if front.len() == 1 {
                assert(joined_by(all, sep) =~= s);
            } else {
                assert(joined_by(all, sep) =~= joined_by(front, sep).push(s.last()));
                assert(joined_by(all, sep) =~= s);
            }
            assert forall|i: int, j: int|
                0 <= i < all.len() && 0 <= j < all[i].len() implies #[trigger] all[i][j] != sep by {
                if i < all.len() - 1 {
                    assert(all[i] == front[i]);
                    assert(front[i][j] != sep);
                } else if j < front.last().len() {
                    assert(front[front.len() - 1][j] != sep);
                }
            }
        }
    }
}

/// A text without the separator is one piece.
pub proof fn lemma_one_piece(word: Seq<char>, sep: char)
    requires
        forall|i: int| 0 <= i < word.len() ==> word[i] != sep,
    ensures
        split_on(word, sep) == seq![word],
    decreases word.len(),
{
    if word.len() > 0 {
        lemma_one_piece(word.drop_last(), sep);
        assert(split_on(word, sep) =~= seq![word.drop_last().push(word.last())]);
        assert(word.drop_last().push(word.last()) =~= word);
    } else {
        assert(word =~= Seq::empty());
    }
}

/// What follows a separator and holds none is one more piece.
pub proof fn lemma_next_piece(s: Seq<char>, word: Seq<char>, sep: char)
    requires
        forall|i: int| 0 <= i < word.len() ==> word[i] != sep,
    ensures
        split_on(s + seq![sep] + word, sep) == split_on(s, sep).push(word),
    decreases word.len(),
{
    let t = s + seq![sep] + word;
    if word.len() == 0 {
        assert(t.drop_last() =~= s);
        assert(t.last() == sep);
        assert(word =~= Seq::empty());
    } else {
        lemma_next_piece(s, word.drop_last(), sep);
        assert(t.drop_last() =~= s + seq![sep] + word.drop_last());
        assert(t.last() == word.last());
        let front = split_on(t.drop_last(), sep);
        assert(front.drop_last() =~= split_on(s, sep));
        assert(word.drop_last().push(word.last()) =~= word);
    }
}

/// A text without the white space around it is a part of the text: what was in
/// front and behind is white space, and it neither begins nor ends with any.
pub proof fn law_trim(s: Vec<char>, r: Vec<char>)
    requires
        call_ensures(trim, (&s,), r),
    ensures
        exists|from: int, to: int|
            0 <= from <= to <= s@.len() && r@ == #[trigger] s@.subrange(from, to) && (forall|i: int|
                0 <= i < from ==> is_space(#[trigger] s@[i])) && (forall|i: int|
                to <= i < s@.len() ==> is_space(#[trigger] s@[i])),
        r@.len() > 0 ==> !is_space(r@[0]) && !is_space(r@.last()),
{
    let t = trim_front(s@);
    lemma_trim_front(s@);
    lemma_trim_back(t);
    let from = s@.len() - t.len();
    let to = from + trim_back(t).len();
    assert(r@ =~= s@.subrange(from, to));
    assert forall|i: int| to <= i < s@.len() implies is_space(#[trigger] s@[i]) by {
        assert(t[i - from] == s@[i]);
    }
}

proof fn lemma_trim_front(s: Seq<char>)
    ensures
        trim_front(s).len() <= s.len(),
        trim_front(s) == s.skip(s.len() - trim_front(s).len()),
        forall|i: int| 0 <= i < s.len() - trim_front(s).len() ==> is_space(#[trigger] s[i]),
        trim_front(s).len() > 0 ==> !is_space(trim_front(s)[0]),
    decreases s.len(),
{
    if s.len() > 0 && is_space(s[0]) {
        let u = s.skip(1);
        lemma_trim_front(u);
        assert(u.skip(u.len() - trim_front(u).len()) =~= s.skip(s.len() - trim_front(s).len()));
        assert forall|i: int| 0 <= i < s.len() - trim_front(s).len() implies is_space(
            #[trigger] s[i],
        ) by {
            if i > 0 {
                assert(u[i - 1] == s[i]);
            }
        }
    } else {
        assert(s.skip(0) =~= s);
    }
}

proof fn lemma_trim_back(s: Seq<char>)
    ensures
        trim_back(s).len() <= s.len(),
        trim_back(s) == s.take(trim_back(s).len() as int),
        forall|i: int| trim_back(s).len() <= i < s.len() ==> is_space(#[trigger] s[i]),
        trim_back(s).len() > 0 ==> !is_space(trim_back(s).last()),
    decreases s.len(),
{
    if s.len() > 0 && is_space(s.last()) {
        let u = s.drop_last();
        lemma_trim_back(u);
        assert(u.take(trim_back(u).len() as int) =~= s.take(trim_back(s).len() as int));
        assert forall|i: int| trim_back(s).len() <= i < s.len() implies is_space(
            #[trigger] s[i],
        ) by {
            if i < u.len() {
                assert(u[i] == s[i]);
            }
        }
    } else {
        assert(s.take(s.len() as int) =~= s);
    }
}

/// The characters of words, one word behind the other.
pub open spec fn run_together(words: Seq<Seq<char>>) -> Seq<char>
    decreases words.len(),
{
    if words.len() == 0 {
        Seq::empty()
    } else {
        run_together(words.drop_last()) + words.last()
    }
}

/// Words hold no white space and are not empty, and together they are the
/// characters of the text that are no white space, in their order.
pub proof fn law_words(s: Vec<char>, r: Vec<Vec<char>>)
    requires
        call_ensures(words, (&s,), r),
    ensures
        run_together(pieces(r@)) == s@.filter(|c: char| !is_space(c)),
        forall|i: int| 0 <= i < r@.len() ==> (#[trigger] r@[i])@.len() > 0,
        forall|i: int, j: int|
            0 <= i < r@.len() && 0 <= j < r@[i]@.len() ==> !is_space(#[trigger] r@[i]@[j]),
{
    lemma_words(s@);
    assert forall|i: int| 0 <= i < r@.len() implies (#[trigger] r@[i])@.len() > 0 by {
        assert(pieces(r@)[i] == r@[i]@);
    }
    assert forall|i: int, j: int| 0 <= i < r@.len() && 0 <= j < r@[i]@.len() implies !is_space(
        #[trigger] r@[i]@[j],
    ) by {
        assert(pieces(r@)[i] == r@[i]@);
    }
}

proof fn lemma_words(s: Seq<char>)
    ensures
        run_together(words_of(s)) == s.filter(|c: char| !is_space(c)),
        s.len() > 0 && !is_space(s.last()) ==> words_of(s).len() > 0,
        forall|i: int| 0 <= i < words_of(s).len() ==> (#[trigger] words_of(s)[i]).len() > 0,
        forall|i: int, j: int|
            0 <= i < words_of(s).len() && 0 <= j < words_of(s)[i].len() ==> !is_space(
                #[trigger] words_of(s)[i][j],
            ),
    decreases s.len(),
{
    reveal(Seq::filter);
    if s.len() > 0 {
        let u = s.drop_last();
        lemma_words(u);
        let front = words_of(u);
        let all = words_of(s);
        if is_space(s.last()) {
        } else if s.len() >= 2 && !is_space(s[s.len() - 2]) {
            assert(u.last() == s[s.len() - 2]);
            assert(all.drop_last() =~= front.drop_last());
            assert(run_together(all) =~= run_together(front).push(s.last()));
            assert forall|i: int| 0 <= i < all.len() implies (#[trigger] all[i]).len() > 0 by {
                if i < all.len() - 1 {
                    assert(all[i] == front[i]);
                }
            }
            assert forall|i: int, j: int| 0 <= i < all.len() && 0 <= j < all[i].len() implies
                !is_space(#[trigger] all[i][j]) by {
                if i < all.len() - 1 {
                    assert(all[i] == front[i]);
                    assert(!is_space(front[i][j]));
                } else if j < front.last().len() {
                    assert(!is_space(front[front.len() - 1][j]));
                }
            }
        } else {
            assert(all.drop_last() =~= front);
            assert(run_together(all) =~= run_together(front).push(s.last()));
            assert forall|i: int| 0 <= i < all.len() implies (#[trigger] all[i]).len() > 0 by {
                if i < all.len() - 1 {
                    assert(all[i] == front[i]);
                }
            }
            assert forall|i: int, j: int| 0 <= i < all.len() && 0 <= j < all[i].len() implies
                !is_space(#[trigger] all[i][j]) by {
                if i < all.len() - 1 {
                    assert(all[i] == front[i]);
                    assert(!is_space(front[i][j]));
                }
            }
        }
    }
}

/// The decimal digits of a number, read as a decimal number, are the number.
pub proof fn law_decimal_read(n: nat, max: nat)
    requires
        n <= max <= 0xffff_ffff,
    ensures
        numeral(decimal(n), 10, max) == Numeral::Value(n as u64),
{
    lemma_decimal_digits(n, max);
    lemma_decimal_plain(n);
}

/// The decimal digits of a number are digits, and there is at least one.
pub proof fn lemma_decimal_plain(n: nat)
    ensures
        decimal(n).len() > 0,
        forall|i: int| 0 <= i < decimal(n).len() ==> '0' <= #[trigger] decimal(n)[i] <= '9',
    decreases n,
{
    if n >= 10 {
        lemma_decimal_plain(n / 10);
    }
}

proof fn lemma_decimal_digits(n: nat, max: nat)
    requires
        n <= max <= 0xffff_ffff,
    ensures
        digits_numeral(decimal(n), 10, max) == Numeral::Value(n as u64),
    decreases n,
{
    let s = decimal(n);
    if n >= 10 {
        lemma_decimal_digits(n / 10, max);
        assert(s.drop_last() =~= decimal(n / 10));
    } else {
        assert(s.drop_last() =~= Seq::empty());
        reveal_with_fuel(digits_numeral, 2);
    }
    assert(digit_value(s.last(), 10) == Some((n % 10) as nat));
}

proof fn lemma_hex_digits(n: nat, width: nat, max: nat)
    requires
        n <= max <= 0xffff_ffff,
    ensures
        hex_digits(n, width).len() == width,
        hex_digits_upper(n, width).len() == width,
        n < vstd::arithmetic::power::pow(16, width) ==> digits_numeral(
            hex_digits(n, width),
            16,
            max,
        ) == Numeral::Value(n as u64) && digits_numeral(hex_digits_upper(n, width), 16, max)
            == Numeral::Value(n as u64),
        forall|i: int| 0 <= i < width ==> #[trigger] hex_digits(n, width)[i] != '+',
        forall|i: int| 0 <= i < width ==> #[trigger] hex_digits_upper(n, width)[i] != '+',
        forall|i: int| 0 <= i < width ==> #[trigger] hex_digits(n, width)[i] != '-',
        forall|i: int| 0 <= i < width ==> #[trigger] hex_digits_upper(n, width)[i] != '-',
    decreases width,
{
    reveal(vstd::arithmetic::power::pow);
    if width > 0 {
        let below = (width - 1) as nat;
        lemma_hex_digits(n / 16, below, max);
        let (s, u) = (hex_digits(n, width), hex_digits_upper(n, width));
        assert(s.drop_last() =~= hex_digits(n / 16, below));
        assert(u.drop_last() =~= hex_digits_upper(n / 16, below));
        assert(digit_value(s.last(), 16) == Some((n % 16) as nat));
        assert(digit_value(u.last(), 16) == Some((n % 16) as nat));
        assert(n < 16 * vstd::arithmetic::power::pow(16, below) ==> n / 16
            < vstd::arithmetic::power::pow(16, below)) by (nonlinear_arith);
    }
}

/// The texts of a number, read as numbers of their base, are the number: in
/// decimal digits, and in as many hexadecimal digits as it needs or more.
pub proof fn law_number_texts(n: u32, width: u8, d: String, h: String, u: String, s: String)
    requires
        call_ensures(decimal_string, (n as u64,), d),
        call_ensures(hex_string, (n, width), h),
        call_ensures(hex_string_upper, (n, width), u),
        call_ensures(signed_decimal_string, (-(n as int) as i64,), s),
        n < vstd::arithmetic::power::pow(16, width as nat),
    ensures
        numeral(d@, 10, 0xffff_ffff) == Numeral::Value(n as u64),
        h@.len() == width,
        width > 0 ==> numeral(h@, 16, 0xffff_ffff) == Numeral::Value(n as u64),
        u@.len() == width,
        width > 0 ==> numeral(u@, 16, 0xffff_ffff) == Numeral::Value(n as u64),
        n > 0 ==> s@ == seq!['-'] + d@,
{
    law_decimal_read(n as nat, 0xffff_ffff);
    lemma_hex_digits(n as nat, width as nat, 0xffff_ffff);
    reveal_strlit("-");
    if n > 0 {
        assert(s@ =~= seq!['-'] + d@);
    }
}

} // verus!
