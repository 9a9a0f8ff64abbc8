//! Words, joining and ordering of text, over the characters that a string holds.

use vstd::prelude::*;
use vstd::string::StrSliceExecFns;
use vstd::string::StringExecFns;

verus! {

/// Whether `c` has the Unicode property `White_Space`.
pub open spec fn white_space(c: char) -> bool {
    ||| 0x9 <= c as u32 <= 0xd
    ||| c as u32 == 0x20
    ||| c as u32 == 0x85
    ||| c as u32 == 0xa0
    ||| c as u32 == 0x1680
    ||| 0x2000 <= c as u32 <= 0x200a
    ||| 0x2028 <= c as u32 <= 0x2029
    ||| c as u32 == 0x202f
    ||| c as u32 == 0x205f
    ||| c as u32 == 0x3000
}

/// The length of the longest prefix of `s` that holds no white space.
pub open spec fn word_len(s: Seq<char>) -> nat
    decreases s.len(),
{
    if s.len() == 0 || white_space(s[0]) {
        0
    } else {
        1 + word_len(s.drop_first())
    }
}

/// The maximal runs of characters of `s` that are not white space, from left to right.
pub open spec fn words(s: Seq<char>) -> Seq<Seq<char>>
    decreases s.len(),
{
    if s.len() == 0 {
        Seq::empty()
    } else if white_space(s[0]) {
        words(s.drop_first())
    } else {
        proof {
            lemma_word_len(s);
        }
        seq![s.take(word_len(s) as int)] + words(s.skip(word_len(s) as int))
    }
}

/// `parts` in their order, with one space between each two neighbours.
pub open spec fn spaced(parts: Seq<Seq<char>>) -> Seq<char>
    decreases parts.len(),
{
    if parts.len() == 0 {
        Seq::empty()
    } else if parts.len() == 1 {
        parts[0]
    } else {
        parts[0] + seq![' '] + spaced(parts.drop_first())
    }
}

/// The decimal digits of `n`, without leading zeros.
pub open spec fn decimal(n: nat) -> Seq<char>
    decreases n,
{
    let digits = seq!['0', '1', '2', '3', '4', '5', '6', '7', '8', '9'];
    if n < 10 {
        seq![digits[n as int]]
    } else {
        decimal(n / 10).push(digits[(n % 10) as int])
    }
}

/// Whether `a` stands before `b`, or equals it, in the lexicographic order by code point.
pub open spec fn text_le(a: Seq<char>, b: Seq<char>) -> bool
    decreases a.len(),
{
    ||| a.len() == 0
    ||| {
        &&& b.len() > 0
        &&& {
            ||| (a[0] as int) < (b[0] as int)
            ||| a[0] == b[0] && text_le(a.drop_first(), b.drop_first())
        }
    }
}

/// A word is no longer than the text that it starts, and not empty where the text starts with
/// something else than white space.
pub proof fn lemma_word_len(s: Seq<char>)
    ensures
        word_len(s) <= s.len(),
        s.len() > 0 && !white_space(s[0]) ==> word_len(s) > 0,
        forall|i: int| 0 <= i < word_len(s) ==> !white_space(#[trigger] s[i]),
        word_len(s) < s.len() ==> white_space(s[word_len(s) as int]),
    decreases s.len(),
{
    if s.len() > 0 && !white_space(s[0]) {
        let rest = s.drop_first();
        lemma_word_len(rest);
        assert forall|i: int| 0 <= i < word_len(s) implies !white_space(#[trigger] s[i]) by {
            if i > 0 {
                assert(s[i] == rest[i - 1]);
            }
        }
        if word_len(s) < s.len() {
            assert(s[word_len(s) as int] == rest[word_len(rest) as int]);
        }
    }
}

/// A prefix without white space, up to white space or the end, is the first word.
proof fn lemma_word_len_is(s: Seq<char>, n: int)
    requires
        0 <= n <= s.len(),
        forall|i: int| 0 <= i < n ==> !white_space(#[trigger] s[i]),
        n < s.len() ==> white_space(s[n]),
    ensures
        word_len(s) == n,
    decreases s.len(),
{
    if n > 0 {
        let rest = s.drop_first();
        assert forall|i: int| 0 <= i < n - 1 implies !white_space(#[trigger] rest[i]) by {
            assert(rest[i] == s[i + 1]);
        }
        if n < s.len() {
            assert(rest[n - 1] == s[n]);
        }
        lemma_word_len_is(rest, n - 1);
        assert(!white_space(s[0]));
    }
}

/// Tells whether `c` has the Unicode property `White_Space`.
pub fn is_white_space(c: char) -> (res: bool)
    ensures
        res == white_space(c),
{
    let code: u32 = c as u32;
    (0x9 <= code && code <= 0xd) || code == 0x20 || code == 0x85 || code == 0xa0 || code == 0x1680
        || (0x2000 <= code && code <= 0x200a) || (0x2028 <= code && code <= 0x2029)
        || code == 0x202f || code == 0x205f || code == 0x3000
}

/// The code point of `c`.
fn code_point(c: char) -> (res: u32)
    ensures
        res as int == c as int,
{
    c as u32
}

/// The characters of `s`.
pub fn chars_of(s: &str) -> (res: Vec<char>)
    ensures
        res@ == s@,
{
    let mut res: Vec<char> = Vec::new();
    for c in it: s.chars()
        invariant
            it.seq() == s@,
            res@ == it.seq().take(it.index()),
    {
        res.push(c);
    }
    res
}

/// The words of `s`, each a slice of it.
pub fn split_words(s: &str) -> (res: Vec<&str>)
    ensures
        res.deep_view() == words(s@),
{
    let chars: Vec<char> = chars_of(s);
    let mut res: Vec<&str> = Vec::new();
    let mut i: usize = 0;
    assert(s@.skip(0) == s@);
    while i < chars.len()
        invariant
            chars@ == s@,
            i <= chars.len(),
            words(s@) == res.deep_view() + words(s@.skip(i as int)),
        decreases chars.len() - i,
    {
        let ghost tail = s@.skip(i as int);
        if is_white_space(chars[i]) {
            assert(tail.drop_first() == s@.skip(i + 1));
            i = i + 1;
        } else {
            let mut j: usize = i;
            while j < chars.len() && !is_white_space(chars[j])
                invariant
                    chars@ == s@,
                    i <= j <= chars.len(),
                    forall|k: int| i <= k < j ==> !white_space(#[trigger] s@[k]),
                decreases chars.len() - j,
            {
                j = j + 1;
            }
            let ghost before = res.deep_view();
            res.push(s.substring_char(i, j));
            proof {
                lemma_word_len_is(tail, j - i);
                lemma_word_len(tail);
                assert(tail.take(j - i) == s@.subrange(i as int, j as int));
                assert(tail.skip(j - i) == s@.skip(j as int));
                assert(res.deep_view() == before + seq![tail.take(j - i)]);
                assert(words(s@) == res.deep_view() + words(s@.skip(j as int)));
            }
            i = j;
        }
    }
    assert(s@.skip(i as int) == Seq::<char>::empty());
    res
}

/// `head` followed by `tail`.
pub fn joined(head: &str, tail: &str) -> (res: String)
    ensures
        res@ == head@ + tail@,
{
    let mut res: String = head.to_owned();
    res.append(tail);
    res
}

/// The decimal digits of `n`, without leading zeros.
pub fn to_decimal(n: u64) -> (res: String)
    ensures
        res@ == decimal(n as nat),
    decreases n,
{
    proof {
        reveal_strlit("0123456789");
    }
    let d: usize = (n % 10) as usize;
    let digit: &str = "0123456789".substring_char(d, d + 1);
    assert(digit@ == seq!['0', '1', '2', '3', '4', '5', '6', '7', '8', '9'].subrange(
        d as int,
        d + 1,
    ));
    if n < 10 {
        let res: String = digit.to_owned();
        assert(res@ == decimal(n as nat));
        res
    } else {
        let res: String = joined(to_decimal(n / 10).as_str(), digit);
        assert(res@ == decimal(n as nat));
        res
    }
}

/// `parts` in one string, with one space between each two neighbours.
pub fn join_spaced(parts: &[String]) -> (res: String)
    ensures
        res@ == spaced(parts.deep_view()),
{
    let mut res: String = String::new();
    let ghost all = parts.deep_view();
    if parts.len() == 0 {
        return res;
    }
    res.append(parts[0].as_str());
    let mut i: usize = 1;
    proof {
        assert(all.skip(0) == all);
        assert(all.drop_first() == all.skip(1));
        assert(spaced(all) == res@ + if 1 < all.len() {
            seq![' '] + spaced(all.skip(1))
        } else {
            Seq::empty()
        });
    }
    while i < parts.len()
        invariant
            all == parts.deep_view(),
            1 <= i <= parts.len(),
            spaced(all) == res@ + if i < parts.len() {
                seq![' '] + spaced(all.skip(i as int))
            } else {
                Seq::empty()
            },
        decreases parts.len() - i,
    {
        let ghost before = res@;
        res.append(" ");
        res.append(parts[i].as_str());
        proof {
            reveal_strlit(" ");
            assert(" "@ == seq![' ']);
            assert(res@ == before + seq![' '] + all[i as int]);
            assert(all.skip(i as int).drop_first() == all.skip(i + 1));
            assert(all.skip(i as int)[0] == all[i as int]);
            assert(spaced(all) == res@ + if i + 1 < parts.len() {
                seq![' '] + spaced(all.skip(i + 1))
            } else {
                Seq::empty()
            });
        }
        i = i + 1;
    }
    res
}

/// Tells whether one of `list` is `s`.
pub fn holds(list: &[String], s: &str) -> (res: bool)
    ensures
        res == list.deep_view().contains(s@),
{
    let sought: String = s.to_owned();
    let mut i: usize = 0;
    while i < list.len()
        invariant
            i <= list.len(),
            sought@ == s@,
            forall|k: int| 0 <= k < i ==> list.deep_view()[k] != s@,
        decreases list.len() - i,
    {
        if list[i] == sought {
            assert(list.deep_view()[i as int] == s@);
            return true;
        }
        i = i + 1;
    }
    false
}

/// Tells whether `a` stands before `b`, or equals it, in the order of strings.
pub fn is_text_le(a: &str, b: &str) -> (res: bool)
    ensures
        res == text_le(a@, b@),
{
    let left: Vec<char> = chars_of(a);
    let right: Vec<char> = chars_of(b);
    let mut i: usize = 0;
    assert(a@.skip(0) == a@);
    assert(b@.skip(0) == b@);
    while i < left.len()
        invariant
            left@ == a@,
            right@ == b@,
            i <= left.len(),
            i <= right.len(),
            text_le(a@, b@) == text_le(a@.skip(i as int), b@.skip(i as int)),
        decreases left.len() - i,
    {
        if i == right.len() {
            return false;
        }
        let l: u32 = code_point(left[i]);
        let r: u32 = code_point(right[i]);
        if l != r {
            return l < r;
        }
        assert(a@.skip(i as int).drop_first() == a@.skip(i + 1));
        assert(b@.skip(i as int).drop_first() == b@.skip(i + 1));
        i = i + 1;
    }
    true
}

/// The order of strings is total.
pub proof fn lemma_text_le_total(a: Seq<char>, b: Seq<char>)
    ensures
        text_le(a, b) || text_le(b, a),
    decreases a.len(),
{
    if a.len() > 0 && b.len() > 0 && a[0] == b[0] {
        lemma_text_le_total(a.drop_first(), b.drop_first());
    }
}

/// The order of strings is antisymmetric.
pub proof fn lemma_text_le_antisymmetric(a: Seq<char>, b: Seq<char>)
    requires
        text_le(a, b),
        text_le(b, a),
    ensures
        a == b,
    decreases a.len(),
{
    if a.len() > 0 && b.len() > 0 {
        lemma_text_le_antisymmetric(a.drop_first(), b.drop_first());
        assert(a == seq![a[0]] + a.drop_first());
        assert(b == seq![b[0]] + b.drop_first());
    } else {
        assert(a == b);
    }
}

/// The order of strings is transitive.
pub proof fn lemma_text_le_transitive(a: Seq<char>, b: Seq<char>, c: Seq<char>)
    requires
        text_le(a, b),
        text_le(b, c),
    ensures
        text_le(a, c),
    decreases a.len(),
{
    if a.len() > 0 && a[0] == b[0] && b[0] == c[0] {
        lemma_text_le_transitive(a.drop_first(), b.drop_first(), c.drop_first());
    }
}

/// Every word holds a character, and none that is white space.
pub proof fn law_words_are_solid(s: Seq<char>)
    ensures
        forall|i: int| 0 <= i < words(s).len() ==> (#[trigger] words(s)[i]).len() > 0,
        forall|i: int, j: int|
            0 <= i < words(s).len() && 0 <= j < words(s)[i].len() ==> !white_space(
                #[trigger] words(s)[i][j],
            ),
    decreases s.len(),
{
    if s.len() > 0 {
        if white_space(s[0]) {
            law_words_are_solid(s.drop_first());
            assert(words(s) == words(s.drop_first()));
        } else {
            lemma_word_len(s);
            let rest = s.skip(word_len(s) as int);
            law_words_are_solid(rest);
            assert forall|i: int| 0 <= i < words(s).len() implies (#[trigger] words(s)[i]).len()
                > 0 by {
                if i > 0 {
                    assert(words(s)[i] == words(rest)[i - 1]);
                }
            }
            assert forall|i: int, j: int|
                0 <= i < words(s).len() && 0 <= j < words(s)[i].len() implies !white_space(
                #[trigger] words(s)[i][j],
            ) by {
                if i > 0 {
                    assert(words(s)[i] == words(rest)[i - 1]);
                } else {
                    assert(words(s)[0][j] == s[j]);
                }
            }
        }
    }
}

/// Splitting into words drops the white space and nothing else.
pub proof fn law_words_keep_the_rest(s: Seq<char>)
    ensures
        words(s).flatten() == s.filter(|c: char| !white_space(c)),
    decreases s.len(),
{
    let solid = |c: char| !white_space(c);
    if s.len() == 0 {
        reveal(Seq::filter);
    } else if white_space(s[0]) {
        law_words_keep_the_rest(s.drop_first());
        assert(s == seq![s[0]] + s.drop_first());
        Seq::filter_distributes_over_add(seq![s[0]], s.drop_first(), solid);
        assert(seq![s[0]].filter(solid) == Seq::<char>::empty()) by {
            reveal_with_fuel(Seq::filter, 2);
            assert(seq![s[0]].drop_last() == Seq::<char>::empty());
            assert(!solid(seq![s[0]].last()));
        }
    } else {
        lemma_word_len(s);
        let n = word_len(s) as int;
        law_words_keep_the_rest(s.skip(n));
        assert(s == s.take(n) + s.skip(n));
        Seq::filter_distributes_over_add(s.take(n), s.skip(n), solid);
        lemma_filter_all(s.take(n), solid);
        assert(words(s).first() == s.take(n));
        assert(words(s).drop_first() == words(s.skip(n)));
    }
}

/// A filter that every element passes changes nothing.
proof fn lemma_filter_all(s: Seq<char>, pred: spec_fn(char) -> bool)
    requires
        forall|i: int| 0 <= i < s.len() ==> pred(#[trigger] s[i]),
    ensures
        s.filter(pred) == s,
    decreases s.len(),
{
    reveal(Seq::filter);
    if s.len() > 0 {
        lemma_filter_all(s.drop_last(), pred);
        assert(pred(s[s.len() - 1]));
        assert(s == s.drop_last().push(s.last()));
    }
}

/// Words that were joined with spaces come apart again: joining keeps the number of the words,
/// their order and their text, as long as none is empty or holds white space.
pub proof fn law_words_of_spaced(parts: Seq<Seq<char>>)
    requires
        forall|i: int| 0 <= i < parts.len() ==> (#[trigger] parts[i]).len() > 0,
        forall|i: int, j: int|
            0 <= i < parts.len() && 0 <= j < parts[i].len() ==> !white_space(
                #[trigger] parts[i][j],
            ),
    ensures
        words(spaced(parts)) == parts,
    decreases parts.len(),
{
    if parts.len() == 0 {
        assert(words(spaced(parts)) == parts);
    } else if parts.len() == 1 {
        let s = parts[0];
        assert forall|i: int| 0 <= i < s.len() implies !white_space(#[trigger] s[i]) by {
            assert(s[i] == parts[0][i]);
        }
        lemma_word_len_is(s, s.len() as int);
        assert(s.take(s.len() as int) == s);
        assert(words(s.skip(s.len() as int)) == Seq::<Seq<char>>::empty());
        assert(words(s) == parts);
    } else {
        let rest = parts.drop_first();
        assert forall|i: int| 0 <= i < rest.len() implies (#[trigger] rest[i]).len() > 0 by {
            assert(rest[i] == parts[i + 1]);
        }
        assert forall|i: int, j: int|
            0 <= i < rest.len() && 0 <= j < rest[i].len() implies !white_space(
            #[trigger] rest[i][j],
        ) by {
            assert(rest[i][j] == parts[i + 1][j]);
        }
        law_words_of_spaced(rest);
        let s = spaced(parts);
        let n = parts[0].len() as int;
        assert(s == parts[0] + seq![' '] + spaced(rest));
        assert forall|i: int| 0 <= i < n implies !white_space(#[trigger] s[i]) by {
            assert(s[i] == parts[0][i]);
        }
        assert(s[n] == ' ');
        lemma_word_len_is(s, n);
        assert(s.take(n) == parts[0]);
        let tail = s.skip(n);
        assert(tail[0] == ' ');
        assert(tail.drop_first() == spaced(rest));
        assert(words(tail) == words(spaced(rest)));
        assert(!white_space(s[0]));
        assert(words(s) == seq![parts[0]] + rest);
        assert(words(s) == parts);
    }
}

/// White space parts a text: its words are those before it and then those after it. There are no
/// words in nothing.
pub proof fn law_words_part_at_white_space(a: Seq<char>, c: char, b: Seq<char>)
    requires
        white_space(c),
    ensures
        words(a + seq![c] + b) == words(a) + words(b),
        words(Seq::empty()) == Seq::<Seq<char>>::empty(),
    decreases a.len(),
{
    let s = a + seq![c] + b;
    if a.len() == 0 {
        assert(s[0] == c);
        assert(s.drop_first() == b);
        assert(words(a) + words(b) == words(b));
    } else if white_space(a[0]) {
        let rest = a.drop_first();
        assert(s[0] == a[0]);
        assert(s.drop_first() == rest + seq![c] + b);
        law_words_part_at_white_space(rest, c, b);
        assert(words(a) == words(rest));
    } else {
        lemma_word_len(a);
        let n = word_len(a) as int;
        assert(s[0] == a[0]);
        assert forall|i: int| 0 <= i < n implies !white_space(#[trigger] s[i]) by {
            assert(s[i] == a[i]);
        }
        if n < a.len() {
            assert(s[n] == a[n]);
        } else {
            assert(s[n] == c);
        }
        lemma_word_len_is(s, n);
        assert(s.take(n) == a.take(n));
        let rest = a.skip(n);
        assert(s.skip(n) == rest + seq![c] + b);
        law_words_part_at_white_space(rest, c, b);
        assert(words(a) == seq![a.take(n)] + words(rest));
        assert(words(s) == seq![a.take(n)] + (words(rest) + words(b)));
    }
}

/// Text without white space is one word, the text itself.
pub proof fn law_solid_text_is_one_word(s: Seq<char>)
    requires
        s.len() > 0,
        forall|i: int| 0 <= i < s.len() ==> !white_space(#[trigger] s[i]),
    ensures
        words(s) == seq![s],
{
    lemma_word_len_is(s, s.len() as int);
    assert(s.take(s.len() as int) == s);
    assert(!white_space(s[0]));
    assert(words(s.skip(s.len() as int)) == Seq::<Seq<char>>::empty());
}

/// One part is joined to itself, none to nothing, and two lists of parts that are joined together
/// have one space between what each is joined to.
pub proof fn law_spaced_joins(a: Seq<Seq<char>>, b: Seq<Seq<char>>, part: Seq<char>)
    requires
        a.len() > 0,
        b.len() > 0,
    ensures
        spaced(a + b) == spaced(a) + seq![' '] + spaced(b),
        spaced(seq![part]) == part,
        spaced(Seq::empty()) == Seq::<char>::empty(),
    decreases a.len(),
{
    let all = a + b;
    assert(all[0] == a[0]);
    if a.len() == 1 {
        assert(all.drop_first() == b);
    } else {
        let rest = a.drop_first();
        law_spaced_joins(rest, b, part);
        assert(all.drop_first() == rest + b);
        assert(spaced(all) == a[0] + seq![' '] + (spaced(rest) + seq![' '] + spaced(b)));
        assert(spaced(a) == a[0] + seq![' '] + spaced(rest));
    }
}

/// Of two texts with the same start, the first characters that differ decide which stands
/// before the other, and a text stands before every longer one that it starts.
pub proof fn law_first_difference_decides(
    start: Seq<char>,
    x: char,
    y: char,
    s: Seq<char>,
    t: Seq<char>,
)
    ensures
        x != y ==> (text_le(start + seq![x] + s, start + seq![y] + t) <==> (x as int) < (y as int)),
        text_le(start, start + s),
        s.len() > 0 ==> !text_le(start + s, start),
    decreases start.len(),
{
    let a = start + seq![x] + s;
    let b = start + seq![y] + t;
    if start.len() == 0 {
        assert(a[0] == x && b[0] == y);
    } else {
        let rest = start.drop_first();
        law_first_difference_decides(rest, x, y, s, t);
        assert(a[0] == start[0] && b[0] == start[0]);
        assert(a.drop_first() == rest + seq![x] + s);
        assert(b.drop_first() == rest + seq![y] + t);
        assert((start + s)[0] == start[0]);
        assert((start + s).drop_first() == rest + s);
    }
}

/// The number that decimal digits stand for.
pub open spec fn number_of(digits: Seq<char>) -> int
    decreases digits.len(),
{
    if digits.len() == 0 {
        0
    } else {
        10 * number_of(digits.drop_last()) + (digits.last() as int - '0' as int)
    }
}

/// Decimal digits stand for the number that they are written for, and the first of several is
/// not zero.
pub proof fn law_decimal_stands_for_the_number(n: nat)
    ensures
        number_of(decimal(n)) == n,
        decimal(n).len() > 0,
        forall|i: int| 0 <= i < decimal(n).len() ==> '0' <= #[trigger] decimal(n)[i] <= '9',
        decimal(n).len() > 1 ==> decimal(n)[0] != '0',
        decimal(n) == seq!['0'] <==> n == 0,
    decreases n,
{
    let digits = seq!['0', '1', '2', '3', '4', '5', '6', '7', '8', '9'];
    assert(forall|d: int| 0 <= d < 10 ==> #[trigger] digits[d] as int == '0' as int + d);
    let all = decimal(n);
    if n < 10 {
        assert(all.drop_last() == Seq::<char>::empty());
        assert(number_of(all.drop_last()) == 0);
        assert(all.last() == digits[n as int]);
    } else {
        let front = decimal(n / 10);
        law_decimal_stands_for_the_number(n / 10);
        assert(all == front.push(digits[(n % 10) as int]));
        assert(all.drop_last() == front);
        assert(all.last() == digits[(n % 10) as int]);
        assert forall|i: int| 0 <= i < all.len() implies '0' <= #[trigger] all[i] <= '9' by {
            if i < front.len() {
                assert(all[i] == front[i]);
            }
        }
        assert(all[0] == front[0]);
        if front.len() == 1 {
            assert(front == seq![front[0]]);
        }
    }
}

} // verus!
