//! Text: comparing and joining strings, and cutting a line of input into words.

use vstd::prelude::*;

verus! {

/// The characters of each string of a list.
pub open spec fn texts(list: Seq<String>) -> Seq<Seq<char>> {
    Seq::new(list.len(), |i: int| list[i]@)
}

/// The characters with the Unicode property `White_Space`.
pub open spec fn is_white_space(c: char) -> bool {
    ||| '\u{9}' <= c <= '\u{d}'
    ||| c == '\u{20}'
    ||| c == '\u{85}'
    ||| c == '\u{a0}'
    ||| c == '\u{1680}'
    ||| '\u{2000}' <= c <= '\u{200a}'
    ||| c == '\u{2028}'
    ||| c == '\u{2029}'
    ||| c == '\u{202f}'
    ||| c == '\u{205f}'
    ||| c == '\u{3000}'
}

/// `s` without its leading white space.
pub open spec fn without_leading_space(s: Seq<char>) -> Seq<char>
    decreases s.len(),
{
    if s.len() > 0 && is_white_space(s.first()) {
        without_leading_space(s.drop_first())
    } else {
        s
    }
}

/// `s` without its trailing white space.
pub open spec fn without_trailing_space(s: Seq<char>) -> Seq<char>
    decreases s.len(),
{
    if s.len() > 0 && is_white_space(s.last()) {
        without_trailing_space(s.drop_last())
    } else {
        s
    }
}

/// `s` without white space at either end.
pub open spec fn trimmed(s: Seq<char>) -> Seq<char> {
    without_trailing_space(without_leading_space(s))
}

/// The pieces of `s` between its spaces. Every space ends a piece, so that two
/// spaces in a row have an empty piece between them, and there is always at
/// least one piece.
pub open spec fn pieces(s: Seq<char>) -> Seq<Seq<char>>
    decreases s.len(),
{
    if s.len() == 0 {
        seq![Seq::<char>::empty()]
    } else {
        let before = pieces(s.drop_last());
        if s.last() == ' ' {
            before.push(Seq::<char>::empty())
        } else {
            before.drop_last().push(before.last().push(s.last()))
        }
    }
}

/// The words of an input line: what stands between the spaces of the line once
/// the white space at its ends is gone.
pub open spec fn words(line: Seq<char>) -> Seq<Seq<char>> {
    pieces(trimmed(line))
}

/// There is always a first word, if only an empty one.
pub proof fn lemma_pieces_not_empty(s: Seq<char>)
    ensures
        pieces(s).len() >= 1,
    decreases s.len(),
{
    if s.len() > 0 {
        lemma_pieces_not_empty(s.drop_last());
    }
}

/// Cutting off the trailing white space leaves the front of the text, up to a
/// character that is none.
proof fn lemma_trailing_keeps_front(s: Seq<char>)
    ensures
        without_trailing_space(s).len() <= s.len(),
        without_trailing_space(s) == s.take(without_trailing_space(s).len() as int),
        without_trailing_space(s).len() > 0 ==> !is_white_space(without_trailing_space(s).last()),
    decreases s.len(),
{
    if s.len() > 0 && is_white_space(s.last()) {
        lemma_trailing_keeps_front(s.drop_last());
        let n = without_trailing_space(s).len() as int;
        assert(s.drop_last().take(n) =~= s.take(n));
    } else {
        assert(s.take(s.len() as int) =~= s);
    }
}

proof fn lemma_leading(s: Seq<char>)
    ensures
        without_leading_space(s).len() > 0 ==> !is_white_space(without_leading_space(s).first()),
    decreases s.len(),
{
    if s.len() > 0 && is_white_space(s.first()) {
        lemma_leading(s.drop_first());
    }
}

/// Trimming twice is trimming once.
pub proof fn lemma_trimmed_twice(s: Seq<char>)
    ensures
        trimmed(trimmed(s)) == trimmed(s),
{
    lemma_leading(s);
    lemma_trailing_keeps_front(without_leading_space(s));
}

/// Nothing is left of white space.
pub proof fn lemma_trimmed_blank(s: Seq<char>)
    requires
        forall|i: int| 0 <= i < s.len() ==> is_white_space(#[trigger] s[i]),
    ensures
        trimmed(s) == Seq::<char>::empty(),
    decreases s.len(),
{
    if s.len() > 0 {
        assert(is_white_space(s[0]));
        lemma_trimmed_blank(s.drop_first());
    } else {
        assert(s =~= Seq::empty());
    }
}

/// Words with one space between each two of them.
pub open spec fn spaced(list: Seq<Seq<char>>) -> Seq<char>
    decreases list.len(),
{
    if list.len() == 0 {
        Seq::empty()
    } else if list.len() == 1 {
        list[0]
    } else {
        spaced(list.drop_last()) + seq![' '] + list.last()
    }
}

/// Text without a space goes to the last piece of what stands before it.
proof fn lemma_pieces_extended(before: Seq<char>, end: Seq<char>)
    requires
        !end.contains(' '),
    ensures
        pieces(before + end) == pieces(before).drop_last().push(pieces(before).last() + end),
    decreases end.len(),
{
    lemma_pieces_not_empty(before);
    if end.len() == 0 {
        assert(before + end =~= before);
        assert(pieces(before).last() + end =~= pieces(before).last());
        assert(pieces(before).drop_last().push(pieces(before).last()) =~= pieces(before));
    } else {
        let shorter = end.drop_last();
        assert(!shorter.contains(' ')) by {
            if shorter.contains(' ') {
                let i = choose|i: int| 0 <= i < shorter.len() && shorter[i] == ' ';
                assert(end[i] == ' ');
            }
        }
        assert(end[end.len() - 1] == end.last());
        lemma_pieces_extended(before, shorter);
        assert((before + end).drop_last() =~= before + shorter);
        let last = pieces(before).last();
        let earlier = pieces(before).drop_last().push(last + shorter);
        assert(earlier.drop_last() =~= pieces(before).drop_last());
        assert((last + shorter).push(end.last()) =~= last + end);
    }
}

/// Spaced words are the pieces of the text that they make, which begins with the
/// first of them and ends with the last.
proof fn lemma_pieces_of_spaced(list: Seq<Seq<char>>)
    requires
        list.len() >= 1,
        forall|i: int| 0 <= i < list.len() ==> !(#[trigger] list[i]).contains(' '),
    ensures
        pieces(spaced(list)) == list,
        list.first().is_prefix_of(spaced(list)),
        list.last().is_suffix_of(spaced(list)),
    decreases list.len(),
{
    let empty = Seq::<char>::empty();
    if list.len() == 1 {
        assert(!list[0].contains(' '));
        lemma_pieces_extended(empty, list[0]);
        assert(empty + list[0] =~= list[0]);
        assert(pieces(empty) =~= seq![empty]);
        assert(pieces(list[0]) =~= list);
    } else {
        let rest = list.drop_last();
        assert forall|i: int| 0 <= i < rest.len() implies !(#[trigger] rest[i]).contains(' ') by {
            assert(rest[i] == list[i]);
        }
        lemma_pieces_of_spaced(rest);
        let before = spaced(rest) + seq![' '];
        assert(before.drop_last() =~= spaced(rest));
        assert(!list[list.len() - 1].contains(' '));
        lemma_pieces_extended(before, list.last());
        assert(pieces(before).drop_last() =~= rest);
        assert(empty + list.last() =~= list.last());
        assert(rest.push(list.last()) =~= list);
    }
}

/// Words that are typed with one space between each two of them are read as those
/// words. No word may hold a space, and there must be no white space at either end
/// of the line.
pub proof fn law_typed_words_are_read_back(list: Seq<Seq<char>>)
    requires
        list.len() >= 1,
        forall|i: int| 0 <= i < list.len() ==> !(#[trigger] list[i]).contains(' '),
        list.first().len() > 0 && !is_white_space(list.first().first()),
        list.last().len() > 0 && !is_white_space(list.last().last()),
    ensures
        words(spaced(list)) == list,
{
    lemma_pieces_of_spaced(list);
    let line = spaced(list);
    assert(line.first() == list.first().first());
    assert(line.last() == list.last().last());
}

fn white_space(c: char) -> (found: bool)
    ensures
        found == is_white_space(c),
{
    ('\u{9}' <= c && c <= '\u{d}') || c == '\u{20}' || c == '\u{85}' || c == '\u{a0}' || c
        == '\u{1680}' || ('\u{2000}' <= c && c <= '\u{200a}') || c == '\u{2028}' || c == '\u{2029}'
        || c == '\u{202f}' || c == '\u{205f}' || c == '\u{3000}'
}

/// The characters of a string, one by one.
fn characters(s: &str) -> (list: Vec<char>)
    ensures
        list@ == s@,
{
    let mut list: Vec<char> = Vec::new();
    for c in it: s.chars()
        invariant
            it.seq() == s@,
            list@ == s@.take(it.index()),
    {
        list.push(c);
    }
    list
}

/// Cuts the white space off both ends of `s`.
pub fn trim(s: &str) -> (rest: &str)
    ensures
        rest@ == trimmed(s@),
{
    let list = characters(s);
    let n: usize = list.len();
    let mut from: usize = 0;
    assert(s@.subrange(0, n as int) =~= s@);
    while from < n && white_space(list[from])
        invariant
            from <= n,
            n == list@.len(),
            list@ == s@,
            without_leading_space(s@) == without_leading_space(s@.subrange(from as int, n as int)),
        decreases n - from,
    {
        assert(s@.subrange(from as int, n as int).drop_first() =~= s@.subrange(
            from + 1,
            n as int,
        ));
        from = from + 1;
    }
    let mut to: usize = n;
    let ghost body = s@.subrange(from as int, n as int);
    while from < to && white_space(list[to - 1])
        invariant
            from <= to <= n,
            n == list@.len(),
            list@ == s@,
            body == s@.subrange(from as int, n as int),
            without_trailing_space(body) == without_trailing_space(
                s@.subrange(from as int, to as int),
            ),
        decreases to - from,
    {
        assert(s@.subrange(from as int, to as int).drop_last() =~= s@.subrange(
            from as int,
            to - 1,
        ));
        to = to - 1;
    }
    s.substring_char(from, to)
}

/// Splits `s` at every space.
pub fn split_at_spaces(s: &str) -> (list: Vec<String>)
    ensures
        texts(list@) == pieces(s@),
{
    let chars = characters(s);
    let n: usize = chars.len();
    let mut list: Vec<String> = Vec::new();
    let mut start: usize = 0;
    let mut i: usize = 0;
    assert(s@.take(0) =~= Seq::empty());
    assert(pieces(s@.take(0)) =~= texts(list@).push(s@.subrange(0, 0)));
    while i < n
        invariant
            start <= i <= n,
            n == chars@.len(),
            chars@ == s@,
            pieces(s@.take(i as int)) == texts(list@).push(s@.subrange(start as int, i as int)),
        decreases n - i,
    {
        let ghost before = texts(list@);
        assert(s@.take(i + 1).drop_last() =~= s@.take(i as int));
        if chars[i] == ' ' {
            list.push(s.substring_char(start, i).to_owned());
            start = i + 1;
            assert(texts(list@) =~= before.push(list@.last()@));
        } else {
            assert(texts(list@).push(s@.subrange(start as int, i as int)).drop_last() =~= before);
            assert(s@.subrange(start as int, i as int).push(s@[i as int]) =~= s@.subrange(
                start as int,
                i + 1,
            ));
        }
        i = i + 1;
        assert(s@.subrange(start as int, start as int) =~= Seq::empty());
    }
    let ghost before = texts(list@);
    list.push(s.substring_char(start, n).to_owned());
    assert(texts(list@) =~= before.push(list@.last()@));
    assert(s@.take(n as int) =~= s@);
    list
}

/// Whether two strings hold the same characters.
pub fn same_text(a: &str, b: &str) -> (same: bool)
    ensures
        same == (a@ == b@),
{
    let x = a.as_bytes();
    let y = b.as_bytes();
    proof {
        vstd::utf8::encode_utf8_decode_utf8(a@);
        vstd::utf8::encode_utf8_decode_utf8(b@);
    }
    same_bytes(x, y)
}

/// Whether two byte strings are equal.
pub fn same_bytes(x: &[u8], y: &[u8]) -> (same: bool)
    ensures
        same == (x@ == y@),
{
    if x.len() != y.len() {
        return false;
    }
    let mut i: usize = 0;
    while i < x.len()
        invariant
            i <= x@.len(),
            x@.len() == y@.len(),
            x@.take(i as int) == y@.take(i as int),
        decreases x@.len() - i,
    {
        if x[i] != y[i] {
            assert(x@ != y@);
            return false;
        }
        assert(x@.take(i + 1) =~= x@.take(i as int).push(x@[i as int]));
        assert(y@.take(i + 1) =~= y@.take(i as int).push(y@[i as int]));
        i = i + 1;
    }
    assert(x@.take(i as int) =~= x@);
    assert(y@.take(i as int) =~= y@);
    true
}

/// One string after another.
pub fn joined(a: &str, b: &str) -> (whole: String)
    ensures
        whole@ == a@ + b@,
{
    a.to_owned().concat(b)
}

/// The texts of a list are those of its strings, all of them and in their order.
pub proof fn law_texts_are_those_of_the_strings(list: Seq<String>)
    ensures
        texts(list).len() == list.len(),
        forall|i: int| 0 <= i < list.len() ==> #[trigger] texts(list)[i] == list[i]@,
{
}

/// White space is these characters and no others.
pub proof fn law_white_space(c: char)
    ensures
        is_white_space(c) <==> seq![
            '\t',
            '\n',
            '\u{b}',
            '\u{c}',
            '\r',
            ' ',
            '\u{85}',
            '\u{a0}',
            '\u{1680}',
            '\u{2000}',
            '\u{2001}',
            '\u{2002}',
            '\u{2003}',
            '\u{2004}',
            '\u{2005}',
            '\u{2006}',
            '\u{2007}',
            '\u{2008}',
            '\u{2009}',
            '\u{200a}',
            '\u{2028}',
            '\u{2029}',
            '\u{202f}',
            '\u{205f}',
            '\u{3000}',
        ].contains(c),
{
    let all = seq![
        '\t',
        '\n',
        '\u{b}',
        '\u{c}',
        '\r',
        ' ',
        '\u{85}',
        '\u{a0}',
        '\u{1680}',
        '\u{2000}',
        '\u{2001}',
        '\u{2002}',
        '\u{2003}',
        '\u{2004}',
        '\u{2005}',
        '\u{2006}',
        '\u{2007}',
        '\u{2008}',
        '\u{2009}',
        '\u{200a}',
        '\u{2028}',
        '\u{2029}',
        '\u{202f}',
        '\u{205f}',
        '\u{3000}',
    ];
    let n = c as int;
    if 9 <= n <= 13 {
        assert(all[n - 9] == c);
    } else if 0x2000 <= n <= 0x200a {
        assert(all[n - 0x2000 + 9] == c);
    } else if is_white_space(c) {
        assert(all[5] == ' ' && all[6] == '\u{85}' && all[7] == '\u{a0}' && all[8] == '\u{1680}');
        assert(all[20] == '\u{2028}' && all[21] == '\u{2029}' && all[22] == '\u{202f}');
        assert(all[23] == '\u{205f}' && all[24] == '\u{3000}');
    }
}

proof fn lemma_leading_cut(s: Seq<char>)
    ensures
        without_leading_space(s).len() <= s.len(),
        without_leading_space(s) == s.skip(s.len() - without_leading_space(s).len()),
        forall|i: int|
            0 <= i < s.len() - without_leading_space(s).len() ==> is_white_space(#[trigger] s[i]),
    decreases s.len(),
{
    if s.len() > 0 && is_white_space(s.first()) {
        let rest = s.drop_first();
        lemma_leading_cut(rest);
        let cut = s.len() - without_leading_space(s).len();
        assert(rest.skip(cut - 1) =~= s.skip(cut));
        assert forall|i: int| 0 <= i < cut implies is_white_space(#[trigger] s[i]) by {
            if i > 0 {
                assert(rest[i - 1] == s[i]);
            }
        }
    } else {
        assert(s.skip(0) =~= s);
    }
}

proof fn lemma_trailing_cut(s: Seq<char>)
    ensures
        without_trailing_space(s).len() <= s.len(),
        forall|i: int|
            without_trailing_space(s).len() <= i < s.len() ==> is_white_space(#[trigger] s[i]),
    decreases s.len(),
{
    if s.len() > 0 && is_white_space(s.last()) {
        let rest = s.drop_last();
        lemma_trailing_cut(rest);
        assert forall|i: int| without_trailing_space(s).len() <= i < s.len() implies is_white_space(
            #[trigger] s[i],
        ) by {
            if i < rest.len() {
                assert(rest[i] == s[i]);
            }
        }
    }
}

/// Trimming cuts off white space at both ends, all of it, and nothing else.
pub proof fn law_trimming_cuts_white_space_only(s: Seq<char>)
    ensures
        exists|from: int, to: int|
            #![trigger s.subrange(from, to)]
            0 <= from <= to <= s.len() && trimmed(s) == s.subrange(from, to) && (forall|i: int|
                (0 <= i < from || to <= i < s.len()) ==> is_white_space(#[trigger] s[i])),
        trimmed(s).len() > 0 ==> !is_white_space(trimmed(s).first()) && !is_white_space(
            trimmed(s).last(),
        ),
{
    let body = without_leading_space(s);
    lemma_leading(s);
    lemma_leading_cut(s);
    lemma_trailing_cut(body);
    lemma_trailing_keeps_front(body);
    let from = s.len() - body.len();
    let to = from + trimmed(s).len();
    assert(trimmed(s) =~= s.subrange(from, to));
    assert forall|i: int| (0 <= i < from || to <= i < s.len()) implies is_white_space(
        #[trigger] s[i],
    ) by {
        if to <= i {
            assert(body[i - from] == s[i]);
        }
    }
}

/// Text without a space is one piece.
pub proof fn law_no_space_no_split(s: Seq<char>)
    requires
        !s.contains(' '),
    ensures
        pieces(s) == seq![s],
{
    let empty = Seq::<char>::empty();
    lemma_pieces_extended(empty, s);
    assert(empty + s =~= s);
    assert(pieces(empty) =~= seq![empty]);
    assert(pieces(s) =~= seq![s]);
}

/// A space splits: the pieces of a text with a space in it are the pieces of what
/// stands before the space and then those of what stands behind it.
pub proof fn law_every_space_splits(before: Seq<char>, behind: Seq<char>)
    ensures
        pieces(before + seq![' '] + behind) == pieces(before) + pieces(behind),
    decreases behind.len(),
{
    let start = before + seq![' '];
    let empty = Seq::<char>::empty();
    if behind.len() == 0 {
        assert(start + behind =~= start);
        assert(start.drop_last() =~= before);
        assert(pieces(behind) =~= seq![empty]);
        assert(pieces(before) + seq![empty] =~= pieces(before).push(empty));
    } else {
        let rest = behind.drop_last();
        law_every_space_splits(before, rest);
        lemma_pieces_not_empty(rest);
        assert((start + behind).drop_last() =~= start + rest);
        assert((start + behind).last() == behind.last());
        let all = pieces(before) + pieces(rest);
        if behind.last() == ' ' {
            assert(all.push(empty) =~= pieces(before) + pieces(behind));
        } else {
            assert(all.last() == pieces(rest).last());
            assert(all.drop_last() =~= pieces(before) + pieces(rest).drop_last());
            assert(all.drop_last().push(all.last().push(behind.last())) =~= pieces(before)
                + pieces(behind));
        }
    }
}

/// White space around a text makes no difference to its words, which are the pieces of
/// the text itself.
pub proof fn law_words_of_padded_text(before: Seq<char>, body: Seq<char>, behind: Seq<char>)
    requires
        forall|i: int| 0 <= i < before.len() ==> is_white_space(#[trigger] before[i]),
        forall|i: int| 0 <= i < behind.len() ==> is_white_space(#[trigger] behind[i]),
        body.len() > 0 ==> !is_white_space(body.first()) && !is_white_space(body.last()),
    ensures
        words(before + body + behind) == pieces(body),
{
    let s = before + body + behind;
    law_trimming_cuts_white_space_only(s);
    let (from, to) = choose|from: int, to: int|
        #![trigger s.subrange(from, to)]
        0 <= from <= to <= s.len() && trimmed(s) == s.subrange(from, to) && (forall|i: int|
            (0 <= i < from || to <= i < s.len()) ==> is_white_space(#[trigger] s[i]));
    let start = before.len() as int;
    let end = start + body.len();
    if body.len() == 0 {
        if trimmed(s).len() > 0 {
            assert(trimmed(s).first() == s[from]);
            if from < start {
                assert(s[from] == before[from]);
            } else {
                assert(s[from] == behind[from - start]);
            }
        }
        assert(trimmed(s) =~= body);
    } else {
        assert(s[start] == body.first() && s[end - 1] == body.last());
        assert(from <= start && end <= to);
        assert(trimmed(s).first() == s[from] && trimmed(s).last() == s[to - 1]);
        if from < start {
            assert(s[from] == before[from]);
        }
        if end < to {
            assert(s[to - 1] == behind[to - 1 - end]);
        }
        assert(s.subrange(start, end) =~= body);
    }
}

} // verus!
