use vstd::prelude::*;

verus! {

/// Assumed of the standard library, not proved here: `String::push` puts the
/// character `c` behind the last character of the string and leaves the
/// characters before it as they were.
pub assume_specification[ String::push ](s: &mut String, c: char)
    ensures
        final(s)@ == old(s)@.push(c),
;

/// The position of the first `c` in `text`, or the length of `text` where
/// `c` does not occur.
pub open spec fn first_index(text: Seq<char>, c: char) -> nat
    decreases text.len(),
{
    if text.len() == 0 || text[0] == c {
        0
    } else {
        1 + first_index(text.drop_first(), c)
    }
}

/// `first_index` is the one position before which `c` does not occur and at
/// which it does, or the text ends.
pub proof fn lemma_first_index(text: Seq<char>, c: char, i: int)
    requires
        0 <= i <= text.len(),
        forall|j: int| 0 <= j < i ==> text[j] != c,
        i < text.len() ==> text[i] == c,
    ensures
        first_index(text, c) == i,
    decreases i,
{
    if i > 0 {
        lemma_first_index(text.drop_first(), c, i - 1);
    }
}

/// White space as Unicode defines it (`White_Space`): the characters that
/// `char::is_whitespace` accepts.
pub open spec fn is_space(c: char) -> bool {
    let u = c as u32;
    ||| 0x09 <= u <= 0x0D
    ||| u == 0x20
    ||| u == 0x85
    ||| u == 0xA0
    ||| u == 0x1680
    ||| 0x2000 <= u <= 0x200A
    ||| u == 0x2028
    ||| u == 0x2029
    ||| u == 0x202F
    ||| u == 0x205F
    ||| u == 0x3000
}

/// A line is blank when it holds nothing but white space.
pub open spec fn is_blank(line: Seq<char>) -> bool {
    forall|i: int| 0 <= i < line.len() ==> is_space(#[trigger] line[i])
}

/// A line without the carriage return that may end it.
pub open spec fn without_cr(line: Seq<char>) -> Seq<char> {
    if line.len() > 0 && line.last() == '\r' {
        line.drop_last()
    } else {
        line
    }
}

/// The lines of a text. A line ends at a line feed, or at a carriage return
/// directly before one; neither belongs to the line. What follows the last
/// line feed is a line of its own unless it is empty.
pub open spec fn lines_of(text: Seq<char>) -> Seq<Seq<char>>
    decreases text.len(),
{
    if text.len() == 0 {
        Seq::empty()
    } else {
        let k = first_index(text, '\n');
        if k >= text.len() {
            seq![text]
        } else {
            seq![without_cr(text.take(k as int))] + lines_of(text.skip(k as int + 1))
        }
    }
}

/// The characters of `s`, in order.
pub fn chars_of(s: &str) -> (v: Vec<char>)
    ensures
        v@ == s@,
{
    let mut v: Vec<char> = Vec::new();
    let chars = s.chars();
    for c in it: chars
        invariant
            it.seq() == s@,
            v@ == it.seq().take(it.index()),
    {
        v.push(c);
    }
    assert(v@ == s@.take(s@.len() as int));
    v
}

/// A string holding the characters `v[from..to]`.
pub fn string_of(v: &Vec<char>, from: usize, to: usize) -> (s: String)
    requires
        from <= to <= v.len(),
    ensures
        s@ == v@.subrange(from as int, to as int),
{
    let mut s = String::new();
    let mut i: usize = from;
    while i < to
        invariant
            from <= i <= to <= v.len(),
            s@ == v@.subrange(from as int, i as int),
        decreases to - i,
    {
        s.push(v[i]);
        i += 1;
    }
    s
}

/// The first position at or after `from` that holds `c`, or the length of
/// `v` where there is none.
pub fn find_first(v: &Vec<char>, from: usize, c: char) -> (i: usize)
    requires
        from <= v.len(),
    ensures
        from <= i <= v.len(),
        i == from + first_index(v@.skip(from as int), c),
{
    let mut i: usize = from;
    while i < v.len() && v[i] != c
        invariant
            from <= i <= v.len(),
            forall|j: int| from <= j < i ==> v[j] != c,
        decreases v.len() - i,
    {
        i += 1;
    }
    proof {
        lemma_first_index(v@.skip(from as int), c, i - from);
    }
    i
}

pub fn is_space_char(c: char) -> (b: bool)
    ensures
        b == is_space(c),
{
    let u: u32 = c as u32;
    (0x09 <= u && u <= 0x0D) || u == 0x20 || u == 0x85 || u == 0xA0 || u == 0x1680 || (0x2000 <= u
        && u <= 0x200A) || u == 0x2028 || u == 0x2029 || u == 0x202F || u == 0x205F || u
        == 0x3000
}

pub fn is_blank_line(line: &str) -> (b: bool)
    ensures
        b == is_blank(line@),
{
    let chars = line.chars();
    for c in it: chars
        invariant
            it.seq() == line@,
            forall|i: int| 0 <= i < it.index() ==> is_space(#[trigger] line@[i]),
    {
        if !is_space_char(c) {
            return false;
        }
    }
    true
}

/// The lines of `text`, each as a string of its own.
pub fn split_lines(text: &str) -> (lines: Vec<String>)
    ensures
        lines.deep_view() == lines_of(text@),
{
    let chars = chars_of(text);
    let n = chars.len();
    let mut lines: Vec<String> = Vec::new();
    let mut start: usize = 0;
    proof {
        assert(text@.skip(0) == text@);
        assert(lines.deep_view() + lines_of(text@) == lines_of(text@));
    }
    while start < n
        invariant
            n == chars.len(),
            chars@ == text@,
            0 <= start <= n,
            lines_of(text@) == lines.deep_view() + lines_of(text@.skip(start as int)),
        decreases n - start,
    {
        let ghost rest = text@.skip(start as int);
        let ghost before = lines.deep_view();
        let end = find_first(&chars, start, '\n');
        let line = if end < n && end > start && chars[end - 1] == '\r' {
            string_of(&chars, start, end - 1)
        } else {
            string_of(&chars, start, end)
        };
        proof {
            assert(rest.take(end - start) == chars@.subrange(start as int, end as int));
            if end < n {
                assert(rest.skip(end - start + 1) == text@.skip(end + 1));
                assert(line@ == without_cr(rest.take(end - start))) by {
                    if end > start && chars[end - 1] == '\r' {
                        assert(rest.take(end - start).drop_last() == chars@.subrange(
                            start as int,
                            end - 1,
                        ));
                    }
                }
            } else {
                assert(chars@.subrange(start as int, end as int) == rest);
                assert(line@ == rest);
                assert(lines_of(text@.skip(n as int)) == Seq::<Seq<char>>::empty());
            }
        }
        lines.push(line);
        proof {
            assert(lines.deep_view() == before.push(line@));
            if end < n {
                assert(before + (seq![line@] + lines_of(text@.skip(end + 1))) == before.push(line@)
                    + lines_of(text@.skip(end + 1)));
            } else {
                assert(before + seq![line@] == before.push(line@) + Seq::<Seq<char>>::empty());
            }
        }
        start = if end < n {
            end + 1
        } else {
            n
        };
    }
    proof {
        assert(lines.deep_view() + Seq::<Seq<char>>::empty() == lines.deep_view());
    }
    lines
}

} // verus!
