use vstd::prelude::*;

verus! {

/// The characters of `s`, in order.
pub fn chars_of(s: &str) -> (v: Vec<char>)
    ensures
        v@ == s@,
{
    let mut v: Vec<char> = Vec::new();
    let mut it = s.chars();
    for c in iter: it
        invariant
            v@ == iter.seq().take(iter.index() as int),
            iter.seq() == s@,
    {
        v.push(c);
    }
    v
}

/// `ToString::to_string`: the text that `Display` gives a value.
#[verifier::external_body]
pub(crate) fn said<E: ToString>(e: E) -> String {
    e.to_string()
}

/// `String::from_iter` over the characters of a vector: the string made of
/// exactly these characters, in their order.
#[verifier::external_body]
pub(crate) fn string_of(v: &Vec<char>) -> (s: String)
    ensures
        s@ == v@,
{
    v.iter().collect()
}


/// Whether `c` is white space: a character with the Unicode property
/// `White_Space`, which is what `char::is_whitespace` tests.
pub open spec fn is_space(c: char) -> bool {
    let n = c as u32;
    ||| 0x09 <= n <= 0x0D
    ||| n == 0x20
    ||| n == 0x85
    ||| n == 0xA0
    ||| n == 0x1680
    ||| 0x2000 <= n <= 0x200A
    ||| n == 0x2028
    ||| n == 0x2029
    ||| n == 0x202F
    ||| n == 0x205F
    ||| n == 0x3000
}

/// The index of the first line feed at or after `from`, or the length of `s`
/// where there is none: the end of the line that `from` lies in.
pub open spec fn line_end(s: Seq<char>, from: int) -> int
    decreases s.len() - from,
{
    if from < 0 || from >= s.len() {
        s.len() as int
    } else if s[from] == '\n' {
        from
    } else {
        line_end(s, from + 1)
    }
}

/// Where the line after the one that `from` lies in starts; the length of
/// `s` where that line is the last.
pub open spec fn next_line(s: Seq<char>, from: int) -> int {
    let e = line_end(s, from);
    if e < s.len() {
        e + 1
    } else {
        e
    }
}

/// The first index from `from` on, below `to`, whose character is no white
/// space; `to` where there is none.
pub open spec fn skip_spaces(s: Seq<char>, from: int, to: int) -> int
    decreases to - from,
{
    if 0 <= from < to && to <= s.len() && is_space(s[from]) {
        skip_spaces(s, from + 1, to)
    } else {
        from
    }
}

/// Where the line that starts at `from` has its first character that is no
/// white space; the line's end where it has none.
pub open spec fn content_start(s: Seq<char>, from: int) -> int {
    skip_spaces(s, from, line_end(s, from))
}

/// Whether the line that starts at `from` holds white space only.
pub open spec fn is_blank_line(s: Seq<char>, from: int) -> bool {
    content_start(s, from) == line_end(s, from)
}

/// Whether the line that starts at `from` has `token` as the first thing
/// after its leading white space. What follows the token does not count.
pub open spec fn opens_with(s: Seq<char>, from: int, token: Seq<char>) -> bool {
    let at = content_start(s, from);
    at + token.len() <= line_end(s, from) && s.subrange(at, at + token.len()) == token
}

/// A line's end lies between its start and the end of the text, on a line
/// feed or on the end of the text, and no line feed comes before it.
pub proof fn lemma_line_end(s: Seq<char>, from: int)
    requires
        0 <= from <= s.len(),
    ensures
        from <= line_end(s, from) <= s.len(),
        line_end(s, from) < s.len() ==> s[line_end(s, from)] == '\n',
        forall|i: int| from <= i < line_end(s, from) ==> s[i] != '\n',
        from < s.len() ==> from < next_line(s, from) <= s.len(),
    decreases s.len() - from,
{
    if from < s.len() && s[from] != '\n' {
        lemma_line_end(s, from + 1);
    }
}

/// Skipping white space stops between the two bounds, on a character that
/// is no white space or on the upper bound, and passes white space only.
pub proof fn lemma_skip_spaces(s: Seq<char>, from: int, to: int)
    requires
        0 <= from <= to <= s.len(),
    ensures
        from <= skip_spaces(s, from, to) <= to,
        skip_spaces(s, from, to) < to ==> !is_space(s[skip_spaces(s, from, to)]),
        forall|i: int| from <= i < skip_spaces(s, from, to) ==> is_space(s[i]),
    decreases to - from,
{
    if from < to && is_space(s[from]) {
        lemma_skip_spaces(s, from + 1, to);
    }
}

/// Whether `c` is white space.
pub fn is_whitespace(c: char) -> (yes: bool)
    ensures
        yes == is_space(c),
{
    let n: u32 = c as u32;
    (0x09 <= n && n <= 0x0D) || n == 0x20 || n == 0x85 || n == 0xA0 || n == 0x1680 || (0x2000
        <= n && n <= 0x200A) || n == 0x2028 || n == 0x2029 || n == 0x202F || n == 0x205F || n
        == 0x3000
}

/// The end of the line that `from` lies in.
pub fn find_line_end(v: &Vec<char>, from: usize) -> (end: usize)
    requires
        from <= v.len(),
    ensures
        end == line_end(v@, from as int),
        from <= end <= v.len(),
{
    let mut i: usize = from;
    while i < v.len() && v[i] != '\n'
        invariant
            from <= i <= v.len(),
            line_end(v@, from as int) == line_end(v@, i as int),
        decreases v.len() - i,
    {
        i = i + 1;
    }
    i
}

/// The first index from `from` on, below `to`, whose character is no white
/// space; `to` where there is none.
pub fn find_content(v: &Vec<char>, from: usize, to: usize) -> (at: usize)
    requires
        from <= to <= v.len(),
    ensures
        at == skip_spaces(v@, from as int, to as int),
        from <= at <= to,
{
    let mut i: usize = from;
    while i < to && is_whitespace(v[i])
        invariant
            from <= i <= to <= v.len(),
            skip_spaces(v@, from as int, to as int) == skip_spaces(v@, i as int, to as int),
        decreases to - i,
    {
        i = i + 1;
    }
    i
}

/// Whether the line that starts at `from`, and ends at `end`, has three
/// times the character `mark` as the first thing after its leading white
/// space.
pub fn line_opens_with(v: &Vec<char>, from: usize, end: usize, mark: char) -> (yes: bool)
    requires
        from <= v.len(),
        end == line_end(v@, from as int),
    ensures
        yes == opens_with(v@, from as int, seq![mark, mark, mark]),
{
    proof {
        lemma_line_end(v@, from as int);
    }
    let at = find_content(v, from, end);
    if end - at < 3 {
        return false;
    }
    let yes = v[at] == mark && v[at + 1] == mark && v[at + 2] == mark;
    proof {
        let token = seq![mark, mark, mark];
        let part = v@.subrange(at as int, at + 3);
        assert(part[0] == v@[at as int] && part[1] == v@[at + 1] && part[2] == v@[at + 2]);
        assert(token[0] == mark && token[1] == mark && token[2] == mark);
        if yes {
            assert(part =~= token);
        }
    }
    yes
}

} // verus!
