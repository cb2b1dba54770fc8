use vstd::prelude::*;

verus! {

/// `String::push` appends one character.
pub assume_specification[ String::push ](string: &mut String, ch: char)
    ensures
        final(string)@ == old(string)@.push(ch),
;

/// The Rust `Debug` rendering of a string: the text in double quotes with
/// quotes, backslashes and unprintable characters escaped.
pub uninterp spec fn debug_quoted(s: Seq<char>) -> Seq<char>;

/// Renders `s` with `Debug` formatting (`format!("{:?}", s)`); the result is
/// claimed to be `debug_quoted(s)`, a function of the text alone. The escape
/// rules themselves (which characters are printable) are not stated.
#[verifier::external_body]
pub(crate) fn debug_quote(s: &str) -> (r: String)
    ensures
        r@ == debug_quoted(s@),
{
    format!("{:?}", s)
}

/// Unicode `White_Space`, the characters `str::trim` removes.
pub open spec fn is_white(c: char) -> bool {
    let n = c as u32;
    ||| 0x9 <= n <= 0xD
    ||| n == 0x20
    ||| n == 0x85
    ||| n == 0xA0
    ||| n == 0x1680
    ||| 0x2000 <= n <= 0x200A
    ||| n == 0x2028
    ||| n == 0x2029
    ||| n == 0x202F
    ||| n == 0x205F
    ||| n == 0x3000
}

/// `s` without leading white space.
pub open spec fn trim_start(s: Seq<char>) -> Seq<char>
    decreases s.len(),
{
    if s.len() > 0 && is_white(s[0]) {
        trim_start(s.drop_first())
    } else {
        s
    }
}

/// `s` without trailing white space.
pub open spec fn trim_end(s: Seq<char>) -> Seq<char>
    decreases s.len(),
{
    if s.len() > 0 && is_white(s.last()) {
        trim_end(s.drop_last())
    } else {
        s
    }
}

/// `s` without leading and trailing white space.
pub open spec fn trim(s: Seq<char>) -> Seq<char> {
    trim_end(trim_start(s))
}

/// The pieces of `s` between occurrences of `sep`, like `str::split`: there
/// is always at least one piece.
pub open spec fn split(s: Seq<char>, sep: char) -> Seq<Seq<char>>
    decreases s.len(),
{
    if s.len() == 0 {
        seq![Seq::empty()]
    } else {
        let pieces = split(s.drop_last(), sep);
        if s.last() == sep {
            pieces.push(Seq::empty())
        } else {
            pieces.update(pieces.len() - 1, pieces.last().push(s.last()))
        }
    }
}

/// The pieces joined with `sep` between them.
pub open spec fn join(pieces: Seq<Seq<char>>, sep: char) -> Seq<char>
    decreases pieces.len(),
{
    if pieces.len() == 0 {
        Seq::empty()
    } else if pieces.len() == 1 {
        pieces[0]
    } else {
        join(pieces.drop_last(), sep).push(sep) + pieces.last()
    }
}

/// Whether `pattern` occurs in `s` at index `i`.
pub open spec fn occurs_at(s: Seq<char>, pattern: Seq<char>, i: int) -> bool {
    0 <= i && i + pattern.len() <= s.len() && s.subrange(i, i + pattern.len()) == pattern
}

/// The first index at or after `i` where `pattern` occurs in `s`.
pub open spec fn find_from(s: Seq<char>, pattern: Seq<char>, i: int) -> Option<int>
    decreases s.len() + 1 - i,
{
    if i < 0 || i + pattern.len() > s.len() {
        None
    } else if occurs_at(s, pattern, i) {
        Some(i)
    } else {
        find_from(s, pattern, i + 1)
    }
}

/// The first index where `pattern` occurs in `s`, like `str::find`.
pub open spec fn find(s: Seq<char>, pattern: Seq<char>) -> Option<int> {
    find_from(s, pattern, 0)
}

/// Decimal digit of `d`.
pub open spec fn digit_char(d: int) -> char {
    if d == 0 {
        '0'
    } else if d == 1 {
        '1'
    } else if d == 2 {
        '2'
    } else if d == 3 {
        '3'
    } else if d == 4 {
        '4'
    } else if d == 5 {
        '5'
    } else if d == 6 {
        '6'
    } else if d == 7 {
        '7'
    } else if d == 8 {
        '8'
    } else {
        '9'
    }
}

/// Decimal representation of `n`, without leading zeros.
pub open spec fn decimal(n: nat) -> Seq<char>
    decreases n,
{
    if n < 10 {
        seq![digit_char(n as int)]
    } else {
        decimal(n / 10).push(digit_char((n % 10) as int))
    }
}

/// A found index is an occurrence.
pub proof fn lemma_find_from_occurs(s: Seq<char>, pattern: Seq<char>, i: int)
    ensures
        find_from(s, pattern, i) matches Some(k) ==> occurs_at(s, pattern, k) && i <= k,
    decreases s.len() + 1 - i,
{
    if !(i < 0 || i + pattern.len() > s.len()) && !occurs_at(s, pattern, i) {
        lemma_find_from_occurs(s, pattern, i + 1);
    }
}

/// Whether `c` is white space.
pub fn is_white_char(c: char) -> (b: bool)
    ensures
        b == is_white(c),
{
    let n = c as u32;
    (0x9 <= n && n <= 0xD) || n == 0x20 || n == 0x85 || n == 0xA0 || n == 0x1680 || (0x2000 <= n
        && n <= 0x200A) || n == 0x2028 || n == 0x2029 || n == 0x202F || n == 0x205F || n == 0x3000
}

/// Characters of `s`, in order.
pub fn chars_of(s: &str) -> (v: Vec<char>)
    ensures
        v@ == s@,
{
    let mut v: Vec<char> = Vec::new();
    for c in it: s.chars()
        invariant
            v@ == it.seq().take(it.index() as int),
    {
        v.push(c);
    }
    v
}

/// `v` without leading and trailing white space.
pub fn trim_chars(v: &Vec<char>) -> (r: Vec<char>)
    ensures
        r@ == trim(v@),
{
    let mut lo: usize = 0;
    assert(v@.subrange(0, v@.len() as int) =~= v@);
    while lo < v.len() && is_white_char(v[lo])
        invariant
            0 <= lo <= v.len(),
            trim_start(v@) == trim_start(v@.subrange(lo as int, v@.len() as int)),
        decreases v.len() - lo,
    {
        assert(v@.subrange(lo as int, v@.len() as int).drop_first() =~= v@.subrange(
            lo + 1,
            v@.len() as int,
        ));
        lo = lo + 1;
    }
    let ghost start = v@.subrange(lo as int, v@.len() as int);
    assert(trim_start(v@) == start);
    let mut hi: usize = v.len();
    assert(start =~= v@.subrange(lo as int, hi as int));
    while hi > lo && is_white_char(v[hi - 1])
        invariant
            lo <= hi <= v.len(),
            start == v@.subrange(lo as int, v@.len() as int),
            trim_end(start) == trim_end(v@.subrange(lo as int, hi as int)),
        decreases hi - lo,
    {
        assert(v@.subrange(lo as int, hi as int).drop_last() =~= v@.subrange(
            lo as int,
            hi - 1,
        ));
        hi = hi - 1;
    }
    let mut r: Vec<char> = Vec::new();
    let mut i: usize = lo;
    while i < hi
        invariant
            lo <= i <= hi <= v.len(),
            r@ == v@.subrange(lo as int, i as int),
        decreases hi - i,
    {
        r.push(v[i]);
        assert(r@ =~= v@.subrange(lo as int, i + 1));
        i = i + 1;
    }
    r
}

/// The pieces of `v` between occurrences of `sep`.
pub fn split_chars(v: &Vec<char>, sep: char) -> (pieces: Vec<Vec<char>>)
    ensures
        pieces@.map_values(|p: Vec<char>| p@) == split(v@, sep),
{
    let mut done: Vec<Vec<char>> = Vec::new();
    let mut current: Vec<char> = Vec::new();
    let mut i: usize = 0;
    assert(v@.take(0) =~= Seq::<char>::empty());
    assert(done@.map_values(|p: Vec<char>| p@).push(current@) =~= split(v@.take(0), sep));
    while i < v.len()
        invariant
            0 <= i <= v.len(),
            done@.map_values(|p: Vec<char>| p@).push(current@) == split(v@.take(i as int), sep),
        decreases v.len() - i,
    {
        let c = v[i];
        let ghost before = done@.map_values(|p: Vec<char>| p@).push(current@);
        assert(v@.take(i + 1).drop_last() =~= v@.take(i as int));
        assert(v@.take(i + 1).last() == c);
        if c == sep {
            done.push(current);
            current = Vec::new();
            assert(done@.map_values(|p: Vec<char>| p@).push(current@) =~= before.push(
                Seq::empty(),
            ));
        } else {
            current.push(c);
            assert(done@.map_values(|p: Vec<char>| p@).push(current@) =~= before.update(
                before.len() - 1,
                before.last().push(c),
            ));
        }
        i = i + 1;
    }
    assert(v@.take(v@.len() as int) =~= v@);
    done.push(current);
    assert(done@.map_values(|p: Vec<char>| p@) =~= split(v@, sep));
    done
}

/// Append the characters of `piece` to `out`.
pub fn push_chars(out: &mut String, piece: &Vec<char>)
    ensures
        final(out)@ == old(out)@ + piece@,
{
    let mut i: usize = 0;
    while i < piece.len()
        invariant
            0 <= i <= piece.len(),
            out@ == old(out)@ + piece@.take(i as int),
        decreases piece.len() - i,
    {
        out.push(piece[i]);
        assert(old(out)@ + piece@.take(i + 1) =~= (old(out)@ + piece@.take(i as int)).push(
            piece@[i as int],
        ));
        i = i + 1;
    }
    assert(piece@.take(piece@.len() as int) =~= piece@);
}

/// Append `piece` to `out`.
pub fn push_str(out: &mut String, piece: &str)
    ensures
        final(out)@ == old(out)@ + piece@,
{
    let chars = chars_of(piece);
    push_chars(out, &chars);
}

/// A new string holding `text`.
pub fn string_of(text: &str) -> (s: String)
    ensures
        s@ == text@,
{
    let mut s = String::new();
    push_str(&mut s, text);
    assert(s@ =~= text@);
    s
}

/// A new string holding the characters of `v`.
pub fn string_from_chars(v: &Vec<char>) -> (s: String)
    ensures
        s@ == v@,
{
    let mut s = String::new();
    push_chars(&mut s, v);
    assert(s@ =~= v@);
    s
}

/// Append the decimal representation of `n` to `out`.
pub fn push_decimal(out: &mut String, n: usize)
    ensures
        final(out)@ == old(out)@ + decimal(n as nat),
    decreases n,
{
    if n >= 10 {
        push_decimal(out, n / 10);
    }
    let d = n % 10;
    let c = if d == 0 {
        '0'
    } else if d == 1 {
        '1'
    } else if d == 2 {
        '2'
    } else if d == 3 {
        '3'
    } else if d == 4 {
        '4'
    } else if d == 5 {
        '5'
    } else if d == 6 {
        '6'
    } else if d == 7 {
        '7'
    } else if d == 8 {
        '8'
    } else {
        '9'
    };
    out.push(c);
    assert(out@ =~= old(out)@ + decimal(n as nat));
}

/// The pieces joined with `sep` between them.
pub fn join_chars(pieces: &Vec<Vec<char>>, sep: char) -> (s: String)
    ensures
        s@ == join(pieces@.map_values(|p: Vec<char>| p@), sep),
{
    let ghost all = pieces@.map_values(|p: Vec<char>| p@);
    let mut s = String::new();
    let mut i: usize = 0;
    assert(all.take(0) =~= Seq::<Seq<char>>::empty());
    while i < pieces.len()
        invariant
            0 <= i <= pieces.len(),
            all == pieces@.map_values(|p: Vec<char>| p@),
            s@ == join(all.take(i as int), sep),
        decreases pieces.len() - i,
    {
        assert(all.take(i + 1).drop_last() =~= all.take(i as int));
        assert(all.take(i + 1).last() == pieces@[i as int]@);
        if i > 0 {
            s.push(sep);
        } else {
            assert(s@ =~= Seq::<char>::empty());
        }
        push_chars(&mut s, &pieces[i]);
        i = i + 1;
    }
    assert(all.take(pieces.len() as int) =~= all);
    s
}

/// The first index where `pattern` occurs in `v`.
pub fn find_chars(v: &Vec<char>, pattern: &Vec<char>) -> (r: Option<usize>)
    ensures
        r matches Some(i) ==> find(v@, pattern@) == Some(i as int),
        r matches Some(i) ==> i + pattern@.len() <= v@.len(),
        r is None ==> find(v@, pattern@) is None,
{
    proof {
        lemma_find_from_occurs(v@, pattern@, 0);
    }
    if pattern.len() > v.len() {
        return None;
    }
    let last = v.len() - pattern.len();
    let mut i: usize = 0;
    loop
        invariant
            i <= last,
            last + pattern.len() == v.len(),
            find(v@, pattern@) == find_from(v@, pattern@, i as int),
        decreases last - i,
    {
        let mut j: usize = 0;
        let mut matched = true;
        while j < pattern.len()
            invariant
                i + pattern.len() <= v.len(),
                0 <= j <= pattern.len(),
                matched ==> forall|k: int| 0 <= k < j ==> v@[i + k] == pattern@[k],
                !matched ==> !occurs_at(v@, pattern@, i as int),
            decreases pattern.len() - j,
        {
            if v[i + j] != pattern[j] {
                matched = false;
                assert(v@.subrange(i as int, i + pattern.len())[j as int] != pattern@[j as int]);
            }
            j = j + 1;
        }
        if matched {
            assert(v@.subrange(i as int, i + pattern.len()) =~= pattern@);
            return Some(i);
        }
        if i == last {
            assert(find_from(v@, pattern@, i + 1) is None);
            return None;
        }
        i = i + 1;
    }
}

} // verus!
