//! Character-sequence operations on which the comment format rests.

use vstd::prelude::*;

verus! {

/// The index of the first `c` in `s`, or `s.len()` when `c` does not occur.
pub open spec fn find_char(s: Seq<char>, c: char) -> int
    decreases s.len(),
{
    if s.len() == 0 {
        0
    } else if s[0] == c {
        0
    } else {
        1 + find_char(s.drop_first(), c)
    }
}

pub proof fn lemma_find_char(s: Seq<char>, c: char)
    ensures
        0 <= find_char(s, c) <= s.len(),
        forall|j: int| 0 <= j < find_char(s, c) ==> s[j] != c,
        find_char(s, c) < s.len() ==> s[find_char(s, c)] == c,
    decreases s.len(),
{
    if s.len() > 0 && s[0] != c {
        lemma_find_char(s.drop_first(), c);
        assert forall|j: int| 0 <= j < find_char(s, c) implies s[j] != c by {
            if j > 0 {
                assert(s[j] == s.drop_first()[j - 1]);
            }
        }
    }
}

/// Any index that satisfies the defining property of `find_char` is it.
pub proof fn lemma_find_char_at(s: Seq<char>, c: char, k: int)
    requires
        0 <= k <= s.len(),
        forall|j: int| 0 <= j < k ==> s[j] != c,
        k < s.len() ==> s[k] == c,
    ensures
        find_char(s, c) == k,
{
    lemma_find_char(s, c);
}

/// The index of the first `c` at or after `from`.
pub fn find_char_from(s: &Vec<char>, from: usize, c: char) -> (k: usize)
    requires
        from <= s.len(),
    ensures
        from <= k <= s.len(),
        k == from + find_char(s@.skip(from as int), c),
{
    let mut k = from;
    while k < s.len() && s[k] != c
        invariant
            from <= k <= s.len(),
            forall|j: int| from <= j < k ==> s@[j] != c,
        decreases s.len() - k,
    {
        k = k + 1;
    }
    proof {
        lemma_find_char_at(s@.skip(from as int), c, k - from);
    }
    k
}


/// The elements of `v` seen as character sequences.
pub open spec fn seqs(v: Seq<Vec<char>>) -> Seq<Seq<char>> {
    v.map_values(|l: Vec<char>| l@)
}

/// `s` begins with `p`.
pub open spec fn starts_with(s: Seq<char>, p: Seq<char>) -> bool {
    p.len() <= s.len() && s.subrange(0, p.len() as int) == p
}

/// `s` ends with the character `c`.
pub open spec fn ends_with_char(s: Seq<char>, c: char) -> bool {
    s.len() > 0 && s.last() == c
}

/// The pieces of `s` between the occurrences of `c` (std's `str::split` with a character).
pub open spec fn split(s: Seq<char>, c: char) -> Seq<Seq<char>>
    decreases s.len(),
{
    let k = find_char(s, c);
    if k < 0 || k >= s.len() {
        seq![s]
    } else {
        seq![s.take(k)] + split(s.skip(k + 1), c)
    }
}

/// A line without the carriage return that ended it.
pub open spec fn strip_cr(l: Seq<char>) -> Seq<char> {
    if ends_with_char(l, '\r') {
        l.drop_last()
    } else {
        l
    }
}

/// The lines of `s` (std's `str::lines`): split at `\n`, each line loses a `\r` that
/// stood just before its `\n`, and a final empty line is not a line.
pub open spec fn lines(s: Seq<char>) -> Seq<Seq<char>>
    decreases s.len(),
{
    let k = find_char(s, '\n');
    if s.len() == 0 {
        seq![]
    } else if k < 0 || k >= s.len() {
        seq![s]
    } else {
        seq![strip_cr(s.take(k))] + lines(s.skip(k + 1))
    }
}

/// The copy of `s[lo..hi]`.
pub fn copy_range(s: &Vec<char>, lo: usize, hi: usize) -> (r: Vec<char>)
    requires
        lo <= hi <= s.len(),
    ensures
        r@ == s@.subrange(lo as int, hi as int),
{
    let mut r: Vec<char> = Vec::new();
    let mut i = lo;
    while i < hi
        invariant
            lo <= i <= hi <= s.len(),
            r@ == s@.subrange(lo as int, i as int),
        decreases hi - i,
    {
        r.push(s[i]);
        i = i + 1;
    }
    r
}

/// Whether `p` stands in `s` at position `at`.
pub fn starts_with_at(s: &Vec<char>, at: usize, p: &Vec<char>) -> (b: bool)
    requires
        at <= s.len(),
    ensures
        b == starts_with(s@.skip(at as int), p@),
{
    if p.len() > s.len() - at {
        return false;
    }
    let mut i: usize = 0;
    while i < p.len()
        invariant
            at + p.len() <= s.len(),
            i <= p.len(),
            forall|j: int| 0 <= j < i ==> s@[at + j] == p@[j],
        decreases p.len() - i,
    {
        if s[at + i] != p[i] {
            assert(s@.skip(at as int).subrange(0, p.len() as int)[i as int] != p@[i as int]);
            return false;
        }
        i = i + 1;
    }
    assert(s@.skip(at as int).subrange(0, p.len() as int) =~= p@);
    true
}

/// `std`'s `str::split` with a character pattern.
pub fn split_char(s: &Vec<char>, c: char) -> (r: Vec<Vec<char>>)
    ensures
        seqs(r@) == split(s@, c),
        r.len() >= 1,
{
    let mut r: Vec<Vec<char>> = Vec::new();
    let mut i: usize = 0;
    assert(s@.skip(0) =~= s@);
    assert(seqs(r@) =~= Seq::<Seq<char>>::empty());
    loop
        invariant
            i <= s.len(),
            seqs(r@) + split(s@.skip(i as int), c) == split(s@, c),
        decreases s.len() - i,
    {
        let k = find_char_from(s, i, c);
        let ghost rest = s@.skip(i as int);
        proof {
            lemma_find_char(rest, c);
        }
        let piece = copy_range(s, i, k);
        r.push(piece);
        if k == s.len() {
            assert(split(rest, c) == seq![rest]);
            assert(piece@ =~= rest);
            assert(seqs(r@) =~= seqs(r@.drop_last()) + seq![piece@]);
            return r;
        }
        assert(rest.take(k - i) =~= piece@);
        assert(rest.skip(k - i + 1) =~= s@.skip(k + 1));
        assert(seqs(r@) =~= seqs(r@.drop_last()) + seq![piece@]);
        i = k + 1;
    }
}

/// `std`'s `str::lines`.
pub fn split_lines(s: &Vec<char>) -> (r: Vec<Vec<char>>)
    ensures
        seqs(r@) == lines(s@),
{
    let mut r: Vec<Vec<char>> = Vec::new();
    let mut i: usize = 0;
    assert(s@.skip(0) =~= s@);
    assert(seqs(r@) =~= Seq::<Seq<char>>::empty());
    while i < s.len()
        invariant
            i <= s.len(),
            seqs(r@) + lines(s@.skip(i as int)) == lines(s@),
        decreases s.len() - i,
    {
        let k = find_char_from(s, i, '\n');
        let ghost rest = s@.skip(i as int);
        proof {
            lemma_find_char(rest, '\n');
        }
        if k == s.len() {
            let piece = copy_range(s, i, k);
            assert(piece@ =~= rest);
            r.push(piece);
            assert(seqs(r@) =~= seqs(r@.drop_last()) + seq![piece@]);
            assert(lines(s@.skip(s.len() as int)) =~= seq![]) by {
                assert(s@.skip(s.len() as int) =~= Seq::<char>::empty());
            }
            i = k;
        } else {
            let hi = if k > i && s[k - 1] == '\r' { k - 1 } else { k };
            let piece = copy_range(s, i, hi);
            assert(rest.take(k - i) =~= s@.subrange(i as int, k as int));
            assert(piece@ =~= strip_cr(rest.take(k - i)));
            r.push(piece);
            assert(rest.skip(k - i + 1) =~= s@.skip(k + 1));
            assert(seqs(r@) =~= seqs(r@.drop_last()) + seq![piece@]);
            i = k + 1;
        }
    }
    assert(s@.skip(i as int) =~= Seq::<char>::empty());
    r
}


/// Whether `c` has Unicode's White_Space property: the controls U+0009 to U+000D, the space,
/// U+0085, U+00A0, U+1680, U+2000 to U+200A, U+2028, U+2029, U+202F, U+205F and U+3000.
pub open spec fn white_space(c: char) -> bool {
    let n = c as u32;
    ||| 0x9 <= n <= 0xD
    ||| n == 0x20
    ||| n == 0x85
    ||| n == 0xA0
    ||| n == 0x1680
    ||| 0x2000 <= n <= 0x200A
    ||| n == 0x2028
    ||| n == 0x2029
    ||| n == 0x202F
    ||| n == 0x205F
    ||| n == 0x3000
}

/// Trusted: `char::is_whitespace` of std reports whether `c` has the White_Space property.
#[verifier::external_body]
pub(crate) fn is_whitespace(c: char) -> (b: bool)
    ensures
        b == white_space(c),
{
    c.is_whitespace()
}

/// The characters of `s`, in order.
pub fn chars_of(s: &str) -> (v: Vec<char>)
    ensures
        v@ == s@,
{
    let mut v: Vec<char> = Vec::new();
    for c in it: s.chars()
        invariant
            v@ == it.seq().take(it.index() as int),
            it.seq() == s@,
    {
        v.push(c);
    }
    v
}

/// Trusted: std's `FromIterator<char>` for `String` keeps the characters in order.
#[verifier::external_body]
pub(crate) fn string_of(v: &Vec<char>) -> (s: String)
    ensures
        s@ == v@,
{
    v.iter().collect::<String>()
}

/// `s` without the leading copies of `p` (std's `str::trim_start_matches`).
pub open spec fn trim_start_matches(s: Seq<char>, p: Seq<char>) -> Seq<char>
    decreases s.len(),
{
    if p.len() > 0 && starts_with(s, p) {
        trim_start_matches(s.skip(p.len() as int), p)
    } else {
        s
    }
}

/// `s` without the trailing copies of `c` (std's `str::trim_end_matches` with a character).
pub open spec fn trim_end_matches(s: Seq<char>, c: char) -> Seq<char>
    decreases s.len(),
{
    if ends_with_char(s, c) {
        trim_end_matches(s.drop_last(), c)
    } else {
        s
    }
}

/// `s` without its leading white space.
pub open spec fn trim_start(s: Seq<char>) -> Seq<char>
    decreases s.len(),
{
    if s.len() > 0 && white_space(s[0]) {
        trim_start(s.drop_first())
    } else {
        s
    }
}

/// `s` without its trailing white space.
pub open spec fn trim_end(s: Seq<char>) -> Seq<char>
    decreases s.len(),
{
    if s.len() > 0 && white_space(s.last()) {
        trim_end(s.drop_last())
    } else {
        s
    }
}

/// `s` without leading and trailing white space (std's `str::trim`).
pub open spec fn trim(s: Seq<char>) -> Seq<char> {
    trim_end(trim_start(s))
}

/// The index of the first white-space character of `s`, or `s.len()`.
pub open spec fn find_space(s: Seq<char>) -> int
    decreases s.len(),
{
    if s.len() == 0 {
        0
    } else if white_space(s[0]) {
        0
    } else {
        1 + find_space(s.drop_first())
    }
}

pub proof fn lemma_find_space(s: Seq<char>)
    ensures
        0 <= find_space(s) <= s.len(),
        forall|j: int| 0 <= j < find_space(s) ==> !white_space(s[j]),
        find_space(s) < s.len() ==> white_space(s[find_space(s)]),
    decreases s.len(),
{
    if s.len() > 0 && !white_space(s[0]) {
        lemma_find_space(s.drop_first());
        assert forall|j: int| 0 <= j < find_space(s) implies !white_space(s[j]) by {
            if j > 0 {
                assert(s[j] == s.drop_first()[j - 1]);
            }
        }
    }
}

/// The words of `s` between runs of white space (std's `str::split_whitespace`).
pub open spec fn split_whitespace(s: Seq<char>) -> Seq<Seq<char>>
    decreases s.len(),
{
    if s.len() == 0 {
        seq![]
    } else if white_space(s[0]) {
        split_whitespace(s.drop_first())
    } else {
        let k = find_space(s);
        if k <= 0 || k > s.len() {
            seq![s]
        } else {
            seq![s.take(k)] + split_whitespace(s.skip(k))
        }
    }
}

/// `s` with each match of `from`, taken from left to right without overlap, replaced by
/// `to` (std's `str::replace`).
pub open spec fn replace(s: Seq<char>, from: Seq<char>, to: Seq<char>) -> Seq<char>
    decreases s.len(),
{
    if s.len() == 0 {
        seq![]
    } else if from.len() > 0 && starts_with(s, from) {
        to + replace(s.skip(from.len() as int), from, to)
    } else {
        seq![s[0]] + replace(s.drop_first(), from, to)
    }
}

/// `std`'s `str::trim_start_matches`.
pub fn trim_start_matches_vec(s: &Vec<char>, p: &Vec<char>) -> (r: Vec<char>)
    ensures
        r@ == trim_start_matches(s@, p@),
{
    let mut i: usize = 0;
    assert(s@.skip(0) =~= s@);
    if p.len() > 0 {
        while starts_with_at(s, i, p)
            invariant
                p.len() > 0,
                i <= s.len(),
                trim_start_matches(s@.skip(i as int), p@) == trim_start_matches(s@, p@),
            decreases s.len() - i,
        {
            assert(s@.skip(i as int).skip(p.len() as int) =~= s@.skip(i + p.len()));
            i = i + p.len();
        }
    }
    let r = copy_range(s, i, s.len());
    assert(r@ =~= s@.skip(i as int));
    r
}

/// `std`'s `str::trim_start_matches` with a character.
pub fn trim_start_matches_char(s: &Vec<char>, c: char) -> (r: Vec<char>)
    ensures
        r@ == trim_start_matches(s@, seq![c]),
{
    let mut p: Vec<char> = Vec::new();
    p.push(c);
    assert(p@ =~= seq![c]);
    trim_start_matches_vec(s, &p)
}

/// `std`'s `str::trim_end_matches` with a character.
pub fn trim_end_matches_char(s: &Vec<char>, c: char) -> (r: Vec<char>)
    ensures
        r@ == trim_end_matches(s@, c),
{
    let mut j = s.len();
    assert(s@.take(j as int) =~= s@);
    while j > 0 && s[j - 1] == c
        invariant
            j <= s.len(),
            trim_end_matches(s@.take(j as int), c) == trim_end_matches(s@, c),
        decreases j,
    {
        assert(s@.take(j as int).drop_last() =~= s@.take(j - 1));
        j = j - 1;
    }
    let r = copy_range(s, 0, j);
    assert(r@ =~= s@.take(j as int));
    r
}

/// `std`'s `str::trim`.
pub fn trim_vec(s: &Vec<char>) -> (r: Vec<char>)
    ensures
        r@ == trim(s@),
{
    let mut i: usize = 0;
    assert(s@.skip(0) =~= s@);
    while i < s.len() && is_whitespace(s[i])
        invariant
            i <= s.len(),
            trim_start(s@.skip(i as int)) == trim_start(s@),
        decreases s.len() - i,
    {
        assert(s@.skip(i as int).drop_first() =~= s@.skip(i + 1));
        i = i + 1;
    }
    let t = copy_range(s, i, s.len());
    assert(t@ =~= s@.skip(i as int));
    let mut j = t.len();
    assert(t@.take(j as int) =~= t@);
    while j > 0 && is_whitespace(t[j - 1])
        invariant
            j <= t.len(),
            trim_end(t@.take(j as int)) == trim_end(t@),
        decreases j,
    {
        assert(t@.take(j as int).drop_last() =~= t@.take(j - 1));
        j = j - 1;
    }
    let r = copy_range(&t, 0, j);
    assert(r@ =~= t@.take(j as int));
    r
}

/// `std`'s `str::split_whitespace`.
pub fn split_whitespace_vec(s: &Vec<char>) -> (r: Vec<Vec<char>>)
    ensures
        seqs(r@) == split_whitespace(s@),
{
    let mut r: Vec<Vec<char>> = Vec::new();
    let mut i: usize = 0;
    assert(s@.skip(0) =~= s@);
    assert(seqs(r@) =~= Seq::<Seq<char>>::empty());
    while i < s.len()
        invariant
            i <= s.len(),
            seqs(r@) + split_whitespace(s@.skip(i as int)) == split_whitespace(s@),
        decreases s.len() - i,
    {
        let ghost rest = s@.skip(i as int);
        if is_whitespace(s[i]) {
            assert(rest.drop_first() =~= s@.skip(i + 1));
            i = i + 1;
        } else {
            let mut k = i + 1;
            while k < s.len() && !is_whitespace(s[k])
                invariant
                    i < k <= s.len(),
                    forall|j: int| i <= j < k ==> !white_space(s@[j]),
                decreases s.len() - k,
            {
                k = k + 1;
            }
            proof {
                lemma_find_space(rest);
                let f = find_space(rest);
                if f < k - i {
                    assert(!white_space(s@[i + f]));
                }
                if k - i < f {
                    assert(white_space(rest[k - i]));
                }
            }
            let word = copy_range(s, i, k);
            assert(rest.take(k - i) =~= word@);
            assert(rest.skip(k - i) =~= s@.skip(k as int));
            r.push(word);
            assert(seqs(r@) =~= seqs(r@.drop_last()) + seq![word@]);
            i = k;
        }
    }
    assert(s@.skip(i as int) =~= Seq::<char>::empty());
    r
}

/// `std`'s `str::replace`.
pub fn replace_vec(s: &Vec<char>, from: &Vec<char>, to: &Vec<char>) -> (r: Vec<char>)
    ensures
        r@ == replace(s@, from@, to@),
{
    let mut r: Vec<char> = Vec::new();
    let mut i: usize = 0;
    assert(s@.skip(0) =~= s@);
    while i < s.len()
        invariant
            i <= s.len(),
            r@ + replace(s@.skip(i as int), from@, to@) == replace(s@, from@, to@),
        decreases s.len() - i,
    {
        let ghost rest = s@.skip(i as int);
        let ghost before = r@;
        if from.len() > 0 && starts_with_at(s, i, from) {
            let mut j: usize = 0;
            while j < to.len()
                invariant
                    j <= to.len(),
                    r@ == before + to@.take(j as int),
                decreases to.len() - j,
            {
                r.push(to[j]);
                j = j + 1;
            }
            assert(to@.take(to.len() as int) =~= to@);
            assert(rest.skip(from.len() as int) =~= s@.skip(i + from.len()));
            assert(r@ + replace(s@.skip(i + from.len()), from@, to@) =~= before + (to@
                + replace(s@.skip(i + from.len()), from@, to@)));
            i = i + from.len();
        } else {
            r.push(s[i]);
            assert(rest.drop_first() =~= s@.skip(i + 1));
            assert(r@ + replace(s@.skip(i + 1), from@, to@) =~= before + (seq![rest[0]]
                + replace(s@.skip(i + 1), from@, to@)));
            i = i + 1;
        }
    }
    assert(s@.skip(i as int) =~= Seq::<char>::empty());
    assert(r@ + replace(s@.skip(i as int), from@, to@) =~= r@);
    r
}


/// The first of the lines `ls` that begins with `p`.
pub open spec fn first_with_prefix(ls: Seq<Seq<char>>, p: Seq<char>) -> Option<Seq<char>>
    decreases ls.len(),
{
    if ls.len() == 0 {
        None
    } else if starts_with(ls[0], p) {
        Some(ls[0])
    } else {
        first_with_prefix(ls.drop_first(), p)
    }
}

/// The position of the first of the lines `ls` that begins with `p`.
pub fn find_line(ls: &Vec<Vec<char>>, p: &Vec<char>) -> (r: Option<usize>)
    ensures
        r matches Some(i) ==> i < ls.len() && first_with_prefix(seqs(ls@), p@) == Some(ls@[i as int]@),
        r is None ==> first_with_prefix(seqs(ls@), p@) is None,
{
    let mut i: usize = 0;
    assert(seqs(ls@).skip(0) =~= seqs(ls@));
    while i < ls.len()
        invariant
            i <= ls.len(),
            first_with_prefix(seqs(ls@), p@) == first_with_prefix(seqs(ls@).skip(i as int), p@),
        decreases ls.len() - i,
    {
        let ghost rest = seqs(ls@).skip(i as int);
        assert(rest[0] == ls@[i as int]@);
        assert(ls@[i as int]@.skip(0) =~= ls@[i as int]@);
        if starts_with_at(&ls[i], 0, p) {
            return Some(i);
        }
        assert(rest.drop_first() =~= seqs(ls@).skip(i + 1));
        i = i + 1;
    }
    None
}

/// Whether `s` begins with the character `c`.
pub fn starts_with_char(s: &Vec<char>, c: char) -> (b: bool)
    ensures
        b == starts_with(s@, seq![c]),
{
    if s.len() == 0 {
        false
    } else {
        assert(s@.subrange(0, 1) =~= seq![s@[0]]);
        if s[0] != c {
            assert(s@.subrange(0, 1)[0] != seq![c][0]);
        }
        s[0] == c
    }
}

/// Whether `s` ends with the character `c`.
pub fn ends_with(s: &Vec<char>, c: char) -> (b: bool)
    ensures
        b == ends_with_char(s@, c),
{
    s.len() > 0 && s[s.len() - 1] == c
}


/// The index of the first occurrence of `p` in `s`, or `s.len()` when there is none.
pub open spec fn find_str(s: Seq<char>, p: Seq<char>) -> int
    decreases s.len(),
{
    if s.len() == 0 {
        0
    } else if starts_with(s, p) {
        0
    } else {
        1 + find_str(s.drop_first(), p)
    }
}

pub proof fn lemma_find_str(s: Seq<char>, p: Seq<char>)
    requires
        p.len() > 0,
    ensures
        0 <= find_str(s, p) <= s.len(),
        forall|j: int| 0 <= j < find_str(s, p) ==> !starts_with(#[trigger] s.skip(j), p),
        find_str(s, p) < s.len() ==> starts_with(s.skip(find_str(s, p)), p),
    decreases s.len(),
{
    if s.len() > 0 && !starts_with(s, p) {
        lemma_find_str(s.drop_first(), p);
        assert forall|j: int| 0 <= j < find_str(s, p) implies !starts_with(#[trigger] s.skip(j), p) by {
            if j > 0 {
                assert(s.skip(j) =~= s.drop_first().skip(j - 1));
            } else {
                assert(s.skip(0) =~= s);
            }
        }
        if find_str(s, p) < s.len() {
            assert(s.skip(find_str(s, p)) =~= s.drop_first().skip(find_str(s, p) - 1));
        }
    } else if s.len() > 0 {
        assert(s.skip(0) =~= s);
    }
}

/// The pieces of `s` between the occurrences of a non-empty `p` (std's `str::split` with a
/// string).
pub open spec fn split_str(s: Seq<char>, p: Seq<char>) -> Seq<Seq<char>>
    decreases s.len(),
{
    let k = find_str(s, p);
    if p.len() == 0 || k < 0 || k >= s.len() || k + p.len() > s.len() {
        seq![s]
    } else {
        seq![s.take(k)] + split_str(s.skip(k + p.len()), p)
    }
}

/// `std`'s `str::split` with a non-empty string pattern.
pub fn split_str_vec(s: &Vec<char>, p: &Vec<char>) -> (r: Vec<Vec<char>>)
    requires
        p.len() > 0,
    ensures
        seqs(r@) == split_str(s@, p@),
{
    let mut r: Vec<Vec<char>> = Vec::new();
    let mut i: usize = 0;
    assert(s@.skip(0) =~= s@);
    assert(seqs(r@) =~= Seq::<Seq<char>>::empty());
    loop
        invariant
            i <= s.len(),
            p.len() > 0,
            seqs(r@) + split_str(s@.skip(i as int), p@) == split_str(s@, p@),
        decreases s.len() - i,
    {
        let ghost rest = s@.skip(i as int);
        proof {
            lemma_find_str(rest, p@);
        }
        let mut k = i;
        while k < s.len() && !starts_with_at(s, k, p)
            invariant
                i <= k <= s.len(),
                forall|j: int| i <= j < k ==> !starts_with(#[trigger] s@.skip(j), p@),
            decreases s.len() - k,
        {
            k = k + 1;
        }
        proof {
            let f = find_str(rest, p@);
            if f < k - i {
                assert(rest.skip(f) =~= s@.skip(i + f));
            }
            if k - i < f {
                assert(rest.skip(k - i) =~= s@.skip(k as int));
            }
            assert(find_str(rest, p@) == k - i);
        }
        if k == s.len() {
            let piece = copy_range(s, i, s.len());
            assert(piece@ =~= rest);
            r.push(piece);
            assert(seqs(r@) =~= seqs(r@.drop_last()) + seq![piece@]);
            return r;
        }
        let piece = copy_range(s, i, k);
        assert(rest.take(k - i) =~= piece@);
        assert(rest.skip(k - i + p.len()) =~= s@.skip(k + p.len()));
        r.push(piece);
        assert(seqs(r@) =~= seqs(r@.drop_last()) + seq![piece@]);
        i = k + p.len();
    }
}

} // verus!
