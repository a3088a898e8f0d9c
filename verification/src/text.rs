//! Text as sequences of characters: the vocabulary that the contracts of the
//! other modules are written in, and the verified routines that compute it.

use vstd::prelude::*;
use vstd::string::*;

verus! {

/// `String::push` appends one character to the end of the string.
pub assume_specification[ String::push ](s: &mut String, c: char)
    ensures
        final(s)@ == old(s)@.push(c),
;

/// The lower-case form of a text, as `str::to_lowercase` computes it from the
/// Unicode tables.
pub uninterp spec fn lowercase(s: Seq<char>) -> Seq<char>;

/// `str::to_lowercase`. Nothing is proved of the mapping itself: the result
/// is only given its name.
#[verifier::external_body]
pub(crate) fn to_lowercase(s: &str) -> (r: String)
    ensures
        r@ == lowercase(s@),
{
    s.to_lowercase()
}

/// The characters with Unicode's `White_Space` property.
pub open spec fn is_whitespace(c: char) -> bool {
    let u = c as u32;
    (0x09 <= u <= 0x0D) || u == 0x20 || u == 0x85 || u == 0xA0 || u == 0x1680 || (0x2000 <= u
        <= 0x200A) || u == 0x2028 || u == 0x2029 || u == 0x202F || u == 0x205F || u == 0x3000
}

/// `s` without its leading white space.
pub open spec fn trimmed_start(s: Seq<char>) -> Seq<char>
    decreases s.len(),
{
    if s.len() > 0 && is_whitespace(s[0]) {
        trimmed_start(s.skip(1))
    } else {
        s
    }
}

/// `s` without its trailing white space.
pub open spec fn trimmed_end(s: Seq<char>) -> Seq<char>
    decreases s.len(),
{
    if s.len() > 0 && is_whitespace(s.last()) {
        trimmed_end(s.drop_last())
    } else {
        s
    }
}

/// `s` without leading and trailing white space.
pub open spec fn trimmed(s: Seq<char>) -> Seq<char> {
    trimmed_end(trimmed_start(s))
}

/// `s` without the run of `c` at its end.
pub open spec fn without_trailing(s: Seq<char>, c: char) -> Seq<char>
    decreases s.len(),
{
    if s.len() > 0 && s.last() == c {
        without_trailing(s.drop_last(), c)
    } else {
        s
    }
}

/// `needle` stands in `hay` at position `i`.
pub open spec fn occurs_at(hay: Seq<char>, needle: Seq<char>, i: int) -> bool {
    0 <= i && i + needle.len() <= hay.len() && hay.subrange(i, i + needle.len()) == needle
}

/// `needle` stands somewhere in `hay`.
pub open spec fn contains_text(hay: Seq<char>, needle: Seq<char>) -> bool {
    exists|i: int| occurs_at(hay, needle, i)
}

/// `s` with every occurrence of `from` replaced by `to`, the occurrences taken
/// from the left and not overlapping. An empty `from` occurs before every
/// character and at the end.
pub open spec fn replaced(s: Seq<char>, from: Seq<char>, to: Seq<char>) -> Seq<char>
    decreases s.len(),
{
    if s.len() == 0 {
        if from.len() == 0 {
            to
        } else {
            s
        }
    } else if from.len() == 0 {
        to + seq![s[0]] + replaced(s.skip(1), from, to)
    } else if occurs_at(s, from, 0) {
        to + replaced(s.skip(from.len() as int), from, to)
    } else {
        seq![s[0]] + replaced(s.skip(1), from, to)
    }
}

/// The position of the first `c` in `s`, or `s.len()` where there is none.
pub open spec fn index_of(s: Seq<char>, c: char) -> int
    decreases s.len(),
{
    if s.len() == 0 || s[0] == c {
        0
    } else {
        1 + index_of(s.skip(1), c)
    }
}

/// The position of the first occurrence of `needle` in `hay`, or `-1` where
/// there is none.
pub open spec fn first_occurrence(hay: Seq<char>, needle: Seq<char>) -> int
    decreases hay.len(),
{
    if hay.len() < needle.len() {
        -1
    } else if occurs_at(hay, needle, 0) {
        0
    } else if hay.len() == 0 {
        -1
    } else {
        let r = first_occurrence(hay.skip(1), needle);
        if r < 0 {
            -1
        } else {
            r + 1
        }
    }
}

/// The position of the last `c` in `s`, or `-1` where there is none.
pub open spec fn last_index_of(s: Seq<char>, c: char) -> int
    decreases s.len(),
{
    if s.len() == 0 {
        -1
    } else if s.last() == c {
        s.len() - 1
    } else {
        last_index_of(s.drop_last(), c)
    }
}

/// The pieces of `s` between the occurrences of `sep`. There is always at
/// least one piece; pieces may be empty.
pub open spec fn split_on(s: Seq<char>, sep: char) -> Seq<Seq<char>>
    decreases s.len(),
{
    let k = index_of(s, sep);
    if k < 0 || k >= s.len() {
        seq![s]
    } else {
        seq![s.take(k)] + split_on(s.skip(k + 1), sep)
    }
}

/// The parts written one after another with `sep` between each two.
pub open spec fn joined(parts: Seq<Seq<char>>, sep: Seq<char>) -> Seq<char>
    decreases parts.len(),
{
    if parts.len() == 0 {
        Seq::empty()
    } else if parts.len() == 1 {
        parts[0]
    } else {
        joined(parts.drop_last(), sep) + sep + parts.last()
    }
}

/// `s` without the characters `a` and `b`.
pub open spec fn without_chars(s: Seq<char>, a: char, b: char) -> Seq<char>
    decreases s.len(),
{
    if s.len() == 0 {
        s
    } else if s.last() == a || s.last() == b {
        without_chars(s.drop_last(), a, b)
    } else {
        without_chars(s.drop_last(), a, b).push(s.last())
    }
}

/// The texts of a list of strings.
pub open spec fn texts(v: Seq<String>) -> Seq<Seq<char>> {
    Seq::new(v.len(), |i: int| v[i]@)
}

/// The text of an optional string.
pub open spec fn opt_text(o: Option<String>) -> Option<Seq<char>> {
    match o {
        Some(s) => Some(s@),
        None => None,
    }
}

pub proof fn lemma_texts_push(v: Seq<String>, s: String)
    ensures
        texts(v.push(s)) == texts(v).push(s@),
{
    assert(texts(v.push(s)) =~= texts(v).push(s@));
}

pub fn is_space(c: char) -> (r: bool)
    ensures
        r == is_whitespace(c),
{
    let u: u32 = c as u32;
    (0x09 <= u && u <= 0x0D) || u == 0x20 || u == 0x85 || u == 0xA0 || u == 0x1680 || (0x2000 <= u
        && u <= 0x200A) || u == 0x2028 || u == 0x2029 || u == 0x202F || u == 0x205F || u == 0x3000
}

/// The characters of a string, one by one.
pub fn to_chars(s: &str) -> (r: Vec<char>)
    ensures
        r@ == s@,
{
    let mut out: Vec<char> = Vec::new();
    for c in it: s.chars()
        invariant
            out@ == it.seq().take(it.index()),
            it.seq() == s@,
    {
        out.push(c);
    }
    out
}

/// The string made of the characters of `chars` from `lo` up to `hi`.
pub fn from_range(chars: &Vec<char>, lo: usize, hi: usize) -> (r: String)
    requires
        lo <= hi <= chars.len(),
    ensures
        r@ == chars@.subrange(lo as int, hi as int),
{
    let mut out = String::new();
    let mut i: usize = lo;
    while i < hi
        invariant
            lo <= i <= hi <= chars.len(),
            out@ == chars@.subrange(lo as int, i as int),
        decreases hi - i,
    {
        out.push(chars[i]);
        i += 1;
        assert(chars@.subrange(lo as int, i as int) =~= chars@.subrange(lo as int, i - 1).push(
            chars@[i - 1],
        ));
    }
    out
}

pub fn from_chars(chars: &Vec<char>) -> (r: String)
    ensures
        r@ == chars@,
{
    let r = from_range(chars, 0, chars.len());
    assert(chars@.subrange(0, chars.len() as int) =~= chars@);
    r
}

/// Whether two strings hold the same text.
pub fn same_text(a: &str, b: &str) -> (r: bool)
    ensures
        r == (a@ == b@),
{
    let x = to_chars(a);
    let y = to_chars(b);
    if x.len() != y.len() {
        return false;
    }
    let mut i: usize = 0;
    while i < x.len()
        invariant
            i <= x.len(),
            x.len() == y.len(),
            x@ == a@,
            y@ == b@,
            forall|k: int| 0 <= k < i ==> x@[k] == y@[k],
        decreases x.len() - i,
    {
        if x[i] != y[i] {
            return false;
        }
        i += 1;
    }
    assert(x@ =~= y@);
    true
}

/// A copy of an optional string.
pub fn copy_opt(o: &Option<String>) -> (r: Option<String>)
    ensures
        r == *o,
{
    match o {
        Some(s) => Some(s.clone()),
        None => None,
    }
}

/// A copy of a list of strings.
pub fn copy_strings(v: &Vec<String>) -> (r: Vec<String>)
    ensures
        r@ == v@,
{
    let mut out: Vec<String> = Vec::new();
    let mut i: usize = 0;
    while i < v.len()
        invariant
            i <= v.len(),
            out@ == v@.take(i as int),
        decreases v.len() - i,
    {
        out.push(v[i].clone());
        i += 1;
        assert(v@.take(i as int) =~= v@.take(i - 1).push(v@[i - 1]));
    }
    assert(v@.take(v.len() as int) =~= v@);
    out
}

pub fn trim(s: &str) -> (r: String)
    ensures
        r@ == trimmed(s@),
{
    let chars = to_chars(s);
    let n = chars.len();
    let mut lo: usize = 0;
    assert(chars@.skip(0) =~= chars@);
    while lo < n && is_space(chars[lo])
        invariant
            lo <= n == chars.len(),
            trimmed_start(chars@) == trimmed_start(chars@.skip(lo as int)),
        decreases n - lo,
    {
        assert(chars@.skip(lo as int).skip(1) =~= chars@.skip(lo + 1));
        lo += 1;
    }
    assert(trimmed_start(chars@) == chars@.skip(lo as int));
    assert(chars@.skip(lo as int) =~= chars@.subrange(lo as int, n as int));
    let mut hi: usize = n;
    while hi > lo && is_space(chars[hi - 1])
        invariant
            lo <= hi <= n == chars.len(),
            trimmed_end(chars@.subrange(lo as int, n as int)) == trimmed_end(
                chars@.subrange(lo as int, hi as int),
            ),
        decreases hi,
    {
        assert(chars@.subrange(lo as int, hi as int).drop_last() =~= chars@.subrange(
            lo as int,
            hi - 1,
        ));
        hi -= 1;
    }
    from_range(&chars, lo, hi)
}

pub fn trim_end_matches(s: &str, c: char) -> (r: String)
    ensures
        r@ == without_trailing(s@, c),
{
    let chars = to_chars(s);
    let mut hi: usize = chars.len();
    assert(chars@.subrange(0, hi as int) =~= chars@);
    while hi > 0 && chars[hi - 1] == c
        invariant
            hi <= chars.len(),
            without_trailing(chars@, c) == without_trailing(chars@.subrange(0, hi as int), c),
        decreases hi,
    {
        assert(chars@.subrange(0, hi as int).drop_last() =~= chars@.subrange(0, hi - 1));
        hi -= 1;
    }
    from_range(&chars, 0, hi)
}

/// Whether `needle` stands in `hay` at position `i`.
pub fn matches_at(hay: &Vec<char>, needle: &Vec<char>, i: usize) -> (r: bool)
    requires
        i <= hay.len(),
    ensures
        r == occurs_at(hay@, needle@, i as int),
{
    if needle.len() > hay.len() - i {
        return false;
    }
    let mut k: usize = 0;
    while k < needle.len()
        invariant
            k <= needle.len(),
            i + needle.len() <= hay.len(),
            forall|j: int| 0 <= j < k ==> hay@[i + j] == needle@[j],
        decreases needle.len() - k,
    {
        if hay[i + k] != needle[k] {
            assert(hay@.subrange(i as int, i + needle.len())[k as int] != needle@[k as int]);
            return false;
        }
        k += 1;
    }
    assert(hay@.subrange(i as int, i + needle.len()) =~= needle@);
    true
}

pub fn contains(hay: &Vec<char>, needle: &Vec<char>) -> (r: bool)
    ensures
        r == contains_text(hay@, needle@),
{
    let mut i: usize = 0;
    loop
        invariant
            i <= hay.len(),
            forall|k: int| 0 <= k < i ==> !occurs_at(hay@, needle@, k),
        decreases hay.len() - i,
    {
        if matches_at(hay, needle, i) {
            return true;
        }
        if i == hay.len() {
            return false;
        }
        i += 1;
    }
}

pub fn replace(s: &str, from: &str, to: &str) -> (r: String)
    ensures
        r@ == replaced(s@, from@, to@),
{
    let chars = to_chars(s);
    let pat = to_chars(from);
    let n = chars.len();
    let mut out = String::new();
    let mut i: usize = 0;
    assert(chars@.skip(0) =~= chars@);
    while i < n
        invariant
            i <= n == chars.len(),
            s@ == chars@,
            from@ == pat@,
            out@ + replaced(chars@.skip(i as int), pat@, to@) == replaced(chars@, pat@, to@),
        decreases n - i,
    {
        let ghost rest = chars@.skip(i as int);
        let ghost before = out@;
        if pat.len() == 0 {
            out.append(to);
            out.push(chars[i]);
            assert(rest.skip(1) =~= chars@.skip(i + 1));
            assert(out@ + replaced(rest.skip(1), pat@, to@) =~= before + (to@ + seq![rest[0]]
                + replaced(rest.skip(1), pat@, to@)));
            i += 1;
        } else if matches_at(&chars, &pat, i) {
            assert(rest.subrange(0, pat@.len() as int) =~= chars@.subrange(
                i as int,
                i + pat@.len(),
            ));
            out.append(to);
            assert(rest.skip(pat@.len() as int) =~= chars@.skip(i + pat@.len()));
            assert(out@ + replaced(rest.skip(pat@.len() as int), pat@, to@) =~= before + (to@
                + replaced(rest.skip(pat@.len() as int), pat@, to@)));
            i += pat.len();
        } else {
            assert(!occurs_at(rest, pat@, 0)) by {
                if i + pat@.len() <= n {
                    assert(rest.subrange(0, pat@.len() as int) =~= chars@.subrange(
                        i as int,
                        i + pat@.len(),
                    ));
                }
            }
            out.push(chars[i]);
            assert(rest.skip(1) =~= chars@.skip(i + 1));
            assert(out@ + replaced(rest.skip(1), pat@, to@) =~= before + (seq![rest[0]]
                + replaced(rest.skip(1), pat@, to@)));
            i += 1;
        }
    }
    assert(chars@.skip(n as int) =~= Seq::<char>::empty());
    if pat.len() == 0 {
        out.append(to);
    } else {
        assert(out@ + Seq::<char>::empty() =~= out@);
    }
    out
}

/// The position of the first `c` at or after `from`, or the length where
/// there is none.
pub fn find_from(chars: &Vec<char>, from: usize, c: char) -> (r: usize)
    requires
        from <= chars.len(),
    ensures
        from <= r <= chars.len(),
        r == from + index_of(chars@.skip(from as int), c),
{
    let mut i: usize = from;
    while i < chars.len() && chars[i] != c
        invariant
            from <= i <= chars.len(),
            from + index_of(chars@.skip(from as int), c) == i + index_of(chars@.skip(i as int), c),
        decreases chars.len() - i,
    {
        assert(chars@.skip(i as int).skip(1) =~= chars@.skip(i + 1));
        i += 1;
    }
    i
}

/// The position of the last `c`, if there is one.
pub fn rfind(chars: &Vec<char>, c: char) -> (r: Option<usize>)
    ensures
        match r {
            Some(i) => i < chars.len() && i == last_index_of(chars@, c),
            None => last_index_of(chars@, c) == -1,
        },
{
    let mut hi: usize = chars.len();
    assert(chars@.take(hi as int) =~= chars@);
    while hi > 0 && chars[hi - 1] != c
        invariant
            hi <= chars.len(),
            last_index_of(chars@, c) == last_index_of(chars@.take(hi as int), c),
        decreases hi,
    {
        assert(chars@.take(hi as int).drop_last() =~= chars@.take(hi - 1));
        hi -= 1;
    }
    if hi == 0 {
        None
    } else {
        Some(hi - 1)
    }
}

pub fn split(s: &str, sep: char) -> (r: Vec<String>)
    ensures
        texts(r@) == split_on(s@, sep),
{
    let chars = to_chars(s);
    let n = chars.len();
    let mut out: Vec<String> = Vec::new();
    let mut start: usize = 0;
    assert(chars@.skip(0) =~= chars@);
    assert(texts(out@) =~= Seq::<Seq<char>>::empty());
    loop
        invariant
            start <= n == chars.len(),
            s@ == chars@,
            texts(out@) + split_on(chars@.skip(start as int), sep) == split_on(chars@, sep),
        decreases n - start,
    {
        let ghost rest = chars@.skip(start as int);
        let ghost before = out@;
        let end = find_from(&chars, start, sep);
        let piece = from_range(&chars, start, end);
        assert(piece@ =~= rest.take(end - start));
        out.push(piece);
        proof {
            lemma_texts_push(before, piece);
        }
        if end == n {
            assert(rest.take(end - start) =~= rest);
            assert(texts(before).push(piece@) =~= texts(before) + seq![rest]);
            return out;
        }
        assert(rest.skip(end - start + 1) =~= chars@.skip(end + 1));
        assert(texts(out@) + split_on(chars@.skip(end + 1), sep) =~= texts(before) + (seq![
            rest.take(end - start),
        ] + split_on(rest.skip(end - start + 1), sep)));
        start = end + 1;
    }
}

pub fn join(parts: &Vec<String>, sep: &str) -> (r: String)
    ensures
        r@ == joined(texts(parts@), sep@),
{
    let mut out = String::new();
    let mut i: usize = 0;
    assert(texts(parts@).take(0) =~= Seq::<Seq<char>>::empty());
    while i < parts.len()
        invariant
            i <= parts.len(),
            out@ == joined(texts(parts@).take(i as int), sep@),
        decreases parts.len() - i,
    {
        if i > 0 {
            out.append(sep);
        }
        out.append(parts[i].as_str());
        assert(texts(parts@).take(i + 1).drop_last() =~= texts(parts@).take(i as int));
        assert(texts(parts@).take(i + 1).last() == parts@[i as int]@);
        assert(Seq::<char>::empty() + parts@[i as int]@ =~= parts@[i as int]@);
        i += 1;
    }
    assert(texts(parts@).take(parts.len() as int) =~= texts(parts@));
    out
}

pub fn remove_chars(s: &str, a: char, b: char) -> (r: String)
    ensures
        r@ == without_chars(s@, a, b),
{
    let chars = to_chars(s);
    let mut out = String::new();
    let mut i: usize = 0;
    while i < chars.len()
        invariant
            i <= chars.len(),
            out@ == without_chars(chars@.take(i as int), a, b),
        decreases chars.len() - i,
    {
        assert(chars@.take(i + 1).drop_last() =~= chars@.take(i as int));
        if chars[i] != a && chars[i] != b {
            out.push(chars[i]);
        }
        i += 1;
    }
    assert(chars@.take(chars.len() as int) =~= chars@);
    out
}

/// The position of the first `c` from `from` up to `hi`, or `hi` where there
/// is none.
pub fn find_between(chars: &Vec<char>, from: usize, hi: usize, c: char) -> (r: usize)
    requires
        from <= hi <= chars.len(),
    ensures
        from <= r <= hi,
        r == from + index_of(chars@.subrange(from as int, hi as int), c),
{
    let mut i: usize = from;
    while i < hi && chars[i] != c
        invariant
            from <= i <= hi <= chars.len(),
            from + index_of(chars@.subrange(from as int, hi as int), c) == i + index_of(
                chars@.subrange(i as int, hi as int),
                c,
            ),
        decreases hi - i,
    {
        assert(chars@.subrange(i as int, hi as int).skip(1) =~= chars@.subrange(i + 1, hi as int));
        i += 1;
    }
    i
}

/// Where `needle` first occurs from `from` up to `hi`, if it does.
pub fn find_text_between(chars: &Vec<char>, from: usize, hi: usize, needle: &Vec<char>) -> (r:
    Option<usize>)
    requires
        from <= hi <= chars.len(),
    ensures
        match r {
            Some(i) => from <= i && i + needle.len() <= hi && i - from == first_occurrence(
                chars@.subrange(from as int, hi as int),
                needle@,
            ),
            None => first_occurrence(chars@.subrange(from as int, hi as int), needle@) == -1,
        },
{
    let ghost whole = chars@.subrange(from as int, hi as int);
    let mut i: usize = from;
    loop
        invariant
            from <= i <= hi <= chars.len(),
            whole == chars@.subrange(from as int, hi as int),
            first_occurrence(whole, needle@) == (if first_occurrence(
                chars@.subrange(i as int, hi as int),
                needle@,
            ) < 0 {
                -1
            } else {
                first_occurrence(chars@.subrange(i as int, hi as int), needle@) + (i - from)
            }),
        decreases hi - i,
    {
        let ghost rest = chars@.subrange(i as int, hi as int);
        if needle.len() > hi - i {
            return None;
        }
        if matches_at(chars, needle, i) {
            assert(rest.subrange(0, needle@.len() as int) =~= chars@.subrange(
                i as int,
                i + needle@.len(),
            ));
            return Some(i);
        }
        assert(!occurs_at(rest, needle@, 0)) by {
            assert(rest.subrange(0, needle@.len() as int) =~= chars@.subrange(
                i as int,
                i + needle@.len(),
            ));
        }
        if i == hi {
            return None;
        }
        assert(rest.skip(1) =~= chars@.subrange(i + 1, hi as int));
        i += 1;
    }
}

} // verus!
