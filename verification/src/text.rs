//! Character-sequence utilities with exact specifications.

use vstd::prelude::*;

verus! {

/// `String::push`: appends one character at the end of the string.
#[verifier::external_body]
pub(crate) fn push_char(s: &mut String, c: char)
    ensures
        final(s)@ == old(s)@.push(c),
{
    s.push(c)
}

/// The characters of a string slice, in order.
pub fn chars_of(s: &str) -> (v: Vec<char>)
    ensures
        v@ == s@,
{
    let mut v: Vec<char> = Vec::new();
    for c in it: s.chars()
        invariant
            v@ == it.seq().take(it.index() as int),
    {
        v.push(c);
    }
    v
}


/// Builds a string from a sequence of characters.
pub fn string_of(v: &[char]) -> (s: String)
    ensures
        s@ == v@,
{
    let mut s = String::new();
    let mut i: usize = 0;
    while i < v.len()
        invariant
            i <= v.len(),
            s@ == v@.take(i as int),
        decreases v.len() - i,
    {
        push_char(&mut s, v[i]);
        i = i + 1;
        assert(v@.take(i as int) =~= v@.take(i - 1).push(v@[i - 1]));
    }
    assert(v@.take(v.len() as int) =~= v@);
    s
}

/// Appends all characters of `src` to `dst`.
pub fn push_all(dst: &mut Vec<char>, src: &[char])
    ensures
        final(dst)@ == old(dst)@ + src@,
{
    let mut i: usize = 0;
    while i < src.len()
        invariant
            i <= src.len(),
            dst@ == old(dst)@ + src@.take(i as int),
        decreases src.len() - i,
    {
        dst.push(src[i]);
        i = i + 1;
        assert(src@.take(i as int) =~= src@.take(i - 1).push(src@[i - 1]));
    }
    assert(src@.take(src.len() as int) =~= src@);
}

/// The decimal digit character for `d < 10`.
pub open spec fn digit_char(d: nat) -> char {
    if d == 0 { '0' } else if d == 1 { '1' } else if d == 2 { '2' } else if d == 3 { '3' }
    else if d == 4 { '4' } else if d == 5 { '5' } else if d == 6 { '6' } else if d == 7 { '7' }
    else if d == 8 { '8' } else { '9' }
}

/// The decimal representation of a natural number, without leading zeros.
pub open spec fn decimal(n: nat) -> Seq<char>
    decreases n,
{
    if n < 10 {
        seq![digit_char(n)]
    } else {
        decimal(n / 10).push(digit_char(n % 10))
    }
}

fn digit_of(d: u64) -> (c: char)
    requires
        d < 10,
    ensures
        c == digit_char(d as nat),
{
    if d == 0 { '0' } else if d == 1 { '1' } else if d == 2 { '2' } else if d == 3 { '3' }
    else if d == 4 { '4' } else if d == 5 { '5' } else if d == 6 { '6' } else if d == 7 { '7' }
    else if d == 8 { '8' } else { '9' }
}

/// The decimal representation of `n`, as a character vector.
pub fn decimal_chars(n: u64) -> (v: Vec<char>)
    ensures
        v@ == decimal(n as nat),
    decreases n,
{
    if n < 10 {
        let mut v = Vec::new();
        v.push(digit_of(n));
        v
    } else {
        let mut v = decimal_chars(n / 10);
        v.push(digit_of(n % 10));
        v
    }
}

/// The decimal representation of `n` (what `n.to_string()` gives for an unsigned integer).
pub fn u64_to_string(n: u64) -> (s: String)
    ensures
        s@ == decimal(n as nat),
{
    let v = decimal_chars(n);
    string_of(v.as_slice())
}

/// Whether `s` begins with `p`.
pub open spec fn seq_starts_with(s: Seq<char>, p: Seq<char>) -> bool {
    p.len() <= s.len() && s.take(p.len() as int) == p
}

/// Executable prefix test on character vectors.
pub fn starts_with(s: &[char], p: &[char]) -> (b: bool)
    ensures
        b == seq_starts_with(s@, p@),
{
    if p.len() > s.len() {
        return false;
    }
    let mut i: usize = 0;
    while i < p.len()
        invariant
            p.len() <= s.len(),
            i <= p.len(),
            forall|j: int| 0 <= j < i ==> s@[j] == p@[j],
        decreases p.len() - i,
    {
        if s[i] != p[i] {
            assert(s@.take(p.len() as int)[i as int] != p@[i as int]);
            return false;
        }
        i = i + 1;
    }
    assert(s@.take(p.len() as int) =~= p@);
    true
}

/// Equality of two character vectors.
pub fn chars_eq(a: &[char], b: &[char]) -> (r: bool)
    ensures
        r == (a@ == b@),
{
    if a.len() != b.len() {
        return false;
    }
    let r = starts_with(a, b);
    assert(a@ =~= a@.take(b@.len() as int));
    r
}


/// Appending a path component the way `PathBuf::push` does on Unix: an absolute
/// component replaces the path; otherwise a `/` is inserted unless the path is empty
/// or already ends with one.
pub open spec fn path_join(base: Seq<char>, comp: Seq<char>) -> Seq<char> {
    if comp.len() > 0 && comp[0] == '/' {
        comp
    } else if base.len() == 0 || base.last() == '/' {
        base + comp
    } else {
        base + seq!['/'] + comp
    }
}

/// Executable `path_join` on character vectors.
pub fn join_path(base: &Vec<char>, comp: &Vec<char>) -> (r: Vec<char>)
    ensures
        r@ == path_join(base@, comp@),
{
    if comp.len() > 0 && comp[0] == '/' {
        let mut r = Vec::new();
        push_all(&mut r, comp.as_slice());
        assert(r@ =~= comp@);
        r
    } else {
        let mut r = Vec::new();
        push_all(&mut r, base.as_slice());
        if !(base.len() == 0 || base[base.len() - 1] == '/') {
            r.push('/');
        }
        push_all(&mut r, comp.as_slice());
        assert(r@ =~= path_join(base@, comp@));
        r
    }
}


/// Unicode `White_Space`, the set `char::is_whitespace` tests for.
pub open spec fn is_ws(c: char) -> bool {
    let u = c as u32;
    ||| 0x9 <= u <= 0xD
    ||| u == 0x20
    ||| u == 0x85
    ||| u == 0xA0
    ||| u == 0x1680
    ||| 0x2000 <= u <= 0x200A
    ||| u == 0x2028
    ||| u == 0x2029
    ||| u == 0x202F
    ||| u == 0x205F
    ||| u == 0x3000
}

/// Executable `is_ws`.
pub fn is_whitespace(c: char) -> (b: bool)
    ensures
        b == is_ws(c),
{
    let u = c as u32;
    (0x9 <= u && u <= 0xD) || u == 0x20 || u == 0x85 || u == 0xA0 || u == 0x1680 || (0x2000 <= u
        && u <= 0x200A) || u == 0x2028 || u == 0x2029 || u == 0x202F || u == 0x205F || u == 0x3000
}

/// `s` without leading whitespace.
pub open spec fn trim_start(s: Seq<char>) -> Seq<char>
    decreases s.len(),
{
    if s.len() > 0 && is_ws(s[0]) {
        trim_start(s.drop_first())
    } else {
        s
    }
}

/// `s` without trailing whitespace.
pub open spec fn trim_end(s: Seq<char>) -> Seq<char>
    decreases s.len(),
{
    if s.len() > 0 && is_ws(s.last()) {
        trim_end(s.drop_last())
    } else {
        s
    }
}

/// `s` without leading and trailing whitespace (what `str::trim` gives).
pub open spec fn trim(s: Seq<char>) -> Seq<char> {
    trim_end(trim_start(s))
}

proof fn lemma_trim_start_skip(s: Seq<char>, i: int)
    requires
        0 <= i <= s.len(),
        forall|j: int| 0 <= j < i ==> is_ws(s[j]),
    ensures
        trim_start(s) == trim_start(s.skip(i)),
    decreases i,
{
    if i > 0 {
        assert(s.skip(1) =~= s.drop_first());
        lemma_trim_start_skip(s.drop_first(), i - 1);
        assert(s.drop_first().skip(i - 1) =~= s.skip(i));
    } else {
        assert(s.skip(0) =~= s);
    }
}

proof fn lemma_trim_end_take(s: Seq<char>, k: int)
    requires
        0 <= k <= s.len(),
        forall|j: int| k <= j < s.len() ==> is_ws(s[j]),
    ensures
        trim_end(s) == trim_end(s.take(k)),
    decreases s.len() - k,
{
    if k < s.len() {
        lemma_trim_end_take(s.drop_last(), k);
        assert(s.drop_last().take(k) =~= s.take(k));
    } else {
        assert(s.take(k) =~= s);
    }
}

/// Executable `trim_start`.
pub fn trim_start_chars(s: &[char]) -> (r: Vec<char>)
    ensures
        r@ == trim_start(s@),
{
    let mut i: usize = 0;
    while i < s.len() && is_whitespace(s[i])
        invariant
            i <= s.len(),
            forall|j: int| 0 <= j < i ==> is_ws(s@[j]),
        decreases s.len() - i,
    {
        i = i + 1;
    }
    proof {
        lemma_trim_start_skip(s@, i as int);
    }
    let mut r: Vec<char> = Vec::new();
    let mut k: usize = i;
    while k < s.len()
        invariant
            i <= k <= s.len(),
            r@ == s@.subrange(i as int, k as int),
        decreases s.len() - k,
    {
        r.push(s[k]);
        k = k + 1;
        assert(r@ =~= s@.subrange(i as int, k as int));
    }
    assert(r@ =~= s@.skip(i as int));
    r
}

/// Executable `trim`.
pub fn trim_chars(s: &[char]) -> (r: Vec<char>)
    ensures
        r@ == trim(s@),
{
    let t = trim_start_chars(s);
    let mut k: usize = t.len();
    while k > 0 && is_whitespace(t[k - 1])
        invariant
            k <= t.len(),
            forall|j: int| k <= j < t@.len() ==> is_ws(t@[j]),
        decreases k,
    {
        k = k - 1;
    }
    proof {
        lemma_trim_end_take(t@, k as int);
        if k > 0 {
            assert(t@.take(k as int).last() == t@[k - 1]);
        }
    }
    let mut r: Vec<char> = Vec::new();
    let mut i: usize = 0;
    while i < k
        invariant
            k <= t.len(),
            i <= k,
            r@ == t@.take(i as int),
        decreases k - i,
    {
        r.push(t[i]);
        i = i + 1;
        assert(r@ =~= t@.take(i as int));
    }
    r
}

/// The index of the first line feed in `s`, or `s.len()` when there is none.
pub open spec fn newline_pos(s: Seq<char>) -> int
    decreases s.len(),
{
    if s.len() == 0 {
        0
    } else if s[0] == '\n' {
        0
    } else {
        1 + newline_pos(s.drop_first())
    }
}

pub proof fn lemma_newline_pos(s: Seq<char>)
    ensures
        0 <= newline_pos(s) <= s.len(),
        forall|j: int| 0 <= j < newline_pos(s) ==> s[j] != '\n',
        newline_pos(s) < s.len() ==> s[newline_pos(s)] == '\n',
    decreases s.len(),
{
    if s.len() > 0 && s[0] != '\n' {
        lemma_newline_pos(s.drop_first());
        assert forall|j: int| 0 <= j < newline_pos(s) implies s[j] != '\n' by {
            if j > 0 {
                assert(s[j] == s.drop_first()[j - 1]);
            }
        }
    }
}

/// A line ended by `\n` loses one trailing `\r`.
pub open spec fn strip_cr(line: Seq<char>) -> Seq<char> {
    if line.len() > 0 && line.last() == '\r' {
        line.drop_last()
    } else {
        line
    }
}

/// The lines of `s`, as `str::lines` gives them: split at `\n`, a `\r` before the `\n`
/// removed, and no empty last line after a final `\n`.
pub open spec fn lines(s: Seq<char>) -> Seq<Seq<char>>
    decreases s.len(),
{
    if s.len() == 0 {
        Seq::empty()
    } else {
        let p = newline_pos(s);
        proof {
            lemma_newline_pos(s);
        }
        if p >= s.len() {
            seq![s]
        } else {
            seq![strip_cr(s.take(p))] + lines(s.skip(p + 1))
        }
    }
}

/// The views of a vector of character vectors.
pub open spec fn char_vec_views(v: Seq<Vec<char>>) -> Seq<Seq<char>> {
    v.map_values(|x: Vec<char>| x@)
}

proof fn lemma_newline_pos_from(s: Seq<char>, start: int, j: int)
    requires
        0 <= start <= j <= s.len(),
        forall|k: int| start <= k < j ==> s[k] != '\n',
        j == s.len() || s[j] == '\n',
    ensures
        newline_pos(s.skip(start)) == j - start,
    decreases j - start,
{
    let t = s.skip(start);
    if start < j {
        assert(t[0] == s[start]);
        assert(t.drop_first() =~= s.skip(start + 1));
        lemma_newline_pos_from(s, start + 1, j);
    } else if j < s.len() {
        assert(t[0] == s[j]);
    }
}

/// Executable `lines`.
pub fn lines_of(s: &[char]) -> (r: Vec<Vec<char>>)
    ensures
        char_vec_views(r@) == lines(s@),
{
    let mut r: Vec<Vec<char>> = Vec::new();
    let mut pos: usize = 0;
    assert(s@.skip(0) =~= s@);
    assert(char_vec_views(r@) =~= Seq::<Seq<char>>::empty());
    assert(char_vec_views(r@) + lines(s@) =~= lines(s@));
    while pos < s.len()
        invariant
            pos <= s.len(),
            char_vec_views(r@) + lines(s@.skip(pos as int)) == lines(s@),
        decreases s.len() - pos,
    {
        let mut j: usize = pos;
        let mut line: Vec<char> = Vec::new();
        while j < s.len() && s[j] != '\n'
            invariant
                pos <= j <= s.len(),
                forall|k: int| pos <= k < j ==> s@[k] != '\n',
                line@ == s@.subrange(pos as int, j as int),
            decreases s.len() - j,
        {
            line.push(s[j]);
            j = j + 1;
            assert(line@ =~= s@.subrange(pos as int, j as int));
        }
        let ghost rest = s@.skip(pos as int);
        proof {
            lemma_newline_pos_from(s@, pos as int, j as int);
            assert(rest.len() > 0);
            assert(rest.take(j - pos) =~= line@);
        }
        if j < s.len() {
            if line.len() > 0 && line[line.len() - 1] == '\r' {
                line.pop();
            }
            assert(line@ == strip_cr(rest.take(j - pos)));
            assert(rest.skip(j - pos + 1) =~= s@.skip(j + 1));
            let ghost before = char_vec_views(r@);
            r.push(line);
            assert(char_vec_views(r@) =~= before.push(line@));
            assert(before + lines(rest) =~= char_vec_views(r@) + lines(s@.skip(j + 1)));
            pos = j + 1;
        } else {
            assert(rest =~= line@);
            let ghost before = char_vec_views(r@);
            r.push(line);
            assert(char_vec_views(r@) =~= before.push(rest));
            assert(s@.skip(s.len() as int) =~= Seq::<char>::empty());
            assert(char_vec_views(r@) + lines(s@.skip(s.len() as int)) =~= before + lines(rest));
            pos = j;
        }
    }
    assert(s@.skip(pos as int) =~= Seq::<char>::empty());
    assert(char_vec_views(r@) + lines(Seq::<char>::empty()) =~= char_vec_views(r@));
    r
}


/// `str::to_lowercase`: the lowercase mapping of every character, as Unicode defines it.
pub uninterp spec fn lowercase(s: Seq<char>) -> Seq<char>;

/// `str::to_lowercase`. Its result is the string's Unicode lowercase mapping, a function
/// of the string alone; that mapping is named, not written out.
#[verifier::external_body]
pub(crate) fn to_lowercase(s: &str) -> (r: String)
    ensures
        r@ == lowercase(s@),
{
    s.to_lowercase()
}

/// An owned copy of a string slice.
pub fn owned(s: &str) -> (r: String)
    ensures
        r@ == s@,
{
    s.to_owned()
}

/// Appends the characters of `src` to the string `dst`.
pub fn append_chars(dst: &mut String, src: &[char])
    ensures
        final(dst)@ == old(dst)@ + src@,
{
    let mut i: usize = 0;
    while i < src.len()
        invariant
            i <= src.len(),
            dst@ == old(dst)@ + src@.take(i as int),
        decreases src.len() - i,
    {
        push_char(dst, src[i]);
        i = i + 1;
        assert(src@.take(i as int) =~= src@.take(i - 1).push(src@[i - 1]));
    }
    assert(src@.take(src.len() as int) =~= src@);
}

/// Appends a string slice to a string.
pub fn append_str(dst: &mut String, src: &str)
    ensures
        final(dst)@ == old(dst)@ + src@,
{
    let v = chars_of(src);
    append_chars(dst, v.as_slice());
}

/// `s` with the prefix `p` removed, when `s` begins with `p`.
pub open spec fn strip_prefix(s: Seq<char>, p: Seq<char>) -> Option<Seq<char>> {
    if seq_starts_with(s, p) {
        Some(s.skip(p.len() as int))
    } else {
        None
    }
}

/// Executable `strip_prefix` on character slices.
pub fn strip_prefix_chars(s: &[char], p: &[char]) -> (r: Option<Vec<char>>)
    ensures
        match r {
            Some(v) => strip_prefix(s@, p@) == Some(v@),
            None => strip_prefix(s@, p@) is None,
        },
{
    if !starts_with(s, p) {
        return None;
    }
    let mut v: Vec<char> = Vec::new();
    let mut k: usize = p.len();
    while k < s.len()
        invariant
            p.len() <= k <= s.len(),
            v@ == s@.subrange(p.len() as int, k as int),
        decreases s.len() - k,
    {
        v.push(s[k]);
        k = k + 1;
        assert(v@ =~= s@.subrange(p.len() as int, k as int));
    }
    assert(v@ =~= s@.skip(p.len() as int));
    Some(v)
}

/// The index of the first whitespace character of `s`, or `s.len()`.
pub open spec fn ws_pos(s: Seq<char>) -> int
    decreases s.len(),
{
    if s.len() == 0 {
        0
    } else if is_ws(s[0]) {
        0
    } else {
        1 + ws_pos(s.drop_first())
    }
}

pub proof fn lemma_ws_pos(s: Seq<char>)
    ensures
        0 <= ws_pos(s) <= s.len(),
        forall|j: int| 0 <= j < ws_pos(s) ==> !is_ws(s[j]),
        ws_pos(s) < s.len() ==> is_ws(s[ws_pos(s)]),
    decreases s.len(),
{
    if s.len() > 0 && !is_ws(s[0]) {
        lemma_ws_pos(s.drop_first());
        assert forall|j: int| 0 <= j < ws_pos(s) implies !is_ws(s[j]) by {
            if j > 0 {
                assert(s[j] == s.drop_first()[j - 1]);
            }
        }
    }
}

pub proof fn lemma_trim_start_len(s: Seq<char>)
    ensures
        trim_start(s).len() <= s.len(),
        trim_start(s).len() > 0 ==> !is_ws(trim_start(s)[0]),
        trim_start(s) == s.skip(s.len() - trim_start(s).len()),
    decreases s.len(),
{
    if s.len() > 0 && is_ws(s[0]) {
        lemma_trim_start_len(s.drop_first());
        assert(s.drop_first().skip(s.drop_first().len() - trim_start(s.drop_first()).len())
            =~= s.skip(s.len() - trim_start(s).len()));
    } else {
        assert(s.skip(0) =~= s);
    }
}

/// The whitespace-separated words of `s`, as `str::split_whitespace` gives them.
pub open spec fn words(s: Seq<char>) -> Seq<Seq<char>>
    decreases s.len(),
{
    let t = trim_start(s);
    proof {
        lemma_trim_start_len(s);
    }
    if t.len() == 0 {
        Seq::empty()
    } else {
        let k = ws_pos(t);
        proof {
            lemma_ws_pos(t);
        }
        seq![t.take(k)] + words(t.skip(k))
    }
}

/// Executable `words`.
pub fn words_of(s: &[char]) -> (r: Vec<Vec<char>>)
    ensures
        char_vec_views(r@) == words(s@),
{
    let mut r: Vec<Vec<char>> = Vec::new();
    let mut pos: usize = 0;
    assert(s@.skip(0) =~= s@);
    assert(char_vec_views(r@) + words(s@) =~= words(s@));
    loop
        invariant
            pos <= s.len(),
            char_vec_views(r@) + words(s@.skip(pos as int)) == words(s@),
        decreases s.len() - pos,
    {
        let ghost rest = s@.skip(pos as int);
        let start0 = pos;
        while pos < s.len() && is_whitespace(s[pos])
            invariant
                start0 <= pos <= s.len(),
                forall|j: int| start0 <= j < pos ==> is_ws(s@[j]),
                rest == s@.skip(start0 as int),
            decreases s.len() - pos,
        {
            pos = pos + 1;
        }
        proof {
            lemma_trim_start_skip(rest, pos - start0);
            assert(rest.skip(pos - start0) =~= s@.skip(pos as int));
            let u = s@.skip(pos as int);
            if u.len() > 0 {
                assert(!is_ws(u[0]));
            }
            assert(trim_start(u) == u);
            assert(trim_start(rest) == u);
        }
        if pos >= s.len() {
            proof {
                assert(s@.skip(pos as int) =~= Seq::<char>::empty());
                assert(words(rest) =~= Seq::<Seq<char>>::empty());
                assert(char_vec_views(r@) + words(rest) =~= char_vec_views(r@));
            }
            return r;
        }
        let start = pos;
        let mut w: Vec<char> = Vec::new();
        while pos < s.len() && !is_whitespace(s[pos])
            invariant
                start <= pos <= s.len(),
                forall|j: int| start <= j < pos ==> !is_ws(s@[j]),
                w@ == s@.subrange(start as int, pos as int),
            decreases s.len() - pos,
        {
            w.push(s[pos]);
            pos = pos + 1;
            assert(w@ =~= s@.subrange(start as int, pos as int));
        }
        proof {
            let u = s@.skip(start as int);
            lemma_ws_pos(u);
            assert forall|j: int| 0 <= j < pos - start implies !is_ws(u[j]) by {
                assert(u[j] == s@[start + j]);
            }
            if pos < s.len() {
                assert(u[pos - start] == s@[pos as int]);
            }
            if ws_pos(u) < pos - start {
                assert(!is_ws(u[ws_pos(u)]));
            }
            if ws_pos(u) > pos - start {
                assert(is_ws(u[pos - start]));
            }
            assert(ws_pos(u) == pos - start);
            assert(u.take(pos - start) =~= w@);
            assert(u.skip(pos - start) =~= s@.skip(pos as int));
        }
        let ghost before = char_vec_views(r@);
        r.push(w);
        assert(char_vec_views(r@) =~= before.push(s@.subrange(start as int, pos as int)));
        assert(before + words(rest) =~= char_vec_views(r@) + words(s@.skip(pos as int)));
    }
}

/// Whether `c` is an ASCII decimal digit.
pub open spec fn is_digit(c: char) -> bool {
    '0' <= c && c <= '9'
}

/// The value of a string of decimal digits.
pub open spec fn digits_value(s: Seq<char>) -> nat
    decreases s.len(),
{
    if s.len() == 0 {
        0
    } else {
        digits_value(s.drop_last()) * 10 + ((s.last() as u32) - ('0' as u32)) as nat
    }
}

/// The characters after an optional leading `+`.
pub open spec fn unsigned_digits(s: Seq<char>) -> Seq<char> {
    if s.len() > 0 && s[0] == '+' {
        s.drop_first()
    } else {
        s
    }
}

/// Whether every character of `s` is a decimal digit.
pub open spec fn all_digits(s: Seq<char>) -> bool {
    forall|i: int| 0 <= i < s.len() ==> #[trigger] is_digit(s[i])
}

/// What `str::parse` gives for an unsigned integer type before the range check: an
/// optional `+`, then one or more decimal digits.
pub open spec fn parse_unsigned(s: Seq<char>) -> Option<nat> {
    let d = unsigned_digits(s);
    if d.len() > 0 && all_digits(d) {
        Some(digits_value(d))
    } else {
        None
    }
}

/// `str::parse::<u64>`: the value when it is a well-formed unsigned number that fits.
pub open spec fn parse_u64_spec(s: Seq<char>) -> Option<u64> {
    match parse_unsigned(s) {
        Some(n) => if n <= u64::MAX { Some(n as u64) } else { None },
        None => None,
    }
}

/// `str::parse::<u16>`.
pub open spec fn parse_u16_spec(s: Seq<char>) -> Option<u16> {
    match parse_unsigned(s) {
        Some(n) => if n <= u16::MAX { Some(n as u16) } else { None },
        None => None,
    }
}

proof fn lemma_digits_value_mono(s: Seq<char>, i: int)
    requires
        0 <= i <= s.len(),
        all_digits(s),
    ensures
        digits_value(s.take(i)) <= digits_value(s),
    decreases s.len() - i,
{
    if i < s.len() {
        assert(all_digits(s.drop_last())) by {
            assert forall|j: int| 0 <= j < s.drop_last().len() implies is_digit(s.drop_last()[j]) by {
                assert(s.drop_last()[j] == s[j]);
            }
        }
        lemma_digits_value_mono(s.drop_last(), i);
        assert(s.drop_last().take(i) =~= s.take(i));
        assert(s.take(s.len() as int) =~= s);
    } else {
        assert(s.take(i) =~= s);
    }
}

/// Parses an unsigned decimal number no greater than `max`.
fn parse_bounded(s: &[char], max: u64) -> (r: Option<u64>)
    requires
        max >= 9,
    ensures
        match parse_unsigned(s@) {
            Some(n) => if n <= max { r == Some(n as u64) } else { r is None },
            None => r is None,
        },
{
    let start: usize = if s.len() > 0 && s[0] == '+' { 1 } else { 0 };
    let ghost d = unsigned_digits(s@);
    assert(d =~= s@.skip(start as int));
    if start >= s.len() {
        return None;
    }
    let mut i: usize = start;
    let mut acc: u64 = 0;
    while i < s.len()
        invariant
            start <= i <= s.len(),
            max >= 9,
            d == s@.skip(start as int),
            d == unsigned_digits(s@),
            forall|j: int| start <= j < i ==> is_digit(s@[j]),
            acc == digits_value(d.take(i - start)),
            acc <= max,
        decreases s.len() - i,
    {
        let c = s[i];
        if !('0' <= c && c <= '9') {
            assert(d[i - start] == c);
            assert(!is_digit(d[i - start]));
            assert(0 <= i - start < d.len());
            assert(!all_digits(d));
            return None;
        }
        let digit: u64 = ((c as u32) - ('0' as u32)) as u64;
        assert(d.take(i - start + 1).drop_last() =~= d.take(i - start));
        assert(d.take(i - start + 1).last() == c);
        if acc > (max - digit) / 10 {
            proof {
                assert(acc * 10 + digit > max) by (nonlinear_arith)
                    requires
                        acc > (max - digit) / 10,
                        digit <= 9,
                        digit <= max || true,
                ;
                // every remaining character must be a digit for a value to exist; then
                // the whole value is at least this prefix value
                if parse_unsigned(s@) is Some {
                    lemma_digits_value_mono(d, i - start + 1);
                }
            }
            return None;
        }
        proof {
            assert(acc * 10 + digit <= max) by (nonlinear_arith)
                requires
                    acc <= (max - digit) / 10,
                    digit <= max,
            ;
        }
        acc = acc * 10 + digit;
        i = i + 1;
    }
    assert(d.take(i - start) =~= d);
    Some(acc)
}

/// `str::parse::<u64>`.
pub fn parse_u64(s: &[char]) -> (r: Option<u64>)
    ensures
        r == parse_u64_spec(s@),
{
    parse_bounded(s, u64::MAX)
}

/// `str::parse::<u16>`.
pub fn parse_u16(s: &[char]) -> (r: Option<u16>)
    ensures
        r == parse_u16_spec(s@),
{
    match parse_bounded(s, 0xffff) {
        Some(n) => Some(n as u16),
        None => None,
    }
}

/// `str::replace` with a non-empty pattern: every non-overlapping occurrence of `from`,
/// scanning left to right, replaced by `to`.
pub open spec fn replace_all(s: Seq<char>, from: Seq<char>, to: Seq<char>) -> Seq<char>
    recommends
        from.len() > 0,
    decreases s.len(),
{
    if from.len() == 0 || s.len() == 0 {
        s
    } else if seq_starts_with(s, from) {
        to + replace_all(s.skip(from.len() as int), from, to)
    } else {
        seq![s[0]] + replace_all(s.drop_first(), from, to)
    }
}

/// Executable `replace_all`.
pub fn replace_chars(s: &[char], from: &[char], to: &[char]) -> (r: Vec<char>)
    requires
        from.len() > 0,
    ensures
        r@ == replace_all(s@, from@, to@),
{
    let mut r: Vec<char> = Vec::new();
    let mut i: usize = 0;
    assert(s@.skip(0) =~= s@);
    while i < s.len()
        invariant
            i <= s.len(),
            from.len() > 0,
            r@ + replace_all(s@.skip(i as int), from@, to@) == replace_all(s@, from@, to@),
        decreases s.len() - i,
    {
        let ghost rest = s@.skip(i as int);
        let mut k: usize = 0;
        let mut m: bool = from.len() <= s.len() - i;
        if !m {
            assert(!seq_starts_with(rest, from@));
        }
        while m && k < from.len()
            invariant
                i <= s.len(),
                m ==> i + from.len() <= s.len(),
                k <= from.len(),
                m ==> forall|j: int| 0 <= j < k ==> s@[i + j] == from@[j],
                !m ==> !seq_starts_with(rest, from@),
                rest == s@.skip(i as int),
            decreases from.len() - k + (if m { 1int } else { 0int }),
        {
            if s[i + k] != from[k] {
                assert(rest.take(from.len() as int)[k as int] != from@[k as int]);
                m = false;
            } else {
                k = k + 1;
            }
        }
        if m {
            assert(rest.take(from.len() as int) =~= from@);
            let ghost before = r@;
            push_all(&mut r, to);
            assert(rest.skip(from.len() as int) =~= s@.skip(i + from.len()));
            assert(before + replace_all(rest, from@, to@) =~= r@ + replace_all(
                s@.skip(i + from.len()),
                from@,
                to@,
            ));
            i = i + from.len();
        } else {
            let ghost before = r@;
            r.push(s[i]);
            assert(rest.drop_first() =~= s@.skip(i + 1));
            assert(before + replace_all(rest, from@, to@) =~= r@ + replace_all(
                s@.skip(i + 1),
                from@,
                to@,
            ));
            i = i + 1;
        }
    }
    assert(s@.skip(i as int) =~= Seq::<char>::empty());
    assert(r@ + replace_all(Seq::<char>::empty(), from@, to@) =~= r@);
    r
}


proof fn lemma_digit_char(d: nat)
    requires
        d < 10,
    ensures
        is_digit(digit_char(d)),
        ((digit_char(d) as u32) - ('0' as u32)) as nat == d,
{
}

/// The decimal representation of `n` is what `parse_unsigned` reads back as `n`.
pub proof fn lemma_decimal_parses(n: nat)
    ensures
        decimal(n).len() > 0,
        all_digits(decimal(n)),
        digits_value(decimal(n)) == n,
        decimal(n)[0] != '+',
        parse_unsigned(decimal(n)) == Some(n),
    decreases n,
{
    if n < 10 {
        lemma_digit_char(n);
        let s = decimal(n);
        assert(s =~= seq![digit_char(n)]);
        assert(s.drop_last() =~= Seq::<char>::empty());
        assert(digits_value(s) == digits_value(s.drop_last()) * 10 + ((s.last() as u32) - ('0' as u32)) as nat);
        assert(digits_value(Seq::<char>::empty()) == 0);
    } else {
        lemma_decimal_parses(n / 10);
        lemma_digit_char(n % 10);
        let s = decimal(n);
        let t = decimal(n / 10);
        assert(s == t.push(digit_char(n % 10)));
        assert(s.drop_last() =~= t);
        assert forall|i: int| 0 <= i < s.len() implies #[trigger] is_digit(s[i]) by {
            if i < t.len() {
                assert(s[i] == t[i]);
            }
        }
        assert(s[0] == t[0]);
        assert(digits_value(s) == digits_value(t) * 10 + ((s.last() as u32) - ('0' as u32)) as nat);
        assert(n == (n / 10) * 10 + n % 10);
    }
    assert(unsigned_digits(decimal(n)) == decimal(n));
}

/// A line feed ends every line of `a`; `lines` of `a` followed by more text.
proof fn lemma_newline_in_prefix(a: Seq<char>, b: Seq<char>)
    requires
        a.len() > 0,
        a.last() == '\n',
    ensures
        0 <= newline_pos(a) < a.len(),
        newline_pos(a + b) == newline_pos(a),
{
    lemma_newline_pos(a);
    if newline_pos(a) >= a.len() {
        assert(a[a.len() - 1] != '\n');
    }
    let j = newline_pos(a);
    assert forall|k: int| 0 <= k < j implies (a + b)[k] != '\n' by {
        assert((a + b)[k] == a[k]);
    }
    assert((a + b)[j] == a[j]);
    lemma_newline_pos_from(a + b, 0, j);
    assert((a + b).skip(0) =~= a + b);
}

/// `lines` of text that is empty or ends with a line feed, followed by more text.
pub proof fn lemma_lines_append(a: Seq<char>, b: Seq<char>)
    requires
        a.len() == 0 || a.last() == '\n',
    ensures
        lines(a + b) == lines(a) + lines(b),
    decreases a.len(),
{
    if a.len() == 0 {
        assert(a + b =~= b);
        assert(lines(a) =~= Seq::<Seq<char>>::empty());
        assert(lines(a) + lines(b) =~= lines(b));
    } else {
        lemma_newline_in_prefix(a, b);
        let p = newline_pos(a);
        let rest = a.skip(p + 1);
        assert((a + b).take(p) =~= a.take(p));
        assert((a + b).skip(p + 1) =~= rest + b);
        if rest.len() > 0 {
            assert(rest.last() == a.last());
        }
        lemma_lines_append(rest, b);
        assert(lines(a + b) == seq![strip_cr(a.take(p))] + lines(rest + b));
        assert(lines(a) == seq![strip_cr(a.take(p))] + lines(rest));
        assert(seq![strip_cr(a.take(p))] + (lines(rest) + lines(b)) =~= (seq![strip_cr(a.take(p))] + lines(rest)) + lines(b));
    }
}

/// A line without line feeds, ended by one, is one line.
pub proof fn lemma_lines_single(p: Seq<char>)
    requires
        forall|i: int| 0 <= i < p.len() ==> p[i] != '\n',
    ensures
        lines(p + seq!['\n']) == seq![strip_cr(p)],
{
    let s = p + seq!['\n'];
    assert forall|k: int| 0 <= k < p.len() implies s[k] != '\n' by {
        assert(s[k] == p[k]);
    }
    lemma_newline_pos_from(s, 0, p.len() as int);
    assert(s.skip(0) =~= s);
    assert(s.take(p.len() as int) =~= p);
    assert(s.skip(p.len() as int + 1) =~= Seq::<char>::empty());
    assert(lines(Seq::<char>::empty()) =~= Seq::<Seq<char>>::empty());
    assert(seq![strip_cr(p)] + lines(Seq::<char>::empty()) =~= seq![strip_cr(p)]);
}


/// A trimmed non-empty text does not end with whitespace.
pub proof fn lemma_trim_end_last(s: Seq<char>)
    requires
        trim(s) == s,
        s.len() > 0,
    ensures
        !is_ws(s.last()),
{
    lemma_trim_end_shape(trim_start(s));
}

proof fn lemma_trim_end_shape(s: Seq<char>)
    ensures
        trim_end(s).len() > 0 ==> !is_ws(trim_end(s).last()),
        trim_end(s).len() <= s.len(),
    decreases s.len(),
{
    if s.len() > 0 && is_ws(s.last()) {
        lemma_trim_end_shape(s.drop_last());
    }
}

} // verus!
