//! Operations on text.
use vstd::prelude::*;
use vstd::string::*;
use vstd::utf8::*;

verus! {

/// An optional text by its view.
pub open spec fn sview(o: Option<&str>) -> Option<Seq<char>> {
    match o {
        Some(s) => Some(s@),
        None => None,
    }
}

/// An optional text by its view.
pub open spec fn oview(o: Option<String>) -> Option<Seq<char>> {
    match o {
        Some(s) => Some(s@),
        None => None,
    }
}

/// Whether two texts are the same.
pub fn str_eq(a: &str, b: &str) -> (r: bool)
    ensures
        r == (a@ == b@),
{
    broadcast use encode_utf8_decode_utf8;

    let x = a.as_bytes();
    let y = b.as_bytes();
    if x.len() != y.len() {
        return false;
    }
    let mut i: usize = 0;
    while i < x.len()
        invariant
            i <= x@.len(),
            x@.len() == y@.len(),
            x@ == encode_utf8(a@),
            y@ == encode_utf8(b@),
            forall|j: int| 0 <= j < i ==> x@[j] == y@[j],
        decreases x@.len() - i,
    {
        if x[i] != y[i] {
            return false;
        }
        i += 1;
    }
    assert(x@ =~= y@);
    assert(decode_utf8(encode_utf8(a@)) == decode_utf8(encode_utf8(b@)));
    true
}

/// The texts of a list by their views.
pub open spec fn views(v: Seq<String>) -> Seq<Seq<char>> {
    Seq::new(v.len(), |i: int| v[i]@)
}

/// An optional text, taken only where it is not empty.
pub open spec fn nonempty(o: Option<Seq<char>>) -> Option<Seq<char>> {
    match o {
        Some(s) => if s.len() > 0 {
            Some(s)
        } else {
            None
        },
        None => None,
    }
}

/// The first of two optional texts that is there.
pub open spec fn first_of(a: Option<Seq<char>>, b: Option<Seq<char>>) -> Option<Seq<char>> {
    if a is Some {
        a
    } else {
        b
    }
}

/// An optional text, or a given one where there is none.
pub open spec fn or_text(o: Option<Seq<char>>, d: Seq<char>) -> Seq<char> {
    match o {
        Some(s) => s,
        None => d,
    }
}

/// The characters with the Unicode property White_Space.
pub open spec fn is_ws(c: char) -> bool {
    let u = c as u32;
    ||| 9 <= u <= 13
    ||| u == 32
    ||| u == 0x85
    ||| u == 0xa0
    ||| u == 0x1680
    ||| 0x2000 <= u <= 0x200a
    ||| u == 0x2028
    ||| u == 0x2029
    ||| u == 0x202f
    ||| u == 0x205f
    ||| u == 0x3000
}

/// Without the white space at the front.
pub open spec fn trim_start(s: Seq<char>) -> Seq<char>
    decreases s.len(),
{
    if s.len() > 0 && is_ws(s[0]) {
        trim_start(s.drop_first())
    } else {
        s
    }
}

/// Without the white space at the end.
pub open spec fn trim_end(s: Seq<char>) -> Seq<char>
    decreases s.len(),
{
    if s.len() > 0 && is_ws(s.last()) {
        trim_end(s.drop_last())
    } else {
        s
    }
}

/// Without the white space at both ends.
pub open spec fn trim(s: Seq<char>) -> Seq<char> {
    trim_end(trim_start(s))
}

/// Whether nothing but white space is there.
pub open spec fn blank(s: Seq<char>) -> bool {
    trim(s).len() == 0
}

/// An optional text, taken only where it is more than white space.
pub open spec fn nonblank(o: Option<Seq<char>>) -> Option<Seq<char>> {
    match o {
        Some(s) => if blank(s) {
            None
        } else {
            Some(s)
        },
        None => None,
    }
}

/// Whether `s` begins with `p`.
pub open spec fn begins(s: Seq<char>, p: Seq<char>) -> bool {
    p.len() <= s.len() && s.subrange(0, p.len() as int) == p
}

/// Whether `s` ends with `p`.
pub open spec fn ends(s: Seq<char>, p: Seq<char>) -> bool {
    p.len() <= s.len() && s.subrange(s.len() - p.len(), s.len() as int) == p
}

/// What follows `p` at the front of `s`.
pub open spec fn after_prefix(s: Seq<char>, p: Seq<char>) -> Option<Seq<char>> {
    if begins(s, p) {
        Some(s.subrange(p.len() as int, s.len() as int))
    } else {
        None
    }
}

/// What stands before `p` at the end of `s`.
pub open spec fn before_suffix(s: Seq<char>, p: Seq<char>) -> Option<Seq<char>> {
    if ends(s, p) {
        Some(s.subrange(0, s.len() - p.len()))
    } else {
        None
    }
}

/// Where `c` first occurs; the length where it does not occur.
pub open spec fn position(s: Seq<char>, c: char) -> int
    decreases s.len(),
{
    if s.len() == 0 {
        0
    } else if s[0] == c {
        0
    } else {
        1 + position(s.drop_first(), c)
    }
}

/// What stands before the first `c`.
pub open spec fn before_char(s: Seq<char>, c: char) -> Seq<char> {
    s.subrange(0, position(s, c))
}

/// What stands behind the first `c`; `None` where there is no `c`.
pub open spec fn behind_char(s: Seq<char>, c: char) -> Option<Seq<char>> {
    if position(s, c) < s.len() {
        Some(s.subrange(position(s, c) + 1, s.len() as int))
    } else {
        None
    }
}

/// The pieces between the occurrences of `c`.
pub open spec fn split(s: Seq<char>, c: char) -> Seq<Seq<char>>
    decreases s.len(),
{
    let i = position(s, c);
    if i < 0 || i >= s.len() {
        seq![s]
    } else {
        seq![s.subrange(0, i)] + split(s.subrange(i + 1, s.len() as int), c)
    }
}

/// The texts in order, with `sep` between neighbours.
pub open spec fn join(parts: Seq<Seq<char>>, sep: Seq<char>) -> Seq<char>
    decreases parts.len(),
{
    if parts.len() == 0 {
        Seq::empty()
    } else if parts.len() == 1 {
        parts[0]
    } else {
        join(parts.drop_last(), sep) + sep + parts.last()
    }
}

/// Whether `sub` occurs in `s`.
pub open spec fn contains(s: Seq<char>, sub: Seq<char>) -> bool {
    exists|i: int| #[trigger] occurs_at(s, sub, i)
}

/// Whether `sub` occurs in `s` at place `i`.
pub open spec fn occurs_at(s: Seq<char>, sub: Seq<char>, i: int) -> bool {
    0 <= i && i + sub.len() <= s.len() && s.subrange(i, i + sub.len()) == sub
}

/// Where `sub` first occurs; the length where it does not occur.
pub open spec fn place(s: Seq<char>, sub: Seq<char>) -> int
    decreases s.len(),
{
    if s.len() == 0 || begins(s, sub) {
        0
    } else {
        1 + place(s.drop_first(), sub)
    }
}

/// The pieces between the occurrences of `sep`, found from the front and not overlapping.
pub open spec fn split_on(s: Seq<char>, sep: Seq<char>) -> Seq<Seq<char>>
    decreases s.len(),
{
    let i = place(s, sep);
    if sep.len() == 0 || i < 0 || i + sep.len() > s.len() {
        seq![s]
    } else {
        seq![s.subrange(0, i)] + split_on(s.subrange(i + sep.len(), s.len() as int), sep)
    }
}

/// The lines of a text, each without the line feed, or the carriage return and line feed,
/// that ends it.
pub open spec fn lines(s: Seq<char>) -> Seq<Seq<char>> {
    let all = split(s, '\n');
    let ended = Seq::new(
        (all.len() - 1) as nat,
        |i: int| or_text(before_suffix(all[i], "\r"@), all[i]),
    );
    if all.last().len() == 0 {
        ended
    } else {
        ended.push(all.last())
    }
}

/// Without the occurrences of `c` at the front.
pub open spec fn strip_start(s: Seq<char>, c: char) -> Seq<char>
    decreases s.len(),
{
    if s.len() > 0 && s[0] == c {
        strip_start(s.drop_first(), c)
    } else {
        s
    }
}

/// Without the occurrences of `c` at the end.
pub open spec fn strip_end(s: Seq<char>, c: char) -> Seq<char>
    decreases s.len(),
{
    if s.len() > 0 && s.last() == c {
        strip_end(s.drop_last(), c)
    } else {
        s
    }
}

/// Without the occurrences of `c` at both ends.
pub open spec fn strip(s: Seq<char>, c: char) -> Seq<char> {
    strip_end(strip_start(s, c), c)
}

/// An upper-case ASCII letter becomes the lower-case one.
pub open spec fn lower_char(c: char) -> char {
    if 'A' <= c && c <= 'Z' {
        (c as u32 + 32) as char
    } else {
        c
    }
}

/// With lower-case ASCII letters.
pub open spec fn lower(s: Seq<char>) -> Seq<char> {
    Seq::new(s.len(), |i: int| lower_char(s[i]))
}

/// At most the first `n` characters.
pub open spec fn head(s: Seq<char>, n: nat) -> Seq<char> {
    if s.len() <= n {
        s
    } else {
        s.subrange(0, n as int)
    }
}

/// At most the last `n` characters.
pub open spec fn tail(s: Seq<char>, n: nat) -> Seq<char> {
    if s.len() <= n {
        s
    } else {
        s.subrange(s.len() - n, s.len() as int)
    }
}

// ---------------------------------------------------------------------------
// Facts
// ---------------------------------------------------------------------------

/// The first occurrence of a character, characterised.
pub proof fn lemma_position(s: Seq<char>, c: char)
    ensures
        0 <= position(s, c) <= s.len(),
        forall|j: int| 0 <= j < position(s, c) ==> #[trigger] s[j] != c,
        position(s, c) < s.len() ==> s[position(s, c)] == c,
    decreases s.len(),
{
    if s.len() > 0 && s[0] != c {
        let t = s.drop_first();
        lemma_position(t, c);
        assert forall|j: int| 0 <= j < position(s, c) implies #[trigger] s[j] != c by {
            if j > 0 {
                assert(t[j - 1] != c);
            }
        }
    }
}

/// A place that is the first occurrence of a character, or the length where there is none.
pub proof fn lemma_position_at(s: Seq<char>, c: char, i: int)
    requires
        0 <= i <= s.len(),
        forall|j: int| 0 <= j < i ==> #[trigger] s[j] != c,
        i < s.len() ==> s[i] == c,
    ensures
        position(s, c) == i,
{
    lemma_position(s, c);
    let p = position(s, c);
    if p < i {
        assert(s[p] != c);
    }
    if i < p {
        assert(s[i] != c);
    }
}

/// Trimming at the front drops white space and keeps the rest.
pub proof fn lemma_trim_start_at(s: Seq<char>, i: int)
    requires
        0 <= i <= s.len(),
        forall|j: int| 0 <= j < i ==> is_ws(#[trigger] s[j]),
        i < s.len() ==> !is_ws(s[i]),
    ensures
        trim_start(s) == s.subrange(i, s.len() as int),
    decreases i,
{
    if i > 0 {
        assert(is_ws(s[0]));
        let t = s.drop_first();
        assert forall|j: int| 0 <= j < i - 1 implies is_ws(#[trigger] t[j]) by {
            assert(is_ws(s[j + 1]));
        }
        lemma_trim_start_at(t, i - 1);
        assert(t.subrange(i - 1, t.len() as int) =~= s.subrange(i, s.len() as int));
    } else {
        assert(s.subrange(0, s.len() as int) =~= s);
    }
}

/// Trimming at the end drops white space and keeps the rest.
pub proof fn lemma_trim_end_at(s: Seq<char>, i: int)
    requires
        0 <= i <= s.len(),
        forall|j: int| i <= j < s.len() ==> is_ws(#[trigger] s[j]),
        i > 0 ==> !is_ws(s[i - 1]),
    ensures
        trim_end(s) == s.subrange(0, i),
    decreases s.len(),
{
    if i < s.len() {
        assert(is_ws(s[s.len() - 1]));
        let t = s.drop_last();
        assert forall|j: int| i <= j < t.len() implies is_ws(#[trigger] t[j]) by {
            assert(is_ws(s[j]));
        }
        lemma_trim_end_at(t, i);
        assert(t.subrange(0, i) =~= s.subrange(0, i));
    } else {
        assert(s.subrange(0, i) =~= s);
    }
}

/// Texts with the same prefix are told apart by what follows it.
pub proof fn lemma_after_own_prefix(p: Seq<char>, t: Seq<char>)
    ensures
        begins(p + t, p),
        after_prefix(p + t, p) == Some(t),
{
    assert((p + t).subrange(0, p.len() as int) =~= p);
    assert((p + t).subrange(p.len() as int, (p + t).len() as int) =~= t);
}

// ---------------------------------------------------------------------------
// Characters and texts
// ---------------------------------------------------------------------------

/// The characters of a text.
pub fn chars_of(s: &str) -> (r: Vec<char>)
    ensures
        r@ == s@,
{
    let mut out: Vec<char> = Vec::new();
    for c in it: s.chars()
        invariant
            it.seq() == s@,
            out@ == s@.subrange(0, it.index() as int),
    {
        out.push(c);
        assert(out@ =~= s@.subrange(0, it.index() + 1));
    }
    assert(out@ =~= s@);
    out
}

/// A stretch of characters as a text.
pub fn piece(v: &Vec<char>, from: usize, to: usize) -> (r: String)
    requires
        from <= to <= v@.len(),
    ensures
        r@ == v@.subrange(from as int, to as int),
{
    let mut out = String::new();
    let mut i: usize = from;
    while i < to
        invariant
            from <= i <= to <= v@.len(),
            out@ == v@.subrange(from as int, i as int),
        decreases to - i,
    {
        out.push(v[i]);
        i += 1;
        assert(out@ =~= v@.subrange(from as int, i as int));
    }
    assert(out@ =~= v@.subrange(from as int, to as int));
    out
}

/// The number of characters.
pub fn char_count(s: &str) -> (r: usize)
    ensures
        r == s@.len(),
{
    s.unicode_len()
}

/// Two texts in a row.
pub fn cat2(a: &str, b: &str) -> (r: String)
    ensures
        r@ == a@ + b@,
{
    let mut out = a.to_owned();
    out.append(b);
    out
}

/// Three texts in a row.
pub fn cat3(a: &str, b: &str, c: &str) -> (r: String)
    ensures
        r@ == a@ + b@ + c@,
{
    let mut out = a.to_owned();
    out.append(b);
    out.append(c);
    out
}

/// Four texts in a row.
pub fn cat4(a: &str, b: &str, c: &str, d: &str) -> (r: String)
    ensures
        r@ == a@ + b@ + c@ + d@,
{
    let mut out = a.to_owned();
    out.append(b);
    out.append(c);
    out.append(d);
    out
}

/// Five texts in a row.
pub fn cat5(a: &str, b: &str, c: &str, d: &str, e: &str) -> (r: String)
    ensures
        r@ == a@ + b@ + c@ + d@ + e@,
{
    let mut out = a.to_owned();
    out.append(b);
    out.append(c);
    out.append(d);
    out.append(e);
    out
}

/// Six texts in a row.
pub fn cat6(a: &str, b: &str, c: &str, d: &str, e: &str, f: &str) -> (r: String)
    ensures
        r@ == a@ + b@ + c@ + d@ + e@ + f@,
{
    let mut out = cat5(a, b, c, d, e);
    out.append(f);
    out
}

/// An optional text, owned.
pub fn own(o: Option<&str>) -> (r: Option<String>)
    ensures
        oview(r) == sview(o),
{
    match o {
        Some(s) => Some(s.to_owned()),
        None => None,
    }
}

/// An optional text, borrowed.
pub fn borrow<'a>(o: &'a Option<String>) -> (r: Option<&'a str>)
    ensures
        sview(r) == oview(*o),
{
    match o {
        Some(s) => Some(s.as_str()),
        None => None,
    }
}

/// A copy of an optional text.
pub fn copy_opt(o: &Option<String>) -> (r: Option<String>)
    ensures
        oview(r) == oview(*o),
{
    match o {
        Some(s) => Some(s.clone()),
        None => None,
    }
}

/// An optional text, taken only where it is not empty.
pub fn take_nonempty<'a>(o: Option<&'a str>) -> (r: Option<&'a str>)
    ensures
        sview(r) == nonempty(sview(o)),
{
    match o {
        Some(s) => if s.is_empty() {
            None
        } else {
            Some(s)
        },
        None => None,
    }
}

/// An optional text, taken only where it is more than white space.
pub fn take_nonblank<'a>(o: Option<&'a str>) -> (r: Option<&'a str>)
    ensures
        sview(r) == nonblank(sview(o)),
{
    match o {
        Some(s) => if is_blank(s) {
            None
        } else {
            Some(s)
        },
        None => None,
    }
}

/// The first of two optional texts that is there.
pub fn either<'a>(a: Option<&'a str>, b: Option<&'a str>) -> (r: Option<&'a str>)
    ensures
        sview(r) == first_of(sview(a), sview(b)),
{
    if a.is_some() {
        a
    } else {
        b
    }
}

/// Whether an optional text is there and is the given one.
pub fn opt_is(o: Option<&str>, s: &str) -> (r: bool)
    ensures
        r == (sview(o) == Some(s@)),
{
    match o {
        Some(t) => str_eq(t, s),
        None => false,
    }
}

fn is_ws_char(c: char) -> (r: bool)
    ensures
        r == is_ws(c),
{
    let u: u32 = c as u32;
    (9 <= u && u <= 13) || u == 32 || u == 0x85 || u == 0xa0 || u == 0x1680 || (0x2000 <= u && u
        <= 0x200a) || u == 0x2028 || u == 0x2029 || u == 0x202f || u == 0x205f || u == 0x3000
}

fn ws_front(v: &Vec<char>) -> (r: usize)
    ensures
        r <= v@.len(),
        trim_start(v@) == v@.subrange(r as int, v@.len() as int),
{
    let mut i: usize = 0;
    while i < v.len() && is_ws_char(v[i])
        invariant
            i <= v@.len(),
            forall|j: int| 0 <= j < i ==> is_ws(#[trigger] v@[j]),
        decreases v@.len() - i,
    {
        i += 1;
    }
    proof {
        lemma_trim_start_at(v@, i as int);
    }
    i
}

/// Without the white space at the front.
pub fn str_trim_start(s: &str) -> (r: String)
    ensures
        r@ == trim_start(s@),
{
    let v = chars_of(s);
    let i: usize = ws_front(&v);
    piece(&v, i, v.len())
}

/// Without the white space at both ends.
pub fn str_trim(s: &str) -> (r: String)
    ensures
        r@ == trim(s@),
{
    let v = chars_of(s);
    let i: usize = ws_front(&v);
    let mut k: usize = v.len();
    let ghost rest = v@.subrange(i as int, v@.len() as int);
    while i < k && is_ws_char(v[k - 1])
        invariant
            i <= k <= v@.len(),
            rest == v@.subrange(i as int, v@.len() as int),
            forall|j: int| k <= j < v@.len() ==> is_ws(#[trigger] v@[j]),
        decreases k - i,
    {
        k -= 1;
    }
    proof {
        assert forall|j: int| k - i <= j < rest.len() implies is_ws(#[trigger] rest[j]) by {
            assert(is_ws(v@[j + i]));
        }
        lemma_trim_end_at(rest, k - i);
        assert(rest.subrange(0, k - i) =~= v@.subrange(i as int, k as int));
    }
    piece(&v, i, k)
}

/// Whether nothing but white space is there.
pub fn is_blank(s: &str) -> (r: bool)
    ensures
        r == blank(s@),
{
    str_trim(s).as_str().is_empty()
}

/// Whether `s` begins with `p`.
pub fn str_begins(s: &str, p: &str) -> (r: bool)
    ensures
        r == begins(s@, p@),
{
    str_after_prefix(s, p).is_some()
}

/// Whether `p` occurs in `v` at place `at`.
pub fn occurs(v: &Vec<char>, p: &Vec<char>, at: usize) -> (r: bool)
    requires
        at <= v@.len(),
    ensures
        r == occurs_at(v@, p@, at as int),
{
    if p.len() > v.len() - at {
        return false;
    }
    let mut i: usize = 0;
    while i < p.len()
        invariant
            i <= p@.len(),
            at + p@.len() <= v.len(),
            forall|j: int| 0 <= j < i ==> v@[at + j] == #[trigger] p@[j],
        decreases p@.len() - i,
    {
        if v[at + i] != p[i] {
            assert(v@.subrange(at as int, at + p@.len())[i as int] != p@[i as int]);
            return false;
        }
        i += 1;
    }
    assert(v@.subrange(at as int, at + p@.len()) =~= p@);
    true
}

/// What follows `p` at the front of `s`.
pub fn str_after_prefix(s: &str, p: &str) -> (r: Option<String>)
    ensures
        oview(r) == after_prefix(s@, p@),
{
    let v = chars_of(s);
    let q = chars_of(p);
    if occurs(&v, &q, 0) {
        Some(piece(&v, q.len(), v.len()))
    } else {
        None
    }
}

/// What stands before `p` at the end of `s`.
pub fn str_before_suffix(s: &str, p: &str) -> (r: Option<String>)
    ensures
        oview(r) == before_suffix(s@, p@),
{
    let v = chars_of(s);
    let q = chars_of(p);
    if q.len() <= v.len() && occurs(&v, &q, v.len() - q.len()) {
        Some(piece(&v, 0, v.len() - q.len()))
    } else {
        None
    }
}

/// Where `c` first occurs at or behind `from`; the length where it does not occur there.
pub fn find_from(v: &Vec<char>, c: char, from: usize) -> (r: usize)
    requires
        from <= v@.len(),
    ensures
        from <= r <= v@.len(),
        r - from == position(v@.subrange(from as int, v@.len() as int), c),
{
    let mut i: usize = from;
    let ghost rest = v@.subrange(from as int, v@.len() as int);
    while i < v.len() && v[i] != c
        invariant
            from <= i <= v@.len(),
            rest == v@.subrange(from as int, v@.len() as int),
            forall|j: int| from <= j < i ==> #[trigger] v@[j] != c,
        decreases v@.len() - i,
    {
        i += 1;
    }
    proof {
        assert forall|j: int| 0 <= j < i - from implies #[trigger] rest[j] != c by {
            assert(v@[j + from] != c);
        }
        lemma_position_at(rest, c, i - from);
    }
    i
}

/// What stands before the first `c`.
pub fn str_before_char(s: &str, c: char) -> (r: String)
    ensures
        r@ == before_char(s@, c),
{
    let v = chars_of(s);
    let i: usize = find_from(&v, c, 0);
    assert(v@.subrange(0, v@.len() as int) =~= v@);
    piece(&v, 0, i)
}

/// What stands behind the first `c`; `None` where there is no `c`.
pub fn str_behind_char(s: &str, c: char) -> (r: Option<String>)
    ensures
        oview(r) == behind_char(s@, c),
{
    let v = chars_of(s);
    let i: usize = find_from(&v, c, 0);
    assert(v@.subrange(0, v@.len() as int) =~= v@);
    if i < v.len() {
        Some(piece(&v, i + 1, v.len()))
    } else {
        None
    }
}

/// The pieces between the occurrences of `c`.
pub fn str_split(s: &str, c: char) -> (r: Vec<String>)
    ensures
        views(r@) == split(s@, c),
        r@.len() > 0,
{
    let v = chars_of(s);
    let mut out: Vec<String> = Vec::new();
    let mut from: usize = 0;
    assert(v@.subrange(0, v@.len() as int) =~= v@);
    loop
        invariant
            from <= v@.len(),
            v@ == s@,
            split(s@, c) =~= views(out@) + split(v@.subrange(from as int, v@.len() as int), c),
        decreases v@.len() - from,
    {
        let i: usize = find_from(&v, c, from);
        let ghost rest = v@.subrange(from as int, v@.len() as int);
        let p = piece(&v, from, i);
        let ghost before = out@;
        assert(rest.subrange(0, i - from) =~= p@);
        out.push(p);
        assert(views(out@) =~= views(before).push(p@));
        if i >= v.len() {
            assert(p@ =~= rest);
            return out;
        }
        assert(rest.subrange(i - from + 1, rest.len() as int) =~= v@.subrange(
            i + 1,
            v@.len() as int,
        ));
        from = i + 1;
    }
}

/// The texts in order, with `sep` between neighbours.
pub fn str_join(parts: &Vec<String>, sep: &str) -> (r: String)
    ensures
        r@ == join(views(parts@), sep@),
{
    let mut out = String::new();
    let mut i: usize = 0;
    let ghost all = views(parts@);
    while i < parts.len()
        invariant
            i <= parts@.len(),
            all == views(parts@),
            out@ == join(all.subrange(0, i as int), sep@),
        decreases parts@.len() - i,
    {
        if i > 0 {
            out.append(sep);
        }
        out.append(parts[i].as_str());
        proof {
            let now = all.subrange(0, i + 1);
            assert(now.drop_last() =~= all.subrange(0, i as int));
            assert(now.last() == parts@[i as int]@);
            if i == 0 {
                assert(out@ =~= parts@[0]@);
            }
        }
        i += 1;
    }
    assert(all.subrange(0, parts@.len() as int) =~= all);
    out
}

/// Whether `sub` occurs in `s`.
pub fn str_contains(s: &str, sub: &str) -> (r: bool)
    ensures
        r == contains(s@, sub@),
{
    let v = chars_of(s);
    let p = chars_of(sub);
    let mut i: usize = 0;
    while i < v.len()
        invariant
            i <= v@.len(),
            p@ == sub@,
            v@ == s@,
            forall|j: int| 0 <= j < i ==> !#[trigger] occurs_at(s@, sub@, j),
        decreases v@.len() - i,
    {
        if occurs(&v, &p, i) {
            assert(occurs_at(s@, sub@, i as int));
            return true;
        }
        i += 1;
    }
    let r = occurs(&v, &p, i);
    proof {
        if contains(s@, sub@) {
            let k = choose|k: int| #[trigger] occurs_at(s@, sub@, k);
            assert(k == i);
        }
    }
    r
}

/// With lower-case ASCII letters.
pub fn str_lower(s: &str) -> (r: String)
    ensures
        r@ == lower(s@),
{
    let v = chars_of(s);
    let mut out = String::new();
    let mut i: usize = 0;
    while i < v.len()
        invariant
            i <= v@.len(),
            v@ == s@,
            out@ =~= lower(s@).subrange(0, i as int),
        decreases v@.len() - i,
    {
        let c = v[i];
        let u: u32 = c as u32;
        if 65 <= u && u <= 90 {
            out.push((u as u8 + 32) as char);
        } else {
            out.push(c);
        }
        i += 1;
    }
    assert(out@ =~= lower(s@));
    out
}

/// At most the first `n` characters.
pub fn str_head(s: &str, n: usize) -> (r: String)
    ensures
        r@ == head(s@, n as nat),
{
    let v = chars_of(s);
    if v.len() <= n {
        s.to_owned()
    } else {
        piece(&v, 0, n)
    }
}

/// At most the last `n` characters.
pub fn str_tail(s: &str, n: usize) -> (r: String)
    ensures
        r@ == tail(s@, n as nat),
{
    let v = chars_of(s);
    if v.len() <= n {
        s.to_owned()
    } else {
        piece(&v, v.len() - n, v.len())
    }
}

/// Where `p` first occurs at or behind `from`; the length where it does not occur there.
fn find_sub(v: &Vec<char>, p: &Vec<char>, from: usize) -> (r: usize)
    requires
        from <= v@.len(),
        p@.len() > 0,
    ensures
        from <= r <= v@.len(),
        r - from == place(v@.subrange(from as int, v@.len() as int), p@),
        r + p@.len() <= v@.len() || r == v@.len(),
{
    let mut i: usize = from;
    let ghost rest = v@.subrange(from as int, v@.len() as int);
    while i < v.len()
        invariant
            from <= i <= v@.len(),
            p@.len() > 0,
            rest == v@.subrange(from as int, v@.len() as int),
            place(rest, p@) == i - from + place(v@.subrange(i as int, v@.len() as int), p@),
        decreases v@.len() - i,
    {
        let ghost now = v@.subrange(i as int, v@.len() as int);
        assert(now.drop_first() =~= v@.subrange(i + 1, v@.len() as int));
        let hit = occurs(v, p, i);
        assert(i + p@.len() <= v@.len() ==> now.subrange(0, p@.len() as int) =~= v@.subrange(
            i as int,
            i + p@.len(),
        ));
        if hit {
            return i;
        }
        i += 1;
    }
    i
}

/// The pieces between the occurrences of `sep`, found from the front and not overlapping.
pub fn str_split_on(s: &str, sep: &str) -> (r: Vec<String>)
    requires
        sep@.len() > 0,
    ensures
        views(r@) == split_on(s@, sep@),
{
    let v = chars_of(s);
    let p = chars_of(sep);
    let mut out: Vec<String> = Vec::new();
    let mut from: usize = 0;
    assert(v@.subrange(0, v@.len() as int) =~= v@);
    loop
        invariant
            from <= v@.len(),
            v@ == s@,
            p@ == sep@,
            p@.len() > 0,
            split_on(s@, sep@) =~= views(out@) + split_on(
                v@.subrange(from as int, v@.len() as int),
                sep@,
            ),
        decreases v@.len() - from,
    {
        let i: usize = find_sub(&v, &p, from);
        let ghost rest = v@.subrange(from as int, v@.len() as int);
        let q = piece(&v, from, i);
        let ghost before = out@;
        assert(rest.subrange(0, i - from) =~= q@);
        out.push(q);
        assert(views(out@) =~= views(before).push(q@));
        if i >= v.len() {
            assert(q@ =~= rest);
            return out;
        }
        assert(rest.subrange(i - from + p@.len(), rest.len() as int) =~= v@.subrange(
            i + p@.len(),
            v@.len() as int,
        ));
        from = i + p.len();
    }
}

/// The lines of a text.
pub fn str_lines(s: &str) -> (r: Vec<String>)
    ensures
        views(r@) == lines(s@),
{
    let all = str_split(s, '\n');
    let ghost texts = views(all@);
    let mut out: Vec<String> = Vec::new();
    let last: usize = all.len() - 1;
    let mut i: usize = 0;
    while i < last
        invariant
            i <= last,
            last == all@.len() - 1,
            texts == views(all@),
            views(out@) =~= Seq::new(
                i as nat,
                |k: int| or_text(before_suffix(texts[k], "\r"@), texts[k]),
            ),
        decreases last - i,
    {
        let ghost before = out@;
        let line = match str_before_suffix(all[i].as_str(), "\r") {
            Some(l) => l,
            None => all[i].clone(),
        };
        assert(line@ == or_text(before_suffix(texts[i as int], "\r"@), texts[i as int]));
        out.push(line);
        assert(views(out@) =~= views(before).push(line@));
        i += 1;
    }
    assert(texts.last() == all@[last as int]@);
    if !all[last].as_str().is_empty() {
        let ghost before = out@;
        let l = all[last].clone();
        out.push(l);
        assert(views(out@) =~= views(before).push(l@));
    }
    out
}

proof fn lemma_strip_start_at(s: Seq<char>, c: char, i: int)
    requires
        0 <= i <= s.len(),
        forall|j: int| 0 <= j < i ==> #[trigger] s[j] == c,
        i < s.len() ==> s[i] != c,
    ensures
        strip_start(s, c) == s.subrange(i, s.len() as int),
    decreases i,
{
    if i > 0 {
        let t = s.drop_first();
        lemma_strip_start_at(t, c, i - 1);
        assert(t.subrange(i - 1, t.len() as int) =~= s.subrange(i, s.len() as int));
    } else {
        assert(s.subrange(0, s.len() as int) =~= s);
    }
}

proof fn lemma_strip_end_at(s: Seq<char>, c: char, i: int)
    requires
        0 <= i <= s.len(),
        forall|j: int| i <= j < s.len() ==> #[trigger] s[j] == c,
        i > 0 ==> s[i - 1] != c,
    ensures
        strip_end(s, c) == s.subrange(0, i),
    decreases s.len(),
{
    if i < s.len() {
        let t = s.drop_last();
        lemma_strip_end_at(t, c, i);
        assert(t.subrange(0, i) =~= s.subrange(0, i));
    } else {
        assert(s.subrange(0, i) =~= s);
    }
}

/// Without the occurrences of `c` at both ends.
pub fn str_strip(s: &str, c: char) -> (r: String)
    ensures
        r@ == strip(s@, c),
{
    let v = chars_of(s);
    let mut i: usize = 0;
    while i < v.len() && v[i] == c
        invariant
            i <= v@.len(),
            forall|j: int| 0 <= j < i ==> #[trigger] v@[j] == c,
        decreases v@.len() - i,
    {
        i += 1;
    }
    let mut k: usize = v.len();
    let ghost rest = v@.subrange(i as int, v@.len() as int);
    while i < k && v[k - 1] == c
        invariant
            i <= k <= v@.len(),
            forall|j: int| k <= j < v@.len() ==> #[trigger] v@[j] == c,
        decreases k - i,
    {
        k -= 1;
    }
    proof {
        lemma_strip_start_at(v@, c, i as int);
        assert forall|j: int| k - i <= j < rest.len() implies #[trigger] rest[j] == c by {
            assert(v@[j + i] == c);
        }
        lemma_strip_end_at(rest, c, k - i);
        assert(rest.subrange(0, k - i) =~= v@.subrange(i as int, k as int));
    }
    piece(&v, i, k)
}

/// Without the occurrences of `c` at the end.
pub fn str_strip_end(s: &str, c: char) -> (r: String)
    ensures
        r@ == strip_end(s@, c),
{
    let v = chars_of(s);
    let mut k: usize = v.len();
    while 0 < k && v[k - 1] == c
        invariant
            k <= v@.len(),
            forall|j: int| k <= j < v@.len() ==> #[trigger] v@[j] == c,
        decreases k,
    {
        k -= 1;
    }
    proof {
        lemma_strip_end_at(v@, c, k as int);
    }
    piece(&v, 0, k)
}

} // verus!
