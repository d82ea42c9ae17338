//! Making text safe and short enough for a card.
use vstd::prelude::*;
use vstd::utf8::*;

use crate::digits;
use crate::digits::dec_usize;
use crate::text;
use crate::text::{
    cat2, cat3, chars_of, piece, str_begins, str_head, str_join, str_split, str_trim_start,
};

verus! {

// ---------------------------------------------------------------------------
// Size
// ---------------------------------------------------------------------------

/// The number of bytes of a text.
pub open spec fn byte_len(s: Seq<char>) -> nat {
    encode_utf8(s).len()
}

/// The number of bytes of a character.
pub open spec fn width(c: char) -> nat {
    encode_scalar(c as u32).len()
}

/// The longest beginning of a text that has at most `n` bytes.
pub open spec fn front_within(s: Seq<char>, n: nat) -> Seq<char>
    decreases s.len(),
{
    if s.len() == 0 || width(s[0]) > n {
        Seq::empty()
    } else {
        seq![s[0]] + front_within(s.drop_first(), (n - width(s[0])) as nat)
    }
}

/// The longest end of a text that has at most `n` bytes.
pub open spec fn back_within(s: Seq<char>, n: nat) -> Seq<char>
    decreases s.len(),
{
    if s.len() == 0 || width(s.last()) > n {
        Seq::empty()
    } else {
        back_within(s.drop_last(), (n - width(s.last())) as nat).push(s.last())
    }
}

/// The note in place of what was left out.
pub open spec fn cap_note(omitted: int) -> Seq<char> {
    "\n\n…（已截断中段 "@ + digits::dec(omitted) + " 字节）…\n\n"@
}

/// A text cut down in its middle to at most `front` bytes before and `back` bytes behind the
/// note on what was left out. A text with no more bytes than that is kept.
pub open spec fn capped(s: Seq<char>, front: nat, back: nat) -> Seq<char> {
    if byte_len(s) <= front + back {
        s
    } else {
        let a = front_within(s, front);
        let b = back_within(s, back);
        a + cap_note(byte_len(s) - byte_len(a) - byte_len(b)) + b
    }
}

proof fn lemma_width(c: char)
    ensures
        width(c) == if c as u32 <= 0x7f {
            1int
        } else if c as u32 <= 0x7ff {
            2
        } else if c as u32 <= 0xffff {
            3
        } else {
            4
        },
{
}

/// The bytes of a text are those of its first character and of the rest.
proof fn lemma_bytes_first(s: Seq<char>)
    requires
        s.len() > 0,
    ensures
        byte_len(s) == width(s[0]) + byte_len(s.drop_first()),
{
}

/// The bytes of a text are those of its last character and of what stands before it.
proof fn lemma_bytes_last(s: Seq<char>)
    requires
        s.len() > 0,
    ensures
        byte_len(s) == byte_len(s.drop_last()) + width(s.last()),
    decreases s.len(),
{
    lemma_bytes_first(s);
    if s.len() == 1 {
        assert(s.drop_first() =~= Seq::empty());
        assert(s.drop_last() =~= Seq::empty());
        assert(byte_len(s.drop_first()) == 0);
        assert(byte_len(s.drop_last()) == 0);
    } else {
        let t = s.drop_first();
        lemma_bytes_last(t);
        lemma_bytes_first(s.drop_last());
        assert(t.drop_last() =~= s.drop_last().drop_first());
    }
}

/// The beginning within a limit is a beginning, and is within the limit.
pub proof fn lemma_front_within(s: Seq<char>, n: nat)
    ensures
        text::begins(s, front_within(s, n)),
        byte_len(front_within(s, n)) <= n,
    decreases s.len(),
{
    let a = front_within(s, n);
    if s.len() == 0 || width(s[0]) > n {
        assert(byte_len(a) == 0);
        assert(s.subrange(0, 0) =~= a);
    } else {
        let t = s.drop_first();
        let b = front_within(t, (n - width(s[0])) as nat);
        lemma_front_within(t, (n - width(s[0])) as nat);
        assert(a.drop_first() =~= b);
        lemma_bytes_first(a);
        assert(s.subrange(0, a.len() as int) =~= a) by {
            assert(t.subrange(0, b.len() as int) == b);
            assert forall|i: int| 0 <= i < a.len() implies s.subrange(0, a.len() as int)[i]
                == a[i] by {
                if i > 0 {
                    assert(t.subrange(0, b.len() as int)[i - 1] == b[i - 1]);
                }
            }
        }
    }
}

/// The end within a limit is an end, and is within the limit.
pub proof fn lemma_back_within(s: Seq<char>, n: nat)
    ensures
        crate::text::ends(s, back_within(s, n)),
        byte_len(back_within(s, n)) <= n,
    decreases s.len(),
{
    let a = back_within(s, n);
    if s.len() == 0 || width(s.last()) > n {
        assert(byte_len(a) == 0);
        assert(s.subrange(s.len() as int, s.len() as int) =~= a);
    } else {
        let t = s.drop_last();
        let b = back_within(t, (n - width(s.last())) as nat);
        lemma_back_within(t, (n - width(s.last())) as nat);
        assert(a.drop_last() =~= b);
        lemma_bytes_last(a);
        assert(s.subrange(s.len() - a.len(), s.len() as int) =~= a) by {
            let u = t.subrange(t.len() - b.len(), t.len() as int);
            assert(u == b);
            assert forall|i: int| 0 <= i < a.len() implies s.subrange(
                s.len() - a.len(),
                s.len() as int,
            )[i] == a[i] by {
                if i < b.len() {
                    assert(u[i] == b[i]);
                }
            }
        }
    }
}

/// A text that is cut down keeps its beginning and its end, and both stay within their
/// limits.
pub proof fn law_cap_keeps_ends(s: Seq<char>, front: nat, back: nat)
    requires
        byte_len(s) > front + back,
    ensures
        text::begins(s, front_within(s, front)),
        crate::text::ends(s, back_within(s, back)),
        byte_len(front_within(s, front)) + byte_len(back_within(s, back)) <= front + back,
{
    lemma_front_within(s, front);
    lemma_back_within(s, back);
}

fn char_width(c: char) -> (r: usize)
    ensures
        r == width(c),
{
    proof {
        lemma_width(c);
    }
    let u: u32 = c as u32;
    if u <= 0x7f {
        1
    } else if u <= 0x7ff {
        2
    } else if u <= 0xffff {
        3
    } else {
        4
    }
}

/// A text cut down in its middle to at most `head_b` bytes before and `tail_b` bytes behind
/// the note on what was left out.
pub fn cap_md_bytes(md: &str, head_b: usize, tail_b: usize) -> (r: String)
    requires
        head_b + tail_b <= usize::MAX,
    ensures
        r@ == capped(md@, head_b as nat, tail_b as nat),
{
    let total: usize = md.as_bytes().len();
    if total <= head_b + tail_b {
        return md.to_owned();
    }
    let v = chars_of(md);
    let mut i: usize = 0;
    let mut a: usize = 0;
    assert(v@.subrange(0, v@.len() as int) =~= v@);
    assert(front_within(v@, head_b as nat) =~= v@.subrange(0, 0) + front_within(v@, head_b as nat));
    assert(byte_len(v@.subrange(0, 0)) == 0);
    while i < v.len() && char_width(v[i]) <= head_b - a
        invariant
            i <= v@.len(),
            a <= head_b,
            a == byte_len(v@.subrange(0, i as int)),
            front_within(v@, head_b as nat) =~= v@.subrange(0, i as int) + front_within(
                v@.subrange(i as int, v@.len() as int),
                (head_b - a) as nat,
            ),
        decreases v@.len() - i,
    {
        proof {
            let rest = v@.subrange(i as int, v@.len() as int);
            assert(rest.drop_first() =~= v@.subrange(i + 1, v@.len() as int));
            assert(rest[0] == v@[i as int]);
            let now = v@.subrange(0, i + 1);
            lemma_bytes_last(now);
            assert(now.drop_last() =~= v@.subrange(0, i as int));
        }
        a += char_width(v[i]);
        i += 1;
    }
    let front = piece(&v, 0, i);
    assert(front_within(
        v@.subrange(i as int, v@.len() as int),
        (head_b - a) as nat,
    ) =~= Seq::empty());
    assert(front@ =~= front_within(v@, head_b as nat));
    let mut k: usize = v.len();
    let mut b: usize = 0;
    assert(v@.subrange(v@.len() as int, v@.len() as int) =~= Seq::empty());
    assert(back_within(v@, tail_b as nat) =~= back_within(v@, tail_b as nat) + v@.subrange(
        v@.len() as int,
        v@.len() as int,
    ));
    while k > 0 && char_width(v[k - 1]) <= tail_b - b
        invariant
            k <= v@.len(),
            b <= tail_b,
            b == byte_len(v@.subrange(k as int, v@.len() as int)),
            back_within(v@, tail_b as nat) =~= back_within(
                v@.subrange(0, k as int),
                (tail_b - b) as nat,
            ) + v@.subrange(k as int, v@.len() as int),
        decreases k,
    {
        proof {
            let rest = v@.subrange(0, k as int);
            assert(rest.drop_last() =~= v@.subrange(0, k - 1));
            assert(rest.last() == v@[k - 1]);
            let now = v@.subrange(k - 1, v@.len() as int);
            lemma_bytes_first(now);
            assert(now.drop_first() =~= v@.subrange(k as int, v@.len() as int));
        }
        b += char_width(v[k - 1]);
        k -= 1;
    }
    let back = piece(&v, k, v.len());
    assert(back_within(v@.subrange(0, k as int), (tail_b - b) as nat) =~= Seq::empty());
    assert(back@ =~= back_within(v@, tail_b as nat));
    let omitted: usize = total - a - b;
    let note = cat3("\n\n…（已截断中段 ", dec_usize(omitted).as_str(), " 字节）…\n\n");
    cat3(front.as_str(), note.as_str(), back.as_str())
}

proof fn lemma_front_longest(s: Seq<char>, n: nat)
    ensures
        ({
            let a = front_within(s, n);
            a.len() < s.len() ==> byte_len(a) + width(s[a.len() as int]) > n
        }),
    decreases s.len(),
{
    let a = front_within(s, n);
    if s.len() > 0 && width(s[0]) <= n {
        let t = s.drop_first();
        lemma_front_longest(t, (n - width(s[0])) as nat);
        let b = front_within(t, (n - width(s[0])) as nat);
        assert(a.drop_first() =~= b);
        lemma_bytes_first(a);
        if a.len() < s.len() {
            assert(t[b.len() as int] == s[a.len() as int]);
        }
    } else {
        assert(byte_len(a) == 0);
    }
}

proof fn lemma_back_longest(s: Seq<char>, n: nat)
    ensures
        ({
            let a = back_within(s, n);
            a.len() < s.len() ==> byte_len(a) + width(s[s.len() - 1 - a.len()]) > n
        }),
    decreases s.len(),
{
    let a = back_within(s, n);
    if s.len() > 0 && width(s.last()) <= n {
        let t = s.drop_last();
        lemma_back_longest(t, (n - width(s.last())) as nat);
        let b = back_within(t, (n - width(s.last())) as nat);
        lemma_back_within(t, (n - width(s.last())) as nat);
        assert(a.drop_last() =~= b);
        lemma_bytes_last(a);
        if a.len() < s.len() {
            assert(t[t.len() - 1 - b.len()] == s[s.len() - 1 - a.len()]);
        }
    } else {
        assert(byte_len(a) == 0);
    }
}

/// Of a text that is cut down as much is kept at each end as fits: one character more, and the
/// limit would be exceeded.
pub proof fn law_cap_keeps_what_fits(s: Seq<char>, front: nat, back: nat)
    requires
        byte_len(s) > front + back,
    ensures
        front_within(s, front).len() < s.len() ==> byte_len(front_within(s, front)) + width(
            s[front_within(s, front).len() as int],
        ) > front,
        back_within(s, back).len() < s.len() ==> byte_len(back_within(s, back)) + width(
            s[s.len() - 1 - back_within(s, back).len()],
        ) > back,
        capped(s, front, back) == front_within(s, front) + cap_note(
            byte_len(s) - byte_len(front_within(s, front)) - byte_len(back_within(s, back)),
        ) + back_within(s, back),
{
    lemma_front_longest(s, front);
    lemma_back_longest(s, back);
}

/// A text that is too long, cut off behind `n` characters and marked as such.
pub open spec fn shortened(s: Seq<char>, n: nat) -> Seq<char> {
    if s.len() <= n {
        s
    } else {
        text::head(s, n) + "…"@
    }
}

/// A text that is too long, cut off behind `n` characters and marked as such.
pub fn truncate_chars(s: &str, n: usize) -> (r: String)
    ensures
        r@ == shortened(s@, n as nat),
{
    if crate::text::char_count(s) <= n {
        s.to_owned()
    } else {
        cat2(str_head(s, n).as_str(), "…")
    }
}

/// At most the first `n` characters of a text.
pub fn truncate_str(s: &str, n: usize) -> (r: String)
    ensures
        r@ == text::head(s@, n as nat),
{
    str_head(s, n)
}

// ---------------------------------------------------------------------------
// Markup
// ---------------------------------------------------------------------------

/// What follows in a line, inside a piece of code between back quotes or not: code is kept,
/// and outside code every `<` gets a backslash. Nothing else changes.
pub open spec fn escape_from(s: Seq<char>, code: bool) -> Seq<char>
    decreases s.len(),
{
    if s.len() == 0 {
        Seq::empty()
    } else {
        (if s[0] == '<' && !code {
            seq!['\\', '<']
        } else {
            seq![s[0]]
        }) + escape_from(s.drop_first(), code != (s[0] == '`'))
    }
}

/// A line in which every `<` outside code has a backslash.
pub open spec fn escape_line(line: Seq<char>) -> Seq<char> {
    escape_from(line, false)
}

/// Whether a line opens or closes a block of code.
pub open spec fn is_fence(line: Seq<char>) -> bool {
    text::begins(text::trim_start(line), "```"@) || text::begins(text::trim_start(line), "~~~"@)
}

/// Lines in which every `<` outside code has a backslash.
pub open spec fn escape_lines(lines: Seq<Seq<char>>, in_block: bool) -> Seq<Seq<char>>
    decreases lines.len(),
{
    if lines.len() == 0 {
        Seq::empty()
    } else if is_fence(lines[0]) {
        seq![lines[0]] + escape_lines(lines.drop_first(), !in_block)
    } else if in_block {
        seq![lines[0]] + escape_lines(lines.drop_first(), in_block)
    } else {
        seq![escape_line(lines[0])] + escape_lines(lines.drop_first(), in_block)
    }
}

/// A text in which every `<` outside code has a backslash, so that no text can smuggle in a
/// tag of the card's markup.
pub open spec fn escaped(text: Seq<char>) -> Seq<char> {
    text::join(escape_lines(text::split(text, '\n'), false), "\n"@)
}

/// A line in which every `<` outside code has a backslash.
pub fn escape_lt_inline(line: &str) -> (r: String)
    ensures
        r@ == escape_line(line@),
{
    let v = chars_of(line);
    let mut out = String::new();
    let mut code = false;
    let mut i: usize = 0;
    assert(v@.subrange(0, v@.len() as int) =~= v@);
    while i < v.len()
        invariant
            i <= v@.len(),
            escape_from(v@, false) =~= out@ + escape_from(
                v@.subrange(i as int, v@.len() as int),
                code,
            ),
        decreases v@.len() - i,
    {
        let c = v[i];
        let ghost rest = v@.subrange(i as int, v@.len() as int);
        assert(rest.drop_first() =~= v@.subrange(i + 1, v@.len() as int));
        if c == '<' && !code {
            out.push('\\');
        }
        out.push(c);
        if c == '`' {
            code = !code;
        }
        i += 1;
    }
    assert(escape_from(v@.subrange(i as int, v@.len() as int), code) =~= Seq::empty());
    out
}

/// A text in which every `<` outside code has a backslash.
pub fn escape_lt(text: &str) -> (r: String)
    ensures
        r@ == escaped(text@),
{
    let lines = str_split(text, '\n');
    let ghost all = text::views(lines@);
    let mut out: Vec<String> = Vec::new();
    let mut in_block = false;
    let mut i: usize = 0;
    assert(all.subrange(0, all.len() as int) =~= all);
    assert(escape_lines(all, false) =~= text::views(out@) + escape_lines(all, false));
    while i < lines.len()
        invariant
            i <= lines@.len(),
            all == text::views(lines@),
            escape_lines(all, false) =~= text::views(out@) + escape_lines(
                all.subrange(i as int, all.len() as int),
                in_block,
            ),
        decreases lines@.len() - i,
    {
        let ghost rest = all.subrange(i as int, all.len() as int);
        let ghost before = out@;
        assert(rest.drop_first() =~= all.subrange(i + 1, all.len() as int));
        assert(rest[0] == lines@[i as int]@);
        let start = str_trim_start(lines[i].as_str());
        if str_begins(start.as_str(), "```") || str_begins(start.as_str(), "~~~") {
            in_block = !in_block;
            out.push(lines[i].clone());
        } else if in_block {
            out.push(lines[i].clone());
        } else {
            out.push(escape_lt_inline(lines[i].as_str()));
        }
        assert(text::views(out@) =~= text::views(before).push(out@.last()@));
        i += 1;
    }
    assert(escape_lines(all.subrange(i as int, all.len() as int), in_block) =~= Seq::empty());
    assert(text::views(out@) =~= escape_lines(all, false));
    str_join(&out, "\n")
}

/// Whether every `<` has a backslash before it.
pub open spec fn no_bare_lt(s: Seq<char>) -> bool {
    forall|i: int| 0 <= i < s.len() && #[trigger] s[i] == '<' ==> i > 0 && s[i - 1] == '\\'
}

proof fn lemma_escaped_outside_code(s: Seq<char>)
    requires
        !s.contains('`'),
    ensures
        no_bare_lt(escape_from(s, false)),
    decreases s.len(),
{
    if s.len() > 0 {
        let t = s.drop_first();
        assert(s.contains(s[0]));
        assert(!t.contains('`')) by {
            if t.contains('`') {
                let i = choose|i: int| 0 <= i < t.len() && t[i] == '`';
                assert(s[i + 1] == '`');
            }
        }
        lemma_escaped_outside_code(t);
        let r = escape_from(s, false);
        let u = escape_from(t, false);
        let n = r.len() - u.len();
        assert forall|i: int| 0 <= i < r.len() && #[trigger] r[i] == '<' implies i > 0
            && r[i - 1] == '\\' by {
            if i >= n {
                assert(u[i - n] == '<');
                assert(r[i - 1] == u[i - n - 1]);
            }
        }
    }
}

/// A line without code keeps no `<` that could open a tag.
pub proof fn law_escaped_line_has_no_tag(line: Seq<char>)
    requires
        !line.contains('`'),
    ensures
        no_bare_lt(escape_line(line)),
{
    lemma_escaped_outside_code(line);
}

proof fn lemma_kept_without_lt(s: Seq<char>, code: bool)
    requires
        !s.contains('<'),
    ensures
        escape_from(s, code) == s,
    decreases s.len(),
{
    if s.len() > 0 {
        let t = s.drop_first();
        assert(s.contains(s[0]));
        assert(!t.contains('<')) by {
            if t.contains('<') {
                let i = choose|i: int| 0 <= i < t.len() && t[i] == '<';
                assert(s[i + 1] == '<');
            }
        }
        lemma_kept_without_lt(t, code != (s[0] == '`'));
        assert(escape_from(s, code) =~= s);
    } else {
        assert(escape_from(s, code) =~= s);
    }
}

/// Only `<` is rewritten: a line without one comes back as it was, whether its back quotes
/// come in pairs or not.
pub proof fn law_only_lt_is_rewritten(line: Seq<char>)
    requires
        !line.contains('<'),
    ensures
        escape_line(line) == line,
{
    lemma_kept_without_lt(line, false);
}

/// A block of code is kept as it is.
pub proof fn law_code_block_kept(lines: Seq<Seq<char>>)
    requires
        forall|i: int| 0 <= i < lines.len() ==> !is_fence(#[trigger] lines[i]),
    ensures
        escape_lines(lines, true) == lines,
    decreases lines.len(),
{
    if lines.len() > 0 {
        let rest = lines.drop_first();
        assert forall|i: int| 0 <= i < rest.len() implies !is_fence(#[trigger] rest[i]) by {
            assert(!is_fence(lines[i + 1]));
        }
        assert(!is_fence(lines[0]));
        law_code_block_kept(rest);
        assert(escape_lines(lines, true) =~= lines);
    } else {
        assert(escape_lines(lines, true) =~= lines);
    }
}

// ---------------------------------------------------------------------------
// Mail addresses
// ---------------------------------------------------------------------------

/// A mail address: what stands before the `@`, and a domain name with at least one dot.
pub const EMAIL_PATTERN: &'static str = "([A-Za-z0-9._%+-]+)@((?:[A-Za-z0-9-]+\\.)+[A-Za-z]{2,})";

/// What stands in place of a mail address.
pub const EMAIL_MASK: &'static str = "$1[at]$2";

/// A text in which `regex` has replaced every match of a pattern; `None` where the pattern
/// is not one.
pub uninterp spec fn regex_replaced(pattern: Seq<char>, s: Seq<char>, by: Seq<char>) -> Option<
    Seq<char>,
>;

/// `Regex::new` and `Regex::replace_all`: every match of a pattern replaced; `None` where the
/// pattern is not one.
#[verifier::external_body]
fn regex_replace_all(pattern: &str, s: &str, by: &str) -> (r: Option<String>)
    ensures
        text::oview(r) == regex_replaced(pattern@, s@, by@),
{
    regex::Regex::new(pattern).ok().map(|re| re.replace_all(s, by).into_owned())
}

/// A text in which the `@` of every mail address is written `[at]`.
pub open spec fn masked(s: Seq<char>) -> Seq<char> {
    text::or_text(regex_replaced(EMAIL_PATTERN@, s, EMAIL_MASK@), s)
}

/// A text in which the `@` of every mail address is written `[at]`. The platform rejects
/// texts with bare addresses.
pub fn mask_emails(s: &str) -> (r: String)
    ensures
        r@ == masked(s@),
{
    match regex_replace_all(EMAIL_PATTERN, s, EMAIL_MASK) {
        Some(t) => t,
        None => s.to_owned(),
    }
}

} // verus!
