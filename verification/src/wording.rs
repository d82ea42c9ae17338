//! What becomes of words on their way: how texts are taken apart and put together, cut down,
//! and made fit for a card.
use vstd::prelude::*;

use crate::dedup;
use crate::digits;
use crate::markdown;
use crate::text;

verus! {

// ---------------------------------------------------------------------------
// Taking apart and putting together
// ---------------------------------------------------------------------------

/// A text that is put before others is put together with them from the front.
pub proof fn lemma_join_front(a: Seq<char>, rest: Seq<Seq<char>>, sep: Seq<char>)
    requires
        rest.len() > 0,
    ensures
        text::join(seq![a] + rest, sep) == a + sep + text::join(rest, sep),
    decreases rest.len(),
{
    let all = seq![a] + rest;
    assert(all.drop_last() =~= seq![a] + rest.drop_last());
    assert(all.last() == rest.last());
    if rest.len() > 1 {
        lemma_join_front(a, rest.drop_last(), sep);
        assert(text::join(all, sep) =~= a + sep + (text::join(rest.drop_last(), sep) + sep + rest.last()));
    } else {
        assert(rest.drop_last() =~= Seq::<Seq<char>>::empty());
        assert(all.drop_last() =~= seq![a]);
        assert(text::join(seq![a], sep) == a);
        assert(text::join(rest, sep) == rest[0]);
    }
}

/// The pieces between the occurrences of a character, put together with it again, are the
/// text; and the character is in none of them.
pub proof fn law_pieces_make_the_text(s: Seq<char>, c: char)
    ensures
        text::split(s, c).len() > 0,
        text::join(text::split(s, c), seq![c]) == s,
        forall|i: int| 0 <= i < text::split(s, c).len() ==> !(#[trigger] text::split(s, c)[i]).contains(c),
    decreases s.len(),
{
    text::lemma_position(s, c);
    let i = text::position(s, c);
    let all = text::split(s, c);
    if i >= s.len() {
        assert(text::join(all, seq![c]) == s);
        if s.contains(c) {
            let k = choose|k: int| 0 <= k < s.len() && s[k] == c;
            assert(s[k] != c);
        }
    } else {
        let a = s.subrange(0, i);
        let b = s.subrange(i + 1, s.len() as int);
        law_pieces_make_the_text(b, c);
        lemma_join_front(a, text::split(b, c), seq![c]);
        assert(a + seq![c] + b =~= s);
        assert forall|k: int| 0 <= k < all.len() implies !(#[trigger] all[k]).contains(c) by {
            if k == 0 {
                if a.contains(c) {
                    let m = choose|m: int| 0 <= m < a.len() && a[m] == c;
                    assert(s[m] != c);
                }
            } else {
                assert(all[k] == text::split(b, c)[k - 1]);
            }
        }
    }
}

/// What is cut off at both ends of a text is white space, and all that is there.
pub proof fn law_trimmed_at_both_ends(s: Seq<char>)
    ensures
        exists|i: int, j: int|
            0 <= i <= j <= s.len() && text::trim(s) == #[trigger] s.subrange(i, j) && (forall|k: int|
                0 <= k < i || j <= k < s.len() ==> text::is_ws(#[trigger] s[k])) && (i < j
                ==> !text::is_ws(s[i]) && !text::is_ws(s[j - 1])),
{
    let i = first_dark(s);
    lemma_first_dark(s);
    text::lemma_trim_start_at(s, i);
    let t = s.subrange(i, s.len() as int);
    let j = last_dark(t);
    lemma_last_dark(t);
    text::lemma_trim_end_at(t, j);
    assert(t.subrange(0, j) =~= s.subrange(i, i + j));
    assert forall|k: int| 0 <= k < i || i + j <= k < s.len() implies text::is_ws(#[trigger] s[k]) by {
        if k >= i + j {
            assert(t[k - i] == s[k]);
        }
    }
    if j > 0 {
        assert(t[j - 1] == s[i + j - 1]);
        if i < s.len() {
            assert(t[0] == s[i]);
        }
    }
}

/// Where the first character stands that is no white space.
spec fn first_dark(s: Seq<char>) -> int
    decreases s.len(),
{
    if s.len() > 0 && text::is_ws(s[0]) {
        1 + first_dark(s.drop_first())
    } else {
        0
    }
}

proof fn lemma_first_dark(s: Seq<char>)
    ensures
        0 <= first_dark(s) <= s.len(),
        forall|k: int| 0 <= k < first_dark(s) ==> text::is_ws(#[trigger] s[k]),
        first_dark(s) < s.len() ==> !text::is_ws(s[first_dark(s)]),
    decreases s.len(),
{
    if s.len() > 0 && text::is_ws(s[0]) {
        let t = s.drop_first();
        lemma_first_dark(t);
        assert forall|k: int| 0 <= k < first_dark(s) implies text::is_ws(#[trigger] s[k]) by {
            if k > 0 {
                assert(t[k - 1] == s[k]);
            }
        }
    }
}

/// Where the white space at the end begins.
spec fn last_dark(s: Seq<char>) -> int
    decreases s.len(),
{
    if s.len() > 0 && text::is_ws(s.last()) {
        last_dark(s.drop_last())
    } else {
        s.len() as int
    }
}

proof fn lemma_last_dark(s: Seq<char>)
    ensures
        0 <= last_dark(s) <= s.len(),
        forall|k: int| last_dark(s) <= k < s.len() ==> text::is_ws(#[trigger] s[k]),
        last_dark(s) > 0 ==> !text::is_ws(s[last_dark(s) - 1]),
    decreases s.len(),
{
    if s.len() > 0 && text::is_ws(s.last()) {
        let t = s.drop_last();
        lemma_last_dark(t);
        assert forall|k: int| last_dark(s) <= k < s.len() implies text::is_ws(#[trigger] s[k]) by {
            if k < s.len() - 1 {
                assert(t[k] == s[k]);
            }
        }
    }
}

/// The lines of a text are what stands between its line feeds, in order.
pub proof fn law_lines_in_order(line: Seq<char>, rest: Seq<char>)
    requires
        !line.contains('\n'),
        line.len() > 0 ==> line.last() != '\r',
    ensures
        line.len() > 0 ==> text::lines(line) == seq![line],
        text::lines(line + seq!['\n'] + rest) == seq![line] + text::lines(rest),
        text::lines(line + seq!['\r', '\n'] + rest) == seq![line] + text::lines(rest),
{
    reveal_strlit("\r");
    assert("\r"@ =~= seq!['\r']);
    text::lemma_position(line, '\n');
    if text::position(line, '\n') < line.len() {
        assert(line.contains(line[text::position(line, '\n')]));
    }
    assert(text::split(line, '\n') == seq![line]);
    if line.len() > 0 {
        assert(text::lines(line) =~= seq![line]);
    }
    let a = line + seq!['\n'] + rest;
    lemma_first_line(line, rest);
    let more = text::split(rest, '\n');
    law_pieces_make_the_text(rest, '\n');
    assert(text::before_suffix(line, "\r"@) is None) by {
        if line.len() > 0 {
            assert(line.subrange(line.len() - 1, line.len() as int) =~= seq![line.last()]);
            if text::ends(line, "\r"@) {
                assert(seq![line.last()][0] == seq!['\r'][0]);
            }
        }
    }
    assert(text::lines(a) =~= seq![line] + text::lines(rest)) by {
        let all = text::split(a, '\n');
        assert(all == seq![line] + more);
        assert(all.last() == more.last());
    }
    let longer = line.push('\r');
    let b = line + seq!['\r', '\n'] + rest;
    assert(b =~= longer + seq!['\n'] + rest);
    assert(!longer.contains('\n')) by {
        if longer.contains('\n') {
            let k = choose|k: int| 0 <= k < longer.len() && longer[k] == '\n';
            if k < line.len() {
                assert(line[k] == '\n');
            }
        }
    }
    lemma_first_line(longer, rest);
    assert(text::before_suffix(longer, "\r"@) == Some(line)) by {
        assert(longer.subrange(longer.len() - 1, longer.len() as int) =~= seq!['\r']);
        assert(longer.subrange(0, longer.len() - 1) =~= line);
    }
    assert(text::lines(b) =~= seq![line] + text::lines(rest)) by {
        let all = text::split(b, '\n');
        assert(all == seq![longer] + more);
        assert(all.last() == more.last());
    }
}

proof fn lemma_first_line(line: Seq<char>, rest: Seq<char>)
    requires
        !line.contains('\n'),
    ensures
        text::split(line + seq!['\n'] + rest, '\n') == seq![line] + text::split(rest, '\n'),
{
    let a = line + seq!['\n'] + rest;
    let n = line.len() as int;
    assert forall|k: int| 0 <= k < n implies #[trigger] a[k] != '\n' by {
        assert(a[k] == line[k]);
        assert(line.contains(line[k]));
    }
    text::lemma_position_at(a, '\n', n);
    assert(a.subrange(0, n) =~= line);
    assert(a.subrange(n + 1, a.len() as int) =~= rest);
}

// ---------------------------------------------------------------------------
// Cutting down
// ---------------------------------------------------------------------------

/// A text that is short enough is kept as it is; of one that is too long, the first characters
/// are kept, and a mark says that there was more.
pub proof fn law_shortened(s: Seq<char>, n: nat)
    ensures
        s.len() <= n ==> markdown::shortened(s, n) == s,
        s.len() > n ==> markdown::shortened(s, n) == s.subrange(0, n as int) + "…"@,
{
}

/// A text that fits is kept as it is. Of one that does not, the beginning and the end are kept,
/// and between them it is told how many bytes were left out.
pub proof fn law_capped(s: Seq<char>, front: nat, back: nat)
    ensures
        markdown::byte_len(s) <= front + back ==> markdown::capped(s, front, back) == s,
        markdown::byte_len(s) > front + back ==> exists|a: Seq<char>, b: Seq<char>|
            #![trigger a + b]
            text::begins(s, a) && text::ends(s, b) && markdown::byte_len(a) + markdown::byte_len(b)
                <= front + back && markdown::capped(s, front, back) == a + ("\n\n…（已截断中段 "@
                + digits::dec(markdown::byte_len(s) - markdown::byte_len(a) - markdown::byte_len(b))
                + " 字节）…\n\n"@) + b,
{
    if markdown::byte_len(s) > front + back {
        markdown::law_cap_keeps_ends(s, front, back);
        let a = markdown::front_within(s, front);
        let b = markdown::back_within(s, back);
        let both = a + b;
        assert(text::begins(s, a) && text::ends(s, b));
    }
}

/// Mail addresses are masked by the one pattern, each by its own parts.
pub proof fn law_addresses_are_masked(s: Seq<char>, t: Seq<char>)
    requires
        markdown::regex_replaced(
            "([A-Za-z0-9._%+-]+)@((?:[A-Za-z0-9-]+\\.)+[A-Za-z]{2,})"@,
            s,
            "$1[at]$2"@,
        ) == Some(t),
    ensures
        markdown::masked(s) == t,
{
}

// ---------------------------------------------------------------------------
// Making fit for a card
// ---------------------------------------------------------------------------

proof fn lemma_lines_kept(lines: Seq<Seq<char>>, in_block: bool)
    requires
        forall|i: int| 0 <= i < lines.len() ==> !(#[trigger] lines[i]).contains('<'),
    ensures
        markdown::escape_lines(lines, in_block) == lines,
    decreases lines.len(),
{
    if lines.len() > 0 {
        let rest = lines.drop_first();
        assert forall|i: int| 0 <= i < rest.len() implies !(#[trigger] rest[i]).contains('<') by {
            assert(rest[i] == lines[i + 1]);
        }
        lemma_lines_kept(rest, !in_block);
        lemma_lines_kept(rest, in_block);
        markdown::law_only_lt_is_rewritten(lines[0]);
        assert(seq![lines[0]] + rest =~= lines);
    }
}

proof fn lemma_piece_within(parts: Seq<Seq<char>>, c: char, x: char, i: int)
    requires
        0 <= i < parts.len(),
        parts[i].contains(x),
    ensures
        text::join(parts, seq![c]).contains(x),
    decreases parts.len(),
{
    let all = text::join(parts, seq![c]);
    let k = choose|k: int| 0 <= k < parts[i].len() && parts[i][k] == x;
    if parts.len() == 1 {
        assert(all[k] == x);
    } else {
        let before = text::join(parts.drop_last(), seq![c]);
        if i == parts.len() - 1 {
            assert(all[before.len() + 1 + k] == x);
        } else {
            lemma_piece_within(parts.drop_last(), c, x, i);
            let m = choose|m: int| 0 <= m < before.len() && before[m] == x;
            assert(all[m] == x);
        }
    }
}

/// A text without a `<` comes back word for word from being made fit for a card.
pub proof fn law_plain_text_is_kept(s: Seq<char>)
    requires
        !s.contains('<'),
    ensures
        markdown::escaped(s) == s,
{
    law_pieces_make_the_text(s, '\n');
    let lines = text::split(s, '\n');
    reveal_strlit("\n");
    assert("\n"@ =~= seq!['\n']);
    assert forall|i: int| 0 <= i < lines.len() implies !(#[trigger] lines[i]).contains('<') by {
        if lines[i].contains('<') {
            lemma_piece_within(lines, '\n', '<', i);
        }
    }
    lemma_lines_kept(lines, false);
}

proof fn lemma_lines_escaped(lines: Seq<Seq<char>>)
    requires
        forall|i: int|
            0 <= i < lines.len() ==> !(#[trigger] lines[i]).contains('`') && !lines[i].contains('~'),
    ensures
        markdown::escape_lines(lines, false).len() == lines.len(),
        forall|i: int|
            0 <= i < lines.len() ==> markdown::no_bare_lt(#[trigger] markdown::escape_lines(lines, false)[i]),
    decreases lines.len(),
{
    if lines.len() > 0 {
        let rest = lines.drop_first();
        assert forall|i: int| 0 <= i < rest.len() implies !(#[trigger] rest[i]).contains('`')
            && !rest[i].contains('~') by {
            assert(rest[i] == lines[i + 1]);
        }
        lemma_lines_escaped(rest);
        markdown::law_escaped_line_has_no_tag(lines[0]);
        lemma_no_fence(lines[0]);
        let all = markdown::escape_lines(lines, false);
        assert forall|i: int| 0 <= i < lines.len() implies markdown::no_bare_lt(#[trigger] all[i]) by {
            if i > 0 {
                assert(all[i] == markdown::escape_lines(rest, false)[i - 1]);
            }
        }
    }
}

proof fn lemma_no_fence(line: Seq<char>)
    requires
        !line.contains('`'),
        !line.contains('~'),
    ensures
        !markdown::is_fence(line),
{
    reveal_strlit("```");
    reveal_strlit("~~~");
    let i = first_dark(line);
    lemma_first_dark(line);
    text::lemma_trim_start_at(line, i);
    let t = text::trim_start(line);
    if text::begins(t, "```"@) {
        assert(t.subrange(0, 3)[0] == '`');
        assert(line[i] == '`');
    }
    if text::begins(t, "~~~"@) {
        assert(t.subrange(0, 3)[0] == '~');
        assert(line[i] == '~');
    }
}

proof fn lemma_joined_no_lt(parts: Seq<Seq<char>>)
    requires
        forall|i: int| 0 <= i < parts.len() ==> markdown::no_bare_lt(#[trigger] parts[i]),
    ensures
        markdown::no_bare_lt(text::join(parts, seq!['\n'])),
    decreases parts.len(),
{
    if parts.len() == 1 {
        assert(markdown::no_bare_lt(parts[0]));
    }
    if parts.len() > 1 {
        let before = text::join(parts.drop_last(), seq!['\n']);
        lemma_joined_no_lt(parts.drop_last());
        let last = parts[parts.len() - 1];
        assert(markdown::no_bare_lt(last));
        let all = text::join(parts, seq!['\n']);
        assert(all == before + seq!['\n'] + last);
        assert forall|k: int| 0 <= k < all.len() && #[trigger] all[k] == '<' implies k > 0 && all[k - 1]
            == '\\' by {
            if k < before.len() {
                assert(before[k] == '<');
            } else if k > before.len() {
                assert(last[k - before.len() - 1] == '<');
            }
        }
    }
}

/// A text without code cannot bring a tag onto a card: every `<` in it gets a backslash.
pub proof fn law_no_tag_gets_onto_a_card(s: Seq<char>)
    requires
        !s.contains('`'),
        !s.contains('~'),
    ensures
        markdown::no_bare_lt(markdown::escaped(s)),
{
    law_pieces_make_the_text(s, '\n');
    let lines = text::split(s, '\n');
    reveal_strlit("\n");
    assert("\n"@ =~= seq!['\n']);
    assert forall|i: int| 0 <= i < lines.len() implies !(#[trigger] lines[i]).contains('`')
        && !lines[i].contains('~') by {
        if lines[i].contains('`') {
            lemma_piece_within(lines, '\n', '`', i);
        }
        if lines[i].contains('~') {
            lemma_piece_within(lines, '\n', '~', i);
        }
    }
    lemma_lines_escaped(lines);
    lemma_joined_no_lt(markdown::escape_lines(lines, false));
}

/// A number is written with the digits that it has: what is written is read back as it was.
pub proof fn law_numbers_are_read_back(n: u32)
    ensures
        digits::parse_u32(digits::dec(n as int)) == Some(n),
        n < 10 ==> digits::dec2(n as nat) == seq!['0'] + digits::dec(n as int),
        n >= 10 ==> digits::dec2(n as nat) == digits::dec(n as int),
{
    digits::lemma_parse_dec(n);
}

/// The pieces between the occurrences of a separator, put together with it again, are the text.
pub proof fn law_blocks_make_the_text(s: Seq<char>, sep: Seq<char>)
    requires
        sep.len() > 0,
    ensures
        text::split_on(s, sep).len() > 0,
        text::join(text::split_on(s, sep), sep) == s,
    decreases s.len(),
{
    lemma_place(s, sep);
    let i = text::place(s, sep);
    if i + sep.len() <= s.len() {
        let a = s.subrange(0, i);
        let b = s.subrange(i + sep.len(), s.len() as int);
        law_blocks_make_the_text(b, sep);
        lemma_join_front(a, text::split_on(b, sep), sep);
        assert(s.subrange(i, i + sep.len()) == sep);
        assert(a + sep + b =~= s);
    }
}

proof fn lemma_place(s: Seq<char>, sub: Seq<char>)
    requires
        sub.len() > 0,
    ensures
        0 <= text::place(s, sub) <= s.len(),
        text::place(s, sub) + sub.len() <= s.len() ==> s.subrange(
            text::place(s, sub),
            text::place(s, sub) + sub.len(),
        ) == sub,
    decreases s.len(),
{
    if s.len() > 0 && !text::begins(s, sub) {
        let t = s.drop_first();
        lemma_place(t, sub);
        let i = text::place(t, sub);
        if i + sub.len() <= t.len() {
            assert(s.subrange(i + 1, i + 1 + sub.len()) =~= t.subrange(i, i + sub.len()));
        }
    }
}

/// Code between back quotes is kept as it is, whatever it holds.
pub proof fn law_code_is_kept(code: Seq<char>)
    requires
        !code.contains('`'),
    ensures
        markdown::escape_line(seq!['`'] + code + seq!['`']) == seq!['`'] + code + seq!['`'],
{
    let line = seq!['`'] + code + seq!['`'];
    let inner = code + seq!['`'];
    assert(line.drop_first() =~= inner);
    lemma_code_kept(code);
    assert(seq!['`'] + inner =~= line);
}

proof fn lemma_code_kept(code: Seq<char>)
    requires
        !code.contains('`'),
    ensures
        markdown::escape_from(code + seq!['`'], true) == code + seq!['`'],
    decreases code.len(),
{
    let s = code + seq!['`'];
    if code.len() == 0 {
        assert(s =~= seq!['`']);
        assert(s.drop_first() =~= Seq::<char>::empty());
        assert(markdown::escape_from(s.drop_first(), false) =~= Seq::<char>::empty());
        assert(markdown::escape_from(s, true) =~= s);
    } else {
        assert(s[0] == code[0]);
        assert(code.contains(code[0]));
        let rest = code.drop_first();
        assert(!rest.contains('`')) by {
            if rest.contains('`') {
                let k = choose|k: int| 0 <= k < rest.len() && rest[k] == '`';
                assert(code[k + 1] == '`');
            }
        }
        lemma_code_kept(rest);
        assert(s.drop_first() =~= rest + seq!['`']);
        assert(seq![s[0]] + s.drop_first() =~= s);
    }
}

/// A block of code is kept as it is, and what stands behind it is made fit again.
pub proof fn law_only_code_is_exempt(
    opening: Seq<char>,
    code: Seq<Seq<char>>,
    closing: Seq<char>,
    rest: Seq<Seq<char>>,
)
    requires
        markdown::is_fence(opening),
        markdown::is_fence(closing),
        forall|i: int| 0 <= i < code.len() ==> !markdown::is_fence(#[trigger] code[i]),
    ensures
        markdown::escape_lines(seq![opening] + code + seq![closing] + rest, false) == seq![opening] + code
            + seq![closing] + markdown::escape_lines(rest, false),
{
    let all = seq![opening] + code + seq![closing] + rest;
    let inner = code + (seq![closing] + rest);
    assert(all.drop_first() =~= inner);
    lemma_block(code, closing, rest);
    assert(markdown::escape_lines(all, false) =~= seq![opening] + code + seq![closing]
        + markdown::escape_lines(rest, false));
}

proof fn lemma_block(code: Seq<Seq<char>>, closing: Seq<char>, rest: Seq<Seq<char>>)
    requires
        markdown::is_fence(closing),
        forall|i: int| 0 <= i < code.len() ==> !markdown::is_fence(#[trigger] code[i]),
    ensures
        markdown::escape_lines(code + (seq![closing] + rest), true) == code + (seq![closing]
            + markdown::escape_lines(rest, false)),
    decreases code.len(),
{
    let s = code + (seq![closing] + rest);
    if code.len() == 0 {
        assert(s =~= seq![closing] + rest);
        assert(s.drop_first() =~= rest);
        assert(code + (seq![closing] + markdown::escape_lines(rest, false)) =~= seq![closing]
            + markdown::escape_lines(rest, false));
    } else {
        let more = code.drop_first();
        assert forall|i: int| 0 <= i < more.len() implies !markdown::is_fence(#[trigger] more[i]) by {
            assert(more[i] == code[i + 1]);
        }
        lemma_block(more, closing, rest);
        assert(s[0] == code[0]);
        assert(s.drop_first() =~= more + (seq![closing] + rest));
        assert(seq![code[0]] + (more + (seq![closing] + markdown::escape_lines(rest, false))) =~= code + (
        seq![closing] + markdown::escape_lines(rest, false)));
    }
}

/// What opens or closes a block of code is three back quotes or tildes, wherever in the line
/// they begin.
pub proof fn law_fences(line: Seq<char>)
    requires
        line.len() > 0,
        !text::is_ws(line[0]),
    ensures
        markdown::is_fence(line) <==> line.len() >= 3 && ((line[0] == '`' && line[1] == '`' && line[2]
            == '`') || (line[0] == '~' && line[1] == '~' && line[2] == '~')),
{
    reveal_strlit("```");
    reveal_strlit("~~~");
    assert(text::trim_start(line) == line);
    if line.len() >= 3 {
        let f = line.subrange(0, 3);
        assert(f[0] == line[0] && f[1] == line[1] && f[2] == line[2]);
        if line[0] == '`' && line[1] == '`' && line[2] == '`' {
            assert(f =~= "```"@);
        }
        if line[0] == '~' && line[1] == '~' && line[2] == '~' {
            assert(f =~= "~~~"@);
        }
    }
}

/// White space is what separates words: blanks, tabs, the ends of lines, and the wide blank of
/// Chinese and Japanese print. What can be seen is not.
pub proof fn law_white_space(c: char)
    ensures
        text::is_ws(' '),
        text::is_ws('\t'),
        text::is_ws('\n'),
        text::is_ws('\r'),
        text::is_ws('\u{a0}'),
        text::is_ws('\u{2003}'),
        text::is_ws('\u{3000}'),
        0x20 < (c as u32) < 0x7f ==> !text::is_ws(c),
        0x3001 <= (c as u32) ==> !text::is_ws(c),
{
}

/// The number that a run of hexadecimal digits stands for.
pub open spec fn hex_value(s: Seq<char>) -> nat
    decreases s.len(),
{
    if s.len() == 0 {
        0
    } else {
        let u = s.last() as u32;
        (hex_value(s.drop_last()) * 16 + if u < 58 {
            u - 48
        } else {
            u - 87
        }) as nat
    }
}

/// A number in hexadecimal is written with the digits and the letters from a to f, and stands
/// for the number it was written for.
pub proof fn law_hexadecimal(n: nat)
    ensures
        hex_value(digits::hex(n)) == n,
        forall|i: int|
            0 <= i < digits::hex(n).len() ==> {
                let u = (#[trigger] digits::hex(n)[i]) as u32;
                48 <= u <= 57 || 97 <= u <= 102
            },
    decreases n,
{
    let t = digits::hex(n);
    if n >= 16 {
        law_hexadecimal(n / 16);
        let front = digits::hex(n / 16);
        assert(t == front.push(digits::digit_char(n % 16)));
        assert(t.drop_last() =~= front);
        assert(t.last() == digits::digit_char(n % 16));
        assert forall|i: int| 0 <= i < t.len() implies {
            let u = (#[trigger] t[i]) as u32;
            48 <= u <= 57 || 97 <= u <= 102
        } by {
            if i < t.len() - 1 {
                assert(t[i] == front[i]);
            }
        }
    } else {
        assert(t.drop_last() =~= Seq::<char>::empty());
        assert(hex_value(t.drop_last()) == 0);
        assert(t.last() == digits::digit_char(n));
    }
}

/// What recognises a text is its hash, written in hexadecimal.
pub proof fn law_hash_in_hexadecimal(s: Seq<char>)
    ensures
        hex_value(dedup::hash_text(s)) == dedup::hash_of(s),
{
    law_hexadecimal(dedup::hash_of(s) as nat);
}

} // verus!
