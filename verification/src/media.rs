//! Files that come with messages: their names, and what is said of them.
use vstd::prelude::*;

use crate::digits;
use crate::digits::dec_u64;
use crate::text;
use crate::text::{cat2, cat3, cat4, chars_of, is_blank, piece, str_eq, str_trim};

verus! {

// ---------------------------------------------------------------------------
// Names
// ---------------------------------------------------------------------------

/// Where the last of some characters stands; -1 where none does.
pub open spec fn last_of(s: Seq<char>, a: char, b: char) -> int
    decreases s.len(),
{
    if s.len() == 0 {
        -1
    } else if s.last() == a || s.last() == b {
        s.len() - 1
    } else {
        last_of(s.drop_last(), a, b)
    }
}

/// What stands behind the last slash of either kind.
pub open spec fn behind_slash(s: Seq<char>) -> Seq<char> {
    s.subrange(last_of(s, '/', '\\') + 1, s.len() as int)
}

/// The name that the sender gave a file, without the directories in it.
pub open spec fn own_name(file_name: Option<Seq<char>>) -> Option<Seq<char>> {
    match file_name {
        Some(n) => text::nonempty(Some(text::trim(behind_slash(n)))),
        None => None,
    }
}

/// A picture's name with an extension: its own, or the usual one.
pub open spec fn picture_name(n: Seq<char>) -> Seq<char> {
    let dot = last_of(n, '.', '.');
    if dot < 0 {
        n + ".png"@
    } else if dot + 1 == n.len() {
        n.subrange(0, dot) + ".png"@
    } else {
        n
    }
}

/// The name under which a file is stored: the sender's, or else the platform's with the usual
/// extension. A picture always gets an extension.
pub open spec fn media_name(kind: Seq<char>, key: Seq<char>, file_name: Option<Seq<char>>) -> Seq<char> {
    match own_name(file_name) {
        Some(n) => if kind == "file"@ {
            n
        } else if kind == "image"@ {
            picture_name(n)
        } else {
            key + ".bin"@
        },
        None => if kind == "image"@ {
            key + ".png"@
        } else {
            key + ".bin"@
        },
    }
}

fn find_last(v: &Vec<char>, a: char, b: char) -> (r: Option<usize>)
    ensures
        r matches Some(i) ==> i < v@.len() && i == last_of(v@, a, b),
        r is None ==> last_of(v@, a, b) == -1,
{
    let mut i: usize = v.len();
    assert(v@.subrange(0, v@.len() as int) =~= v@);
    while i > 0
        invariant
            i <= v@.len(),
            last_of(v@, a, b) == last_of(v@.subrange(0, i as int), a, b),
        decreases i,
    {
        let ghost now = v@.subrange(0, i as int);
        assert(now.last() == v@[i - 1]);
        assert(now.drop_last() =~= v@.subrange(0, i - 1));
        if v[i - 1] == a || v[i - 1] == b {
            return Some(i - 1);
        }
        i -= 1;
    }
    None
}

fn read_own_name(file_name: Option<&str>) -> (r: Option<String>)
    ensures
        text::oview(r) == own_name(text::sview(file_name)),
{
    match file_name {
        Some(n) => {
            let v = chars_of(n);
            let size: usize = v.len();
            let from: usize = match find_last(&v, '/', '\\') {
                Some(i) => i + 1,
                None => 0,
            };
            let name = str_trim(piece(&v, from, size).as_str());
            if name.as_str().is_empty() {
                None
            } else {
                Some(name)
            }
        },
        None => None,
    }
}

fn name_picture(n: String) -> (r: String)
    ensures
        r@ == picture_name(n@),
{
    let v = chars_of(n.as_str());
    let size: usize = v.len();
    match find_last(&v, '.', '.') {
        Some(dot) => if dot + 1 == size {
            cat2(piece(&v, 0, dot).as_str(), ".png")
        } else {
            n
        },
        None => cat2(n.as_str(), ".png"),
    }
}

/// The name under which a file is stored, where no other has it.
pub fn stored_name(kind: &str, key: &str, file_name: Option<&str>) -> (r: String)
    ensures
        r@ == media_name(kind@, key@, text::sview(file_name)),
{
    match read_own_name(file_name) {
        Some(n) => if str_eq(kind, "file") {
            n
        } else if str_eq(kind, "image") {
            name_picture(n)
        } else {
            cat2(key, ".bin")
        },
        None => if str_eq(kind, "image") {
            cat2(key, ".png")
        } else {
            cat2(key, ".bin")
        },
    }
}

/// A name without its extension. A dot at the front begins no extension.
pub open spec fn stem(name: Seq<char>) -> Seq<char> {
    let dot = last_of(name, '.', '.');
    if name == "."@ || name == ".."@ {
        "media"@
    } else if dot <= 0 {
        name
    } else {
        name.subrange(0, dot)
    }
}

/// The extension of a name, with its dot.
pub open spec fn extension(name: Seq<char>) -> Seq<char> {
    let dot = last_of(name, '.', '.');
    if name == "."@ || name == ".."@ || dot <= 0 {
        Seq::empty()
    } else {
        name.subrange(dot, name.len() as int)
    }
}

/// What stands behind the last slash of a path.
pub open spec fn last_part(path: Seq<char>) -> Seq<char> {
    path.subrange(last_of(path, '/', '/') + 1, path.len() as int)
}

/// The name to try where others have been taken: the name itself, then its last part with
/// numbers.
pub open spec fn candidate(name: Seq<char>, i: int) -> Seq<char> {
    if i == 0 {
        name
    } else {
        stem(last_part(name)) + "-"@ + digits::dec(i) + extension(last_part(name))
    }
}

/// The name to try where others have been taken.
pub fn candidate_name(name: &str, i: u64) -> (r: String)
    ensures
        r@ == candidate(name@, i as int),
{
    if i == 0 {
        return name.to_owned();
    }
    let number = dec_u64(i);
    let all = chars_of(name);
    let from: usize = match find_last(&all, '/', '/') {
        Some(at) => at + 1,
        None => 0,
    };
    let part = piece(&all, from, all.len());
    let ghost want = candidate(name@, i as int);
    assert(part@ == last_part(name@));
    if str_eq(part.as_str(), ".") || str_eq(part.as_str(), "..") {
        let r = cat3("media", "-", number.as_str());
        assert(r@ =~= want);
        return r;
    }
    let v = chars_of(part.as_str());
    match find_last(&v, '.', '.') {
        Some(dot) => if dot > 0 {
            cat4(
                piece(&v, 0, dot).as_str(),
                "-",
                number.as_str(),
                piece(&v, dot, v.len()).as_str(),
            )
        } else {
            let r = cat3(part.as_str(), "-", number.as_str());
            assert(r@ =~= want);
            r
        },
        None => {
            let r = cat3(part.as_str(), "-", number.as_str());
            assert(r@ =~= want);
            r
        },
    }
}

/// The first name to try, from a given number on, that is not taken.
pub open spec fn free_from(name: Seq<char>, taken: Seq<Seq<char>>, i: nat) -> Seq<char>
    decreases taken.len() - i,
{
    if i >= taken.len() || !taken.contains(candidate(name, i as int)) {
        candidate(name, i as int)
    } else {
        free_from(name, taken, i + 1)
    }
}

/// The name under which a file is stored beside others: the first one to try that none of
/// them has.
pub open spec fn free_name(name: Seq<char>, taken: Seq<Seq<char>>) -> Seq<char> {
    free_from(name, taken, 0)
}

fn among(names: &[String], name: &str) -> (r: bool)
    ensures
        r == text::views(names@).contains(name@),
{
    let ghost all = text::views(names@);
    let mut i: usize = 0;
    while i < names.len()
        invariant
            i <= names@.len(),
            all == text::views(names@),
            forall|k: int| 0 <= k < i ==> #[trigger] all[k] != name@,
        decreases names@.len() - i,
    {
        assert(all[i as int] == names@[i as int]@);
        if str_eq(names[i].as_str(), name) {
            assert(all.contains(name@));
            return true;
        }
        i += 1;
    }
    false
}

/// The name under which a file is stored beside others, by the names that are taken.
pub fn first_free(name: &str, taken: &[String]) -> (r: String)
    ensures
        r@ == free_name(name@, text::views(taken@)),
        !text::views(taken@).contains(r@),
{
    let ghost all = text::views(taken@);
    proof {
        law_free_name_is_free(name@, all);
    }
    let mut i: usize = 0;
    while i < taken.len()
        invariant
            i <= taken@.len(),
            all == text::views(taken@),
            all.len() == taken@.len(),
            free_name(name@, all) == free_from(name@, all, i as nat),
            !all.contains(free_name(name@, all)),
        decreases taken@.len() - i,
    {
        let c = candidate_name(name, i as u64);
        if !among(taken, c.as_str()) {
            return c;
        }
        i += 1;
    }
    candidate_name(name, i as u64)
}

// ---------------------------------------------------------------------------
// What is said of them
// ---------------------------------------------------------------------------

/// What kept a file from being stored.
#[derive(Debug, Clone, Copy, PartialEq, Eq)]
pub enum MediaFault {
    /// There was no access token.
    Token,
    /// There was no new access token in place of one that was no longer good.
    FreshToken,
    /// It could not be fetched.
    Download,
    /// It could not be written.
    Store,
}

/// What kept a file from being stored, in words.
pub open spec fn fault_text(key: Seq<char>, fault: MediaFault, e: Seq<char>) -> Seq<char> {
    key + (match fault {
        MediaFault::Token => ": 取 token 失败: "@,
        MediaFault::FreshToken => ": 重取 token 失败: "@,
        MediaFault::Download => ": 下载失败: "@,
        MediaFault::Store => ": 落盘失败: "@,
    }) + e
}

/// What kept a file from being stored, in words.
pub fn media_fault(key: &str, fault: MediaFault, error: &str) -> (r: String)
    ensures
        r@ == fault_text(key@, fault, error@),
{
    let what = match fault {
        MediaFault::Token => ": 取 token 失败: ",
        MediaFault::FreshToken => ": 重取 token 失败: ",
        MediaFault::Download => ": 下载失败: ",
        MediaFault::Store => ": 落盘失败: ",
    };
    cat3(key, what, error)
}

/// What is said where voices are not written down.
pub const VOICE_OFF: &'static str = "语音转写已关闭（feishu_asr_enabled=false），请改发文字";

/// What is said where a voice could not be written down.
pub open spec fn voice_fault_text(error: Seq<char>) -> Seq<char> {
    "语音转写失败: "@ + error + "（可改发文字）"@
}

/// What is said where a voice could not be written down.
pub fn voice_fault(error: &str) -> (r: String)
    ensures
        r@ == voice_fault_text(error@),
{
    cat3("语音转写失败: ", error, "（可改发文字）")
}

/// The text of a message with what was said in it.
pub open spec fn with_voice(text: Option<Seq<char>>, said: Seq<char>) -> Seq<char> {
    match text {
        Some(t) => if text::blank(t) {
            "【语音】"@ + said
        } else {
            t + "\n\n"@ + ("【语音】"@ + said)
        },
        None => "【语音】"@ + said,
    }
}

/// The text of a message with what was said in it.
pub fn add_voice(text: Option<&str>, said: &str) -> (r: String)
    ensures
        r@ == with_voice(text::sview(text), said@),
{
    let voice = cat2("【语音】", said);
    match text {
        Some(t) => if is_blank(t) {
            voice
        } else {
            cat3(t, "\n\n", voice.as_str())
        },
        None => voice,
    }
}

// ---------------------------------------------------------------------------
// Laws
// ---------------------------------------------------------------------------

proof fn lemma_last_of(s: Seq<char>, a: char, b: char)
    ensures
        -1 <= last_of(s, a, b) < s.len() || s.len() == 0 && last_of(s, a, b) == -1,
        forall|j: int| last_of(s, a, b) < j < s.len() ==> #[trigger] s[j] != a && s[j] != b,
    decreases s.len(),
{
    if s.len() > 0 && s.last() != a && s.last() != b {
        let t = s.drop_last();
        lemma_last_of(t, a, b);
        assert forall|j: int| last_of(s, a, b) < j < s.len() implies #[trigger] s[j] != a && s[j]
            != b by {
            if j < t.len() {
                assert(t[j] == s[j]);
            }
        }
    }
}

/// Trimming leaves characters out and adds none.
proof fn lemma_trim_keeps(s: Seq<char>, c: char)
    requires
        forall|j: int| 0 <= j < s.len() ==> #[trigger] s[j] != c,
    ensures
        forall|j: int| 0 <= j < text::trim(s).len() ==> #[trigger] text::trim(s)[j] != c,
{
    lemma_trim_start_keeps(s, c);
    lemma_trim_end_keeps(crate::text::trim_start(s), c);
}

proof fn lemma_trim_start_keeps(s: Seq<char>, c: char)
    requires
        forall|j: int| 0 <= j < s.len() ==> #[trigger] s[j] != c,
    ensures
        forall|j: int|
            0 <= j < crate::text::trim_start(s).len() ==> #[trigger] crate::text::trim_start(s)[j]
                != c,
    decreases s.len(),
{
    let t = crate::text::trim_start(s);
    if s.len() > 0 && crate::text::is_ws(s[0]) {
        let d = s.drop_first();
        assert forall|j: int| 0 <= j < d.len() implies #[trigger] d[j] != c by {
            assert(d[j] == s[j + 1]);
        }
        lemma_trim_start_keeps(d, c);
        assert(t == crate::text::trim_start(d));
    } else {
        assert(t == s);
    }
}

proof fn lemma_trim_end_keeps(s: Seq<char>, c: char)
    requires
        forall|j: int| 0 <= j < s.len() ==> #[trigger] s[j] != c,
    ensures
        forall|j: int|
            0 <= j < crate::text::trim_end(s).len() ==> #[trigger] crate::text::trim_end(s)[j] != c,
    decreases s.len(),
{
    let t = crate::text::trim_end(s);
    if s.len() > 0 && crate::text::is_ws(s.last()) {
        let d = s.drop_last();
        assert forall|j: int| 0 <= j < d.len() implies #[trigger] d[j] != c by {
            assert(d[j] == s[j]);
        }
        lemma_trim_end_keeps(d, c);
        assert(t == crate::text::trim_end(d));
    } else {
        assert(t == s);
    }
}

/// A file keeps its sender's name, but the name never leads into another directory: whatever
/// the sender called it, there is no slash in it.
pub proof fn law_no_directories_in_own_name(file_name: Seq<char>)
    ensures
        own_name(Some(file_name)) matches Some(n) ==> forall|j: int|
            0 <= j < n.len() ==> #[trigger] n[j] != '/' && n[j] != '\\',
{
    lemma_last_of(file_name, '/', '\\');
    let b = behind_slash(file_name);
    assert forall|j: int| 0 <= j < b.len() implies #[trigger] b[j] != '/' && b[j] != '\\' by {
        assert(b[j] == file_name[last_of(file_name, '/', '\\') + 1 + j]);
    }
    lemma_trim_keeps(b, '/');
    lemma_trim_keeps(b, '\\');
}

/// The names to try are all different.
pub proof fn law_candidates_differ(name: Seq<char>, i: int, j: int)
    requires
        0 <= i < j,
    ensures
        candidate(name, i) != candidate(name, j),
{
    let part = last_part(name);
    let front = stem(part) + "-"@;
    let back = extension(part);
    let b = candidate(name, j);
    reveal_strlit("-");
    if i == 0 {
        lemma_last_of(part, '.', '.');
        lemma_last_of(name, '/', '/');
        reveal_strlit(".");
        reveal_strlit("..");
        reveal_strlit("media");
        let at = last_of(name, '/', '/');
        if at >= 0 && b == name {
            lemma_last_is(name, '/', '/');
            assert(!b.contains('/')) by {
                crate::digits::lemma_numeral_value(j as nat);
                assert forall|k: int| 0 <= k < part.len() implies #[trigger] part[k] != '/' by {
                    assert(part[k] == name[at + 1 + k]);
                }
                let n = digits::dec(j);
                assert forall|k: int| 0 <= k < b.len() implies #[trigger] b[k] != '/' by {
                    if k < stem(part).len() {
                        if part != "."@ && part != ".."@ {
                            assert(b[k] == part[k]);
                        }
                    } else if k < front.len() {
                        assert(b[k] == '-');
                    } else if k < front.len() + n.len() {
                        assert(b[k] == n[k - front.len()]);
                        assert(digits::is_digit(n[k - front.len()]));
                    } else {
                        assert(b[k] == back[k - front.len() - n.len()]);
                        assert(back[k - front.len() - n.len()] == part[part.len() - back.len() + k
                            - front.len() - n.len()]);
                    }
                }
            }
            assert(name[at] == '/');
            assert(name.contains('/'));
        } else if at < 0 && (part == "."@ || part == ".."@) {
            assert(part =~= name);
            assert(b[0] == 'm');
            assert(name[0] == '.');
        } else if at < 0 {
            assert(part =~= name);
            assert(stem(name).len() + extension(name).len() == name.len());
            assert(b.len() > name.len());
        }
    } else if candidate(name, i) == b {
        let a = candidate(name, i);
        assert(a.subrange(front.len() as int, a.len() - back.len()) =~= digits::dec(i));
        assert(b.subrange(front.len() as int, b.len() - back.len()) =~= digits::dec(j));
        crate::digits::lemma_dec_injective(i, j);
    }
}

proof fn lemma_last_is(s: Seq<char>, a: char, b: char)
    requires
        last_of(s, a, b) >= 0,
    ensures
        last_of(s, a, b) < s.len(),
        s[last_of(s, a, b)] == a || s[last_of(s, a, b)] == b,
    decreases s.len(),
{
    if s.len() > 0 && s.last() != a && s.last() != b {
        lemma_last_is(s.drop_last(), a, b);
    }
}

/// What is free from a number on is not taken, where the names to try before it are.
proof fn lemma_free_from(name: Seq<char>, taken: Seq<Seq<char>>, i: nat)
    requires
        i <= taken.len(),
        forall|k: int| 0 <= k < i ==> taken.contains(#[trigger] candidate(name, k)),
    ensures
        !taken.contains(free_from(name, taken, i)),
    decreases taken.len() - i,
{
    let c = candidate(name, i as int);
    if taken.contains(c) {
        if i < taken.len() {
            lemma_free_from(name, taken, i + 1);
        } else {
            let tried = Seq::new(i + 1, |k: int| candidate(name, k));
            assert(tried.no_duplicates()) by {
                assert forall|k: int, l: int|
                    0 <= k < tried.len() && 0 <= l < tried.len() && k != l implies tried[k]
                    != tried[l] by {
                    if k < l {
                        law_candidates_differ(name, k, l);
                    } else {
                        law_candidates_differ(name, l, k);
                    }
                }
            }
            tried.unique_seq_to_set();
            taken.lemma_cardinality_of_set();
            assert(tried.to_set().subset_of(taken.to_set())) by {
                assert forall|x: Seq<char>| tried.to_set().contains(x) implies taken.to_set().contains(
                    x,
                ) by {
                    let k = choose|k: int| 0 <= k < tried.len() && tried[k] == x;
                    assert(taken.contains(candidate(name, k)));
                }
            }
            vstd::set_lib::lemma_len_subset(tried.to_set(), taken.to_set());
        }
    }
}

/// The name under which a file is stored is one that no other file has.
pub proof fn law_free_name_is_free(name: Seq<char>, taken: Seq<Seq<char>>)
    ensures
        !taken.contains(free_name(name, taken)),
{
    lemma_free_from(name, taken, 0);
}

/// A file that is stored takes the place of no other: where a file is there, it is kept as it
/// is, whatever the next one is called, and the next one is stored under another name.
pub proof fn law_earlier_file_kept(
    files: Map<Seq<char>, Seq<u8>>,
    names: Seq<Seq<char>>,
    first: Seq<char>,
    name: Seq<char>,
    bytes: Seq<u8>,
)
    requires
        forall|n: Seq<char>| names.contains(n) <==> #[trigger] files.contains_key(n),
        files.contains_key(first),
    ensures
        ({
            let second = free_name(name, names);
            let then = files.insert(second, bytes);
            &&& second != first
            &&& then[first] == files[first]
            &&& then[second] == bytes
        }),
{
    law_free_name_is_free(name, names);
    assert(names.contains(first));
}

} // verus!
