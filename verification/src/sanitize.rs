//! Clean-up of error and command text before it leaves the Mac: credentials that
//! follow a credential flag or header are hidden, and home directories are
//! shortened to `~`.
use vstd::prelude::*;
use crate::capture::sensitive_key;
use crate::text::{ascii_lower, chars_of, has_prefix, is_white, prefix_at, push_char, trim_spec};

verus! {

broadcast use vstd::string::group_string_axioms;

/// Splitting `s` on single spaces, left to right: the words completed so far and
/// the word still being read.
pub open spec fn words_acc(s: Seq<char>) -> (Seq<Seq<char>>, Seq<char>)
    decreases s.len(),
{
    if s.len() == 0 {
        (Seq::empty(), Seq::empty())
    } else {
        let (done, current) = words_acc(s.drop_last());
        if s.last() == ' ' {
            (done.push(current), Seq::empty())
        } else {
            (done, current.push(s.last()))
        }
    }
}

/// The words of `s` between single spaces (empty words included).
pub open spec fn words_of(s: Seq<char>) -> Seq<Seq<char>> {
    words_acc(s).0.push(words_acc(s).1)
}

/// The words joined again with single spaces.
pub open spec fn join_words(ws: Seq<Seq<char>>) -> Seq<char>
    decreases ws.len(),
{
    if ws.len() == 0 {
        Seq::empty()
    } else if ws.len() == 1 {
        ws[0]
    } else {
        join_words(ws.drop_last()) + " "@ + ws.last()
    }
}

/// A word after which the next word is a credential: a credential flag or header
/// name (`--api-key`, `Authorization:`), or `Bearer`.
pub open spec fn secret_marker(word: Seq<char>) -> bool {
    let header = word.len() > 0 && word.last() == ':';
    let flag = word.len() > 0 && word[0] == '-';
    let name = if header {
        word.drop_last()
    } else {
        word
    };
    ((header || flag) && sensitive_key(name)) || ascii_lower(name) == "bearer"@
}

pub open spec fn redact_words(ws: Seq<Seq<char>>) -> Seq<Seq<char>> {
    Seq::new(
        ws.len(),
        |i: int|
            if i > 0 && secret_marker(ws[i - 1]) {
                "[redacted]"@
            } else {
                ws[i]
            },
    )
}

/// `s` with each word that follows a credential marker replaced by `[redacted]`.
pub open spec fn redact_secrets_text(s: Seq<char>) -> Seq<char> {
    join_words(redact_words(words_of(s)))
}

fn secret_marker_word(word: &str) -> (r: bool)
    ensures
        r == secret_marker(word@),
{
    let chars = chars_of(word);
    let name = if chars.len() > 0 && chars[chars.len() - 1] == ':' {
        crate::text::string_of_range(chars.as_slice(), 0, chars.len() - 1)
    } else {
        word.to_owned()
    };
    proof {
        if chars@.len() > 0 && chars@.last() == ':' {
            assert(chars@.subrange(0, chars@.len() - 1) == word@.drop_last());
        }
    }
    let header = chars.len() > 0 && chars[chars.len() - 1] == ':';
    let flag = chars.len() > 0 && chars[0] == '-';
    let lowered = crate::text::str_ascii_lowercase(name.as_str());
    ((header || flag) && crate::capture::is_sensitive_key(name.as_str())) || crate::text::str_eq(
        lowered.as_str(),
        "bearer",
    )
}

fn split_words(value: &str) -> (r: Vec<String>)
    ensures
        r@.len() == words_of(value@).len(),
        forall|k: int| 0 <= k < r@.len() ==> (#[trigger] r@[k])@ == words_of(value@)[k],
{
    let chars = chars_of(value);
    let mut done: Vec<String> = Vec::new();
    let mut current = String::new();
    let mut i: usize = 0;
    while i < chars.len()
        invariant
            i <= chars@.len(),
            chars@ == value@,
            done@.len() == words_acc(chars@.take(i as int)).0.len(),
            forall|k: int|
                0 <= k < done@.len() ==> (#[trigger] done@[k])@ == words_acc(
                    chars@.take(i as int),
                ).0[k],
            current@ == words_acc(chars@.take(i as int)).1,
        decreases chars@.len() - i,
    {
        assert(chars@.take(i + 1).drop_last() == chars@.take(i as int));
        let c = chars[i];
        if c == ' ' {
            let finished = current;
            done.push(finished);
            current = String::new();
        } else {
            push_char(&mut current, c);
        }
        i = i + 1;
    }
    assert(chars@.take(chars@.len() as int) == chars@);
    done.push(current);
    done
}

/// Hides credentials that follow a credential flag, header name or `Bearer`.
pub fn redact_secrets(value: &str) -> (r: String)
    ensures
        r@ == redact_secrets_text(value@),
{
    let words = split_words(value);
    let ghost ws = words_of(value@);
    let ghost red = redact_words(ws);
    let mut out = String::new();
    let mut i: usize = 0;
    while i < words.len()
        invariant
            i <= words@.len(),
            words@.len() == ws.len(),
            ws.len() > 0,
            red == redact_words(ws),
            forall|k: int| 0 <= k < words@.len() ==> (#[trigger] words@[k])@ == ws[k],
            i > 0 ==> out@ == join_words(red.take(i as int)),
            i == 0 ==> out@.len() == 0,
        decreases words@.len() - i,
    {
        let hide = i > 0 && secret_marker_word(words[i - 1].as_str());
        if i > 0 {
            out.append(" ");
        }
        if hide {
            out.append("[redacted]");
        } else {
            out.append(words[i].as_str());
        }
        proof {
            assert(red.take(i + 1).drop_last() == red.take(i as int));
            if i == 0 {
                assert(join_words(red.take(1)) == red[0]);
            }
        }
        i = i + 1;
    }
    assert(red.take(words@.len() as int) == red);
    out
}

/// `s` with every occurrence of `pat`, taken left to right without overlap,
/// replaced by `rep` (as `str::replace` for a non-empty pattern).
pub open spec fn replace_all(s: Seq<char>, pat: Seq<char>, rep: Seq<char>) -> Seq<char>
    decreases s.len(),
{
    if s.len() == 0 {
        s
    } else if pat.len() > 0 && has_prefix(s, pat) {
        rep + replace_all(s.skip(pat.len() as int), pat, rep)
    } else {
        seq![s[0]] + replace_all(s.drop_first(), pat, rep)
    }
}

/// Replaces every occurrence of a non-empty `pat` in `value` by `rep`.
pub fn replace_text(value: &str, pat: &str, rep: &str) -> (r: String)
    ensures
        r@ == replace_all(value@, pat@, rep@),
{
    let chars = chars_of(value);
    let pattern = chars_of(pat);
    let mut out = String::new();
    let mut i: usize = 0;
    proof {
        assert(chars@.skip(0) == chars@);
    }
    while i < chars.len()
        invariant
            i <= chars@.len(),
            chars@ == value@,
            pattern@ == pat@,
            replace_all(value@, pat@, rep@) == out@ + replace_all(
                chars@.skip(i as int),
                pat@,
                rep@,
            ),
        decreases chars@.len() - i,
    {
        let ghost rest = chars@.skip(i as int);
        let ghost before = out@;
        if pattern.len() > 0 && prefix_at(&chars, i, &pattern) {
            out.append(rep);
            proof {
                let tail = replace_all(chars@.skip(i + pat@.len()), pat@, rep@);
                assert(rest.skip(pat@.len() as int) == chars@.skip(i + pat@.len()));
                assert(before + (rep@ + tail) == (before + rep@) + tail);
            }
            i = i + pattern.len();
        } else {
            push_char(&mut out, chars[i]);
            proof {
                let tail = replace_all(chars@.skip(i + 1), pat@, rep@);
                assert(rest.drop_first() == chars@.skip(i + 1));
                assert(rest[0] == chars@[i as int]);
                assert(before + (seq![chars@[i as int]] + tail) == before.push(chars@[i as int]) + tail);
            }
            i = i + 1;
        }
    }
    assert(chars@.skip(chars@.len() as int).len() == 0);
    out
}

/// Every home directory in `homes` that is not blank replaced by `~`, in order.
pub open spec fn replace_homes(s: Seq<char>, homes: Seq<Seq<char>>) -> Seq<char>
    decreases homes.len(),
{
    if homes.len() == 0 {
        s
    } else {
        let before = replace_homes(s, homes.drop_last());
        if trim_spec(homes.last()).len() > 0 {
            replace_all(before, homes.last(), "~"@)
        } else {
            before
        }
    }
}

/// Characters that end a user name in a path.
pub open spec fn ends_user_name(c: char) -> bool {
    is_white(c) || c == '/' || c == '\\' || c == '"' || c == '\'' || c == '`' || c == ','
        || c == ';'
}

/// Length of the user name at the front of `s`.
pub open spec fn user_len(s: Seq<char>) -> nat
    decreases s.len(),
{
    if s.len() == 0 || ends_user_name(s[0]) {
        0
    } else {
        1 + user_len(s.drop_first())
    }
}

/// `s` with each `{marker}{user}` replaced by `~`, left to right, stopping at
/// the first occurrence of `marker` that no user name follows.
pub open spec fn strip_user_dirs(s: Seq<char>, marker: Seq<char>) -> Seq<char>
    decreases s.len(),
{
    if s.len() == 0 {
        s
    } else if marker.len() > 0 && has_prefix(s, marker) {
        let u = user_len(s.skip(marker.len() as int));
        if u == 0 {
            s
        } else {
            proof {
                lemma_user_len(s.skip(marker.len() as int));
            }
            "~"@ + strip_user_dirs(s.skip((marker.len() + u) as int), marker)
        }
    } else {
        seq![s[0]] + strip_user_dirs(s.drop_first(), marker)
    }
}

pub proof fn lemma_user_len(s: Seq<char>)
    ensures
        user_len(s) <= s.len(),
        forall|i: int| 0 <= i < user_len(s) ==> !ends_user_name(#[trigger] s[i]),
        user_len(s) < s.len() ==> ends_user_name(s[user_len(s) as int]),
    decreases s.len(),
{
    if s.len() > 0 && !ends_user_name(s[0]) {
        lemma_user_len(s.drop_first());
        assert forall|i: int| 0 <= i < user_len(s) implies !ends_user_name(#[trigger] s[i]) by {
            if i > 0 {
                assert(s[i] == s.drop_first()[i - 1]);
            }
        }
    }
}

/// Home directories shortened: first the given ones, then `/Users/{name}` and
/// `/home/{name}`.
pub open spec fn abbreviate_text(s: Seq<char>, homes: Seq<Seq<char>>) -> Seq<char> {
    strip_user_dirs(strip_user_dirs(replace_homes(s, homes), "/Users/"@), "/home/"@)
}

pub open spec fn strings_view(v: Seq<String>) -> Seq<Seq<char>> {
    v.map_values(|x: String| x@)
}

fn is_white_char(c: char) -> (r: bool)
    ensures
        r == is_white(c),
{
    let u = c as u32;
    (0x09 <= u && u <= 0x0D) || u == 0x20 || u == 0x85 || u == 0xA0 || u == 0x1680 || (0x2000 <= u
        && u <= 0x200A) || u == 0x2028 || u == 0x2029 || u == 0x202F || u == 0x205F || u == 0x3000
}

fn user_name_len(chars: &Vec<char>, start: usize) -> (r: usize)
    requires
        start <= chars@.len(),
    ensures
        r == user_len(chars@.skip(start as int)),
        start + r <= chars@.len(),
{
    proof {
        lemma_user_len(chars@.skip(start as int));
    }
    let mut k: usize = start;
    while k < chars.len()
        invariant
            start <= k <= chars@.len(),
            forall|t: int| start <= t < k ==> !ends_user_name(#[trigger] chars@[t]),
            user_len(chars@.skip(start as int)) <= chars@.len() - start,
            forall|i: int|
                0 <= i < user_len(chars@.skip(start as int)) ==> !ends_user_name(
                    #[trigger] chars@.skip(start as int)[i],
                ),
            user_len(chars@.skip(start as int)) < chars@.len() - start ==> ends_user_name(
                chars@.skip(start as int)[user_len(chars@.skip(start as int)) as int],
            ),
        decreases chars@.len() - k,
    {
        let c = chars[k];
        if is_white_char(c) || c == '/' || c == '\\' || c == '"' || c == '\'' || c == '`' || c
            == ',' || c == ';' {
            assert(chars@.skip(start as int)[k - start] == c);
            return k - start;
        }
        assert(chars@.skip(start as int)[k - start] == c);
        k = k + 1;
    }
    k - start
}

fn strip_user_dirs_exec(value: String, marker: &str) -> (r: String)
    requires
        marker@.len() > 0,
    ensures
        r@ == strip_user_dirs(value@, marker@),
{
    let chars = chars_of(value.as_str());
    let pattern = chars_of(marker);
    let mut out = String::new();
    let mut i: usize = 0;
    proof {
        assert(chars@.skip(0) == chars@);
    }
    while i < chars.len()
        invariant
            i <= chars@.len(),
            chars@ == value@,
            pattern@ == marker@,
            marker@.len() > 0,
            strip_user_dirs(value@, marker@) == out@ + strip_user_dirs(
                chars@.skip(i as int),
                marker@,
            ),
        decreases chars@.len() - i,
    {
        let ghost rest = chars@.skip(i as int);
        let ghost before = out@;
        if prefix_at(&chars, i, &pattern) {
            let name_start = i + pattern.len();
            let u = user_name_len(&chars, name_start);
            proof {
                assert(rest.skip(marker@.len() as int) == chars@.skip(name_start as int));
            }
            if u == 0 {
                let tail = crate::text::string_of_range(chars.as_slice(), i, chars.len());
                out.append(tail.as_str());
                proof {
                    assert(chars@.subrange(i as int, chars@.len() as int) == rest);
                }
                return out;
            }
            out.append("~");
            proof {
                let t = strip_user_dirs(chars@.skip(name_start + u), marker@);
                assert(rest.skip(marker@.len() + u) == chars@.skip(name_start + u));
                assert(before + ("~"@ + t) == (before + "~"@) + t);
            }
            i = name_start + u;
        } else {
            push_char(&mut out, chars[i]);
            proof {
                let t = strip_user_dirs(chars@.skip(i + 1), marker@);
                assert(rest.drop_first() == chars@.skip(i + 1));
                assert(rest[0] == chars@[i as int]);
                assert(before + (seq![chars@[i as int]] + t) == before.push(chars@[i as int]) + t);
            }
            i = i + 1;
        }
    }
    assert(chars@.skip(chars@.len() as int).len() == 0);
    out
}

/// Shortens home directories in `value` to `~`. `homes` are the values of
/// `HOME` and `USERPROFILE` that are set, in that order.
pub fn abbreviate_home_paths(value: &str, homes: &[String]) -> (r: String)
    ensures
        r@ == abbreviate_text(value@, homes@.map_values(|h: String| h@)),
{
    let ghost hs = homes@.map_values(|h: String| h@);
    let mut output = value.to_owned();
    let mut i: usize = 0;
    while i < homes.len()
        invariant
            i <= homes@.len(),
            hs == homes@.map_values(|h: String| h@),
            output@ == replace_homes(value@, hs.take(i as int)),
        decreases homes@.len() - i,
    {
        proof {
            assert(hs.take(i + 1).drop_last() == hs.take(i as int));
            assert(hs.take(i + 1).last() == homes@[i as int]@);
        }
        let home = homes[i].as_str();
        if !crate::text::str_trim(home).is_empty() {
            output = replace_text(output.as_str(), home, "~");
        }
        i = i + 1;
    }
    assert(hs.take(homes@.len() as int) == hs);
    proof {
        reveal_strlit("/Users/");
        reveal_strlit("/home/");
    }
    let output = strip_user_dirs_exec(output, "/Users/");
    strip_user_dirs_exec(output, "/home/")
}

/// What `sanitize_weixin_system_text` sends: credentials hidden, home
/// directories shortened, and at most the last `limit` characters kept.
pub open spec fn weixin_system_text(value: Seq<char>, limit: nat, homes: Seq<Seq<char>>) -> Seq<char> {
    crate::remote::tail_text(abbreviate_text(redact_secrets_text(value), homes), limit)
}

/// Makes error or command text safe to send over WeChat.
pub fn sanitize_weixin_system_text(value: &str, limit: usize, homes: &[String]) -> (r: String)
    ensures
        r@ == weixin_system_text(value@, limit as nat, homes@.map_values(|h: String| h@)),
{
    let redacted = redact_secrets(value);
    let shortened = abbreviate_home_paths(redacted.as_str(), homes);
    crate::remote::tail_chars(shortened.as_str(), limit)
}

} // verus!
