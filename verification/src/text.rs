//! Characters and tokens: the sigil that marks a placeholder, the whitespace
//! that separates the tokens of a command template, and path joining.

use vstd::prelude::*;
use vstd::std_specs::iter::IteratorSpec;
use vstd::string::StringExecFns;
use vstd::string::StrSliceExecFns;

verus! {

/// The character that marks a placeholder.
pub const SIGIL: char = '$';

/// The character that separates the parts of a path.
pub const SEPARATOR: char = '/';

/// Whether `s` holds the sigil anywhere.
pub open spec fn has_sigil(s: Seq<char>) -> bool {
    s.contains(SIGIL)
}

/// Whether `s` is a placeholder: a token that begins with the sigil.
pub open spec fn is_placeholder(s: Seq<char>) -> bool {
    s.len() > 0 && s[0] == SIGIL
}

/// Whether `c` separates tokens: the characters that Unicode calls white space.
pub open spec fn is_space(c: char) -> bool {
    let n = c as u32;
    ||| 0x09 <= n <= 0x0D
    ||| n == 0x20
    ||| n == 0x85
    ||| n == 0xA0
    ||| n == 0x1680
    ||| 0x2000 <= n <= 0x200A
    ||| n == 0x2028
    ||| n == 0x2029
    ||| n == 0x202F
    ||| n == 0x205F
    ||| n == 0x3000
}

/// The first position at or after `from` that holds no white space, or the
/// length of `s` if there is none.
pub open spec fn word_start(s: Seq<char>, from: int) -> int
    decreases s.len() - from,
{
    if 0 <= from < s.len() && is_space(s[from]) {
        word_start(s, from + 1)
    } else {
        from
    }
}

/// The first position at or after `from` that holds white space, or the
/// length of `s` if there is none.
pub open spec fn word_end(s: Seq<char>, from: int) -> int
    decreases s.len() - from,
{
    if 0 <= from < s.len() && !is_space(s[from]) {
        word_end(s, from + 1)
    } else {
        from
    }
}

/// The tokens of `s` that begin at or after `from`: the maximal runs of
/// characters that are no white space, in the order in which they stand.
pub open spec fn tokens_from(s: Seq<char>, from: int) -> Seq<Seq<char>>
    decreases s.len() - from,
{
    let a = word_start(s, from);
    let b = word_end(s, a);
    if 0 <= from <= a < b <= s.len() {
        seq![s.subrange(a, b)] + tokens_from(s, b)
    } else {
        Seq::empty()
    }
}

/// The tokens of a command template.
pub open spec fn tokens(s: Seq<char>) -> Seq<Seq<char>> {
    tokens_from(s, 0)
}

/// `base` extended by `rel`, as paths are joined where `/` separates their
/// parts: a `rel` that begins at the root stands alone, and a separator is put
/// between the two unless `base` is empty or already ends in one.
pub open spec fn joined_path(base: Seq<char>, rel: Seq<char>) -> Seq<char> {
    if rel.len() > 0 && rel[0] == SEPARATOR {
        rel
    } else if base.len() > 0 && base.last() != SEPARATOR {
        base.push(SEPARATOR) + rel
    } else {
        base + rel
    }
}

/// `word_start` stays within `s` and skips white space only.
pub proof fn lemma_word_start(s: Seq<char>, from: int)
    requires
        0 <= from <= s.len(),
    ensures
        from <= word_start(s, from) <= s.len(),
        forall|j: int| from <= j < word_start(s, from) ==> is_space(s[j]),
        word_start(s, from) < s.len() ==> !is_space(s[word_start(s, from)]),
    decreases s.len() - from,
{
    if from < s.len() && is_space(s[from]) {
        lemma_word_start(s, from + 1);
    }
}

/// `word_end` stays within `s` and skips no white space.
pub proof fn lemma_word_end(s: Seq<char>, from: int)
    requires
        0 <= from <= s.len(),
    ensures
        from <= word_end(s, from) <= s.len(),
        forall|j: int| from <= j < word_end(s, from) ==> !is_space(s[j]),
        word_end(s, from) < s.len() ==> is_space(s[word_end(s, from)]),
    decreases s.len() - from,
{
    if from < s.len() && !is_space(s[from]) {
        lemma_word_end(s, from + 1);
    }
}

/// Every token holds at least one character and no white space.
pub proof fn lemma_tokens_are_words(s: Seq<char>, from: int)
    requires
        0 <= from <= s.len(),
    ensures
        forall|k: int|
            0 <= k < tokens_from(s, from).len() ==> {
                &&& (#[trigger] tokens_from(s, from)[k]).len() > 0
                &&& forall|j: int|
                    0 <= j < tokens_from(s, from)[k].len() ==> !is_space(
                        tokens_from(s, from)[k][j],
                    )
            },
    decreases s.len() - from,
{
    lemma_word_start(s, from);
    let a = word_start(s, from);
    lemma_word_end(s, a);
    let b = word_end(s, a);
    if a < b {
        lemma_tokens_are_words(s, b);
        let rest = tokens_from(s, b);
        let all = tokens_from(s, from);
        assert(all == seq![s.subrange(a, b)] + rest);
        assert forall|k: int| 0 <= k < all.len() implies {
            &&& (#[trigger] all[k]).len() > 0
            &&& forall|j: int| 0 <= j < all[k].len() ==> !is_space(all[k][j])
        } by {
            if k == 0 {
                assert(all[0] == s.subrange(a, b));
            } else {
                assert(all[k] == rest[k - 1]);
            }
        }
    }
}

/// Whether `c` separates tokens.
pub fn char_is_space(c: char) -> (space: bool)
    ensures
        space == is_space(c),
{
    let n: u32 = c as u32;
    (0x09 <= n && n <= 0x0D) || n == 0x20 || n == 0x85 || n == 0xA0 || n == 0x1680 || (0x2000 <= n
        && n <= 0x200A) || n == 0x2028 || n == 0x2029 || n == 0x202F || n == 0x205F || n == 0x3000
}

/// The characters of `s`, one by one.
pub fn chars_of(s: &str) -> (chars: Vec<char>)
    ensures
        chars@ == s@,
{
    broadcast use vstd::string::group_string_axioms;

    let mut chars: Vec<char> = Vec::new();
    let mut rest = s.chars();
    loop
        invariant
            chars@.len() <= s@.len(),
            chars@ == s@.subrange(0, chars@.len() as int),
            rest.remaining() == s@.subrange(chars@.len() as int, s@.len() as int),
        decreases s@.len() - chars@.len(),
    {
        match rest.next() {
            Some(c) => {
                chars.push(c);
            },
            None => {
                assert(chars@ == s@);
                return chars;
            },
        }
    }
}

/// Whether `s` holds the sigil anywhere.
pub fn contains_sigil(s: &str) -> (found: bool)
    ensures
        found == has_sigil(s@),
{
    broadcast use vstd::string::group_string_axioms;

    let mut rest = s.chars();
    let ghost mut seen: int = 0;
    loop
        invariant
            0 <= seen <= s@.len(),
            rest.remaining() == s@.subrange(seen, s@.len() as int),
            forall|j: int| 0 <= j < seen ==> s@[j] != SIGIL,
        decreases s@.len() - seen,
    {
        match rest.next() {
            Some(c) => {
                if c == SIGIL {
                    assert(s@[seen] == SIGIL);
                    return true;
                }
                proof {
                    seen = seen + 1;
                }
            },
            None => {
                return false;
            },
        }
    }
}

/// Whether `s` is a placeholder.
pub fn starts_with_sigil(s: &str) -> (placeholder: bool)
    ensures
        placeholder == is_placeholder(s@),
{
    broadcast use vstd::string::group_string_axioms;

    let mut rest = s.chars();
    match rest.next() {
        Some(c) => c == SIGIL,
        None => false,
    }
}

/// Whether `a` and `b` hold the same characters.
pub fn same_text(a: &str, b: &str) -> (same: bool)
    ensures
        same == (a@ == b@),
{
    broadcast use vstd::string::group_string_axioms;

    let mut left = a.chars();
    let mut right = b.chars();
    let ghost mut seen: int = 0;
    loop
        invariant
            0 <= seen <= a@.len(),
            seen <= b@.len(),
            left.remaining() == a@.subrange(seen, a@.len() as int),
            right.remaining() == b@.subrange(seen, b@.len() as int),
            forall|j: int| 0 <= j < seen ==> a@[j] == b@[j],
        decreases a@.len() - seen,
    {
        let x = left.next();
        let y = right.next();
        match (x, y) {
            (Some(c), Some(d)) => {
                if c != d {
                    assert(a@[seen] != b@[seen]);
                    return false;
                }
                proof {
                    seen = seen + 1;
                }
            },
            (None, None) => {
                assert(a@ =~= b@);
                return true;
            },
            _ => {
                assert(a@.len() != b@.len());
                return false;
            },
        }
    }
}

/// Splits a command template into its tokens.
pub fn tokenize(s: &str) -> (words: Vec<String>)
    ensures
        words.deep_view() == tokens(s@),
{
    let chars = chars_of(s);
    let n: usize = chars.len();
    let mut words: Vec<String> = Vec::new();
    let mut i: usize = 0;
    loop
        invariant
            i <= n,
            n == s@.len(),
            chars@ == s@,
            tokens(s@) == words.deep_view() + tokens_from(s@, i as int),
        decreases n - i,
    {
        let ghost from = i;
        while i < n && char_is_space(chars[i])
            invariant
                from <= i <= n,
                n == s@.len(),
                chars@ == s@,
                word_start(s@, from as int) == word_start(s@, i as int),
            decreases n - i,
        {
            i = i + 1;
        }
        let start: usize = i;
        while i < n && !char_is_space(chars[i])
            invariant
                start <= i <= n,
                n == s@.len(),
                chars@ == s@,
                word_end(s@, start as int) == word_end(s@, i as int),
            decreases n - i,
        {
            i = i + 1;
        }
        if start == i {
            proof {
                assert(tokens_from(s@, from as int) == Seq::<Seq<char>>::empty());
                assert(words.deep_view() + Seq::<Seq<char>>::empty() =~= words.deep_view());
            }
            return words;
        }
        let word = s.substring_char(start, i).to_owned();
        let ghost before = words.deep_view();
        let ghost found = word@;
        words.push(word);
        proof {
            assert(tokens_from(s@, from as int) == seq![found] + tokens_from(s@, i as int));
            assert(before + (seq![found] + tokens_from(s@, i as int)) =~= before.push(found)
                + tokens_from(s@, i as int));
            assert(words.deep_view() =~= before.push(found));
        }
    }
}

/// Joins `rel` to `base` as `joined_path` says.
pub fn join_path(base: &str, rel: &str) -> (path: String)
    ensures
        path@ == joined_path(base@, rel@),
{
    if starts_with_separator(rel) {
        return rel.to_owned();
    }
    let mut path = base.to_owned();
    let n: usize = base.unicode_len();
    if n > 0 && base.get_char(n - 1) != SEPARATOR {
        proof {
            reveal_strlit("/");
            assert("/"@ =~= seq![SEPARATOR]);
            assert(base@ + seq![SEPARATOR] =~= base@.push(SEPARATOR));
        }
        path.append("/");
    }
    path.append(rel);
    path
}

fn starts_with_separator(s: &str) -> (rooted: bool)
    ensures
        rooted == (s@.len() > 0 && s@[0] == SEPARATOR),
{
    broadcast use vstd::string::group_string_axioms;

    let mut rest = s.chars();
    match rest.next() {
        Some(c) => c == SEPARATOR,
        None => false,
    }
}

/// A copy of `words`.
pub fn copy_words(words: &Vec<String>) -> (copy: Vec<String>)
    ensures
        copy.deep_view() == words.deep_view(),
{
    let mut copy: Vec<String> = Vec::new();
    let mut i: usize = 0;
    while i < words.len()
        invariant
            i <= words@.len(),
            copy.deep_view() == words.deep_view().take(i as int),
        decreases words@.len() - i,
    {
        let ghost before = copy.deep_view();
        copy.push(words[i].clone());
        assert(copy.deep_view() =~= before.push(words@[i as int]@));
        assert(words.deep_view().take(i + 1) =~= before.push(words@[i as int]@));
        i = i + 1;
    }
    assert(words.deep_view().take(i as int) =~= words.deep_view());
    copy
}

/// Whether `name` is one of `list`.
pub fn list_holds(list: &Vec<String>, name: &str) -> (found: bool)
    ensures
        found == list.deep_view().contains(name@),
{
    let mut i: usize = 0;
    while i < list.len()
        invariant
            i <= list@.len(),
            forall|j: int| 0 <= j < i ==> list.deep_view()[j] != name@,
        decreases list@.len() - i,
    {
        if same_text(list[i].as_str(), name) {
            assert(list.deep_view()[i as int] == name@);
            return true;
        }
        i = i + 1;
    }
    false
}

} // verus!
