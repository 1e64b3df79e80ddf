use vstd::prelude::*;
use vstd::string::StrSliceExecFns;

verus! {

/// Whether a character has the Unicode `White_Space` property: the controls
/// U+0009 to U+000D, the space U+0020, U+0085, the no-break space U+00A0,
/// U+1680, the spaces U+2000 to U+200A, the line and paragraph separators
/// U+2028 and U+2029, U+202F, U+205F and the ideographic space U+3000.
pub open spec fn white_space(c: char) -> bool {
    let n = c as u32;
    ||| 0x09 <= n <= 0x0D
    ||| n == 0x20
    ||| n == 0x85
    ||| n == 0xA0
    ||| n == 0x1680
    ||| 0x2000 <= n <= 0x200A
    ||| n == 0x2028
    ||| n == 0x2029
    ||| n == 0x202F
    ||| n == 0x205F
    ||| n == 0x3000
}

/// Whether a character is white space, as `char::is_whitespace` decides.
pub fn is_white_space(c: char) -> (r: bool)
    ensures
        r == white_space(c),
{
    let n: u32 = c as u32;
    (0x09 <= n && n <= 0x0D) || n == 0x20 || n == 0x85 || n == 0xA0 || n == 0x1680 || (0x2000 <= n && n
        <= 0x200A) || n == 0x2028 || n == 0x2029 || n == 0x202F || n == 0x205F || n == 0x3000
}

/// The first position at or after `i` that does not hold white space.
pub open spec fn skip_white(s: Seq<char>, i: int) -> int
    decreases s.len() - i,
{
    if 0 <= i < s.len() && white_space(s[i]) {
        skip_white(s, i + 1)
    } else {
        i
    }
}

/// The first position at or after `i` that holds white space (or the end).
pub open spec fn word_end(s: Seq<char>, i: int) -> int
    decreases s.len() - i,
{
    if 0 <= i < s.len() && !white_space(s[i]) {
        word_end(s, i + 1)
    } else {
        i
    }
}

/// `skip_white` never goes back.
pub proof fn lemma_skip_white_ge(s: Seq<char>, i: int)
    ensures
        skip_white(s, i) >= i,
        0 <= i ==> skip_white(s, i) <= s.len() || skip_white(s, i) == i,
        0 <= i < s.len() ==> skip_white(s, i) <= s.len(),
        0 <= skip_white(s, i) < s.len() ==> !white_space(s[skip_white(s, i)]),
    decreases s.len() - i,
{
    if 0 <= i < s.len() && white_space(s[i]) {
        lemma_skip_white_ge(s, i + 1);
    }
}

/// `word_end` passes a character that is not white space.
pub proof fn lemma_word_end_gt(s: Seq<char>, i: int)
    ensures
        word_end(s, i) >= i,
        0 <= i < s.len() && !white_space(s[i]) ==> word_end(s, i) > i,
        0 <= i <= s.len() ==> word_end(s, i) <= s.len(),
    decreases s.len() - i,
{
    if 0 <= i < s.len() && !white_space(s[i]) {
        lemma_word_end_gt(s, i + 1);
    }
}

/// The words of `s` from position `i` on: the maximal runs of characters
/// that are not white space, in order (what `str::split_whitespace` yields).
pub open spec fn words_from(s: Seq<char>, i: int) -> Seq<Seq<char>>
    decreases s.len() - i,
{
    let a = skip_white(s, i);
    if i < 0 || a >= s.len() {
        Seq::empty()
    } else {
        proof {
            lemma_skip_white_ge(s, i);
            lemma_word_end_gt(s, a);
        }
        let b = word_end(s, a);
        seq![s.subrange(a, b)] + words_from(s, b)
    }
}

/// The white-space separated words of a text.
pub open spec fn words(s: Seq<char>) -> Seq<Seq<char>> {
    words_from(s, 0)
}

/// The first position at or after `i` that does not hold white space.
fn skip_white_exec(s: &str, n: usize, i: usize) -> (r: usize)
    requires
        n == s@.len(),
        i <= n,
    ensures
        r == skip_white(s@, i as int),
        i <= r <= n,
{
    let mut j = i;
    while j < n && is_white_space(s.get_char(j))
        invariant
            i <= j <= n,
            n == s@.len(),
            skip_white(s@, j as int) == skip_white(s@, i as int),
        decreases n - j,
    {
        j = j + 1;
    }
    j
}

/// The first position at or after `i` that holds white space (or the end).
fn word_end_exec(s: &str, n: usize, i: usize) -> (r: usize)
    requires
        n == s@.len(),
        i <= n,
    ensures
        r == word_end(s@, i as int),
        i <= r <= n,
{
    let mut j = i;
    while j < n && !is_white_space(s.get_char(j))
        invariant
            i <= j <= n,
            n == s@.len(),
            word_end(s@, j as int) == word_end(s@, i as int),
        decreases n - j,
    {
        j = j + 1;
    }
    j
}

/// The second white-space separated word of a text, if it has one.
pub fn second_word(s: &str) -> (r: Option<&str>)
    ensures
        words(s@).len() > 1 ==> (r matches Some(w) && w@ == words(s@)[1]),
        words(s@).len() <= 1 ==> r is None,
{
    let n = s.unicode_len();
    let a = skip_white_exec(s, n, 0);
    if a >= n {
        return None;
    }
    let b = word_end_exec(s, n, a);
    proof {
        lemma_skip_white_ge(s@, 0);
        lemma_word_end_gt(s@, a as int);
    }
    let c = skip_white_exec(s, n, b);
    if c >= n {
        assert(words_from(s@, b as int) =~= Seq::<Seq<char>>::empty());
        return None;
    }
    let d = word_end_exec(s, n, c);
    proof {
        lemma_skip_white_ge(s@, b as int);
        lemma_word_end_gt(s@, c as int);
    }
    let w = s.substring_char(c, d);
    proof {
        let rest = words_from(s@, d as int);
        assert(words_from(s@, b as int) == seq![s@.subrange(c as int, d as int)] + rest);
        assert(words_from(s@, 0) == seq![s@.subrange(a as int, b as int)] + words_from(s@, b as int));
        assert(words(s@)[1] == s@.subrange(c as int, d as int));
    }
    Some(w)
}

/// Whether two texts are equal, character by character.
pub fn text_equals(a: &str, b: &str) -> (r: bool)
    ensures
        r == (a@ == b@),
{
    let n = a.unicode_len();
    if n != b.unicode_len() {
        return false;
    }
    let mut i: usize = 0;
    while i < n
        invariant
            i <= n,
            n == a@.len(),
            n == b@.len(),
            forall|k: int| 0 <= k < i ==> a@[k] == b@[k],
        decreases n - i,
    {
        if a.get_char(i) != b.get_char(i) {
            return false;
        }
        i = i + 1;
    }
    assert(a@ =~= b@);
    true
}

} // verus!
