//! The few string operations that the protocol's rules are stated in.

use vstd::prelude::*;
use vstd::std_specs::iter::IteratorSpec;
use vstd::utf8::*;
verus! {

/// The two characters that part a sender's name from what was said.
pub open spec fn separator() -> Seq<char> {
    seq![':', ' ']
}

/// The first index at or after `from` where `": "` starts in `s`, or the
/// length of `s` where it occurs nowhere.
pub open spec fn separator_index(s: Seq<char>, from: int) -> int
    decreases s.len() - from,
{
    if from < 0 || from + 1 >= s.len() {
        s.len() as int
    } else if s[from] == ':' && s[from + 1] == ' ' {
        from
    } else {
        separator_index(s, from + 1)
    }
}

/// What follows the first `": "` in `s`, where there is one.
pub open spec fn after_separator(s: Seq<char>) -> Option<Seq<char>> {
    if separator_index(s, 0) < s.len() {
        Some(s.subrange(separator_index(s, 0) + 2, s.len() as int))
    } else {
        None
    }
}

/// The view of an optional string.
pub open spec fn opt_text(o: Option<String>) -> Option<Seq<char>> {
    match o {
        Some(s) => Some(s@),
        None => None,
    }
}

/// The number of bytes that `s` takes in UTF-8.
pub open spec fn byte_len(s: Seq<char>) -> nat {
    encode_utf8(s).len()
}

/// `separator_index` is either the length of `s` or a place where `": "`
/// stands, and `": "` stands nowhere between `from` and it.
pub proof fn lemma_separator_index(s: Seq<char>, from: int)
    requires
        0 <= from,
    ensures
        from <= separator_index(s, from) || separator_index(s, from) == s.len(),
        separator_index(s, from) <= s.len(),
        separator_index(s, from) < s.len() ==> {
            &&& separator_index(s, from) + 1 < s.len()
            &&& s[separator_index(s, from)] == ':'
            &&& s[separator_index(s, from) + 1] == ' '
        },
        forall|k: int|
            from <= k < separator_index(s, from) && k + 1 < s.len() ==> !(#[trigger] s[k] == ':'
                && s[k + 1] == ' '),
    decreases s.len() - from,
{
    if from + 1 < s.len() && !(s[from] == ':' && s[from + 1] == ' ') {
        lemma_separator_index(s, from + 1);
    }
}

/// The encoding of two texts in a row is the encoding of the first followed
/// by that of the second.
pub proof fn lemma_encode_concat(a: Seq<char>, b: Seq<char>)
    ensures
        encode_utf8(a + b) == encode_utf8(a) + encode_utf8(b),
    decreases a.len(),
{
    if a.len() == 0 {
        assert(a + b =~= b);
        assert(encode_utf8(a) + encode_utf8(b) =~= encode_utf8(b));
    } else {
        assert((a + b).drop_first() =~= a.drop_first() + b);
        assert((a + b)[0] == a[0]);
        lemma_encode_concat(a.drop_first(), b);
        assert(encode_utf8(a + b) =~= encode_utf8(a) + encode_utf8(b));
    }
}

/// A part of a text takes no more bytes than the whole.
pub proof fn lemma_byte_len_subrange(s: Seq<char>, i: int, j: int)
    requires
        0 <= i <= j <= s.len(),
    ensures
        byte_len(s.subrange(i, j)) <= byte_len(s),
{
    let a = s.subrange(0, i);
    let b = s.subrange(i, j);
    let c = s.subrange(j, s.len() as int);
    assert(s =~= a + (b + c));
    lemma_encode_concat(a, b + c);
    lemma_encode_concat(b, c);
}

/// `": "` takes two bytes.
pub proof fn lemma_separator_len()
    ensures
        byte_len(separator()) == 2,
{
    assert(is_ascii_chars(separator()));
    is_ascii_chars_encode_utf8(separator());
}

/// The characters of `s`.
pub fn chars_of(s: &str) -> (r: Vec<char>)
    ensures
        r@ == s@,
{
    broadcast use vstd::string::group_string_axioms;

    let mut out: Vec<char> = Vec::new();
    for c in it: s.chars()
        invariant
            it.seq() == s@,
            out@ == s@.take(it.index() as int),
    {
        out.push(c);
        assert(s@.take(it.index() + 1) =~= s@.take(it.index() as int).push(c));
    }
    assert(out@ =~= s@);
    out
}

/// Whether `s` begins with `prefix`.
pub fn starts_with(s: &str, prefix: &str) -> (r: bool)
    ensures
        r == prefix@.is_prefix_of(s@),
{
    let whole: Vec<char> = chars_of(s);
    let head: Vec<char> = chars_of(prefix);
    if head.len() > whole.len() {
        return false;
    }
    let mut i: usize = 0;
    while i < head.len()
        invariant
            i <= head.len() <= whole.len(),
            whole@ == s@,
            head@ == prefix@,
            forall|j: int| 0 <= j < i ==> s@[j] == prefix@[j],
        decreases head.len() - i,
    {
        if whole[i] != head[i] {
            assert(prefix@[i as int] != s@.subrange(0, prefix@.len() as int)[i as int]);
            return false;
        }
        i = i + 1;
    }
    assert(prefix@ =~= s@.subrange(0, prefix@.len() as int));
    true
}

/// The part of `text` after its first `": "`, or nothing where `text` holds
/// no `": "`.
pub fn split_message(text: &str) -> (r: Option<String>)
    ensures
        opt_text(r) == after_separator(text@),
{
    let chars: Vec<char> = chars_of(text);
    let n: usize = chars.len();
    let mut i: usize = 0;
    while i < n && i + 1 < n
        invariant
            i <= n,
            n == text@.len(),
            chars@ == text@,
            separator_index(text@, i as int) == separator_index(text@, 0),
        decreases n - i,
    {
        if chars[i] == ':' && chars[i + 1] == ' ' {
            let rest: &str = text.substring_char(i + 2, n);
            return Some(rest.to_owned());
        }
        i = i + 1;
    }
    None
}

/// `name`, then `": "`, then `msg`.
pub fn join_chat(name: &str, msg: &str) -> (r: String)
    ensures
        r@ == name@ + separator() + msg@,
{
    proof {
        reveal_strlit(": ");
    }
    let r = name.to_owned().concat(": ").concat(msg);
    assert(": "@ =~= separator());
    r
}

/// Whether two strings hold the same text.
pub fn same_text(a: &str, b: &str) -> (r: bool)
    ensures
        r == (a@ == b@),
{
    let x: String = a.to_owned();
    let y: String = b.to_owned();
    x == y
}

} // verus!
