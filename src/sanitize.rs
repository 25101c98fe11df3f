use vstd::prelude::*;

use crate::text::{lemma_trim_idempotent, lemma_trim_within, push_char, trim, trim_str};

verus! {

/// Characters that cannot stand in a directory name.
pub open spec fn is_reserved(c: char) -> bool {
    ||| c == '\\'
    ||| c == '/'
    ||| c == '?'
    ||| c == ':'
    ||| c == '*'
    ||| c == '"'
    ||| c == '<'
    ||| c == '>'
    ||| c == '|'
}

/// `s` with every reserved character removed.
pub open spec fn strip_reserved(s: Seq<char>) -> Seq<char>
    decreases s.len(),
{
    if s.len() == 0 {
        s
    } else if is_reserved(s.last()) {
        strip_reserved(s.drop_last())
    } else {
        strip_reserved(s.drop_last()).push(s.last())
    }
}

/// A game name as it may be used for a directory: reserved characters
/// removed, then leading and trailing white space trimmed.
pub open spec fn sanitized(s: Seq<char>) -> Seq<char> {
    trim(strip_reserved(s))
}

/// Whether `c` is reserved.
pub fn is_reserved_char(c: char) -> (r: bool)
    ensures
        r == is_reserved(c),
{
    c == '\\' || c == '/' || c == '?' || c == ':' || c == '*' || c == '"' || c == '<' || c == '>'
        || c == '|'
}

/// Removes the reserved characters from `name`, then trims white space from
/// both ends.
pub fn sanitize_name(name: &str) -> (r: String)
    ensures
        r@ == sanitized(name@),
{
    let n = name.unicode_len();
    let mut kept = String::new();
    let mut i: usize = 0;
    while i < n
        invariant
            n == name@.len(),
            i <= n,
            kept@ == strip_reserved(name@.subrange(0, i as int)),
        decreases n - i,
    {
        let c = name.get_char(i);
        let ghost before = name@.subrange(0, i as int);
        let ghost after = name@.subrange(0, i + 1);
        assert(after.drop_last() =~= before);
        assert(after.last() == c);
        if !is_reserved_char(c) {
            push_char(&mut kept, c);
        }
        i = i + 1;
    }
    assert(name@.subrange(0, n as int) =~= name@);
    let t = trim_str(kept.as_str());
    t.to_string()
}

/// No reserved character is left by `strip_reserved`.
pub proof fn lemma_strip_reserved_clean(s: Seq<char>)
    ensures
        forall|i: int|
            0 <= i < strip_reserved(s).len() ==> !is_reserved(#[trigger] strip_reserved(s)[i]),
    decreases s.len(),
{
    if s.len() > 0 {
        lemma_strip_reserved_clean(s.drop_last());
        let head = strip_reserved(s.drop_last());
        if !is_reserved(s.last()) {
            assert forall|i: int| 0 <= i < head.len() + 1 implies !is_reserved(
                #[trigger] head.push(s.last())[i],
            ) by {
                if i < head.len() {
                    assert(head.push(s.last())[i] == head[i]);
                }
            }
        }
    }
}

/// `strip_reserved` leaves a sequence without reserved characters as it is.
pub proof fn lemma_strip_reserved_keeps_clean(s: Seq<char>)
    requires
        forall|i: int| 0 <= i < s.len() ==> !is_reserved(#[trigger] s[i]),
    ensures
        strip_reserved(s) == s,
    decreases s.len(),
{
    if s.len() > 0 {
        lemma_strip_reserved_keeps_clean(s.drop_last());
        assert(s.drop_last().push(s.last()) =~= s);
    }
}

/// A sanitized name holds no reserved character.
pub proof fn lemma_sanitized_has_no_reserved(s: Seq<char>)
    ensures
        forall|i: int| 0 <= i < sanitized(s).len() ==> !is_reserved(#[trigger] sanitized(s)[i]),
{
    let t = strip_reserved(s);
    lemma_strip_reserved_clean(s);
    lemma_trim_within(t);
    assert forall|i: int| 0 <= i < sanitized(s).len() implies !is_reserved(
        #[trigger] sanitized(s)[i],
    ) by {
        assert(t.contains(trim(t)[i]));
    }
}

/// Sanitizing a sanitized name gives it back unchanged.
pub proof fn lemma_sanitize_idempotent(s: Seq<char>)
    ensures
        sanitized(sanitized(s)) == sanitized(s),
{
    let once = sanitized(s);
    lemma_sanitized_has_no_reserved(s);
    lemma_strip_reserved_keeps_clean(once);
    lemma_trim_idempotent(strip_reserved(s));
}

} // verus!
