//! Text operations the core needs: substring search and replacement (for
//! outline-variable interpolation) and splitting on spaces (for the hook
//! tag-rule evaluator), each specified over sequences of characters.

use vstd::prelude::*;

verus! {

/// The first index at which `p` occurs in `t`, if any.
pub open spec fn find_sub(t: Seq<char>, p: Seq<char>) -> Option<int>
    decreases t.len(),
{
    if t.len() < p.len() {
        None
    } else if t.subrange(0, p.len() as int) == p {
        Some(0)
    } else if t.len() == 0 {
        None
    } else {
        match find_sub(t.drop_first(), p) {
            Some(j) => Some(j + 1),
            None => None,
        }
    }
}

/// Whether `p` occurs anywhere in `t`.
pub open spec fn contains_sub(t: Seq<char>, p: Seq<char>) -> bool {
    find_sub(t, p) is Some
}

/// `t` with every occurrence of the non-empty pattern `p` replaced by
/// `to`, left to right; replaced text is not scanned again.
pub open spec fn replaced(t: Seq<char>, p: Seq<char>, to: Seq<char>) -> Seq<char>
    decreases t.len(),
{
    if p.len() == 0 {
        t
    } else {
        match find_sub(t, p) {
            Some(i) => if 0 <= i && i + p.len() <= t.len() {
                t.subrange(0, i) + to + replaced(
                    t.subrange(i + p.len(), t.len() as int),
                    p,
                    to,
                )
            } else {
                t
            },
            None => t,
        }
    }
}

/// Replacing a pattern that does not occur leaves the text unchanged.
pub proof fn lemma_replaced_identity(t: Seq<char>, p: Seq<char>, to: Seq<char>)
    requires
        !contains_sub(t, p),
    ensures
        replaced(t, p, to) == t,
{
}

/// Relies on str::replace: every occurrence of the (non-empty) pattern is
/// replaced by the replacement text, scanning left to right, and the
/// replacement text itself is not scanned again.
#[verifier::external_body]
pub fn replace_all(text: &str, from: &str, to: &str) -> (r: String)
    requires
        from@.len() > 0,
    ensures
        r@ == replaced(text@, from@, to@),
{
    text.replace(from, to)
}

/// The first index at which the character `ch` occurs in `t`, if any.
pub open spec fn char_index(t: Seq<char>, ch: char) -> Option<int>
    decreases t.len(),
{
    if t.len() == 0 {
        None
    } else if t[0] == ch {
        Some(0)
    } else {
        match char_index(t.drop_first(), ch) {
            Some(j) => Some(j + 1),
            None => None,
        }
    }
}

pub proof fn lemma_char_index_none(t: Seq<char>, ch: char)
    requires
        forall|k: int| 0 <= k < t.len() ==> t[k] != ch,
    ensures
        char_index(t, ch) is None,
    decreases t.len(),
{
    if t.len() > 0 {
        lemma_char_index_none(t.drop_first(), ch);
    }
}

pub proof fn lemma_char_index_found(t: Seq<char>, ch: char, i: int)
    requires
        0 <= i < t.len(),
        t[i] == ch,
        forall|k: int| 0 <= k < i ==> t[k] != ch,
    ensures
        char_index(t, ch) == Some(i),
    decreases i,
{
    if i > 0 {
        lemma_char_index_found(t.drop_first(), ch, i - 1);
    }
}

/// The tokens of `t` between occurrences of the separator `ch`; adjacent
/// separators and separators at either end yield empty tokens, as
/// str::split does.
pub open spec fn split_on(t: Seq<char>, ch: char) -> Seq<Seq<char>>
    decreases t.len(),
{
    match char_index(t, ch) {
        None => seq![t],
        Some(i) => if 0 <= i < t.len() {
            seq![t.subrange(0, i)] + split_on(t.subrange(i + 1, t.len() as int), ch)
        } else {
            seq![t]
        },
    }
}

/// The tokens of `s` split on single spaces, in order.
pub fn split_spaces(s: &str) -> (r: Vec<String>)
    ensures
        r.deep_view() == split_on(s@, ' '),
{
    let len = s.unicode_len();
    let mut out: Vec<String> = Vec::new();
    let mut pos: usize = 0;
    let mut i: usize = 0;
    proof {
        assert(s@.subrange(0, len as int) =~= s@);
        assert(out.deep_view() + split_on(s@, ' ') =~= split_on(s@, ' '));
    }
    while i < len
        invariant
            pos <= i <= len,
            len == s@.len(),
            out.deep_view() + split_on(s@.subrange(pos as int, len as int), ' ')
                =~= split_on(s@, ' '),
            forall|k: int| pos <= k < i ==> s@[k] != ' ',
        decreases len - i,
    {
        let c = s.get_char(i);
        if c == ' ' {
            let token = s.substring_char(pos, i);
            proof {
                let rest = s@.subrange(pos as int, len as int);
                lemma_char_index_found(rest, ' ', i - pos);
                assert(rest.subrange(0, i - pos) =~= s@.subrange(pos as int, i as int));
                assert(rest.subrange(i - pos + 1, rest.len() as int)
                    =~= s@.subrange(i as int + 1, len as int));
            }
            out.push(token.to_owned());
            proof {
                assert(out.deep_view() + split_on(s@.subrange(i as int + 1, len as int), ' ')
                    =~= split_on(s@, ' '));
            }
            pos = i + 1;
        }
        i += 1;
    }
    let token = s.substring_char(pos, len);
    proof {
        let rest = s@.subrange(pos as int, len as int);
        lemma_char_index_none(rest, ' ');
    }
    out.push(token.to_owned());
    proof {
        assert(out.deep_view() =~= split_on(s@, ' '));
    }
    out
}

/// Whether some element of `tags` reads as the character sequence `t`.
pub open spec fn seq_has_text(tags: Seq<String>, t: Seq<char>) -> bool {
    exists|k: int| 0 <= k < tags.len() && tags[k]@ == t
}

/// Whether `tags` holds a string equal to `needle`.
pub fn vec_contains_string(tags: &Vec<String>, needle: &String) -> (r: bool)
    ensures
        r == seq_has_text(tags@, needle@),
{
    let mut k: usize = 0;
    while k < tags.len()
        invariant
            k <= tags.len(),
            forall|j: int| 0 <= j < k ==> tags@[j]@ != needle@,
        decreases tags.len() - k,
    {
        let ti: &String = &tags[k];
        if ti.eq(needle) {
            return true;
        }
        k += 1;
    }
    false
}

} // verus!
