//! Small verified string routines shared by the rest of the library.
use vstd::prelude::*;

verus! {

/// Appends one character to a string.
///
/// Trusted: `String::push` of std, documented to append the character to
/// the end of the string.
#[verifier::external_body]
pub(crate) fn push_char(s: &mut String, c: char)
    ensures
        final(s)@ == old(s)@.push(c),
{
    s.push(c);
}

/// `s` with every `'_'` taken out.
pub open spec fn without_underscores(s: Seq<char>) -> Seq<char>
    decreases s.len(),
{
    if s.len() == 0 {
        s
    } else {
        let rest = without_underscores(s.drop_last());
        if s.last() == '_' {
            rest
        } else {
            rest.push(s.last())
        }
    }
}

/// What [`without_underscores`] leaves holds no underscore.
pub proof fn lemma_without_underscores_clean(s: Seq<char>)
    ensures
        !without_underscores(s).contains('_'),
    decreases s.len(),
{
    if s.len() > 0 {
        let rest = without_underscores(s.drop_last());
        lemma_without_underscores_clean(s.drop_last());
        if s.last() != '_' {
            assert forall|i: int| 0 <= i < rest.push(s.last()).len() implies rest.push(s.last())[i] != '_' by {
                if i < rest.len() {
                    assert(rest.push(s.last())[i] == rest[i]);
                    if rest[i] == '_' {
                        assert(rest.contains('_'));
                    }
                }
            }
        }
    }
}

/// Removes every underscore (the mnemonic marker of dbusmenu labels).
pub fn remove_underscores(s: &str) -> (r: String)
    ensures
        r@ == without_underscores(s@),
{
    let n = s.unicode_len();
    let mut out = String::new();
    let mut i: usize = 0;
    while i < n
        invariant
            n == s@.len(),
            i <= n,
            out@ == without_underscores(s@.subrange(0, i as int)),
        decreases n - i,
    {
        let c = s.get_char(i);
        assert(s@.subrange(0, i + 1).drop_last() =~= s@.subrange(0, i as int));
        if c != '_' {
            push_char(&mut out, c);
        }
        i = i + 1;
    }
    assert(s@.subrange(0, n as int) =~= s@);
    out
}


/// `pattern` occurs in `s` at position `i`.
pub open spec fn occurs_at(s: Seq<char>, i: int, pattern: Seq<char>) -> bool {
    0 <= i && i + pattern.len() <= s.len() && s.subrange(i, i + pattern.len()) == pattern
}

/// `pattern` occurs somewhere in `s`.
pub open spec fn contains_text(s: Seq<char>, pattern: Seq<char>) -> bool {
    exists|i: int| occurs_at(s, i, pattern)
}

/// Every occurrence of `from` replaced by `to`, left to right, occurrences
/// not overlapping, as `str::replace` does: an empty `from` matches before
/// each character and at the end.
pub open spec fn replaced(s: Seq<char>, from: Seq<char>, to: Seq<char>) -> Seq<char>
    decreases s.len(),
{
    if from.len() == 0 {
        if s.len() == 0 {
            to
        } else {
            to + (seq![s[0]] + replaced(s.skip(1), from, to))
        }
    } else if s.len() < from.len() {
        s
    } else if s.take(from.len() as int) == from {
        to + replaced(s.skip(from.len() as int), from, to)
    } else {
        seq![s[0]] + replaced(s.skip(1), from, to)
    }
}

/// Whether `pattern` occurs in `s` at character position `i`.
pub fn occurs_at_exec(s: &str, i: usize, pattern: &str) -> (r: bool)
    ensures
        r == occurs_at(s@, i as int, pattern@),
{
    let n = s.unicode_len();
    let m = pattern.unicode_len();
    if i > n || m > n - i {
        return false;
    }
    let mut k: usize = 0;
    while k < m
        invariant
            n == s@.len(),
            m == pattern@.len(),
            i + m <= n,
            k <= m,
            forall|j: int| 0 <= j < k ==> s@[i + j] == pattern@[j],
        decreases m - k,
    {
        if s.get_char(i + k) != pattern.get_char(k) {
            assert(s@.subrange(i as int, i + m)[k as int] != pattern@[k as int]);
            return false;
        }
        k = k + 1;
    }
    assert(s@.subrange(i as int, i + m) =~= pattern@);
    true
}

/// Whether `pattern` occurs anywhere in `s`.
pub fn contains_text_exec(s: &str, pattern: &str) -> (r: bool)
    ensures
        r == contains_text(s@, pattern@),
{
    let n = s.unicode_len();
    let mut i: usize = 0;
    while i < n
        invariant
            n == s@.len(),
            i <= n,
            forall|j: int| 0 <= j < i ==> !occurs_at(s@, j, pattern@),
        decreases n - i,
    {
        if occurs_at_exec(s, i, pattern) {
            return true;
        }
        i = i + 1;
    }
    if occurs_at_exec(s, n, pattern) {
        return true;
    }
    assert forall|j: int| !occurs_at(s@, j, pattern@) by {
        if occurs_at(s@, j, pattern@) {
            assert(j <= n);
        }
    }
    false
}

/// `to` put before each character of `s` and at its end (what replacing
/// the empty pattern gives).
fn interleave(s: &str, to: &str) -> (r: String)
    ensures
        r@ == replaced(s@, Seq::<char>::empty(), to@),
{
    let ghost from = Seq::<char>::empty();
    let n = s.unicode_len();
    let mut out = String::new();
    let mut i: usize = 0;
    assert(s@.skip(0) =~= s@);
    while i < n
        invariant
            n == s@.len(),
            i <= n,
            from == Seq::<char>::empty(),
            out@ + replaced(s@.skip(i as int), from, to@) == replaced(s@, from, to@),
        decreases n - i,
    {
        let ghost rest = s@.skip(i as int);
        assert(rest.skip(1) =~= s@.skip(i + 1));
        let c = s.get_char(i);
        assert(rest[0] == c);
        assert(replaced(rest, from, to@) == to@ + (seq![c] + replaced(rest.skip(1), from, to@)));
        let ghost before = out@;
        out.append(to);
        push_char(&mut out, c);
        assert(before + (to@ + (seq![c] + replaced(s@.skip(i + 1), from, to@))) =~= out@ + replaced(s@.skip(i + 1), from, to@));
        i = i + 1;
    }
    assert(s@.skip(n as int) =~= Seq::<char>::empty());
    out.append(to);
    out
}

/// Replaces every occurrence of `from` by `to` (see [`replaced`]).
pub fn replace_text(s: &str, from: &str, to: &str) -> (r: String)
    ensures
        r@ == replaced(s@, from@, to@),
{
    let n = s.unicode_len();
    let m = from.unicode_len();
    if m == 0 {
        assert(from@ =~= Seq::<char>::empty());
        return interleave(s, to);
    }
    let mut out = String::new();
    let mut i: usize = 0;
    assert(s@.skip(0) =~= s@);
    while i < n
        invariant
            n == s@.len(),
            m == from@.len(),
            m > 0,
            i <= n,
            out@ + replaced(s@.skip(i as int), from@, to@) == replaced(s@, from@, to@),
        decreases n - i,
    {
        let ghost rest = s@.skip(i as int);
        if occurs_at_exec(s, i, from) {
            assert(rest.take(m as int) =~= s@.subrange(i as int, i + m));
            assert(rest.skip(m as int) =~= s@.skip(i + m));
            out.append(to);
            assert(out@ + replaced(s@.skip(i + m), from@, to@) =~= out@ + replaced(s@.skip(i + m), from@, to@));
            i = i + m;
        } else {
            proof {
                if rest.len() >= m {
                    assert(rest.take(m as int) =~= s@.subrange(i as int, i + m));
                }
                assert(rest.skip(1) =~= s@.skip(i + 1));
            }
            let c = s.get_char(i);
            let ghost before = out@;
            push_char(&mut out, c);
            assert(before + (seq![c] + replaced(s@.skip(i + 1), from@, to@)) =~= out@ + replaced(s@.skip(i + 1), from@, to@));
            i = i + 1;
        }
    }
    assert(s@.skip(n as int) =~= Seq::<char>::empty());
    assert(out@ + Seq::<char>::empty() =~= out@);
    out
}

} // verus!
