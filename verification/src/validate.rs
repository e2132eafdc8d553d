//! Request validation: the email grammar.  An address is a nonempty local
//! part without whitespace or `'@'`, one `'@'`, and a domain of word-character
//! labels separated by single dots.

use vstd::prelude::*;
use vstd::string::StrSliceExecFns;

verus! {

/// A word character: ASCII letter, digit or underscore.
pub open spec fn is_word_char(c: char) -> bool {
    ('a' <= c && c <= 'z') || ('A' <= c && c <= 'Z') || ('0' <= c && c <= '9') || c == '_'
}

/// ASCII whitespace, as the local part of an address may not contain.
pub open spec fn is_space_char(c: char) -> bool {
    c == ' ' || c == '\t' || c == '\n' || c == '\r' || c == '\u{b}' || c == '\u{c}'
}

/// A valid local part: nonempty, no `'@'`, no whitespace.
pub open spec fn valid_local(s: Seq<char>) -> bool {
    s.len() > 0 && forall|i: int| 0 <= i < s.len() ==> s[i] != '@' && !is_space_char(s[i])
}

/// A valid domain: nonempty labels of word characters separated by
/// single dots, with no leading or trailing dot.
pub open spec fn valid_domain(s: Seq<char>) -> bool {
    &&& s.len() > 0
    &&& forall|i: int| 0 <= i < s.len() ==> (is_word_char(#[trigger] s[i]) || s[i] == '.')
    &&& s[0] != '.'
    &&& s[s.len() - 1] != '.'
    &&& forall|i: int| 0 <= i < s.len() - 1 ==> !(#[trigger] s[i] == '.' && s[i + 1] == '.')
}

/// A valid email address: a local part, one `'@'`, a domain.
pub open spec fn valid_email(s: Seq<char>) -> bool {
    exists|k: int|
        0 <= k < s.len() && s[k] == '@' && valid_local(s.take(k)) && valid_domain(s.skip(k + 1))
}

/// Word-character test, as executable code.
fn is_word_char_exec(c: char) -> (r: bool)
    ensures
        r == is_word_char(c),
{
    ('a' <= c && c <= 'z') || ('A' <= c && c <= 'Z') || ('0' <= c && c <= '9') || c == '_'
}

/// Whitespace test, as executable code.
fn is_space_char_exec(c: char) -> (r: bool)
    ensures
        r == is_space_char(c),
{
    c == ' ' || c == '\t' || c == '\n' || c == '\r' || c == '\u{b}' || c == '\u{c}'
}

/// The position of the first `'@'`, if any.
#[verifier::loop_isolation(false)]
fn find_first_at(s: &str) -> (r: Option<usize>)
    ensures
        r matches Some(i) ==> i < s@.len() && s@[i as int] == '@' && (forall|j: int|
            0 <= j < i ==> s@[j] != '@'),
        r is None ==> forall|j: int| 0 <= j < s@.len() ==> s@[j] != '@',
{
    let n = s.unicode_len();
    let mut i: usize = 0;
    while i < n
        invariant
            i <= n,
            n == s@.len(),
            forall|j: int| 0 <= j < i ==> s@[j] != '@',
        decreases n - i,
    {
        if s.get_char(i) == '@' {
            return Some(i);
        }
        i = i + 1;
    }
    None
}

/// In a valid address the split can only sit at the first `'@'`.
proof fn lemma_witness_is_first_at(s: Seq<char>, at: int)
    requires
        0 <= at < s.len(),
        s[at] == '@',
        forall|j: int| 0 <= j < at ==> s[j] != '@',
        valid_email(s),
    ensures
        valid_local(s.take(at)),
        valid_domain(s.skip(at + 1)),
{
    let k = choose|k: int|
        0 <= k < s.len() && s[k] == '@' && valid_local(s.take(k)) && valid_domain(s.skip(k + 1));
    if k < at {
        assert(s[k] != '@');
    } else if k > at {
        assert(s.take(k)[at] == '@');
        assert(!valid_local(s.take(k)));
    }
    assert(k == at);
}

/// Whether a string is a well-formed email address.
#[verifier::loop_isolation(false)]
pub fn is_valid_email(s: &str) -> (r: bool)
    ensures
        r == valid_email(s@),
{
    let n = s.unicode_len();
    let at = match find_first_at(s) {
        Some(at) => at,
        None => {
            proof {
                if valid_email(s@) {
                    let k = choose|k: int|
                        0 <= k < s@.len() && s@[k] == '@' && valid_local(s@.take(k))
                            && valid_domain(s@.skip(k + 1));
                    assert(s@[k] != '@');
                }
            }
            return false;
        },
    };
    if at == 0 {
        proof {
            if valid_email(s@) {
                lemma_witness_is_first_at(s@, 0);
                assert(s@.take(0).len() == 0);
            }
        }
        return false;
    }
    let mut i: usize = 0;
    while i < at
        invariant
            i <= at,
            at < n,
            n == s@.len(),
            s@[at as int] == '@',
            forall|j: int| 0 <= j < at ==> s@[j] != '@',
            forall|j: int| 0 <= j < i ==> !is_space_char(s@[j]),
        decreases at - i,
    {
        let c = s.get_char(i);
        if is_space_char_exec(c) {
            proof {
                if valid_email(s@) {
                    lemma_witness_is_first_at(s@, at as int);
                    assert(s@.take(at as int)[i as int] == s@[i as int]);
                }
            }
            return false;
        }
        i = i + 1;
    }
    if at + 1 == n {
        proof {
            if valid_email(s@) {
                lemma_witness_is_first_at(s@, at as int);
                assert(s@.skip(at as int + 1).len() == 0);
            }
        }
        return false;
    }
    let ghost d = s@.skip(at as int + 1);
    proof {
        assert(d.len() == n - at - 1);
        assert forall|j: int| 0 <= j < d.len() implies #[trigger] d[j] == s@[at as int + 1 + j] by {}
    }
    let mut i2: usize = at + 1;
    let mut prev_dot = false;
    while i2 < n
        invariant
            at + 1 <= i2 <= n,
            at + 1 < n,
            n == s@.len(),
            s@[at as int] == '@',
            forall|j: int| 0 <= j < at ==> s@[j] != '@',
            forall|j: int| 0 <= j < at ==> !is_space_char(s@[j]),
            d == s@.skip(at as int + 1),
            forall|j: int|
                at + 1 <= j < i2 ==> (is_word_char(#[trigger] s@[j]) || s@[j] == '.'),
            i2 > at + 1 ==> s@[at as int + 1] != '.',
            forall|j: int|
                at + 1 <= j < i2 - 1 ==> !(#[trigger] s@[j] == '.' && s@[j + 1] == '.'),
            prev_dot == (i2 > at + 1 && s@[i2 - 1] == '.'),
            i2 == n ==> s@[n - 1] != '.',
        decreases n - i2,
    {
        let c = s.get_char(i2);
        let is_dot = c == '.';
        if !is_word_char_exec(c) && !is_dot {
            proof {
                if valid_email(s@) {
                    lemma_witness_is_first_at(s@, at as int);
                    assert(d[i2 - at - 1] == s@[i2 as int]);
                }
            }
            return false;
        }
        if is_dot {
            if i2 == at + 1 {
                proof {
                    if valid_email(s@) {
                        lemma_witness_is_first_at(s@, at as int);
                        assert(d[0] == s@[at as int + 1]);
                    }
                }
                return false;
            }
            if prev_dot {
                proof {
                    if valid_email(s@) {
                        lemma_witness_is_first_at(s@, at as int);
                        assert(d[i2 - at - 2] == s@[i2 - 1]);
                        assert(d[i2 - at - 1] == s@[i2 as int]);
                    }
                }
                return false;
            }
            if i2 + 1 == n {
                proof {
                    if valid_email(s@) {
                        lemma_witness_is_first_at(s@, at as int);
                        assert(d[d.len() - 1] == s@[n - 1]);
                    }
                }
                return false;
            }
        }
        prev_dot = is_dot;
        i2 = i2 + 1;
    }
    proof {
        assert(valid_local(s@.take(at as int))) by {
            assert forall|j: int| 0 <= j < at implies s@.take(at as int)[j] != '@'
                && !is_space_char(s@.take(at as int)[j]) by {
                assert(s@.take(at as int)[j] == s@[j]);
            }
        }
        assert(valid_domain(d)) by {
            assert forall|j: int| 0 <= j < d.len() implies (is_word_char(#[trigger] d[j]) || d[j]
                == '.') by {
                assert(d[j] == s@[at as int + 1 + j]);
            }
            assert(d[0] == s@[at as int + 1]);
            assert(d[d.len() - 1] == s@[n - 1]);
            assert forall|j: int| 0 <= j < d.len() - 1 implies !(#[trigger] d[j] == '.' && d[j + 1]
                == '.') by {
                assert(d[j] == s@[at as int + 1 + j]);
                assert(d[j + 1] == s@[at as int + 2 + j]);
            }
        }
        assert(valid_email(s@)) by {
            assert(0 <= at < s@.len() && s@[at as int] == '@' && valid_local(s@.take(at as int))
                && valid_domain(s@.skip(at as int + 1)));
        }
    }
    true
}

} // verus!
