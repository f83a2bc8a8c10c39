//! Wildcard patterns as the lexicon tables are searched with them: GLOB
//! patterns, where `*` stands for any run of characters and `?` for one
//! character, compared exactly; and LIKE patterns, where `%` and `_` do the
//! same and ASCII letters match regardless of case.
use vstd::prelude::*;

use crate::text::{ascii_lower_char, lower_char};

verus! {

/// The wildcard for any run of characters.
pub open spec fn any_run(like: bool) -> char {
    if like {
        '%'
    } else {
        '*'
    }
}

/// The wildcard for one character.
pub open spec fn any_one(like: bool) -> char {
    if like {
        '_'
    } else {
        '?'
    }
}

/// Whether a pattern character matches a text character.
pub open spec fn char_matches(p: char, c: char, like: bool) -> bool {
    if like {
        ascii_lower_char(p) == ascii_lower_char(c)
    } else {
        p == c
    }
}

/// Whether the whole text matches the whole pattern.
pub open spec fn pattern_matches(p: Seq<char>, s: Seq<char>, like: bool) -> bool
    decreases p.len(), s.len(),
{
    if p.len() == 0 {
        s.len() == 0
    } else if p[0] == any_run(like) {
        pattern_matches(p.skip(1), s, like) || (s.len() > 0 && pattern_matches(p, s.skip(1), like))
    } else if s.len() == 0 {
        false
    } else if p[0] == any_one(like) || char_matches(p[0], s[0], like) {
        pattern_matches(p.skip(1), s.skip(1), like)
    } else {
        false
    }
}

/// The GLOB test of SQLite for patterns without character sets.
pub open spec fn glob_matches(pattern: Seq<char>, text: Seq<char>) -> bool {
    pattern_matches(pattern, text, false)
}

/// Whether `text` matches `pattern`, computed over all pairs of suffixes,
/// from the ends towards the starts.
pub fn matches_pattern(pattern: &[char], text: &[char], like: bool) -> (r: bool)
    ensures
        r == pattern_matches(pattern@, text@, like),
{
    let p = pattern;
    let s = text;
    let n = s.len();
    let ghost ps = p@;
    let ghost ss = s@;
    // `next[k]` for the suffix of the text at `k < n`, `next_end` for the empty suffix
    let mut next: Vec<bool> = Vec::new();
    let mut j: usize = 0;
    while j < n
        invariant
            n == ss.len(),
            0 <= j <= n,
            next@.len() == j,
            forall|k: int| 0 <= k < j ==> !next@[k],
        decreases n - j,
    {
        next.push(false);
        j += 1;
    }
    let mut next_end = true;
    proof {
        assert forall|k: int| 0 <= k < n implies next@[k] == pattern_matches(
            ps.skip(ps.len() as int),
            #[trigger] ss.skip(k),
            like,
        ) by {
            assert(ps.skip(ps.len() as int).len() == 0);
        }
        assert(ps.skip(ps.len() as int).len() == 0);
        assert(ss.skip(n as int).len() == 0);
    }
    let mut i: usize = p.len();
    while i > 0
        invariant
            ps == p@,
            ss == s@,
            n == ss.len(),
            i <= ps.len(),
            next@.len() == n,
            forall|k: int|
                0 <= k < n ==> next@[k] == pattern_matches(ps.skip(i as int), #[trigger] ss.skip(k), like),
            next_end == pattern_matches(ps.skip(i as int), ss.skip(n as int), like),
        decreases i,
    {
        let pc = p[i - 1];
        let is_run = if like {
            pc == '%'
        } else {
            pc == '*'
        };
        let is_one = if like {
            pc == '_'
        } else {
            pc == '?'
        };
        let mut cur: Vec<bool> = Vec::new();
        let mut k: usize = 0;
        while k < n
            invariant
                0 <= k <= n,
                cur@.len() == k,
            decreases n - k,
        {
            cur.push(false);
            k += 1;
        }
        let ghost pi = ps.skip(i - 1);
        proof {
            assert(pi[0] == pc);
            assert(pi.skip(1) =~= ps.skip(i as int));
            assert(ss.skip(n as int).len() == 0);
        }
        let cur_end = is_run && next_end;
        let mut jj: usize = n;
        while jj > 0
            invariant
                ps == p@,
                ss == s@,
                n == ss.len(),
                i > 0,
                i <= ps.len(),
                pi == ps.skip(i - 1),
                pi.len() > 0,
                pi[0] == pc,
                pi.skip(1) == ps.skip(i as int),
                is_run == (pc == crate::pattern::any_run(like)),
                is_one == (pc == crate::pattern::any_one(like)),
                0 <= jj <= n,
                cur@.len() == n,
                next@.len() == n,
                forall|k: int|
                    0 <= k < n ==> next@[k] == pattern_matches(ps.skip(i as int), #[trigger] ss.skip(k), like),
                next_end == pattern_matches(ps.skip(i as int), ss.skip(n as int), like),
                cur_end == pattern_matches(pi, ss.skip(n as int), like),
                forall|k: int|
                    jj <= k < n ==> cur@[k] == pattern_matches(pi, #[trigger] ss.skip(k), like),
            decreases jj,
        {
            let j = jj - 1;
            let ghost sj = ss.skip(j as int);
            proof {
                assert(sj[0] == ss[j as int]);
                assert(sj.skip(1) =~= ss.skip(j + 1));
            }
            let after_next = if j + 1 < n {
                next[j + 1]
            } else {
                next_end
            };
            let after_cur = if j + 1 < n {
                cur[j + 1]
            } else {
                cur_end
            };
            let value = if is_run {
                next[j] || after_cur
            } else if is_one {
                after_next
            } else {
                let same = if like {
                    lower_char(pc) == lower_char(s[j])
                } else {
                    pc == s[j]
                };
                same && after_next
            };
            proof {
                assert(value == pattern_matches(pi, sj, like));
            }
            cur.set(j, value);
            jj = j;
        }
        next = cur;
        next_end = cur_end;
        i = i - 1;
    }
    proof {
        assert(ps.skip(0) =~= ps);
        assert(ss.skip(0) =~= ss);
    }
    if n > 0 {
        next[0]
    } else {
        next_end
    }
}


/// A pattern that ends in the any-run wildcard matches the empty rest.
proof fn lemma_run_matches_any(s: Seq<char>, like: bool)
    ensures
        pattern_matches(seq![any_run(like)], s, like),
    decreases s.len(),
{
    let p = seq![any_run(like)];
    assert(p[0] == any_run(like));
    assert(p.skip(1) =~= Seq::<char>::empty());
    if s.len() > 0 {
        lemma_run_matches_any(s.skip(1), like);
    } else {
        assert(pattern_matches(p.skip(1), s, like));
    }
}

/// A prefix without wildcards followed by the any-run wildcard matches
/// exactly the texts that start with the prefix: the code-prefix search of
/// the shape tables finds the codes that begin with what was typed.
pub proof fn lemma_prefix_pattern(prefix: Seq<char>, text: Seq<char>)
    requires
        forall|i: int| 0 <= i < prefix.len() ==> #[trigger] prefix[i] != '*' && prefix[i] != '?',
    ensures
        glob_matches(prefix.push('*'), text) <==> (prefix.len() <= text.len() && text.take(
            prefix.len() as int,
        ) == prefix),
    decreases prefix.len(),
{
    let p = prefix.push('*');
    if prefix.len() == 0 {
        assert(p =~= seq!['*']);
        lemma_run_matches_any(text, false);
        assert(text.take(0) =~= prefix);
    } else {
        let rest = prefix.skip(1);
        assert(p.skip(1) =~= rest.push('*'));
        assert(p[0] == prefix[0]);
        assert forall|i: int| 0 <= i < rest.len() implies #[trigger] rest[i] != '*' && rest[i] != '?' by {
            assert(rest[i] == prefix[i + 1]);
        }
        if text.len() > 0 {
            lemma_prefix_pattern(rest, text.skip(1));
            if prefix.len() <= text.len() && text.take(prefix.len() as int) == prefix {
                assert(text[0] == prefix[0]);
                assert(text.skip(1).take(rest.len() as int) =~= rest);
            }
            if text[0] == prefix[0] && rest.len() <= text.skip(1).len() && text.skip(1).take(
                rest.len() as int,
            ) == rest {
                assert forall|i: int| 0 <= i < prefix.len() implies text.take(prefix.len() as int)[i]
                    == prefix[i] by {
                    if i > 0 {
                        assert(text.skip(1).take(rest.len() as int)[i - 1] == rest[i - 1]);
                    }
                }
                assert(text.take(prefix.len() as int) =~= prefix);
            }
        }
    }
}

} // verus!
