//! Text helpers the walk relies on: codepoint-lexicographic name order (the
//! order `sort` gives byte-wise UTF-8 strings), substring search for the
//! interactive pattern mode, exact membership in the target-name set, path
//! joining, and the leading-dot convention for hidden entries.

use vstd::prelude::*;
use vstd::string::StrSliceExecFns;
use vstd::string::StringExecFns;

verus! {

/// Codepoint-lexicographic "less or equal" on character sequences.
pub open spec fn lex_le(a: Seq<char>, b: Seq<char>) -> bool
    decreases a.len(),
{
    if a.len() == 0 {
        true
    } else if b.len() == 0 {
        false
    } else if (a[0] as u32) < (b[0] as u32) {
        true
    } else if (a[0] as u32) == (b[0] as u32) {
        lex_le(a.drop_first(), b.drop_first())
    } else {
        false
    }
}

/// Total-order facts about `lex_le`, so a sort by it is well behaved.
pub proof fn lemma_lex_le_total(a: Seq<char>, b: Seq<char>)
    ensures
        lex_le(a, b) || lex_le(b, a),
    decreases a.len(),
{
    if a.len() > 0 && b.len() > 0 && (a[0] as u32) == (b[0] as u32) {
        lemma_lex_le_total(a.drop_first(), b.drop_first());
    }
}

/// `lex_le` is transitive.
pub proof fn lemma_lex_le_trans(a: Seq<char>, b: Seq<char>, c: Seq<char>)
    requires
        lex_le(a, b),
        lex_le(b, c),
    ensures
        lex_le(a, c),
    decreases a.len(),
{
    if a.len() > 0 && b.len() > 0 && c.len() > 0 && (a[0] as u32) == (b[0] as u32) && (b[0] as u32)
        == (c[0] as u32) {
        lemma_lex_le_trans(a.drop_first(), b.drop_first(), c.drop_first());
    }
}

/// Compares two names in codepoint-lexicographic order.
pub fn str_le(a: &str, b: &str) -> (r: bool)
    ensures
        r == lex_le(a@, b@),
{
    let alen = a.unicode_len();
    let blen = b.unicode_len();
    let mut i: usize = 0;
    proof {
        assert(a@.skip(0) =~= a@);
        assert(b@.skip(0) =~= b@);
    }
    loop
        invariant
            i <= alen,
            i <= blen,
            alen == a@.len(),
            blen == b@.len(),
            lex_le(a@, b@) == lex_le(a@.skip(i as int), b@.skip(i as int)),
        decreases alen - i,
    {
        if i == alen {
            proof {
                assert(a@.skip(i as int) =~= Seq::<char>::empty());
            }
            return true;
        }
        if i == blen {
            return false;
        }
        let ca = a.get_char(i);
        let cb = b.get_char(i);
        if (ca as u32) == (cb as u32) {
            proof {
                assert(a@.skip(i as int).drop_first() =~= a@.skip(i as int + 1));
                assert(b@.skip(i as int).drop_first() =~= b@.skip(i as int + 1));
            }
            i = i + 1;
        } else if (ca as u32) < (cb as u32) {
            return true;
        } else {
            return false;
        }
    }
}

/// Whether `pat` occurs contiguously inside `s` (the empty pattern always
/// does).
pub open spec fn is_substring(pat: Seq<char>, s: Seq<char>) -> bool {
    exists|i: int|
        0 <= i <= s.len() - pat.len() && #[trigger] s.subrange(i, i + pat.len()) == pat
}

/// Substring search, the containment test of the interactive search mode.
pub fn str_contains(s: &str, pat: &str) -> (r: bool)
    ensures
        r == is_substring(pat@, s@),
{
    let slen = s.unicode_len();
    let plen = pat.unicode_len();
    if plen > slen {
        return false;
    }
    if plen == 0 {
        proof {
            assert(s@.subrange(0, 0 + pat@.len() as int) =~= pat@);
        }
        return true;
    }
    let mut i: usize = 0;
    while i <= slen - plen
        invariant
            1 <= plen <= slen,
            slen == s@.len(),
            plen == pat@.len(),
            0 <= i <= slen - plen + 1,
            forall|k: int|
                0 <= k < i ==> #[trigger] s@.subrange(k, k + plen as int) != pat@,
        decreases slen - plen + 1 - i,
    {
        let mut j: usize = 0;
        let mut matched = true;
        while j < plen
            invariant
                plen <= slen,
                slen == s@.len(),
                plen == pat@.len(),
                i + plen <= slen,
                0 <= j <= plen,
                matched ==> forall|l: int| 0 <= l < j ==> s@[i + l] == pat@[l],
                !matched ==> s@.subrange(i as int, i as int + plen as int) != pat@,
            decreases plen - j,
        {
            if matched {
                let cs = s.get_char(i + j);
                let cp = pat.get_char(j);
                if cs != cp {
                    proof {
                        let sub = s@.subrange(i as int, i as int + plen as int);
                        assert(sub[j as int] == s@[i as int + j as int]);
                    }
                    matched = false;
                }
            }
            j = j + 1;
        }
        if matched {
            proof {
                assert(s@.subrange(i as int, i as int + plen as int) =~= pat@);
            }
            return true;
        }
        i = i + 1;
    }
    false
}

/// The path of a child named `name` under `parent`.
pub open spec fn spec_join(parent: Seq<char>, name: Seq<char>) -> Seq<char> {
    parent + seq!['/'] + name
}

/// Joins a parent path and a child name with a slash.
pub fn join_path(parent: &str, name: &str) -> (r: String)
    ensures
        r@ == spec_join(parent@, name@),
{
    let mut s: String = parent.to_owned();
    proof {
        reveal_strlit("/");
    }
    s.append("/");
    s.append(name);
    proof {
        assert(s@ =~= spec_join(parent@, name@));
    }
    s
}

/// Entries whose name starts with a dot are skipped below the root listing.
pub open spec fn spec_hidden(name: Seq<char>) -> bool {
    name.len() > 0 && name[0] == '.'
}

/// Whether a name is hidden by the leading-dot convention.
pub fn is_hidden(name: &str) -> (r: bool)
    ensures
        r == spec_hidden(name@),
{
    if name.unicode_len() == 0 {
        false
    } else {
        name.get_char(0) == '.'
    }
}

/// The views of a list of target names.
pub open spec fn target_views(ts: Seq<String>) -> Seq<Seq<char>> {
    ts.map_values(|t: String| t@)
}

/// Whether `name` equals one of the configured target names exactly.
pub open spec fn spec_in_targets(targets: Seq<Seq<char>>, name: Seq<char>) -> bool {
    exists|i: int| 0 <= i < targets.len() && targets[i] == name
}

/// Exact-equality membership of a name in the target-name set; the matching
/// mode of the cleanup walk.
pub fn name_matches(targets: &Vec<String>, name: &String) -> (r: bool)
    ensures
        r == spec_in_targets(target_views(targets@), name@),
{
    let mut i: usize = 0;
    while i < targets.len()
        invariant
            0 <= i <= targets@.len(),
            forall|k: int| 0 <= k < i ==> target_views(targets@)[k] != name@,
        decreases targets@.len() - i,
    {
        let t: &String = &targets[i];
        if t.eq(name) {
            proof {
                assert(target_views(targets@)[i as int] == name@);
            }
            return true;
        }
        i = i + 1;
    }
    false
}

} // verus!
