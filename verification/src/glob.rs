//! A small wildcard matcher: `*` matches any run of characters, `?` exactly one.

use vstd::prelude::*;

verus! {

/// Whether `pat` matches the whole of `txt`.
pub open spec fn glob_spec(pat: Seq<char>, txt: Seq<char>) -> bool
    decreases pat.len(), txt.len(),
{
    if pat.len() == 0 {
        txt.len() == 0
    } else if pat[0] == '*' {
        glob_spec(pat.drop_first(), txt) || (txt.len() > 0 && glob_spec(pat, txt.drop_first()))
    } else {
        txt.len() > 0 && (pat[0] == '?' || pat[0] == txt[0]) && glob_spec(
            pat.drop_first(),
            txt.drop_first(),
        )
    }
}

/// A leading `*` matches exactly when the rest of the pattern matches some suffix.
pub proof fn lemma_star_suffix(pat: Seq<char>, txt: Seq<char>)
    requires
        pat.len() > 0,
        pat[0] == '*',
    ensures
        glob_spec(pat, txt) <==> exists|i: int|
            0 <= i <= txt.len() && #[trigger] glob_spec(pat.drop_first(), txt.skip(i)),
    decreases txt.len(),
{
    assert(txt.skip(0) =~= txt);
    if glob_spec(pat.drop_first(), txt) {
        assert(glob_spec(pat.drop_first(), txt.skip(0)));
    }
    if txt.len() > 0 {
        lemma_star_suffix(pat, txt.drop_first());
        assert forall|i: int| 0 <= i <= txt.drop_first().len() implies txt.drop_first().skip(i)
            =~= txt.skip(i + 1) by {}
        if glob_spec(pat, txt) {
            if !glob_spec(pat.drop_first(), txt) {
                let i = choose|i: int|
                    0 <= i <= txt.drop_first().len() && #[trigger] glob_spec(
                        pat.drop_first(),
                        txt.drop_first().skip(i),
                    );
                assert(glob_spec(pat.drop_first(), txt.skip(i + 1)));
            }
        }
        if exists|i: int| 0 <= i <= txt.len() && #[trigger] glob_spec(pat.drop_first(), txt.skip(i)) {
            let i = choose|i: int| 0 <= i <= txt.len() && #[trigger] glob_spec(pat.drop_first(), txt.skip(i));
            if i > 0 {
                assert(txt.drop_first().skip(i - 1) =~= txt.skip(i));
                assert(glob_spec(pat.drop_first(), txt.drop_first().skip(i - 1)));
            }
        }
    }
}

/// Matches `name` against the wildcard pattern `pattern` (`*` and `?` only).
pub fn glob_match(pattern: &str, name: &str) -> (r: bool)
    ensures
        r == glob_spec(pattern@, name@),
{
    let pat = crate::text::chars_of(pattern);
    let txt = crate::text::chars_of(name);
    glob_match_inner(pat.as_slice(), txt.as_slice())
}

/// Whether the pattern `pat` matches all of `txt`.
pub fn glob_match_inner(pat: &[char], txt: &[char]) -> (r: bool)
    ensures
        r == glob_spec(pat@, txt@),
    decreases pat@.len(), txt@.len(),
{
    if pat.len() == 0 {
        return txt.len() == 0;
    }
    if pat[0] == '*' {
        let rest = &pat[1..pat.len()];
        assert(rest@ =~= pat@.drop_first());
        proof {
            lemma_star_suffix(pat@, txt@);
        }
        let mut i: usize = 0;
        while i <= txt.len()
            invariant
                0 <= i <= txt@.len() + 1,
                pat@.len() > 0,
                pat@[0] == '*',
                rest@ == pat@.drop_first(),
                glob_spec(pat@, txt@) <==> exists|j: int|
                    0 <= j <= txt@.len() && #[trigger] glob_spec(pat@.drop_first(), txt@.skip(j)),
                forall|j: int| 0 <= j < i ==> !#[trigger] glob_spec(rest@, txt@.skip(j)),
            decreases txt@.len() + 1 - i,
        {
            let suffix = &txt[i..txt.len()];
            assert(suffix@ =~= txt@.skip(i as int));
            if glob_match_inner(rest, suffix) {
                return true;
            }
            if i == txt.len() {
                return false;
            }
            i = i + 1;
        }
        return false;
    }
    if txt.len() == 0 {
        return false;
    }
    if pat[0] == '?' || pat[0] == txt[0] {
        let p1 = &pat[1..pat.len()];
        let t1 = &txt[1..txt.len()];
        assert(p1@ =~= pat@.drop_first());
        assert(t1@ =~= txt@.drop_first());
        return glob_match_inner(p1, t1);
    }
    false
}

} // verus!
