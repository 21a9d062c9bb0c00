//! Target URIs: a backend's base URL joined to a request's sub-path.

use vstd::prelude::*;

verus! {

/// `s` without its trailing slashes.
pub open spec fn trim_end_slashes(s: Seq<char>) -> Seq<char>
    decreases s.len(),
{
    if s.len() > 0 && s.last() == '/' {
        trim_end_slashes(s.drop_last())
    } else {
        s
    }
}

/// `s` without its leading slashes.
pub open spec fn trim_start_slashes(s: Seq<char>) -> Seq<char>
    decreases s.len(),
{
    if s.len() > 0 && s[0] == '/' {
        trim_start_slashes(s.drop_first())
    } else {
        s
    }
}

/// The base without trailing slashes, one slash, the sub-path without leading slashes.
pub open spec fn target_uri(base: Seq<char>, subpath: Seq<char>) -> Seq<char> {
    trim_end_slashes(base) + seq!['/'] + trim_start_slashes(subpath)
}

proof fn lemma_trim_end_prefix(s: Seq<char>, e: int)
    requires
        0 <= e <= s.len(),
        forall|i: int| e <= i < s.len() ==> s[i] == '/',
    ensures
        trim_end_slashes(s) == trim_end_slashes(s.subrange(0, e)),
    decreases s.len() - e,
{
    if e < s.len() {
        assert(s.last() == '/');
        lemma_trim_end_prefix(s.drop_last(), e);
        assert(s.drop_last().subrange(0, e) =~= s.subrange(0, e));
    } else {
        assert(s.subrange(0, e) =~= s);
    }
}

proof fn lemma_trim_start_suffix(s: Seq<char>, b: int)
    requires
        0 <= b <= s.len(),
        forall|i: int| 0 <= i < b ==> s[i] == '/',
    ensures
        trim_start_slashes(s) == trim_start_slashes(s.subrange(b, s.len() as int)),
    decreases b,
{
    if b > 0 {
        lemma_trim_start_suffix(s.drop_first(), b - 1);
        assert(s.drop_first().subrange(b - 1, s.len() - 1) =~= s.subrange(b, s.len() as int));
    } else {
        assert(s.subrange(0, s.len() as int) =~= s);
    }
}

/// Joins `base` and `subpath` with exactly one slash between them.
pub fn join_target(base: &str, subpath: &str) -> (r: String)
    ensures
        r@ == target_uri(base@, subpath@),
{
    let mut end: usize = base.unicode_len();
    while end > 0 && base.get_char(end - 1) == '/'
        invariant
            end <= base@.len(),
            forall|i: int| end <= i < base@.len() ==> base@[i] == '/',
        decreases end,
    {
        end = end - 1;
    }
    proof {
        lemma_trim_end_prefix(base@, end as int);
        assert(trim_end_slashes(base@.subrange(0, end as int)) == base@.subrange(0, end as int));
    }
    let len: usize = subpath.unicode_len();
    let mut start: usize = 0;
    while start < len && subpath.get_char(start) == '/'
        invariant
            len == subpath@.len(),
            start <= len,
            forall|i: int| 0 <= i < start ==> subpath@[i] == '/',
        decreases len - start,
    {
        start = start + 1;
    }
    proof {
        lemma_trim_start_suffix(subpath@, start as int);
        let rest = subpath@.subrange(start as int, len as int);
        assert(rest.len() == 0 || rest[0] != '/');
        assert(trim_start_slashes(rest) == rest);
        reveal_strlit("/");
    }
    let mut r = String::from_str(base.substring_char(0, end));
    r.append("/");
    r.append(subpath.substring_char(start, len));
    r
}

/// Extra slashes at the end of the base or the start of the sub-path do not
/// change the target URI.
pub proof fn lemma_target_slash_insensitive(base: Seq<char>, subpath: Seq<char>)
    ensures
        target_uri(base.push('/'), subpath) == target_uri(base, subpath),
        target_uri(base, seq!['/'] + subpath) == target_uri(base, subpath),
        target_uri(trim_end_slashes(base), trim_start_slashes(subpath)) == target_uri(base, subpath),
{
    assert(base.push('/').drop_last() =~= base);
    assert((seq!['/'] + subpath).drop_first() =~= subpath);
    lemma_trim_end_idempotent(base);
    lemma_trim_start_idempotent(subpath);
}

proof fn lemma_trim_end_idempotent(s: Seq<char>)
    ensures
        trim_end_slashes(trim_end_slashes(s)) == trim_end_slashes(s),
    decreases s.len(),
{
    if s.len() > 0 && s.last() == '/' {
        lemma_trim_end_idempotent(s.drop_last());
    }
}

proof fn lemma_trim_start_idempotent(s: Seq<char>)
    ensures
        trim_start_slashes(trim_start_slashes(s)) == trim_start_slashes(s),
    decreases s.len(),
{
    if s.len() > 0 && s[0] == '/' {
        lemma_trim_start_idempotent(s.drop_first());
    }
}

} // verus!
