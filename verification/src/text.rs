//! Small string helpers: separator joining and substring search.

use vstd::prelude::*;
use vstd::string::StringExecFns;

verus! {

/// The items joined with the separator between consecutive items.
pub open spec fn spec_join(items: Seq<Seq<char>>, sep: Seq<char>) -> Seq<char>
    decreases items.len(),
{
    if items.len() == 0 {
        Seq::empty()
    } else if items.len() == 1 {
        items[0]
    } else {
        spec_join(items.drop_last(), sep) + sep + items.last()
    }
}

/// Join the strings with the separator between consecutive entries.
pub fn join_strings(items: &Vec<String>, sep: &str) -> (r: String)
    ensures
        r@ == spec_join(items.deep_view(), sep@),
{
    let ghost dv = items.deep_view();
    proof {
        assert(dv.len() == items@.len());
        assert forall|i: int| 0 <= i < items@.len() implies #[trigger] dv[i] == items@[i]@ by {}
    }
    let n = items.len();
    let mut out = String::new();
    let mut k: usize = 0;
    while k < n
        invariant
            n == items@.len(),
            k <= n,
            dv == items.deep_view(),
            dv.len() == n,
            forall|i: int| 0 <= i < n ==> #[trigger] dv[i] == items@[i]@,
            out@ == spec_join(dv.take(k as int), sep@),
        decreases n - k,
    {
        if k > 0 {
            out.append(sep);
        }
        out.append(items[k].as_str());
        proof {
            let pre = dv.take(k as int);
            let cur = dv.take(k + 1);
            assert(cur.drop_last() =~= pre);
            assert(cur.last() == dv[k as int]);
            if k == 0 {
                assert(out@ =~= spec_join(cur, sep@));
            } else {
                assert(out@ =~= spec_join(pre, sep@) + sep@ + dv[k as int]);
            }
        }
        k += 1;
    }
    proof {
        assert(dv.take(n as int) =~= dv);
    }
    out
}

/// Does the needle occur in the haystack as a contiguous run of characters?
pub open spec fn spec_contains(hay: Seq<char>, needle: Seq<char>) -> bool {
    exists|i: int|
        0 <= i <= hay.len() - needle.len() && #[trigger] hay.subrange(i, i + needle.len())
            == needle
}

/// Relies on str::contains: whether the pattern matches a sub-slice of the string.
#[verifier::external_body]
pub(crate) fn str_contains(hay: &str, needle: &str) -> (r: bool)
    ensures
        r == spec_contains(hay@, needle@),
{
    hay.contains(needle)
}

} // verus!
