use vstd::prelude::*;

verus! {

/// The view of an optional string.
pub open spec fn opt_str_view(o: Option<String>) -> Option<Seq<char>> {
    match o {
        Some(s) => Some(s@),
        None => None,
    }
}

/// The views of a sequence of strings.
pub open spec fn str_views(s: Seq<String>) -> Seq<Seq<char>> {
    s.map_values(|x: String| x@)
}

/// Appending one string appends its view.
pub proof fn lemma_str_views_push(pre: Seq<String>, post: Seq<String>, xv: Seq<char>)
    requires
        post.len() == pre.len() + 1,
        forall|j: int| 0 <= j < pre.len() ==> post[j] == pre[j],
        post[pre.len() as int]@ == xv,
    ensures
        str_views(post) == str_views(pre).push(xv),
{
    assert forall|j: int| 0 <= j < post.len() implies str_views(post)[j] == str_views(pre).push(
        xv,
    )[j] by {
        assert(str_views(post)[j] == post[j]@);
        if j < pre.len() {
            assert(str_views(pre)[j] == pre[j]@);
        }
    }
    assert(str_views(post) =~= str_views(pre).push(xv));
}

/// Whether a mathematical integer fits in a signed 64-bit machine word.
pub open spec fn within_i64(x: int) -> bool {
    i64::MIN <= x <= i64::MAX
}

} // verus!
