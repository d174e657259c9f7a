//! Small helpers on agent keys.

use vstd::prelude::*;
use crate::types::AgentKey;

verus! {

/// The keys appear in strictly increasing order: sorted, with no duplicates.
pub open spec fn sorted_strict(s: Seq<AgentKey>) -> bool {
    forall|i: int, j: int| 0 <= i < j < s.len() ==> s[i].raw < s[j].raw
}

/// Inserts a key into a strictly sorted vector at its place, unless it is
/// already there.
fn insert_sorted_unique(out: &mut Vec<AgentKey>, a: AgentKey)
    requires
        sorted_strict(old(out)@),
    ensures
        sorted_strict(final(out)@),
        forall|x: AgentKey| final(out)@.contains(x) <==> (old(out)@.contains(x) || x == a),
{
    let ghost orig = out@;
    let mut j: usize = 0;
    while j < out.len() && out[j].raw < a.raw
        invariant
            j <= out@.len(),
            out@ == orig,
            forall|t: int| 0 <= t < j ==> (#[trigger] out@[t]).raw < a.raw,
        decreases out@.len() - j,
    {
        j = j + 1;
    }
    if j < out.len() && out[j].raw == a.raw {
        proof {
            assert(out@[j as int] == a);
            assert(out@.contains(a));
            assert forall|x: AgentKey| out@.contains(x) <==> (orig.contains(x) || x == a) by {}
        }
    } else {
        out.insert(j, a);
        proof {
            let s2 = out@;
            assert(s2 == orig.insert(j as int, a));
            assert forall|i: int, k: int| 0 <= i < k < s2.len() implies s2[i].raw < s2[k].raw by {
                if i < j && k < j {
                    assert(s2[i] == orig[i] && s2[k] == orig[k]);
                } else if i < j && k == j {
                    assert(s2[i] == orig[i]);
                } else if i < j && k > j {
                    assert(s2[i] == orig[i] && s2[k] == orig[k - 1]);
                    if k - 1 == j as int {
                        assert(orig[j as int].raw > a.raw);
                    }
                } else if i == j {
                    assert(s2[k] == orig[k - 1]);
                    assert(orig[k - 1].raw >= orig[j as int].raw);
                    assert(orig[j as int].raw > a.raw);
                } else {
                    assert(s2[i] == orig[i - 1] && s2[k] == orig[k - 1]);
                }
            }
            assert forall|x: AgentKey| s2.contains(x) <==> (orig.contains(x) || x == a) by {
                if s2.contains(x) {
                    let t = choose|t: int| 0 <= t < s2.len() && s2[t] == x;
                    if t < j {
                        assert(orig[t] == x);
                        assert(orig.contains(x));
                    } else if t == j {
                    } else {
                        assert(orig[t - 1] == x);
                        assert(orig.contains(x));
                    }
                }
                if orig.contains(x) {
                    let t = choose|t: int| 0 <= t < orig.len() && orig[t] == x;
                    if t < j {
                        assert(s2[t] == x);
                    } else {
                        assert(s2[t + 1] == x);
                    }
                    assert(s2.contains(x));
                }
                if x == a {
                    assert(s2[j as int] == x);
                    assert(s2.contains(x));
                }
            }
        }
    }
}

/// The distinct agent keys of a list, in increasing order: sorts and
/// removes duplicates, keeping exactly the keys that were present.
pub fn address_deduper(agent_vec: Vec<AgentKey>) -> (r: Vec<AgentKey>)
    ensures
        sorted_strict(r@),
        forall|x: AgentKey| r@.contains(x) <==> agent_vec@.contains(x),
{
    let mut out: Vec<AgentKey> = Vec::new();
    let mut i: usize = 0;
    proof {
        assert(agent_vec@.take(0) =~= Seq::<AgentKey>::empty());
    }
    while i < agent_vec.len()
        invariant
            i <= agent_vec@.len(),
            sorted_strict(out@),
            forall|x: AgentKey| out@.contains(x) <==> agent_vec@.take(i as int).contains(x),
        decreases agent_vec@.len() - i,
    {
        let a = agent_vec[i];
        insert_sorted_unique(&mut out, a);
        proof {
            let pre = agent_vec@.take(i as int);
            let post = agent_vec@.take(i + 1);
            assert(post =~= pre.push(agent_vec@[i as int]));
            assert forall|x: AgentKey| post.contains(x) <==> (pre.contains(x) || x == a) by {
                if post.contains(x) {
                    let t = choose|t: int| 0 <= t < post.len() && post[t] == x;
                    if t < pre.len() {
                        assert(pre[t] == x);
                        assert(pre.contains(x));
                    }
                }
                if pre.contains(x) {
                    let t = choose|t: int| 0 <= t < pre.len() && pre[t] == x;
                    assert(post[t] == x);
                    assert(post.contains(x));
                }
                if x == a {
                    assert(post[pre.len() as int] == x);
                    assert(post.contains(x));
                }
            }
        }
        i = i + 1;
    }
    proof {
        assert(agent_vec@.take(agent_vec@.len() as int) =~= agent_vec@);
    }
    out
}

} // verus!
