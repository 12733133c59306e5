//! Test catalog: turns a directory listing into the deterministically
//! ordered list of test descriptors — one per example source file and build
//! mode, sorted by (name, mode) for reproducible run ordering. The caller
//! reads the directory; everything after that is decided here.

use vstd::prelude::*;
use vstd::relations::sorted_by;
use vstd::seq_lib::group_to_multiset_ensures;
use vstd::string::StrSliceExecFns;
use vstd::string::StringExecFns;
use crate::descriptor::BuildMode;
use crate::descriptor::DescView;
use crate::descriptor::TestDescriptor;
use crate::descriptor::desc_le;
use crate::descriptor::desc_le_exec;
use crate::descriptor::desc_order;
use crate::descriptor::lemma_desc_le_total_ordering;
use crate::descriptor::views_of;
use crate::strutil::str_ends_with;

verus! {

/// A file name counts as an example source exactly when a non-empty stem is
/// followed by the `.rs` suffix.
pub open spec fn is_example_file(name: Seq<char>) -> bool {
    name.len() > 3 && name.subrange(name.len() - 3, name.len() as int) == ".rs"@
}

/// The example name of a source file: the file name without its suffix.
pub open spec fn stem_of(name: Seq<char>) -> Seq<char> {
    name.take(name.len() - 3)
}

/// The descriptors a directory listing gives rise to, in listing order:
/// each example source contributes one descriptor per build mode.
pub open spec fn descriptors_of(names: Seq<Seq<char>>) -> Seq<DescView>
    decreases names.len(),
{
    if names.len() == 0 {
        Seq::empty()
    } else {
        descriptors_of(names.drop_last()) + (if is_example_file(names.last()) {
            seq![
                DescView { name: stem_of(names.last()), mode: BuildMode::Debug },
                DescView { name: stem_of(names.last()), mode: BuildMode::Release },
            ]
        } else {
            Seq::empty()
        })
    }
}

/// The catalog contract has exactly one model: two catalog-ordered lists of
/// the same descriptors are equal, so the ensures of `discover_test_cases`
/// determines its result uniquely.
pub proof fn lemma_sorted_catalog_unique(s: Seq<DescView>, t: Seq<DescView>)
    requires
        sorted_by(s, desc_order()),
        sorted_by(t, desc_order()),
        s.to_multiset() == t.to_multiset(),
    ensures
        s == t,
    decreases s.len(),
{
    broadcast use group_to_multiset_ensures;

    lemma_desc_le_total_ordering();
    let leq = desc_order();
    if s.len() == 0 {
        assert(t.to_multiset().len() == 0);
        assert(s =~= t);
    } else {
        assert(s.to_multiset().len() == s.len());
        assert(t.to_multiset().len() == t.len());
        assert(t.len() == s.len());
        // each head is contained in the other list, so the heads are equal
        assert(s.contains(s[0]));
        assert(s.to_multiset().count(s[0]) > 0);
        assert(t.to_multiset().count(s[0]) > 0);
        assert(t.contains(s[0]));
        assert(t.contains(t[0]));
        assert(t.to_multiset().count(t[0]) > 0);
        assert(s.to_multiset().count(t[0]) > 0);
        assert(s.contains(t[0]));
        let j = choose|j: int| 0 <= j < t.len() && t[j] == s[0];
        let i = choose|i: int| 0 <= i < s.len() && s[i] == t[0];
        assert(leq(t[0], t[j]) || j == 0);
        assert(leq(s[0], s[i]) || i == 0);
        assert(leq(s[0], t[0]) && leq(t[0], s[0]));
        assert(s[0] == t[0]);
        // the tails are sorted and hold the same descriptors
        assert(s.drop_first().to_multiset() == t.drop_first().to_multiset()) by {
            assert(s.remove(0) =~= s.drop_first());
            assert(t.remove(0) =~= t.drop_first());
            assert(s.remove(0).to_multiset() =~= s.to_multiset().remove(s[0]));
            assert(t.remove(0).to_multiset() =~= t.to_multiset().remove(t[0]));
        }
        assert(sorted_by(s.drop_first(), leq)) by {
            assert forall|a: int, b: int| 0 <= a < b < s.drop_first().len() implies leq(
                s.drop_first()[a],
                s.drop_first()[b],
            ) by {
                assert(s.drop_first()[a] == s[a + 1]);
                assert(s.drop_first()[b] == s[b + 1]);
            }
        }
        assert(sorted_by(t.drop_first(), leq)) by {
            assert forall|a: int, b: int| 0 <= a < b < t.drop_first().len() implies leq(
                t.drop_first()[a],
                t.drop_first()[b],
            ) by {
                assert(t.drop_first()[a] == t[a + 1]);
                assert(t.drop_first()[b] == t[b + 1]);
            }
        }
        lemma_sorted_catalog_unique(s.drop_first(), t.drop_first());
        assert(s =~= t) by {
            assert forall|k: int| 0 <= k < s.len() implies s[k] == t[k] by {
                if k > 0 {
                    assert(s.drop_first()[k - 1] == t.drop_first()[k - 1]);
                }
            }
        }
    }
}

/// Inserts a descriptor into a catalog-ordered list, keeping the order.
fn insert_sorted(v: &mut Vec<TestDescriptor>, x: TestDescriptor)
    requires
        sorted_by(views_of(old(v)@), desc_order()),
    ensures
        sorted_by(views_of(final(v)@), desc_order()),
        views_of(final(v)@).to_multiset() == views_of(old(v)@).to_multiset().insert(x@),
        final(v)@.len() == old(v)@.len() + 1,
        forall|i: int|
            0 <= i < final(v)@.len() ==> (old(v)@.contains(#[trigger] final(v)@[i])
                || final(v)@[i] == x),
{
    proof {
        lemma_desc_le_total_ordering();
    }
    let mut i: usize = 0;
    while i < v.len() && desc_le_exec(&v[i], &x)
        invariant
            i <= v@.len(),
            *v == *old(v),
            forall|j: int| 0 <= j < i ==> desc_le(#[trigger] views_of(v@)[j], x@),
        decreases v@.len() - i,
    {
        proof {
            assert(views_of(v@)[i as int] == v@[i as int]@);
        }
        i = i + 1;
    }
    proof {
        if i < v@.len() {
            assert(views_of(v@)[i as int] == v@[i as int]@);
            assert(!desc_le(views_of(v@)[i as int], x@));
        }
    }
    let ghost pre = v@;
    v.insert(i, x);
    proof {
        let leq = desc_order();
        let vv = views_of(pre);
        let ww = views_of(v@);
        assert(v@ == pre.insert(i as int, x));
        assert(ww =~= vv.insert(i as int, x@)) by {
            assert forall|k: int| 0 <= k < ww.len() implies ww[k] == vv.insert(i as int, x@)[k] by {
                assert(ww[k] == v@[k]@);
                if k < i {
                    assert(v@[k] == pre[k]);
                    assert(vv[k] == pre[k]@);
                } else if k == i {
                    assert(v@[k] == x);
                } else {
                    assert(v@[k] == pre[k - 1]);
                    assert(vv[k - 1] == pre[k - 1]@);
                }
            }
        }
        broadcast use group_to_multiset_ensures;

        assert(ww.to_multiset() == vv.to_multiset().insert(x@));
        // the inserted position respects the order on both sides
        assert forall|a: int, b: int| 0 <= a < b < ww.len() implies leq(ww[a], ww[b]) by {
            if b < i {
                assert(leq(vv[a], vv[b]));
            } else if b == i {
                assert(ww[a] == vv[a]);
                assert(desc_le(vv[a], x@));
            } else if a == i {
                assert(ww[b] == vv[b - 1]);
                if i < vv.len() {
                    assert(!desc_le(vv[i as int], x@));
                    assert(!leq(vv[i as int], x@));
                    assert(leq(x@, vv[i as int]) || leq(vv[i as int], x@));
                    assert(leq(x@, vv[i as int]));
                    if b - 1 > i {
                        assert(leq(vv[i as int], vv[b - 1]));
                    }
                }
            } else if a < i {
                assert(ww[a] == vv[a]);
                assert(ww[b] == vv[b - 1]);
                if a == b - 1 {
                    assert(desc_le(vv[a], x@));
                    assert(leq(x@, vv[b - 1]));
                } else {
                    assert(leq(vv[a], vv[b - 1]));
                }
            } else {
                assert(ww[a] == vv[a - 1]);
                assert(ww[b] == vv[b - 1]);
                assert(leq(vv[a - 1], vv[b - 1]));
            }
        }
        // every element of the result is an old element or the new one
        assert forall|k: int|
            0 <= k < v@.len() implies (pre.contains(#[trigger] v@[k]) || v@[k] == x) by {
            if k < i {
                assert(v@[k] == pre[k]);
            } else if k > i {
                assert(v@[k] == pre[k - 1]);
            }
        }
    }
}

/// Builds the catalog from a directory listing: one descriptor per example
/// source file and build mode, in catalog order. A listing with no example
/// sources — in particular an absent examples directory, which the caller
/// hands over as an empty listing — yields the empty catalog.
pub fn discover_test_cases(names: &Vec<String>) -> (r: Vec<TestDescriptor>)
    ensures
        sorted_by(views_of(r@), desc_order()),
        views_of(r@).to_multiset() == descriptors_of(names.deep_view()).to_multiset(),
        forall|i: int| 0 <= i < r@.len() ==> (#[trigger] r@[i]).wf(),
{
    let mut out: Vec<TestDescriptor> = Vec::new();
    proof {
        assert(names.deep_view().take(0) =~= Seq::<Seq<char>>::empty());
        assert(views_of(out@) =~= Seq::<DescView>::empty());
        broadcast use group_to_multiset_ensures;
    }
    let mut i: usize = 0;
    while i < names.len()
        invariant
            i <= names@.len(),
            names.deep_view().len() == names@.len(),
            sorted_by(views_of(out@), desc_order()),
            views_of(out@).to_multiset() == descriptors_of(
                names.deep_view().take(i as int),
            ).to_multiset(),
            forall|k: int| 0 <= k < out@.len() ==> (#[trigger] out@[k]).wf(),
        decreases names@.len() - i,
    {
        let ghost prefix = names.deep_view().take(i as int);
        let ghost cur = names.deep_view()[i as int];
        proof {
            assert(names.deep_view().take(i + 1).drop_last() =~= prefix);
            assert(names.deep_view().take(i + 1).last() == cur);
            assert(cur == names@[i as int]@);
        }
        let name = &names[i];
        let n = name.as_str().unicode_len();
        if n > 3 && str_ends_with(name.as_str(), ".rs") {
            proof {
                reveal_strlit(".rs");
                assert(is_example_file(cur));
            }
            let stem = name.as_str().substring_char(0, n - 3);
            let stem_string = String::from_str(stem);
            let d1 = TestDescriptor { name: stem_string.clone(), mode: BuildMode::Debug };
            let d2 = TestDescriptor { name: stem_string, mode: BuildMode::Release };
            proof {
                assert(d1@ == DescView { name: stem_of(cur), mode: BuildMode::Debug });
                assert(d2@ == DescView { name: stem_of(cur), mode: BuildMode::Release });
            }
            insert_sorted(&mut out, d1);
            insert_sorted(&mut out, d2);
            proof {
                broadcast use group_to_multiset_ensures;

                let pair = seq![
                    DescView { name: stem_of(cur), mode: BuildMode::Debug },
                    DescView { name: stem_of(cur), mode: BuildMode::Release },
                ];
                let grown = descriptors_of(prefix) + pair;
                assert(descriptors_of(names.deep_view().take(i + 1)) == grown);
                assert(grown =~= descriptors_of(prefix).push(pair[0]).push(pair[1]));
                assert(grown.to_multiset() == descriptors_of(prefix).to_multiset().insert(
                    pair[0],
                ).insert(pair[1]));
            }
        } else {
            proof {
                reveal_strlit(".rs");
                assert(cur.len() == n);
                assert(!is_example_file(cur));
                assert(descriptors_of(names.deep_view().take(i + 1)) =~= descriptors_of(prefix)
                    + Seq::<DescView>::empty());
                assert(descriptors_of(names.deep_view().take(i + 1)) =~= descriptors_of(prefix));
            }
        }
        i = i + 1;
    }
    proof {
        assert(names.deep_view().take(names@.len() as int) =~= names.deep_view());
    }
    out
}

} // verus!
