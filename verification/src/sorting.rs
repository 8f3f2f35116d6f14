//! The listing pipeline's pure stages: dotfile filtering of enumerated
//! child names and the sort engine that produces the fully ordered
//! entry list.

use vstd::prelude::*;
use vstd::seq_lib::group_to_multiset_ensures;

use crate::item::{
    compare_items, full_cmp, lemma_order_flip, lemma_order_trans, Item, ItemKind,
    ReadDirOptions, SortMode,
};
use crate::text::Order;
use crate::utils::{is_dotfile, is_dotfile_spec};

verus! {

/// Whether a child of the given name survives the dotfile filter.
pub open spec fn keep_spec(name: Seq<char>, skip_dotfiles: bool) -> bool {
    !(skip_dotfiles && is_dotfile_spec(name))
}

/// The child names surviving the dotfile filter, in enumeration order.
pub open spec fn kept_names(names: Seq<String>, skip_dotfiles: bool) -> Seq<String> {
    names.filter(|n: String| keep_spec(n@, skip_dotfiles))
}

/// Filters the enumerated child names: when `skip_dotfiles` is set,
/// every name that begins with a dot is dropped; order is preserved.
pub fn filter_children(names: Vec<String>, skip_dotfiles: bool) -> (r: Vec<String>)
    ensures
        r@ == kept_names(names@, skip_dotfiles),
{
    let ghost pred = |n: String| keep_spec(n@, skip_dotfiles);
    let mut out: Vec<String> = Vec::new();
    let mut i: usize = 0;
    while i < names.len()
        invariant
            i <= names@.len(),
            out@ == names@.take(i as int).filter(pred),
            pred == (|n: String| keep_spec(n@, skip_dotfiles)),
        decreases names@.len() - i,
    {
        let name = names[i].clone();
        let keep = if skip_dotfiles {
            !is_dotfile(name.as_str())
        } else {
            true
        };
        proof {
            assert(name == names@[i as int]);
            assert(keep == pred(names@[i as int]));
            assert(names@.take(i + 1).drop_last() =~= names@.take(i as int));
            assert(names@.take(i + 1).last() == names@[i as int]);
            reveal_with_fuel(Seq::filter, 2);
        }
        if keep {
            out.push(name);
        }
        i = i + 1;
    }
    proof {
        assert(names@.take(names@.len() as int) =~= names@);
    }
    out
}

/// The number of enumerated children the dotfile filter drops.
pub open spec fn dropped_count(names: Seq<String>, skip_dotfiles: bool) -> int {
    names.filter(|n: String| !keep_spec(n@, skip_dotfiles)).len() as int
}

/// The surviving children and the dropped children partition the
/// enumeration: the listing holds exactly the children minus the
/// dotfiles the options exclude.
pub proof fn lemma_filter_count(names: Seq<String>, skip_dotfiles: bool)
    ensures
        kept_names(names, skip_dotfiles).len() + dropped_count(names, skip_dotfiles)
            == names.len(),
    decreases names.len(),
{
    reveal_with_fuel(Seq::filter, 2);
    if names.len() > 0 {
        lemma_filter_count(names.drop_last(), skip_dotfiles);
    }
}

/// Whether `s` is ordered by the sort comparison.
pub open spec fn sorted_by(s: Seq<Item>, mode: SortMode, dirs_first: bool) -> bool {
    forall|i: int, j: int|
        0 <= i < j < s.len() ==> full_cmp(s[i], s[j], mode, dirs_first) <= 0
}

/// Whether `a` orders no later than `b` under the options.
fn le_exec(a: &Item, b: &Item, options: &ReadDirOptions) -> (r: bool)
    ensures
        r == (full_cmp(*a, *b, options.sort_mode, options.sort_directories_first) <= 0),
{
    if options.sort_directories_first {
        let ad = a.typ == ItemKind::Directory;
        let bd = b.typ == ItemKind::Directory;
        if ad && !bd {
            return true;
        }
        if !ad && bd {
            return false;
        }
    }
    match compare_items(a, b, options.sort_mode) {
        Order::Greater => false,
        _ => true,
    }
}

/// Sorts the entries in place under the configured mode, with
/// directories first when requested. The result is a permutation of
/// the input, ordered by the sort comparison; with directories first,
/// no non-directory precedes any directory.
pub fn sort_items(items: &mut Vec<Item>, options: &ReadDirOptions)
    ensures
        final(items)@.to_multiset() == old(items)@.to_multiset(),
        final(items)@.len() == old(items)@.len(),
        sorted_by(final(items)@, options.sort_mode, options.sort_directories_first),
        options.sort_directories_first ==> forall|i: int, j: int|
            0 <= i < j < final(items)@.len() && (#[trigger] final(items)@[j]).typ is Directory
                ==> (#[trigger] final(items)@[i]).typ is Directory,
{
    broadcast use group_to_multiset_ensures;

    let ghost orig = items@;
    let ghost mode = options.sort_mode;
    let ghost df = options.sort_directories_first;
    if items.len() > 1 {
        let mut i: usize = 1;
        while i < items.len()
            invariant
                1 <= i <= items@.len(),
                items@.len() == orig.len(),
                items@.to_multiset() == orig.to_multiset(),
                sorted_by(items@.take(i as int), mode, df),
                mode == options.sort_mode,
                df == options.sort_directories_first,
            decreases items@.len() - i,
        {
            let mut j: usize = i;
            while j > 0 && !le_exec(&items[j - 1], &items[i], options)
                invariant
                    0 <= j <= i < items@.len(),
                    mode == options.sort_mode,
                    df == options.sort_directories_first,
                    forall|k: int|
                        j <= k < i ==> full_cmp(
                            #[trigger] items@[k],
                            items@[i as int],
                            mode,
                            df,
                        ) > 0,
                decreases j,
            {
                j = j - 1;
            }
            let ghost s0 = items@;
            let ghost x = items@[i as int];
            let moved = items.remove(i);
            items.insert(j, moved);
            proof {
                broadcast use vstd::multiset::group_multiset_axioms;

                let s2 = items@;
                assert(s2 == s0.remove(i as int).insert(j as int, x));
                vstd::seq_lib::to_multiset_remove(s0, i as int);
                vstd::seq_lib::to_multiset_insert(s0.remove(i as int), j as int, x);
                assert(s2.to_multiset() == s0.to_multiset().remove(x).insert(x));
                s0.to_multiset_ensures();
                assert(s0.to_multiset().count(x) > 0) by {
                    assert(s0.contains(x));
                }
                assert(s2.to_multiset() =~= s0.to_multiset());
                let t = s0.take(i as int);
                assert forall|u: int, v: int| 0 <= u < v < i implies full_cmp(
                    s0[u],
                    s0[v],
                    mode,
                    df,
                ) <= 0 by {
                    assert(t[u] == s0[u] && t[v] == s0[v]);
                    assert(full_cmp(t[u], t[v], mode, df) <= 0);
                }
                // The moved entry sits at j; everything in [j, i) shifted
                // one place right and orders strictly after it.
                assert forall|p: int, q: int| 0 <= p < q < i + 1 implies full_cmp(
                    s2[p],
                    s2[q],
                    mode,
                    df,
                ) <= 0 by {
                    if q < j {
                        assert(s2[p] == s0[p] && s2[q] == s0[q]);
                    } else if p < j && q == j {
                        assert(s2[p] == s0[p] && s2[q] == x);
                        assert(full_cmp(s0[j - 1], x, mode, df) <= 0);
                        if p < j - 1 {
                            assert(full_cmp(s0[p], s0[j - 1], mode, df) <= 0);
                            lemma_order_trans(s0[p], s0[j - 1], x, mode, df);
                        }
                    } else if p < j && q > j {
                        assert(s2[p] == s0[p] && s2[q] == s0[q - 1]);
                        assert(p < q - 1 < i);
                    } else if p == j && q > j {
                        assert(s2[p] == x && s2[q] == s0[q - 1]);
                        assert(full_cmp(s0[q - 1], x, mode, df) > 0);
                        lemma_order_flip(s0[q - 1], x, mode, df);
                    } else {
                        assert(p > j && q > j);
                        assert(s2[p] == s0[p - 1] && s2[q] == s0[q - 1]);
                    }
                }
                assert(sorted_by(items@.take(i + 1), mode, df)) by {
                    assert(forall|k: int| 0 <= k < i + 1 ==> items@.take(i + 1)[k] == items@[k]);
                }
            }
            i = i + 1;
        }
        proof {
            assert(items@.take(items@.len() as int) =~= items@);
        }
    }
    proof {
        if df {
            assert forall|i: int, j: int|
                0 <= i < j < items@.len() && (#[trigger] items@[j]).typ is Directory implies (
            #[trigger] items@[i]).typ is Directory by {
                if !(items@[i].typ is Directory) {
                    assert(full_cmp(items@[i], items@[j], mode, df) == 1);
                }
            }
        }
    }
}

} // verus!
