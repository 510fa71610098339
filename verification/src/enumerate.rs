//! Item enumeration: turning the raw children of a source directory into the
//! candidate item list, hiding dotted names and imposing the display order
//! (directories first, then case-insensitive lexicographic).

use vstd::prelude::*;
use vstd::multiset::Multiset;

use crate::models::{Item, ItemStatus};
use crate::text::{lex_le, lower_of, lowercase, str_lex_le};
use crate::text::{lemma_lex_le_total, lemma_lex_le_trans};

verus! {

/// One direct child of a source directory, as observed on disk.
#[derive(Clone, Debug, PartialEq)]
pub struct DirEntryRecord {
    pub name: String,
    pub is_directory: bool,
    pub path: String,
}

/// A directory entry is listed unless its name starts with the hidden-file
/// marker.
pub open spec fn visible(name: Seq<char>) -> bool {
    name.len() == 0 || name[0] != '.'
}

/// The candidate item a directory entry gives rise to, before any status
/// resolution.
pub open spec fn entry_item(e: DirEntryRecord) -> Item {
    Item {
        name: e.name,
        is_directory: e.is_directory,
        source_path: e.path,
        status: ItemStatus::Inactive,
        enabled: false,
        conflict_source: None,
    }
}

/// Display order: directories before files; within a group, case-insensitive
/// lexicographic order of the names.
pub open spec fn item_le(a: Item, b: Item) -> bool {
    if a.is_directory != b.is_directory {
        a.is_directory
    } else {
        lex_le(lower_of(a.name@), lower_of(b.name@))
    }
}

/// `item_le` is total.
pub proof fn lemma_item_le_total(a: Item, b: Item)
    ensures
        item_le(a, b) || item_le(b, a),
{
    if a.is_directory == b.is_directory {
        lemma_lex_le_total(lower_of(a.name@), lower_of(b.name@));
    }
}

/// `item_le` is transitive.
pub proof fn lemma_item_le_trans(a: Item, b: Item, c: Item)
    requires
        item_le(a, b),
        item_le(b, c),
    ensures
        item_le(a, c),
{
    if a.is_directory == b.is_directory && b.is_directory == c.is_directory {
        lemma_lex_le_trans(lower_of(a.name@), lower_of(b.name@), lower_of(c.name@));
    }
}

/// Non-strict sortedness of an item sequence under [`item_le`].
pub open spec fn items_sorted(s: Seq<Item>) -> bool {
    forall|i: int, j: int| 0 <= i < j < s.len() ==> item_le(s[i], s[j])
}

/// Executable form of [`item_le`].
fn item_le_exec(a: &Item, b: &Item) -> (r: bool)
    ensures
        r == item_le(*a, *b),
{
    if a.is_directory != b.is_directory {
        a.is_directory
    } else {
        let la = lowercase(a.name.as_str());
        let lb = lowercase(b.name.as_str());
        str_lex_le(la.as_str(), lb.as_str())
    }
}

/// Sorts items into display order. The result is a permutation of the input.
pub fn sort_items(input: Vec<Item>) -> (r: Vec<Item>)
    ensures
        r@.to_multiset() == input@.to_multiset(),
        items_sorted(r@),
{
    broadcast use vstd::seq_lib::group_to_multiset_ensures;
    broadcast use vstd::multiset::group_multiset_axioms;

    let mut rest = input;
    let mut out: Vec<Item> = Vec::new();
    proof {
        assert(out@.to_multiset().add(rest@.to_multiset()) =~= input@.to_multiset());
    }
    while rest.len() > 0
        invariant
            out@.to_multiset().add(rest@.to_multiset()) == input@.to_multiset(),
            items_sorted(out@),
            forall|i: int, j: int|
                0 <= i < out@.len() && 0 <= j < rest@.len() ==> item_le(out@[i], rest@[j]),
        decreases rest.len(),
    {
        let mut m: usize = 0;
        let mut k: usize = 1;
        proof {
            lemma_item_le_total(rest@[0], rest@[0]);
        }
        while k < rest.len()
            invariant
                0 <= m < k <= rest@.len(),
                forall|y: int| 0 <= y < k ==> item_le(rest@[m as int], rest@[y]),
            decreases rest.len() - k,
        {
            if !item_le_exec(&rest[m], &rest[k]) {
                proof {
                    lemma_item_le_total(rest@[m as int], rest@[k as int]);
                    assert forall|y: int| 0 <= y < k + 1 implies item_le(
                        rest@[k as int],
                        rest@[y],
                    ) by {
                        if y < k {
                            lemma_item_le_trans(rest@[k as int], rest@[m as int], rest@[y]);
                        } else {
                            lemma_item_le_total(rest@[k as int], rest@[k as int]);
                        }
                    }
                }
                m = k;
            }
            k = k + 1;
        }
        let ghost old_out = out@;
        let ghost old_rest = rest@;
        let x = rest.remove(m);
        out.push(x);
        proof {
            broadcast use vstd::seq_lib::group_to_multiset_ensures;
            broadcast use vstd::multiset::group_multiset_axioms;

            assert(rest@ == old_rest.remove(m as int));
            assert(old_rest.contains(x)) by {
                assert(old_rest[m as int] == x);
            }
            assert(old_rest.to_multiset().count(x) > 0);
            assert(old_rest.remove(m as int).to_multiset() =~= old_rest.to_multiset().remove(
                old_rest[m as int],
            ));
            assert(rest@.to_multiset() =~= old_rest.to_multiset().remove(x));
            assert(out@.to_multiset() =~= old_out.to_multiset().insert(x));
            assert(out@.to_multiset().add(rest@.to_multiset()) =~= input@.to_multiset());
            assert forall|j: int| 0 <= j < rest@.len() implies item_le(x, rest@[j]) by {
                if j < m {
                    assert(rest@[j] == old_rest[j]);
                } else {
                    assert(rest@[j] == old_rest[j + 1]);
                }
            }
            assert forall|i: int, j: int|
                0 <= i < out@.len() && 0 <= j < rest@.len() implies item_le(
                out@[i],
                rest@[j],
            ) by {
                if i < old_out.len() {
                    if j < m {
                        assert(rest@[j] == old_rest[j]);
                    } else {
                        assert(rest@[j] == old_rest[j + 1]);
                    }
                } else {
                    assert(out@[i] == x);
                }
            }
        }
    }
    proof {
        assert(rest@.to_multiset() =~= Multiset::<Item>::empty());
        assert(out@.to_multiset() =~= input@.to_multiset());
    }
    out
}

/// Builds the candidate item list from raw directory entries: hidden names
/// are dropped, every other entry becomes an [`Item`] with no status yet,
/// and the result is sorted into display order.
pub fn build_item_list(entries: Vec<DirEntryRecord>) -> (r: Vec<Item>)
    ensures
        r@.to_multiset() == entries@.map_values(|e: DirEntryRecord| entry_item(e)).filter(
            |it: Item| visible(it.name@),
        ).to_multiset(),
        items_sorted(r@),
{
    let ghost all = entries@.map_values(|e: DirEntryRecord| entry_item(e));
    let mut kept: Vec<Item> = Vec::new();
    let mut i: usize = 0;
    proof {
        assert(all.subrange(0, 0) =~= Seq::<Item>::empty());
        assert(kept@ =~= all.subrange(0, 0).filter(|it: Item| visible(it.name@)));
    }
    while i < entries.len()
        invariant
            0 <= i <= entries@.len(),
            all == entries@.map_values(|e: DirEntryRecord| entry_item(e)),
            kept@ == all.subrange(0, i as int).filter(|it: Item| visible(it.name@)),
        decreases entries@.len() - i,
    {
        let e = &entries[i];
        let hidden = if e.name.as_str().unicode_len() == 0 {
            false
        } else {
            e.name.as_str().get_char(0) == '.'
        };
        let ghost prev = all.subrange(0, i as int);
        proof {
            reveal(Seq::filter);
            assert(all.subrange(0, i + 1).drop_last() =~= prev);
            assert(all.subrange(0, i + 1).last() == entry_item(entries@[i as int]));
        }
        if !hidden {
            let item = Item {
                name: e.name.clone(),
                is_directory: e.is_directory,
                source_path: e.path.clone(),
                status: ItemStatus::Inactive,
                enabled: false,
                conflict_source: None,
            };
            proof {
                assert(visible(entry_item(entries@[i as int]).name@));
            }
            kept.push(item);
            proof {
                assert(item == entry_item(entries@[i as int]));
                assert(kept@ =~= all.subrange(0, i + 1).filter(|it: Item| visible(it.name@)));
            }
        } else {
            proof {
                assert(!visible(entry_item(entries@[i as int]).name@));
                assert(kept@ =~= all.subrange(0, i + 1).filter(|it: Item| visible(it.name@)));
            }
        }
        i = i + 1;
    }
    proof {
        assert(all.subrange(0, entries@.len() as int) =~= all);
    }
    sort_items(kept)
}

} // verus!
