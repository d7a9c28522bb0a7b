//! The model catalog: a keyed mapping built from the fixed built-in list,
//! then overwritten and extended by the operator-configured overrides from
//! settings. Later entries win by key; the result is presented in key order.

use vstd::prelude::*;
use crate::models::{
    AvailableModel, CatalogEntry, DescView, EntryView, GrokSettings, builtin_entries,
    builtin_list, entry_views, sorted_by_key,
};
use crate::text::{lemma_lex_irrefl, lemma_lex_total, lex_lt, str_lt};

verus! {

/// The keyed mapping that a sequence of insertions leaves behind: each
/// entry overwrites the slot of its key, so the last entry with a key wins.
pub open spec fn table(s: Seq<EntryView>) -> Map<Seq<char>, DescView>
    decreases s.len(),
{
    if s.len() == 0 {
        Map::empty()
    } else {
        table(s.drop_last()).insert(s.last().key, s.last().model)
    }
}

/// The catalog that a settings value calls for: built-ins first, then the
/// overrides, each override keyed by its own name.
pub open spec fn catalog_input(overrides: Seq<DescView>) -> Seq<EntryView> {
    builtin_list() + Seq::new(overrides.len(), |i: int| EntryView {
        key: overrides[i].name,
        model: overrides[i],
    })
}

pub open spec fn catalog_table(overrides: Seq<DescView>) -> Map<Seq<char>, DescView> {
    table(catalog_input(overrides))
}

/// The entry list `s` is exactly the mapping `t`, laid out in strict key
/// order: every entry carries its key's descriptor, and every key of `t`
/// appears.
pub open spec fn represents(s: Seq<EntryView>, t: Map<Seq<char>, DescView>) -> bool {
    &&& sorted_by_key(s)
    &&& forall|i: int|
        0 <= i < s.len() ==> t.dom().contains(#[trigger] s[i].key) && t[s[i].key] == s[i].model
    &&& forall|k: Seq<char>|
        t.dom().contains(k) ==> exists|i: int| 0 <= i < s.len() && (#[trigger] s[i].key) == k
}

/// Inserts one entry into a key-ordered entry list, replacing the entry of
/// an equal key; the list keeps representing the growing mapping.
#[verifier::loop_isolation(false)]
fn insert_sorted(v: &mut Vec<CatalogEntry>, e: CatalogEntry, Ghost(t): Ghost<Map<Seq<char>, DescView>>)
    requires
        represents(entry_views(old(v)@), t),
    ensures
        represents(entry_views(final(v)@), t.insert(e@.key, e@.model)),
{
    let ghost t2 = t.insert(e@.key, e@.model);
    let mut i: usize = 0;
    while i < v.len() && str_lt(v[i].key.as_str(), e.key.as_str())
        invariant
            i <= v.len(),
            forall|j: int| 0 <= j < i ==> lex_lt(entry_views(v@)[j].key, e@.key),
        decreases v.len() - i,
    {
        i = i + 1;
    }
    if i < v.len() && v[i].key == e.key {
        let ghost oldv = entry_views(v@);
        assert(oldv[i as int].key == e@.key);
        v.remove(i);
        v.insert(i, e);
        proof {
            let newv = entry_views(v@);
            assert(newv =~= oldv.update(i as int, EntryView { key: e@.key, model: e@.model }));
            assert forall|j: int| 0 <= j < oldv.len() && j != i implies oldv[j].key != e@.key by {
                if oldv[j].key == e@.key {
                    lemma_lex_irrefl(e@.key);
                }
            }
            assert forall|k: Seq<char>| t2.dom().contains(k) implies exists|j: int|
                0 <= j < newv.len() && (#[trigger] newv[j].key) == k by {
                if k == e@.key {
                    assert(newv[i as int].key == k);
                } else {
                    let j = choose|j: int| 0 <= j < oldv.len() && (#[trigger] oldv[j].key) == k;
                    assert(newv[j].key == k);
                }
            }
            assert(represents(newv, t2));
        }
    } else {
        proof {
            if i < v.len() {
                lemma_lex_total(entry_views(v@)[i as int].key, e@.key);
                assert(lex_lt(e@.key, entry_views(v@)[i as int].key));
            }
        }
        let ghost oldv = entry_views(v@);
        v.insert(i, e);
        proof {
            let newv = entry_views(v@);
            assert(newv =~= oldv.insert(i as int, EntryView { key: e@.key, model: e@.model }));
            assert forall|j: int| 0 <= j < oldv.len() implies oldv[j].key != e@.key by {
                if oldv[j].key == e@.key {
                    lemma_lex_irrefl(e@.key);
                    if j >= i {
                        assert(lex_lt(e@.key, oldv[j].key)) by {
                            if j > i {
                                crate::text::lemma_lex_trans(
                                    e@.key,
                                    oldv[i as int].key,
                                    oldv[j].key,
                                );
                            }
                        }
                    }
                }
            }
            assert(sorted_by_key(newv)) by {
                assert forall|a: int, b: int| 0 <= a < b < newv.len() implies lex_lt(
                    newv[a].key,
                    newv[b].key,
                ) by {
                    if a < i && b > i {
                        assert(lex_lt(oldv[a].key, e@.key));
                        assert(lex_lt(oldv[a].key, oldv[b - 1].key));
                    } else if a == i {
                        assert(lex_lt(e@.key, oldv[i as int].key));
                        if b - 1 > i {
                            crate::text::lemma_lex_trans(
                                e@.key,
                                oldv[i as int].key,
                                oldv[b - 1].key,
                            );
                        }
                    }
                }
            }
            assert forall|k: Seq<char>| t2.dom().contains(k) implies exists|j: int|
                0 <= j < newv.len() && (#[trigger] newv[j].key) == k by {
                if k == e@.key {
                    assert(newv[i as int].key == k);
                } else {
                    let j = choose|j: int| 0 <= j < oldv.len() && (#[trigger] oldv[j].key) == k;
                    if j < i {
                        assert(newv[j].key == k);
                    } else {
                        assert(newv[j + 1].key == k);
                    }
                }
            }
            assert forall|j: int| 0 <= j < newv.len() implies t2.dom().contains(
                #[trigger] newv[j].key,
            ) && t2[newv[j].key] == newv[j].model by {
                if j < i {
                    assert(newv[j] == oldv[j]);
                } else if j > i {
                    assert(newv[j] == oldv[j - 1]);
                }
            }
            assert(represents(newv, t2));
        }
    }
}

impl GrokSettings {
    /// The catalog that these settings produce: the built-in models,
    /// overwritten and extended by `available_models`, one entry per key,
    /// in key order.
    pub fn catalog_entries(&self) -> (r: Vec<CatalogEntry>)
        ensures
            represents(entry_views(r@), catalog_table(self@.available_models)),
    {
        let mut inputs: Vec<CatalogEntry> = builtin_entries();
        let mut k: usize = 0;
        while k < self.available_models.len()
            invariant
                k <= self.available_models.len(),
                entry_views(inputs@) =~= builtin_list() + Seq::new(
                    k as nat,
                    |i: int| EntryView {
                        key: self@.available_models[i].name,
                        model: self@.available_models[i],
                    },
                ),
            decreases self.available_models.len() - k,
        {
            let m: &AvailableModel = &self.available_models[k];
            inputs.push(CatalogEntry { key: m.name.clone(), model: m.to_descriptor() });
            proof {
                let f = |i: int| EntryView {
                    key: self@.available_models[i].name,
                    model: self@.available_models[i],
                };
                let prev = builtin_list() + Seq::new(k as nat, f);
                assert(entry_views(inputs@.drop_last()) =~= prev);
                assert(entry_views(inputs@).drop_last() =~= entry_views(inputs@.drop_last()));
                assert(entry_views(inputs@).last() == f(k as int));
                assert(entry_views(inputs@) =~= prev.push(f(k as int)));
                assert(prev.push(f(k as int)) =~= builtin_list() + Seq::new((k + 1) as nat, f));
            }
            k = k + 1;
        }
        assert(entry_views(inputs@) =~= catalog_input(self@.available_models));

        let ghost all = entry_views(inputs@);
        let mut out: Vec<CatalogEntry> = Vec::new();
        let mut done: usize = 0;
        assert(all.take(0) =~= Seq::<EntryView>::empty());
        while done < inputs.len()
            invariant
                done <= inputs.len(),
                all == entry_views(inputs@),
                represents(entry_views(out@), table(all.take(done as int))),
            decreases inputs.len() - done,
        {
            let e = inputs[done].clone();
            insert_sorted(&mut out, e, Ghost(table(all.take(done as int))));
            proof {
                assert(all.take(done + 1).drop_last() =~= all.take(done as int));
                assert(all.take(done + 1).last() == all[done as int]);
            }
            done = done + 1;
        }
        assert(all.take(inputs@.len() as int) =~= all);
        out
    }
}

/// Override entries win: whenever the overrides hold an entry named `n`,
/// and none after position `j` shares that name, the catalog's slot for
/// `n` carries exactly that override's metadata.
pub proof fn lemma_override_wins(overrides: Seq<DescView>, j: int)
    requires
        0 <= j < overrides.len(),
        forall|k: int| j < k < overrides.len() ==> overrides[k].name != overrides[j].name,
    ensures
        catalog_table(overrides).dom().contains(overrides[j].name),
        catalog_table(overrides)[overrides[j].name] == overrides[j],
{
    lemma_last_wins(catalog_input(overrides), builtin_list().len() + j);
}

/// In the mapping a sequence of insertions builds, the last entry with a
/// key decides that key's slot.
pub proof fn lemma_last_wins(s: Seq<EntryView>, j: int)
    requires
        0 <= j < s.len(),
        forall|k: int| j < k < s.len() ==> s[k].key != s[j].key,
    ensures
        table(s).dom().contains(s[j].key),
        table(s)[s[j].key] == s[j].model,
    decreases s.len(),
{
    if j == s.len() - 1 {
    } else {
        lemma_last_wins(s.drop_last(), j);
    }
}

} // verus!
