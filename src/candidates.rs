//! The list of configurations offered to the operator: every entry of the
//! directory but the link itself, with the file the link points at first.

use vstd::prelude::*;
use crate::names::{link_name, link_name_bytes, same_name, copy_name};

verus! {

/// Whether `name` is offered after the current file: it is neither the link
/// nor the file the link points at.
pub open spec fn is_other(name: Seq<u8>, current: Option<Seq<u8>>) -> bool {
    name != link_name() && current != Some(name)
}

/// The entries of `entries` that are offered after the current file, in the
/// order of the listing.
pub open spec fn others(entries: Seq<Seq<u8>>, current: Option<Seq<u8>>) -> Seq<Seq<u8>>
    decreases entries.len(),
{
    if entries.len() == 0 {
        Seq::empty()
    } else {
        let rest = others(entries.drop_last(), current);
        if is_other(entries.last(), current) {
            rest.push(entries.last())
        } else {
            rest
        }
    }
}

/// The list offered to the operator: the current file, if there is one,
/// then the others.
pub open spec fn candidates(entries: Seq<Seq<u8>>, current: Option<Seq<u8>>) -> Seq<Seq<u8>> {
    match current {
        Some(t) => seq![t] + others(entries, current),
        None => others(entries, current),
    }
}

/// The entries of a listing that are configuration files: all but the link.
pub open spec fn config_files(entries: Seq<Seq<u8>>) -> Seq<Seq<u8>> {
    others(entries, None)
}

/// Builds the list of configurations to choose from, given the names of the
/// directory's entries and the target of the link, if it is a link.
pub fn candidate_list(entries: &Vec<Vec<u8>>, current: &Option<Vec<u8>>) -> (r: Vec<Vec<u8>>)
    ensures
        r.deep_view() == candidates(entries.deep_view(), current.deep_view()),
{
    let link = link_name_bytes();
    let ghost cur = current.deep_view();
    let ghost ents = entries.deep_view();
    let mut r: Vec<Vec<u8>> = Vec::new();
    match current {
        Some(t) => {
            let c = copy_name(t);
            assert(c.deep_view() =~= t.deep_view());
            r.push(c);
        },
        None => {},
    }
    let ghost head = r.deep_view();
    assert(head =~= candidates(Seq::empty(), cur));
    let mut i: usize = 0;
    while i < entries.len()
        invariant
            0 <= i <= entries.len(),
            ents == entries.deep_view(),
            cur == current.deep_view(),
            link@ == link_name(),
            head == candidates(Seq::<Seq<u8>>::empty(), cur),
            r.deep_view() == head + others(ents.subrange(0, i as int), cur),
        decreases entries.len() - i,
    {
        let name = &entries[i];
        let keep = !same_name(name, &link) && match current {
            Some(t) => !same_name(name, t),
            None => true,
        };
        let ghost before = r.deep_view();
        proof {
            assert(ents.subrange(0, i + 1).drop_last() =~= ents.subrange(0, i as int));
            assert(ents.subrange(0, i + 1).last() == name@);
            assert(name.deep_view() =~= name@);
            match current {
                Some(t) => {
                    assert(t.deep_view() =~= t@);
                },
                None => {},
            }
            assert(keep == is_other(name@, cur));
            let o = others(ents.subrange(0, i as int), cur);
            if keep {
                assert(others(ents.subrange(0, i + 1), cur) == o.push(name@));
                assert(head + o.push(name@) =~= (head + o).push(name@));
            } else {
                assert(others(ents.subrange(0, i + 1), cur) == o);
            }
        }
        if keep {
            let c = copy_name(name);
            assert(c.deep_view() =~= name.deep_view());
            r.push(c);
            assert(r.deep_view() =~= before.push(name@));
        }
        assert(r.deep_view() =~= head + others(ents.subrange(0, i + 1), cur));
        i = i + 1;
    }
    assert(ents.subrange(0, entries.len() as int) =~= ents);
    proof {
        match cur {
            Some(t) => {
                assert(candidates(ents, cur) =~= head + others(ents, cur));
            },
            None => {
                assert(candidates(ents, cur) =~= head + others(ents, cur));
            },
        }
    }
    r
}

/// The text reported as the previous configuration: the link's target, or
/// `None` when there was no link.
pub open spec fn old_config_text(current: Option<Seq<u8>>) -> Seq<u8> {
    match current {
        Some(t) => t,
        // N o n e
        None => seq![78u8, 111, 110, 101],
    }
}

/// The text to report as the previous configuration.
pub fn old_config_label(current: &Option<Vec<u8>>) -> (r: Vec<u8>)
    ensures
        r@ == old_config_text(current.deep_view()),
{
    match current {
        Some(t) => {
            let r = copy_name(t);
            assert(t.deep_view() =~= t@);
            r
        },
        None => {
            let r: Vec<u8> = vec![78u8, 111, 110, 101];
            assert(r@ =~= old_config_text(None));
            r
        },
    }
}

proof fn lemma_others_contains(entries: Seq<Seq<u8>>, current: Option<Seq<u8>>)
    ensures
        forall|x: Seq<u8>|
            #[trigger] others(entries, current).contains(x) <==> entries.contains(x) && is_other(x, current),
    decreases entries.len(),
{
    if entries.len() > 0 {
        let init = entries.drop_last();
        lemma_others_contains(init, current);
        assert(entries =~= init.push(entries.last()));
        assert forall|x: Seq<u8>| entries.contains(x) <==> (init.contains(x) || x == entries.last()) by {
            if entries.contains(x) {
                let k = choose|k: int| 0 <= k < entries.len() && entries[k] == x;
                if k < entries.len() - 1 {
                    assert(init[k] == x);
                }
            }
            if init.contains(x) {
                let k = choose|k: int| 0 <= k < init.len() && init[k] == x;
                assert(entries[k] == x);
            }
        }
        let o = others(init, current);
        assert forall|x: Seq<u8>| o.push(entries.last()).contains(x) <==> (o.contains(x) || x == entries.last()) by {
            if o.push(entries.last()).contains(x) && x != entries.last() {
                let k = choose|k: int| 0 <= k < o.len() + 1 && o.push(entries.last())[k] == x;
                assert(o[k] == x);
            }
            if o.contains(x) {
                let k = choose|k: int| 0 <= k < o.len() && o[k] == x;
                assert(o.push(entries.last())[k] == x);
            }
            assert(o.push(entries.last())[o.len() as int] == entries.last());
        }
        assert forall|x: Seq<u8>|
            #[trigger] others(entries, current).contains(x) <==> entries.contains(x) && is_other(x, current) by {
            assert(o.contains(x) <==> init.contains(x) && is_other(x, current));
            assert(entries.contains(x) <==> (init.contains(x) || x == entries.last()));
            if is_other(entries.last(), current) {
                assert(others(entries, current) == o.push(entries.last()));
                assert(o.push(entries.last()).contains(x) <==> (o.contains(x) || x == entries.last()));
            } else {
                assert(others(entries, current) == o);
            }
        }
    }
}

proof fn lemma_others_no_duplicates(entries: Seq<Seq<u8>>, current: Option<Seq<u8>>)
    requires
        entries.no_duplicates(),
    ensures
        others(entries, current).no_duplicates(),
    decreases entries.len(),
{
    if entries.len() > 0 {
        let init = entries.drop_last();
        let x = entries.last();
        assert(init.no_duplicates());
        lemma_others_no_duplicates(init, current);
        lemma_others_contains(init, current);
        assert(!init.contains(x)) by {
            if init.contains(x) {
                let k = choose|k: int| 0 <= k < init.len() && init[k] == x;
                assert(entries[k] == entries[entries.len() - 1]);
            }
        }
        let o = others(init, current);
        if is_other(x, current) {
            assert(!o.contains(x));
            assert forall|i: int, j: int|
                0 <= i < o.push(x).len() && 0 <= j < o.push(x).len() && i != j
                implies o.push(x)[i] != o.push(x)[j] by {
                if i < o.len() && j < o.len() {
                    assert(o[i] != o[j]);
                } else if i < o.len() {
                    assert(o.contains(o[i]));
                } else if j < o.len() {
                    assert(o.contains(o[j]));
                }
            }
        }
    }
}

proof fn lemma_others_absent(entries: Seq<Seq<u8>>, t: Seq<u8>)
    requires
        !entries.contains(t),
    ensures
        others(entries, Some(t)) == others(entries, None),
    decreases entries.len(),
{
    if entries.len() > 0 {
        let init = entries.drop_last();
        assert(entries[entries.len() - 1] != t);
        assert(!init.contains(t)) by {
            if init.contains(t) {
                let k = choose|k: int| 0 <= k < init.len() && init[k] == t;
                assert(entries[k] == t);
            }
        }
        lemma_others_absent(init, t);
    }
}

proof fn lemma_others_len(entries: Seq<Seq<u8>>, t: Seq<u8>)
    requires
        entries.no_duplicates(),
        entries.contains(t),
        t != link_name(),
    ensures
        others(entries, Some(t)).len() + 1 == others(entries, None).len(),
    decreases entries.len(),
{
    let init = entries.drop_last();
    assert(init.no_duplicates());
    if entries.last() == t {
        assert(!init.contains(t)) by {
            if init.contains(t) {
                let k = choose|k: int| 0 <= k < init.len() && init[k] == t;
                assert(entries[k] == entries[entries.len() - 1]);
            }
        }
        lemma_others_absent(init, t);
    } else {
        let k = choose|k: int| 0 <= k < entries.len() && entries[k] == t;
        assert(init[k] == t);
        lemma_others_len(init, t);
    }
}

/// When the link points at one of the listed configuration files, the list
/// offered has exactly one entry per configuration file, starts with the
/// file the link points at, and holds no name twice.
pub proof fn lemma_current_offered_first(entries: Seq<Seq<u8>>, t: Seq<u8>)
    requires
        entries.no_duplicates(),
        entries.contains(t),
        t != link_name(),
    ensures
        candidates(entries, Some(t)).len() == config_files(entries).len(),
        candidates(entries, Some(t))[0] == t,
        candidates(entries, Some(t)).no_duplicates(),
        forall|x: Seq<u8>|
            #[trigger] candidates(entries, Some(t)).contains(x) <==> config_files(entries).contains(x),
{
    let o = others(entries, Some(t));
    let c = candidates(entries, Some(t));
    lemma_others_len(entries, t);
    lemma_others_contains(entries, Some(t));
    lemma_others_contains(entries, None);
    lemma_others_no_duplicates(entries, Some(t));
    assert(c =~= seq![t] + o);
    assert(!o.contains(t));
    assert forall|i: int, j: int| 0 <= i < c.len() && 0 <= j < c.len() && i != j implies c[i] != c[j] by {
        if i > 0 && j > 0 {
            assert(o[i - 1] != o[j - 1]);
        } else if i > 0 {
            assert(o.contains(o[i - 1]));
        } else {
            assert(o.contains(o[j - 1]));
        }
    }
    assert forall|x: Seq<u8>| #[trigger] c.contains(x) <==> config_files(entries).contains(x) by {
        if c.contains(x) && x != t {
            let k = choose|k: int| 0 <= k < c.len() && c[k] == x;
            assert(o[k - 1] == x);
        }
        if o.contains(x) {
            let k = choose|k: int| 0 <= k < o.len() && o[k] == x;
            assert(c[k + 1] == x);
        }
        assert(c[0] == t);
    }
}

/// Without a link, the previous configuration is reported as `None` and the
/// list offered holds every entry of the directory but the link, each once.
pub proof fn lemma_no_link_offers_all(entries: Seq<Seq<u8>>)
    requires
        entries.no_duplicates(),
    ensures
        old_config_text(None) == seq![78u8, 111, 110, 101],
        candidates(entries, None) == config_files(entries),
        candidates(entries, None).no_duplicates(),
        forall|x: Seq<u8>|
            #[trigger] candidates(entries, None).contains(x) <==> entries.contains(x) && x != link_name(),
{
    lemma_others_contains(entries, None);
    lemma_others_no_duplicates(entries, None);
}

} // verus!
