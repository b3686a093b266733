//! Renaming and reordering the anonymous columns of a fit table after the
//! labels of a peaks table.
use vstd::prelude::*;
use vstd::seq_lib::lemma_multiset_commutative;

use crate::table::{copy_cells, Column, Table};

verus! {

/// The token that expands to every peak label.
pub const ALL_COMPONENTS: &'static str = "all component functions";

/// The peaks-table column whose values label the peaks.
pub const KEY_COLUMN: &'static str = "Center";

/// Why a fit table could not be reconciled.
#[derive(Debug, PartialEq, Eq)]
pub enum ReconcileError {
    /// The resolved names do not number the fit table's columns.
    CountMismatch { columns: usize, names: usize },
    /// A resolved name occurs twice.
    DuplicateName(String),
    /// A name to select is not a column of the renamed table.
    UnknownColumn(String),
}

/// The views of a sequence of strings.
pub open spec fn views(s: Seq<String>) -> Seq<Seq<char>> {
    s.map_values(|x: String| x@)
}

/// Whether a token is the wildcard.
pub open spec fn is_wildcard(t: Seq<char>) -> bool {
    t == ALL_COMPONENTS@
}

/// The names a token sequence resolves to: each literal token stands for
/// itself, each wildcard for the whole label list.
pub open spec fn expand(tokens: Seq<Seq<char>>, labels: Seq<Seq<char>>) -> Seq<Seq<char>>
    decreases tokens.len(),
{
    if tokens.len() == 0 {
        Seq::empty()
    } else {
        expand(tokens.drop_last(), labels) + if is_wildcard(tokens.last()) {
            labels
        } else {
            seq![tokens.last()]
        }
    }
}

/// No name occurs twice.
pub open spec fn distinct(s: Seq<Seq<char>>) -> bool {
    forall|i: int, j: int| 0 <= i < j < s.len() ==> s[i] != s[j]
}

/// The name occurs at two positions of the list.
pub open spec fn occurs_twice(s: Seq<Seq<char>>, x: Seq<char>) -> bool {
    exists|i: int, j: int| 0 <= i < j < s.len() && #[trigger] s[i] == x && #[trigger] s[j] == x
}

/// Resolves the tokens against a label list.
pub fn resolve_tokens(tokens: &Vec<String>, labels: &Vec<String>) -> (r: Vec<String>)
    ensures
        views(r@) == expand(views(tokens@), views(labels@)),
{
    let mut r: Vec<String> = Vec::new();
    for i in 0..tokens.len()
        invariant
            views(r@) == expand(views(tokens@.take(i as int)), views(labels@)),
    {
        let ghost before = r@;
        assert(views(tokens@.take(i + 1)).drop_last() =~= views(tokens@.take(i as int)));
        assert(views(tokens@.take(i + 1)).last() == tokens@[i as int]@);
        let wildcard = ALL_COMPONENTS.to_owned();
        if tokens[i] == wildcard {
            for k in 0..labels.len()
                invariant
                    views(r@) == views(before) + views(labels@.take(k as int)),
            {
                let ghost prev = r@;
                let l = labels[k].clone();
                r.push(l);
                assert(labels@.take(k + 1) =~= labels@.take(k as int).push(labels@[k as int]));
                assert(views(r@) =~= views(prev).push(l@));
                assert(views(r@) =~= views(before) + views(labels@.take(k + 1)));
            }
            assert(labels@.take(labels@.len() as int) =~= labels@);
        } else {
            r.push(tokens[i].clone());
            assert(views(r@) =~= views(before) + seq![tokens@[i as int]@]);
        }
    }
    assert(tokens@.take(tokens@.len() as int) =~= tokens@);
    r
}

/// The position of a name that occurs earlier in the list, if any.
pub fn find_duplicate(names: &Vec<String>) -> (r: Option<usize>)
    ensures
        r is None <==> distinct(views(names@)),
        r matches Some(j) ==> j < names@.len() && exists|i: int|
            0 <= i < j && #[trigger] names@[i]@ == names@[j as int]@,
{
    let n = names.len();
    for j in 0..n
        invariant
            n == names@.len(),
            forall|a: int, b: int| 0 <= a < b < j ==> names@[a]@ != names@[b]@,
    {
        for i in 0..j
            invariant
                j < n,
                n == names@.len(),
                forall|a: int| 0 <= a < i ==> names@[a]@ != names@[j as int]@,
        {
            if names[i] == names[j] {
                assert(views(names@)[i as int] == views(names@)[j as int]);
                return Some(j);
            }
        }
    }
    assert forall|a: int, b: int| 0 <= a < b < views(names@).len() implies views(names@)[a]
        != views(names@)[b] by {
        assert(names@[a]@ != names@[b]@);
    }
    None
}

/// The position of the first column with the given name, if any.
pub fn find_column(t: &Table, name: &String) -> (r: Option<usize>)
    ensures
        r is None <==> !t.names().contains(name@),
        r matches Some(k) ==> k < t.columns@.len() && t.columns@[k as int].name@ == name@,
{
    for k in 0..t.columns.len()
        invariant
            forall|a: int| 0 <= a < k ==> t.columns@[a].name@ != name@,
    {
        if t.columns[k].name == *name {
            assert(t.names()[k as int] == name@);
            return Some(k);
        }
    }
    assert forall|a: int| 0 <= a < t.names().len() implies t.names()[a] != name@ by {
        assert(t.columns@[a].name@ != name@);
    }
    None
}

/// Gives the i-th column the i-th name, keeping the cells.
pub fn rename_columns(fit: &Table, names: &Vec<String>) -> (r: Result<Table, ReconcileError>)
    ensures
        names@.len() != fit.columns@.len() ==> (r matches Err(
            ReconcileError::CountMismatch { columns, names: found },
        ) && columns == fit.columns@.len() && found == names@.len()),
        r is Err ==> r->Err_0 is CountMismatch || r->Err_0 is DuplicateName,
        r is Ok <==> names@.len() == fit.columns@.len() && distinct(views(names@)),
        r matches Err(ReconcileError::DuplicateName(d)) ==> exists|i: int, j: int|
            0 <= i < j < names@.len() && #[trigger] names@[i]@ == d@ && #[trigger] names@[j]@ == d@,
        r matches Ok(t) ==> t.columns@.len() == names@.len() && forall|i: int|
            0 <= i < names@.len() ==> (#[trigger] t.columns@[i]).name@ == names@[i]@
                && t.columns@[i].cells@ == fit.columns@[i].cells@,
{
    if names.len() != fit.columns.len() {
        return Err(ReconcileError::CountMismatch { columns: fit.columns.len(), names: names.len() });
    }
    match find_duplicate(names) {
        Some(j) => {
            return Err(ReconcileError::DuplicateName(names[j].clone()));
        },
        None => {},
    }
    let mut columns: Vec<Column> = Vec::new();
    for i in 0..names.len()
        invariant
            names@.len() == fit.columns@.len(),
            columns@.len() == i,
            forall|a: int|
                0 <= a < i ==> (#[trigger] columns@[a]).name@ == names@[a]@
                    && columns@[a].cells@ == fit.columns@[a].cells@,
    {
        let c = Column { name: names[i].clone(), cells: copy_cells(&fit.columns[i].cells) };
        columns.push(c);
    }
    Ok(Table { columns })
}

/// Picks the named columns in the given order.
pub fn select_columns(t: &Table, names: &Vec<String>) -> (r: Result<Table, ReconcileError>)
    ensures
        r is Ok <==> distinct(views(names@)) && forall|j: int|
            0 <= j < names@.len() ==> t.names().contains(#[trigger] names@[j]@),
        r matches Err(ReconcileError::UnknownColumn(u)) ==> exists|j: int|
            0 <= j < names@.len() && #[trigger] names@[j]@ == u@ && !t.names().contains(u@),
        r matches Err(ReconcileError::DuplicateName(d)) ==> exists|i: int, j: int|
            0 <= i < j < names@.len() && #[trigger] names@[i]@ == d@ && #[trigger] names@[j]@ == d@,
        r is Err ==> r->Err_0 is UnknownColumn || r->Err_0 is DuplicateName,
        r matches Ok(out) ==> out.columns@.len() == names@.len() && forall|j: int|
            0 <= j < names@.len() ==> (#[trigger] out.columns@[j]).name@ == names@[j]@
                && exists|k: int|
                0 <= k < t.columns@.len() && t.columns@[k].name@ == names@[j]@
                    && out.columns@[j].cells@ == #[trigger] t.columns@[k].cells@,
{
    let mut columns: Vec<Column> = Vec::new();
    let ghost mut idx: Seq<int> = Seq::empty();
    let mut j: usize = 0;
    while j < names.len()
        invariant
            j <= names@.len(),
            columns@.len() == j,
            forall|a: int| 0 <= a < j ==> t.names().contains(#[trigger] names@[a]@),
            forall|a: int, b: int| 0 <= a < b < j ==> names@[a]@ != names@[b]@,
            idx.len() == j,
            forall|a: int|
                0 <= a < j ==> (#[trigger] columns@[a]).name@ == names@[a]@ && 0 <= idx[a]
                    < t.columns@.len() && t.columns@[idx[a]].name@ == names@[a]@
                    && columns@[a].cells@ == t.columns@[idx[a]].cells@,
        decreases names@.len() - j,
    {
        let k = match find_column(t, &names[j]) {
            Some(k) => k,
            None => {
                let u = names[j].clone();
                assert(names@[j as int]@ == u@);
                return Err(ReconcileError::UnknownColumn(u));
            },
        };
        for i in 0..j
            invariant
                j < names@.len(),
                forall|a: int| 0 <= a < i ==> names@[a]@ != names@[j as int]@,
        {
            if names[i] == names[j] {
                let d = names[j].clone();
                assert(views(names@)[i as int] == views(names@)[j as int]);
                assert(names@[i as int]@ == d@ && names@[j as int]@ == d@);
                return Err(ReconcileError::DuplicateName(d));
            }
        }
        let c = Column { name: names[j].clone(), cells: copy_cells(&t.columns[k].cells) };
        columns.push(c);
        proof {
            idx = idx.push(k as int);
            assert(t.names()[k as int] == names@[j as int]@);
            assert(columns@[j as int].name@ == names@[j as int]@);
            assert(columns@[j as int].cells@ == t.columns@[k as int].cells@);
            assert(idx[j as int] == k);
        }
        j = j + 1;
    }
    assert forall|a: int| #![trigger columns@[a]] 0 <= a < names@.len() implies exists|k: int|
        0 <= k < t.columns@.len() && t.columns@[k].name@ == names@[a]@ && columns@[a].cells@
            == #[trigger] t.columns@[k].cells@ by {
        assert(columns@[a].name@ == names@[a]@);
        let k = idx[a];
        assert(0 <= k < t.columns@.len() && t.columns@[k].name@ == names@[a]@);
        assert(columns@[a].cells@ == t.columns@[k].cells@);
    }
    assert forall|a: int, b: int| 0 <= a < b < views(names@).len() implies views(names@)[a]
        != views(names@)[b] by {
        assert(names@[a]@ != names@[b]@);
    }
    Ok(Table { columns })
}

/// Whether a fit table of `columns` columns can be renamed to `rename` and
/// then cut down to `select`.
pub open spec fn reconcilable(columns: nat, rename: Seq<Seq<char>>, select: Seq<Seq<char>>) -> bool {
    &&& rename.len() == columns
    &&& distinct(rename)
    &&& distinct(select)
    &&& forall|j: int| 0 <= j < select.len() ==> rename.contains(#[trigger] select[j])
}

/// `out` holds, in the order of `select`, the columns of `fit` renamed
/// position by position to `rename`.
pub open spec fn reconciled(fit: Table, rename: Seq<Seq<char>>, select: Seq<Seq<char>>, out: Table) -> bool {
    &&& out.columns@.len() == select.len()
    &&& forall|j: int|
        0 <= j < select.len() ==> (#[trigger] out.columns@[j]).name@ == select[j] && exists|k: int|
            0 <= k < rename.len() && rename[k] == select[j] && out.columns@[j].cells@
                == #[trigger] fit.columns@[k].cells@
}

/// Renames the fit table's columns after the tokens resolved against the
/// labels in row order, then selects them in the order of the tokens
/// resolved against the labels in ascending order.
pub fn reconcile(
    fit: &Table,
    tokens: &Vec<String>,
    label_order: &Vec<String>,
    sorted_label_order: &Vec<String>,
) -> (r: Result<Table, ReconcileError>)
    ensures
        ({
            let rename = expand(views(tokens@), views(label_order@));
            let select = expand(views(tokens@), views(sorted_label_order@));
            &&& rename.len() != fit.columns@.len() ==> (r matches Err(
                ReconcileError::CountMismatch { columns, names },
            ) && columns == fit.columns@.len() && names == rename.len())
            &&& r is Ok <==> reconcilable(fit.columns@.len(), rename, select)
            &&& r matches Ok(out) ==> reconciled(*fit, rename, select, out)
            &&& r matches Err(ReconcileError::DuplicateName(d)) ==> occurs_twice(rename, d@)
                || occurs_twice(select, d@)
            &&& r matches Err(ReconcileError::UnknownColumn(u)) ==> select.contains(u@) && !rename.contains(u@)
        }),
{
    let rename_names = resolve_tokens(tokens, label_order);
    let select_names = resolve_tokens(tokens, sorted_label_order);
    let ghost rename = views(rename_names@);
    let ghost select = views(select_names@);
    let renamed = match rename_columns(fit, &rename_names) {
        Ok(t) => t,
        Err(e) => {
            proof {
                if let ReconcileError::DuplicateName(d) = &e {
                    let (i, j) = choose|i: int, j: int|
                        0 <= i < j < rename_names@.len() && #[trigger] rename_names@[i]@ == d@
                            && #[trigger] rename_names@[j]@ == d@;
                    assert(rename[i] == d@ && rename[j] == d@);
                    assert(occurs_twice(rename, d@));
                }
                if rename.len() == fit.columns@.len() {
                    assert(!distinct(rename));
                }
            }
            return Err(e);
        },
    };
    assert(renamed.names() =~= rename);
    let r = select_columns(&renamed, &select_names);
    proof {
        match &r {
            Ok(out) => {
                assert forall|j: int| 0 <= j < select.len() implies (#[trigger] out.columns@[j]).name@
                    == select[j] && exists|k: int|
                    0 <= k < rename.len() && rename[k] == select[j] && out.columns@[j].cells@
                        == #[trigger] fit.columns@[k].cells@ by {
                    let k = choose|k: int|
                        0 <= k < renamed.columns@.len() && renamed.columns@[k].name@ == select_names@[j]@
                            && out.columns@[j].cells@ == #[trigger] renamed.columns@[k].cells@;
                    assert(renamed.columns@[k].cells@ == fit.columns@[k].cells@);
                    assert(rename[k] == renamed.columns@[k].name@);
                }
            },
            Err(ReconcileError::DuplicateName(d)) => {
                let (i, j) = choose|i: int, j: int|
                    0 <= i < j < select_names@.len() && #[trigger] select_names@[i]@ == d@
                        && #[trigger] select_names@[j]@ == d@;
                assert(select[i] == d@ && select[j] == d@);
                assert(occurs_twice(select, d@));
            },
            Err(ReconcileError::UnknownColumn(u)) => {
                let j = choose|j: int|
                    0 <= j < select_names@.len() && #[trigger] select_names@[j]@ == u@
                        && !renamed.names().contains(u@);
                assert(select[j] == u@);
            },
            Err(_) => {},
        }
    }
    r
}

/// The number of wildcard tokens.
pub open spec fn wildcard_count(tokens: Seq<Seq<char>>) -> nat
    decreases tokens.len(),
{
    if tokens.len() == 0 {
        0
    } else {
        wildcard_count(tokens.drop_last()) + if is_wildcard(tokens.last()) {
            1nat
        } else {
            0nat
        }
    }
}

/// Resolving yields one name per literal token and the whole label list per
/// wildcard token, every occurrence of the wildcard included.
pub proof fn lemma_expand_len(tokens: Seq<Seq<char>>, labels: Seq<Seq<char>>)
    ensures
        expand(tokens, labels).len() == (tokens.len() - wildcard_count(tokens)) + (wildcard_count(
            tokens,
        ) as int) * (labels.len() as int),
        wildcard_count(tokens) <= tokens.len(),
    decreases tokens.len(),
{
    if tokens.len() > 0 {
        let p = tokens.drop_last();
        lemma_expand_len(p, labels);
        let w = wildcard_count(p);
        let n = labels.len();
        if is_wildcard(tokens.last()) {
            assert(wildcard_count(tokens) == w + 1);
            assert(expand(tokens, labels).len() == expand(p, labels).len() + n);
            assert(((w + 1) as int) * (n as int) == (w as int) * (n as int) + n) by (nonlinear_arith);
            assert(expand(tokens, labels).len() == (tokens.len() - (w + 1)) + ((w + 1) as int) * (
            n as int));
        } else {
            assert(wildcard_count(tokens) == w);
            assert(expand(tokens, labels).len() == expand(p, labels).len() + 1);
            assert(expand(tokens, labels).len() == (tokens.len() - w) + (w as int) * (n as int));
        }
    } else {
        assert(0 * (labels.len() as int) == 0);
    }
}

/// A spec made of the wildcard alone resolves to exactly the label list it
/// is resolved against, in that list's order: the peak labels in row order
/// for renaming, and in ascending key order for selection.
pub proof fn lemma_wildcard_resolves_to_labels(labels: Seq<Seq<char>>)
    ensures
        expand(seq![ALL_COMPONENTS@], labels) == labels,
        expand(seq![ALL_COMPONENTS@], labels).len() == labels.len(),
{
    let t = seq![ALL_COMPONENTS@];
    assert(t.drop_last() =~= Seq::<Seq<char>>::empty());
    assert(expand(t.drop_last(), labels) =~= Seq::<Seq<char>>::empty());
    assert(expand(t, labels) =~= labels);
}

/// Reconciliation keeps every cell: each reconciled column holds exactly
/// the values, in the same rows, of the fit column that was renamed to its
/// name, so the multisets of values agree as well.
pub proof fn lemma_reconcile_keeps_cells(
    fit: Table,
    rename: Seq<Seq<char>>,
    select: Seq<Seq<char>>,
    out: Table,
)
    requires
        reconcilable(fit.columns@.len(), rename, select),
        reconciled(fit, rename, select, out),
    ensures
        forall|j: int, k: int|
            0 <= j < out.columns@.len() && 0 <= k < rename.len() && rename[k]
                == (#[trigger] out.columns@[j]).name@ ==> out.columns@[j].cells@.to_multiset()
                == (#[trigger] fit.columns@[k]).cells@.to_multiset() && out.columns@[j].cells@.len()
                == fit.columns@[k].cells@.len(),
{
    assert forall|j: int, k: int|
        0 <= j < out.columns@.len() && 0 <= k < rename.len() && rename[k]
            == (#[trigger] out.columns@[j]).name@ implies out.columns@[j].cells@.to_multiset()
        == (#[trigger] fit.columns@[k]).cells@.to_multiset() && out.columns@[j].cells@.len()
        == fit.columns@[k].cells@.len() by {
        let m = choose|m: int|
            0 <= m < rename.len() && rename[m] == select[j] && out.columns@[j].cells@
                == #[trigger] fit.columns@[m].cells@;
        assert(m == k);
    }
}

/// Resolving against two reorderings of one label list gives two
/// reorderings of one name list.
pub proof fn lemma_expand_reordered(tokens: Seq<Seq<char>>, a: Seq<Seq<char>>, b: Seq<Seq<char>>)
    requires
        a.to_multiset() == b.to_multiset(),
    ensures
        expand(tokens, a).to_multiset() == expand(tokens, b).to_multiset(),
    decreases tokens.len(),
{
    if tokens.len() > 0 {
        let p = tokens.drop_last();
        lemma_expand_reordered(p, a, b);
        if is_wildcard(tokens.last()) {
            lemma_multiset_commutative(expand(p, a), a);
            lemma_multiset_commutative(expand(p, b), b);
        } else {
            lemma_multiset_commutative(expand(p, a), seq![tokens.last()]);
            lemma_multiset_commutative(expand(p, b), seq![tokens.last()]);
        }
    }
}

/// A list has no repeated name exactly when no name counts more than once.
proof fn lemma_distinct_counts(s: Seq<Seq<char>>)
    ensures
        distinct(s) <==> forall|x: Seq<char>| #[trigger] s.to_multiset().count(x) <= 1,
    decreases s.len(),
{
    broadcast use vstd::seq_lib::group_to_multiset_ensures;

    if s.len() > 0 {
        let p = s.drop_last();
        let l = s.last();
        assert(s =~= p.push(l));
        lemma_distinct_counts(p);
        assert(s.to_multiset() =~= p.to_multiset().insert(l));
        if distinct(s) {
            assert(distinct(p)) by {
                assert forall|i: int, j: int| 0 <= i < j < p.len() implies p[i] != p[j] by {
                    assert(s[i] != s[j]);
                }
            }
            assert(!p.contains(l)) by {
                assert forall|i: int| 0 <= i < p.len() implies p[i] != l by {
                    assert(s[i] != s[s.len() - 1]);
                }
            }
            assert forall|x: Seq<char>| #[trigger] s.to_multiset().count(x) <= 1 by {
                assert(p.to_multiset().count(x) <= 1);
            }
        }
        if forall|x: Seq<char>| #[trigger] s.to_multiset().count(x) <= 1 {
            assert(s.to_multiset().count(l) <= 1);
            assert(p.to_multiset().count(l) == 0);
            assert forall|x: Seq<char>| #[trigger] p.to_multiset().count(x) <= 1 by {
                assert(s.to_multiset().count(x) <= 1);
            }
            assert forall|i: int, j: int| 0 <= i < j < s.len() implies s[i] != s[j] by {
                if j == s.len() - 1 {
                    assert(p.contains(p[i]));
                } else {
                    assert(p[i] != p[j]);
                }
            }
        }
    }
}

/// With the labels in ascending order a reordering of the labels in row
/// order, the select pass finds each of its names, once, among the renamed
/// columns whenever the rename pass produced no repeated name.
pub proof fn lemma_sorted_selection_succeeds(
    tokens: Seq<Seq<char>>,
    label_order: Seq<Seq<char>>,
    sorted_label_order: Seq<Seq<char>>,
)
    requires
        sorted_label_order.to_multiset() == label_order.to_multiset(),
        distinct(expand(tokens, label_order)),
    ensures
        ({
            let rename = expand(tokens, label_order);
            let select = expand(tokens, sorted_label_order);
            &&& select.len() == rename.len()
            &&& distinct(select)
            &&& forall|j: int| 0 <= j < select.len() ==> rename.contains(#[trigger] select[j])
        }),
{
    broadcast use vstd::seq_lib::group_to_multiset_ensures;

    let rename = expand(tokens, label_order);
    let select = expand(tokens, sorted_label_order);
    lemma_expand_reordered(tokens, label_order, sorted_label_order);
    assert(select.len() == select.to_multiset().len());
    assert(rename.len() == rename.to_multiset().len());
    lemma_distinct_counts(rename);
    lemma_distinct_counts(select);
    assert forall|j: int| 0 <= j < select.len() implies rename.contains(#[trigger] select[j]) by {
        assert(select.contains(select[j]));
        assert(select.to_multiset().count(select[j]) > 0);
    }
}

} // verus!
