//! The order of keys, and what one page of a prefix scan is.

use vstd::prelude::*;
use crate::state::EntryModel;

verus! {

/// The page size used when the caller names none.
pub const DEFAULT_LIMIT: u32 = 10;

/// The largest page size, whatever the caller asks for.
pub const MAX_LIMIT: u32 = 30;

/// Byte strings in dictionary order: `a` comes strictly before `b`.
pub open spec fn lex_lt(a: Seq<u8>, b: Seq<u8>) -> bool
    decreases a.len(),
{
    if b.len() == 0 {
        false
    } else if a.len() == 0 {
        true
    } else if a[0] != b[0] {
        a[0] < b[0]
    } else {
        lex_lt(a.drop_first(), b.drop_first())
    }
}

/// A key lies behind the cursor: every key does where there is none.
pub open spec fn after_cursor(cursor: Option<Seq<u8>>, pk: Seq<u8>) -> bool {
    cursor matches Some(c) ==> lex_lt(c, pk)
}

/// The page holds a row under the primary key `pk`.
pub open spec fn page_holds(page: Seq<(Seq<u8>, EntryModel)>, pk: Seq<u8>) -> bool {
    exists|i: int| 0 <= i < page.len() && (#[trigger] page[i]).0 == pk
}

/// `page` is the answer to a scan of one secondary index: the rows filed
/// under `prefix` whose primary key lies behind `cursor`, in ascending order
/// of primary key, cut off after `limit` rows.
///
/// An index row is `(by_author, prefix, primary key)`; `rows` is the primary
/// map that the pages' entries are read from.
pub open spec fn is_page(
    index: Set<(bool, Seq<u8>, Seq<u8>)>,
    rows: Map<Seq<u8>, EntryModel>,
    by_author: bool,
    prefix: Seq<u8>,
    cursor: Option<Seq<u8>>,
    limit: nat,
    page: Seq<(Seq<u8>, EntryModel)>,
) -> bool {
    &&& page.len() <= limit
    &&& forall|i: int|
        0 <= i < page.len() ==> {
            &&& index.contains((by_author, prefix, (#[trigger] page[i]).0))
            &&& rows.contains_key(page[i].0)
            &&& rows[page[i].0] == page[i].1
            &&& after_cursor(cursor, page[i].0)
        }
    &&& forall|i: int, j: int|
        0 <= i < j < page.len() ==> lex_lt((#[trigger] page[i]).0, (#[trigger] page[j]).0)
    &&& forall|pk: Seq<u8>|
        #[trigger] index.contains((by_author, prefix, pk)) && after_cursor(cursor, pk) ==> {
            ||| page_holds(page, pk)
            ||| limit == 0
            ||| (page.len() == limit && lex_lt(page.last().0, pk))
        }
}

/// The page size that a request gets.
pub open spec fn effective_limit(limit: Option<u32>) -> nat {
    match limit {
        Some(l) => if l <= MAX_LIMIT { l as nat } else { MAX_LIMIT as nat },
        None => DEFAULT_LIMIT as nat,
    }
}

/// Settles the page size: ten by default, never more than thirty.
pub fn page_limit(limit: Option<u32>) -> (r: usize)
    ensures
        r == effective_limit(limit),
        r <= MAX_LIMIT,
{
    let asked: u32 = match limit {
        Some(l) => l,
        None => DEFAULT_LIMIT,
    };
    if asked <= MAX_LIMIT {
        asked as usize
    } else {
        MAX_LIMIT as usize
    }
}

/// No byte string comes before itself.
pub proof fn lemma_lex_lt_irreflexive(a: Seq<u8>)
    ensures
        !lex_lt(a, a),
    decreases a.len(),
{
    if a.len() > 0 {
        lemma_lex_lt_irreflexive(a.drop_first());
    }
}

/// The order of keys is transitive.
pub proof fn lemma_lex_lt_transitive(a: Seq<u8>, b: Seq<u8>, c: Seq<u8>)
    requires
        lex_lt(a, b),
        lex_lt(b, c),
    ensures
        lex_lt(a, c),
    decreases a.len(),
{
    if a.len() > 0 && a[0] == b[0] && b[0] == c[0] {
        lemma_lex_lt_transitive(a.drop_first(), b.drop_first(), c.drop_first());
    }
}

/// Of two different keys one comes before the other.
pub proof fn lemma_lex_lt_total(a: Seq<u8>, b: Seq<u8>)
    requires
        a != b,
    ensures
        lex_lt(a, b) || lex_lt(b, a),
    decreases a.len(),
{
    if a.len() > 0 && b.len() > 0 && a[0] == b[0] {
        if a.drop_first() == b.drop_first() {
            assert(a =~= seq![a[0]] + a.drop_first());
            assert(b =~= seq![b[0]] + b.drop_first());
        }
        lemma_lex_lt_total(a.drop_first(), b.drop_first());
    } else if a.len() == 0 && b.len() == 0 {
        assert(a =~= b);
    }
}

/// A request for more than the largest page size is served as a request
/// for the largest page size.
pub proof fn lemma_limit_is_capped(asked: u32)
    requires
        asked > MAX_LIMIT,
    ensures
        effective_limit(Some(asked)) == effective_limit(Some(MAX_LIMIT)),
        effective_limit(Some(asked)) == 30,
{
}

/// Resuming behind the last key of a full page gives the next slice: the
/// two pages together are the one page of both sizes, so nothing is left
/// out between them, and no key of the first page comes again in the second.
pub proof fn lemma_pages_join(
    index: Set<(bool, Seq<u8>, Seq<u8>)>,
    rows: Map<Seq<u8>, EntryModel>,
    by_author: bool,
    prefix: Seq<u8>,
    cursor: Option<Seq<u8>>,
    first_limit: nat,
    first: Seq<(Seq<u8>, EntryModel)>,
    second_limit: nat,
    second: Seq<(Seq<u8>, EntryModel)>,
)
    requires
        first_limit > 0,
        first.len() == first_limit,
        is_page(index, rows, by_author, prefix, cursor, first_limit, first),
        is_page(index, rows, by_author, prefix, Some(first.last().0), second_limit, second),
    ensures
        is_page(index, rows, by_author, prefix, cursor, first_limit + second_limit, first + second),
        forall|i: int, j: int|
            0 <= i < first.len() && 0 <= j < second.len() ==> (#[trigger] first[i]).0 != (
            #[trigger] second[j]).0,
{
    let both = first + second;
    let n = first.len() as int;
    let edge = first.last().0;
    assert forall|i: int, j: int| 0 <= i < first.len() && 0 <= j < second.len() implies lex_lt(
        (#[trigger] first[i]).0,
        (#[trigger] second[j]).0,
    ) by {
        assert(lex_lt(edge, second[j].0));
        if i < n - 1 {
            assert(lex_lt(first[i].0, first[n - 1].0));
            lemma_lex_lt_transitive(first[i].0, edge, second[j].0);
        }
    }
    assert forall|i: int, j: int| 0 <= i < first.len() && 0 <= j < second.len() implies (
    #[trigger] first[i]).0 != (#[trigger] second[j]).0 by {
        lemma_lex_lt_irreflexive(first[i].0);
    }
    assert forall|i: int| 0 <= i < both.len() implies {
        &&& index.contains((by_author, prefix, (#[trigger] both[i]).0))
        &&& rows.contains_key(both[i].0)
        &&& rows[both[i].0] == both[i].1
        &&& after_cursor(cursor, both[i].0)
    } by {
        if i < n {
            assert(both[i] == first[i]);
        } else {
            assert(both[i] == second[i - n]);
            if let Some(c) = cursor {
                assert(lex_lt(c, first[n - 1].0));
                assert(lex_lt(edge, second[i - n].0));
                lemma_lex_lt_transitive(c, edge, second[i - n].0);
            }
        }
    }
    assert forall|i: int, j: int| 0 <= i < j < both.len() implies lex_lt(
        (#[trigger] both[i]).0,
        (#[trigger] both[j]).0,
    ) by {
        if j < n {
            assert(both[i] == first[i] && both[j] == first[j]);
        } else if i >= n {
            assert(both[i] == second[i - n] && both[j] == second[j - n]);
        } else {
            assert(both[i] == first[i] && both[j] == second[j - n]);
        }
    }
    assert forall|pk: Seq<u8>| #[trigger]
        index.contains((by_author, prefix, pk)) && after_cursor(cursor, pk) implies {
        ||| page_holds(both, pk)
        ||| first_limit + second_limit == 0
        ||| (both.len() == first_limit + second_limit && lex_lt(both.last().0, pk))
    } by {
        if page_holds(first, pk) {
            let i = choose|i: int| 0 <= i < first.len() && (#[trigger] first[i]).0 == pk;
            assert(both[i] == first[i]);
        } else {
            assert(lex_lt(edge, pk));
            assert(after_cursor(Some(edge), pk));
            if page_holds(second, pk) {
                let j = choose|j: int| 0 <= j < second.len() && (#[trigger] second[j]).0 == pk;
                assert(both[j + n] == second[j]);
            } else if second_limit == 0 {
                assert(both =~= first);
            } else {
                assert(second.len() == second_limit);
                assert(both.last() == second.last());
            }
        }
    }
}

/// A scan has one answer: two pages for the same request are the same page.
pub proof fn lemma_page_is_unique(
    index: Set<(bool, Seq<u8>, Seq<u8>)>,
    rows: Map<Seq<u8>, EntryModel>,
    by_author: bool,
    prefix: Seq<u8>,
    cursor: Option<Seq<u8>>,
    limit: nat,
    one: Seq<(Seq<u8>, EntryModel)>,
    other: Seq<(Seq<u8>, EntryModel)>,
)
    requires
        is_page(index, rows, by_author, prefix, cursor, limit, one),
        is_page(index, rows, by_author, prefix, cursor, limit, other),
    ensures
        one == other,
{
    lemma_pages_agree(index, rows, by_author, prefix, cursor, limit, one, other, one.len() as int);
    lemma_pages_agree(index, rows, by_author, prefix, cursor, limit, other, one, other.len() as int);
    if one.len() <= other.len() {
        lemma_pages_agree(index, rows, by_author, prefix, cursor, limit, one, other, one.len() as int);
    }
    assert(one.len() == other.len());
    assert(one =~= other);
}

/// Two pages for the same request agree on their first `n` rows, and the
/// second is at least as long as the first.
proof fn lemma_pages_agree(
    index: Set<(bool, Seq<u8>, Seq<u8>)>,
    rows: Map<Seq<u8>, EntryModel>,
    by_author: bool,
    prefix: Seq<u8>,
    cursor: Option<Seq<u8>>,
    limit: nat,
    one: Seq<(Seq<u8>, EntryModel)>,
    other: Seq<(Seq<u8>, EntryModel)>,
    n: int,
)
    requires
        is_page(index, rows, by_author, prefix, cursor, limit, one),
        is_page(index, rows, by_author, prefix, cursor, limit, other),
        0 <= n <= one.len(),
    ensures
        n <= other.len(),
        forall|i: int| 0 <= i < n ==> #[trigger] one[i] == other[i],
    decreases n,
{
    if n > 0 {
        lemma_pages_agree(index, rows, by_author, prefix, cursor, limit, one, other, n - 1);
        let m = n - 1;
        let pk = one[m].0;
        // The key at place m of `one` is in the index, so `other` holds it or is full before it.
        assert(index.contains((by_author, prefix, pk)) && after_cursor(cursor, pk));
        if page_holds(other, pk) {
            let j = choose|j: int| 0 <= j < other.len() && (#[trigger] other[j]).0 == pk;
            if j < m {
                assert(other[j] == one[j]);
                assert(lex_lt(one[j].0, one[m].0));
                lemma_lex_lt_irreflexive(pk);
            } else if j > m {
                // Then other[m] is a key that `one` must hold, before place m or behind it.
                let qk = other[m].0;
                assert(lex_lt(other[m].0, other[j].0));
                assert(index.contains((by_author, prefix, qk)) && after_cursor(cursor, qk));
                if page_holds(one, qk) {
                    let i = choose|i: int| 0 <= i < one.len() && (#[trigger] one[i]).0 == qk;
                    if i < m {
                        assert(one[i] == other[i]);
                        assert(lex_lt(other[i].0, other[m].0));
                        lemma_lex_lt_irreflexive(qk);
                    } else if i > m {
                        assert(lex_lt(one[m].0, one[i].0));
                        lemma_lex_lt_transitive(pk, qk, pk);
                        lemma_lex_lt_irreflexive(pk);
                    } else {
                        lemma_lex_lt_irreflexive(pk);
                    }
                } else {
                    assert(lex_lt(one.last().0, qk));
                    if m < one.len() - 1 {
                        assert(lex_lt(one[m].0, one[one.len() - 1].0));
                        lemma_lex_lt_transitive(pk, one.last().0, qk);
                    }
                    lemma_lex_lt_transitive(pk, qk, pk);
                    lemma_lex_lt_irreflexive(pk);
                }
            } else {
                assert(rows[pk] == one[m].1 && rows[pk] == other[m].1);
                assert(one[m] == other[m]);
            }
        } else {
            assert(other.len() == limit && lex_lt(other.last().0, pk));
            assert(one.len() <= limit);
            // `other` is full, so it has a row at place m, which comes before pk.
            let qk = other[m].0;
            if m < other.len() - 1 {
                assert(lex_lt(other[m].0, other[other.len() - 1].0));
                lemma_lex_lt_transitive(qk, other.last().0, pk);
            }
            assert(lex_lt(qk, pk));
            assert(index.contains((by_author, prefix, qk)) && after_cursor(cursor, qk));
            if page_holds(one, qk) {
                let i = choose|i: int| 0 <= i < one.len() && (#[trigger] one[i]).0 == qk;
                if i < m {
                    assert(one[i] == other[i]);
                    assert(lex_lt(other[i].0, other[m].0));
                    lemma_lex_lt_irreflexive(qk);
                } else if i > m {
                    assert(lex_lt(one[m].0, one[i].0));
                    lemma_lex_lt_transitive(pk, qk, pk);
                    lemma_lex_lt_irreflexive(pk);
                } else {
                    lemma_lex_lt_irreflexive(pk);
                }
            } else {
                assert(lex_lt(one.last().0, qk));
                if m < one.len() - 1 {
                    assert(lex_lt(one[m].0, one[one.len() - 1].0));
                    lemma_lex_lt_transitive(pk, one.last().0, qk);
                }
                lemma_lex_lt_transitive(pk, qk, pk);
                lemma_lex_lt_irreflexive(pk);
            }
        }
    }
}

} // verus!
