use vstd::prelude::*;

use crate::path::{cleaned, lemma_no_backslash_left, long_path_prefix, without_long_prefix};
use crate::search::{
    has_infix, lower_of, matching, result_view, results_view, search_stream, sent_count,
    SearchEventView, WalkEntry, MAX_TOTAL_RESULTS,
};

verus! {

/// How many match events a stream holds.
pub open spec fn result_count(evs: Seq<SearchEventView>) -> nat
    decreases evs.len(),
{
    if evs.len() == 0 {
        0
    } else {
        result_count(evs.drop_last()) + if evs.last() is Result {
            1nat
        } else {
            0nat
        }
    }
}

/// The search an event belongs to.
pub open spec fn event_search_id(e: SearchEventView) -> u32 {
    match e {
        SearchEventView::Started { search_id, .. } => search_id,
        SearchEventView::Result { search_id, .. } => search_id,
        SearchEventView::Finished { search_id, .. } => search_id,
    }
}

proof fn lemma_result_count_concat(a: Seq<SearchEventView>, b: Seq<SearchEventView>)
    ensures
        result_count(a + b) == result_count(a) + result_count(b),
    decreases b.len(),
{
    if b.len() == 0 {
        assert(a + b =~= a);
    } else {
        assert((a + b).drop_last() =~= a + b.drop_last());
        lemma_result_count_concat(a, b.drop_last());
    }
}

proof fn lemma_result_count_results(search_id: u32, es: Seq<WalkEntry>)
    ensures
        result_count(results_view(search_id, es)) == es.len(),
    decreases es.len(),
{
    if es.len() > 0 {
        assert(results_view(search_id, es).drop_last() =~= results_view(
            search_id,
            es.drop_last(),
        ));
        lemma_result_count_results(search_id, es.drop_last());
    }
}

proof fn lemma_stream_counts(search_id: u32, query: Seq<char>, es: Seq<WalkEntry>)
    ensures
        ({
            let evs = search_stream(search_id, query, es);
            let total = matching(lower_of(query), es).len();
            &&& result_count(evs) == sent_count(total)
            &&& evs.last() == (SearchEventView::Finished {
                search_id,
                total_matches: total,
                has_more: total > sent_count(total),
            })
        }),
{
    let found = matching(lower_of(query), es);
    let sent = sent_count(found.len());
    let head = seq![SearchEventView::Started { query, search_id }];
    let body = results_view(search_id, found.take(sent as int));
    let tail = seq![
        SearchEventView::Finished {
            search_id,
            total_matches: found.len(),
            has_more: found.len() > sent,
        },
    ];
    lemma_result_count_concat(head, body);
    lemma_result_count_concat(head + body, tail);
    lemma_result_count_results(search_id, found.take(sent as int));
    assert(head.drop_last() =~= Seq::<SearchEventView>::empty());
    assert(tail.drop_last() =~= Seq::<SearchEventView>::empty());
    assert(result_count(Seq::<SearchEventView>::empty()) == 0);
    assert(result_count(head) == 0);
    assert(result_count(tail) == 0);
    assert(found.take(sent as int).len() == sent);
    let evs = search_stream(search_id, query, es);
    assert(evs == head + body + tail);
}

/// When a search finds at most the cap, every match is delivered, the closing
/// count equals the number delivered, and nothing is reported as left over.
pub proof fn lemma_all_delivered_under_cap(search_id: u32, query: Seq<char>, es: Seq<WalkEntry>)
    requires
        matching(lower_of(query), es).len() <= MAX_TOTAL_RESULTS,
    ensures
        ({
            let evs = search_stream(search_id, query, es);
            let total = matching(lower_of(query), es).len();
            &&& result_count(evs) == total
            &&& evs.last() == (SearchEventView::Finished {
                search_id,
                total_matches: total,
                has_more: false,
            })
        }),
{
    lemma_stream_counts(search_id, query, es);
}

/// When a search finds more than the cap, exactly the cap is delivered and the
/// closing event reports that more were found.
pub proof fn lemma_capped_over_limit(search_id: u32, query: Seq<char>, es: Seq<WalkEntry>)
    requires
        matching(lower_of(query), es).len() > MAX_TOTAL_RESULTS,
    ensures
        ({
            let evs = search_stream(search_id, query, es);
            let total = matching(lower_of(query), es).len();
            &&& result_count(evs) == MAX_TOTAL_RESULTS
            &&& evs.last() == (SearchEventView::Finished {
                search_id,
                total_matches: total,
                has_more: true,
            })
        }),
{
    lemma_stream_counts(search_id, query, es);
}

/// A stream opens with its one start event and closes with its one finish
/// event; every event between them, and only those, reports a match.
pub proof fn lemma_results_between_start_and_finish(
    search_id: u32,
    query: Seq<char>,
    es: Seq<WalkEntry>,
)
    ensures
        ({
            let evs = search_stream(search_id, query, es);
            &&& evs.len() >= 2
            &&& forall|i: int|
                0 <= i < evs.len() ==> (#[trigger] evs[i] is Started <==> i == 0)
            &&& forall|i: int|
                0 <= i < evs.len() ==> (#[trigger] evs[i] is Finished <==> i == evs.len() - 1)
            &&& forall|i: int|
                0 <= i < evs.len() ==> (#[trigger] evs[i] is Result <==> 0 < i < evs.len() - 1)
        }),
{
    let evs = search_stream(search_id, query, es);
    let found = matching(lower_of(query), es);
    let body = results_view(search_id, found.take(sent_count(found.len()) as int));
    assert forall|i: int| 0 < i < evs.len() - 1 implies #[trigger] evs[i] == body[i - 1] by {}
}

/// No delivered path keeps a backslash, so none keeps the long-path prefix.
pub proof fn lemma_result_paths_clean(search_id: u32, query: Seq<char>, es: Seq<WalkEntry>)
    ensures
        ({
            let evs = search_stream(search_id, query, es);
            forall|i: int|
                0 <= i < evs.len() && #[trigger] evs[i] is Result ==> {
                    &&& !evs[i]->Result_path.contains('\\')
                    &&& !has_infix(evs[i]->Result_path, long_path_prefix())
                }
        }),
{
    let evs = search_stream(search_id, query, es);
    let found = matching(lower_of(query), es);
    let sent = found.take(sent_count(found.len()) as int);
    let body = results_view(search_id, sent);
    assert forall|i: int| 0 <= i < evs.len() && #[trigger] evs[i] is Result implies {
        &&& !evs[i]->Result_path.contains('\\')
        &&& !has_infix(evs[i]->Result_path, long_path_prefix())
    } by {
        let p = sent[i - 1].path@;
        assert(evs[i] == result_view(search_id, sent[i - 1]));
        lemma_no_backslash_left(without_long_prefix(p));
        let c = cleaned(p);
        if has_infix(c, long_path_prefix()) {
            let k = choose|k: int|
                0 <= k && k + long_path_prefix().len() <= c.len() && #[trigger] c.subrange(
                    k,
                    k + long_path_prefix().len(),
                ) == long_path_prefix();
            assert(c.subrange(k, k + 4)[0] == c[k]);
            assert(c.contains(c[k]));
        }
    }
}

/// Every event of a stream carries its own search's id, so two searches with
/// different ids never share an event, however their streams interleave.
pub proof fn lemma_streams_do_not_mix(
    id_a: u32,
    query_a: Seq<char>,
    es_a: Seq<WalkEntry>,
    id_b: u32,
    query_b: Seq<char>,
    es_b: Seq<WalkEntry>,
)
    requires
        id_a != id_b,
    ensures
        ({
            let a = search_stream(id_a, query_a, es_a);
            let b = search_stream(id_b, query_b, es_b);
            &&& forall|i: int| 0 <= i < a.len() ==> event_search_id(#[trigger] a[i]) == id_a
            &&& forall|j: int| 0 <= j < b.len() ==> event_search_id(#[trigger] b[j]) == id_b
            &&& forall|i: int, j: int| 0 <= i < a.len() && 0 <= j < b.len() ==> a[i] != b[j]
        }),
{
    lemma_stream_ids(id_a, query_a, es_a);
    lemma_stream_ids(id_b, query_b, es_b);
    let a = search_stream(id_a, query_a, es_a);
    let b = search_stream(id_b, query_b, es_b);
    assert forall|i: int, j: int| 0 <= i < a.len() && 0 <= j < b.len() implies a[i] != b[j] by {
        assert(event_search_id(a[i]) == id_a);
        assert(event_search_id(b[j]) == id_b);
    }
}

proof fn lemma_stream_ids(search_id: u32, query: Seq<char>, es: Seq<WalkEntry>)
    ensures
        ({
            let evs = search_stream(search_id, query, es);
            forall|i: int| 0 <= i < evs.len() ==> event_search_id(#[trigger] evs[i]) == search_id
        }),
{
    let evs = search_stream(search_id, query, es);
    let found = matching(lower_of(query), es);
    let body = results_view(search_id, found.take(sent_count(found.len()) as int));
    assert forall|i: int| 0 <= i < evs.len() implies event_search_id(#[trigger] evs[i])
        == search_id by {
        if 0 < i < evs.len() - 1 {
            assert(evs[i] == body[i - 1]);
        }
    }
}

} // verus!
