//! The stored aggregate and what an append does to it.
//!
//! The store keeps, under each path, the reports appended there, in the
//! order in which the appends took effect. The store itself is a service
//! that the consumer talks to; here stands what the consumer asks of it, as
//! a model, with the properties that make the asking safe: an append to one
//! path leaves every other path alone, and appends to one path are neither
//! lost nor repeated, whatever order they take effect in.

use crate::message::MessageView;
use crate::pipeline::HandlingView;
use vstd::multiset::Multiset;
use vstd::prelude::*;

verus! {

/// The reports kept under `path`; none where nothing was appended yet.
pub open spec fn reports_at(
    aggregate: Map<Seq<char>, Seq<MessageView>>,
    path: Seq<char>,
) -> Seq<MessageView> {
    if aggregate.dom().contains(path) {
        aggregate[path]
    } else {
        Seq::empty()
    }
}

/// The aggregate after one append: `report` stands last under `path`, which
/// is made if it was not there.
pub open spec fn appended(
    aggregate: Map<Seq<char>, Seq<MessageView>>,
    path: Seq<char>,
    report: MessageView,
) -> Map<Seq<char>, Seq<MessageView>> {
    aggregate.insert(path, reports_at(aggregate, path).push(report))
}

/// The aggregate after the appends of `reports` under `path` have taken
/// effect one by one, in the order of the sequence.
pub open spec fn appended_each(
    aggregate: Map<Seq<char>, Seq<MessageView>>,
    path: Seq<char>,
    reports: Seq<MessageView>,
) -> Map<Seq<char>, Seq<MessageView>>
    decreases reports.len(),
{
    if reports.len() == 0 {
        aggregate
    } else {
        appended(appended_each(aggregate, path, reports.drop_last()), path, reports.last())
    }
}

/// What the store holds once it has taken the report of a handled line.
pub open spec fn stored(
    aggregate: Map<Seq<char>, Seq<MessageView>>,
    handling: HandlingView,
) -> Map<Seq<char>, Seq<MessageView>> {
    appended(aggregate, handling.path, handling.message)
}

/// An append puts its report last under its path and keeps what was there,
/// in the order it had.
pub proof fn lemma_append_keeps_arrival_order(
    aggregate: Map<Seq<char>, Seq<MessageView>>,
    path: Seq<char>,
    report: MessageView,
)
    ensures
        reports_at(appended(aggregate, path, report), path) == reports_at(aggregate, path).push(
            report,
        ),
{
}

/// An append under one path changes nothing under any other.
pub proof fn lemma_append_leaves_other_paths(
    aggregate: Map<Seq<char>, Seq<MessageView>>,
    path: Seq<char>,
    report: MessageView,
    other: Seq<char>,
)
    requires
        other != path,
    ensures
        reports_at(appended(aggregate, path, report), other) == reports_at(aggregate, other),
{
}

/// Appends taking effect one by one add their reports to the path, in that
/// order, after what was there, and leave the other paths alone.
pub proof fn lemma_appended_each(
    aggregate: Map<Seq<char>, Seq<MessageView>>,
    path: Seq<char>,
    reports: Seq<MessageView>,
)
    ensures
        reports_at(appended_each(aggregate, path, reports), path) == reports_at(aggregate, path)
            + reports,
        forall|other: Seq<char>|
            other != path ==> reports_at(
                #[trigger] appended_each(aggregate, path, reports),
                other,
            ) == reports_at(aggregate, other),
    decreases reports.len(),
{
    if reports.len() == 0 {
        assert(reports_at(aggregate, path) + reports =~= reports_at(aggregate, path));
    } else {
        lemma_appended_each(aggregate, path, reports.drop_last());
        assert((reports_at(aggregate, path) + reports.drop_last()).push(reports.last())
            =~= reports_at(aggregate, path) + reports);
    }
}

/// The reports of two sequences put together are the reports of the one and
/// the reports of the other, each as often as it stands there.
pub proof fn lemma_concatenation_holds_both(a: Seq<MessageView>, b: Seq<MessageView>)
    ensures
        (a + b).to_multiset() == a.to_multiset().add(b.to_multiset()),
    decreases b.len(),
{
    broadcast use vstd::multiset::group_multiset_axioms;
    broadcast use vstd::seq_lib::to_multiset_build;

    if b.len() == 0 {
        assert(a + b =~= a);
        b.to_multiset_ensures();
        assert forall|r: MessageView| b.to_multiset().count(r) == 0 by {
            assert(!b.contains(r));
        }
        assert(b.to_multiset() =~= Multiset::<MessageView>::empty());
        assert(a.to_multiset().add(b.to_multiset()) =~= a.to_multiset());
    } else {
        let front = b.drop_last();
        lemma_concatenation_holds_both(a, front);
        assert((a + front).push(b.last()) =~= a + b);
        assert(front.push(b.last()) =~= b);
        assert(a.to_multiset().add(front.to_multiset()).insert(b.last()) =~= a.to_multiset().add(
            front.to_multiset().insert(b.last()),
        ));
    }
}

/// Appends under one path are neither lost nor repeated, in whatever order
/// they take effect. Let `reports` be appended under `path`, each by one
/// append, and let `order` be the order in which the appends took effect:
/// the same reports, each as often, in any arrangement. Then the path holds
/// what it held before and, after that, the reports in the order they took
/// effect: as many more entries as there were appends, each report as often
/// as it was appended, and nothing under any other path has changed.
pub proof fn lemma_concurrent_appends_all_arrive(
    aggregate: Map<Seq<char>, Seq<MessageView>>,
    path: Seq<char>,
    reports: Seq<MessageView>,
    order: Seq<MessageView>,
)
    requires
        order.to_multiset() == reports.to_multiset(),
    ensures
        reports_at(appended_each(aggregate, path, order), path) == reports_at(aggregate, path)
            + order,
        reports_at(appended_each(aggregate, path, order), path).len() == reports_at(
            aggregate,
            path,
        ).len() + reports.len(),
        reports_at(appended_each(aggregate, path, order), path).to_multiset() == reports_at(
            aggregate,
            path,
        ).to_multiset().add(reports.to_multiset()),
        forall|other: Seq<char>|
            other != path ==> reports_at(
                #[trigger] appended_each(aggregate, path, order),
                other,
            ) == reports_at(aggregate, other),
{
    broadcast use vstd::seq_lib::to_multiset_len;

    lemma_appended_each(aggregate, path, order);
    lemma_concatenation_holds_both(reports_at(aggregate, path), order);
    assert(order.len() == order.to_multiset().len());
    assert(reports.len() == reports.to_multiset().len());
}

} // verus!
