//! The guarantees of the staging pipeline, stated and proved once and
//! for all over the walk model: mirroring, exclusion, the protected
//! metadata file, the root, determinism, and tolerance of unreadable
//! entries.

use vstd::prelude::*;

use crate::rules::meta_reexcluded;
use crate::rules::metadata_filename;
use crate::rules::RulesView;
use crate::stage::discovered_views;
use crate::stage::entry_included;
use crate::stage::is_staged_file;
use crate::stage::own_included;
use crate::stage::override_decision;
use crate::stage::rules_view_of;
use crate::stage::staged_views;
use crate::stage::warning_views;
use crate::stage::EventView;
use crate::stage::NodeKind;
use crate::stage::ScopeView;
use crate::stage::StagedView;
use crate::text::join_rel;

verus! {

/// Mirroring: every file of the walk that the rules include appears in
/// the staged copy under exactly its source-relative path and with
/// exactly its bytes.
pub proof fn lemma_mirroring(
    rv: RulesView,
    ds: Seq<ScopeView>,
    events: Seq<EventView>,
    i: int,
)
    requires
        0 <= i < events.len(),
        is_staged_file(rv, ds, events[i]),
    ensures
        staged_views(rv, ds, events).contains(
            StagedView { path: events[i]->Found_0.path, data: events[i]->Found_0.data },
        ),
    decreases events.len(),
{
    let target = StagedView { path: events[i]->Found_0.path, data: events[i]->Found_0.data };
    let whole = staged_views(rv, ds, events);
    let front = staged_views(rv, ds, events.drop_last());
    if i == events.len() - 1 {
        assert(whole[front.len() as int] == target);
    } else {
        assert(events.drop_last()[i] == events[i]);
        lemma_mirroring(rv, ds, events.drop_last(), i);
        let j = choose|j: int| 0 <= j < front.len() && front[j] == target;
        assert(whole[j] == target);
    }
}

/// Exclusion correctness: when the last override glob matching a path is
/// an exclusion, no file of the staged copy carries that path — except
/// the protected metadata file at the root, which only its exact
/// re-exclusion can remove.
pub proof fn lemma_exclusion(
    rv: RulesView,
    ds: Seq<ScopeView>,
    events: Seq<EventView>,
    p: Seq<Seq<char>>,
)
    requires
        override_decision(rv.user_rules, join_rel(p), false) == Some(false),
        p == seq![metadata_filename()] ==> rv.meta_unprotected,
    ensures
        forall|j: int|
            0 <= j < staged_views(rv, ds, events).len() ==> (#[trigger] staged_views(
                rv,
                ds,
                events,
            )[j]).path != p,
    decreases events.len(),
{
    if events.len() > 0 {
        lemma_exclusion(rv, ds, events.drop_last(), p);
        let front = staged_views(rv, ds, events.drop_last());
        let whole = staged_views(rv, ds, events);
        assert forall|j: int| 0 <= j < whole.len() implies (#[trigger] whole[j]).path != p by {
            if j < front.len() {
                assert(whole[j] == front[j]);
            } else {
                let ev = events.last();
                assert(is_staged_file(rv, ds, ev));
                assert(whole[j].path == ev->Found_0.path);
                if ev->Found_0.path == p {
                    assert(own_included(rv, ds, p, false));
                    assert(!own_included(rv, ds, p, false));
                }
            }
        }
    }
}

/// The protected file survives: when the reserved metadata file sits at
/// the content root and no user glob re-excludes exactly that filename,
/// the staged copy holds it, whatever the other rules say.
pub proof fn lemma_protected_file_survives(
    globs: Seq<Seq<char>>,
    files: Seq<Seq<u8>>,
    events: Seq<EventView>,
    i: int,
)
    requires
        0 <= i < events.len(),
        events[i] matches EventView::Found(e) && e.kind == NodeKind::File && e.path == seq![
            metadata_filename(),
        ],
        !meta_reexcluded(globs),
    ensures
        staged_views(
            rules_view_of(globs, files),
            discovered_views(events),
            events,
        ).contains(
            StagedView { path: seq![metadata_filename()], data: events[i]->Found_0.data },
        ),
{
    let rv = rules_view_of(globs, files);
    let ds = discovered_views(events);
    let e = events[i]->Found_0;
    assert(own_included(rv, ds, e.path, false));
    assert(entry_included(rv, ds, e.path, false));
    assert(is_staged_file(rv, ds, events[i]));
    lemma_mirroring(rv, ds, events, i);
}

/// The root is never copied as an entry: every file of the staged copy
/// lies strictly below the content root.
pub proof fn lemma_root_never_staged(rv: RulesView, ds: Seq<ScopeView>, events: Seq<EventView>)
    ensures
        forall|j: int|
            0 <= j < staged_views(rv, ds, events).len() ==> (#[trigger] staged_views(
                rv,
                ds,
                events,
            )[j]).path.len() >= 1,
    decreases events.len(),
{
    if events.len() > 0 {
        lemma_root_never_staged(rv, ds, events.drop_last());
        let front = staged_views(rv, ds, events.drop_last());
        let whole = staged_views(rv, ds, events);
        assert forall|j: int|
            0 <= j < whole.len() implies (#[trigger] whole[j]).path.len() >= 1 by {
            if j < front.len() {
                assert(whole[j] == front[j]);
            }
        }
    }
}

/// Idempotence of rule building: the staged copy and the warnings are
/// functions of the build inputs and the walk alone, so building the
/// rule set twice from the same inputs and walking twice yields the
/// same destination tree.
pub proof fn lemma_staging_deterministic(
    rv1: RulesView,
    rv2: RulesView,
    globs: Seq<Seq<char>>,
    files: Seq<Seq<u8>>,
    events: Seq<EventView>,
)
    requires
        rv1 == rules_view_of(globs, files),
        rv2 == rules_view_of(globs, files),
    ensures
        staged_views(rv1, discovered_views(events), events) == staged_views(
            rv2,
            discovered_views(events),
            events,
        ),
{
}

/// Partial-read tolerance: an unreadable entry anywhere in the walk
/// leaves the staged copy and the discovered ignore files exactly as
/// they were, and adds exactly its own warning.
pub proof fn lemma_partial_read_tolerance(
    rv: RulesView,
    ds: Seq<ScopeView>,
    events: Seq<EventView>,
    i: int,
    msg: Seq<char>,
)
    requires
        0 <= i <= events.len(),
    ensures
        staged_views(rv, ds, events.insert(i, EventView::Unreadable(msg))) == staged_views(
            rv,
            ds,
            events,
        ),
        discovered_views(events.insert(i, EventView::Unreadable(msg))) == discovered_views(
            events,
        ),
        warning_views(events.insert(i, EventView::Unreadable(msg))) == warning_views(
            events.take(i),
        ) + seq![msg] + warning_views(events.skip(i)),
    decreases events.len(),
{
    let u = EventView::Unreadable(msg);
    let inserted = events.insert(i, u);
    if i == events.len() {
        assert(inserted =~= events.push(u));
        assert(inserted.drop_last() =~= events);
        assert(events.take(i) =~= events);
        assert(events.skip(i) =~= Seq::<EventView>::empty());
        assert(warning_views(inserted) =~= warning_views(events.take(i)) + seq![msg]
            + warning_views(events.skip(i)));
    } else {
        assert(events.len() > 0);
        assert(inserted.drop_last() =~= events.drop_last().insert(i, u));
        assert(inserted.last() == events.last());
        lemma_partial_read_tolerance(rv, ds, events.drop_last(), i, msg);
        assert(events.drop_last().take(i) =~= events.take(i));
        assert(events.skip(i).len() > 0);
        assert(events.skip(i).drop_last() =~= events.drop_last().skip(i));
        assert(events.skip(i).last() == events.last());
        assert(warning_views(events.skip(i)) == warning_views(events.drop_last().skip(i))
            + match events.last() {
            EventView::Unreadable(m) => seq![m],
            EventView::Found(_) => Seq::empty(),
        });
        assert(warning_views(inserted) =~= warning_views(events.take(i)) + seq![msg]
            + warning_views(events.skip(i)));
    }
}

} // verus!
