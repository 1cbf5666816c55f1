//! The tree walker / copier: given the walk events of a source tree and a
//! rule set, produce the filtered copy — every included file with its
//! bytes — together with a warning for every entry the walk could not
//! read.
//!
//! An entry's fate is decided by layers: the reserved metadata file at
//! the root is protected; then the override globs, last match winning;
//! then the discovered per-directory ignore files (`.ignore` files beat
//! `.gitignore` files, deeper directories beat shallower ones), then the
//! externally supplied ignore files, the last one given winning. An
//! entry inside an excluded directory is pruned whatever the rules say
//! about the entry itself, and the root itself is never copied.

use vstd::prelude::*;

use crate::matcher::gitignore_verdict;
use crate::matcher::line_parses;
use crate::matcher::lines_compile;
use crate::matcher::matcher_lines;
use crate::matcher::RuleMatch;
use crate::rules::metadata_filename;
use crate::rules::OverrideRule;
use crate::rules::OverrideView;
use crate::rules::RulesView;
use crate::text::decode_lines;
use crate::text::join_range;
use crate::text::join_rel;
use crate::text::text_lines;

verus! {

/// What kind of node the walk met.
#[derive(Clone, Copy, PartialEq, Eq, Structural, Debug)]
pub enum NodeKind {
    Dir,
    File,
    /// The node's type could not be resolved; such entries are skipped.
    Unknown,
}

/// One node of the source tree: its path as segments relative to the
/// content root (empty for the root itself), its kind, and — for files —
/// its bytes.
pub struct SourceEntry {
    pub path: Vec<String>,
    pub kind: NodeKind,
    pub data: Vec<u8>,
}

/// The mathematical shape of a source entry.
pub struct EntryView {
    pub path: Seq<Seq<char>>,
    pub kind: NodeKind,
    pub data: Seq<u8>,
}

impl View for SourceEntry {
    type V = EntryView;

    open spec fn view(&self) -> EntryView {
        EntryView {
            path: self.path@.map_values(|s: String| s@),
            kind: self.kind,
            data: self.data@,
        }
    }
}

/// One step of the walk: an entry, or a note that something could not be
/// read or enumerated.
pub enum WalkEvent {
    Found(SourceEntry),
    Unreadable(String),
}

/// The mathematical shape of a walk event.
pub enum EventView {
    Found(EntryView),
    Unreadable(Seq<char>),
}

impl View for WalkEvent {
    type V = EventView;

    open spec fn view(&self) -> EventView {
        match self {
            WalkEvent::Found(e) => EventView::Found(e@),
            WalkEvent::Unreadable(m) => EventView::Unreadable(m@),
        }
    }
}

/// One file of the staged copy: its path relative to the staging root —
/// equal to its path under the content root — and its bytes.
pub struct StagedFile {
    pub path: Vec<String>,
    pub data: Vec<u8>,
}

/// The mathematical shape of a staged file.
pub struct StagedView {
    pub path: Seq<Seq<char>>,
    pub data: Seq<u8>,
}

impl View for StagedFile {
    type V = StagedView;

    open spec fn view(&self) -> StagedView {
        StagedView { path: self.path@.map_values(|s: String| s@), data: self.data@ }
    }
}

/// What a staging run produces: the filtered copy and the warnings.
pub struct StageOutput {
    pub files: Vec<StagedFile>,
    pub warnings: Vec<String>,
}

/// The name of per-directory ignore files with the highest precedence.
pub open spec fn dot_ignore_name() -> Seq<char> {
    ".ignore"@
}

/// The name of the conventional per-directory ignore files.
pub open spec fn dot_gitignore_name() -> Seq<char> {
    ".gitignore"@
}

/// Whether a file of this name is discovered as an ignore file.
pub open spec fn is_ignore_file_name(name: Seq<char>) -> bool {
    name == dot_ignore_name() || name == dot_gitignore_name()
}

/// The lines kept from a discovered ignore file: those that parse.
/// Unparsable lines of discovered files are skipped, not fatal.
pub open spec fn kept_lines(lines: Seq<Seq<char>>) -> Seq<Seq<char>>
    decreases lines.len(),
{
    if lines.len() == 0 {
        Seq::empty()
    } else {
        kept_lines(lines.drop_last()) + if line_parses(lines.last()) {
            seq![lines.last()]
        } else {
            Seq::empty()
        }
    }
}

/// A discovered per-directory ignore file: the directory it sits in, the
/// name it bears, and the lines kept from it.
pub struct ScopeView {
    pub scope: Seq<Seq<char>>,
    pub name: Seq<char>,
    pub lines: Seq<Seq<char>>,
}

/// Whether a walk event is the discovery of an ignore file.
pub open spec fn is_discovered(ev: EventView) -> bool {
    &&& ev matches EventView::Found(e)
    &&& e.kind == NodeKind::File
    &&& e.path.len() > 0
    &&& is_ignore_file_name(e.path.last())
}

/// The discovered ignore file an event carries.
pub open spec fn scope_view_of(ev: EventView) -> ScopeView
    recommends
        is_discovered(ev),
{
    let e = ev->Found_0;
    ScopeView {
        scope: e.path.drop_last(),
        name: e.path.last(),
        lines: kept_lines(text_lines(e.data)),
    }
}

/// All ignore files the walk discovers, in walk order.
pub open spec fn discovered_views(events: Seq<EventView>) -> Seq<ScopeView>
    decreases events.len(),
{
    if events.len() == 0 {
        Seq::empty()
    } else {
        discovered_views(events.drop_last()) + if is_discovered(events.last()) {
            seq![scope_view_of(events.last())]
        } else {
            Seq::empty()
        }
    }
}

/// Whether every discovered ignore file compiles into a matcher.
pub open spec fn discovered_ok(events: Seq<EventView>) -> bool {
    forall|i: int|
        0 <= i < discovered_views(events).len() ==> lines_compile(
            (#[trigger] discovered_views(events)[i]).lines,
        )
}

/// The first discovered ignore file sitting in `scope` under `name`.
pub open spec fn find_scope(
    ds: Seq<ScopeView>,
    scope: Seq<Seq<char>>,
    name: Seq<char>,
) -> Option<ScopeView>
    decreases ds.len(),
{
    if ds.len() == 0 {
        None
    } else if ds[0].scope == scope && ds[0].name == name {
        Some(ds[0])
    } else {
        find_scope(ds.drop_first(), scope, name)
    }
}

/// The verdict of the ignore file named `name` in the directory `p.take(d)`
/// for the entry at `p`, matched relative to that directory.
pub open spec fn scope_verdict(
    ds: Seq<ScopeView>,
    name: Seq<char>,
    p: Seq<Seq<char>>,
    is_dir: bool,
    d: int,
) -> RuleMatch {
    match find_scope(ds, p.take(d), name) {
        Some(sv) => gitignore_verdict(sv.lines, join_rel(p.skip(d)), is_dir),
        None => RuleMatch::NoRule,
    }
}

/// The verdict of the ignore files named `name` along the entry's path,
/// the deepest directory consulted first; the first file that matches
/// decides.
pub open spec fn category_verdict(
    ds: Seq<ScopeView>,
    name: Seq<char>,
    p: Seq<Seq<char>>,
    is_dir: bool,
    d: int,
) -> RuleMatch
    decreases d + 1,
{
    if d < 0 {
        RuleMatch::NoRule
    } else {
        let v = scope_verdict(ds, name, p, is_dir, d);
        if v != RuleMatch::NoRule {
            v
        } else {
            category_verdict(ds, name, p, is_dir, d - 1)
        }
    }
}

/// The verdict of the external ignore files: the last file given wins.
pub open spec fn extra_verdict(extra: Seq<Seq<Seq<char>>>, rel: Seq<char>, is_dir: bool) -> RuleMatch
    decreases extra.len(),
{
    if extra.len() == 0 {
        RuleMatch::NoRule
    } else {
        let v = gitignore_verdict(extra.last(), rel, is_dir);
        if v != RuleMatch::NoRule {
            v
        } else {
            extra_verdict(extra.drop_last(), rel, is_dir)
        }
    }
}

/// The override layer's decision: the last matching user glob wins.
/// `Some(true)` includes, `Some(false)` excludes, `None` leaves the
/// entry to the ignore files.
pub open spec fn override_decision(
    rules: Seq<OverrideView>,
    rel: Seq<char>,
    is_dir: bool,
) -> Option<bool>
    decreases rules.len(),
{
    if rules.len() == 0 {
        None
    } else if OverrideRule::spec_applies(rules.last(), rel, is_dir) {
        Some(!rules.last().negated)
    } else {
        override_decision(rules.drop_last(), rel, is_dir)
    }
}

/// The combined verdict of all ignore files for the entry at `p`:
/// `.ignore` files first, then `.gitignore` files — each category deepest
/// first — then the external files.
pub open spec fn ignore_layer_verdict(
    rv: RulesView,
    ds: Seq<ScopeView>,
    p: Seq<Seq<char>>,
    is_dir: bool,
) -> RuleMatch {
    let vi = category_verdict(ds, dot_ignore_name(), p, is_dir, p.len() - 1);
    if vi != RuleMatch::NoRule {
        vi
    } else {
        let vg = category_verdict(ds, dot_gitignore_name(), p, is_dir, p.len() - 1);
        if vg != RuleMatch::NoRule {
            vg
        } else {
            extra_verdict(rv.extra, join_rel(p), is_dir)
        }
    }
}

/// Whether the rules let the entry at `p` through, its ancestors aside:
/// the protected metadata file at the root is always kept; otherwise the
/// override layer decides if any of its globs matches; otherwise the
/// entry stays unless an ignore file excludes it.
pub open spec fn own_included(
    rv: RulesView,
    ds: Seq<ScopeView>,
    p: Seq<Seq<char>>,
    is_dir: bool,
) -> bool {
    if p == seq![metadata_filename()] && !rv.meta_unprotected {
        true
    } else {
        match override_decision(rv.user_rules, join_rel(p), is_dir) {
            Some(inc) => inc,
            None => ignore_layer_verdict(rv, ds, p, is_dir) != RuleMatch::Excluded,
        }
    }
}

/// Every proper ancestor directory of `p` is itself let through; an
/// entry inside an excluded directory is pruned.
pub open spec fn ancestors_included(rv: RulesView, ds: Seq<ScopeView>, p: Seq<Seq<char>>) -> bool {
    forall|d: int| 1 <= d < p.len() ==> own_included(rv, ds, #[trigger] p.take(d), true)
}

/// Whether the entry at `p` belongs to the staged copy.
pub open spec fn entry_included(
    rv: RulesView,
    ds: Seq<ScopeView>,
    p: Seq<Seq<char>>,
    is_dir: bool,
) -> bool {
    own_included(rv, ds, p, is_dir) && ancestors_included(rv, ds, p)
}

/// Whether a walk event contributes a file to the staged copy: it found
/// a file below the root, and the rules include it.
pub open spec fn is_staged_file(rv: RulesView, ds: Seq<ScopeView>, ev: EventView) -> bool {
    &&& ev matches EventView::Found(e)
    &&& e.kind == NodeKind::File
    &&& e.path.len() > 0
    &&& entry_included(rv, ds, e.path, false)
}

/// The staged copy: the included files of the walk, in walk order, each
/// under its own relative path and with its own bytes.
pub open spec fn staged_views(
    rv: RulesView,
    ds: Seq<ScopeView>,
    events: Seq<EventView>,
) -> Seq<StagedView>
    decreases events.len(),
{
    if events.len() == 0 {
        Seq::empty()
    } else {
        staged_views(rv, ds, events.drop_last()) + if is_staged_file(rv, ds, events.last()) {
            seq![
                StagedView {
                    path: events.last()->Found_0.path,
                    data: events.last()->Found_0.data,
                },
            ]
        } else {
            Seq::empty()
        }
    }
}

/// Copies a byte vector.
fn clone_bytes(v: &Vec<u8>) -> (r: Vec<u8>)
    ensures
        r@ == v@,
{
    let mut r: Vec<u8> = Vec::new();
    let n = v.len();
    let mut i: usize = 0;
    while i < n
        invariant
            n == v@.len(),
            i <= n,
            r@ == v@.take(i as int),
        decreases n - i,
    {
        r.push(v[i]);
        proof {
            assert(r@ =~= v@.take(i as int + 1));
        }
        i = i + 1;
    }
    proof {
        assert(v@.take(n as int) =~= v@);
    }
    r
}

/// Copies the first `to` segments of a path.
fn clone_prefix(v: &Vec<String>, to: usize) -> (r: Vec<String>)
    requires
        to <= v@.len(),
    ensures
        r@.map_values(|s: String| s@) == v@.map_values(|s: String| s@).take(to as int),
{
    let mut r: Vec<String> = Vec::new();
    let n = to;
    let mut i: usize = 0;
    proof {
        assert(r@.map_values(|s: String| s@) =~= v@.map_values(|s: String| s@).take(0));
    }
    while i < n
        invariant
            n == to <= v@.len(),
            i <= n,
            r@.map_values(|s: String| s@) == v@.map_values(|s: String| s@).take(i as int),
        decreases n - i,
    {
        let ghost old_r = r@;
        let c = v[i].clone();
        proof {
            assert(c@ == v@[i as int]@);
        }
        r.push(c);
        proof {
            old_r.lemma_push_map_commute(|s: String| s@, c);
            v@.lemma_map_take_succ(|s: String| s@, i as int);
            assert(r@.map_values(|s: String| s@) =~= v@.map_values(|s: String| s@).take(
                i as int + 1,
            ));
        }
        i = i + 1;
    }
    r
}

/// A compiled matcher for one discovered ignore file.
struct DiscoveredMatcher {
    scope: Vec<String>,
    dot_ignore: bool,
    matcher: ignore::gitignore::Gitignore,
}

impl View for DiscoveredMatcher {
    type V = ScopeView;

    closed spec fn view(&self) -> ScopeView {
        ScopeView {
            scope: self.scope@.map_values(|s: String| s@),
            name: if self.dot_ignore {
                dot_ignore_name()
            } else {
                dot_gitignore_name()
            },
            lines: matcher_lines(self.matcher),
        }
    }
}

/// The discovered ignore files of a walk prefix head the discovered
/// ignore files of the whole walk.
proof fn lemma_discovered_prefix(events: Seq<EventView>, j: int)
    requires
        0 <= j <= events.len(),
    ensures
        discovered_views(events.take(j)).is_prefix_of(discovered_views(events)),
    decreases events.len(),
{
    if j == events.len() {
        assert(events.take(j) =~= events);
    } else if events.len() > 0 {
        assert(events.drop_last().take(j) =~= events.take(j));
        lemma_discovered_prefix(events.drop_last(), j);
    }
}

/// Builds a matcher for each ignore file the walk discovered, skipping
/// lines that do not parse; fails exactly when some discovered file's
/// kept lines do not compile.
fn build_discovered(events: &Vec<WalkEvent>) -> (r: Result<
    Vec<DiscoveredMatcher>,
    crate::rules::StageError,
>)
    ensures
        r is Ok <==> discovered_ok(events@.map_values(|e: WalkEvent| e@)),
        r matches Ok(ds) ==> ds@.map_values(|d: DiscoveredMatcher| d@) == discovered_views(
            events@.map_values(|e: WalkEvent| e@),
        ),
{
    let ghost event_views = events@.map_values(|e: WalkEvent| e@);
    let dot_ignore_text: String = String::from_str(".ignore");
    let dot_gitignore_text: String = String::from_str(".gitignore");
    let mut ds: Vec<DiscoveredMatcher> = Vec::new();
    let n = events.len();
    let mut i: usize = 0;
    proof {
        assert(event_views.take(0) =~= Seq::<EventView>::empty());
        assert(ds@.map_values(|d: DiscoveredMatcher| d@) =~= discovered_views(
            event_views.take(0),
        ));
    }
    while i < n
        invariant
            n == events@.len(),
            i <= n,
            event_views == events@.map_values(|e: WalkEvent| e@),
            dot_ignore_text@ == dot_ignore_name(),
            dot_gitignore_text@ == dot_gitignore_name(),
            ds@.map_values(|d: DiscoveredMatcher| d@) == discovered_views(
                event_views.take(i as int),
            ),
            forall|j: int| 0 <= j < ds@.len() ==> lines_compile((#[trigger] ds@[j])@.lines),
        decreases n - i,
    {
        let ghost ev = event_views[i as int];
        proof {
            assert(ev == events@[i as int]@);
            assert(event_views.take(i as int + 1).drop_last() =~= event_views.take(i as int));
            assert(event_views.take(i as int + 1).last() == ev);
        }
        let ghost old_ds = ds@;
        match &events[i] {
            WalkEvent::Found(entry) => {
                let plen = entry.path.len();
                let is_file = match entry.kind {
                    NodeKind::File => true,
                    _ => false,
                };
                if is_file && plen > 0 {
                    let name: &String = &entry.path[plen - 1];
                    proof {
                        assert(entry@.path.last() == entry.path@[plen - 1]@);
                    }
                    let di = *name == dot_ignore_text;
                    let dg = *name == dot_gitignore_text;
                    if di || dg {
                        proof {
                            assert(is_discovered(ev));
                        }
                        let lines = decode_lines(&entry.data);
                        let ghost line_views = text_lines(entry.data@);
                        let mut b = crate::matcher::gitignore_builder_new();
                        let lcount = lines.len();
                        let mut li: usize = 0;
                        proof {
                            assert(crate::matcher::builder_lines(b) =~= kept_lines(
                                line_views.take(0),
                            ));
                        }
                        while li < lcount
                            invariant
                                lcount == lines@.len(),
                                li <= lcount,
                                lines@.map_values(|s: String| s@) == line_views,
                                crate::matcher::builder_lines(b) == kept_lines(
                                    line_views.take(li as int),
                                ),
                            decreases lcount - li,
                        {
                            let line: &String = &lines[li];
                            proof {
                                assert(line_views[li as int] == line@);
                                assert(line_views.take(li as int + 1).drop_last()
                                    =~= line_views.take(li as int));
                                assert(line_views.take(li as int + 1).last()
                                    == line_views[li as int]);
                            }
                            let added = crate::matcher::gitignore_builder_add_line(
                                &mut b,
                                line.as_str(),
                            );
                            proof {
                                assert(crate::matcher::builder_lines(b) =~= kept_lines(
                                    line_views.take(li as int + 1),
                                ));
                            }
                            li = li + 1;
                        }
                        proof {
                            assert(line_views.take(lcount as int) =~= line_views);
                        }
                        match crate::matcher::gitignore_build(&b) {
                            Err(e) => {
                                proof {
                                    let dtaken = discovered_views(event_views.take(i as int + 1));
                                    assert(dtaken == old_ds.map_values(
                                        |d: DiscoveredMatcher| d@,
                                    ) + seq![scope_view_of(ev)]);
                                    lemma_discovered_prefix(event_views, i as int + 1);
                                    let whole = discovered_views(event_views);
                                    let bad = old_ds.len() as int;
                                    assert(dtaken.len() == bad + 1);
                                    assert(dtaken[bad] == scope_view_of(ev));
                                    assert(dtaken =~= whole.subrange(0, dtaken.len() as int));
                                    assert(whole[bad] == scope_view_of(ev));
                                    assert(!lines_compile(whole[bad].lines));
                                }
                                return Err(
                                    crate::rules::StageError::InvalidPattern {
                                        pattern: String::new(),
                                        message: crate::matcher::ignore_error_message(&e),
                                    },
                                );
                            },
                            Ok(m) => {
                                let scope = clone_prefix(&entry.path, plen - 1);
                                let dm = DiscoveredMatcher {
                                    scope,
                                    dot_ignore: di,
                                    matcher: m,
                                };
                                proof {
                                    assert(entry@.path.drop_last() =~= entry.path@.map_values(
                                        |s: String| s@,
                                    ).take(plen - 1));
                                    assert(dm@ == scope_view_of(ev));
                                }
                                ds.push(dm);
                                proof {
                                    old_ds.lemma_push_map_commute(
                                        |d: DiscoveredMatcher| d@,
                                        dm,
                                    );
                                    assert(ds@.map_values(|d: DiscoveredMatcher| d@)
                                        =~= discovered_views(event_views.take(i as int + 1)));
                                }
                            },
                        }
                    } else {
                        proof {
                            assert(!is_discovered(ev));
                            assert(ds@.map_values(|d: DiscoveredMatcher| d@) =~= discovered_views(
                                event_views.take(i as int + 1),
                            ));
                        }
                    }
                } else {
                    proof {
                        assert(!is_discovered(ev));
                        assert(ds@.map_values(|d: DiscoveredMatcher| d@) =~= discovered_views(
                            event_views.take(i as int + 1),
                        ));
                    }
                }
            },
            WalkEvent::Unreadable(_) => {
                proof {
                    assert(!is_discovered(ev));
                    assert(ds@.map_values(|d: DiscoveredMatcher| d@) =~= discovered_views(
                        event_views.take(i as int + 1),
                    ));
                }
            },
        }
        i = i + 1;
    }
    proof {
        assert(event_views.take(n as int) =~= event_views);
        assert forall|j: int|
            0 <= j < discovered_views(event_views).len() implies lines_compile(
            (#[trigger] discovered_views(event_views)[j]).lines,
        ) by {
            assert(discovered_views(event_views)[j] == ds@.map_values(
                |d: DiscoveredMatcher| d@,
            )[j]);
            assert(discovered_views(event_views)[j] == ds@[j]@);
        }
    }
    Ok(ds)
}

/// The warnings of a walk: one for each unreadable entry, in walk order.
pub open spec fn warning_views(events: Seq<EventView>) -> Seq<Seq<char>>
    decreases events.len(),
{
    if events.len() == 0 {
        Seq::empty()
    } else {
        warning_views(events.drop_last()) + match events.last() {
            EventView::Unreadable(m) => seq![m],
            EventView::Found(_) => Seq::empty(),
        }
    }
}

/// The two per-directory ignore file names are distinct.
proof fn lemma_ignore_names_differ()
    ensures
        dot_ignore_name() != dot_gitignore_name(),
{
    reveal_strlit(".ignore");
    reveal_strlit(".gitignore");
    assert(dot_ignore_name().len() == 7);
    assert(dot_gitignore_name().len() == 10);
}

/// Whether `scope` is exactly the first `d` segments of `path`.
fn scope_matches(scope: &Vec<String>, path: &Vec<String>, d: usize) -> (r: bool)
    requires
        d <= path@.len(),
    ensures
        r == (scope@.map_values(|s: String| s@) == path@.map_values(|s: String| s@).take(
            d as int,
        )),
{
    let ghost sv = scope@.map_values(|s: String| s@);
    let ghost pv = path@.map_values(|s: String| s@).take(d as int);
    if scope.len() != d {
        proof {
            assert(sv.len() != pv.len());
        }
        return false;
    }
    let mut i: usize = 0;
    while i < d
        invariant
            d <= path@.len(),
            scope@.len() == d,
            i <= d,
            sv == scope@.map_values(|s: String| s@),
            pv == path@.map_values(|s: String| s@).take(d as int),
            forall|j: int| 0 <= j < i ==> sv[j] == pv[j],
        decreases d - i,
    {
        if scope[i] != path[i] {
            proof {
                assert(sv[i as int] != pv[i as int]);
            }
            return false;
        }
        proof {
            assert(sv[i as int] == pv[i as int]);
        }
        i = i + 1;
    }
    proof {
        assert(sv =~= pv);
    }
    true
}

/// Finds the first discovered ignore file sitting in `path`'s first `d`
/// segments under the requested name.
fn find_scope_exec<'a>(
    ds: &'a Vec<DiscoveredMatcher>,
    path: &Vec<String>,
    d: usize,
    dot_ignore: bool,
) -> (r: Option<&'a DiscoveredMatcher>)
    requires
        d <= path@.len(),
    ensures
        ({
            let dsv = ds@.map_values(|m: DiscoveredMatcher| m@);
            let scope = path@.map_values(|s: String| s@).take(d as int);
            let name = if dot_ignore {
                dot_ignore_name()
            } else {
                dot_gitignore_name()
            };
            match r {
                Some(m) => find_scope(dsv, scope, name) == Some(m@),
                None => find_scope(dsv, scope, name) is None,
            }
        }),
{
    let ghost dsv = ds@.map_values(|m: DiscoveredMatcher| m@);
    let ghost scope = path@.map_values(|s: String| s@).take(d as int);
    let ghost name = if dot_ignore {
        dot_ignore_name()
    } else {
        dot_gitignore_name()
    };
    let n = ds.len();
    let mut j: usize = 0;
    proof {
        assert(dsv.skip(0) =~= dsv);
    }
    while j < n
        invariant
            n == ds@.len(),
            j <= n,
            d <= path@.len(),
            dsv == ds@.map_values(|m: DiscoveredMatcher| m@),
            scope == path@.map_values(|s: String| s@).take(d as int),
            name == (if dot_ignore {
                dot_ignore_name()
            } else {
                dot_gitignore_name()
            }),
            find_scope(dsv, scope, name) == find_scope(dsv.skip(j as int), scope, name),
        decreases n - j,
    {
        let m: &DiscoveredMatcher = &ds[j];
        proof {
            lemma_ignore_names_differ();
            assert(dsv[j as int] == m@);
            assert(dsv.skip(j as int)[0] == dsv[j as int]);
            assert(dsv.skip(j as int).drop_first() =~= dsv.skip(j as int + 1));
        }
        let name_hit = m.dot_ignore == dot_ignore;
        if name_hit {
            if scope_matches(&m.scope, path, d) {
                return Some(m);
            }
        }
        proof {
            assert(!(m@.scope == scope && m@.name == name));
        }
        j = j + 1;
    }
    proof {
        assert(dsv.skip(n as int).len() == 0);
    }
    None
}

/// The verdict of the discovered ignore files of one name for the entry
/// at `path`'s first `upto` segments, deepest directory first.
fn category_exec(
    ds: &Vec<DiscoveredMatcher>,
    dot_ignore: bool,
    path: &Vec<String>,
    upto: usize,
    is_dir: bool,
) -> (r: RuleMatch)
    requires
        1 <= upto <= path@.len(),
    ensures
        ({
            let dsv = ds@.map_values(|m: DiscoveredMatcher| m@);
            let p = path@.map_values(|s: String| s@).take(upto as int);
            let name = if dot_ignore {
                dot_ignore_name()
            } else {
                dot_gitignore_name()
            };
            r == category_verdict(dsv, name, p, is_dir, upto as int - 1)
        }),
{
    let ghost dsv = ds@.map_values(|m: DiscoveredMatcher| m@);
    let ghost p = path@.map_values(|s: String| s@).take(upto as int);
    let ghost name = if dot_ignore {
        dot_ignore_name()
    } else {
        dot_gitignore_name()
    };
    let mut dd = upto;
    while dd > 0
        invariant
            1 <= upto <= path@.len(),
            dd <= upto,
            dsv == ds@.map_values(|m: DiscoveredMatcher| m@),
            p == path@.map_values(|s: String| s@).take(upto as int),
            name == (if dot_ignore {
                dot_ignore_name()
            } else {
                dot_gitignore_name()
            }),
            category_verdict(dsv, name, p, is_dir, upto as int - 1) == category_verdict(
                dsv,
                name,
                p,
                is_dir,
                dd as int - 1,
            ),
        decreases dd,
    {
        dd = dd - 1;
        proof {
            assert(p.take(dd as int) =~= path@.map_values(|s: String| s@).take(dd as int));
        }
        match find_scope_exec(ds, path, dd, dot_ignore) {
            Some(m) => {
                let rel = join_range(path, dd, upto);
                proof {
                    assert(path@.subrange(dd as int, upto as int).map_values(|s: String| s@)
                        =~= p.skip(dd as int));
                }
                let v = crate::matcher::gitignore_matched(&m.matcher, rel.as_str(), is_dir);
                proof {
                    assert(matcher_lines(m.matcher) == m@.lines);
                    assert(v == scope_verdict(dsv, name, p, is_dir, dd as int));
                }
                if v != RuleMatch::NoRule {
                    return v;
                }
            },
            None => {
                proof {
                    assert(scope_verdict(dsv, name, p, is_dir, dd as int) == RuleMatch::NoRule);
                }
            },
        }
    }
    RuleMatch::NoRule
}

/// The verdict of the external ignore files for a relative path; the last
/// file given wins.
fn extra_exec(rules: &crate::rules::RuleSet, rel: &str, is_dir: bool) -> (r: RuleMatch)
    ensures
        r == extra_verdict(rules@.extra, rel@, is_dir),
{
    let gs = rules.extra_ignores();
    let ghost extra = rules@.extra;
    let mut k = gs.len();
    proof {
        assert(extra.len() == gs@.len());
        assert(extra.take(k as int) =~= extra);
    }
    while k > 0
        invariant
            k <= gs@.len(),
            gs@.map_values(|g: ignore::gitignore::Gitignore| matcher_lines(g)) == extra,
            extra == rules@.extra,
            extra_verdict(rules@.extra, rel@, is_dir) == extra_verdict(
                extra.take(k as int),
                rel@,
                is_dir,
            ),
        decreases k,
    {
        k = k - 1;
        proof {
            assert(extra.take(k as int + 1).last() == extra[k as int]);
            assert(extra.take(k as int + 1).drop_last() =~= extra.take(k as int));
            assert(extra[k as int] == matcher_lines(gs@[k as int]));
        }
        let v = crate::matcher::gitignore_matched(&gs[k], rel, is_dir);
        if v != RuleMatch::NoRule {
            return v;
        }
    }
    RuleMatch::NoRule
}

/// The override layer's decision for a relative path; the last matching
/// user glob wins.
fn override_exec(rules: &crate::rules::RuleSet, rel: &str, is_dir: bool) -> (r: Option<bool>)
    requires
        rules.wf(),
    ensures
        r == override_decision(rules@.user_rules, rel@, is_dir),
{
    let rs = rules.user_rules();
    let ghost urs = rules@.user_rules;
    let mut k = rs.len();
    proof {
        assert(urs.len() == rs@.len());
        assert(urs.take(k as int) =~= urs);
    }
    while k > 0
        invariant
            rules.wf(),
            k <= rs@.len(),
            rs@.map_values(|x: OverrideRule| x@) == urs,
            urs == rules@.user_rules,
            forall|j: int| 0 <= j < rs@.len() ==> (#[trigger] rs@[j]).wf(),
            override_decision(rules@.user_rules, rel@, is_dir) == override_decision(
                urs.take(k as int),
                rel@,
                is_dir,
            ),
        decreases k,
    {
        k = k - 1;
        proof {
            assert(urs.take(k as int + 1).last() == urs[k as int]);
            assert(urs.take(k as int + 1).drop_last() =~= urs.take(k as int));
            assert(urs[k as int] == rs@[k as int]@);
        }
        let rule: &OverrideRule = &rs[k];
        if rule.applies(rel, is_dir) {
            return Some(!rule.is_negated());
        }
    }
    None
}

/// Whether the rules let the entry at `path`'s first `upto` segments
/// through, its ancestors aside.
fn own_included_exec(
    rules: &crate::rules::RuleSet,
    ds: &Vec<DiscoveredMatcher>,
    path: &Vec<String>,
    upto: usize,
    is_dir: bool,
) -> (r: bool)
    requires
        rules.wf(),
        1 <= upto <= path@.len(),
    ensures
        r == own_included(
            rules@,
            ds@.map_values(|m: DiscoveredMatcher| m@),
            path@.map_values(|s: String| s@).take(upto as int),
            is_dir,
        ),
{
    let ghost dsv = ds@.map_values(|m: DiscoveredMatcher| m@);
    let ghost p = path@.map_values(|s: String| s@).take(upto as int);
    let meta_text: String = String::from_str("workshop.toml");
    proof {
        assert(meta_text@ == metadata_filename());
        assert(p[0] == path@[0]@);
    }
    if upto == 1 && path[0] == meta_text && !rules.meta_unprotected() {
        proof {
            assert(p =~= seq![metadata_filename()]);
        }
        return true;
    }
    proof {
        if p == seq![metadata_filename()] {
            assert(p.len() == 1);
            assert(p[0] == metadata_filename());
        }
    }
    let rel = join_range(path, 0, upto);
    proof {
        assert(path@.subrange(0, upto as int).map_values(|s: String| s@) =~= p);
    }
    match override_exec(rules, rel.as_str(), is_dir) {
        Some(inc) => inc,
        None => {
            let vi = category_exec(ds, true, path, upto, is_dir);
            let v = if vi != RuleMatch::NoRule {
                vi
            } else {
                let vg = category_exec(ds, false, path, upto, is_dir);
                if vg != RuleMatch::NoRule {
                    vg
                } else {
                    extra_exec(rules, rel.as_str(), is_dir)
                }
            };
            v != RuleMatch::Excluded
        },
    }
}

/// Whether the entry at `path` belongs to the staged copy: it is let
/// through itself and so is every ancestor directory on its path.
fn entry_included_exec(
    rules: &crate::rules::RuleSet,
    ds: &Vec<DiscoveredMatcher>,
    path: &Vec<String>,
    is_dir: bool,
) -> (r: bool)
    requires
        rules.wf(),
        path@.len() >= 1,
    ensures
        r == entry_included(
            rules@,
            ds@.map_values(|m: DiscoveredMatcher| m@),
            path@.map_values(|s: String| s@),
            is_dir,
        ),
{
    let ghost dsv = ds@.map_values(|m: DiscoveredMatcher| m@);
    let ghost pv = path@.map_values(|s: String| s@);
    let plen = path.len();
    proof {
        assert(pv.take(plen as int) =~= pv);
    }
    if !own_included_exec(rules, ds, path, plen, is_dir) {
        return false;
    }
    let mut d: usize = 1;
    while d < plen
        invariant
            rules.wf(),
            plen == path@.len(),
            plen >= 1,
            1 <= d <= plen,
            dsv == ds@.map_values(|m: DiscoveredMatcher| m@),
            pv == path@.map_values(|s: String| s@),
            own_included(rules@, dsv, pv, is_dir),
            forall|j: int| 1 <= j < d ==> own_included(rules@, dsv, #[trigger] pv.take(j), true),
        decreases plen - d,
    {
        if !own_included_exec(rules, ds, path, d, true) {
            proof {
                assert(!own_included(rules@, dsv, pv.take(d as int), true));
            }
            return false;
        }
        d = d + 1;
    }
    true
}

/// Walks the events of a source tree under a rule set and produces the
/// staged copy: every included file, in walk order, under its relative
/// path and with its bytes, and one warning for each unreadable entry.
/// It fails exactly when a discovered ignore file's kept lines do not
/// compile into a matcher.
pub fn stage_tree(rules: &crate::rules::RuleSet, events: &Vec<WalkEvent>) -> (r: Result<
    StageOutput,
    crate::rules::StageError,
>)
    requires
        rules.wf(),
    ensures
        r is Ok <==> discovered_ok(events@.map_values(|e: WalkEvent| e@)),
        r matches Ok(out) ==> ({
            let evs = events@.map_values(|e: WalkEvent| e@);
            let dsv = discovered_views(evs);
            &&& out.files@.map_values(|f: StagedFile| f@) == staged_views(rules@, dsv, evs)
            &&& out.warnings@.map_values(|w: String| w@) == warning_views(evs)
        }),
{
    let ghost evs = events@.map_values(|e: WalkEvent| e@);
    let ds = match build_discovered(events) {
        Ok(d) => d,
        Err(e) => {
            return Err(e);
        },
    };
    let ghost dsv = ds@.map_values(|m: DiscoveredMatcher| m@);
    let mut files: Vec<StagedFile> = Vec::new();
    let mut warnings: Vec<String> = Vec::new();
    let n = events.len();
    let mut i: usize = 0;
    proof {
        assert(evs.take(0) =~= Seq::<EventView>::empty());
        assert(files@.map_values(|f: StagedFile| f@) =~= staged_views(rules@, dsv, evs.take(0)));
        assert(warnings@.map_values(|w: String| w@) =~= warning_views(evs.take(0)));
    }
    while i < n
        invariant
            rules.wf(),
            n == events@.len(),
            i <= n,
            evs == events@.map_values(|e: WalkEvent| e@),
            dsv == ds@.map_values(|m: DiscoveredMatcher| m@),
            dsv == discovered_views(evs),
            files@.map_values(|f: StagedFile| f@) == staged_views(rules@, dsv, evs.take(i as int)),
            warnings@.map_values(|w: String| w@) == warning_views(evs.take(i as int)),
        decreases n - i,
    {
        let ghost ev = evs[i as int];
        proof {
            assert(ev == events@[i as int]@);
            assert(evs.take(i as int + 1).drop_last() =~= evs.take(i as int));
            assert(evs.take(i as int + 1).last() == ev);
        }
        match &events[i] {
            WalkEvent::Unreadable(msg) => {
                let ghost old_w = warnings@;
                let w = msg.clone();
                warnings.push(w);
                proof {
                    old_w.lemma_push_map_commute(|x: String| x@, w);
                    assert(warnings@.map_values(|x: String| x@) =~= warning_views(
                        evs.take(i as int + 1),
                    ));
                    assert(files@.map_values(|f: StagedFile| f@) =~= staged_views(
                        rules@,
                        dsv,
                        evs.take(i as int + 1),
                    ));
                }
            },
            WalkEvent::Found(entry) => {
                let plen = entry.path.len();
                let is_file = match entry.kind {
                    NodeKind::File => true,
                    _ => false,
                };
                let mut included = false;
                if is_file && plen > 0 {
                    included = entry_included_exec(rules, &ds, &entry.path, false);
                }
                if included {
                    let sf = StagedFile {
                        path: clone_prefix(&entry.path, plen),
                        data: clone_bytes(&entry.data),
                    };
                    proof {
                        assert(entry.path@.map_values(|s: String| s@).take(plen as int)
                            =~= entry@.path);
                        assert(sf@ == (StagedView { path: entry@.path, data: entry@.data }));
                        assert(is_staged_file(rules@, dsv, ev));
                    }
                    let ghost old_f = files@;
                    files.push(sf);
                    proof {
                        old_f.lemma_push_map_commute(|f: StagedFile| f@, sf);
                        assert(files@.map_values(|f: StagedFile| f@) =~= staged_views(
                            rules@,
                            dsv,
                            evs.take(i as int + 1),
                        ));
                    }
                } else {
                    proof {
                        assert(!is_staged_file(rules@, dsv, ev));
                        assert(files@.map_values(|f: StagedFile| f@) =~= staged_views(
                            rules@,
                            dsv,
                            evs.take(i as int + 1),
                        ));
                    }
                }
                proof {
                    assert(warnings@.map_values(|x: String| x@) =~= warning_views(
                        evs.take(i as int + 1),
                    ));
                }
            },
        }
        i = i + 1;
    }
    proof {
        assert(evs.take(n as int) =~= evs);
    }
    Ok(StageOutput { files, warnings })
}

/// The rule set's mathematical shape, as a function of the builder's
/// inputs alone.
pub open spec fn rules_view_of(globs: Seq<Seq<char>>, files: Seq<Seq<u8>>) -> RulesView {
    RulesView {
        user_rules: crate::rules::override_views(globs),
        meta_unprotected: crate::rules::meta_reexcluded(globs),
        extra: files.map_values(|f: Seq<u8>| text_lines(f)),
    }
}

/// The whole staging pipeline: builds the rule set out of the override
/// globs and the external ignore files, walks the source tree's events,
/// and produces the filtered copy together with the walk's warnings.
pub fn copy_filtered_content(
    events: &Vec<WalkEvent>,
    globs: &Vec<String>,
    ignore_files: &Vec<Vec<u8>>,
) -> (r: Result<StageOutput, crate::rules::StageError>)
    ensures
        r is Ok <==> crate::rules::build_ok(
            globs@.map_values(|s: String| s@),
            ignore_files@.map_values(|f: Vec<u8>| f@),
        ) && discovered_ok(events@.map_values(|e: WalkEvent| e@)),
        r matches Ok(out) ==> ({
            let evs = events@.map_values(|e: WalkEvent| e@);
            let rv = rules_view_of(
                globs@.map_values(|s: String| s@),
                ignore_files@.map_values(|f: Vec<u8>| f@),
            );
            &&& out.files@.map_values(|f: StagedFile| f@) == staged_views(
                rv,
                discovered_views(evs),
                evs,
            )
            &&& out.warnings@.map_values(|w: String| w@) == warning_views(evs)
            &&& forall|j: int| 0 <= j < out.files@.len() ==> (#[trigger] out.files@[j])@.path.len()
                >= 1
        }),
{
    let rules = match crate::rules::build_rule_set(globs, ignore_files) {
        Ok(r) => r,
        Err(e) => {
            return Err(e);
        },
    };
    proof {
        let gv = globs@.map_values(|s: String| s@);
        let fv = ignore_files@.map_values(|f: Vec<u8>| f@);
        assert(rules@.extra =~= fv.map_values(|f: Seq<u8>| text_lines(f)));
        assert(rules@ == rules_view_of(gv, fv));
    }
    let r = stage_tree(&rules, events);
    proof {
        if r is Ok {
            let evs = events@.map_values(|e: WalkEvent| e@);
            crate::laws::lemma_root_never_staged(rules@, discovered_views(evs), evs);
            let staged = staged_views(rules@, discovered_views(evs), evs);
            assert forall|j: int|
                0 <= j < r->Ok_0.files@.len() implies (#[trigger] r->Ok_0.files@[j])@.path.len()
                >= 1 by {
                assert(r->Ok_0.files@.map_values(|f: StagedFile| f@)[j] == staged[j]);
                assert(r->Ok_0.files@[j]@ == staged[j]);
            }
        }
    }
    r
}

} // verus!
