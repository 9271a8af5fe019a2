//! What holds of every copy of a directory.
use vstd::prelude::*;

use crate::tree_copy::{
    CopyErrorView, TreeActionView, TreeEntry, TreeEventView,
    TreeStep, TreeView,
};

verus! {

/// A source directory as the walk finds it: its entries in the order in which they are read.
pub enum Node<N> {
    File { name: N },
    Dir { name: N, entries: Seq<Node<N>> },
}

/// The outcomes of the operations of a walk through the directory under `path`, where all of them
/// succeed and `present` tells what there is in the destination.
pub open spec fn dir_events<N, E>(
    path: Seq<N>,
    entries: Seq<Node<N>>,
    present: spec_fn(Seq<N>) -> bool,
) -> Seq<TreeEventView<N, E>>
    decreases entries, 1int,
{
    seq![TreeEventView::Made(Ok(())), TreeEventView::Opened(Ok(()))] + entries_events(
        path,
        entries,
        present,
    ) + seq![TreeEventView::Entry(Ok(None))]
}

/// The outcomes for the entries of the directory under `path`.
pub open spec fn entries_events<N, E>(
    path: Seq<N>,
    entries: Seq<Node<N>>,
    present: spec_fn(Seq<N>) -> bool,
) -> Seq<TreeEventView<N, E>>
    decreases entries, 0int,
{
    if entries.len() == 0 {
        Seq::empty()
    } else {
        entries_events(path, entries.drop_last(), present) + node_events(
            path,
            entries.last(),
            present,
        )
    }
}

/// The outcomes for one entry of the directory under `path`.
pub open spec fn node_events<N, E>(
    path: Seq<N>,
    node: Node<N>,
    present: spec_fn(Seq<N>) -> bool,
) -> Seq<TreeEventView<N, E>>
    decreases node, 2int,
{
    match node {
        Node::File { name } => {
            let found = present(path.push(name));
            let asked = seq![
                TreeEventView::Entry(Ok(Some(TreeEntry { name, is_dir: false }))),
                TreeEventView::Probed(found),
            ];
            if found {
                asked
            } else {
                asked.push(TreeEventView::Copied(Ok(())))
            }
        },
        Node::Dir { name, entries } => seq![
            TreeEventView::Entry(Ok(Some(TreeEntry { name, is_dir: true }))),
        ] + dir_events(path.push(name), entries, present),
    }
}

/// The paths of the directories in and below the directory under `path`, itself first.
pub open spec fn dirs_below<N>(path: Seq<N>, entries: Seq<Node<N>>) -> Seq<Seq<N>>
    decreases entries, 1int,
{
    seq![path] + dirs_of_entries(path, entries)
}

/// The paths of the directories among and below the entries of the directory under `path`.
pub open spec fn dirs_of_entries<N>(path: Seq<N>, entries: Seq<Node<N>>) -> Seq<Seq<N>>
    decreases entries, 0int,
{
    if entries.len() == 0 {
        Seq::empty()
    } else {
        dirs_of_entries(path, entries.drop_last()) + match entries.last() {
            Node::File { .. } => Seq::empty(),
            Node::Dir { name, entries } => dirs_below(path.push(name), entries),
        }
    }
}

/// The paths of the files in and below the directory under `path`.
pub open spec fn files_below<N>(path: Seq<N>, entries: Seq<Node<N>>) -> Seq<Seq<N>>
    decreases entries,
{
    if entries.len() == 0 {
        Seq::empty()
    } else {
        files_below(path, entries.drop_last()) + match entries.last() {
            Node::File { name } => seq![path.push(name)],
            Node::Dir { name, entries } => files_below(path.push(name), entries),
        }
    }
}

/// What a copy becomes as one outcome after the other comes.
pub open spec fn after_all<P, N, E>(
    copy: TreeView<P, N, E>,
    events: Seq<TreeEventView<N, E>>,
) -> TreeView<P, N, E>
    decreases events.len(),
{
    if events.len() == 0 {
        copy
    } else {
        after_all(copy, events.drop_last()).after(events.last())
    }
}

/// The operations that a copy asks for as one outcome after the other comes.
pub open spec fn actions<P, N, E>(
    copy: TreeView<P, N, E>,
    events: Seq<TreeEventView<N, E>>,
) -> Seq<TreeActionView<P, N>>
    decreases events.len(),
{
    if events.len() == 0 {
        Seq::empty()
    } else {
        actions(copy, events.drop_last()) + match after_all(copy, events.drop_last()).action() {
            Some(action) => seq![action],
            None => Seq::empty(),
        }
    }
}

/// The path of the directory below `dst` that is created by `action`, if it creates one.
pub open spec fn made_by<P, N>(action: TreeActionView<P, N>, dst: P) -> Seq<Seq<N>> {
    match action {
        TreeActionView::MakeDir { top, path } if top == dst => seq![path],
        _ => Seq::empty(),
    }
}

/// The path of the file that is copied by `action` from below `src` to below `dst`, if it copies
/// one.
pub open spec fn copied_by<P, N>(action: TreeActionView<P, N>, src: P, dst: P) -> Seq<Seq<N>> {
    match action {
        TreeActionView::CopyFile { from, to, path } if from == src && to == dst => seq![path],
        _ => Seq::empty(),
    }
}

/// The paths of the directories below `dst` that are created by `actions`, in order.
pub open spec fn made<P, N>(actions: Seq<TreeActionView<P, N>>, dst: P) -> Seq<Seq<N>>
    decreases actions.len(),
{
    if actions.len() == 0 {
        Seq::empty()
    } else {
        made(actions.drop_last(), dst) + made_by(actions.last(), dst)
    }
}

/// The paths of the files that are copied by `actions` from below `src` to below `dst`, in order.
pub open spec fn copied<P, N>(
    actions: Seq<TreeActionView<P, N>>,
    src: P,
    dst: P,
) -> Seq<Seq<N>>
    decreases actions.len(),
{
    if actions.len() == 0 {
        Seq::empty()
    } else {
        copied(actions.drop_last(), src, dst) + copied_by(actions.last(), src, dst)
    }
}

/// The path of the directory below `src` that is opened by `action`, if it opens one.
pub open spec fn opened_by<P, N>(action: TreeActionView<P, N>, src: P) -> Seq<Seq<N>> {
    match action {
        TreeActionView::OpenDir { top, path } if top == src => seq![path],
        _ => Seq::empty(),
    }
}

/// The path below `dst` that `action` looks for, if it looks for one.
pub open spec fn probed_by<P, N>(action: TreeActionView<P, N>, dst: P) -> Seq<Seq<N>> {
    match action {
        TreeActionView::Probe { top, path } if top == dst => seq![path],
        _ => Seq::empty(),
    }
}

/// The paths of the directories below `src` that are opened by `actions`, in order.
pub open spec fn opened<P, N>(actions: Seq<TreeActionView<P, N>>, src: P) -> Seq<Seq<N>>
    decreases actions.len(),
{
    if actions.len() == 0 {
        Seq::empty()
    } else {
        opened(actions.drop_last(), src) + opened_by(actions.last(), src)
    }
}

/// The paths below `dst` that `actions` look for, in order.
pub open spec fn probed<P, N>(actions: Seq<TreeActionView<P, N>>, dst: P) -> Seq<Seq<N>>
    decreases actions.len(),
{
    if actions.len() == 0 {
        Seq::empty()
    } else {
        probed(actions.drop_last(), dst) + probed_by(actions.last(), dst)
    }
}

/// Whether `event` is an outcome of `action`, where `present` tells what there is below `dst`:
/// directories are created below `dst` and opened below `src`, things are looked for below `dst`,
/// and files are copied from below `src` to below `dst`.
pub open spec fn is_outcome<P, N, E>(
    action: TreeActionView<P, N>,
    event: TreeEventView<N, E>,
    src: P,
    dst: P,
    present: spec_fn(Seq<N>) -> bool,
) -> bool {
    match (action, event) {
        (TreeActionView::MakeDir { top, .. }, TreeEventView::Made(_)) => top == dst,
        (TreeActionView::OpenDir { top, .. }, TreeEventView::Opened(_)) => top == src,
        (TreeActionView::NextEntry, TreeEventView::Entry(_)) => true,
        (TreeActionView::Probe { top, path }, TreeEventView::Probed(found)) => top == dst && found
            == present(path),
        (TreeActionView::CopyFile { from, to, .. }, TreeEventView::Copied(_)) => from == src && to
            == dst,
        _ => false,
    }
}

/// Whether each of `events` is an outcome of the operation of its turn.
pub open spec fn are_outcomes<P, N, E>(
    actions: Seq<TreeActionView<P, N>>,
    events: Seq<TreeEventView<N, E>>,
    src: P,
    dst: P,
    present: spec_fn(Seq<N>) -> bool,
) -> bool {
    &&& actions.len() == events.len()
    &&& forall|i: int|
        0 <= i < actions.len() ==> is_outcome(#[trigger] actions[i], events[i], src, dst, present)
}

/// Those of `paths` under which there is nothing in the destination.
pub open spec fn missing<N>(paths: Seq<Seq<N>>, present: spec_fn(Seq<N>) -> bool) -> Seq<Seq<N>> {
    paths.filter(|path: Seq<N>| !present(path))
}

/// Two sequences of outcomes that come one behind the other.
proof fn lemma_after_concat<P, N, E>(
    copy: TreeView<P, N, E>,
    first: Seq<TreeEventView<N, E>>,
    second: Seq<TreeEventView<N, E>>,
)
    ensures
        after_all(copy, first + second) == after_all(after_all(copy, first), second),
        actions(copy, first + second) == actions(copy, first) + actions(
            after_all(copy, first),
            second,
        ),
    decreases second.len(),
{
    if second.len() == 0 {
        assert(first + second =~= first);
        assert(actions(copy, first) + actions(after_all(copy, first), second) =~= actions(
            copy,
            first,
        ));
    } else {
        lemma_after_concat(copy, first, second.drop_last());
        assert((first + second).drop_last() =~= first + second.drop_last());
        assert(actions(copy, first + second) =~= actions(copy, first) + actions(
            after_all(copy, first),
            second,
        ));
    }
}

/// One outcome by itself.
proof fn lemma_after_one<P, N, E>(copy: TreeView<P, N, E>, event: TreeEventView<N, E>)
    requires
        copy is Pending,
    ensures
        after_all(copy, seq![event]) == copy.after(event),
        actions(copy, seq![event]) == seq![copy.action().unwrap()],
{
    let events = seq![event];
    assert(events.drop_last() =~= Seq::empty());
    assert(after_all(copy, events.drop_last()) == copy);
    assert(actions(copy, events.drop_last()) =~= Seq::empty());
    assert(actions(copy, events) =~= seq![copy.action().unwrap()]);
}

/// The paths that operations create, open, look for and copy, each in order.
struct Work<N> {
    made: Seq<Seq<N>>,
    opened: Seq<Seq<N>>,
    probed: Seq<Seq<N>>,
    copied: Seq<Seq<N>>,
}

impl<N> Work<N> {
    /// This work and then another.
    spec fn plus(self, other: Work<N>) -> Work<N> {
        Work {
            made: self.made + other.made,
            opened: self.opened + other.opened,
            probed: self.probed + other.probed,
            copied: self.copied + other.copied,
        }
    }
}

/// The work of `actions`.
spec fn work_of<P, N>(actions: Seq<TreeActionView<P, N>>, src: P, dst: P) -> Work<N> {
    Work {
        made: made(actions, dst),
        opened: opened(actions, src),
        probed: probed(actions, dst),
        copied: copied(actions, src, dst),
    }
}

/// The work of one operation.
spec fn work_by<P, N>(action: TreeActionView<P, N>, src: P, dst: P) -> Work<N> {
    Work {
        made: made_by(action, dst),
        opened: opened_by(action, src),
        probed: probed_by(action, dst),
        copied: copied_by(action, src, dst),
    }
}

/// The work of the walk through the directory under `path`.
spec fn work_of_dir<N>(
    path: Seq<N>,
    entries: Seq<Node<N>>,
    present: spec_fn(Seq<N>) -> bool,
) -> Work<N> {
    Work {
        made: dirs_below(path, entries),
        opened: dirs_below(path, entries),
        probed: files_below(path, entries),
        copied: missing(files_below(path, entries), present),
    }
}

/// The work of the walk through the entries of the directory under `path`.
spec fn work_of_entries<N>(
    path: Seq<N>,
    entries: Seq<Node<N>>,
    present: spec_fn(Seq<N>) -> bool,
) -> Work<N> {
    Work {
        made: dirs_of_entries(path, entries),
        opened: dirs_of_entries(path, entries),
        probed: files_below(path, entries),
        copied: missing(files_below(path, entries), present),
    }
}

/// The work of the walk through one entry of the directory under `path`.
spec fn work_of_node<N>(
    path: Seq<N>,
    node: Node<N>,
    present: spec_fn(Seq<N>) -> bool,
) -> Work<N> {
    match node {
        Node::File { name } => Work {
            made: Seq::empty(),
            opened: Seq::empty(),
            probed: seq![path.push(name)],
            copied: missing(seq![path.push(name)], present),
        },
        Node::Dir { name, entries } => work_of_dir(path.push(name), entries, present),
    }
}

/// The work of two sequences of operations one behind the other.
proof fn lemma_done_concat<P, N>(
    first: Seq<TreeActionView<P, N>>,
    second: Seq<TreeActionView<P, N>>,
    src: P,
    dst: P,
)
    ensures
        work_of(first + second, src, dst) == work_of(first, src, dst).plus(
            work_of(second, src, dst),
        ),
    decreases second.len(),
{
    let all = first + second;
    if second.len() == 0 {
        assert(all =~= first);
    } else {
        lemma_done_concat(first, second.drop_last(), src, dst);
        assert(all.drop_last() =~= first + second.drop_last());
    }
    assert(made(all, dst) =~= made(first, dst) + made(second, dst));
    assert(opened(all, src) =~= opened(first, src) + opened(second, src));
    assert(probed(all, dst) =~= probed(first, dst) + probed(second, dst));
    assert(copied(all, src, dst) =~= copied(first, src, dst) + copied(second, src, dst));
}

/// The work of one operation by itself.
proof fn lemma_done_one<P, N>(action: TreeActionView<P, N>, src: P, dst: P)
    ensures
        work_of(seq![action], src, dst) == work_by(action, src, dst),
{
    let actions = seq![action];
    let none = Seq::<TreeActionView<P, N>>::empty();
    assert(actions.drop_last() =~= none);
    assert(made(none, dst) =~= Seq::empty());
    assert(opened(none, src) =~= Seq::empty());
    assert(probed(none, dst) =~= Seq::empty());
    assert(copied(none, src, dst) =~= Seq::empty());
    assert(made(actions, dst) =~= made_by(action, dst));
    assert(opened(actions, src) =~= opened_by(action, src));
    assert(probed(actions, dst) =~= probed_by(action, dst));
    assert(copied(actions, src, dst) =~= copied_by(action, src, dst));
}

/// Whether the outcomes `events` bring the copy from `start` to `end`, each of them being an
/// outcome of the operation of its turn, and these operations do `work`.
spec fn brings<P, N, E>(
    start: TreeView<P, N, E>,
    events: Seq<TreeEventView<N, E>>,
    end: TreeView<P, N, E>,
    src: P,
    dst: P,
    present: spec_fn(Seq<N>) -> bool,
    work: Work<N>,
) -> bool {
    &&& after_all(start, events) == end
    &&& work_of(actions(start, events), src, dst) == work
    &&& are_outcomes(actions(start, events), events, src, dst, present)
}

proof fn lemma_brings_concat<P, N, E>(
    start: TreeView<P, N, E>,
    first: Seq<TreeEventView<N, E>>,
    middle: TreeView<P, N, E>,
    second: Seq<TreeEventView<N, E>>,
    end: TreeView<P, N, E>,
    src: P,
    dst: P,
    present: spec_fn(Seq<N>) -> bool,
    work1: Work<N>,
    work2: Work<N>,
)
    requires
        brings(start, first, middle, src, dst, present, work1),
        brings(middle, second, end, src, dst, present, work2),
    ensures
        brings(start, first + second, end, src, dst, present, work1.plus(work2)),
{
    let asked1 = actions(start, first);
    let asked2 = actions(middle, second);
    lemma_after_concat(start, first, second);
    lemma_done_concat(asked1, asked2, src, dst);
    assert forall|i: int| 0 <= i < (asked1 + asked2).len() implies is_outcome(
        #[trigger] (asked1 + asked2)[i],
        (first + second)[i],
        src,
        dst,
        present,
    ) by {
        if i < asked1.len() {
            assert(is_outcome(asked1[i], first[i], src, dst, present));
        } else {
            assert(is_outcome(
                asked2[i - asked1.len()],
                second[i - asked1.len()],
                src,
                dst,
                present,
            ));
        }
    }
}

proof fn lemma_brings_one<P, N, E>(
    start: TreeView<P, N, E>,
    event: TreeEventView<N, E>,
    src: P,
    dst: P,
    present: spec_fn(Seq<N>) -> bool,
)
    requires
        start is Pending,
        is_outcome(start.action().unwrap(), event, src, dst, present),
    ensures
        brings(
            start,
            seq![event],
            start.after(event),
            src,
            dst,
            present,
            work_by(start.action().unwrap(), src, dst),
        ),
{
    lemma_after_one(start, event);
    lemma_done_one(start.action().unwrap(), src, dst);
}

/// The walk through a directory ends above it, with its directories created and its missing files
/// copied.
proof fn lemma_dir<P, N, E>(
    src: P,
    dst: P,
    path: Seq<N>,
    entries: Seq<Node<N>>,
    present: spec_fn(Seq<N>) -> bool,
)
    ensures
        brings(
            TreeView::<P, N, E>::Pending { src, dst, path, step: TreeStep::MakeDir },
            dir_events(path, entries, present),
            TreeView::<P, N, E>::leave(src, dst, path),
            src,
            dst,
            present,
            work_of_dir(path, entries, present),
        ),
    decreases entries, 1int,
{
    let start = TreeView::<P, N, E>::Pending { src, dst, path, step: TreeStep::MakeDir };
    let opening = TreeView::<P, N, E>::Pending { src, dst, path, step: TreeStep::OpenDir };
    let reading = TreeView::<P, N, E>::Pending { src, dst, path, step: TreeStep::NextEntry };
    let end = TreeView::<P, N, E>::leave(src, dst, path);
    let make = TreeEventView::<N, E>::Made(Ok(()));
    let open = TreeEventView::<N, E>::Opened(Ok(()));
    let close = TreeEventView::<N, E>::Entry(Ok(None));
    let inner = entries_events::<N, E>(path, entries, present);
    let head = work_by(start.action().unwrap(), src, dst).plus(
        work_by(opening.action().unwrap(), src, dst),
    );
    let body = work_of_entries(path, entries, present);
    let rest = work_by(reading.action().unwrap(), src, dst);
    lemma_brings_one(start, make, src, dst, present);
    lemma_brings_one(opening, open, src, dst, present);
    lemma_brings_one(reading, close, src, dst, present);
    lemma_entries::<P, N, E>(src, dst, path, entries, present);
    lemma_brings_concat(
        start,
        seq![make],
        opening,
        seq![open],
        reading,
        src,
        dst,
        present,
        work_by(start.action().unwrap(), src, dst),
        work_by(opening.action().unwrap(), src, dst),
    );
    assert(seq![make] + seq![open] =~= seq![make, open]);
    lemma_brings_concat(
        start,
        seq![make, open],
        reading,
        inner,
        reading,
        src,
        dst,
        present,
        head,
        body,
    );
    lemma_brings_concat(
        start,
        seq![make, open] + inner,
        reading,
        seq![close],
        end,
        src,
        dst,
        present,
        head.plus(body),
        rest,
    );
    let all = head.plus(body).plus(rest);
    let work = work_of_dir(path, entries, present);
    assert(all.made =~= work.made);
    assert(all.opened =~= work.opened);
    assert(all.probed =~= work.probed);
    assert(all.copied =~= work.copied);
}

/// The walk through the entries of a directory ends in that directory.
proof fn lemma_entries<P, N, E>(
    src: P,
    dst: P,
    path: Seq<N>,
    entries: Seq<Node<N>>,
    present: spec_fn(Seq<N>) -> bool,
)
    ensures
        brings(
            TreeView::<P, N, E>::Pending { src, dst, path, step: TreeStep::NextEntry },
            entries_events(path, entries, present),
            TreeView::<P, N, E>::Pending { src, dst, path, step: TreeStep::NextEntry },
            src,
            dst,
            present,
            work_of_entries(path, entries, present),
        ),
    decreases entries, 0int,
{
    let reading = TreeView::<P, N, E>::Pending { src, dst, path, step: TreeStep::NextEntry };
    let wanted = |p: Seq<N>| !present(p);
    let work = work_of_entries(path, entries, present);
    if entries.len() == 0 {
        reveal(Seq::filter);
        let asked = actions(reading, Seq::<TreeEventView<N, E>>::empty());
        assert(asked =~= Seq::empty());
        assert(made(asked, dst) =~= work.made);
        assert(opened(asked, src) =~= work.opened);
        assert(probed(asked, dst) =~= work.probed);
        assert(copied(asked, src, dst) =~= work.copied);
    } else {
        let before = entries.drop_last();
        let last = entries.last();
        let files = match last {
            Node::File { name } => seq![path.push(name)],
            Node::Dir { name, entries } => files_below(path.push(name), entries),
        };
        lemma_entries::<P, N, E>(src, dst, path, before, present);
        lemma_node::<P, N, E>(src, dst, path, last, present);
        lemma_brings_concat(
            reading,
            entries_events::<N, E>(path, before, present),
            reading,
            node_events::<N, E>(path, last, present),
            reading,
            src,
            dst,
            present,
            work_of_entries(path, before, present),
            work_of_node(path, last, present),
        );
        Seq::filter_distributes_over_add(files_below(path, before), files, wanted);
        let all = work_of_entries(path, before, present).plus(work_of_node(path, last, present));
        assert(all.made =~= work.made);
        assert(all.opened =~= work.opened);
        assert(all.probed =~= work.probed);
        assert(all.copied =~= work.copied);
    }
}

/// The walk through one entry of a directory ends in that directory.
proof fn lemma_node<P, N, E>(
    src: P,
    dst: P,
    path: Seq<N>,
    node: Node<N>,
    present: spec_fn(Seq<N>) -> bool,
)
    ensures
        brings(
            TreeView::<P, N, E>::Pending { src, dst, path, step: TreeStep::NextEntry },
            node_events(path, node, present),
            TreeView::<P, N, E>::Pending { src, dst, path, step: TreeStep::NextEntry },
            src,
            dst,
            present,
            work_of_node(path, node, present),
        ),
    decreases node, 2int,
{
    let reading = TreeView::<P, N, E>::Pending { src, dst, path, step: TreeStep::NextEntry };
    let read_work = work_by(reading.action().unwrap(), src, dst);
    let work = work_of_node(path, node, present);
    match node {
        Node::File { name } => {
            let file = path.push(name);
            let found = present(file);
            let probing = TreeView::<P, N, E>::Pending {
                src,
                dst,
                path: file,
                step: TreeStep::Probe,
            };
            let copying = TreeView::<P, N, E>::Pending {
                src,
                dst,
                path: file,
                step: TreeStep::CopyFile,
            };
            let read = TreeEventView::<N, E>::Entry(Ok(Some(TreeEntry { name, is_dir: false })));
            let told = TreeEventView::<N, E>::Probed(found);
            let done = TreeEventView::<N, E>::Copied(Ok(()));
            let probe_work = work_by(probing.action().unwrap(), src, dst);
            let copy_work = work_by(copying.action().unwrap(), src, dst);
            assert(file.drop_last() =~= path);
            lemma_brings_one(reading, read, src, dst, present);
            lemma_brings_one(probing, told, src, dst, present);
            lemma_brings_one(copying, done, src, dst, present);
            let asked = if found {
                reading
            } else {
                copying
            };
            lemma_brings_concat(
                reading,
                seq![read],
                probing,
                seq![told],
                asked,
                src,
                dst,
                present,
                read_work,
                probe_work,
            );
            assert(seq![read] + seq![told] =~= seq![read, told]);
            assert(missing(seq![file], present) =~= if found {
                Seq::empty()
            } else {
                seq![file]
            }) by {
                reveal(Seq::filter);
                assert(seq![file].drop_last() =~= Seq::empty());
                assert(seq![file].last() == file);
                assert(missing(seq![file].drop_last(), present) =~= Seq::empty());
            }
            let looked = read_work.plus(probe_work);
            if found {
                assert(looked.made =~= work.made);
                assert(looked.opened =~= work.opened);
                assert(looked.probed =~= work.probed);
                assert(looked.copied =~= work.copied);
            } else {
                lemma_brings_concat(
                    reading,
                    seq![read, told],
                    copying,
                    seq![done],
                    reading,
                    src,
                    dst,
                    present,
                    looked,
                    copy_work,
                );
                assert(seq![read, told] + seq![done] =~= seq![read, told].push(done));
                let all = looked.plus(copy_work);
                assert(all.made =~= work.made);
                assert(all.opened =~= work.opened);
                assert(all.probed =~= work.probed);
                assert(all.copied =~= work.copied);
            }
        },
        Node::Dir { name, entries } => {
            let dir = path.push(name);
            let making = TreeView::<P, N, E>::Pending {
                src,
                dst,
                path: dir,
                step: TreeStep::MakeDir,
            };
            let read = TreeEventView::<N, E>::Entry(Ok(Some(TreeEntry { name, is_dir: true })));
            assert(dir.drop_last() =~= path);
            lemma_brings_one(reading, read, src, dst, present);
            lemma_dir::<P, N, E>(src, dst, dir, entries, present);
            lemma_brings_concat(
                reading,
                seq![read],
                making,
                dir_events::<N, E>(dir, entries, present),
                reading,
                src,
                dst,
                present,
                read_work,
                work_of_dir(dir, entries, present),
            );
            let all = read_work.plus(work_of_dir(dir, entries, present));
            assert(all.made =~= work.made);
            assert(all.opened =~= work.opened);
            assert(all.probed =~= work.probed);
            assert(all.copied =~= work.copied);
        },
    }
}

/// Where no operation fails, the copy of the directory `src` to `dst` succeeds. It has then created
/// `dst` and every directory of the source below it, opened `src` and every directory below it,
/// looked for every file of the source in the destination, and copied from `src` to `dst` exactly
/// those files under whose paths there was nothing in the destination, all in the order in which
/// they are found. Each outcome that comes is one of the very operation that the copy asked for.
pub proof fn law_missing_files_are_copied<P, N, E>(
    src: P,
    dst: P,
    entries: Seq<Node<N>>,
    present: spec_fn(Seq<N>) -> bool,
)
    ensures
        ({
            let start = TreeView::<P, N, E>::begin(src, dst);
            let events = dir_events::<N, E>(Seq::empty(), entries, present);
            &&& after_all(start, events) == TreeView::<P, N, E>::Done(Ok(()))
            &&& made(actions(start, events), dst) == dirs_below(Seq::empty(), entries)
            &&& opened(actions(start, events), src) == dirs_below(Seq::empty(), entries)
            &&& probed(actions(start, events), dst) == files_below(Seq::empty(), entries)
            &&& copied(actions(start, events), src, dst) == missing(
                files_below(Seq::empty(), entries),
                present,
            )
            &&& are_outcomes(actions(start, events), events, src, dst, present)
        }),
{
    lemma_dir::<P, N, E>(src, dst, Seq::empty(), entries, present);
}

/// Where there is something in the destination under each of `paths`, none of them is missing.
proof fn lemma_nothing_missing<N>(paths: Seq<Seq<N>>, present: spec_fn(Seq<N>) -> bool)
    requires
        forall|i: int| 0 <= i < paths.len() ==> present(#[trigger] paths[i]),
    ensures
        missing(paths, present) == Seq::<Seq<N>>::empty(),
    decreases paths.len(),
{
    reveal(Seq::filter);
    if paths.len() > 0 {
        assert(present(paths[paths.len() - 1]));
        lemma_nothing_missing(paths.drop_last(), present);
    }
    assert(missing(paths, present) =~= Seq::empty());
}

/// What there is in the destination once `files` have come to what was `present` there.
pub open spec fn with_files<N>(
    present: spec_fn(Seq<N>) -> bool,
    files: Seq<Seq<N>>,
) -> spec_fn(Seq<N>) -> bool {
    |path: Seq<N>| present(path) || files.contains(path)
}

/// A later copy, which finds the entries `again` in whatever order, copies nothing where it finds
/// no file that the first copy did not find: where no operation fails, it succeeds, having looked
/// for every file and created every directory that it finds.
pub proof fn law_later_copy_without_new_files_copies_nothing<P, N, E>(
    src: P,
    dst: P,
    entries: Seq<Node<N>>,
    again: Seq<Node<N>>,
    present: spec_fn(Seq<N>) -> bool,
)
    requires
        forall|i: int|
            0 <= i < files_below(Seq::empty(), again).len() ==> files_below(
                Seq::empty(),
                entries,
            ).contains(#[trigger] files_below(Seq::empty(), again)[i]),
    ensures
        ({
            let start = TreeView::<P, N, E>::begin(src, dst);
            let first = dir_events::<N, E>(Seq::empty(), entries, present);
            let came = copied(actions(start, first), src, dst);
            let second = dir_events::<N, E>(Seq::empty(), again, with_files(present, came));
            &&& after_all(start, second) == TreeView::<P, N, E>::Done(Ok(()))
            &&& copied(actions(start, second), src, dst) == Seq::<Seq<N>>::empty()
            &&& made(actions(start, second), dst) == dirs_below(Seq::empty(), again)
        }),
{
    let start = TreeView::<P, N, E>::begin(src, dst);
    let first = dir_events::<N, E>(Seq::empty(), entries, present);
    let came = copied(actions(start, first), src, dst);
    let before = files_below(Seq::empty(), entries);
    let paths = files_below(Seq::empty(), again);
    let wanted = |path: Seq<N>| !present(path);
    law_missing_files_are_copied::<P, N, E>(src, dst, entries, present);
    law_missing_files_are_copied::<P, N, E>(src, dst, again, with_files(present, came));
    assert forall|i: int| 0 <= i < paths.len() implies with_files(present, came)(
        #[trigger] paths[i],
    ) by {
        assert(before.contains(paths[i]));
        let k = choose|k: int| 0 <= k < before.len() && before[k] == paths[i];
        if wanted(before[k]) {
            before.lemma_filter_contains(wanted, k);
        }
    }
    lemma_nothing_missing(paths, with_files(present, came));
}

/// A second copy of a directory that has not changed since the first one, and is read in the same
/// order, copies nothing: where no operation fails, it succeeds, having found every file in the
/// destination and created the same directories as the first.
pub proof fn law_second_copy_copies_nothing<P, N, E>(
    src: P,
    dst: P,
    entries: Seq<Node<N>>,
    present: spec_fn(Seq<N>) -> bool,
)
    ensures
        ({
            let start = TreeView::<P, N, E>::begin(src, dst);
            let first = dir_events::<N, E>(Seq::empty(), entries, present);
            let came = copied(actions(start, first), src, dst);
            let second = dir_events::<N, E>(Seq::empty(), entries, with_files(present, came));
            &&& after_all(start, second) == TreeView::<P, N, E>::Done(Ok(()))
            &&& copied(actions(start, second), src, dst) == Seq::<Seq<N>>::empty()
            &&& made(actions(start, second), dst) == made(actions(start, first), dst)
        }),
{
    law_missing_files_are_copied::<P, N, E>(src, dst, entries, present);
    law_later_copy_without_new_files_copies_nothing::<P, N, E>(
        src,
        dst,
        entries,
        entries,
        present,
    );
}

/// Whether `action` creates and looks for things only in and below `dst`, opens only `src` and what
/// stands below it, and copies only from below `src` to below `dst`.
pub open spec fn stays_within<P, N>(action: TreeActionView<P, N>, src: P, dst: P) -> bool {
    match action {
        TreeActionView::MakeDir { top, .. } => top == dst,
        TreeActionView::OpenDir { top, .. } => top == src,
        TreeActionView::NextEntry => true,
        TreeActionView::Probe { top, .. } => top == dst,
        TreeActionView::CopyFile { from, to, .. } => from == src && to == dst,
    }
}

/// Whether [`stays_within`] holds of each of `actions`.
pub open spec fn all_stay_within<P, N>(
    actions: Seq<TreeActionView<P, N>>,
    src: P,
    dst: P,
) -> bool {
    forall|i: int| 0 <= i < actions.len() ==> stays_within(#[trigger] actions[i], src, dst)
}

/// Whatever the outcomes are, a copy from `src` to `dst` opens directories in the source alone,
/// creates directories in the destination alone, and copies files only from the one to the other.
pub proof fn law_copy_stays_in_its_directories<P, N, E>(
    src: P,
    dst: P,
    events: Seq<TreeEventView<N, E>>,
)
    ensures
        all_stay_within(actions(TreeView::<P, N, E>::begin(src, dst), events), src, dst),
        match after_all(TreeView::<P, N, E>::begin(src, dst), events) {
            TreeView::Pending { src: from, dst: to, .. } => from == src && to == dst,
            TreeView::Done(_) => true,
        },
    decreases events.len(),
{
    if events.len() > 0 {
        law_copy_stays_in_its_directories::<P, N, E>(src, dst, events.drop_last());
        let asked = actions(TreeView::<P, N, E>::begin(src, dst), events.drop_last());
        let all = actions(TreeView::<P, N, E>::begin(src, dst), events);
        assert forall|i: int| 0 <= i < all.len() implies stays_within(
            #[trigger] all[i],
            src,
            dst,
        ) by {
            if i < asked.len() {
                assert(all[i] == asked[i]);
            }
        }
    }
}

/// A file is copied only where the destination was found to have nothing under its path.
pub proof fn law_existing_file_is_not_overwritten<P, N, E>(
    copy: TreeView<P, N, E>,
    event: TreeEventView<N, E>,
    from: P,
    to: P,
    path: Seq<N>,
)
    requires
        copy.after(event).action() == Some(TreeActionView::CopyFile { from, to, path }),
        copy.after(event) != copy,
    ensures
        copy.action() == Some(TreeActionView::Probe { top: to, path }),
        event == TreeEventView::<N, E>::Probed(false),
{
}

/// A copy fails only where an operation has failed, and it reports that failure.
pub proof fn law_copy_fails_for_a_reason<P, N, E>(
    copy: TreeView<P, N, E>,
    event: TreeEventView<N, E>,
    e: CopyErrorView<E>,
)
    requires
        copy is Pending,
        copy.after(event) == TreeView::<P, N, E>::Done(Err(e)),
    ensures
        match event {
            TreeEventView::Made(result) => result matches Err(cause) && e == CopyErrorView::Os(
                cause,
            ),
            TreeEventView::Opened(result) => result matches Err(failure) && e
                == CopyErrorView::<E>::Other(
                "failed to open "@ + failure.place + ", error: "@ + failure.cause,
            ),
            TreeEventView::Entry(result) => result matches Err(cause) && e == CopyErrorView::Os(
                cause,
            ),
            TreeEventView::Probed(_) => false,
            TreeEventView::Copied(result) => result matches Err(failure) && e
                == CopyErrorView::<E>::Other(
                "copy file "@ + failure.place + " error: "@ + failure.cause,
            ),
        },
{
}

/// The first failure ends the copy, which reports it.
pub proof fn law_failure_ends_copy<P, N, E>(copy: TreeView<P, N, E>, event: TreeEventView<N, E>)
    ensures
        match (copy.action(), event) {
            (Some(TreeActionView::MakeDir { .. }), TreeEventView::Made(Err(e))) => copy.after(event)
                == TreeView::<P, N, E>::Done(Err(CopyErrorView::Os(e))),
            (Some(TreeActionView::OpenDir { .. }), TreeEventView::Opened(Err(failure))) => {
                copy.after(event) == TreeView::<P, N, E>::Done(
                    Err(
                        CopyErrorView::Other(
                            "failed to open "@ + failure.place + ", error: "@ + failure.cause,
                        ),
                    ),
                )
            },
            (Some(TreeActionView::NextEntry), TreeEventView::Entry(Err(e))) => copy.after(event)
                == TreeView::<P, N, E>::Done(Err(CopyErrorView::Os(e))),
            (Some(TreeActionView::CopyFile { .. }), TreeEventView::Copied(Err(failure))) => {
                copy.after(event) == TreeView::<P, N, E>::Done(
                    Err(
                        CopyErrorView::Other(
                            "copy file "@ + failure.place + " error: "@ + failure.cause,
                        ),
                    ),
                )
            },
            _ => true,
        },
{
}

/// An outcome of an operation that a copy has not asked for changes nothing, and a copy that has
/// ended has no operation to ask for.
pub proof fn law_copy_takes_what_it_asked_for<P, N, E>(
    copy: TreeView<P, N, E>,
    event: TreeEventView<N, E>,
)
    ensures
        match (copy.action(), event) {
            (Some(TreeActionView::MakeDir { .. }), TreeEventView::Made(_)) => copy.after(event)
                != copy,
            (Some(TreeActionView::OpenDir { .. }), TreeEventView::Opened(_)) => copy.after(event)
                != copy,
            (Some(TreeActionView::NextEntry), TreeEventView::Entry(_)) => copy.after(event) != copy,
            (Some(TreeActionView::Probe { .. }), TreeEventView::Probed(_)) => copy.after(event)
                != copy,
            (Some(TreeActionView::CopyFile { .. }), TreeEventView::Copied(_)) => copy.after(event)
                != copy,
            _ => copy.after(event) == copy,
        },
        copy is Done <==> copy.action() is None,
{
    if let TreeView::Pending { path, .. } = copy {
        assert(path.len() > 0 ==> path.drop_last().len() != path.len());
        if let TreeEventView::Entry(Ok(Some(entry))) = event {
            assert(path.push(entry.name).len() != path.len());
        }
    }
}

} // verus!
