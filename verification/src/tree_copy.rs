//! Copying what is missing of a directory and everything below it.
//!
//! The copy walks the source directory. A path is the sequence of names that leads from the top
//! directory to an entry; the entry stands below the source directory under the same names as below
//! the destination directory.
use vstd::prelude::*;

verus! {

/// What a copy waits for.
#[derive(Debug, Clone, Copy)]
pub enum TreeStep {
    /// The creation of a directory in the destination.
    MakeDir,
    /// The opening of a directory of the source.
    OpenDir,
    /// The next entry of the source directory that was opened last and is not at its end.
    NextEntry,
    /// Whether there is something in the destination.
    Probe,
    /// The copy of a file.
    CopyFile,
}

/// The failure of a copy.
#[derive(Debug)]
pub enum CopyError<E> {
    /// A failed file operation.
    Os(E),
    /// A failure that the copy describes in a text of its own.
    Other(String),
}

/// A copy of a directory. `P` is the place of a directory, `N` the name of an entry.
#[derive(Debug)]
pub enum TreeCopy<P, N, E> {
    /// The copy from `src` to `dst` waits for the outcome of an operation on what is found under
    /// `path`.
    Pending { src: P, dst: P, path: Vec<N>, step: TreeStep },
    /// The copy has ended.
    Done(Result<(), CopyError<E>>),
}

/// An entry of a source directory.
#[derive(Debug)]
pub struct TreeEntry<N> {
    pub name: N,
    pub is_dir: bool,
}

/// A failed operation: what it was applied to, and why it failed.
#[derive(Debug)]
pub struct Failure {
    pub place: String,
    pub cause: String,
}

/// The outcome of an operation that a copy waits for.
pub enum TreeEvent<N, E> {
    Made(Result<(), E>),
    Opened(Result<(), Failure>),
    Entry(Result<Option<TreeEntry<N>>, E>),
    Probed(bool),
    Copied(Result<(), Failure>),
}

/// The operation that a copy waits for.
pub enum TreeAction<'a, P, N> {
    /// Create the directory under the path `path` below `top`, and those above it.
    MakeDir { top: &'a P, path: &'a Vec<N> },
    /// Open the directory under the path `path` below `top`.
    OpenDir { top: &'a P, path: &'a Vec<N> },
    /// Read the next entry of the directory that was opened last and is not at its end.
    NextEntry,
    /// Tell whether there is something under the path `path` below `top`.
    Probe { top: &'a P, path: &'a Vec<N> },
    /// Copy the file under the path `path` below `from` to the same path below `to`.
    CopyFile { from: &'a P, to: &'a P, path: &'a Vec<N> },
}

/// What a [`CopyError`] says.
pub enum CopyErrorView<E> {
    Os(E),
    Other(Seq<char>),
}

/// What a [`TreeCopy`] says.
pub enum TreeView<P, N, E> {
    Pending { src: P, dst: P, path: Seq<N>, step: TreeStep },
    Done(Result<(), CopyErrorView<E>>),
}

/// What a [`Failure`] says.
pub struct FailureView {
    pub place: Seq<char>,
    pub cause: Seq<char>,
}

/// What a [`TreeEvent`] says.
pub enum TreeEventView<N, E> {
    Made(Result<(), E>),
    Opened(Result<(), FailureView>),
    Entry(Result<Option<TreeEntry<N>>, E>),
    Probed(bool),
    Copied(Result<(), FailureView>),
}

/// What a [`TreeAction`] says.
pub enum TreeActionView<P, N> {
    MakeDir { top: P, path: Seq<N> },
    OpenDir { top: P, path: Seq<N> },
    NextEntry,
    Probe { top: P, path: Seq<N> },
    CopyFile { from: P, to: P, path: Seq<N> },
}

impl View for Failure {
    type V = FailureView;

    open spec fn view(&self) -> FailureView {
        FailureView { place: self.place@, cause: self.cause@ }
    }
}

/// What the outcome of an operation says whose failure is described in texts.
pub open spec fn described(result: Result<(), Failure>) -> Result<(), FailureView> {
    match result {
        Ok(u) => Ok(u),
        Err(failure) => Err(failure@),
    }
}

/// What the outcome of a copy says.
pub open spec fn copy_outcome<E>(result: Result<(), CopyError<E>>) -> Result<
    (),
    CopyErrorView<E>,
> {
    match result {
        Ok(u) => Ok(u),
        Err(CopyError::Os(e)) => Err(CopyErrorView::Os(e)),
        Err(CopyError::Other(text)) => Err(CopyErrorView::Other(text@)),
    }
}

impl<P, N, E> View for TreeCopy<P, N, E> {
    type V = TreeView<P, N, E>;

    open spec fn view(&self) -> TreeView<P, N, E> {
        match self {
            TreeCopy::Pending { src, dst, path, step } => TreeView::Pending {
                src: *src,
                dst: *dst,
                path: path@,
                step: *step,
            },
            TreeCopy::Done(result) => TreeView::Done(copy_outcome(*result)),
        }
    }
}

impl<N, E> View for TreeEvent<N, E> {
    type V = TreeEventView<N, E>;

    open spec fn view(&self) -> TreeEventView<N, E> {
        match self {
            TreeEvent::Made(result) => TreeEventView::Made(*result),
            TreeEvent::Opened(result) => TreeEventView::Opened(described(*result)),
            TreeEvent::Entry(result) => TreeEventView::Entry(*result),
            TreeEvent::Probed(found) => TreeEventView::Probed(*found),
            TreeEvent::Copied(result) => TreeEventView::Copied(described(*result)),
        }
    }
}

impl<'a, P, N> View for TreeAction<'a, P, N> {
    type V = TreeActionView<P, N>;

    open spec fn view(&self) -> TreeActionView<P, N> {
        match self {
            TreeAction::MakeDir { top, path } => TreeActionView::MakeDir {
                top: **top,
                path: path@,
            },
            TreeAction::OpenDir { top, path } => TreeActionView::OpenDir {
                top: **top,
                path: path@,
            },
            TreeAction::NextEntry => TreeActionView::NextEntry,
            TreeAction::Probe { top, path } => TreeActionView::Probe { top: **top, path: path@ },
            TreeAction::CopyFile { from, to, path } => TreeActionView::CopyFile {
                from: **from,
                to: **to,
                path: path@,
            },
        }
    }
}

/// The text of the failure to open a directory.
pub open spec fn open_failed_text(failure: FailureView) -> Seq<char> {
    "failed to open "@ + failure.place + ", error: "@ + failure.cause
}

/// The text of the failure to copy a file.
pub open spec fn copy_failed_text(failure: FailureView) -> Seq<char> {
    "copy file "@ + failure.place + " error: "@ + failure.cause
}

impl<P, N, E> TreeView<P, N, E> {
    /// A copy from `src` to `dst` that has not begun: the first thing that it waits for is the
    /// creation of `dst` itself.
    pub open spec fn begin(src: P, dst: P) -> TreeView<P, N, E> {
        TreeView::Pending { src, dst, path: Seq::empty(), step: TreeStep::MakeDir }
    }

    /// A copy that ends with the failure of a file operation.
    pub open spec fn os(e: E) -> TreeView<P, N, E> {
        TreeView::Done(Err(CopyErrorView::Os(e)))
    }

    /// A copy that ends with a failure described in a text.
    pub open spec fn other(text: Seq<char>) -> TreeView<P, N, E> {
        TreeView::Done(Err(CopyErrorView::Other(text)))
    }

    /// The copy once all of the directory under `path` is copied: the walk goes on above it.
    pub open spec fn leave(src: P, dst: P, path: Seq<N>) -> TreeView<P, N, E> {
        if path.len() == 0 {
            TreeView::Done(Ok(()))
        } else {
            TreeView::Pending { src, dst, path: path.drop_last(), step: TreeStep::NextEntry }
        }
    }

    /// What holds of every copy: a file stands below the top directory.
    pub open spec fn wf(self) -> bool {
        match self {
            TreeView::Pending { path, step, .. } => (step is Probe || step is CopyFile)
                ==> path.len() > 0,
            TreeView::Done(_) => true,
        }
    }

    /// The operation that the copy waits for.
    pub open spec fn action(self) -> Option<TreeActionView<P, N>> {
        match self {
            TreeView::Pending { src, dst, path, step } => Some(
                match step {
                    TreeStep::MakeDir => TreeActionView::MakeDir { top: dst, path },
                    TreeStep::OpenDir => TreeActionView::OpenDir { top: src, path },
                    TreeStep::NextEntry => TreeActionView::NextEntry,
                    TreeStep::Probe => TreeActionView::Probe { top: dst, path },
                    TreeStep::CopyFile => TreeActionView::CopyFile { from: src, to: dst, path },
                },
            ),
            TreeView::Done(_) => None,
        }
    }

    /// What the copy becomes when `event` comes. An event that it does not wait for changes
    /// nothing.
    pub open spec fn after(self, event: TreeEventView<N, E>) -> TreeView<P, N, E> {
        match self {
            TreeView::Done(_) => self,
            TreeView::Pending { src, dst, path, step } => match (step, event) {
                (TreeStep::MakeDir, TreeEventView::Made(result)) => match result {
                    Ok(_) => TreeView::Pending { src, dst, path, step: TreeStep::OpenDir },
                    Err(e) => TreeView::os(e),
                },
                (TreeStep::OpenDir, TreeEventView::Opened(result)) => match result {
                    Ok(_) => TreeView::Pending { src, dst, path, step: TreeStep::NextEntry },
                    Err(failure) => TreeView::other(open_failed_text(failure)),
                },
                (TreeStep::NextEntry, TreeEventView::Entry(result)) => match result {
                    Ok(None) => TreeView::leave(src, dst, path),
                    Ok(Some(entry)) => TreeView::Pending {
                        src,
                        dst,
                        path: path.push(entry.name),
                        step: if entry.is_dir {
                            TreeStep::MakeDir
                        } else {
                            TreeStep::Probe
                        },
                    },
                    Err(e) => TreeView::os(e),
                },
                (TreeStep::Probe, TreeEventView::Probed(found)) => {
                    if found {
                        TreeView::leave(src, dst, path)
                    } else {
                        TreeView::Pending { src, dst, path, step: TreeStep::CopyFile }
                    }
                },
                (TreeStep::CopyFile, TreeEventView::Copied(result)) => match result {
                    Ok(_) => TreeView::leave(src, dst, path),
                    Err(failure) => TreeView::other(copy_failed_text(failure)),
                },
                _ => self,
            },
        }
    }
}

/// Begins to copy what is missing of the directory `src` to the directory `dst`.
pub fn copy_dir_all<P, N, E>(src: P, dst: P) -> (copy: TreeCopy<P, N, E>)
    ensures
        copy@ == TreeView::<P, N, E>::begin(src, dst),
        copy@.wf(),
        copy@.action() == Some(
            TreeActionView::<P, N>::MakeDir { top: dst, path: Seq::empty() },
        ),
{
    TreeCopy::Pending { src, dst, path: Vec::new(), step: TreeStep::MakeDir }
}

impl<P, N, E> TreeCopy<P, N, E> {
    /// The operation that the copy waits for, or nothing once it has ended.
    pub fn action(&self) -> (action: Option<TreeAction<'_, P, N>>)
        ensures
            match action {
                Some(a) => self@.action() == Some(a@),
                None => self@.action() is None,
            },
            match (self, action) {
                (TreeCopy::Done(_), None) => true,
                (TreeCopy::Pending { src, dst, path, step: _ }, Some(a)) => match a {
                    TreeAction::MakeDir { top, path: names } => *top == *dst && *names == *path,
                    TreeAction::OpenDir { top, path: names } => *top == *src && *names == *path,
                    TreeAction::NextEntry => true,
                    TreeAction::Probe { top, path: names } => *top == *dst && *names == *path,
                    TreeAction::CopyFile { from, to, path: names } => *from == *src && *to == *dst
                        && *names == *path,
                },
                _ => false,
            },
    {
        match self {
            TreeCopy::Pending { src, dst, path, step } => Some(
                match step {
                    TreeStep::MakeDir => TreeAction::MakeDir { top: dst, path },
                    TreeStep::OpenDir => TreeAction::OpenDir { top: src, path },
                    TreeStep::NextEntry => TreeAction::NextEntry,
                    TreeStep::Probe => TreeAction::Probe { top: dst, path },
                    TreeStep::CopyFile => TreeAction::CopyFile { from: src, to: dst, path },
                },
            ),
            TreeCopy::Done(_) => None,
        }
    }

    /// The copy once all that stands under `path` is copied.
    fn leave(src: P, dst: P, path: Vec<N>) -> (copy: TreeCopy<P, N, E>)
        ensures
            copy@ == TreeView::<P, N, E>::leave(src, dst, path@),
            copy@.wf(),
    {
        let mut path = path;
        if path.len() == 0 {
            TreeCopy::Done(Ok(()))
        } else {
            let _ = path.pop();
            TreeCopy::Pending { src, dst, path, step: TreeStep::NextEntry }
        }
    }

    /// Hands the copy the outcome of an operation.
    pub fn step(self, event: TreeEvent<N, E>) -> (next: TreeCopy<P, N, E>)
        requires
            self@.wf(),
        ensures
            next@ == self@.after(event@),
            next@.wf(),
            match (self, event) {
                (
                    TreeCopy::Pending { src, dst, path, step: TreeStep::MakeDir },
                    TreeEvent::Made(result),
                ) => next == match result {
                    Ok(_) => TreeCopy::<P, N, E>::Pending {
                        src,
                        dst,
                        path,
                        step: TreeStep::OpenDir,
                    },
                    Err(e) => TreeCopy::Done(Err(CopyError::Os(e))),
                },
                (
                    TreeCopy::Pending { src, dst, path, step: TreeStep::OpenDir },
                    TreeEvent::Opened(result),
                ) => match result {
                    Ok(_) => next == (TreeCopy::<P, N, E>::Pending {
                        src,
                        dst,
                        path,
                        step: TreeStep::NextEntry,
                    }),
                    Err(failure) => next matches TreeCopy::Done(Err(CopyError::Other(text)))
                        && text@ == "failed to open "@ + failure.place@ + ", error: "@
                        + failure.cause@,
                },
                (
                    TreeCopy::Pending { src, dst, path, step: TreeStep::NextEntry },
                    TreeEvent::Entry(Ok(Some(entry))),
                ) => next@ == (TreeView::<P, N, E>::Pending {
                    src,
                    dst,
                    path: path@.push(entry.name),
                    step: if entry.is_dir {
                        TreeStep::MakeDir
                    } else {
                        TreeStep::Probe
                    },
                }),
                (
                    TreeCopy::Pending { step: TreeStep::NextEntry, .. },
                    TreeEvent::Entry(Err(e)),
                ) => next == TreeCopy::<P, N, E>::Done(Err(CopyError::Os(e))),
                (
                    TreeCopy::Pending { src, dst, path, step: TreeStep::Probe },
                    TreeEvent::Probed(false),
                ) => next == (TreeCopy::<P, N, E>::Pending {
                    src,
                    dst,
                    path,
                    step: TreeStep::CopyFile,
                }),
                (
                    TreeCopy::Pending { step: TreeStep::CopyFile, .. },
                    TreeEvent::Copied(Err(failure)),
                ) => next matches TreeCopy::Done(Err(CopyError::Other(text))) && text@
                    == "copy file "@ + failure.place@ + " error: "@ + failure.cause@,
                (
                    TreeCopy::Pending { path, step: TreeStep::NextEntry, .. },
                    TreeEvent::Entry(Ok(None)),
                ) if path@.len() == 0 => next == TreeCopy::<P, N, E>::Done(Ok(())),
                (
                    TreeCopy::Pending { src, dst, path, step: TreeStep::NextEntry },
                    TreeEvent::Entry(Ok(None)),
                )
                | (
                    TreeCopy::Pending { src, dst, path, step: TreeStep::Probe },
                    TreeEvent::Probed(true),
                )
                | (
                    TreeCopy::Pending { src, dst, path, step: TreeStep::CopyFile },
                    TreeEvent::Copied(Ok(_)),
                ) => next@ == (TreeView::<P, N, E>::Pending {
                    src,
                    dst,
                    path: path@.drop_last(),
                    step: TreeStep::NextEntry,
                }),
                _ => next == self,
            },
    {
        match self {
            TreeCopy::Done(result) => TreeCopy::Done(result),
            TreeCopy::Pending { src, dst, path, step } => match (step, event) {
                (TreeStep::MakeDir, TreeEvent::Made(result)) => match result {
                    Ok(_) => TreeCopy::Pending { src, dst, path, step: TreeStep::OpenDir },
                    Err(e) => TreeCopy::Done(Err(CopyError::Os(e))),
                },
                (TreeStep::OpenDir, TreeEvent::Opened(result)) => match result {
                    Ok(_) => TreeCopy::Pending { src, dst, path, step: TreeStep::NextEntry },
                    Err(failure) => {
                        let text = "failed to open ".to_owned().concat(
                            failure.place.as_str(),
                        ).concat(", error: ").concat(failure.cause.as_str());
                        TreeCopy::Done(Err(CopyError::Other(text)))
                    },
                },
                (TreeStep::NextEntry, TreeEvent::Entry(result)) => match result {
                    Ok(None) => TreeCopy::leave(src, dst, path),
                    Ok(Some(entry)) => {
                        let mut path = path;
                        path.push(entry.name);
                        if entry.is_dir {
                            TreeCopy::Pending { src, dst, path, step: TreeStep::MakeDir }
                        } else {
                            TreeCopy::Pending { src, dst, path, step: TreeStep::Probe }
                        }
                    },
                    Err(e) => TreeCopy::Done(Err(CopyError::Os(e))),
                },
                (TreeStep::Probe, TreeEvent::Probed(found)) => {
                    if found {
                        TreeCopy::leave(src, dst, path)
                    } else {
                        TreeCopy::Pending { src, dst, path, step: TreeStep::CopyFile }
                    }
                },
                (TreeStep::CopyFile, TreeEvent::Copied(result)) => match result {
                    Ok(_) => TreeCopy::leave(src, dst, path),
                    Err(failure) => {
                        let text = "copy file ".to_owned().concat(failure.place.as_str()).concat(
                            " error: ",
                        ).concat(failure.cause.as_str());
                        TreeCopy::Done(Err(CopyError::Other(text)))
                    },
                },
                (step, _) => TreeCopy::Pending { src, dst, path, step },
            },
        }
    }
}

} // verus!
