//! The decisions of the change watcher: which local changes go out to the
//! peers, and what the log records once they went.
use crate::index::{lemma_push_then_find, records, Index, KindModel, OperationKind, OperationModel};
use crate::net::{kind_of, Request, RequestView};
use vstd::prelude::*;

verus! {

/// Where the watcher looks and whom it tells.
#[derive(Debug, Clone)]
pub struct Config {
    pub sync_path: String,
    pub device_addrs: Vec<String>,
}

/// A filesystem event that the watcher cannot place under its root.
#[derive(Debug, Clone, Copy, PartialEq, Eq, Structural)]
pub enum EventError {
    /// No path relative to the sync root leads to the changed file.
    OutsideRoot,
}

/// The path from `base` to `path`, as `pathdiff::diff_paths` gives it.
pub uninterp spec fn relative_of(path: Seq<char>, base: Seq<char>) -> Option<Seq<char>>;

/// Relies on `pathdiff::diff_paths`: the relative path from `base` to
/// `path`, which depends on the two paths alone.
#[verifier::external_body]
fn diff_paths(path: &String, base: &String) -> (r: Option<String>)
    ensures
        r matches Some(s) ==> relative_of(path@, base@) == Some(s@),
        r is None ==> relative_of(path@, base@) is None,
{
    match pathdiff::diff_paths(path.as_str(), base.as_str()) {
        Some(p) => p.into_os_string().into_string().ok(),
        None => None,
    }
}

/// The operation that records a change made on this device.
pub open spec fn local_operation(r: RequestView) -> OperationModel {
    OperationModel { origin: Seq::empty(), kind: kind_of(r) }
}

/// The path of `path` below the sync root of `config`.
pub fn relative_path(config: &Config, path: &String) -> (r: Option<String>)
    ensures
        r matches Some(s) ==> relative_of(path@, config.sync_path@) == Some(s@),
        r is None ==> relative_of(path@, config.sync_path@) is None,
{
    diff_paths(path, &config.sync_path)
}

/// The request to send for a file at `relative_path` that now holds
/// `contents`; none when the log already has that very file content.
pub fn plan_create_or_write(index: &Index, relative_path: String, contents: String) -> (r: Option<
    Request,
>)
    ensures
        r is None <==> records(
            index@,
            KindModel::Create { path: relative_path@, contents: contents@ },
        ),
        r matches Some(q) ==> q@ == (RequestView::Put {
            path: relative_path@,
            contents: contents@,
        }),
{
    let kind = OperationKind::Create { path: relative_path.clone(), contents: contents.clone() };
    if index.find(kind).is_some() {
        None
    } else {
        Some(Request::put(relative_path, contents))
    }
}

/// The request to send for a file at `relative_path` that was removed;
/// none when the log already has that removal.
pub fn plan_remove(index: &Index, relative_path: String) -> (r: Option<Request>)
    ensures
        r is None <==> records(index@, KindModel::Remove { path: relative_path@ }),
        r matches Some(q) ==> q@ == (RequestView::Del { path: relative_path@ }),
{
    let kind = OperationKind::Remove { path: relative_path.clone() };
    if index.find(kind).is_some() {
        None
    } else {
        Some(Request::del(relative_path))
    }
}

/// Decides on a file at `path` that was created or written and now holds
/// `contents`: `Ok(Some(q))` is the request for every peer.
pub fn handle_create_or_write(index: &Index, config: &Config, path: &String, contents: String) -> (r:
    Result<Option<Request>, EventError>)
    ensures
        match relative_of(path@, config.sync_path@) {
            None => r == Err::<Option<Request>, EventError>(EventError::OutsideRoot),
            Some(rel) => r matches Ok(plan) && (plan is None <==> records(
                index@,
                KindModel::Create { path: rel, contents: contents@ },
            )) && (plan matches Some(q) ==> q@ == (RequestView::Put {
                path: rel,
                contents: contents@,
            })),
        },
{
    match relative_path(config, path) {
        Some(rel) => Ok(plan_create_or_write(index, rel, contents)),
        None => Err(EventError::OutsideRoot),
    }
}

/// Decides on a file at `path` that was removed: `Ok(Some(q))` is the
/// request for every peer.
pub fn handle_remove(index: &Index, config: &Config, path: &String) -> (r: Result<
    Option<Request>,
    EventError,
>)
    ensures
        match relative_of(path@, config.sync_path@) {
            None => r == Err::<Option<Request>, EventError>(EventError::OutsideRoot),
            Some(rel) => r matches Ok(plan) && (plan is None <==> records(
                index@,
                KindModel::Remove { path: rel },
            )) && (plan matches Some(q) ==> q@ == (RequestView::Del { path: rel })),
        },
{
    match relative_path(config, path) {
        Some(rel) => Ok(plan_remove(index, rel)),
        None => Err(EventError::OutsideRoot),
    }
}

/// Once a file content that came from a peer is recorded, the local write
/// of that same content is an echo: its lookup finds a match, so
/// [`plan_create_or_write`] sends nothing.
pub proof fn lemma_applied_put_is_echo(
    log: Seq<OperationModel>,
    origin: Seq<char>,
    path: Seq<char>,
    contents: Seq<char>,
)
    ensures
        records(
            log.push(
                OperationModel {
                    origin,
                    kind: kind_of(RequestView::Put { path, contents }),
                },
            ),
            KindModel::Create { path, contents },
        ),
{
    lemma_push_then_find(
        log,
        OperationModel { origin, kind: kind_of(RequestView::Put { path, contents }) },
        KindModel::Create { path, contents },
    );
}

/// Records a request that was sent to the peers as a change of this device.
pub fn record_sent(index: &mut Index, request: Request)
    ensures
        final(index)@ == old(index)@.push(local_operation(request@)),
{
    let op = request.into_operation(String::new());
    index.push(op);
}

} // verus!
