//! What the network service decides: the listing pushed to viewers, which
//! downloads are allowed, and how a viewer's session goes on.
use vstd::prelude::*;
use crate::entry::{FileEntry, paths_of};
use crate::share::ShareSet;

verus! {

/// The page that opens the live connection; it carries no listing of its own.
pub struct IndexTemplate;

/// One shared file as a viewer sees it.
pub struct FileInfo {
    pub name: String,
    pub path: String,
}

/// The listing pushed to a viewer.
pub struct FileListTemplate {
    pub file_arr: Vec<FileInfo>,
    /// The listing replaces the one on the viewer's page in place.
    pub is_hx_swap_oob: bool,
}

/// `infos` lists `entries`, one for one and in the same order.
pub open spec fn lists(infos: Seq<FileInfo>, entries: Seq<FileEntry>) -> bool {
    &&& infos.len() == entries.len()
    &&& forall|i: int|
        0 <= i < infos.len() ==> (#[trigger] infos[i]).name@ == entries[i].name@ && infos[i].path@
            == entries[i].path@
}

/// The shared files as viewers see them.
pub fn path_arr_2_file_arr(shares: &ShareSet) -> (r: Vec<FileInfo>)
    ensures
        lists(r@, shares.entries@),
{
    let mut r: Vec<FileInfo> = Vec::new();
    let mut k: usize = 0;
    while k < shares.entries.len()
        invariant
            k <= shares.entries@.len(),
            lists(r@, shares.entries@.subrange(0, k as int)),
        decreases shares.entries@.len() - k,
    {
        let e = &shares.entries[k];
        r.push(FileInfo { name: e.name.clone(), path: e.path.clone() });
        k = k + 1;
    }
    assert(shares.entries@.subrange(0, k as int) =~= shares.entries@);
    r
}

/// The whole listing that a viewer is sent: on connecting, and after each
/// change.
pub fn file_list(shares: &ShareSet) -> (r: FileListTemplate)
    ensures
        lists(r.file_arr@, shares.entries@),
        r.is_hx_swap_oob,
{
    FileListTemplate { file_arr: path_arr_2_file_arr(shares), is_hx_swap_oob: true }
}

/// Whether `path` may be downloaded: it is shared at the moment of asking.
pub fn download_allowed(shares: &ShareSet, path: &String) -> (r: bool)
    requires
        shares.wf(),
    ensures
        r == paths_of(shares.entries@).contains(path@),
        r ==> exists|i: int|
            0 <= i < shares.entries@.len() && (#[trigger] shares.entries@[i]).path@ == path@
                && !shares.entries@[i].is_dir,
{
    let r = shares.contains(path);
    proof {
        if r {
            let i = choose|i: int|
                0 <= i < paths_of(shares.entries@).len() && paths_of(shares.entries@)[i] == path@;
            assert(shares.entries@[i].path@ == path@);
        }
    }
    r
}

/// What happened to a viewer's connection.
#[derive(Clone, Copy, Debug, PartialEq, Eq, Structural)]
pub enum ViewerEvent {
    /// The viewer has just connected.
    Connected,
    /// The share list changed.
    Changed,
    /// The viewer fell behind and missed changes.
    Lagged,
    /// No more changes will come.
    BusClosed,
    /// The listing could not be rendered.
    RenderFailed,
    /// The viewer could not be sent to.
    SendFailed,
}

/// What to do for the viewer next.
#[derive(Clone, Copy, Debug, PartialEq, Eq, Structural)]
pub enum ViewerAction {
    /// Send the whole listing as it is now.
    PushListing,
    /// Send nothing this time and wait for the next change.
    Skip,
    /// End the session.
    Close,
}

/// The next step of a viewer's session. A viewer that connects, or hears of a
/// change, is sent the whole current listing; one that fell behind is sent it
/// too, in place of what it missed. A listing that could not be rendered is
/// skipped. The session ends when sending fails or no more changes can come.
pub fn viewer_step(event: ViewerEvent) -> (r: ViewerAction)
    ensures
        r == ViewerAction::PushListing <==> (event == ViewerEvent::Connected || event
            == ViewerEvent::Changed || event == ViewerEvent::Lagged),
        r == ViewerAction::Skip <==> event == ViewerEvent::RenderFailed,
        r == ViewerAction::Close <==> (event == ViewerEvent::BusClosed || event
            == ViewerEvent::SendFailed),
{
    match event {
        ViewerEvent::Connected => ViewerAction::PushListing,
        ViewerEvent::Changed => ViewerAction::PushListing,
        ViewerEvent::Lagged => ViewerAction::PushListing,
        ViewerEvent::RenderFailed => ViewerAction::Skip,
        ViewerEvent::BusClosed => ViewerAction::Close,
        ViewerEvent::SendFailed => ViewerAction::Close,
    }
}

} // verus!
