//! The Docker tool panel: which terminal it talks to, which page it shows,
//! and the one request it may have in flight.
use vstd::prelude::*;

use crate::tool_panel::{
    completed_page, docker_response_matches, following_request_id, opt_str, page_operation,
    pending_view, reply_matches, DockerOperation, DockerPage, PendingDockerRequest,
    ToolPanelPresentation,
};
use crate::shell::opt_view;
use crate::text::str_eq;

verus! {

/// Which containers the panel lists.
#[derive(Clone, Copy, Debug, PartialEq, Eq, Structural)]
pub enum DockerContainerFilter {
    All,
    Running,
    Stopped,
}

/// What went wrong, as the panel shows it.
#[derive(Clone, Debug)]
pub enum DockerPanelError {
    /// The target terminal could not take the request.
    Unavailable,
    /// The request failed with this message.
    Failed(String),
}

/// What a reply to a Docker request carried.
#[derive(Clone, Debug)]
pub enum DockerReply {
    Containers,
    Images,
    ActionCompleted,
    Failed(String),
}

/// What the panel does with a reply.
#[derive(Clone, Copy, Debug, PartialEq, Eq, Structural)]
pub enum ReplyOutcome {
    /// The reply answers no pending request of the target: it is dropped.
    Ignored,
    /// The reply was taken; `refresh` tells whether the page shown is to be
    /// requested now.
    Taken { refresh: bool },
}

/// The terminal the panel talks to, as the window describes it.
#[derive(Clone, Debug)]
pub struct DockerTarget {
    pub tab_id: String,
    pub generation: u64,
    pub connected: bool,
    pub label: String,
    pub detail: String,
}

/// The state of the Docker tool panel.
#[derive(Debug)]
pub struct DockerPanelState {
    pub open: bool,
    pub presentation: ToolPanelPresentation,
    pub page: DockerPage,
    pub container_filter: DockerContainerFilter,
    pub target_tab_id: Option<String>,
    pub target_generation: Option<u64>,
    pub target_label: String,
    pub target_detail: String,
    pub target_connected: bool,
    pub error: Option<DockerPanelError>,
    pub pending: Option<PendingDockerRequest>,
    pub next_request_id: u64,
}

/// The panel `d` with no target.
pub open spec fn untargeted(d: DockerPanelState) -> bool {
    &&& d.target_tab_id is None
    &&& d.target_generation is None
    &&& d.target_label@.len() == 0
    &&& d.target_detail@.len() == 0
    &&& !d.target_connected
}

/// Panel `d` already describes target `t` (or no target).
pub open spec fn describes(d: DockerPanelState, t: Option<DockerTarget>) -> bool {
    match t {
        Some(x) => {
            &&& opt_view(d.target_tab_id) == Some(x.tab_id@)
            &&& d.target_generation == Some(x.generation)
            &&& d.target_label@ == x.label@
            &&& d.target_detail@ == x.detail@
            &&& d.target_connected == x.connected
        },
        None => {
            &&& d.target_tab_id is None
            &&& d.target_generation is None
            &&& d.target_label@.len() == 0
            &&& d.target_detail@.len() == 0
            &&& !d.target_connected
        },
    }
}

impl DockerPanelState {
    /// A closed panel showing the containers page, all of them, with no
    /// target; the first request will be numbered 1.
    pub fn new() -> (r: Self)
        ensures
            !r.open,
            r.presentation == ToolPanelPresentation::Overlay,
            r.page == DockerPage::Containers,
            r.container_filter == DockerContainerFilter::All,
            untargeted(r),
            r.error is None,
            r.pending is None,
            r.next_request_id == 1,
    {
        DockerPanelState {
            open: false,
            presentation: ToolPanelPresentation::Overlay,
            page: DockerPage::Containers,
            container_filter: DockerContainerFilter::All,
            target_tab_id: None,
            target_generation: None,
            target_label: String::new(),
            target_detail: String::new(),
            target_connected: false,
            error: None,
            pending: None,
            next_request_id: 1,
        }
    }

    /// Hands out the next request number; the count skips 0 when it wraps.
    pub fn take_request_id(&mut self) -> (r: u64)
        ensures
            r == old(self).next_request_id,
            final(self).next_request_id == if r == u64::MAX {
                1
            } else {
                r + 1
            },
            *final(self) == (DockerPanelState {
                next_request_id: final(self).next_request_id,
                ..*old(self)
            }),
    {
        let id = self.next_request_id;
        self.next_request_id = following_request_id(id);
        id
    }

    /// Closes the panel: no target, request or error stays.
    pub fn close(&mut self)
        ensures
            !final(self).open,
            untargeted(*final(self)),
            final(self).pending is None,
            final(self).error is None,
            final(self).presentation == old(self).presentation,
            final(self).page == old(self).page,
            final(self).container_filter == old(self).container_filter,
            final(self).next_request_id == old(self).next_request_id,
    {
        self.open = false;
        self.pending = None;
        self.target_tab_id = None;
        self.target_generation = None;
        self.target_label = String::new();
        self.target_detail = String::new();
        self.target_connected = false;
        self.error = None;
    }

    /// Shows page `page`; returns whether it changed (its content is then
    /// to be requested). The error is cleared on a change.
    pub fn set_page(&mut self, page: DockerPage) -> (changed: bool)
        ensures
            changed == (old(self).page != page),
            changed ==> *final(self) == (DockerPanelState { page, error: None, ..*old(self) }),
            !changed ==> *final(self) == *old(self),
    {
        if self.page == page {
            return false;
        }
        self.page = page;
        self.error = None;
        true
    }

    /// Shows the containers that `filter` selects; returns whether it
    /// changed.
    pub fn set_container_filter(&mut self, filter: DockerContainerFilter) -> (changed: bool)
        ensures
            changed == (old(self).container_filter != filter),
            *final(self) == (DockerPanelState { container_filter: filter, ..*old(self) }),
    {
        let changed = self.container_filter != filter;
        self.container_filter = filter;
        changed
    }

    /// The request that loads the page shown.
    pub fn current_page_operation(&self) -> (r: DockerOperation)
        ensures
            match self.page {
                DockerPage::Containers => r is ListContainers,
                DockerPage::Images => r is ListImages,
            },
    {
        page_operation(self.page)
    }

    /// Starts a request to the target: its tab and the request's number;
    /// `None`, changing nothing, while another request is pending or when
    /// there is no target.
    pub fn prepare_request(&mut self) -> (r: Option<(String, u64)>)
        ensures
            old(self).pending is Some || old(self).target_tab_id is None ==> r is None && *final(self) == *old(self),
            old(self).pending is None && old(self).target_tab_id is Some ==> (r matches Some((t, id))
                && Some(t) == old(self).target_tab_id && id == old(self).next_request_id
                && *final(self) == (DockerPanelState {
                next_request_id: following_request_id_spec(id),
                ..*old(self)
            })),
    {
        if self.pending.is_some() {
            return None;
        }
        let tab = match &self.target_tab_id {
            Some(t) => t.clone(),
            None => {
                return None;
            },
        };
        let id = self.take_request_id();
        Some((tab, id))
    }

    /// Records the outcome of sending request `id` for `operation` to tab
    /// `tab_id`: when it was `delivered` it becomes the pending request and
    /// the error clears; otherwise the target is unavailable.
    pub fn record_request(&mut self, id: u64, tab_id: String, operation: DockerOperation, delivered: bool)
        ensures
            delivered ==> final(self).pending == Some(
                PendingDockerRequest { id, tab_id, operation },
            ) && final(self).error is None,
            !delivered ==> final(self).pending == old(self).pending && (final(self).error matches Some(
                DockerPanelError::Unavailable,
            )),
            *final(self) == (DockerPanelState {
                pending: final(self).pending,
                error: final(self).error,
                ..*old(self)
            }),
    {
        if delivered {
            self.error = None;
            self.pending = Some(PendingDockerRequest { id, tab_id, operation });
        } else {
            self.error = Some(DockerPanelError::Unavailable);
        }
    }

    /// Takes reply `reply` to request `request_id` from tab `tab_id`. A reply
    /// that does not answer the pending request of the target is ignored.
    /// Otherwise the request is no longer pending: lists clear the error, a
    /// completed action clears it and returns to the containers page, a
    /// failure shows its message; the page shown is then to be requested
    /// after an action, or when it is not the page the request loaded.
    pub fn handle_response(&mut self, tab_id: &str, request_id: u64, reply: DockerReply) -> (r: ReplyOutcome)
        ensures
            !reply_matches(
                pending_of(old(self).pending),
                opt_view(old(self).target_tab_id),
                tab_id@,
                request_id,
            ) ==> r == ReplyOutcome::Ignored && *final(self) == *old(self),
            reply_matches(
                pending_of(old(self).pending),
                opt_view(old(self).target_tab_id),
                tab_id@,
                request_id,
            ) ==> {
                let op = old(self).pending->0.operation;
                let page = match reply {
                    DockerReply::ActionCompleted => DockerPage::Containers,
                    _ => old(self).page,
                };
                &&& final(self).pending is None
                &&& final(self).page == page
                &&& match reply {
                    DockerReply::Failed(m) => final(self).error == Some(DockerPanelError::Failed(m)),
                    _ => final(self).error is None,
                }
                &&& r == ReplyOutcome::Taken {
                    refresh: reply is ActionCompleted || page != match op {
                        DockerOperation::ListImages => DockerPage::Images,
                        _ => DockerPage::Containers,
                    },
                }
                &&& *final(self) == (DockerPanelState {
                    pending: None,
                    page: final(self).page,
                    error: final(self).error,
                    ..*old(self)
                })
            },
    {
        let target = match &self.target_tab_id {
            Some(t) => Some(t.as_str()),
            None => None,
        };
        assert(opt_str(target) == opt_view(self.target_tab_id));
        let pref = self.pending.as_ref();
        assert(pending_view(pref) == pending_of(self.pending));
        if !docker_response_matches(pref, target, tab_id, request_id) {
            return ReplyOutcome::Ignored;
        }
        let pending = match self.pending.take() {
            Some(p) => p,
            None => {
                return ReplyOutcome::Ignored;
            },
        };
        let mut refresh = false;
        match reply {
            DockerReply::Containers => {
                self.error = None;
            },
            DockerReply::Images => {
                self.error = None;
            },
            DockerReply::ActionCompleted => {
                self.error = None;
                self.page = DockerPage::Containers;
                refresh = true;
            },
            DockerReply::Failed(message) => {
                self.error = Some(DockerPanelError::Failed(message));
            },
        }
        if self.page != completed_page(&pending.operation) {
            refresh = true;
        }
        ReplyOutcome::Taken { refresh }
    }

    /// Follows the terminal the window shows (`None` on the home page or
    /// without a terminal): when it differs from the one described, the
    /// pending request and error are dropped and the panel describes the new
    /// target. Returns whether its page is to be requested now: when it
    /// changed to a connected terminal. Nothing happens while the panel is
    /// closed.
    pub fn sync_target(&mut self, target: Option<DockerTarget>) -> (refresh: bool)
        ensures
            !old(self).open || describes(*old(self), target) ==> !refresh && *final(self) == *old(self),
            old(self).open && !describes(*old(self), target) ==> {
                &&& describes(*final(self), target)
                &&& final(self).pending is None
                &&& final(self).error is None
                &&& refresh == (target is Some && target->0.connected)
                &&& final(self).open == old(self).open
                &&& final(self).presentation == old(self).presentation
                &&& final(self).page == old(self).page
                &&& final(self).container_filter == old(self).container_filter
                &&& final(self).next_request_id == old(self).next_request_id
            },
    {
        if !self.open {
            return false;
        }
        let same = match &target {
            Some(t) => {
                let same_tab = match &self.target_tab_id {
                    Some(x) => str_eq(x.as_str(), t.tab_id.as_str()),
                    None => false,
                };
                let same_generation = match self.target_generation {
                    Some(g) => g == t.generation,
                    None => false,
                };
                same_tab && same_generation && str_eq(self.target_label.as_str(), t.label.as_str())
                    && str_eq(self.target_detail.as_str(), t.detail.as_str())
                    && self.target_connected == t.connected
            },
            None => self.target_tab_id.is_none() && self.target_generation.is_none()
                && self.target_label.as_str().unicode_len() == 0
                && self.target_detail.as_str().unicode_len() == 0 && !self.target_connected,
        };
        if same {
            return false;
        }
        self.pending = None;
        self.error = None;
        match target {
            Some(t) => {
                self.target_tab_id = Some(t.tab_id);
                self.target_generation = Some(t.generation);
                self.target_label = t.label;
                self.target_detail = t.detail;
                self.target_connected = t.connected;
                t.connected
            },
            None => {
                self.target_tab_id = None;
                self.target_generation = None;
                self.target_label = String::new();
                self.target_detail = String::new();
                self.target_connected = false;
                false
            },
        }
    }
}

/// The pending request by number and tab.
pub open spec fn pending_of(p: Option<PendingDockerRequest>) -> Option<(u64, Seq<char>)> {
    match p {
        Some(r) => Some((r.id, r.tab_id@)),
        None => None,
    }
}

/// The number following request number `id`: one more, skipping 0 when the
/// count wraps.
pub open spec fn following_request_id_spec(id: u64) -> u64 {
    if id == u64::MAX {
        1
    } else {
        (id + 1) as u64
    }
}

} // verus!
