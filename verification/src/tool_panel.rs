//! Decisions of the Docker tool panel: how it is laid out, which replies it
//! accepts, and how it numbers its requests.
use vstd::prelude::*;

use crate::text::{chars_of, contains_seq, contains_exec, str_eq};

verus! {

/// How an open panel is shown when there is room for it.
#[derive(Clone, Copy, Debug, PartialEq, Eq, Structural)]
pub enum ToolPanelPresentation {
    /// Beside the terminal, widening the window.
    Extended,
    /// Over the terminal.
    Overlay,
}

impl Default for ToolPanelPresentation {
    /// Over the terminal.
    fn default() -> (r: Self)
        ensures
            r == ToolPanelPresentation::Overlay,
    {
        ToolPanelPresentation::Overlay
    }
}

/// The single way the panel is drawn.
#[derive(Clone, Copy, Debug, PartialEq, Eq, Structural)]
pub enum ToolPanelLayout {
    Closed,
    Extended,
    Overlay,
}

/// A closed panel is not drawn; an open one is drawn as presented.
pub fn tool_panel_layout(open: bool, presentation: ToolPanelPresentation) -> (r: ToolPanelLayout)
    ensures
        r == if !open {
            ToolPanelLayout::Closed
        } else {
            match presentation {
                ToolPanelPresentation::Extended => ToolPanelLayout::Extended,
                ToolPanelPresentation::Overlay => ToolPanelLayout::Overlay,
            }
        },
{
    if !open {
        ToolPanelLayout::Closed
    } else {
        match presentation {
            ToolPanelPresentation::Extended => ToolPanelLayout::Extended,
            ToolPanelPresentation::Overlay => ToolPanelLayout::Overlay,
        }
    }
}

/// What can be done to a container.
#[derive(Clone, Copy, Debug, PartialEq, Eq, Structural)]
pub enum DockerAction {
    Start,
    Stop,
    Restart,
    Remove,
    ForceRemove,
    EnableAutostart,
    DisableAutostart,
}

/// A request the panel sends to the remote Docker helper.
#[derive(Clone, Debug)]
pub enum DockerOperation {
    ListContainers,
    ListImages,
    ContainerAction { action: DockerAction, container_id: String },
}

/// The page of the panel.
#[derive(Clone, Copy, Debug, PartialEq, Eq, Structural)]
pub enum DockerPage {
    Containers,
    Images,
}

/// The page that a completed operation refreshed.
pub fn completed_page(operation: &DockerOperation) -> (r: DockerPage)
    ensures
        r == match operation {
            DockerOperation::ListImages => DockerPage::Images,
            _ => DockerPage::Containers,
        },
{
    match operation {
        DockerOperation::ListContainers => DockerPage::Containers,
        DockerOperation::ContainerAction { .. } => DockerPage::Containers,
        DockerOperation::ListImages => DockerPage::Images,
    }
}

/// The request that loads a page.
pub fn page_operation(page: DockerPage) -> (r: DockerOperation)
    ensures
        match page {
            DockerPage::Containers => r is ListContainers,
            DockerPage::Images => r is ListImages,
        },
{
    match page {
        DockerPage::Containers => DockerOperation::ListContainers,
        DockerPage::Images => DockerOperation::ListImages,
    }
}

/// The request awaiting its reply: its number and the tab it went to.
#[derive(Clone, Debug)]
pub struct PendingDockerRequest {
    pub id: u64,
    pub tab_id: String,
    pub operation: DockerOperation,
}

/// A reply is taken only when it answers the pending request, by number and
/// tab, and that tab is still the panel's target.
pub open spec fn reply_matches(
    pending: Option<(u64, Seq<char>)>,
    target_tab_id: Option<Seq<char>>,
    response_tab_id: Seq<char>,
    response_id: u64,
) -> bool {
    match pending {
        Some((id, tab)) => id == response_id && tab == response_tab_id && target_tab_id == Some(
            response_tab_id,
        ),
        None => false,
    }
}

/// The pending request by number and tab.
pub open spec fn pending_view(p: Option<&PendingDockerRequest>) -> Option<(u64, Seq<char>)> {
    match p {
        Some(r) => Some((r.id, r.tab_id@)),
        None => None,
    }
}

/// An optional tab id by value.
pub open spec fn opt_str(o: Option<&str>) -> Option<Seq<char>> {
    match o {
        Some(s) => Some(s@),
        None => None,
    }
}

/// Whether a reply answers the pending request of the current target.
pub fn docker_response_matches(
    pending: Option<&PendingDockerRequest>,
    target_tab_id: Option<&str>,
    response_tab_id: &str,
    response_id: u64,
) -> (r: bool)
    ensures
        r == reply_matches(
            pending_view(pending),
            opt_str(target_tab_id),
            response_tab_id@,
            response_id,
        ),
{
    match pending {
        Some(p) => {
            let target_ok = match target_tab_id {
                Some(t) => str_eq(t, response_tab_id),
                None => false,
            };
            p.id == response_id && str_eq(p.tab_id.as_str(), response_tab_id) && target_ok
        },
        None => false,
    }
}

/// The number of the request after the one numbered `id`: one more,
/// skipping 0 when the count wraps.
pub fn following_request_id(id: u64) -> (r: u64)
    ensures
        r == if id == u64::MAX {
            1
        } else {
            id + 1
        },
        r >= 1,
{
    if id == u64::MAX {
        1
    } else {
        id + 1
    }
}

/// Why a Docker command failed, as far as the panel explains it.
#[derive(Clone, Copy, Debug, PartialEq, Eq, Structural)]
pub enum DockerErrorKind {
    CliNotFound,
    DaemonUnavailable,
    PermissionDenied,
    Other,
}

/// The lower-case ASCII letters in order.
pub open spec fn lower_alphabet() -> Seq<char> {
    "abcdefghijklmnopqrstuvwxyz"@
}

/// `c` made lower-case when it is an ASCII capital letter.
pub open spec fn ascii_lower_char(c: char) -> char {
    if 'A' <= c <= 'Z' {
        lower_alphabet()[c as int - 'A' as int]
    } else {
        c
    }
}

/// `s` with ASCII letters made lower-case.
pub open spec fn ascii_lowercase(s: Seq<char>) -> Seq<char> {
    s.map_values(|c: char| ascii_lower_char(c))
}

/// The phrases that tell that the `docker` command is missing.
pub open spec fn cli_missing_phrases() -> Seq<Seq<char>> {
    seq!["not found"@, "not recognized"@, "no such file"@]
}

/// The phrases that tell that the Docker daemon cannot be reached.
pub open spec fn daemon_phrases() -> Seq<Seq<char>> {
    seq!["cannot connect to the docker daemon"@, "docker daemon is not running"@, "docker_engine"@]
}

/// The phrases that tell that access was refused.
pub open spec fn permission_phrases() -> Seq<Seq<char>> {
    seq!["permission denied"@, "access is denied"@, "got permission denied"@]
}

/// `text` holds one of `phrases`.
pub open spec fn holds_any(text: Seq<char>, phrases: Seq<Seq<char>>) -> bool {
    exists|k: int| 0 <= k < phrases.len() && contains_seq(text, #[trigger] phrases[k])
}

/// The kind of a Docker error message, read case-insensitively: a missing
/// command first, then an unreachable daemon, then refused access.
pub open spec fn docker_error_kind(message: Seq<char>) -> DockerErrorKind {
    let m = ascii_lowercase(message);
    if holds_any(m, cli_missing_phrases()) {
        DockerErrorKind::CliNotFound
    } else if holds_any(m, daemon_phrases()) {
        DockerErrorKind::DaemonUnavailable
    } else if holds_any(m, permission_phrases()) {
        DockerErrorKind::PermissionDenied
    } else {
        DockerErrorKind::Other
    }
}

/// Whether `text` holds one of the three phrases.
fn holds_one_of(text: &Vec<char>, a: &str, b: &str, c: &str) -> (r: bool)
    ensures
        r == holds_any(text@, seq![a@, b@, c@]),
{
    let x = contains_exec(text, &chars_of(a));
    let y = contains_exec(text, &chars_of(b));
    let z = contains_exec(text, &chars_of(c));
    let ghost ps = seq![a@, b@, c@];
    proof {
        if x {
            assert(contains_seq(text@, ps[0]));
        } else if y {
            assert(contains_seq(text@, ps[1]));
        } else if z {
            assert(contains_seq(text@, ps[2]));
        } else {
            assert forall|k: int| 0 <= k < ps.len() implies !contains_seq(text@, #[trigger] ps[k]) by {
                if k == 0 {
                } else if k == 1 {
                } else {
                }
            }
        }
    }
    x || y || z
}

/// `s` with ASCII letters made lower-case.
pub fn ascii_lowercase_string(s: &str) -> (r: String)
    ensures
        r@ == ascii_lowercase(s@),
{
    let v = chars_of(s);
    let mut lower = String::new();
    let mut i: usize = 0;
    while i < v.len()
        invariant
            v@ == s@,
            i <= v@.len(),
            lower@ == ascii_lowercase(v@.take(i as int)),
        decreases v@.len() - i,
    {
        let c = v[i];
        let piece = if 'A' <= c && c <= 'Z' {
            proof {
                reveal_strlit("abcdefghijklmnopqrstuvwxyz");
            }
            let k = ((c as u32) - ('A' as u32)) as usize;
            "abcdefghijklmnopqrstuvwxyz".substring_char(k, k + 1)
        } else {
            s.substring_char(i, i + 1)
        };
        assert(piece@ =~= seq![ascii_lower_char(c)]);
        lower.append(piece);
        assert(ascii_lowercase(v@.take(i + 1)) =~= ascii_lowercase(v@.take(i as int)).push(
            ascii_lower_char(c),
        ));
        i = i + 1;
    }
    assert(v@.take(v@.len() as int) =~= v@);
    lower
}

/// Tells why a Docker command failed from its error message.
pub fn classify_docker_error(message: &str) -> (r: DockerErrorKind)
    ensures
        r == docker_error_kind(message@),
{
    let lower = chars_of(ascii_lowercase_string(message).as_str());
    if holds_one_of(&lower, "not found", "not recognized", "no such file") {
        DockerErrorKind::CliNotFound
    } else if holds_one_of(
        &lower,
        "cannot connect to the docker daemon",
        "docker daemon is not running",
        "docker_engine",
    ) {
        DockerErrorKind::DaemonUnavailable
    } else if holds_one_of(&lower, "permission denied", "access is denied", "got permission denied") {
        DockerErrorKind::PermissionDenied
    } else {
        DockerErrorKind::Other
    }
}

} // verus!
