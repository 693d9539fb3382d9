//! The state of the SFTP editor window: its open files, which one is
//! active, and what saving and closing do.
use vstd::prelude::*;

use crate::seq_util::{first_index, lemma_first_index_found, lemma_first_index_none};
use crate::sftp_editor::{base_name, close_disposition, path_base_name, CloseDisposition};
use crate::text::{str_eq, string_eq};

verus! {

/// At most this many files are open in one editor window.
pub const MAX_TABS: usize = 20;

/// One open file: its remote path, whether it has unsaved edits, whether an
/// upload is running, and the text that upload sends.
#[derive(Debug)]
pub struct EditorTab {
    pub remote_path: String,
    pub dirty: bool,
    pub saving: bool,
    pub text_at_save_start: Option<String>,
}

/// An open file by value.
pub struct EditorTabView {
    pub path: Seq<char>,
    pub dirty: bool,
    pub saving: bool,
    pub saved_text: Option<Seq<char>>,
}

impl View for EditorTab {
    type V = EditorTabView;

    open spec fn view(&self) -> EditorTabView {
        EditorTabView {
            path: self.remote_path@,
            dirty: self.dirty,
            saving: self.saving,
            saved_text: match self.text_at_save_start {
                Some(t) => Some(t@),
                None => None,
            },
        }
    }
}

/// The editor window of one SFTP session.
#[derive(Debug)]
pub struct SftpEditor {
    session_id: String,
    tabs: Vec<EditorTab>,
    active_idx: usize,
    force_close: bool,
    connected: bool,
    /// Whether the last file could not be opened because the window is full.
    pub capacity_notice: bool,
}

/// The editor by value.
pub struct EditorView {
    pub session_id: Seq<char>,
    pub tabs: Seq<EditorTabView>,
    pub active: nat,
    pub force_close: bool,
    pub connected: bool,
    pub capacity_notice: bool,
}

/// Open files by value.
pub open spec fn tab_views(tabs: Seq<EditorTab>) -> Seq<EditorTabView> {
    tabs.map_values(|t: EditorTab| t@)
}

impl View for SftpEditor {
    type V = EditorView;

    closed spec fn view(&self) -> EditorView {
        EditorView {
            session_id: self.session_id@,
            tabs: tab_views(self.tabs@),
            active: self.active_idx as nat,
            force_close: self.force_close,
            connected: self.connected,
            capacity_notice: self.capacity_notice,
        }
    }
}

/// A clean file just opened.
pub open spec fn fresh_tab(path: Seq<char>) -> EditorTabView {
    EditorTabView { path, dirty: false, saving: false, saved_text: None }
}

/// An open file has path `path`.
pub open spec fn has_path(path: Seq<char>) -> spec_fn(EditorTabView) -> bool {
    |t: EditorTabView| t.path == path
}

/// The position of the first open file with path `path`.
pub open spec fn tab_position(tabs: Seq<EditorTabView>, path: Seq<char>) -> Option<int> {
    first_index(tabs, has_path(path))
}

/// Some open file has unsaved edits.
pub open spec fn any_dirty(tabs: Seq<EditorTabView>) -> bool {
    exists|i: int| 0 <= i < tabs.len() && (#[trigger] tabs[i]).dirty
}

/// The files after the upload of `path` finished, `current` holding the
/// texts now in the editors: each file of that path stops saving, forgets
/// the uploaded text, and stays dirty only when it was edited meanwhile.
pub open spec fn after_upload(
    tabs: Seq<EditorTabView>,
    path: Seq<char>,
    current: Seq<Seq<char>>,
) -> Seq<EditorTabView> {
    Seq::new(
        tabs.len(),
        |i: int|
            if tabs[i].path == path {
                EditorTabView {
                    dirty: tabs[i].saved_text != Some(current[i]),
                    saving: false,
                    saved_text: None,
                    ..tabs[i]
                }
            } else {
                tabs[i]
            },
    )
}

/// The files after the upload of `path` failed: its files stop saving and
/// keep the unsaved-edits flag they had when the save began (saving never
/// clears it).
pub open spec fn after_failed_upload(tabs: Seq<EditorTabView>, path: Seq<char>) -> Seq<
    EditorTabView,
> {
    Seq::new(
        tabs.len(),
        |i: int|
            if tabs[i].path == path {
                EditorTabView { saving: false, saved_text: None, ..tabs[i] }
            } else {
                tabs[i]
            },
    )
}

/// The active position after the file at `idx` closed and `len` files are
/// left: the last one when the active position fell off the end, one less
/// when a file before it closed.
pub open spec fn active_after_close(active: nat, idx: nat, len: nat) -> nat {
    if active >= len {
        (len - 1) as nat
    } else if idx < active {
        (active - 1) as nat
    } else {
        active
    }
}

/// What asking to close a file leads to.
#[derive(Debug, Clone, Copy, PartialEq, Eq, Structural)]
pub enum TabCloseOutcome {
    /// No file at that position.
    Ignored,
    /// The file closed and others are left.
    Closed,
    /// The last file closed, and the window with it.
    WindowClosed,
}

/// What closing the window or losing the connection leads to.
#[derive(Debug, Clone, Copy, PartialEq, Eq, Structural)]
pub enum WindowCloseOutcome {
    /// The window closes now.
    Closed,
    /// A dialog asks to confirm discarding unsaved edits.
    ConfirmDiscard,
}

/// A command of the editor's keyboard.
#[derive(Debug, Clone, Copy, PartialEq, Eq, Structural)]
pub enum EditorCommand {
    SaveActive,
    CloseActive,
    CloseAll,
}

/// The line shown under the editor.
#[derive(Debug, Clone, Copy, PartialEq, Eq, Structural)]
pub enum EditorStatus {
    ConnectionLost,
    Saving,
    Unsaved,
    Saved,
    NoFile,
}

impl EditorTab {
    /// A copy with other flags.
    fn with_flags(&self, dirty: bool, saving: bool, text_at_save_start: Option<String>) -> (r:
        EditorTab)
        ensures
            r@ == (EditorTabView {
                dirty,
                saving,
                saved_text: match text_at_save_start {
                    Some(t) => Some(t@),
                    None => None,
                },
                ..self@
            }),
    {
        EditorTab { remote_path: self.remote_path.clone(), dirty, saving, text_at_save_start }
    }
}

impl SftpEditor {
    /// The window's invariant: the active position names an open file
    /// whenever there is one.
    pub closed spec fn well_formed(&self) -> bool {
        self.tabs@.len() > 0 ==> self.active_idx < self.tabs@.len()
    }

    /// Opens the editor on the file `remote_path`.
    pub fn new(session_id: String, remote_path: String) -> (r: Self)
        ensures
            r@ == (EditorView {
                session_id: session_id@,
                tabs: seq![fresh_tab(remote_path@)],
                active: 0,
                force_close: false,
                connected: true,
                capacity_notice: false,
            }),
            r.well_formed(),
    {
        let tab = EditorTab {
            remote_path,
            dirty: false,
            saving: false,
            text_at_save_start: None,
        };
        let mut tabs: Vec<EditorTab> = Vec::new();
        tabs.push(tab);
        let r = SftpEditor {
            session_id,
            tabs,
            active_idx: 0,
            force_close: false,
            connected: true,
            capacity_notice: false,
        };
        assert(tab_views(r.tabs@) =~= seq![fresh_tab(r.tabs@[0].remote_path@)]);
        r
    }

    /// The session the edited files belong to.
    pub fn session_id(&self) -> (r: &str)
        ensures
            r@ == self@.session_id,
    {
        self.session_id.as_str()
    }

    /// The number of open files.
    pub fn tab_count(&self) -> (r: usize)
        ensures
            r == self@.tabs.len(),
    {
        self.tabs.len()
    }

    /// The position of the active file.
    pub fn active_index(&self) -> (r: usize)
        ensures
            r == self@.active,
    {
        self.active_idx
    }

    /// Whether the connection can still save.
    pub fn connected(&self) -> (r: bool)
        ensures
            r == self@.connected,
    {
        self.connected
    }

    /// Whether closing was confirmed, so the window may close.
    pub fn force_close(&self) -> (r: bool)
        ensures
            r == self@.force_close,
    {
        self.force_close
    }

    /// The open file at position `i`.
    pub fn tab(&self, i: usize) -> (r: Option<&EditorTab>)
        ensures
            i < self@.tabs.len() ==> (r matches Some(t) && t@ == self@.tabs[i as int]),
            i >= self@.tabs.len() ==> r is None,
    {
        if i < self.tabs.len() {
            Some(&self.tabs[i])
        } else {
            None
        }
    }

    /// The position of the open file with this path.
    fn position_of(&self, path: &str) -> (r: Option<usize>)
        ensures
            r matches Some(k) ==> tab_position(self@.tabs, path@) == Some(k as int),
            r is None ==> tab_position(self@.tabs, path@) is None,
    {
        let ghost p = has_path(path@);
        let mut i: usize = 0;
        while i < self.tabs.len()
            invariant
                i <= self.tabs@.len(),
                p == has_path(path@),
                tab_views(self.tabs@).len() == self.tabs@.len(),
                forall|j: int| 0 <= j < i ==> !p(#[trigger] tab_views(self.tabs@)[j]),
            decreases self.tabs@.len() - i,
        {
            if str_eq(self.tabs[i].remote_path.as_str(), path) {
                proof {
                    assert(p(tab_views(self.tabs@)[i as int]));
                    lemma_first_index_found(tab_views(self.tabs@), p, i as int);
                }
                return Some(i);
            }
            i = i + 1;
        }
        proof {
            lemma_first_index_none(tab_views(self.tabs@), p);
        }
        None
    }

    /// Opens `remote_path`: switches to it when it is open already, refuses
    /// it (and raises the capacity notice) when the window is full, else
    /// adds it as the active file. Returns its position.
    pub fn open_file(&mut self, remote_path: String) -> (r: Option<usize>)
        requires
            old(self).well_formed(),
        ensures
            final(self).well_formed(),
            match tab_position(old(self)@.tabs, remote_path@) {
                Some(i) => (r matches Some(k) && k == i) && final(self)@ == (EditorView {
                    active: i as nat,
                    ..old(self)@
                }),
                None => if old(self)@.tabs.len() >= MAX_TABS {
                    r is None && final(self)@ == (EditorView {
                        capacity_notice: true,
                        ..old(self)@
                    })
                } else {
                    (r matches Some(k) && k == old(self)@.tabs.len()) && final(self)@ == (EditorView {
                        tabs: old(self)@.tabs.push(fresh_tab(remote_path@)),
                        active: old(self)@.tabs.len(),
                        capacity_notice: false,
                        ..old(self)@
                    })
                },
            },
    {
        if let Some(idx) = self.position_of(remote_path.as_str()) {
            proof {
                crate::seq_util::lemma_first_index_sound(
                    tab_views(self.tabs@),
                    has_path(remote_path@),
                );
            }
            self.active_idx = idx;
            return Some(idx);
        }
        if self.tabs.len() >= MAX_TABS {
            self.capacity_notice = true;
            return None;
        }
        let ghost before = tab_views(self.tabs@);
        let ghost path = remote_path@;
        self.tabs.push(
            EditorTab { remote_path, dirty: false, saving: false, text_at_save_start: None },
        );
        assert(tab_views(self.tabs@) =~= before.push(fresh_tab(path)));
        self.active_idx = self.tabs.len() - 1;
        self.capacity_notice = false;
        Some(self.active_idx)
    }

    /// Makes the file with path `path` active; `false` when none is open.
    pub fn focus_path(&mut self, path: &str) -> (r: bool)
        requires
            old(self).well_formed(),
        ensures
            final(self).well_formed(),
            r == (tab_position(old(self)@.tabs, path@) is Some),
            match tab_position(old(self)@.tabs, path@) {
                Some(i) => final(self)@ == (EditorView { active: i as nat, ..old(self)@ }),
                None => final(self)@ == old(self)@,
            },
    {
        match self.position_of(path) {
            Some(idx) => {
                proof {
                    crate::seq_util::lemma_first_index_sound(tab_views(self.tabs@), has_path(path@));
                }
                self.active_idx = idx;
                true
            },
            None => false,
        }
    }

    /// Makes the file at `idx` active when there is one.
    pub fn switch_tab(&mut self, idx: usize)
        requires
            old(self).well_formed(),
        ensures
            final(self).well_formed(),
            final(self)@ == if idx < old(self)@.tabs.len() {
                EditorView { active: idx as nat, ..old(self)@ }
            } else {
                old(self)@
            },
    {
        if idx < self.tabs.len() {
            self.active_idx = idx;
        }
    }

    /// Records an edit of the file at `idx`.
    pub fn mark_edited(&mut self, idx: usize)
        requires
            old(self).well_formed(),
        ensures
            final(self).well_formed(),
            final(self)@ == if idx < old(self)@.tabs.len() {
                EditorView {
                    tabs: old(self)@.tabs.update(
                        idx as int,
                        EditorTabView { dirty: true, ..old(self)@.tabs[idx as int] },
                    ),
                    ..old(self)@
                }
            } else {
                old(self)@
            },
    {
        if idx < self.tabs.len() {
            let t = self.tabs[idx].with_flags(
                true,
                self.tabs[idx].saving,
                crate::terminal_workspace::clone_opt(&self.tabs[idx].text_at_save_start),
            );
            let ghost before = tab_views(self.tabs@);
            self.tabs.set(idx, t);
            assert(tab_views(self.tabs@) =~= before.update(
                idx as int,
                EditorTabView { dirty: true, ..before[idx as int] },
            ));
        }
    }

    /// Starts saving the active file, whose editor now holds `content`:
    /// nothing happens when the connection is gone, no file is open or an
    /// upload of it is running. Otherwise the file is marked as saving and
    /// the path and text to upload are returned; it stays dirty until the
    /// upload is confirmed.
    pub fn save_active(&mut self, content: String) -> (r: Option<(String, String)>)
        requires
            old(self).well_formed(),
        ensures
            final(self).well_formed(),
            (!old(self)@.connected || old(self)@.active >= old(self)@.tabs.len()
                || old(self)@.tabs[old(self)@.active as int].saving) ==> r is None && final(self)@
                == old(self)@,
            !(!old(self)@.connected || old(self)@.active >= old(self)@.tabs.len()
                || old(self)@.tabs[old(self)@.active as int].saving) ==> {
                let a = old(self)@.active as int;
                &&& r matches Some(u) && u.0@ == old(self)@.tabs[a].path && u.1@ == content@
                &&& final(self)@ == (EditorView {
                    tabs: old(self)@.tabs.update(
                        a,
                        EditorTabView {
                            saving: true,
                            saved_text: Some(content@),
                            ..old(self)@.tabs[a]
                        },
                    ),
                    ..old(self)@
                })
            },
    {
        if !self.connected {
            return None;
        }
        let idx = self.active_idx;
        if idx >= self.tabs.len() {
            return None;
        }
        if self.tabs[idx].saving {
            return None;
        }
        let path = self.tabs[idx].remote_path.clone();
        let t = self.tabs[idx].with_flags(self.tabs[idx].dirty, true, Some(content.clone()));
        let ghost before = tab_views(self.tabs@);
        self.tabs.set(idx, t);
        assert(tab_views(self.tabs@) =~= before.update(
            idx as int,
            EditorTabView { saving: true, saved_text: Some(content@), ..before[idx as int] },
        ));
        Some((path, content))
    }

    /// Records that the upload of `remote_path` finished; `current` holds
    /// the text now in each file's editor, in order.
    pub fn mark_uploaded(&mut self, remote_path: &str, current: &[String])
        requires
            old(self).well_formed(),
            current@.len() == old(self)@.tabs.len(),
        ensures
            final(self).well_formed(),
            final(self)@ == (EditorView {
                tabs: after_upload(
                    old(self)@.tabs,
                    remote_path@,
                    current@.map_values(|s: String| s@),
                ),
                ..old(self)@
            }),
    {
        let ghost start = tab_views(self.tabs@);
        let ghost texts = current@.map_values(|s: String| s@);
        let mut i: usize = 0;
        while i < self.tabs.len()
            invariant
                i <= self.tabs@.len(),
                self.tabs@.len() == start.len(),
                current@.len() == start.len(),
                texts == current@.map_values(|s: String| s@),
                self.active_idx == old(self).active_idx,
                self.session_id == old(self).session_id,
                self.force_close == old(self).force_close,
                self.connected == old(self).connected,
                self.capacity_notice == old(self).capacity_notice,
                start == old(self)@.tabs,
                forall|j: int|
                    0 <= j < self.tabs@.len() ==> tab_views(self.tabs@)[j] == if j < i {
                        after_upload(start, remote_path@, texts)[j]
                    } else {
                        start[j]
                    },
            decreases self.tabs@.len() - i,
        {
            if str_eq(self.tabs[i].remote_path.as_str(), remote_path) {
                let same = match &self.tabs[i].text_at_save_start {
                    Some(t) => string_eq(t, &current[i]),
                    None => false,
                };
                let t = self.tabs[i].with_flags(!same, false, None);
                let ghost before = tab_views(self.tabs@);
                let ghost tv = t@;
                assert(before[i as int] == start[i as int]);
                assert(texts[i as int] == current@[i as int]@);
                assert(tv == after_upload(start, remote_path@, texts)[i as int]);
                self.tabs.set(i, t);
                assert(tab_views(self.tabs@)[i as int] == tv);
                assert forall|j: int| 0 <= j < self.tabs@.len() implies tab_views(self.tabs@)[j]
                    == if j < i + 1 {
                    after_upload(start, remote_path@, texts)[j]
                } else {
                    start[j]
                } by {
                    if j != i {
                        assert(tab_views(self.tabs@)[j] == before[j]);
                    }
                }
            }
            i = i + 1;
        }
        assert(tab_views(self.tabs@) =~= after_upload(start, remote_path@, texts));
    }

    /// Records that the upload of `remote_path` failed: its files are no
    /// longer saving and keep their unsaved-edits flag as it was when the
    /// save began.
    pub fn mark_upload_failed(&mut self, remote_path: &str)
        requires
            old(self).well_formed(),
        ensures
            final(self).well_formed(),
            final(self)@ == (EditorView {
                tabs: after_failed_upload(old(self)@.tabs, remote_path@),
                ..old(self)@
            }),
    {
        let ghost start = tab_views(self.tabs@);
        let mut i: usize = 0;
        while i < self.tabs.len()
            invariant
                i <= self.tabs@.len(),
                self.tabs@.len() == start.len(),
                self.active_idx == old(self).active_idx,
                self.session_id == old(self).session_id,
                self.force_close == old(self).force_close,
                self.connected == old(self).connected,
                self.capacity_notice == old(self).capacity_notice,
                start == old(self)@.tabs,
                forall|j: int|
                    0 <= j < self.tabs@.len() ==> tab_views(self.tabs@)[j] == if j < i {
                        after_failed_upload(start, remote_path@)[j]
                    } else {
                        start[j]
                    },
            decreases self.tabs@.len() - i,
        {
            if str_eq(self.tabs[i].remote_path.as_str(), remote_path) {
                let dirty = self.tabs[i].dirty;
                let t = self.tabs[i].with_flags(dirty, false, None);
                let ghost before = tab_views(self.tabs@);
                let ghost tv = t@;
                assert(before[i as int] == start[i as int]);
                assert(tv == after_failed_upload(start, remote_path@)[i as int]);
                self.tabs.set(i, t);
                assert(tab_views(self.tabs@)[i as int] == tv);
                assert forall|j: int| 0 <= j < self.tabs@.len() implies tab_views(self.tabs@)[j]
                    == if j < i + 1 {
                    after_failed_upload(start, remote_path@)[j]
                } else {
                    start[j]
                } by {
                    if j != i {
                        assert(tab_views(self.tabs@)[j] == before[j]);
                    }
                }
            }
            i = i + 1;
        }
        assert(tab_views(self.tabs@) =~= after_failed_upload(start, remote_path@));
    }

    /// Whether some open file has unsaved edits.
    pub fn has_dirty_tabs(&self) -> (r: bool)
        ensures
            r == any_dirty(self@.tabs),
    {
        let mut i: usize = 0;
        while i < self.tabs.len()
            invariant
                i <= self.tabs@.len(),
                tab_views(self.tabs@).len() == self.tabs@.len(),
                forall|j: int| 0 <= j < i ==> !(#[trigger] tab_views(self.tabs@)[j]).dirty,
            decreases self.tabs@.len() - i,
        {
            if self.tabs[i].dirty {
                assert(tab_views(self.tabs@)[i as int].dirty);
                return true;
            }
            i = i + 1;
        }
        false
    }

    /// Closes the window: from now on it may close without asking.
    pub fn close_window(&mut self)
        requires
            old(self).well_formed(),
        ensures
            final(self).well_formed(),
            final(self)@ == (EditorView { force_close: true, ..old(self)@ }),
    {
        self.force_close = true;
    }

    /// Closes the file at `idx` without asking. Closing the last file closes
    /// the window; otherwise the active position moves to stay on a file.
    pub fn do_close_tab(&mut self, idx: usize) -> (r: TabCloseOutcome)
        requires
            old(self).well_formed(),
        ensures
            final(self).well_formed(),
            idx >= old(self)@.tabs.len() ==> r == TabCloseOutcome::Ignored && final(self)@ == old(self)@,
            idx < old(self)@.tabs.len() ==> {
                let left = old(self)@.tabs.remove(idx as int);
                if left.len() == 0 {
                    r == TabCloseOutcome::WindowClosed && final(self)@ == (EditorView {
                        tabs: left,
                        force_close: true,
                        ..old(self)@
                    })
                } else {
                    r == TabCloseOutcome::Closed && final(self)@ == (EditorView {
                        tabs: left,
                        active: active_after_close(old(self)@.active, idx as nat, left.len()),
                        ..old(self)@
                    })
                }
            },
    {
        if idx >= self.tabs.len() {
            return TabCloseOutcome::Ignored;
        }
        let ghost before = tab_views(self.tabs@);
        let _removed = self.tabs.remove(idx);
        assert(tab_views(self.tabs@) =~= before.remove(idx as int));
        if self.tabs.len() == 0 {
            self.close_window();
            return TabCloseOutcome::WindowClosed;
        }
        if self.active_idx >= self.tabs.len() {
            self.active_idx = self.tabs.len() - 1;
        } else if idx < self.active_idx {
            self.active_idx = self.active_idx - 1;
        }
        TabCloseOutcome::Closed
    }

    /// Asks to close the file at `idx`: a clean file closes at once; for a
    /// dirty one the file name to confirm with is returned and nothing
    /// changes yet.
    pub fn request_close_tab(&mut self, idx: usize) -> (r: Result<TabCloseOutcome, String>)
        requires
            old(self).well_formed(),
        ensures
            final(self).well_formed(),
            idx >= old(self)@.tabs.len() ==> r == Ok::<TabCloseOutcome, String>(
                TabCloseOutcome::Ignored,
            ) && final(self)@ == old(self)@,
            idx < old(self)@.tabs.len() && old(self)@.tabs[idx as int].dirty ==> (r matches Err(
                name,
            ) && name@ == path_base_name(old(self)@.tabs[idx as int].path) && final(self)@ == old(self)@),
            idx < old(self)@.tabs.len() && !old(self)@.tabs[idx as int].dirty ==> (r matches Ok(
                o,
            ) && o != TabCloseOutcome::Ignored && final(self)@.tabs == old(self)@.tabs.remove(
                idx as int,
            )),
    {
        if idx >= self.tabs.len() {
            return Ok(TabCloseOutcome::Ignored);
        }
        if !self.tabs[idx].dirty {
            return Ok(self.do_close_tab(idx));
        }
        let name = base_name(self.tabs[idx].remote_path.as_str());
        Err(crate::text::string_of(name))
    }

    /// Ctrl+W: asks to close the active file, or closes an empty window.
    pub fn close_active(&mut self) -> (r: Result<TabCloseOutcome, String>)
        requires
            old(self).well_formed(),
        ensures
            final(self).well_formed(),
            old(self)@.tabs.len() == 0 ==> r == Ok::<TabCloseOutcome, String>(
                TabCloseOutcome::WindowClosed,
            ) && final(self)@ == (EditorView { force_close: true, ..old(self)@ }),
            old(self)@.tabs.len() > 0 && old(self)@.tabs[old(self)@.active as int].dirty ==> (
            r is Err && final(self)@ == old(self)@),
    {
        if self.tabs.len() == 0 {
            self.close_window();
            return Ok(TabCloseOutcome::WindowClosed);
        }
        let idx = self.active_idx;
        self.request_close_tab(idx)
    }

    /// Esc: closes the window at once when nothing is unsaved, else asks.
    pub fn close_all(&mut self) -> (r: WindowCloseOutcome)
        requires
            old(self).well_formed(),
        ensures
            final(self).well_formed(),
            any_dirty(old(self)@.tabs) ==> r == WindowCloseOutcome::ConfirmDiscard && final(self)@ == old(self)@,
            !any_dirty(old(self)@.tabs) ==> r == WindowCloseOutcome::Closed && final(self)@ == (
            EditorView { force_close: true, ..old(self)@ }),
    {
        if self.has_dirty_tabs() {
            WindowCloseOutcome::ConfirmDiscard
        } else {
            self.close_window();
            WindowCloseOutcome::Closed
        }
    }

    /// Records that the SSH connection is gone: saving becomes impossible,
    /// running uploads are forgotten, and the window closes, after asking
    /// when something is unsaved. `None` when this was known already.
    pub fn notify_connection_lost(&mut self) -> (r: Option<WindowCloseOutcome>)
        requires
            old(self).well_formed(),
        ensures
            final(self).well_formed(),
            !old(self)@.connected ==> r is None && final(self)@ == old(self)@,
            old(self)@.connected ==> {
                let tabs = Seq::new(
                    old(self)@.tabs.len(),
                    |i: int| EditorTabView { saving: false, ..old(self)@.tabs[i] },
                );
                &&& final(self)@.tabs == tabs
                &&& !final(self)@.connected
                &&& final(self)@.active == old(self)@.active
                &&& final(self)@.session_id == old(self)@.session_id
                &&& final(self)@.capacity_notice == old(self)@.capacity_notice
                &&& any_dirty(tabs) ==> r == Some(WindowCloseOutcome::ConfirmDiscard)
                    && final(self)@.force_close == old(self)@.force_close
                &&& !any_dirty(tabs) ==> r == Some(WindowCloseOutcome::Closed)
                    && final(self)@.force_close
            },
    {
        if !self.connected {
            return None;
        }
        self.connected = false;
        let ghost start = tab_views(self.tabs@);
        let ghost target = Seq::new(start.len(), |i: int| EditorTabView { saving: false, ..start[i] });
        let mut i: usize = 0;
        while i < self.tabs.len()
            invariant
                i <= self.tabs@.len(),
                self.tabs@.len() == start.len(),
                target == Seq::new(start.len(), |i: int| EditorTabView { saving: false, ..start[i] }),
                self.active_idx == old(self).active_idx,
                self.session_id == old(self).session_id,
                self.force_close == old(self).force_close,
                !self.connected,
                self.capacity_notice == old(self).capacity_notice,
                start == old(self)@.tabs,
                forall|j: int|
                    0 <= j < self.tabs@.len() ==> tab_views(self.tabs@)[j] == if j < i {
                        target[j]
                    } else {
                        start[j]
                    },
            decreases self.tabs@.len() - i,
        {
            let t = self.tabs[i].with_flags(
                self.tabs[i].dirty,
                false,
                crate::terminal_workspace::clone_opt(&self.tabs[i].text_at_save_start),
            );
            let ghost before = tab_views(self.tabs@);
            let ghost tv = t@;
            assert(before[i as int] == start[i as int]);
            assert(tv == target[i as int]);
            self.tabs.set(i, t);
            assert(tab_views(self.tabs@)[i as int] == tv);
            assert forall|j: int| 0 <= j < self.tabs@.len() implies tab_views(self.tabs@)[j] == if j
                < i + 1 {
                target[j]
            } else {
                start[j]
            } by {
                if j != i {
                    assert(tab_views(self.tabs@)[j] == before[j]);
                }
            }
            i = i + 1;
        }
        assert(tab_views(self.tabs@) =~= target);
        Some(self.close_all())
    }

    /// The window of a session being closed: closes at once when nothing is
    /// unsaved and reports `true`; otherwise the caller asks first.
    pub fn request_session_close(&mut self) -> (r: bool)
        requires
            old(self).well_formed(),
        ensures
            final(self).well_formed(),
            r == !any_dirty(old(self)@.tabs),
            final(self)@ == if r {
                EditorView { force_close: true, ..old(self)@ }
            } else {
                old(self)@
            },
    {
        if !self.has_dirty_tabs() {
            self.close_window();
            return true;
        }
        false
    }

    /// Whether the system may close the window now: once closing was
    /// confirmed, or when nothing is unsaved; otherwise the caller asks.
    pub fn request_window_close(&self) -> (r: bool)
        ensures
            r == (self@.force_close || !any_dirty(self@.tabs)),
    {
        self.force_close || close_disposition(self.has_dirty_tabs()) == CloseDisposition::Close
    }

    /// The status line for the active file.
    pub fn status(&self) -> (r: EditorStatus)
        requires
            self.well_formed(),
        ensures
            r == if !self@.connected {
                EditorStatus::ConnectionLost
            } else if self@.active >= self@.tabs.len() {
                EditorStatus::NoFile
            } else if self@.tabs[self@.active as int].saving {
                EditorStatus::Saving
            } else if self@.tabs[self@.active as int].dirty {
                EditorStatus::Unsaved
            } else {
                EditorStatus::Saved
            },
    {
        if !self.connected {
            EditorStatus::ConnectionLost
        } else if self.active_idx >= self.tabs.len() {
            EditorStatus::NoFile
        } else if self.tabs[self.active_idx].saving {
            EditorStatus::Saving
        } else if self.tabs[self.active_idx].dirty {
            EditorStatus::Unsaved
        } else {
            EditorStatus::Saved
        }
    }
}

/// The command of a key press: with Control or Command, `s` saves and `w`
/// closes the file; Escape closes the window. Keys compare without ASCII case.
pub fn editor_key_command(key: &str, command_modifier: bool) -> (r: Option<EditorCommand>)
    ensures
        r == if command_modifier && crate::tool_panel::ascii_lowercase(key@) == "s"@ {
            Some(EditorCommand::SaveActive)
        } else if command_modifier && crate::tool_panel::ascii_lowercase(key@) == "w"@ {
            Some(EditorCommand::CloseActive)
        } else if crate::tool_panel::ascii_lowercase(key@) == "escape"@ {
            Some(EditorCommand::CloseAll)
        } else {
            None
        },
{
    let lower = crate::tool_panel::ascii_lowercase_string(key);
    if command_modifier && str_eq(lower.as_str(), "s") {
        Some(EditorCommand::SaveActive)
    } else if command_modifier && str_eq(lower.as_str(), "w") {
        Some(EditorCommand::CloseActive)
    } else if str_eq(lower.as_str(), "escape") {
        Some(EditorCommand::CloseAll)
    } else {
        None
    }
}


/// Closing a file other than the active one keeps the same file active:
/// with `tabs` open, `active` the active position and the file at `idx`
/// (not the active one) closing, the active position afterwards shows the
/// very file that was active before.
pub proof fn closing_another_file_keeps_the_active_file(tabs: Seq<EditorTabView>, active: nat, idx: nat)
    requires
        active < tabs.len(),
        idx < tabs.len(),
        idx != active,
    ensures
        ({
            let left = tabs.remove(idx as int);
            let now = active_after_close(active, idx, left.len());
            &&& now < left.len()
            &&& left[now as int] == tabs[active as int]
        }),
{
}


/// Closing the active file hands the focus to the file that followed it,
/// or, when it was the last one, to the file before it.
pub proof fn closing_the_active_file_activates_the_next_one(tabs: Seq<EditorTabView>, active: nat)
    requires
        active < tabs.len(),
        tabs.len() > 1,
    ensures
        ({
            let left = tabs.remove(active as int);
            let now = active_after_close(active, active, left.len());
            &&& active + 1 < tabs.len() ==> left[now as int] == tabs[active + 1 as int]
            &&& active + 1 == tabs.len() ==> left[now as int] == tabs[active - 1]
        }),
{
}

} // verus!
