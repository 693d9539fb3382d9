//! The SFTP editor windows that are open, by session, owning window and
//! editor window.
use vstd::prelude::*;

use crate::seq_util::lemma_filter_take_step;
use crate::text::str_eq;

verus! {

/// An open SFTP editor window: the SFTP session it edits files of, the
/// window that owns the session, and the editor window itself.
#[derive(Clone, Debug)]
pub struct EditorWindowEntry {
    pub session_id: String,
    pub owner_id: u64,
    pub window_id: u64,
}

/// Entries of session `session_id` owned by window `owner_id`.
pub open spec fn entry_of(session_id: Seq<char>, owner_id: u64) -> spec_fn(EditorWindowEntry) -> bool {
    |e: EditorWindowEntry| e.session_id@ == session_id && e.owner_id == owner_id
}

/// Entries owned by window `owner_id`.
pub open spec fn owned_by(owner_id: u64) -> spec_fn(EditorWindowEntry) -> bool {
    |e: EditorWindowEntry| e.owner_id == owner_id
}

/// Entries other than editor window `window_id` of session `session_id`.
pub open spec fn not_session_window(session_id: Seq<char>, window_id: u64) -> spec_fn(EditorWindowEntry) -> bool {
    |e: EditorWindowEntry| e.session_id@ != session_id || e.window_id != window_id
}

/// Entries of other editor windows than `window_id`.
pub open spec fn not_window(window_id: u64) -> spec_fn(EditorWindowEntry) -> bool {
    |e: EditorWindowEntry| e.window_id != window_id
}

/// The open SFTP editor windows, in the order they opened.
#[derive(Debug)]
pub struct EditorRegistry {
    pub entries: Vec<EditorWindowEntry>,
}

impl EditorWindowEntry {
    /// A copy of the entry.
    pub fn duplicate(&self) -> (r: EditorWindowEntry)
        ensures
            r == *self,
    {
        EditorWindowEntry {
            session_id: self.session_id.clone(),
            owner_id: self.owner_id,
            window_id: self.window_id,
        }
    }
}

/// The entries of `entries` that `keep` accepts, copied in order; `keep` is
/// given as the three fields to compare and which comparison applies.
fn kept_entries(
    entries: &Vec<EditorWindowEntry>,
    p: Ghost<spec_fn(EditorWindowEntry) -> bool>,
    session_id: Option<&str>,
    owner_id: Option<u64>,
    window_id: Option<u64>,
    keep_matching: bool,
) -> (r: Vec<EditorWindowEntry>)
    requires
        forall|e: EditorWindowEntry|
            #[trigger] p@(e) == (keep_matching == ((session_id is None || e.session_id@
                == session_id->0@) && (owner_id is None || e.owner_id == owner_id->0) && (
            window_id is None || e.window_id == window_id->0))),
    ensures
        r@ == entries@.filter(p@),
{
    let mut out: Vec<EditorWindowEntry> = Vec::new();
    let mut i: usize = 0;
    while i < entries.len()
        invariant
            i <= entries@.len(),
            forall|e: EditorWindowEntry|
                #[trigger] p@(e) == (keep_matching == ((session_id is None || e.session_id@
                    == session_id->0@) && (owner_id is None || e.owner_id == owner_id->0) && (
                window_id is None || e.window_id == window_id->0))),
            out@ == entries@.take(i as int).filter(p@),
        decreases entries@.len() - i,
    {
        proof {
            lemma_filter_take_step(entries@, p@, i as int);
        }
        let e = &entries[i];
        let session_ok = match session_id {
            Some(s) => str_eq(e.session_id.as_str(), s),
            None => true,
        };
        let owner_ok = match owner_id {
            Some(o) => e.owner_id == o,
            None => true,
        };
        let window_ok = match window_id {
            Some(w) => e.window_id == w,
            None => true,
        };
        if (session_ok && owner_ok && window_ok) == keep_matching {
            out.push(e.duplicate());
        }
        i = i + 1;
    }
    assert(entries@.take(entries@.len() as int) =~= entries@);
    out
}

impl EditorRegistry {
    /// No editor window is open.
    pub fn new() -> (r: Self)
        ensures
            r.entries@.len() == 0,
    {
        EditorRegistry { entries: Vec::new() }
    }

    /// The editor windows of session `session_id` owned by window
    /// `owner_id`, in the order they opened.
    pub fn entries_for(&self, session_id: &str, owner_id: u64) -> (r: Vec<EditorWindowEntry>)
        ensures
            r@ == self.entries@.filter(entry_of(session_id@, owner_id)),
    {
        kept_entries(
            &self.entries,
            Ghost(entry_of(session_id@, owner_id)),
            Some(session_id),
            Some(owner_id),
            None,
            true,
        )
    }

    /// The editor windows owned by window `owner_id`, whatever their
    /// session, in the order they opened.
    pub fn entries_owned_by(&self, owner_id: u64) -> (r: Vec<EditorWindowEntry>)
        ensures
            r@ == self.entries@.filter(owned_by(owner_id)),
    {
        kept_entries(&self.entries, Ghost(owned_by(owner_id)), None, Some(owner_id), None, true)
    }

    /// Records a newly opened editor window.
    pub fn register(&mut self, entry: EditorWindowEntry)
        ensures
            final(self).entries@ == old(self).entries@.push(entry),
    {
        self.entries.push(entry);
    }

    /// Forgets editor window `window_id` of session `session_id`.
    pub fn deregister(&mut self, session_id: &str, window_id: u64)
        ensures
            final(self).entries@ == old(self).entries@.filter(not_session_window(session_id@, window_id)),
    {
        let kept = kept_entries(
            &self.entries,
            Ghost(not_session_window(session_id@, window_id)),
            Some(session_id),
            None,
            Some(window_id),
            false,
        );
        self.entries = kept;
    }

    /// Forgets editor window `window_id`, whatever its session.
    pub fn deregister_window(&mut self, window_id: u64)
        ensures
            final(self).entries@ == old(self).entries@.filter(not_window(window_id)),
    {
        let kept = kept_entries(
            &self.entries,
            Ghost(not_window(window_id)),
            None,
            None,
            Some(window_id),
            false,
        );
        self.entries = kept;
    }
}

} // verus!
