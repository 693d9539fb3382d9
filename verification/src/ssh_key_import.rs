//! The state of the dialog that imports a private SSH key.
use vstd::prelude::*;

use crate::text::string_eq;

verus! {

/// Where checking the chosen key file stands.
#[derive(Clone, Debug, PartialEq, Eq)]
pub enum KeyImportValidation {
    WaitingForFile,
    Validating,
    Invalid(String),
    Duplicate,
    Valid { key_type: String, fingerprint: String },
}

/// A check result by value.
pub enum ValidationView {
    WaitingForFile,
    Validating,
    Invalid(Seq<char>),
    Duplicate,
    Valid { key_type: Seq<char>, fingerprint: Seq<char> },
}

impl View for KeyImportValidation {
    type V = ValidationView;

    open spec fn view(&self) -> ValidationView {
        match self {
            KeyImportValidation::WaitingForFile => ValidationView::WaitingForFile,
            KeyImportValidation::Validating => ValidationView::Validating,
            KeyImportValidation::Invalid(e) => ValidationView::Invalid(e@),
            KeyImportValidation::Duplicate => ValidationView::Duplicate,
            KeyImportValidation::Valid { key_type, fingerprint } => ValidationView::Valid {
                key_type: key_type@,
                fingerprint: fingerprint@,
            },
        }
    }
}

impl Default for KeyImportValidation {
    /// No file chosen yet.
    fn default() -> (r: Self)
        ensures
            r@ == ValidationView::WaitingForFile,
    {
        KeyImportValidation::WaitingForFile
    }
}

impl KeyImportValidation {
    /// Only a valid key that is not managed yet can be imported.
    pub fn can_confirm(&self) -> (r: bool)
        ensures
            r == (self@ is Valid),
    {
        match self {
            KeyImportValidation::Valid { .. } => true,
            _ => false,
        }
    }
}

/// The dialog: whether it is open, the chosen file's path and text, and the
/// check of that text.
#[derive(Debug)]
pub struct KeyImportState {
    pub open: bool,
    pub path: String,
    pub content: String,
    pub validation: KeyImportValidation,
}

/// The dialog by value.
pub struct KeyImportView {
    pub open: bool,
    pub path: Seq<char>,
    pub content: Seq<char>,
    pub validation: ValidationView,
}

impl View for KeyImportState {
    type V = KeyImportView;

    open spec fn view(&self) -> KeyImportView {
        KeyImportView {
            open: self.open,
            path: self.path@,
            content: self.content@,
            validation: self.validation@,
        }
    }
}

/// The closed dialog, holding no key material.
pub open spec fn closed_import() -> KeyImportView {
    KeyImportView {
        open: false,
        path: seq![],
        content: seq![],
        validation: ValidationView::WaitingForFile,
    }
}

/// What checking the key text gives: the inspection's error, or the key
/// type and fingerprint, unless a managed key already has that fingerprint.
pub open spec fn checked_key(
    inspection: Result<(Seq<char>, Seq<char>), Seq<char>>,
    managed: Seq<Seq<char>>,
) -> ValidationView {
    match inspection {
        Ok((key_type, fingerprint)) => if managed.contains(fingerprint) {
            ValidationView::Duplicate
        } else {
            ValidationView::Valid { key_type, fingerprint }
        },
        Err(e) => ValidationView::Invalid(e),
    }
}

/// The check after `revalidate`: unchanged while a file is being read, the
/// wait for a file when no path is chosen, else the check of the key text.
pub open spec fn revalidated(
    s: KeyImportView,
    inspection: Result<(Seq<char>, Seq<char>), Seq<char>>,
    managed: Seq<Seq<char>>,
) -> KeyImportView {
    if s.validation is Validating {
        s
    } else if s.path.len() == 0 {
        KeyImportView { validation: ValidationView::WaitingForFile, ..s }
    } else {
        KeyImportView { validation: checked_key(inspection, managed), ..s }
    }
}

/// An inspection result by value.
pub open spec fn inspection_view(r: Result<(String, String), String>) -> Result<
    (Seq<char>, Seq<char>),
    Seq<char>,
> {
    match r {
        Ok((t, f)) => Ok((t@, f@)),
        Err(e) => Err(e@),
    }
}

/// The texts of a list of strings.
pub open spec fn texts(v: Seq<String>) -> Seq<Seq<char>> {
    v.map_values(|s: String| s@)
}

impl Default for KeyImportState {
    /// The closed dialog.
    fn default() -> (r: Self)
        ensures
            r@ == closed_import(),
    {
        let r = KeyImportState {
            open: false,
            path: String::new(),
            content: String::new(),
            validation: KeyImportValidation::WaitingForFile,
        };
        assert(r@.path =~= seq![] && r@.content =~= seq![]);
        r
    }
}

/// Whether `fingerprint` is one of `managed`.
fn fingerprint_is_managed(managed: &[String], fingerprint: &String) -> (r: bool)
    ensures
        r == texts(managed@).contains(fingerprint@),
{
    let mut i: usize = 0;
    while i < managed.len()
        invariant
            i <= managed@.len(),
            forall|j: int| 0 <= j < i ==> managed@[j]@ != fingerprint@,
        decreases managed@.len() - i,
    {
        if string_eq(&managed[i], fingerprint) {
            assert(texts(managed@)[i as int] == fingerprint@);
            return true;
        }
        i = i + 1;
    }
    assert(!texts(managed@).contains(fingerprint@)) by {
        if texts(managed@).contains(fingerprint@) {
            let k = choose|k: int| 0 <= k < texts(managed@).len() && texts(managed@)[k] == fingerprint@;
            assert(managed@[k]@ == fingerprint@);
        }
    }
    false
}

impl KeyImportState {
    /// Opens the dialog with nothing chosen.
    pub fn open(&mut self)
        ensures
            final(self)@ == (KeyImportView {
                open: true,
                path: seq![],
                content: seq![],
                validation: ValidationView::WaitingForFile,
            }),
    {
        self.open = true;
        self.path = String::new();
        self.content = String::new();
        self.validation = KeyImportValidation::WaitingForFile;
        assert(self@.path =~= seq![] && self@.content =~= seq![]);
    }

    /// Closes the dialog and forgets the key material.
    pub fn close(&mut self)
        ensures
            final(self)@ == closed_import(),
    {
        *self = Self::default();
    }

    /// Records that the file at `path` is being read.
    pub fn begin_file_validation(&mut self, path: String)
        ensures
            final(self)@ == (KeyImportView {
                path: path@,
                content: seq![],
                validation: ValidationView::Validating,
                ..old(self)@
            }),
    {
        self.path = path;
        self.content = String::new();
        self.validation = KeyImportValidation::Validating;
        assert(self@.content =~= seq![]);
    }

    /// Takes the text read from `path` and checks it; `inspection` is what
    /// inspecting that text with the typed passphrase gave, `managed` the
    /// fingerprints of the keys already managed.
    pub fn set_file(
        &mut self,
        path: String,
        content: String,
        inspection: Result<(String, String), String>,
        managed: &[String],
    )
        ensures
            final(self)@ == revalidated(
                KeyImportView { path: path@, content: content@, ..old(self)@ },
                inspection_view(inspection),
                texts(managed@),
            ),
    {
        self.path = path;
        self.content = content;
        self.revalidate(inspection, managed);
    }

    /// Records that the file at `path` could not be read.
    pub fn set_read_error(&mut self, path: String, error: String)
        ensures
            final(self)@ == (KeyImportView {
                path: path@,
                content: seq![],
                validation: ValidationView::Invalid(error@),
                ..old(self)@
            }),
    {
        self.path = path;
        self.content = String::new();
        self.validation = KeyImportValidation::Invalid(error);
        assert(self@.content =~= seq![]);
    }

    /// Checks the key text again, given what inspecting it gave and the
    /// fingerprints of the keys already managed.
    pub fn revalidate(&mut self, inspection: Result<(String, String), String>, managed: &[String])
        ensures
            final(self)@ == revalidated(old(self)@, inspection_view(inspection), texts(managed@)),
    {
        if let KeyImportValidation::Validating = self.validation {
            return;
        }
        if self.path.as_str().unicode_len() == 0 {
            self.validation = KeyImportValidation::WaitingForFile;
            return;
        }
        self.validation = match inspection {
            Ok((key_type, fingerprint)) => {
                if fingerprint_is_managed(managed, &fingerprint) {
                    KeyImportValidation::Duplicate
                } else {
                    KeyImportValidation::Valid { key_type, fingerprint }
                }
            },
            Err(e) => KeyImportValidation::Invalid(e),
        };
    }
}

} // verus!
