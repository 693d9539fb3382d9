//! The SSH connection form: checking what was typed and building the saved
//! session from it.
use vstd::prelude::*;

use crate::decimal::{parse_unsigned, parsed_unsigned};
use crate::terminal_workspace::clone_opt;
use crate::text::{str_eq, string_of, trim, trimmed};

verus! {

/// The port used when the typed one is not a number from 0 to 65535.
pub const DEFAULT_SSH_PORT: u16 = 22;

/// How a session authenticates.
#[derive(Clone, Copy, Debug, PartialEq, Eq, Structural)]
pub enum AuthMethod {
    Password,
    Key,
    /// A key chosen in the form whose import is not finished.
    KeyPending,
    /// The keys of the user's SSH configuration.
    Config,
}

/// What the connection form holds, as typed, with the choices made beside
/// it: the edited session (if any) with its last use and group, and the
/// group and managed key picked in the form.
#[derive(Debug)]
pub struct SshConnectionForm {
    pub session_name: String,
    pub host: String,
    pub port: String,
    pub user: String,
    pub password: String,
    pub key_path: String,
    pub key_inline: String,
    pub passphrase: String,
    pub auth: AuthMethod,
    pub managed_key_selected: Option<String>,
    pub proxy_type: String,
    pub proxy_host: String,
    pub proxy_port: String,
    pub proxy_user: String,
    pub proxy_password: String,
    pub editing_session_id: Option<String>,
    pub existing_last_used: Option<String>,
    pub existing_group: Option<String>,
    pub group_selection: Option<String>,
}

/// How the built session proves who the user is.
#[derive(Debug, PartialEq, Eq)]
pub enum SessionCredentials {
    Password(String),
    Key { key_path: String, key_inline: String, passphrase: String },
    /// A key of the key manager, looked up when connecting.
    ManagedKey(String),
    /// The user's SSH configuration, with an optional explicit key file.
    Config { key_path: String },
}

/// The session the form describes.
#[derive(Debug)]
pub struct SshSessionDraft {
    /// The id of the edited session; `None` for a new one.
    pub id: Option<String>,
    pub name: String,
    pub host: String,
    pub port: u16,
    pub user: String,
    pub credentials: SessionCredentials,
    pub last_used: Option<String>,
    pub group: Option<String>,
    pub proxy_type: String,
    pub proxy_host: String,
    pub proxy_port: Option<u16>,
    pub proxy_user: String,
    pub proxy_password: String,
}

/// Why the form cannot be saved.
#[derive(Clone, Copy, Debug, PartialEq, Eq, Structural)]
pub enum SshFormError {
    /// Host or user is blank.
    HostAndUserRequired,
    /// A proxy is chosen but its host is blank or its port is no number.
    ProxyRequired,
}

/// An optional text by value.
pub open spec fn opt_text(o: Option<String>) -> Option<Seq<char>> {
    match o {
        Some(s) => Some(s@),
        None => None,
    }
}

/// The typed port: a number from 0 to 65535 once trimmed, else 22.
pub open spec fn form_port(port: Seq<char>) -> nat {
    match parsed_unsigned(trim(port), u16::MAX as nat) {
        Some(p) => p,
        None => DEFAULT_SSH_PORT as nat,
    }
}

/// The typed proxy port, when it is a number from 0 to 65535 once trimmed.
pub open spec fn form_proxy_port(port: Seq<char>) -> Option<nat> {
    parsed_unsigned(trim(port), u16::MAX as nat)
}

/// What rejects the form, checked in this order: a blank host or user, then
/// a chosen proxy without host or numeric port.
pub open spec fn form_error(f: SshConnectionForm) -> Option<SshFormError> {
    if trim(f.host@).len() == 0 || trim(f.user@).len() == 0 {
        Some(SshFormError::HostAndUserRequired)
    } else if f.proxy_type@ != "none"@ && (trim(f.proxy_host@).len() == 0 || form_proxy_port(
        f.proxy_port@,
    ) is None) {
        Some(SshFormError::ProxyRequired)
    } else {
        None
    }
}

/// The credentials the form's choice of authentication gives: the password;
/// the managed key when one is picked for key authentication, else the key
/// file, inline key and passphrase; for the SSH configuration, only the key
/// file.
pub open spec fn credentials_ok(f: SshConnectionForm, c: SessionCredentials) -> bool {
    match f.auth {
        AuthMethod::Password => c matches SessionCredentials::Password(p) && p@ == f.password@,
        AuthMethod::Config => c matches SessionCredentials::Config { key_path } && key_path@ == trim(
            f.key_path@,
        ),
        _ => match f.managed_key_selected {
            Some(k) => c matches SessionCredentials::ManagedKey(id) && id@ == k@,
            None => c matches SessionCredentials::Key { key_path, key_inline, passphrase }
                && key_path@ == trim(f.key_path@) && key_inline@ == f.key_inline@ && passphrase@
                == f.passphrase@,
        },
    }
}

/// The session built from an accepted form: texts trimmed except secrets
/// and inline keys, the host standing in for a blank name, the edited
/// session's id and last use kept, the picked group preferred to its old
/// one.
pub open spec fn draft_ok(f: SshConnectionForm, d: SshSessionDraft) -> bool {
    &&& opt_text(d.id) == opt_text(f.editing_session_id)
    &&& d.name@ == (if trim(f.session_name@).len() == 0 {
        trim(f.host@)
    } else {
        trim(f.session_name@)
    })
    &&& d.host@ == trim(f.host@)
    &&& d.port as nat == form_port(f.port@)
    &&& d.user@ == trim(f.user@)
    &&& credentials_ok(f, d.credentials)
    &&& opt_text(d.last_used) == opt_text(f.existing_last_used)
    &&& opt_text(d.group) == (if f.group_selection is Some {
        opt_text(f.group_selection)
    } else {
        opt_text(f.existing_group)
    })
    &&& d.proxy_type@ == f.proxy_type@
    &&& d.proxy_host@ == trim(f.proxy_host@)
    &&& match form_proxy_port(f.proxy_port@) {
        Some(p) => d.proxy_port == Some(p as u16),
        None => d.proxy_port is None,
    }
    &&& d.proxy_user@ == trim(f.proxy_user@)
    &&& d.proxy_password@ == f.proxy_password@
}

/// Reads an optional port number.
fn port_number(text: &str) -> (r: Option<u16>)
    ensures
        match form_proxy_port(text@) {
            Some(p) => r == Some(p as u16),
            None => r is None,
        },
{
    let t = trimmed(text);
    match parse_unsigned(t.as_str(), 0xffff) {
        Some(p) => Some(p as u16),
        None => None,
    }
}

/// Checks the connection form and builds the session it describes.
pub fn ssh_session_from_form(form: &SshConnectionForm) -> (r: Result<SshSessionDraft, SshFormError>)
    ensures
        match form_error(*form) {
            Some(e) => r == Err::<SshSessionDraft, SshFormError>(e),
            None => r matches Ok(d) && draft_ok(*form, d),
        },
{
    let session_name = trimmed(form.session_name.as_str());
    let host = trimmed(form.host.as_str());
    let port = match port_number(form.port.as_str()) {
        Some(p) => p,
        None => DEFAULT_SSH_PORT,
    };
    let user = trimmed(form.user.as_str());
    let key_path = trimmed(form.key_path.as_str());
    if host.as_str().unicode_len() == 0 || user.as_str().unicode_len() == 0 {
        return Err(SshFormError::HostAndUserRequired);
    }
    let proxy_host = trimmed(form.proxy_host.as_str());
    let proxy_port = port_number(form.proxy_port.as_str());
    if !str_eq(form.proxy_type.as_str(), "none") {
        if proxy_host.as_str().unicode_len() == 0 || proxy_port.is_none() {
            return Err(SshFormError::ProxyRequired);
        }
    }
    let name = if session_name.as_str().unicode_len() == 0 {
        host.clone()
    } else {
        session_name
    };
    let credentials = match form.auth {
        AuthMethod::Password => SessionCredentials::Password(form.password.clone()),
        AuthMethod::Config => SessionCredentials::Config { key_path },
        _ => match &form.managed_key_selected {
            Some(k) => SessionCredentials::ManagedKey(k.clone()),
            None => SessionCredentials::Key {
                key_path,
                key_inline: form.key_inline.clone(),
                passphrase: form.passphrase.clone(),
            },
        },
    };
    let group = if form.group_selection.is_some() {
        clone_opt(&form.group_selection)
    } else {
        clone_opt(&form.existing_group)
    };
    Ok(SshSessionDraft {
        id: clone_opt(&form.editing_session_id),
        name,
        host,
        port,
        user,
        credentials,
        last_used: clone_opt(&form.existing_last_used),
        group,
        proxy_type: form.proxy_type.clone(),
        proxy_host,
        proxy_port,
        proxy_user: trimmed(form.proxy_user.as_str()),
        proxy_password: form.proxy_password.clone(),
    })
}

} // verus!
