//! Credentials and the account session: what the client needs before it can log in,
//! send, or synchronise.

use vstd::prelude::*;

use crate::schema::Account;
use crate::text::{
    concat, is_white_space, lemma_trim_end_skip, lemma_trim_start_skip, owned, trim, trim_end, trim_start, trimmed,
};

verus! {

/// The stored credentials as `(email, password)`: fails when the email is missing
/// (checked first) or the password is missing, telling how to store them.
pub fn load_credentials(email: Option<String>, password: Option<String>) -> (r: Result<(String, String), String>)
    ensures
        match (email, password) {
            (None, _) => r matches Err(e) && e@ == "No email in Keychain. Run: pm-cli setup <email> <password>"@,
            (Some(_), None) => r matches Err(e) && e@ == "No password in Keychain. Run: pm-cli setup <email> <password>"@,
            (Some(e), Some(p)) => r == Ok::<(String, String), String>((e, p)),
        },
{
    let email = match email {
        Some(e) => e,
        None => return Err(owned("No email in Keychain. Run: pm-cli setup <email> <password>")),
    };
    let password = match password {
        Some(p) => p,
        None => return Err(owned("No password in Keychain. Run: pm-cli setup <email> <password>")),
    };
    Ok((email, password))
}

/// The secret a successful keychain lookup printed: its output without surrounding
/// white space; nothing when the lookup failed.
pub fn keychain_value(success: bool, output: &str) -> (r: Option<String>)
    ensures
        success ==> (r matches Some(v) && v@ == trimmed(output@)),
        !success ==> r is None,
{
    if success {
        Some(trim(output))
    } else {
        None
    }
}

/// Whether a text has no white space at either end.
pub open spec fn no_surrounding_white_space(s: Seq<char>) -> bool {
    s.len() == 0 || (!is_white_space(s[0]) && !is_white_space(s.last()))
}

/// Setup, then loading, gives back what setup stored: when a keychain lookup prints a
/// stored value followed only by white space (the lookup tool ends its output with a
/// newline), and the value has no white space at either end, `keychain_value` reads
/// it back unchanged; with both the email and the password read back so,
/// `load_credentials` returns exactly the pair that setup stored.
pub proof fn law_setup_then_load(stored: Seq<char>, padding: Seq<char>)
    requires
        no_surrounding_white_space(stored),
        forall|j: int| 0 <= j < padding.len() ==> is_white_space(#[trigger] padding[j]),
    ensures
        trimmed(stored + padding) == stored,
{
    let printed = stored + padding;
    lemma_trim_end_skip(printed, stored.len() as int);
    assert(printed.subrange(0, stored.len() as int) =~= stored);
    if stored.len() == 0 {
        assert(printed =~= padding);
        lemma_trim_start_skip(printed, printed.len() as int);
        assert(printed.subrange(printed.len() as int, printed.len() as int) =~= Seq::<char>::empty());
        assert(trim_start(Seq::<char>::empty()) == Seq::<char>::empty());
        assert(trim_end(Seq::<char>::empty()) == Seq::<char>::empty());
    } else {
        assert(printed[0] == stored[0]);
        assert(trim_start(printed) == printed);
        assert(stored.last() == stored[stored.len() - 1]);
        assert(trim_end(stored) == stored);
    }
}

/// Whether the client can connect: a bridge password is known and the account email
/// is not empty.
pub fn connection_ready(password: &Option<String>, email: &str) -> (r: bool)
    ensures
        r == (password is Some && email@.len() > 0),
{
    password.is_some() && !email.is_empty()
}

/// The login `(email, password)` for reading mail: fails when no bridge password is
/// known (checked first) or no account email is configured.
pub fn require_login(password: Option<String>, email: String) -> (r: Result<(String, String), String>)
    ensures
        match password {
            None => r matches Err(e) && e@ == "No bridge password"@,
            Some(p) => if email@.len() == 0 {
                r matches Err(e) && e@ == "No account email configured"@
            } else {
                r == Ok::<(String, String), String>((email, p))
            },
        },
{
    let password = match password {
        Some(p) => p,
        None => return Err(owned("No bridge password")),
    };
    if email.as_str().is_empty() {
        return Err(owned("No account email configured"));
    }
    Ok((email, password))
}

/// The sender address for outgoing mail: fails while no account email is configured.
pub fn require_sender(from: String) -> (r: Result<String, String>)
    ensures
        from@.len() == 0 ==> (r matches Err(e) && e@ == "No account email configured yet — wait for first sync"@),
        from@.len() > 0 ==> r == Ok::<String, String>(from),
{
    if from.as_str().is_empty() {
        Err(owned("No account email configured yet — wait for first sync"))
    } else {
        Ok(from)
    }
}

/// Seconds to wait before looking for a bridge password again.
pub const PASSWORD_WAIT_SECONDS: u64 = 10;

/// Seconds to wait before looking for an account email again.
pub const EMAIL_WAIT_SECONDS: u64 = 5;

/// Seconds to wait after a failed synchronisation before retrying.
pub const SYNC_RETRY_SECONDS: u64 = 30;

/// The next step of the background synchronisation loop.
#[derive(Debug, PartialEq, Eq)]
pub enum SyncStep {
    /// No bridge password yet: wait this many seconds.
    WaitForPassword { seconds: u64 },
    /// No account email configured, but the stored account has this address: adopt it
    /// as the account email, then go on.
    AdoptEmail { email: String },
    /// No account email known anywhere yet: wait this many seconds.
    WaitForEmail { seconds: u64 },
    /// Log in as `user` with `password` and synchronise.
    Connect { user: String, password: String },
}

/// The step for the current credentials and the stored account row: a password is
/// needed first, then an account email; when none is configured, the stored
/// account's address is adopted before anything is waited for.
pub open spec fn sync_step_for(password: Option<String>, email: String, account: Option<Account>) -> SyncStep {
    match password {
        None => SyncStep::WaitForPassword { seconds: PASSWORD_WAIT_SECONDS },
        Some(p) => if email@.len() > 0 {
            SyncStep::Connect { user: email, password: p }
        } else {
            match account {
                Some(a) => if a.email@.len() > 0 {
                    SyncStep::AdoptEmail { email: a.email }
                } else {
                    SyncStep::WaitForEmail { seconds: EMAIL_WAIT_SECONDS }
                },
                None => SyncStep::WaitForEmail { seconds: EMAIL_WAIT_SECONDS },
            }
        },
    }
}

/// Decides the next step of the synchronisation loop.
pub fn next_sync_step(password: Option<String>, email: String, account: Option<Account>) -> (s: SyncStep)
    ensures
        s == sync_step_for(password, email, account),
{
    match password {
        None => SyncStep::WaitForPassword { seconds: PASSWORD_WAIT_SECONDS },
        Some(p) => if !email.as_str().is_empty() {
            SyncStep::Connect { user: email, password: p }
        } else {
            match account {
                Some(a) => if !a.email.as_str().is_empty() {
                    SyncStep::AdoptEmail { email: a.email }
                } else {
                    SyncStep::WaitForEmail { seconds: EMAIL_WAIT_SECONDS }
                },
                None => SyncStep::WaitForEmail { seconds: EMAIL_WAIT_SECONDS },
            }
        },
    }
}

/// With a bridge password known and no account email configured, a stored account
/// with an address is never waited on: its address is adopted, and with that address
/// as the account email the next step logs in as it.
pub proof fn law_stored_address_is_adopted(password: String, empty: String, account: Account, other: Option<Account>)
    requires
        empty@.len() == 0,
        account.email@.len() > 0,
    ensures
        sync_step_for(Some(password), empty, Some(account)) == (SyncStep::AdoptEmail { email: account.email }),
        sync_step_for(Some(password), account.email, other) == (SyncStep::Connect {
            user: account.email,
            password,
        }),
{
}

/// After a synchronisation run ends: the account email to adopt, which is the stored
/// account's address when none is configured yet; a configured address is kept.
pub fn adopted_email(current: &str, account: Option<Account>) -> (r: Option<String>)
    ensures
        match account {
            Some(a) => if current@.len() == 0 {
                r == Some(a.email)
            } else {
                r is None
            },
            None => r is None,
        },
{
    match account {
        Some(a) => if current.is_empty() {
            Some(a.email)
        } else {
            None
        },
        None => None,
    }
}

/// The database location under the home directory (`.` when `HOME` is unknown).
pub open spec fn db_path_text(home: Option<Seq<char>>) -> Seq<char> {
    let base = match home {
        Some(h) => h,
        None => "."@,
    };
    base + "/Library/Application Support/com.protonmail.client/protonmail.db"@
}

/// Where the command-line tool keeps its database.
pub fn db_path(home: Option<&str>) -> (r: String)
    ensures
        r@ == db_path_text(
            match home {
                Some(h) => Some(h@),
                None => None,
            },
        ),
{
    let base: &str = match home {
        Some(h) => h,
        None => ".",
    };
    concat(base, "/Library/Application Support/com.protonmail.client/protonmail.db")
}

} // verus!
