use vstd::prelude::*;

use crate::error::PasswordError;
use crate::generate::{generate_password, has_all_classes, length_allowed, sampled};
use crate::store::{index_of, Password, PasswordStore, PasswordView, StoreView};

verus! {

/// Adds an entry for a new app with a generated password and gives back the
/// password so that it can be shown or copied. Fails with `AppExists` if an
/// entry has that name ignoring case, and then with `InvalidLength` outside
/// 4..=128. Gives `None` when `random` does not yield a suitable password (see
/// `generate_password`): the caller draws fresh bytes and calls again. The
/// store changes only when a password is returned.
pub fn callback_exec(
    store: &mut PasswordStore,
    app_name: &str,
    username: &str,
    alnum: bool,
    length: usize,
    random: &Vec<u8>,
    now: u64,
) -> (r: Result<Option<String>, PasswordError>)
    requires
        old(store)@.wf(),
    ensures
        final(store)@.wf(),
        index_of(old(store)@.entries, app_name@) is Some ==> r == Err::<Option<String>, PasswordError>(
            PasswordError::AppExists,
        ),
        index_of(old(store)@.entries, app_name@) is None && !length_allowed(length) ==> r == Err::<
            Option<String>,
            PasswordError,
        >(PasswordError::InvalidLength),
        index_of(old(store)@.entries, app_name@) is None && length_allowed(length) ==> (r matches Ok(o)
            && (o is Some <==> (sampled(alnum, random@).len() >= length && has_all_classes(
            sampled(alnum, random@).take(length as int),
        )))),
        !(r matches Ok(Some(_))) ==> final(store)@ == old(store)@,
        r matches Ok(Some(pw)) ==> {
            &&& pw@ == sampled(alnum, random@).take(length as int)
            &&& final(store)@ == (StoreView {
                entries: old(store)@.entries.push(
                    PasswordView {
                        name: app_name@,
                        username: username@,
                        password: pw@,
                        created_at: now,
                        updated_at: now,
                    },
                ),
                ..old(store)@
            })
        },
{
    if store.has_password(app_name) {
        return Err(PasswordError::AppExists);
    }
    let generated = match generate_password(alnum, length, random) {
        Err(e) => {
            return Err(e);
        },
        Ok(None) => {
            return Ok(None);
        },
        Ok(Some(pw)) => pw,
    };
    let shown = generated.clone();
    let entry = Password::new(app_name, username, generated, now);
    match store.add_password(entry) {
        Ok(()) => Ok(Some(shown)),
        Err(e) => Err(e),
    }
}

} // verus!
