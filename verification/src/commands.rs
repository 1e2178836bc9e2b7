//! What the vault's commands decide and compute. Reading and writing the
//! vault file, the clipboard and the network belong to the application that
//! calls these; each command here leaves the state as the command leaves it
//! in memory, and the caller then persists it.

use vstd::prelude::*;

use crate::crypto::{derived_key, password_len_ok, payload_salt, payload_salt_of, VaultKey};
use crate::otp::{
    cleaned, has_code, lemma_valid_secret_has_codes, secret_check, secret_is_valid, OtpGenerator,
};
use crate::primitives::{new_uuid, parse_two_fas, two_fas_services, unicode_uppercase};
use crate::state::{
    apps_view, find_by_id, has_id, renamed_first, without_id, AppState, AppStateView,
};
use crate::primitives::{percent_decoded, url_decode};
use crate::text::{
    chars_of, find_char, find_in, is_blank, skip_class, str_eq, string_of, trim, trim_text, word_len,
    ws_len,
};
use crate::types::{
    services_view, AppError, ErrorView, OtpApp, OtpAppView,
    TwoFasService,
};

verus! {

/// Whether a vault exists: it is unlocked in memory or its file is on disk.
pub fn has_master_password(state: &AppState, vault_file_exists: bool) -> (r: bool)
    ensures
        r == (state@.unlocked || vault_file_exists),
{
    if state.has_master_password() {
        return true;
    }
    vault_file_exists
}

/// The key to save the vault with, or `NoMasterPassword` while it is locked.
pub fn require_encryption_key(state: &AppState) -> (r: Result<VaultKey, AppError>)
    ensures
        state@.encryption_key matches Some(k) ==> (r matches Ok(key) && key@ == k),
        state@.encryption_key is None ==> (r matches Err(e) && e@ == ErrorView::NoMasterPassword),
{
    match state.get_encryption_key() {
        Some(k) => Ok(k),
        None => Err(AppError::NoMasterPassword),
    }
}

/// What unlocking asks of the caller next.
pub enum UnlockStep {
    /// There was no vault; this password established one, already in the state.
    Created,
    /// Load the stored apps with `key`, then store the key and the apps in the
    /// state; `migrate` asks to rewrite a pre-v2 vault in the current format.
    Load { key: VaultKey, migrate: bool },
}

/// Unlock the vault whose stored payload is `payload` (`None`: no vault yet).
///
/// Without a vault, this password establishes one with a fresh salt. A v2
/// vault's key is derived with the salt it carries; a pre-v2 one gets a fresh
/// salt and is to be migrated. Decrypting the apps with the key is the
/// password check, and is the caller's next step.
pub fn unlock_vault(password: &str, payload: Option<&str>, state: &mut AppState) -> (r: Result<UnlockStep, AppError>)
    ensures
        r is Err ==> final(state)@ == old(state)@,
        payload is None ==> {
            &&& password_len_ok(password@) ==> r is Ok
            &&& r is Ok ==> {
                &&& r matches Ok(UnlockStep::Created)
                &&& exists|k: crate::crypto::VaultKeyView|
                    k == derived_key(password@, k.salt) && k.salt.len() == 16 && final(state)@ == (
                    AppStateView {
                        apps: Seq::<OtpAppView>::empty(),
                        encryption_key: Some(k),
                        unlocked: true,
                        ..old(state)@
                    })
            }
        },
        payload matches Some(p) ==> {
            &&& final(state)@ == old(state)@
            &&& match payload_salt_of(p@) {
                Err(e) => r matches Err(x) && x@ == e,
                Ok(Some(salt)) => {
                    &&& password_len_ok(password@) ==> r is Ok
                    &&& r is Ok ==> (r matches Ok(UnlockStep::Load { key, migrate }) && key@
                        == derived_key(password@, salt) && !migrate)
                },
                Ok(None) => {
                    &&& password_len_ok(password@) ==> r is Ok
                    &&& r is Ok ==> (r matches Ok(UnlockStep::Load { key, migrate }) && key@
                        == derived_key(password@, key@.salt) && key@.salt.len() == 16 && migrate)
                },
            }
        },
{
    match payload {
        None => {
            let key = VaultKey::new_vault(password)?;
            state.set_encryption_key(key);
            let empty: Vec<OtpApp> = Vec::new();
            assert(apps_view(empty@) =~= Seq::<OtpAppView>::empty());
            state.set_apps(empty);
            Ok(UnlockStep::Created)
        },
        Some(p) => {
            match payload_salt(p)? {
                Some(salt) => {
                    let key = VaultKey::derive(password, salt)?;
                    Ok(UnlockStep::Load { key, migrate: false })
                },
                None => {
                    let key = VaultKey::new_vault(password)?;
                    Ok(UnlockStep::Load { key, migrate: true })
                },
            }
        },
    }
}

/// The app that `add_app` stores for a name and a secret under an id: the
/// trimmed name and the trimmed, uppercased secret.
pub open spec fn new_app(id: Seq<char>, name: Seq<char>, secret: Seq<char>) -> OtpAppView {
    OtpAppView { id, name: trim_text(name), secret: unicode_uppercase(trim_text(secret)) }
}

/// Why `add_app` refuses a name and a secret, if it does.
pub open spec fn add_app_rejection(name: Seq<char>, secret: Seq<char>) -> Option<ErrorView> {
    if trim_text(name).len() == 0 {
        Some(ErrorView::InvalidSecret("App name cannot be empty"@))
    } else if trim_text(secret).len() == 0 {
        Some(ErrorView::InvalidSecret("Secret cannot be empty"@))
    } else {
        match secret_check(secret) {
            Err(e) => Some(e),
            Ok(()) => None,
        }
    }
}

/// Add an app: the name and secret must be non-blank and the secret valid
/// base32; a code is generated once as a check; the app gets a fresh id.
pub fn add_app(name: &str, secret: &str, state: &mut AppState) -> (r: Result<(), AppError>)
    ensures
        add_app_rejection(name@, secret@) matches Some(e) ==> (r matches Err(x) && x@ == e),
        add_app_rejection(name@, secret@) is None ==> (r matches Err(x) ==> exists|m: Seq<char>|
            x@ == ErrorView::InvalidSecret("Failed to generate code: "@ + m)),
        r is Err ==> final(state)@ == old(state)@,
        r is Ok ==> exists|id: Seq<char>|
            id.len() == 36 && final(state)@ == (AppStateView {
                apps: old(state)@.apps.push(new_app(id, name@, secret@)),
                ..old(state)@
            }),
{
    if is_blank(name) {
        return Err(AppError::InvalidSecret(String::from_str("App name cannot be empty")));
    }
    if is_blank(secret) {
        return Err(AppError::InvalidSecret(String::from_str("Secret cannot be empty")));
    }
    let otp_generator = OtpGenerator::new();
    otp_generator.validate_secret(secret)?;
    proof {
        lemma_valid_secret_has_codes(secret@, 0);
    }
    let _test_code = match otp_generator.generate_code(secret) {
        Ok(code) => code,
        Err(e) => return Err(e),
    };
    let id = new_uuid();
    let app = OtpApp {
        id,
        name: String::from_str(trim(name)),
        secret: crate::primitives::str_to_uppercase(trim(secret)),
    };
    state.add_app(app);
    Ok(())
}

/// Rename an app; `AppNotFound` when no app has the id.
pub fn edit_app_name(id: &str, new_name: String, state: &mut AppState) -> (r: Result<(), AppError>)
    ensures
        r is Ok <==> has_id(old(state)@.apps, id@),
        r matches Err(e) ==> e@ == ErrorView::AppNotFound,
        final(state)@ == (AppStateView {
            apps: renamed_first(old(state)@.apps, id@, new_name@),
            ..old(state)@
        }),
{
    if !state.update_app_name(id, new_name) {
        return Err(AppError::AppNotFound);
    }
    Ok(())
}

/// Delete every app with the id; `AppNotFound` when none has it.
pub fn delete_app(app_id: &str, state: &mut AppState) -> (r: Result<(), AppError>)
    ensures
        r is Ok <==> has_id(old(state)@.apps, app_id@),
        r matches Err(e) ==> e@ == ErrorView::AppNotFound,
        final(state)@ == (AppStateView { apps: without_id(old(state)@.apps, app_id@), ..old(state)@ }),
{
    if !state.remove_app(app_id) {
        return Err(AppError::AppNotFound);
    }
    Ok(())
}

/// The current code of the app with this id.
///
/// `AppNotFound` exactly when no app has the id; otherwise the result is that
/// of `OtpGenerator::generate_code` on the app's stored secret.
pub fn generate_otp(app_id: &str, state: &AppState) -> (r: Result<String, AppError>)
    ensures
        find_by_id(state@.apps, app_id@) is None <==> (r matches Err(e) && e@
            == ErrorView::AppNotFound),
        find_by_id(state@.apps, app_id@) is Some ==> {
            let secret = find_by_id(state@.apps, app_id@)->0.secret;
            &&& cleaned(secret).len() == 0 ==> (r matches Err(e) && e@ == ErrorView::InvalidSecret(
                "Empty secret"@,
            ))
            &&& cleaned(secret).len() > 0 && !has_code(secret) ==> (r matches Err(e) && exists|
                m: Seq<char>,
            | e@ == ErrorView::InvalidSecret("Invalid Base32 secret: "@ + m))
            &&& has_code(secret) ==> (r matches Err(e) ==> exists|m: Seq<char>|
                e@ == ErrorView::InvalidSecret("Failed to generate code: "@ + m))
        },
        r matches Ok(code) ==> exists|t: u64|
            Some(code@) == crate::otp::code_at(find_by_id(state@.apps, app_id@)->0.secret, t),
{
    let app = match state.get_app_by_id(app_id) {
        Some(app) => app,
        None => return Err(AppError::AppNotFound),
    };
    let otp_generator = OtpGenerator::new();
    let r = otp_generator.generate_code(app.secret.as_str());
    proof {
        if let Ok(code) = &r {
            let t = choose|t: u64| Some(code@) == crate::otp::code_at(app.secret@, t);
            assert(Some(code@) == crate::otp::code_at(find_by_id(state@.apps, app_id@)->0.secret, t));
        }
    }
    r
}

/// The entries of a 2FAS list that are imported: those with a string name and
/// a valid secret, as (name, secret), in order.
pub open spec fn importable(s: Seq<(Option<Seq<char>>, Option<Seq<char>>)>) -> Seq<(Seq<char>, Seq<char>)>
    decreases s.len(),
{
    if s.len() == 0 {
        Seq::empty()
    } else {
        let rest = importable(s.drop_last());
        match s.last() {
            (Some(name), Some(secret)) => if secret_is_valid(secret) {
                rest.push((name, secret))
            } else {
                rest
            },
            _ => rest,
        }
    }
}

/// An import takes exactly the entries that have a name and a secret that
/// validation accepts, all of them and in order, as (name, secret).
pub proof fn lemma_importable_is_every_valid_entry(s: Seq<(Option<Seq<char>>, Option<Seq<char>>)>)
    ensures
        importable(s) == s.filter_map(
            |e: (Option<Seq<char>>, Option<Seq<char>>)|
                if e.0 is Some && e.1 is Some && secret_is_valid(e.1->0) {
                    Some((e.0->0, e.1->0))
                } else {
                    None
                },
        ),
        forall|i: int|
            0 <= i < s.len() && (#[trigger] s[i]).0 is Some && s[i].1 is Some && secret_is_valid(
                s[i].1->0,
            ) ==> importable(s).contains((s[i].0->0, s[i].1->0)),
    decreases s.len(),
{
    if s.len() > 0 {
        let rest = s.drop_last();
        lemma_importable_is_every_valid_entry(rest);
        assert forall|i: int|
            0 <= i < s.len() && (#[trigger] s[i]).0 is Some && s[i].1 is Some && secret_is_valid(
                s[i].1->0,
            ) implies importable(s).contains((s[i].0->0, s[i].1->0)) by {
            let e = (s[i].0->0, s[i].1->0);
            if i < s.len() - 1 {
                assert(rest[i] == s[i]);
                assert(importable(rest).contains(e));
                let k = choose|k: int| 0 <= k < importable(rest).len() && importable(rest)[k] == e;
                assert(importable(s)[k] == e);
            } else {
                assert(s.last() == s[i]);
                assert(importable(s)[importable(rest).len() as int] == e);
            }
        }
    }
}

/// `added` holds one app per entry, in order, with the entry's name and secret
/// as given and a fresh 36-character id.
pub open spec fn imported_as(added: Seq<OtpAppView>, entries: Seq<(Seq<char>, Seq<char>)>) -> bool {
    &&& added.len() == entries.len()
    &&& forall|i: int|
        0 <= i < added.len() ==> (#[trigger] added[i]).name == entries[i].0 && added[i].secret
            == entries[i].1 && added[i].id.len() == 36
}

/// Every entry that an import takes has a secret that validation accepts.
pub proof fn lemma_imported_secrets_valid(s: Seq<(Option<Seq<char>>, Option<Seq<char>>)>)
    ensures
        forall|i: int| 0 <= i < importable(s).len() ==> secret_is_valid(#[trigger] importable(s)[i].1),
    decreases s.len(),
{
    if s.len() > 0 {
        let rest = importable(s.drop_last());
        lemma_imported_secrets_valid(s.drop_last());
        assert forall|i: int| 0 <= i < importable(s).len() implies secret_is_valid(
            #[trigger] importable(s)[i].1,
        ) by {
            if i < rest.len() {
                assert(secret_is_valid(rest[i].1));
                assert(importable(s)[i] == rest[i]);
            }
        }
    }
}

/// Add every service with a name and a valid secret; the count of those added.
pub fn import_services(services: &Vec<TwoFasService>, state: &mut AppState) -> (count: usize)
    ensures
        count == importable(services_view(services@)).len(),
        final(state)@.apps.take(old(state)@.apps.len() as int) == old(state)@.apps,
        final(state)@.apps.len() == old(state)@.apps.len() + count,
        imported_as(
            final(state)@.apps.skip(old(state)@.apps.len() as int),
            importable(services_view(services@)),
        ),
        final(state)@ == (AppStateView { apps: final(state)@.apps, ..old(state)@ }),
{
    let ghost n0 = old(state)@.apps.len() as int;
    let ghost sv = services_view(services@);
    let otp_generator = OtpGenerator::new();
    let mut count: usize = 0;
    let mut i: usize = 0;
    while i < services.len()
        invariant
            i <= services@.len(),
            n0 == old(state)@.apps.len(),
            sv == services_view(services@),
            count <= i,
            count == importable(sv.take(i as int)).len(),
            state@.apps.len() == n0 + count,
            state@.apps.take(n0) == old(state)@.apps,
            imported_as(state@.apps.skip(n0), importable(sv.take(i as int))),
            state@ == (AppStateView { apps: state@.apps, ..old(state)@ }),
        decreases services@.len() - i,
    {
        let ghost before = state@.apps;
        assert(sv.take(i + 1).drop_last() =~= sv.take(i as int));
        assert(sv.take(i + 1).last() == sv[i as int]);
        let service = &services[i];
        match (&service.name, &service.secret) {
            (Some(name), Some(secret)) => {
                if otp_generator.validate_secret(secret.as_str()).is_ok() {
                    let app = OtpApp {
                        id: new_uuid(),
                        name: name.clone(),
                        secret: secret.clone(),
                    };
                    let ghost av = app@;
                    state.add_app(app);
                    proof {
                        assert(state@.apps =~= before.push(av));
                        assert(before.len() == n0 + count);
                        assert forall|j: int| 0 <= j < n0 implies state@.apps[j] == before[j] by {
                            assert(state@.apps[j] == before.push(av)[j]);
                        }
                        assert(state@.apps.take(n0) =~= before.take(n0));
                        let e = importable(sv.take(i + 1));
                        assert(e =~= importable(sv.take(i as int)).push((name@, secret@)));
                        let added = state@.apps.skip(n0);
                        assert forall|j: int| 0 <= j < added.len() implies added[j] == before.skip(
                            n0,
                        ).push(av)[j] by {
                            assert(added[j] == state@.apps[n0 + j]);
                            assert(state@.apps[n0 + j] == before.push(av)[n0 + j]);
                        }
                        assert(added =~= before.skip(n0).push(av));
                        assert forall|j: int| 0 <= j < added.len() implies (#[trigger] added[j]).name
                            == e[j].0 && added[j].secret == e[j].1 && added[j].id.len() == 36 by {
                            if j < added.len() - 1 {
                                assert(added[j] == before.skip(n0)[j]);
                            }
                        }
                    }
                    count = count + 1;
                }
            },
            _ => {},
        }
        i = i + 1;
    }
    assert(sv.take(services@.len() as int) =~= sv);
    count
}

/// Import the services of a 2FAS backup file; the count of apps added.
pub fn import_2fas_file(file_content: &str, state: &mut AppState) -> (r: Result<usize, AppError>)
    ensures
        two_fas_services(file_content@) is None ==> (r matches Err(e) && e@ is Serialization),
        two_fas_services(file_content@) == Some(
            None::<Seq<(Option<Seq<char>>, Option<Seq<char>>)>>,
        ) ==> (r matches Err(e) && e@ == ErrorView::Serialization("Invalid 2FAS file format"@)),
        r is Err ==> final(state)@ == old(state)@,
        two_fas_services(file_content@) matches Some(Some(entries)) ==> {
            &&& r matches Ok(count) && count == importable(entries).len()
            &&& final(state)@.apps.take(old(state)@.apps.len() as int) == old(state)@.apps
            &&& imported_as(final(state)@.apps.skip(old(state)@.apps.len() as int), importable(entries))
            &&& final(state)@ == (AppStateView { apps: final(state)@.apps, ..old(state)@ })
        },
{
    let services = match parse_two_fas(file_content) {
        Ok(Some(services)) => services,
        Ok(None) => return Err(AppError::Serialization(String::from_str("Invalid 2FAS file format"))),
        Err(e) => {
            let text = e.to_string();
            return Err(AppError::Serialization(text));
        },
    };
    Ok(import_services(&services, state))
}

/// Claim the sync slot: false, with nothing changed, while a sync is already
/// running; otherwise mark one as running and return true.
pub fn try_begin_sync(state: &mut AppState) -> (r: bool)
    ensures
        r == !old(state)@.syncing,
        final(state)@ == (AppStateView { syncing: true, ..old(state)@ }),
{
    if state.is_syncing() {
        return false;
    }
    state.set_syncing(true);
    true
}

/// Whether some app of the list has this id.
pub fn contains_id(apps: &Vec<OtpApp>, id: &str) -> (r: bool)
    ensures
        r == has_id(apps_view(apps@), id@),
{
    let ghost v = apps_view(apps@);
    let mut i: usize = 0;
    while i < apps.len()
        invariant
            i <= apps@.len(),
            v == apps_view(apps@),
            forall|j: int| 0 <= j < i ==> v[j].id != id@,
        decreases apps@.len() - i,
    {
        if str_eq(apps[i].id.as_str(), id) {
            assert(v[i as int].id == id@);
            return true;
        }
        i = i + 1;
    }
    false
}

/// The local apps followed by each cloud app whose id is not yet present.
pub open spec fn merged(local: Seq<OtpAppView>, cloud: Seq<OtpAppView>) -> Seq<OtpAppView>
    decreases cloud.len(),
{
    if cloud.len() == 0 {
        local
    } else {
        let m = merged(local, cloud.drop_last());
        if has_id(m, cloud.last().id) {
            m
        } else {
            m.push(cloud.last())
        }
    }
}

/// Merge apps from the cloud into the local ones: local apps are kept as they
/// are, and a cloud app is added only when no app has its id yet.
pub fn merge_cloud_apps(local: Vec<OtpApp>, cloud: Vec<OtpApp>) -> (r: Vec<OtpApp>)
    ensures
        apps_view(r@) == merged(apps_view(local@), apps_view(cloud@)),
{
    let ghost lv = apps_view(local@);
    let ghost cv = apps_view(cloud@);
    let mut current = local;
    let mut i: usize = 0;
    while i < cloud.len()
        invariant
            i <= cloud@.len(),
            cv == apps_view(cloud@),
            apps_view(current@) == merged(lv, cv.take(i as int)),
        decreases cloud@.len() - i,
    {
        assert(cv.take(i + 1).drop_last() =~= cv.take(i as int));
        assert(cv.take(i + 1).last() == cv[i as int]);
        if !contains_id(&current, cloud[i].id.as_str()) {
            let ghost prev = current@;
            current.push(cloud[i].duplicate());
            assert(apps_view(current@) =~= apps_view(prev).push(cv[i as int]));
        }
        i = i + 1;
    }
    assert(cv.take(cloud@.len() as int) =~= cv);
    current
}

/// What to do once the cloud copy has been read at sign-in.
pub enum SyncAction {
    /// Replace the local apps with these (the local ones merged with the
    /// cloud's), then save the vault.
    Merge(Vec<OtpApp>),
    /// The cloud is empty: upload these local apps.
    Upload(Vec<OtpApp>),
    /// Nothing to do: both sides are empty, or the cloud could not be read.
    Nothing,
}

/// Decide the first sync after signing in. `cloud` is the cloud's list, or
/// `None` when reading it failed; a failed read is no error here.
pub fn cloud_sync_action(local: Vec<OtpApp>, cloud: Option<Vec<OtpApp>>) -> (r: SyncAction)
    ensures
        match cloud {
            None => r is Nothing,
            Some(c) => if c@.len() > 0 {
                r matches SyncAction::Merge(m) && apps_view(m@) == merged(
                    apps_view(local@),
                    apps_view(c@),
                )
            } else if local@.len() > 0 {
                r matches SyncAction::Upload(u) && apps_view(u@) == apps_view(local@)
            } else {
                r is Nothing
            },
        },
{
    match cloud {
        None => SyncAction::Nothing,
        Some(c) => {
            if c.len() > 0 {
                SyncAction::Merge(merge_cloud_apps(local, c))
            } else if local.len() > 0 {
                SyncAction::Upload(local)
            } else {
                SyncAction::Nothing
            }
        },
    }
}

/// No two apps share an id.
pub open spec fn ids_distinct(apps: Seq<OtpAppView>) -> bool {
    forall|i: int, j: int| 0 <= i < j < apps.len() ==> apps[i].id != apps[j].id
}

/// Merging never introduces a duplicate id: if the local ids are distinct, so
/// are the merged ones.
pub proof fn lemma_merge_keeps_ids_distinct(local: Seq<OtpAppView>, cloud: Seq<OtpAppView>)
    requires
        ids_distinct(local),
    ensures
        ids_distinct(merged(local, cloud)),
    decreases cloud.len(),
{
    if cloud.len() > 0 {
        lemma_merge_keeps_ids_distinct(local, cloud.drop_last());
        let m = merged(local, cloud.drop_last());
        let c = cloud.last();
        if !has_id(m, c.id) {
            let r = m.push(c);
            assert forall|i: int, j: int| 0 <= i < j < r.len() implies r[i].id != r[j].id by {
                if j == m.len() {
                    assert(r[i] == m[i]);
                    assert(m[i].id != c.id);
                } else {
                    assert(r[i] == m[i] && r[j] == m[j]);
                }
            }
        }
    }
}

/// Merging keeps every local app in place, ends up holding every cloud id,
/// and adds nothing that came from neither side.
pub proof fn lemma_merge_law(local: Seq<OtpAppView>, cloud: Seq<OtpAppView>)
    ensures
        merged(local, cloud).take(local.len() as int) == local,
        merged(local, cloud).len() >= local.len(),
        forall|i: int| 0 <= i < cloud.len() ==> has_id(merged(local, cloud), #[trigger] cloud[i].id),
        forall|i: int|
            0 <= i < merged(local, cloud).len() ==> local.contains(#[trigger] merged(local, cloud)[i])
                || cloud.contains(merged(local, cloud)[i]),
    decreases cloud.len(),
{
    if cloud.len() == 0 {
        assert(local.take(local.len() as int) =~= local);
    } else {
        let rest = cloud.drop_last();
        lemma_merge_law(local, rest);
        let m = merged(local, rest);
        let r = merged(local, cloud);
        let c = cloud.last();
        if !has_id(m, c.id) {
            assert(r.take(local.len() as int) =~= m.take(local.len() as int));
        }
        assert forall|i: int| 0 <= i < cloud.len() implies has_id(r, #[trigger] cloud[i].id) by {
            if i < cloud.len() - 1 {
                assert(rest[i] == cloud[i]);
                let k = choose|k: int| 0 <= k < m.len() && #[trigger] m[k].id == rest[i].id;
                assert(r[k] == m[k]);
            } else if has_id(m, c.id) {
                let k = choose|k: int| 0 <= k < m.len() && #[trigger] m[k].id == c.id;
                assert(r[k] == m[k]);
            } else {
                assert(r[m.len() as int] == c);
            }
        }
        assert forall|i: int| 0 <= i < r.len() implies local.contains(#[trigger] r[i]) || cloud.contains(
            r[i],
        ) by {
            if i < m.len() {
                assert(r[i] == m[i]);
                if rest.contains(m[i]) {
                    let k = choose|k: int| 0 <= k < rest.len() && rest[k] == m[i];
                    assert(cloud[k] == rest[k]);
                }
            } else {
                assert(r[i] == c);
                assert(cloud[cloud.len() - 1] == c);
            }
        }
    }
}

/// The first line of a text (up to, not including, the first line feed).
pub open spec fn first_line(s: Seq<char>) -> Seq<char> {
    s.take(find_char(s, '\n') as int)
}

/// The second white-space-separated word of a line, if it has two.
pub open spec fn second_word(line: Seq<char>) -> Option<Seq<char>> {
    let rest = line.skip(ws_len(line) as int);
    let w1 = word_len(rest);
    if w1 == 0 {
        None
    } else {
        let rest2 = rest.skip(w1 as int);
        let rest3 = rest2.skip(ws_len(rest2) as int);
        let w2 = word_len(rest3);
        if w2 == 0 {
            None
        } else {
            Some(rest3.take(w2 as int))
        }
    }
}

/// The query string of an HTTP request: what follows the first `?` of the
/// request target ("GET /?code=...&state=... HTTP/1.1").
pub open spec fn query_of(request: Seq<char>) -> Option<Seq<char>> {
    match second_word(first_line(request)) {
        None => None,
        Some(target) => {
            let i = find_char(target, '?');
            if i == target.len() {
                None
            } else {
                Some(target.skip(i + 1int))
            }
        },
    }
}

/// A percent-decoded text, or the empty text when it does not decode.
pub open spec fn decoded_or_empty(s: Seq<char>) -> Seq<char> {
    match percent_decoded(s) {
        Some(d) => d,
        None => Seq::empty(),
    }
}

/// The key and value of one `key=value` piece, decoded; none without `=`.
pub open spec fn piece_pair(piece: Seq<char>) -> Option<(Seq<char>, Seq<char>)> {
    let k = find_char(piece, '=');
    if k == piece.len() {
        None
    } else {
        Some((decoded_or_empty(piece.take(k as int)), decoded_or_empty(piece.skip(k + 1int))))
    }
}

/// The decoded pairs of a query string split on `&`, in order.
pub open spec fn query_pairs(q: Seq<char>) -> Seq<(Seq<char>, Seq<char>)>
    decreases q.len(),
{
    let i = find_char(q, '&');
    let rest = if i < q.len() {
        query_pairs(q.skip(i + 1int))
    } else {
        Seq::empty()
    };
    match piece_pair(q.take(i as int)) {
        Some(p) => seq![p] + rest,
        None => rest,
    }
}

/// The parameters of a redirect request, in order of appearance.
pub open spec fn callback_pairs(request: Seq<char>) -> Seq<(Seq<char>, Seq<char>)> {
    match query_of(request) {
        None => Seq::empty(),
        Some(q) => query_pairs(q),
    }
}

/// One decoded query parameter.
pub struct QueryParam {
    pub key: String,
    pub value: String,
}

/// Parameters, by views.
pub open spec fn params_view(p: Seq<QueryParam>) -> Seq<(Seq<char>, Seq<char>)> {
    p.map_values(|x: QueryParam| (x.key@, x.value@))
}

/// The value a parameter list gives a key: that of its last occurrence, as a
/// map filled in order would hold it.
pub open spec fn lookup_last(ps: Seq<(Seq<char>, Seq<char>)>, key: Seq<char>) -> Option<Seq<char>>
    decreases ps.len(),
{
    if ps.len() == 0 {
        None
    } else if ps.last().0 == key {
        Some(ps.last().1)
    } else {
        lookup_last(ps.drop_last(), key)
    }
}

/// A percent-decoded `String` of `chars[from..to]`, empty when it does not decode.
fn decode_range(chars: &Vec<char>, from: usize, to: usize) -> (r: String)
    requires
        from <= to <= chars@.len(),
    ensures
        r@ == decoded_or_empty(chars@.subrange(from as int, to as int)),
{
    let raw = string_of(chars, from, to);
    match url_decode(raw.as_str()) {
        Some(d) => d,
        None => String::new(),
    }
}

/// Parse the query string out of the first line of an HTTP request.
///
/// The redirect carries both `code` and `state`, so splitting on whitespace
/// alone is not enough: each parameter is separated and percent-decoded.
#[verifier::rlimit(40)]
pub fn parse_callback_query(request: &str) -> (r: Vec<QueryParam>)
    ensures
        params_view(r@) == callback_pairs(request@),
{
    let chars = chars_of(request);
    let n = chars.len();
    let mut out: Vec<QueryParam> = Vec::new();
    let line_end = find_in(&chars, 0, n, '\n');
    let ghost line = chars@.subrange(0, line_end as int);
    assert(chars@.subrange(0, n as int) =~= chars@);
    assert(line =~= first_line(request@));
    let a = skip_class(&chars, 0, line_end, true);
    let b = skip_class(&chars, a, line_end, false);
    assert(line.skip(a as int) =~= chars@.subrange(a as int, line_end as int));
    if a == b {
        assert(params_view(out@) =~= callback_pairs(request@));
        return out;
    }
    let c = skip_class(&chars, b, line_end, true);
    let d = skip_class(&chars, c, line_end, false);
    proof {
        let rest = line.skip(a as int);
        assert(rest.skip(b - a) =~= chars@.subrange(b as int, line_end as int));
        assert(rest.skip(b - a).skip(c - b) =~= chars@.subrange(c as int, line_end as int));
        assert(rest.skip(b - a).skip(c - b).take(d - c) =~= chars@.subrange(c as int, d as int));
    }
    if c == d {
        assert(params_view(out@) =~= callback_pairs(request@));
        return out;
    }
    assert(second_word(line) == Some(chars@.subrange(c as int, d as int)));
    let q = find_in(&chars, c, d, '?');
    if q == d {
        assert(params_view(out@) =~= callback_pairs(request@));
        return out;
    }
    let ghost query = chars@.subrange(q + 1, d as int);
    assert(chars@.subrange(c as int, d as int).skip(q - c + 1) =~= query);
    assert(query_of(request@) == Some(query));
    let mut p: usize = q + 1;
    let mut done = false;
    while !done
        invariant
            q + 1 <= p <= d,
            d <= chars@.len(),
            query == chars@.subrange(q + 1, d as int),
            !done ==> params_view(out@) + query_pairs(chars@.subrange(p as int, d as int))
                == query_pairs(query),
            done ==> params_view(out@) == query_pairs(query),
        decreases (d - p) + (if done {
            0int
        } else {
            1int
        }),
    {
        let ghost rest = chars@.subrange(p as int, d as int);
        let ghost before = params_view(out@);
        let e = find_in(&chars, p, d, '&');
        let k = find_in(&chars, p, e, '=');
        proof {
            assert(rest.take(e - p) =~= chars@.subrange(p as int, e as int));
            let piece = chars@.subrange(p as int, e as int);
            assert(piece.take(k - p) =~= chars@.subrange(p as int, k as int));
            if k < e {
                assert(piece.skip(k - p + 1) =~= chars@.subrange(k + 1, e as int));
            }
            if e < d {
                assert(rest.skip(e - p + 1) =~= chars@.subrange(e + 1, d as int));
            }
        }
        if k < e {
            let key = decode_range(&chars, p, k);
            let value = decode_range(&chars, k + 1, e);
            out.push(QueryParam { key, value });
            proof {
                let pair = (decoded_or_empty(chars@.subrange(p as int, k as int)), decoded_or_empty(chars@.subrange(k + 1, e as int)));
                assert(params_view(out@) =~= before.push(pair));
                if e < d {
                    let tail = query_pairs(chars@.subrange(e + 1, d as int));
                    assert(query_pairs(rest) == seq![pair] + tail);
                    assert(before.push(pair) + tail =~= before + (seq![pair] + tail));
                } else {
                    assert(query_pairs(rest) =~= seq![pair]);
                    assert(before.push(pair) =~= before + seq![pair]);
                }
            }
        } else {
            proof {
                if e == d {
                    assert(query_pairs(rest) =~= Seq::<(Seq<char>, Seq<char>)>::empty());
                    assert(before + Seq::<(Seq<char>, Seq<char>)>::empty() =~= before);
                }
            }
        }
        if e == d {
            done = true;
        } else {
            p = e + 1;
        }
    }
    out
}

/// The value of the last parameter named `key`.
pub fn param(params: &Vec<QueryParam>, key: &str) -> (r: Option<String>)
    ensures
        crate::types::opt_string(r) == lookup_last(params_view(params@), key@),
{
    let ghost v = params_view(params@);
    let mut i: usize = params.len();
    assert(v.take(i as int) =~= v);
    while i > 0
        invariant
            i <= params@.len(),
            v == params_view(params@),
            lookup_last(v, key@) == lookup_last(v.take(i as int), key@),
        decreases i,
    {
        assert(v.take(i as int).drop_last() =~= v.take(i - 1));
        assert(v.take(i as int).last() == v[i - 1]);
        if str_eq(params[i - 1].key.as_str(), key) {
            return Some(params[i - 1].value.clone());
        }
        i = i - 1;
    }
    assert(v.take(0) =~= Seq::<(Seq<char>, Seq<char>)>::empty());
    None
}

/// What the loopback listener does with one request.
pub enum CallbackOutcome {
    /// Not the redirect (no parameters, e.g. a favicon request): keep waiting.
    NotTheRedirect,
    /// The user denied access; the `error` parameter.
    Denied(String),
    /// The `state` parameter is not this attempt's: reject the request.
    StateMismatch,
    /// No `code` parameter: keep waiting.
    MissingCode,
    /// The authorization code to redeem.
    Code(String),
}

/// The decision for a parsed redirect, given this attempt's CSRF state.
///
/// A code is accepted only from a request that carries this attempt's state
/// and no `error`.
pub fn callback_outcome(params: &Vec<QueryParam>, expected_state: &str) -> (r: CallbackOutcome)
    ensures
        params@.len() == 0 ==> r is NotTheRedirect,
        params@.len() > 0 ==> match lookup_last(params_view(params@), "error"@) {
            Some(e) => r matches CallbackOutcome::Denied(x) && x@ == e,
            None => if lookup_last(params_view(params@), "state"@) != Some(expected_state@) {
                r is StateMismatch
            } else {
                match lookup_last(params_view(params@), "code"@) {
                    None => r is MissingCode,
                    Some(c) => r matches CallbackOutcome::Code(x) && x@ == c,
                }
            },
        },
        r is Code ==> lookup_last(params_view(params@), "state"@) == Some(expected_state@)
            && lookup_last(params_view(params@), "error"@) is None,
{
    if params.len() == 0 {
        return CallbackOutcome::NotTheRedirect;
    }
    if let Some(error) = param(params, "error") {
        return CallbackOutcome::Denied(error);
    }
    match param(params, "state") {
        Some(st) => if !str_eq(st.as_str(), expected_state) {
            return CallbackOutcome::StateMismatch;
        },
        None => return CallbackOutcome::StateMismatch,
    }
    match param(params, "code") {
        Some(code) => CallbackOutcome::Code(code),
        None => CallbackOutcome::MissingCode,
    }
}

} // verus!
