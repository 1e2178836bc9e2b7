//! The in-memory state of an open (or locked) vault.

use vstd::prelude::*;

use crate::crypto::{VaultKey, VaultKeyView};
use crate::google_drive::{GoogleDriveAuth, GoogleDriveAuthView};
use crate::text::str_eq;
use crate::types::{OtpApp, OtpAppView};

verus! {

/// The apps of a vector, by views.
pub open spec fn apps_view(apps: Seq<OtpApp>) -> Seq<OtpAppView> {
    apps.map_values(|a: OtpApp| a@)
}

/// `i` is the first position of an app with this id.
pub open spec fn is_first_with_id(apps: Seq<OtpAppView>, id: Seq<char>, i: int) -> bool {
    &&& 0 <= i < apps.len()
    &&& apps[i].id == id
    &&& forall|j: int| 0 <= j < i ==> apps[j].id != id
}

/// Some app has this id.
pub open spec fn has_id(apps: Seq<OtpAppView>, id: Seq<char>) -> bool {
    exists|i: int| 0 <= i < apps.len() && #[trigger] apps[i].id == id
}

/// The app that a lookup by id finds: the first one with that id.
pub open spec fn find_by_id(apps: Seq<OtpAppView>, id: Seq<char>) -> Option<OtpAppView> {
    if has_id(apps, id) {
        Some(apps[choose|i: int| is_first_with_id(apps, id, i)])
    } else {
        None
    }
}

/// The apps without those that have this id, in order.
pub open spec fn without_id(apps: Seq<OtpAppView>, id: Seq<char>) -> Seq<OtpAppView>
    decreases apps.len(),
{
    if apps.len() == 0 {
        apps
    } else if apps.last().id == id {
        without_id(apps.drop_last(), id)
    } else {
        without_id(apps.drop_last(), id).push(apps.last())
    }
}

/// The apps with the first one that has this id renamed.
pub open spec fn renamed_first(apps: Seq<OtpAppView>, id: Seq<char>, name: Seq<char>) -> Seq<OtpAppView> {
    if has_id(apps, id) {
        let i = choose|i: int| is_first_with_id(apps, id, i);
        apps.update(i, OtpAppView { name, ..apps[i] })
    } else {
        apps
    }
}

/// After removing an id, no app has it, every app left is one of the
/// apps before, and the apps without that id are all still there, in order.
pub proof fn lemma_remove_law(apps: Seq<OtpAppView>, id: Seq<char>)
    ensures
        !has_id(without_id(apps, id), id),
        forall|i: int| 0 <= i < without_id(apps, id).len() ==> apps.contains(#[trigger] without_id(apps, id)[i]),
        !has_id(apps, id) ==> without_id(apps, id) == apps,
        without_id(apps, id) == apps.filter(|a: OtpAppView| a.id != id),
    decreases apps.len(),
{
    lemma_remove_keeps_other_ids(apps, id);
    if apps.len() > 0 {
        let rest = apps.drop_last();
        lemma_remove_law(rest, id);
        let w = without_id(apps, id);
        let wr = without_id(rest, id);
        assert forall|i: int| 0 <= i < w.len() implies apps.contains(#[trigger] w[i]) by {
            if i < wr.len() {
                assert(rest.contains(wr[i]));
                let k = choose|k: int| 0 <= k < rest.len() && rest[k] == wr[i];
                assert(apps[k] == rest[k]);
            } else {
                assert(w[i] == apps.last());
                assert(apps[apps.len() - 1] == apps.last());
            }
        }
        if has_id(w, id) {
            let k = choose|k: int| 0 <= k < w.len() && #[trigger] w[k].id == id;
            if k < wr.len() {
                assert(wr[k].id == id);
            }
        }
        if !has_id(apps, id) {
            assert(!has_id(rest, id)) by {
                if has_id(rest, id) {
                    let k = choose|k: int| 0 <= k < rest.len() && #[trigger] rest[k].id == id;
                    assert(apps[k].id == id);
                }
            }
            assert(apps[apps.len() - 1].id != id);
            assert(rest.push(apps.last()) =~= apps);
        }
    }
}

/// Removing an id keeps exactly the apps whose id differs, in their order:
/// it is the filter of the apps by `id != removed id`.
pub proof fn lemma_remove_keeps_other_ids(apps: Seq<OtpAppView>, id: Seq<char>)
    ensures
        without_id(apps, id) == apps.filter(|a: OtpAppView| a.id != id),
    decreases apps.len(),
{
    reveal(Seq::filter);
    if apps.len() > 0 {
        lemma_remove_keeps_other_ids(apps.drop_last(), id);
    }
}

/// A lookup by id after renaming that id finds the renamed app: same id and
/// secret, the new name. Nothing else changes length.
pub proof fn lemma_rename_law(apps: Seq<OtpAppView>, id: Seq<char>, name: Seq<char>)
    requires
        has_id(apps, id),
    ensures
        renamed_first(apps, id, name).len() == apps.len(),
        find_by_id(renamed_first(apps, id, name), id) == Some(
            OtpAppView { name, ..find_by_id(apps, id)->0 },
        ),
{
    let i = choose|i: int| is_first_with_id(apps, id, i);
    lemma_first_exists(apps, id);
    let r = renamed_first(apps, id, name);
    assert(is_first_with_id(r, id, i));
    assert(has_id(r, id));
    let k = choose|k: int| is_first_with_id(r, id, k);
    assert(k == i) by {
        if k < i {
            assert(r[k] == apps[k]);
        }
        if i < k {
            assert(r[i].id == id);
        }
    }
}

/// Some app has the id exactly when there is a first one with it.
pub proof fn lemma_first_exists(apps: Seq<OtpAppView>, id: Seq<char>)
    requires
        has_id(apps, id),
    ensures
        exists|i: int| is_first_with_id(apps, id, i),
    decreases apps.len(),
{
    if apps[0].id == id {
        assert(is_first_with_id(apps, id, 0));
    } else {
        let rest = apps.drop_first();
        let k = choose|k: int| 0 <= k < apps.len() && #[trigger] apps[k].id == id;
        assert(rest[k - 1].id == id);
        lemma_first_exists(rest, id);
        let j = choose|j: int| is_first_with_id(rest, id, j);
        assert forall|m: int| 0 <= m < j + 1 implies apps[m].id != id by {
            if m > 0 {
                assert(apps[m] == rest[m - 1]);
            }
        }
        assert(is_first_with_id(apps, id, j + 1));
    }
}

/// An app added under an id that no other app has is what a lookup by that
/// id finds.
pub proof fn lemma_add_law(apps: Seq<OtpAppView>, app: OtpAppView)
    requires
        !has_id(apps, app.id),
    ensures
        find_by_id(apps.push(app), app.id) == Some(app),
{
    let a = apps.push(app);
    let n = apps.len() as int;
    assert(is_first_with_id(a, app.id, n)) by {
        assert forall|j: int| 0 <= j < n implies a[j].id != app.id by {
            assert(a[j] == apps[j]);
        }
    }
    assert(a[n].id == app.id);
    assert(has_id(a, app.id));
    let k = choose|k: int| is_first_with_id(a, app.id, k);
    assert(k == n) by {
        if k < n {
            assert(a[k] == apps[k]);
        }
    }
}

/// The state of the vault.
pub struct AppState {
    apps: Vec<OtpApp>,
    /// Whether the vault is unlocked. The master password itself is never
    /// retained, only the key derived from it.
    unlocked: bool,
    encryption_key: Option<VaultKey>,
    google_auth: Option<GoogleDriveAuth>,
    syncing: bool,
}

/// What an `AppState` holds.
pub struct AppStateView {
    pub apps: Seq<OtpAppView>,
    pub unlocked: bool,
    pub encryption_key: Option<VaultKeyView>,
    pub google_auth: Option<GoogleDriveAuthView>,
    pub syncing: bool,
}

/// An optional key, by view.
pub open spec fn key_view(k: Option<VaultKey>) -> Option<VaultKeyView> {
    match k {
        Some(k) => Some(k@),
        None => None,
    }
}

/// An optional Drive authorization, by view.
pub open spec fn auth_view(a: Option<GoogleDriveAuth>) -> Option<GoogleDriveAuthView> {
    match a {
        Some(a) => Some(a@),
        None => None,
    }
}

/// An optional app, by view.
pub open spec fn app_view(a: Option<OtpApp>) -> Option<OtpAppView> {
    match a {
        Some(a) => Some(a@),
        None => None,
    }
}

impl View for AppState {
    type V = AppStateView;

    closed spec fn view(&self) -> AppStateView {
        AppStateView {
            apps: apps_view(self.apps@),
            unlocked: self.unlocked,
            encryption_key: key_view(self.encryption_key),
            google_auth: auth_view(self.google_auth),
            syncing: self.syncing,
        }
    }
}

/// A call that changes an `AppState`, with its arguments by view.
pub enum StateCall {
    SetApps(Seq<OtpAppView>),
    AddApp(OtpAppView),
    RemoveApp(Seq<char>),
    UpdateAppName(Seq<char>, Seq<char>),
    SetEncryptionKey(VaultKeyView),
    SetGoogleAuth(Option<GoogleDriveAuthView>),
    SetSyncing(bool),
    ClearAll,
}

/// The state that `AppState::new` makes: no apps, locked, no key, no Drive
/// authorization, not syncing.
pub open spec fn fresh_state() -> AppStateView {
    AppStateView {
        apps: Seq::empty(),
        unlocked: false,
        encryption_key: None,
        google_auth: None,
        syncing: false,
    }
}

/// The state after one call.
pub open spec fn after_call(s: AppStateView, call: StateCall) -> AppStateView {
    match call {
        StateCall::SetApps(apps) => AppStateView { apps, ..s },
        StateCall::AddApp(app) => AppStateView { apps: s.apps.push(app), ..s },
        StateCall::RemoveApp(id) => AppStateView { apps: without_id(s.apps, id), ..s },
        StateCall::UpdateAppName(id, name) => AppStateView {
            apps: renamed_first(s.apps, id, name),
            ..s
        },
        StateCall::SetEncryptionKey(k) => AppStateView {
            encryption_key: Some(k),
            unlocked: true,
            ..s
        },
        StateCall::SetGoogleAuth(auth) => AppStateView { google_auth: auth, ..s },
        StateCall::SetSyncing(syncing) => AppStateView { syncing, ..s },
        StateCall::ClearAll => AppStateView {
            apps: Seq::empty(),
            unlocked: false,
            encryption_key: None,
            google_auth: None,
            syncing: s.syncing,
        },
    }
}

/// The state after the calls, in order.
pub open spec fn after_calls(s: AppStateView, calls: Seq<StateCall>) -> AppStateView
    decreases calls.len(),
{
    if calls.len() == 0 {
        s
    } else {
        after_call(after_calls(s, calls.drop_last()), calls.last())
    }
}

/// Some call stores a key, and no later call clears the state.
pub open spec fn key_set_since_clear(calls: Seq<StateCall>) -> bool {
    exists|i: int|
        0 <= i < calls.len() && #[trigger] calls[i] is SetEncryptionKey && forall|j: int|
            i < j < calls.len() ==> !(#[trigger] calls[j] is ClearAll)
}

/// From a fresh state, whatever calls follow, the vault is unlocked exactly
/// when a key was stored after the last `clear_all`, and exactly when a key
/// is held.
pub proof fn lemma_unlocked_history(calls: Seq<StateCall>)
    ensures
        after_calls(fresh_state(), calls).unlocked <==> key_set_since_clear(calls),
        after_calls(fresh_state(), calls).unlocked <==> after_calls(
            fresh_state(),
            calls,
        ).encryption_key is Some,
    decreases calls.len(),
{
    if calls.len() > 0 {
        let rest = calls.drop_last();
        let n = calls.len() - 1;
        lemma_unlocked_history(rest);
        match calls.last() {
            StateCall::SetEncryptionKey(_) => {
                assert(calls[n] is SetEncryptionKey);
            },
            StateCall::ClearAll => {
                if key_set_since_clear(calls) {
                    let i = choose|i: int|
                        0 <= i < calls.len() && #[trigger] calls[i] is SetEncryptionKey && forall|
                            j: int,
                        | i < j < calls.len() ==> !(#[trigger] calls[j] is ClearAll);
                    assert(calls[n] is ClearAll);
                    assert(i != n);
                }
            },
            _ => {
                assert(!(calls[n] is ClearAll) && !(calls[n] is SetEncryptionKey));
                if key_set_since_clear(calls) {
                    let i = choose|i: int|
                        0 <= i < calls.len() && #[trigger] calls[i] is SetEncryptionKey && forall|
                            j: int,
                        | i < j < calls.len() ==> !(#[trigger] calls[j] is ClearAll);
                    assert(i < n);
                    assert(rest[i] == calls[i]);
                    assert forall|j: int| i < j < rest.len() implies !(#[trigger] rest[j] is ClearAll) by {
                        assert(rest[j] == calls[j]);
                    }
                }
                if key_set_since_clear(rest) {
                    let i = choose|i: int|
                        0 <= i < rest.len() && #[trigger] rest[i] is SetEncryptionKey && forall|
                            j: int,
                        | i < j < rest.len() ==> !(#[trigger] rest[j] is ClearAll);
                    assert(rest[i] == calls[i]);
                    assert forall|j: int| i < j < calls.len() implies !(#[trigger] calls[j] is ClearAll) by {
                        if j < n {
                            assert(rest[j] == calls[j]);
                        }
                    }
                }
            },
        }
    }
}

/// Copies of the apps, in order.
pub fn copy_apps(apps: &Vec<OtpApp>) -> (r: Vec<OtpApp>)
    ensures
        apps_view(r@) == apps_view(apps@),
{
    let mut out: Vec<OtpApp> = Vec::new();
    let mut i: usize = 0;
    while i < apps.len()
        invariant
            i <= apps@.len(),
            apps_view(out@) == apps_view(apps@.take(i as int)),
        decreases apps@.len() - i,
    {
        let d = apps[i].duplicate();
        let ghost prev = out@;
        out.push(d);
        proof {
            assert(apps_view(out@) =~= apps_view(prev).push(apps@[i as int]@));
            assert(apps@.take(i + 1) =~= apps@.take(i as int).push(apps@[i as int]));
            assert(apps_view(apps@.take(i + 1)) =~= apps_view(apps@.take(i as int)).push(
                apps@[i as int]@,
            ));
        }
        i = i + 1;
    }
    assert(apps@.take(apps@.len() as int) =~= apps@);
    out
}

impl AppState {
    /// The vault is unlocked exactly while a key is held.
    #[verifier::type_invariant]
    closed spec fn lock_matches_key(self) -> bool {
        self.unlocked == self.encryption_key is Some
    }

    /// Store `key` (none: forget it), unlocked exactly when there is one, and
    /// hand back the key held before. The lock flag and the key change
    /// together, so the state is never unlocked without a key.
    fn replace_key(&mut self, key: Option<VaultKey>) -> (r: Option<VaultKey>)
        ensures
            key_view(r) == old(self)@.encryption_key,
            final(self)@ == (AppStateView {
                encryption_key: key_view(key),
                unlocked: key is Some,
                ..old(self)@
            }),
    {
        proof {
            use_type_invariant(&*self);
        }
        let mut apps: Vec<OtpApp> = Vec::new();
        std::mem::swap(&mut apps, &mut self.apps);
        let mut google_auth: Option<GoogleDriveAuth> = None;
        std::mem::swap(&mut google_auth, &mut self.google_auth);
        let unlocked = key.is_some();
        let mut previous = AppState {
            apps,
            unlocked,
            encryption_key: key,
            google_auth,
            syncing: self.syncing,
        };
        std::mem::swap(self, &mut previous);
        let AppState { encryption_key, .. } = previous;
        encryption_key
    }

    pub fn new() -> (r: AppState)
        ensures
            r@ == fresh_state(),
            r@.apps == Seq::<OtpAppView>::empty(),
            !r@.unlocked,
            r@.encryption_key is None,
            r@.google_auth is None,
            !r@.syncing,
    {
        let r = AppState {
            apps: Vec::new(),
            unlocked: false,
            encryption_key: None,
            google_auth: None,
            syncing: false,
        };
        assert(r@.apps =~= Seq::<OtpAppView>::empty());
        r
    }

    pub fn get_apps(&self) -> (r: Vec<OtpApp>)
        ensures
            apps_view(r@) == self@.apps,
    {
        copy_apps(&self.apps)
    }

    /// The first app with this id, if any.
    pub fn get_app_by_id(&self, id: &str) -> (r: Option<OtpApp>)
        ensures
            app_view(r) == find_by_id(self@.apps, id@),
    {
        let ghost apps = self@.apps;
        let mut i: usize = 0;
        while i < self.apps.len()
            invariant
                i <= self.apps@.len(),
                apps == apps_view(self.apps@),
                forall|j: int| 0 <= j < i ==> apps[j].id != id@,
            decreases self.apps@.len() - i,
        {
            if str_eq(self.apps[i].id.as_str(), id) {
                proof {
                    assert(is_first_with_id(apps, id@, i as int));
                    assert(has_id(apps, id@));
                    let k = choose|k: int| is_first_with_id(apps, id@, k);
                    assert(k == i) by {
                        if k < i {
                            assert(apps[k].id != id@);
                        }
                        if i < k {
                            assert(apps[i as int].id != id@);
                        }
                    }
                }
                return Some(self.apps[i].duplicate());
            }
            i = i + 1;
        }
        assert(!has_id(apps, id@));
        None
    }

    pub fn set_apps(&mut self, apps: Vec<OtpApp>)
        ensures
            final(self)@ == after_call(old(self)@, StateCall::SetApps(apps_view(apps@))),
            final(self)@ == (AppStateView { apps: apps_view(apps@), ..old(self)@ }),
    {
        proof {
            use_type_invariant(&*self);
        }
        self.apps = apps;
    }

    pub fn add_app(&mut self, app: OtpApp)
        ensures
            final(self)@ == after_call(old(self)@, StateCall::AddApp(app@)),
            final(self)@ == (AppStateView { apps: old(self)@.apps.push(app@), ..old(self)@ }),
    {
        proof {
            use_type_invariant(&*self);
        }
        let mut apps: Vec<OtpApp> = Vec::new();
        std::mem::swap(&mut apps, &mut self.apps);
        apps.push(app);
        self.apps = apps;
        assert(apps_view(self.apps@) =~= old(self)@.apps.push(app@));
    }

    /// Remove every app with this id; true when one was removed.
    pub fn remove_app(&mut self, id: &str) -> (r: bool)
        ensures
            final(self)@ == after_call(old(self)@, StateCall::RemoveApp(id@)),
            r == has_id(old(self)@.apps, id@),
            final(self)@ == (AppStateView { apps: without_id(old(self)@.apps, id@), ..old(self)@ }),
    {
        proof {
            use_type_invariant(&*self);
        }
        let ghost apps = self@.apps;
        let mut kept: Vec<OtpApp> = Vec::new();
        let mut found = false;
        let mut i: usize = 0;
        while i < self.apps.len()
            invariant
                i <= self.apps@.len(),
                apps == apps_view(self.apps@),
                apps_view(kept@) == without_id(apps.take(i as int), id@),
                found == has_id(apps.take(i as int), id@),
            decreases self.apps@.len() - i,
        {
            let ghost before = apps.take(i as int);
            assert(apps.take(i + 1).drop_last() =~= before);
            if str_eq(self.apps[i].id.as_str(), id) {
                found = true;
                assert(apps.take(i + 1)[i as int].id == id@);
            } else {
                kept.push(self.apps[i].duplicate());
                assert(apps_view(kept@) =~= without_id(apps.take(i + 1), id@));
                assert(has_id(apps.take(i + 1), id@) == has_id(before, id@)) by {
                    if has_id(apps.take(i + 1), id@) {
                        let k = choose|k: int| 0 <= k < i + 1 && #[trigger] apps.take(i + 1)[k].id == id@;
                        assert(before[k] == apps.take(i + 1)[k]);
                    }
                    if has_id(before, id@) {
                        let k = choose|k: int| 0 <= k < i && #[trigger] before[k].id == id@;
                        assert(before[k] == apps.take(i + 1)[k]);
                    }
                }
            }
            proof {
                if found && !has_id(before, id@) {
                    assert(apps.take(i + 1)[i as int].id == id@);
                }
                if has_id(before, id@) {
                    let k = choose|k: int| 0 <= k < i && #[trigger] before[k].id == id@;
                    assert(before[k] == apps.take(i + 1)[k]);
                }
            }
            i = i + 1;
        }
        assert(apps.take(apps.len() as int) =~= apps);
        self.apps = kept;
        found
    }

    /// Rename the first app with this id; true when there was one.
    pub fn update_app_name(&mut self, id: &str, new_name: String) -> (r: bool)
        ensures
            final(self)@ == after_call(old(self)@, StateCall::UpdateAppName(id@, new_name@)),
            r == has_id(old(self)@.apps, id@),
            final(self)@ == (AppStateView {
                apps: renamed_first(old(self)@.apps, id@, new_name@),
                ..old(self)@
            }),
    {
        let ghost apps = self@.apps;
        let mut i: usize = 0;
        while i < self.apps.len()
            invariant
                i <= self.apps@.len(),
                apps == apps_view(self.apps@),
                self@ == old(self)@,
                forall|j: int| 0 <= j < i ==> apps[j].id != id@,
            decreases self.apps@.len() - i,
        {
            if str_eq(self.apps[i].id.as_str(), id) {
                let renamed = OtpApp {
                    id: self.apps[i].id.clone(),
                    name: new_name,
                    secret: self.apps[i].secret.clone(),
                };
                proof {
                    assert(is_first_with_id(apps, id@, i as int));
                    let k = choose|k: int| is_first_with_id(apps, id@, k);
                    assert(k == i) by {
                        if k < i {
                            assert(apps[k].id != id@);
                        }
                        if i < k {
                            assert(apps[i as int].id != id@);
                        }
                    }
                }
                proof {
                    use_type_invariant(&*self);
                }
                let mut all: Vec<OtpApp> = Vec::new();
                std::mem::swap(&mut all, &mut self.apps);
                all.set(i, renamed);
                self.apps = all;
                assert(apps_view(self.apps@) =~= renamed_first(apps, id@, new_name@));
                return true;
            }
            i = i + 1;
        }
        assert(!has_id(apps, id@));
        false
    }

    /// A copy of the key; there is one exactly while the vault is unlocked.
    pub fn get_encryption_key(&self) -> (r: Option<VaultKey>)
        ensures
            key_view(r) == self@.encryption_key,
            r is Some <==> self@.unlocked,
    {
        proof {
            use_type_invariant(self);
        }
        match &self.encryption_key {
            Some(k) => Some(k.duplicate()),
            None => None,
        }
    }

    /// Store the derived key and mark the vault unlocked. A key held before
    /// is wiped before it is dropped.
    pub fn set_encryption_key(&mut self, key: VaultKey)
        ensures
            final(self)@ == after_call(old(self)@, StateCall::SetEncryptionKey(key@)),
            final(self)@ == (AppStateView {
                encryption_key: Some(key@),
                unlocked: true,
                ..old(self)@
            }),
    {
        if let Some(mut previous) = self.replace_key(Some(key)) {
            previous.zeroize();
        }
    }

    /// Whether the vault is unlocked, which is exactly when a key is held.
    pub fn has_master_password(&self) -> (r: bool)
        ensures
            r == self@.unlocked,
            r <==> self@.encryption_key is Some,
    {
        proof {
            use_type_invariant(self);
        }
        self.unlocked
    }

    pub fn get_google_auth(&self) -> (r: Option<GoogleDriveAuth>)
        ensures
            auth_view(r) == self@.google_auth,
    {
        match &self.google_auth {
            Some(a) => Some(a.duplicate()),
            None => None,
        }
    }

    pub fn set_google_auth(&mut self, auth: Option<GoogleDriveAuth>)
        ensures
            final(self)@ == after_call(old(self)@, StateCall::SetGoogleAuth(auth_view(auth))),
            final(self)@ == (AppStateView { google_auth: auth_view(auth), ..old(self)@ }),
    {
        proof {
            use_type_invariant(&*self);
        }
        self.google_auth = auth;
    }

    pub fn is_syncing(&self) -> (r: bool)
        ensures
            r == self@.syncing,
    {
        self.syncing
    }

    pub fn set_syncing(&mut self, syncing: bool)
        ensures
            final(self)@ == after_call(old(self)@, StateCall::SetSyncing(syncing)),
            final(self)@ == (AppStateView { syncing, ..old(self)@ }),
    {
        proof {
            use_type_invariant(&*self);
        }
        self.syncing = syncing;
    }

    /// Forget everything: apps, key (wiped before it is dropped) and Drive
    /// authorization; the vault is locked again.
    pub fn clear_all(&mut self)
        ensures
            final(self)@ == after_call(old(self)@, StateCall::ClearAll),
            final(self)@ == (AppStateView {
                apps: Seq::<OtpAppView>::empty(),
                unlocked: false,
                encryption_key: None,
                google_auth: None,
                syncing: old(self)@.syncing,
            }),
    {
        proof {
            use_type_invariant(&*self);
        }
        if let Some(mut key) = self.replace_key(None) {
            key.zeroize();
        }
        self.apps = Vec::new();
        self.google_auth = None;
        assert(apps_view(self.apps@) =~= Seq::<OtpAppView>::empty());
    }
}

impl Default for AppState {
    fn default() -> (r: AppState)
        ensures
            r@.apps == Seq::<OtpAppView>::empty(),
            !r@.unlocked,
            r@.encryption_key is None,
            r@.google_auth is None,
            !r@.syncing,
    {
        AppState::new()
    }
}

} // verus!
