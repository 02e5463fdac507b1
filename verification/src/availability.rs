//! Which agent harnesses are available, and the secrets with which they authenticate.
use crate::harness::{
    default_harnesses, find_entry, harness_to_graphql_harness, inject_local_harnesses,
    same_harnesses, AgentHarness, Harness, HarnessAvailability, HarnessModelInfo, ProductName,
};
use crate::text::same_text;
use crate::time::{elapsed, start_clock, Span};
use std::collections::HashMap;
use vstd::prelude::*;

verus! {

broadcast use vstd::std_specs::hash::group_hash_axioms;

/// After a fetch of auth secrets has failed, the next one waits this long.
pub const AUTH_SECRET_FETCH_FAILURE_COOLDOWN_NANOS: u128 = 60_000_000_000;

/// Whom a secret belongs to.
#[derive(Debug, Clone, PartialEq, Eq)]
pub enum SecretOwner {
    CurrentUser,
    Team { team_uid: String },
}

pub ghost enum OwnerView {
    CurrentUser,
    Team { team_uid: Seq<char> },
}

impl View for SecretOwner {
    type V = OwnerView;

    open spec fn view(&self) -> OwnerView {
        match self {
            SecretOwner::CurrentUser => OwnerView::CurrentUser,
            SecretOwner::Team { team_uid } => OwnerView::Team { team_uid: team_uid@ },
        }
    }
}

impl SecretOwner {
    pub fn same(&self, other: &SecretOwner) -> (res: bool)
        ensures
            res == (self@ == other@),
    {
        match (self, other) {
            (SecretOwner::CurrentUser, SecretOwner::CurrentUser) => true,
            (SecretOwner::Team { team_uid: a }, SecretOwner::Team { team_uid: b }) => same_text(
                a.as_str(),
                b.as_str(),
            ),
            _ => false,
        }
    }
}

/// The kind of a space on the server.
#[derive(Debug, Clone, Copy, PartialEq, Eq, Structural)]
pub enum SpaceType {
    Team,
    User,
}

/// A space on the server, to which secrets belong.
#[derive(Debug, PartialEq, Eq)]
pub struct Space {
    pub type_: SpaceType,
    pub uid: String,
}

/// A secret as the server lists it.
#[derive(Debug, PartialEq, Eq)]
pub struct ManagedSecret {
    pub name: String,
    pub owner: Space,
}

/// A secret that can be picked.
#[derive(Debug, Clone, PartialEq, Eq)]
pub struct AuthSecretEntry {
    pub name: String,
    pub owner: SecretOwner,
}

pub ghost struct EntryView {
    pub name: Seq<char>,
    pub owner: OwnerView,
}

impl View for AuthSecretEntry {
    type V = EntryView;

    open spec fn view(&self) -> EntryView {
        EntryView { name: self.name@, owner: self.owner@ }
    }
}

pub open spec fn entry_views(entries: Seq<AuthSecretEntry>) -> Seq<EntryView> {
    entries.map_values(|entry: AuthSecretEntry| entry@)
}

/// The owner that a space stands for.
pub open spec fn owner_of(space: Space) -> OwnerView {
    match space.type_ {
        SpaceType::Team => OwnerView::Team { team_uid: space.uid@ },
        SpaceType::User => OwnerView::CurrentUser,
    }
}

pub fn secret_owner_from_space(space: &Space) -> (res: SecretOwner)
    ensures
        res@ == owner_of(*space),
{
    match space.type_ {
        SpaceType::Team => SecretOwner::Team { team_uid: space.uid.clone() },
        SpaceType::User => SecretOwner::CurrentUser,
    }
}

/// The entry that a listed secret makes.
pub open spec fn entry_from(secret: ManagedSecret) -> EntryView {
    EntryView { name: secret.name@, owner: owner_of(secret.owner) }
}

/// The entries that listed secrets make.
pub open spec fn entries_from(secrets: Seq<ManagedSecret>) -> Seq<EntryView> {
    secrets.map_values(|secret: ManagedSecret| entry_from(secret))
}

/// `entry`, unless it is the one with the given name and owner.
pub open spec fn unless_deleted(
    entry: EntryView,
    name: Seq<char>,
    owner: OwnerView,
) -> Option<EntryView> {
    if entry.name == name && entry.owner == owner {
        None
    } else {
        Some(entry)
    }
}

/// `entries` without those that have the given name and owner.
pub open spec fn without_entry(
    entries: Seq<EntryView>,
    name: Seq<char>,
    owner: OwnerView,
) -> Seq<EntryView> {
    entries.filter_map(|entry: EntryView| unless_deleted(entry, name, owner))
}

/// Drops the entries of a deleted secret.
pub fn remove_deleted_auth_secret_entry(
    entries: &mut Vec<AuthSecretEntry>,
    name: &str,
    owner: &SecretOwner,
)
    ensures
        entry_views(final(entries)@) == without_entry(entry_views(old(entries)@), name@, owner@),
{
    let mut listed: Vec<AuthSecretEntry> = Vec::new();
    std::mem::swap(&mut listed, entries);
    let mut kept: Vec<AuthSecretEntry> = Vec::new();
    let ghost all = entry_views(listed@);
    let ghost pick = |entry: EntryView| unless_deleted(entry, name@, owner@);
    assert(entry_views(kept@) =~= all.take(0).filter_map(pick));
    for entry in it: listed
        invariant
            it.seq() == listed@,
            all == entry_views(listed@),
            pick == (|entry: EntryView| unless_deleted(entry, name@, owner@)),
            entry_views(kept@) == all.take(it.index() as int).filter_map(pick),
    {
        let ghost at = it.index() as int;
        let ghost earlier = entry_views(kept@);
        proof {
            all.lemma_filter_map_take_succ(pick, at);
        }
        assert(all[at] == entry@);
        if !same_text(entry.name.as_str(), name) || !entry.owner.same(owner) {
            kept.push(entry);
            assert(entry_views(kept@) =~= earlier.push(entry@));
        }
        assert(entry_views(kept@) =~= all.take(at + 1).filter_map(pick));
    }
    assert(all.take(all.len() as int) =~= all);
    *entries = kept;
}

/// Deleting a secret drops exactly its own entries: one with another name or owner stays.
pub proof fn law_deletion_is_exact(
    entries: Seq<EntryView>,
    name: Seq<char>,
    owner: OwnerView,
    entry: EntryView,
)
    ensures
        without_entry(entries, name, owner).contains(entry) <==> entries.contains(entry) && !(
        entry.name == name && entry.owner == owner),
    decreases entries.len(),
{
    let kept = without_entry(entries, name, owner);
    if entries.len() > 0 {
        let rest = entries.drop_last();
        let earlier = without_entry(rest, name, owner);
        law_deletion_is_exact(rest, name, owner, entry);
        if kept.contains(entry) {
            let i = choose|i: int| 0 <= i < kept.len() && kept[i] == entry;
            if i < earlier.len() {
                assert(earlier[i] == entry);
                assert(rest.contains(entry));
                let j = choose|j: int| 0 <= j < rest.len() && rest[j] == entry;
                assert(entries[j] == entry);
            } else {
                assert(entries[entries.len() - 1] == entry);
            }
        }
        if entries.contains(entry) && !(entry.name == name && entry.owner == owner) {
            let j = choose|j: int| 0 <= j < entries.len() && entries[j] == entry;
            if j < entries.len() - 1 {
                assert(rest[j] == entry);
                assert(earlier.contains(entry));
                let i = choose|i: int| 0 <= i < earlier.len() && earlier[i] == entry;
                assert(kept[i] == entry);
            } else {
                assert(kept[earlier.len() as int] == entry);
            }
        }
    }
}

/// Where the secrets of a harness stand.
#[derive(Debug, Clone, PartialEq, Eq)]
pub enum AuthSecretFetchState {
    NotFetched,
    Loading,
    Loaded(Vec<AuthSecretEntry>),
    Failed(String),
}

pub ghost enum FetchView {
    NotFetched,
    Loading,
    Loaded(Seq<EntryView>),
    Failed(Seq<char>),
}

impl View for AuthSecretFetchState {
    type V = FetchView;

    open spec fn view(&self) -> FetchView {
        match self {
            AuthSecretFetchState::NotFetched => FetchView::NotFetched,
            AuthSecretFetchState::Loading => FetchView::Loading,
            AuthSecretFetchState::Loaded(entries) => FetchView::Loaded(entry_views(entries@)),
            AuthSecretFetchState::Failed(message) => FetchView::Failed(message@),
        }
    }
}

#[derive(Debug, PartialEq, Eq)]
pub enum HarnessAvailabilityEvent {
    Changed,
    AuthSecretsLoaded,
    /// Emitted when a lazy auth-secrets fetch fails. Subscribers should
    /// re-render so any "Loading…" placeholders can transition to an
    /// error state — without this signal the picker would otherwise be
    /// stuck on the loading placeholder until the next refetch.
    AuthSecretsFetchFailed,
    AuthSecretCreated { harness: Harness, name: String },
    AuthSecretCreationFailed { error: String },
    AuthSecretDeleted { harness: Harness, name: String, owner: SecretOwner },
    AuthSecretDeletionFailed { harness: Harness, name: String, owner: SecretOwner, error: String },
}

/// What happens elsewhere and concerns the harnesses.
#[derive(Debug, Clone, Copy, PartialEq, Eq, Structural)]
pub enum OutsideEvent {
    /// The network is there again.
    NetworkOnline,
    /// A user has logged in.
    AuthComplete,
    /// The teams of the user have changed.
    TeamsChanged,
}

/// The number under which a harness is filed.
pub open spec fn file_number(harness: Harness) -> u64 {
    match harness {
        Harness::Oz => 0,
        Harness::Claude => 1,
        Harness::Gemini => 2,
        Harness::Codex => 3,
        Harness::OpenCode => 4,
        Harness::Agy => 5,
        Harness::Unknown => 6,
    }
}

fn number_of(harness: Harness) -> (res: u64)
    ensures
        res == file_number(harness),
{
    match harness {
        Harness::Oz => 0,
        Harness::Claude => 1,
        Harness::Gemini => 2,
        Harness::Codex => 3,
        Harness::OpenCode => 4,
        Harness::Agy => 5,
        Harness::Unknown => 6,
    }
}

/// The harnesses that are available, and their secrets.
pub struct HarnessAvailabilityModel {
    harnesses: Vec<HarnessAvailability>,
    /// Where the secrets stand, filed by harness.
    auth_secrets: HashMap<u64, AuthSecretFetchState>,
    /// When the last fetch failed, filed by harness.
    auth_secret_failed_at: HashMap<u64, Span>,
    /// The point from which times are counted.
    started: instant::Instant,
}

pub ghost struct AvailabilityView {
    pub harnesses: Seq<crate::harness::HarnessView>,
    /// Where the secrets stand: a harness that is missing has not been asked for.
    pub auth_secrets: Map<Harness, FetchView>,
    /// When the last fetch failed, counted from the start.
    pub failed_at: Map<Harness, Span>,
}

impl View for HarnessAvailabilityModel {
    type V = AvailabilityView;

    closed spec fn view(&self) -> AvailabilityView {
        AvailabilityView {
            harnesses: crate::harness::harness_views(self.harnesses@),
            auth_secrets: Map::new(
                |harness: Harness| self.auth_secrets@.contains_key(file_number(harness)),
                |harness: Harness| self.auth_secrets@[file_number(harness)]@,
            ),
            failed_at: Map::new(
                |harness: Harness| self.auth_secret_failed_at@.contains_key(file_number(harness)),
                |harness: Harness| self.auth_secret_failed_at@[file_number(harness)],
            ),
        }
    }
}

impl AvailabilityView {
    /// The name of a harness: the one it is listed under first, or else `general`.
    pub open spec fn name_for(self, harness: Harness, general: Seq<char>) -> Seq<char> {
        let at = crate::harness::entry_of(self.harnesses, harness);
        if at < self.harnesses.len() {
            self.harnesses[at].display_name
        } else {
            general
        }
    }

    /// The models of a harness: those it is listed with first.
    pub open spec fn models_of(self, harness: Harness) -> Seq<crate::harness::ModelInfoView> {
        let at = crate::harness::entry_of(self.harnesses, harness);
        if at < self.harnesses.len() {
            self.harnesses[at].available_models
        } else {
            Seq::empty()
        }
    }

    /// There is something to select, and the feature is on.
    pub open spec fn shows_selector(self, agent_harness_feature: bool) -> bool {
        agent_harness_feature && self.harnesses.len() > 1
    }

    /// Some harness is enabled.
    pub open spec fn any_enabled(self) -> bool {
        exists|i: int| 0 <= i < self.harnesses.len() && (#[trigger] self.harnesses[i]).enabled
    }

    /// The harness is listed and enabled.
    pub open spec fn is_enabled(self, harness: Harness) -> bool {
        exists|i: int|
            0 <= i < self.harnesses.len() && (#[trigger] self.harnesses[i]).harness == harness
                && self.harnesses[i].enabled
    }

    /// The state after an event elsewhere.
    pub open spec fn after_event(self, event: OutsideEvent) -> AvailabilityView {
        if event is AuthComplete {
            self.all_invalidated()
        } else {
            self
        }
    }

    /// Where the secrets of a harness stand.
    pub open spec fn secrets_of(self, harness: Harness) -> FetchView {
        if self.auth_secrets.contains_key(harness) {
            self.auth_secrets[harness]
        } else {
            FetchView::NotFetched
        }
    }

    /// The cooldown after the last failed fetch is over at `now`.
    pub open spec fn can_retry(self, harness: Harness, now: Span) -> bool {
        self.failed_at.contains_key(harness) ==> self.failed_at[harness].nanos
            + AUTH_SECRET_FETCH_FAILURE_COOLDOWN_NANOS <= now.nanos
    }

    /// The secrets of a harness are to be fetched at `now`: they have not been asked for, or that
    /// failed a while ago; the server knows the harness, and the user is logged in.
    pub open spec fn needs_fetch(self, harness: Harness, logged_in: bool, now: Span) -> bool {
        &&& match self.secrets_of(harness) {
            FetchView::NotFetched => true,
            FetchView::Failed(_) => self.can_retry(harness, now),
            FetchView::Loading | FetchView::Loaded(_) => false,
        }
        &&& crate::harness::server_harness(harness) is Some
        &&& logged_in
    }

    /// The state with the secrets of a harness at `state`, and no failure.
    pub open spec fn with_secrets(self, harness: Harness, state: FetchView) -> AvailabilityView {
        AvailabilityView {
            auth_secrets: self.auth_secrets.insert(harness, state),
            failed_at: self.failed_at.remove(harness),
            ..self
        }
    }

    /// The state after a fetch has failed at `now`.
    pub open spec fn after_failure(
        self,
        harness: Harness,
        message: Seq<char>,
        now: Span,
    ) -> AvailabilityView {
        AvailabilityView {
            auth_secrets: self.auth_secrets.insert(harness, FetchView::Failed(message)),
            failed_at: self.failed_at.insert(harness, now),
            ..self
        }
    }

    /// The state after the secrets of a harness were forgotten.
    pub open spec fn invalidated(self, harness: Harness) -> AvailabilityView {
        AvailabilityView {
            auth_secrets: self.auth_secrets.remove(harness),
            failed_at: self.failed_at.remove(harness),
            ..self
        }
    }

    /// The state after the secrets of all harnesses were forgotten.
    pub open spec fn all_invalidated(self) -> AvailabilityView {
        AvailabilityView { auth_secrets: Map::empty(), failed_at: Map::empty(), ..self }
    }

    /// The state after a secret was created: it joins those that are loaded, or is the first.
    pub open spec fn after_creation(self, harness: Harness, entry: EntryView) -> AvailabilityView {
        let entries = match self.secrets_of(harness) {
            FetchView::Loaded(entries) => entries.push(entry),
            _ => seq![entry],
        };
        AvailabilityView {
            auth_secrets: self.auth_secrets.insert(harness, FetchView::Loaded(entries)),
            ..self
        }
    }

    /// The state after a secret was deleted.
    pub open spec fn after_deletion(
        self,
        harness: Harness,
        name: Seq<char>,
        owner: OwnerView,
    ) -> AvailabilityView {
        match self.secrets_of(harness) {
            FetchView::Loaded(entries) => AvailabilityView {
                auth_secrets: self.auth_secrets.insert(
                    harness,
                    FetchView::Loaded(without_entry(entries, name, owner)),
                ),
                ..self
            },
            _ => self,
        }
    }

    /// The state after the server has listed its harnesses, and whether anything has changed.
    pub open spec fn after_refresh(
        self,
        listed: Seq<crate::harness::HarnessView>,
        agy_models: Seq<crate::harness::ModelInfoView>,
        product: crate::harness::ProductView,
    ) -> (AvailabilityView, bool) {
        let harnesses = crate::harness::with_local_harnesses(listed, agy_models, product);
        if harnesses == self.harnesses {
            (self, false)
        } else {
            (AvailabilityView { harnesses, ..self }.all_invalidated(), true)
        }
    }
}

impl HarnessAvailabilityModel {
    /// The point from which times are counted.
    pub closed spec fn started(self) -> instant::Instant {
        self.started
    }

    /// A model for the harnesses that were cached, if any were.
    pub fn new(cached: Option<Vec<HarnessAvailability>>) -> (res: Self)
        ensures
            res@.harnesses == match cached {
                Some(harnesses) => crate::harness::harness_views(harnesses@),
                None => crate::harness::fallback_harnesses(),
            },
            res@.auth_secrets == Map::<Harness, FetchView>::empty(),
            res@.failed_at == Map::<Harness, Span>::empty(),
    {
        let harnesses = match cached {
            Some(harnesses) => harnesses,
            None => default_harnesses(),
        };
        let model = HarnessAvailabilityModel {
            harnesses,
            auth_secrets: HashMap::new(),
            auth_secret_failed_at: HashMap::new(),
            started: start_clock(),
        };
        assert(model@.auth_secrets =~= Map::empty());
        assert(model@.failed_at =~= Map::empty());
        model
    }

    /// What an event elsewhere leads to: whether the harnesses are to be fetched anew. After a
    /// login the secrets of whoever was logged in before are forgotten.
    pub fn on_outside_event(&mut self, event: OutsideEvent, logged_in: bool) -> (res: bool)
        ensures
            final(self).started() == old(self).started(),
            res == logged_in,
            final(self)@ == old(self)@.after_event(event),
    {
        match event {
            OutsideEvent::AuthComplete => {
                self.invalidate_all();
            },
            OutsideEvent::NetworkOnline | OutsideEvent::TeamsChanged => {},
        }
        // The endpoint queries `user`, which requires auth.
        logged_in
    }

    pub fn available_harnesses(&self) -> (res: &[HarnessAvailability])
        ensures
            crate::harness::harness_views(res@) == self@.harnesses,
    {
        self.harnesses.as_slice()
    }

    /// The name of a harness: the one it is listed under, or `general` if it is not listed.
    pub fn display_name_for<'a>(&'a self, harness: Harness, general: &'a str) -> (res: &'a str)
        ensures
            res@ == self@.name_for(harness, general@),
    {
        let at: usize = find_entry(&self.harnesses, harness);
        if at < self.harnesses.len() {
            self.harnesses[at].display_name.as_str()
        } else {
            general
        }
    }

    /// Whether the harness selector should be shown (>1 known harness, including disabled), given
    /// whether the feature is on.
    pub fn should_show_harness_selector(&self, agent_harness_feature: bool) -> (res: bool)
        ensures
            res == self@.shows_selector(agent_harness_feature),
    {
        agent_harness_feature && self.harnesses.len() > 1
    }

    /// Whether any harness is available at all (at least one enabled).
    pub fn has_any_enabled_harness(&self) -> (res: bool)
        ensures
            res == self@.any_enabled(),
    {
        let n: usize = self.harnesses.len();
        let mut i: usize = 0;
        while i < n
            invariant
                i <= n == self.harnesses@.len(),
                forall|j: int| 0 <= j < i ==> !(#[trigger] self@.harnesses[j]).enabled,
            decreases n - i,
        {
            assert(self@.harnesses[i as int] == self.harnesses@[i as int]@);
            if self.harnesses[i].enabled {
                return true;
            }
            i += 1;
        }
        false
    }

    /// Whether a harness is both known and enabled.
    pub fn is_harness_enabled(&self, harness: Harness) -> (res: bool)
        ensures
            res == self@.is_enabled(harness),
    {
        let n: usize = self.harnesses.len();
        let mut i: usize = 0;
        while i < n
            invariant
                i <= n == self.harnesses@.len(),
                forall|j: int|
                    0 <= j < i ==> !((#[trigger] self@.harnesses[j]).harness == harness
                        && self@.harnesses[j].enabled),
            decreases n - i,
        {
            assert(self@.harnesses[i as int] == self.harnesses@[i as int]@);
            if self.harnesses[i].harness == harness && self.harnesses[i].enabled {
                return true;
            }
            i += 1;
        }
        false
    }

    /// The models of a harness: nothing for one that is not listed or has none.
    pub fn models_for(&self, harness: Harness) -> (res: Option<&[HarnessModelInfo]>)
        ensures
            res is Some <==> self@.models_of(harness).len() > 0,
            res matches Some(models) ==> crate::harness::model_infos(models@) == self@.models_of(
                harness,
            ),
    {
        let at: usize = find_entry(&self.harnesses, harness);
        if at < self.harnesses.len() {
            assert(self@.harnesses[at as int].available_models.len()
                == self.harnesses@[at as int].available_models@.len());
            if self.harnesses[at].available_models.len() > 0 {
                return Some(self.harnesses[at].available_models.as_slice());
            }
        }
        None
    }

    pub fn auth_secrets_for(&self, harness: Harness) -> (res: &AuthSecretFetchState)
        ensures
            res@ == self@.secrets_of(harness),
    {
        let number: u64 = number_of(harness);
        match self.auth_secrets.get(&number) {
            Some(state) => state,
            None => &AuthSecretFetchState::NotFetched,
        }
    }

    fn can_retry_auth_secret_fetch(&self, harness: Harness, now: Span) -> (res: bool)
        ensures
            res == self@.can_retry(harness, now),
    {
        let number: u64 = number_of(harness);
        match self.auth_secret_failed_at.get(&number) {
            Some(failed_at) => failed_at.nanos <= now.nanos && now.nanos - failed_at.nanos
                >= AUTH_SECRET_FETCH_FAILURE_COOLDOWN_NANOS,
            None => true,
        }
    }

    fn put_secrets(&mut self, harness: Harness, state: AuthSecretFetchState)
        ensures
            final(self).started() == old(self).started(),
            final(self)@ == (AvailabilityView {
                auth_secrets: old(self)@.auth_secrets.insert(harness, state@),
                ..old(self)@
            }),
    {
        let number: u64 = number_of(harness);
        self.auth_secrets.insert(number, state);
        assert(self@.auth_secrets =~= old(self)@.auth_secrets.insert(harness, state@));
    }

    fn clear_failure(&mut self, harness: Harness)
        ensures
            final(self).started() == old(self).started(),
            final(self)@ == (AvailabilityView {
                failed_at: old(self)@.failed_at.remove(harness),
                ..old(self)@
            }),
    {
        let number: u64 = number_of(harness);
        self.auth_secret_failed_at.remove(&number);
        assert(self@.failed_at =~= old(self)@.failed_at.remove(harness));
    }

    /// Decides at `now` whether the secrets of a harness are to be fetched, and under which name
    /// the server knows it; if so, they count as loading from then on.
    pub fn ensure_auth_secrets_fetched_at(
        &mut self,
        harness: Harness,
        logged_in: bool,
        now: Span,
    ) -> (res: Option<AgentHarness>)
        ensures
            final(self).started() == old(self).started(),
            res == if old(self)@.needs_fetch(harness, logged_in, now) {
                crate::harness::server_harness(harness)
            } else {
                None
            },
            final(self)@ == if old(self)@.needs_fetch(harness, logged_in, now) {
                old(self)@.with_secrets(harness, FetchView::Loading)
            } else {
                old(self)@
            },
    {
        let wanted = match self.auth_secrets_for(harness) {
            AuthSecretFetchState::NotFetched => true,
            AuthSecretFetchState::Failed(_) => self.can_retry_auth_secret_fetch(harness, now),
            AuthSecretFetchState::Loading | AuthSecretFetchState::Loaded(_) => false,
        };
        if !wanted {
            return None;
        }
        let agent_harness = match harness_to_graphql_harness(harness) {
            Some(agent_harness) => agent_harness,
            None => {
                return None;
            },
        };
        if !logged_in {
            return None;
        }
        self.put_secrets(harness, AuthSecretFetchState::Loading);
        self.clear_failure(harness);
        Some(agent_harness)
    }

    /// Decides whether the secrets of a harness are to be fetched.
    pub fn ensure_auth_secrets_fetched(&mut self, harness: Harness, logged_in: bool) -> (res:
        Option<AgentHarness>)
        ensures
            final(self).started() == old(self).started(),
            exists|now: Span|
                now.on_a_clock() && final(self)@ == (if #[trigger] old(self)@.needs_fetch(harness, logged_in, now) {
                    old(self)@.with_secrets(harness, FetchView::Loading)
                } else {
                    old(self)@
                }) && res == (if old(self)@.needs_fetch(harness, logged_in, now) {
                    crate::harness::server_harness(harness)
                } else {
                    None
                }),
    {
        let now = elapsed(&self.started);
        self.ensure_auth_secrets_fetched_at(harness, logged_in, now)
    }

    /// Takes the secrets that were fetched.
    pub fn auth_secrets_fetched(&mut self, harness: Harness, secrets: Vec<ManagedSecret>) -> (res:
        HarnessAvailabilityEvent)
        ensures
            final(self).started() == old(self).started(),
            res is AuthSecretsLoaded,
            final(self)@ == old(self)@.with_secrets(
                harness,
                FetchView::Loaded(entries_from(secrets@)),
            ),
    {
        let mut entries: Vec<AuthSecretEntry> = Vec::new();
        let ghost all = entries_from(secrets@);
        assert(entry_views(entries@) =~= all.take(0));
        for secret in it: secrets
            invariant
                it.seq() == secrets@,
                all == entries_from(secrets@),
                entry_views(entries@) == all.take(it.index() as int),
        {
            let ghost at = it.index() as int;
            let ghost earlier = entry_views(entries@);
            let owner = secret_owner_from_space(&secret.owner);
            entries.push(AuthSecretEntry { name: secret.name, owner });
            assert(entry_views(entries@) =~= earlier.push(all[at]));
            assert(all.take(at + 1) =~= all.take(at).push(all[at]));
        }
        assert(all.take(all.len() as int) =~= all);
        self.put_secrets(harness, AuthSecretFetchState::Loaded(entries));
        self.clear_failure(harness);
        HarnessAvailabilityEvent::AuthSecretsLoaded
    }

    /// Takes note that a fetch has failed at `now`.
    pub fn auth_secrets_fetch_failed_at(
        &mut self,
        harness: Harness,
        message: String,
        now: Span,
    ) -> (res: HarnessAvailabilityEvent)
        ensures
            final(self).started() == old(self).started(),
            res is AuthSecretsFetchFailed,
            final(self)@ == old(self)@.after_failure(harness, message@, now),
    {
        self.put_secrets(harness, AuthSecretFetchState::Failed(message));
        let ghost between = self@;
        let number: u64 = number_of(harness);
        self.auth_secret_failed_at.insert(number, now);
        assert(self@.failed_at =~= between.failed_at.insert(harness, now));
        // Subscribers drop any "Loading…" placeholder rendered during the
        // in-flight fetch and surface the error state.
        HarnessAvailabilityEvent::AuthSecretsFetchFailed
    }

    /// Takes note that a fetch has failed.
    pub fn auth_secrets_fetch_failed(&mut self, harness: Harness, message: String) -> (res:
        HarnessAvailabilityEvent)
        ensures
            final(self).started() == old(self).started(),
            res is AuthSecretsFetchFailed,
            exists|now: Span|
                now.on_a_clock() && final(self)@ == #[trigger] old(self)@.after_failure(
                    harness,
                    message@,
                    now,
                ),
    {
        let now = elapsed(&self.started);
        self.auth_secrets_fetch_failed_at(harness, message, now)
    }

    /// Forgets the secrets of a harness.
    pub fn invalidate_auth_secrets(&mut self, harness: Harness)
        ensures
            final(self).started() == old(self).started(),
            final(self)@ == old(self)@.invalidated(harness),
    {
        let number: u64 = number_of(harness);
        self.auth_secrets.remove(&number);
        assert(self@.auth_secrets =~= old(self)@.auth_secrets.remove(harness));
        self.clear_failure(harness);
    }

    fn invalidate_all(&mut self)
        ensures
            final(self).started() == old(self).started(),
            final(self)@ == old(self)@.all_invalidated(),
    {
        self.auth_secrets.clear();
        self.auth_secret_failed_at.clear();
        assert(self@.auth_secrets =~= Map::empty());
        assert(self@.failed_at =~= Map::empty());
    }

    /// Takes the result of creating a secret.
    pub fn create_auth_secret(
        &mut self,
        harness: Harness,
        result: Result<ManagedSecret, String>,
    ) -> (res: HarnessAvailabilityEvent)
        ensures
            final(self).started() == old(self).started(),
            match result {
                Ok(secret) => final(self)@ == old(self)@.after_creation(harness, entry_from(secret))
                    && (res matches HarnessAvailabilityEvent::AuthSecretCreated { harness: h, name }
                    && h == harness && name == secret.name),
                Err(message) => final(self)@ == old(self)@ && res
                    == (HarnessAvailabilityEvent::AuthSecretCreationFailed { error: message }),
            },
    {
        match result {
            Ok(secret) => {
                let entry = AuthSecretEntry {
                    name: secret.name.clone(),
                    owner: secret_owner_from_space(&secret.owner),
                };
                let number: u64 = number_of(harness);
                let mut entries: Vec<AuthSecretEntry> = match self.auth_secrets.remove(&number) {
                    Some(AuthSecretFetchState::Loaded(entries)) => entries,
                    _ => Vec::new(),
                };
                let ghost earlier = entry_views(entries@);
                entries.push(entry);
                assert(entry_views(entries@) =~= earlier.push(entry_from(secret)));
                assert(match old(self)@.secrets_of(harness) {
                    FetchView::Loaded(loaded) => earlier =~= loaded,
                    _ => entry_views(entries@) =~= seq![entry_from(secret)],
                });
                self.put_secrets(harness, AuthSecretFetchState::Loaded(entries));
                assert(self@.auth_secrets =~= old(self)@.after_creation(
                    harness,
                    entry_from(secret),
                ).auth_secrets);
                HarnessAvailabilityEvent::AuthSecretCreated { harness, name: secret.name }
            },
            Err(message) => HarnessAvailabilityEvent::AuthSecretCreationFailed { error: message },
        }
    }

    /// Takes the result of deleting a secret.
    pub fn delete_auth_secret(
        &mut self,
        harness: Harness,
        name: String,
        owner: SecretOwner,
        result: Result<(), String>,
    ) -> (res: HarnessAvailabilityEvent)
        ensures
            final(self).started() == old(self).started(),
            match result {
                Ok(_) => final(self)@ == old(self)@.after_deletion(harness, name@, owner@) && res
                    == (HarnessAvailabilityEvent::AuthSecretDeleted { harness, name, owner }),
                Err(message) => final(self)@ == old(self)@ && res
                    == (HarnessAvailabilityEvent::AuthSecretDeletionFailed {
                    harness,
                    name,
                    owner,
                    error: message,
                }),
            },
    {
        match result {
            Ok(_) => {
                let number: u64 = number_of(harness);
                match self.auth_secrets.remove(&number) {
                    Some(AuthSecretFetchState::Loaded(mut entries)) => {
                        remove_deleted_auth_secret_entry(&mut entries, name.as_str(), &owner);
                        self.put_secrets(harness, AuthSecretFetchState::Loaded(entries));
                    },
                    Some(state) => {
                        self.put_secrets(harness, state);
                    },
                    None => {},
                }
                assert(self@.auth_secrets =~= old(self)@.after_deletion(
                    harness,
                    name@,
                    owner@,
                ).auth_secrets);
                HarnessAvailabilityEvent::AuthSecretDeleted { harness, name, owner }
            },
            Err(message) => HarnessAvailabilityEvent::AuthSecretDeletionFailed {
                harness,
                name,
                owner,
                error: message,
            },
        }
    }

    /// Takes the harnesses that the server lists, and the models of the local CLI. The event comes
    /// when anything has changed; the new list is to be cached then.
    pub fn refresh(
        &mut self,
        listed: Vec<HarnessAvailability>,
        agy_models: Vec<HarnessModelInfo>,
        product: &ProductName,
    ) -> (res: Option<HarnessAvailabilityEvent>)
        ensures
            final(self).started() == old(self).started(),
            ({
                let (after, changed) = old(self)@.after_refresh(
                    crate::harness::harness_views(listed@),
                    crate::harness::model_infos(agy_models@),
                    product@,
                );
                &&& final(self)@ == after
                &&& res is Some <==> changed
                &&& res matches Some(event) ==> event is Changed
            }),
    {
        let mut harnesses = listed;
        inject_local_harnesses(&mut harnesses, agy_models, product);
        if same_harnesses(&harnesses, &self.harnesses) {
            return None;
        }
        self.harnesses = harnesses;
        self.invalidate_all();
        Some(HarnessAvailabilityEvent::Changed)
    }
}

impl AvailabilityView {
    /// A failure is on file only for a harness whose secrets were asked for.
    pub open spec fn consistent(self) -> bool {
        forall|harness: Harness| #[trigger]
            self.failed_at.contains_key(harness) ==> self.auth_secrets.contains_key(harness)
    }
}

/// Whatever happens, a failure is on file only for a harness whose secrets were asked for.
pub proof fn law_states_stay_consistent(
    model: AvailabilityView,
    harness: Harness,
    state: FetchView,
    message: Seq<char>,
    entry: EntryView,
    now: Span,
)
    requires
        model.consistent(),
    ensures
        model.with_secrets(harness, state).consistent(),
        model.after_failure(harness, message, now).consistent(),
        model.invalidated(harness).consistent(),
        model.all_invalidated().consistent(),
        model.after_creation(harness, entry).consistent(),
        model.after_deletion(harness, entry.name, entry.owner).consistent(),
{
}

/// After a failed fetch the next one waits for the cooldown to pass, and is owed once it has.
pub proof fn law_failed_fetches_cool_down(
    model: AvailabilityView,
    harness: Harness,
    message: Seq<char>,
    failed: Span,
    now: Span,
)
    ensures
        ({
            let after = model.after_failure(harness, message, failed);
            let over = failed.nanos + AUTH_SECRET_FETCH_FAILURE_COOLDOWN_NANOS <= now.nanos;
            &&& !over ==> !after.needs_fetch(harness, true, now)
            &&& over && crate::harness::server_harness(harness) is Some ==> after.needs_fetch(
                harness,
                true,
                now,
            )
        }),
{
}

/// A fetch that runs, or that has brought the secrets, is not repeated.
pub proof fn law_fetches_are_not_repeated(
    model: AvailabilityView,
    harness: Harness,
    entries: Seq<EntryView>,
    logged_in: bool,
    now: Span,
)
    ensures
        !model.with_secrets(harness, FetchView::Loading).needs_fetch(harness, logged_in, now),
        !model.with_secrets(harness, FetchView::Loaded(entries)).needs_fetch(
            harness,
            logged_in,
            now,
        ),
{
}

/// What concerns one harness leaves the secrets of the others alone.
pub proof fn law_harnesses_are_independent(
    model: AvailabilityView,
    harness: Harness,
    other: Harness,
    state: FetchView,
    message: Seq<char>,
    entry: EntryView,
    now: Span,
)
    requires
        other != harness,
    ensures
        model.with_secrets(harness, state).secrets_of(other) == model.secrets_of(other),
        model.after_failure(harness, message, now).secrets_of(other) == model.secrets_of(other),
        model.invalidated(harness).secrets_of(other) == model.secrets_of(other),
        model.after_creation(harness, entry).secrets_of(other) == model.secrets_of(other),
        model.after_deletion(harness, entry.name, entry.owner).secrets_of(other)
            == model.secrets_of(other),
{
}

/// Deleting a secret that was just created leaves the secrets as they were.
pub proof fn law_deletion_undoes_creation(
    model: AvailabilityView,
    harness: Harness,
    entry: EntryView,
    entries: Seq<EntryView>,
)
    requires
        model.secrets_of(harness) == FetchView::Loaded(entries),
        !entries.contains(entry),
    ensures
        model.after_creation(harness, entry).after_deletion(harness, entry.name, entry.owner)
            == model,
{
    let grown = entries.push(entry);
    assert(grown.drop_last() =~= entries);
    lemma_nothing_to_delete(entries, entry.name, entry.owner);
    assert(without_entry(grown, entry.name, entry.owner) =~= entries);
    let after = model.after_creation(harness, entry).after_deletion(
        harness,
        entry.name,
        entry.owner,
    );
    assert(after.auth_secrets =~= model.auth_secrets);
}

proof fn lemma_nothing_to_delete(entries: Seq<EntryView>, name: Seq<char>, owner: OwnerView)
    requires
        !entries.contains(EntryView { name, owner }),
    ensures
        without_entry(entries, name, owner) == entries,
    decreases entries.len(),
{
    if entries.len() > 0 {
        let rest = entries.drop_last();
        assert forall|i: int| 0 <= i < rest.len() implies rest[i] != (EntryView {
            name,
            owner,
        }) by {
            assert(entries[i] == rest[i]);
        }
        lemma_nothing_to_delete(rest, name, owner);
        assert(entries.last() == entries[entries.len() - 1]);
        assert(without_entry(entries, name, owner) =~= entries);
    }
}

/// A second refresh with the same answer changes nothing.
pub proof fn law_repeated_refreshes_change_nothing(
    model: AvailabilityView,
    listed: Seq<crate::harness::HarnessView>,
    agy_models: Seq<crate::harness::ModelInfoView>,
    product: crate::harness::ProductView,
)
    ensures
        ({
            let once = model.after_refresh(listed, agy_models, product).0;
            once.after_refresh(listed, agy_models, product) == (once, false)
        }),
{
}

/// Where the secrets of a harness stand is what was last found out: that they are being fetched,
/// which they are, why they could not be fetched, or nothing.
pub proof fn law_the_latest_state_counts(
    model: AvailabilityView,
    harness: Harness,
    other: Harness,
    state: FetchView,
    message: Seq<char>,
    now: Span,
)
    ensures
        model.with_secrets(harness, state).secrets_of(harness) == state,
        model.after_failure(harness, message, now).secrets_of(harness) == FetchView::Failed(message),
        model.invalidated(harness).secrets_of(harness) is NotFetched,
        model.all_invalidated().secrets_of(other) is NotFetched,
        model.with_secrets(harness, state).harnesses == model.harnesses,
        model.after_failure(harness, message, now).harnesses == model.harnesses,
        model.invalidated(harness).harnesses == model.harnesses,
        model.all_invalidated().harnesses == model.harnesses,
{
}

/// Secrets are fetched for a user who is logged in and a harness that the server knows, where they
/// have not been fetched; in no other case.
pub proof fn law_fetches_need_a_reason(
    model: AvailabilityView,
    harness: Harness,
    now: Span,
)
    ensures
        !model.needs_fetch(harness, false, now),
        crate::harness::server_harness(harness) is None ==> !model.needs_fetch(harness, true, now),
        crate::harness::server_harness(harness) is Some ==> model.invalidated(harness).needs_fetch(
            harness,
            true,
            now,
        ) && model.all_invalidated().needs_fetch(harness, true, now),
{
}

/// The secrets that the server sends are listed in its order, each with its name and its owner:
/// the team for one in a team's space, and otherwise the user.
pub proof fn law_secrets_are_listed_as_sent(secrets: Seq<ManagedSecret>, i: int)
    requires
        0 <= i < secrets.len(),
    ensures
        entries_from(secrets).len() == secrets.len(),
        entries_from(secrets)[i].name == secrets[i].name@,
        secrets[i].owner.type_ is Team ==> entries_from(secrets)[i].owner == (OwnerView::Team {
            team_uid: secrets[i].owner.uid@,
        }),
        secrets[i].owner.type_ is User ==> entries_from(secrets)[i].owner is CurrentUser,
{
}

/// A secret that was created is listed behind those that are known; where none are known it is
/// the only one.
pub proof fn law_created_secrets_are_listed_last(
    model: AvailabilityView,
    harness: Harness,
    entry: EntryView,
    entries: Seq<EntryView>,
)
    ensures
        model.secrets_of(harness) == FetchView::Loaded(entries) ==> model.after_creation(
            harness,
            entry,
        ).secrets_of(harness) == FetchView::Loaded(entries.push(entry)),
        !(model.secrets_of(harness) is Loaded) ==> model.after_creation(harness, entry).secrets_of(
            harness,
        ) == FetchView::Loaded(seq![entry]),
        model.after_creation(harness, entry).harnesses == model.harnesses,
        model.after_creation(harness, entry).failed_at == model.failed_at,
{
}

/// Deleting a secret takes every entry with its name and its owner out of the list and leaves the
/// others in their order; where no list is known nothing changes.
pub proof fn law_deletion_keeps_the_order(
    model: AvailabilityView,
    harness: Harness,
    front: Seq<EntryView>,
    entry: EntryView,
    back: Seq<EntryView>,
    name: Seq<char>,
    owner: OwnerView,
)
    ensures
        entry.name == name && entry.owner == owner ==> without_entry(
            front + seq![entry] + back,
            name,
            owner,
        ) == without_entry(front, name, owner) + without_entry(back, name, owner),
        entry.name != name || entry.owner != owner ==> without_entry(
            front + seq![entry] + back,
            name,
            owner,
        ) == without_entry(front, name, owner) + seq![entry] + without_entry(back, name, owner),
        model.secrets_of(harness) == FetchView::Loaded(front) ==> model.after_deletion(
            harness,
            name,
            owner,
        ).secrets_of(harness) == FetchView::Loaded(without_entry(front, name, owner)),
        !(model.secrets_of(harness) is Loaded) ==> model.after_deletion(harness, name, owner)
            == model,
        model.after_deletion(harness, name, owner).harnesses == model.harnesses,
{
    let pick = |entry: EntryView| unless_deleted(entry, name, owner);
    crate::lists::lemma_picked_in_a_row(front + seq![entry], back, pick);
    crate::lists::lemma_picked_in_a_row(front, seq![entry], pick);
    Seq::<EntryView>::lemma_filter_map_singleton(entry, pick);
    assert(front.filter_map(pick) + Seq::<EntryView>::empty() =~= front.filter_map(pick));
}

/// A list of harnesses that differs from the known one takes its place, and what was known of the
/// secrets is forgotten; the same list changes nothing.
pub proof fn law_new_lists_replace_old_ones(
    model: AvailabilityView,
    listed: Seq<crate::harness::HarnessView>,
    agy_models: Seq<crate::harness::ModelInfoView>,
    product: crate::harness::ProductView,
    harness: Harness,
)
    ensures
        ({
            let list = crate::harness::with_local_harnesses(listed, agy_models, product);
            let (after, changed) = model.after_refresh(listed, agy_models, product);
            &&& after.harnesses == list
            &&& changed <==> list != model.harnesses
            &&& changed ==> after.secrets_of(harness) is NotFetched
            &&& !changed ==> after == model
        }),
{
}

/// After a failure a fetch is tried again a minute later and no earlier.
pub proof fn law_failures_are_waited_out(
    model: AvailabilityView,
    harness: Harness,
    message: Seq<char>,
    failed: Span,
    now: Span,
)
    requires
        crate::harness::server_harness(harness) is Some,
    ensures
        model.after_failure(harness, message, failed).needs_fetch(harness, true, now) <==> now.nanos
            - failed.nanos >= 60_000_000_000,
{
}

/// A harness goes by the name and the models of its first entry in the list; one that is not listed
/// goes by its general name and has no models.
pub proof fn law_the_first_entry_counts(
    model: AvailabilityView,
    harness: Harness,
    general: Seq<char>,
    at: int,
)
    requires
        0 <= at <= model.harnesses.len(),
        forall|i: int| 0 <= i < at ==> (#[trigger] model.harnesses[i]).harness != harness,
    ensures
        at < model.harnesses.len() && model.harnesses[at].harness == harness ==> model.name_for(
            harness,
            general,
        ) == model.harnesses[at].display_name && model.models_of(harness)
            == model.harnesses[at].available_models,
        at == model.harnesses.len() ==> model.name_for(harness, general) == general
            && model.models_of(harness).len() == 0 && !model.is_enabled(harness),
{
    crate::harness::lemma_entry_of(model.harnesses, harness);
    let found = crate::harness::entry_of(model.harnesses, harness);
    if found < at {
        assert(model.harnesses[found].harness != harness);
    }
}

/// A harness is enabled where an entry for it is, and any is where one of them is; a further entry
/// that is not enabled changes neither.
pub proof fn law_enabled_entries_count(
    model: AvailabilityView,
    entry: crate::harness::HarnessView,
    harness: Harness,
)
    ensures
        model.is_enabled(harness) ==> model.any_enabled(),
        ({
            let more = AvailabilityView { harnesses: model.harnesses.push(entry), ..model };
            &&& more.is_enabled(harness) <==> model.is_enabled(harness) || (entry.harness == harness
                && entry.enabled)
            &&& more.any_enabled() <==> model.any_enabled() || entry.enabled
        }),
{
    let all = model.harnesses.push(entry);
    let more = AvailabilityView { harnesses: all, ..model };
    let n = model.harnesses.len() as int;
    assert(more.harnesses[n] == entry);
    if model.is_enabled(harness) {
        let i = choose|i: int|
            0 <= i < n && (#[trigger] model.harnesses[i]).harness == harness
                && model.harnesses[i].enabled;
        assert(more.harnesses[i] == model.harnesses[i]);
    }
    if model.any_enabled() {
        let i = choose|i: int| 0 <= i < n && (#[trigger] model.harnesses[i]).enabled;
        assert(more.harnesses[i] == model.harnesses[i]);
    }
    if more.is_enabled(harness) {
        let i = choose|i: int|
            0 <= i < all.len() && (#[trigger] more.harnesses[i]).harness == harness
                && more.harnesses[i].enabled;
        if i < n {
            assert(more.harnesses[i] == model.harnesses[i]);
        }
    }
    if more.any_enabled() {
        let i = choose|i: int| 0 <= i < all.len() && (#[trigger] more.harnesses[i]).enabled;
        if i < n {
            assert(more.harnesses[i] == model.harnesses[i]);
        }
    }
}

/// After a login nothing is left of the secrets of whoever was logged in before; other events leave
/// everything as it is.
pub proof fn law_logins_forget_the_secrets(
    model: AvailabilityView,
    event: OutsideEvent,
    harness: Harness,
)
    ensures
        event is AuthComplete ==> model.after_event(event).secrets_of(harness) is NotFetched,
        !(event is AuthComplete) ==> model.after_event(event) == model,
        model.after_event(event).harnesses == model.harnesses,
{
}

/// The selector is shown where there is a choice, enabled or not, and only while the feature is on.
pub proof fn law_the_selector_needs_a_choice(
    model: AvailabilityView,
    first: crate::harness::HarnessView,
    second: crate::harness::HarnessView,
    more: Seq<crate::harness::HarnessView>,
)
    ensures
        !model.shows_selector(false),
        !(AvailabilityView { harnesses: seq![first], ..model }).shows_selector(true),
        (AvailabilityView { harnesses: seq![first, second] + more, ..model }).shows_selector(true),
{
}

} // verus!
