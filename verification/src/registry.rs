//! The registry of directories.
//!
//! The directories that the configuration declares are built in one pass.
//! A directory that is switched off is passed over. A directory whose type
//! is not known, or whose backend could not be set up, is left out and a
//! diagnostic says why; the others are built all the same, so that one
//! mistake does not take the whole server down. Setting up a backend is not
//! done here: whoever runs the pass does it and reports what came of it,
//! and the diagnostic is then recorded against a key of that directory.

use crate::cache::{filed, fresh, CacheKey, CachedDirectory, Kept, Operation};
use crate::memory::MemoryDirectory;
use crate::principal::Principal;
use crate::text::{debug_form, debug_string, str_eq};
use ahash::{AHashMap, RandomState};
use vstd::prelude::*;
use vstd::string::StringExecFns;

verus! {

/// The hash map of ahash, a `HashMap` of std with another hasher.
#[verifier::external_type_specification]
#[verifier::external_body]
#[verifier::reject_recursive_types(K)]
#[verifier::reject_recursive_types(V)]
#[verifier::reject_recursive_types(S)]
pub struct ExAHashMap<K, V, S>(AHashMap<K, V, S>);

/// The hasher state of ahash.
#[verifier::external_type_specification]
#[verifier::external_body]
pub struct ExRandomState(RandomState);

/// The protocols by which a directory can be reached.
#[derive(Debug, Clone, Copy, PartialEq, Eq, Hash, Structural)]
pub enum Protocol {
    Internal,
    Ldap,
    Sql,
    Imap,
    Smtp,
    Lmtp,
    Memory,
}

impl Protocol {
    /// The protocol that a value of the key `type` names, if it names one.
    pub open spec fn of_token(word: Seq<char>) -> Option<Protocol> {
        if word == "internal"@ {
            Some(Protocol::Internal)
        } else if word == "ldap"@ {
            Some(Protocol::Ldap)
        } else if word == "sql"@ {
            Some(Protocol::Sql)
        } else if word == "imap"@ {
            Some(Protocol::Imap)
        } else if word == "smtp"@ {
            Some(Protocol::Smtp)
        } else if word == "lmtp"@ {
            Some(Protocol::Lmtp)
        } else if word == "memory"@ {
            Some(Protocol::Memory)
        } else {
            None
        }
    }

    /// The protocol that a value of the key `type` names. The names are
    /// matched letter for letter.
    pub fn parse(word: &str) -> (protocol: Option<Protocol>)
        ensures
            protocol == Protocol::of_token(word@),
    {
        if str_eq(word, "internal") {
            Some(Protocol::Internal)
        } else if str_eq(word, "ldap") {
            Some(Protocol::Ldap)
        } else if str_eq(word, "sql") {
            Some(Protocol::Sql)
        } else if str_eq(word, "imap") {
            Some(Protocol::Imap)
        } else if str_eq(word, "smtp") {
            Some(Protocol::Smtp)
        } else if str_eq(word, "lmtp") {
            Some(Protocol::Lmtp)
        } else if str_eq(word, "memory") {
            Some(Protocol::Memory)
        } else {
            None
        }
    }
}

/// What the registry holds of a backend. Of a backend that lives outside
/// this process it holds the kind alone; the connection is the caller's.
#[derive(Debug, Clone, PartialEq, Eq)]
pub enum DirectoryInner {
    Internal,
    Ldap,
    Sql,
    Imap,
    Smtp { is_lmtp: bool },
    Memory(MemoryDirectory),
}

/// An answer of a backend, as the cache keeps it.
#[derive(Debug, Clone, PartialEq, Eq)]
pub enum Answer {
    Principal(Option<Principal>),
    Members(Vec<u32>),
    Emails(Vec<String>),
}

/// A directory: a backend and, where one is configured, the cache in front
/// of it.
pub struct Directory {
    pub store: DirectoryInner,
    pub cache: Option<CachedDirectory<Answer>>,
}

/// What a cache is at a given moment.
pub struct CacheView {
    pub ttl: u64,
    pub kept: Map<CacheKey, Kept<Answer>>,
}

/// What a directory is at a given moment.
pub struct DirectoryView {
    pub store: DirectoryInner,
    pub cache: Option<CacheView>,
}

impl View for Directory {
    type V = DirectoryView;

    open spec fn view(&self) -> DirectoryView {
        DirectoryView {
            store: self.store,
            cache: match self.cache {
                Some(cache) => Some(CacheView { ttl: cache.time_to_live(), kept: cache@ }),
                None => None,
            },
        }
    }
}

/// Something that went wrong with one key of the configuration.
#[derive(Debug, Clone, PartialEq, Eq)]
pub struct Diagnostic {
    pub key: String,
    pub message: String,
}

/// A diagnostic as mathematics sees it.
pub struct DiagnosticView {
    pub key: Seq<char>,
    pub message: Seq<char>,
}

impl View for Diagnostic {
    type V = DiagnosticView;

    open spec fn view(&self) -> DiagnosticView {
        DiagnosticView { key: self.key@, message: self.message@ }
    }
}

/// One directory as the configuration declares it, with what came of
/// setting up its backend.
pub struct DirectoryConfig {
    /// The name under which the directory is declared and later found.
    pub id: String,
    /// The value of the key `type`.
    pub protocol: String,
    /// The value of the key `disable`.
    pub disable: bool,
    /// For how long answers are kept, where a cache is configured.
    pub cache_ttl: Option<u64>,
    /// The principals that a directory of the type `memory` declares.
    pub principals: Vec<Principal>,
    /// What came of setting up the backend.
    pub setup: Setup,
}

/// What came of bringing up the store of an internal directory.
#[derive(Debug, Clone, PartialEq, Eq)]
pub enum StoreOutcome {
    /// The store is up.
    Ready,
    /// No store has the name.
    Missing,
    /// The store could not be brought up, for the reason given as it is to
    /// be shown.
    Failed(String),
}

/// What came of setting up the backend of a directory.
#[derive(Debug, Clone, PartialEq, Eq)]
pub enum Setup {
    /// The backend is ready.
    Ready,
    /// The directory keeps its principals in the store that its key `store`
    /// names, and this came of bringing that store up.
    Store { store: String, outcome: StoreOutcome },
    /// The backend could not be set up. The key is the one that is at
    /// fault, given below the directory: `url` for `directory.<id>.url`.
    Failed { key: String, message: String },
}

/// What all keys of the directory `id` begin with.
pub open spec fn directory_prefix(id: Seq<char>) -> Seq<char> {
    "directory."@ + id + "."@
}

/// The key `below` of the directory `id`.
pub open spec fn directory_key(id: Seq<char>, below: Seq<char>) -> Seq<char> {
    directory_prefix(id) + below
}

/// The key that holds the type of the directory `id`.
pub open spec fn type_key(id: Seq<char>) -> Seq<char> {
    directory_key(id, "type"@)
}

/// The key that names the store of the directory `id`.
pub open spec fn store_key(id: Seq<char>) -> Seq<char> {
    directory_key(id, "store"@)
}

/// What is said of a store that could not be brought up, given its name
/// and the reason as they are to be shown.
pub open spec fn store_failed_message(store_shown: Seq<char>, reason: Seq<char>) -> Seq<char> {
    "Failed to initialize store "@ + store_shown + ": "@ + reason
}

/// What is recorded of the store of the directory `id`: nothing where the
/// store is up, else a diagnostic against the key that names the store.
pub open spec fn store_failure_of(
    id: Seq<char>,
    store: Seq<char>,
    outcome: StoreOutcome,
) -> Option<DiagnosticView> {
    match outcome {
        StoreOutcome::Ready => None,
        StoreOutcome::Missing => Some(
            DiagnosticView { key: store_key(id), message: "Store does not exist"@ },
        ),
        StoreOutcome::Failed(reason) => Some(
            DiagnosticView {
                key: store_key(id),
                message: store_failed_message(debug_form(store), reason@),
            },
        ),
    }
}

/// What is recorded of the backend of the directory `id`: nothing where it
/// is ready, else a diagnostic against a key of that directory.
pub open spec fn setup_failure(id: Seq<char>, setup: Setup) -> Option<DiagnosticView> {
    match setup {
        Setup::Ready => None,
        Setup::Store { store, outcome } => store_failure_of(id, store@, outcome),
        Setup::Failed { key, message } => Some(
            DiagnosticView { key: directory_key(id, key@), message: message@ },
        ),
    }
}

/// What is said of a type that is not known, given the type as it is to be
/// shown.
pub open spec fn unknown_type_message(shown: Seq<char>) -> Seq<char> {
    "Unknown directory type: "@ + shown
}

/// The backend that a protocol stands for. The principals are those of the
/// configuration; only the type `memory` uses them.
pub open spec fn backend_of(protocol: Protocol, principals: Vec<Principal>) -> DirectoryInner {
    match protocol {
        Protocol::Internal => DirectoryInner::Internal,
        Protocol::Ldap => DirectoryInner::Ldap,
        Protocol::Sql => DirectoryInner::Sql,
        Protocol::Imap => DirectoryInner::Imap,
        Protocol::Smtp => DirectoryInner::Smtp { is_lmtp: false },
        Protocol::Lmtp => DirectoryInner::Smtp { is_lmtp: true },
        Protocol::Memory => DirectoryInner::Memory(MemoryDirectory { principals }),
    }
}

/// What becomes of one declared directory.
pub enum Verdict {
    /// The directory is switched off.
    Skipped,
    /// The directory is left out, for the reason given.
    Rejected(DiagnosticView),
    /// The directory is built.
    Built(DirectoryView),
}

/// What becomes of the directory that `config` declares.
pub open spec fn verdict(config: DirectoryConfig) -> Verdict {
    if config.disable {
        Verdict::Skipped
    } else {
        match Protocol::of_token(config.protocol@) {
            None => Verdict::Rejected(
                DiagnosticView {
                    key: type_key(config.id@),
                    message: unknown_type_message(debug_form(config.protocol@)),
                },
            ),
            Some(protocol) => match setup_failure(config.id@, config.setup) {
                Some(diagnostic) => Verdict::Rejected(diagnostic),
                None => Verdict::Built(
                    DirectoryView {
                        store: backend_of(protocol, config.principals),
                        cache: match config.cache_ttl {
                            Some(ttl) => Some(CacheView { ttl, kept: Map::empty() }),
                            None => None,
                        },
                    },
                ),
            },
        }
    }
}

/// The directories that the pass over `configs` leaves in the registry. Of
/// two directories with one name the later one stays.
pub open spec fn registered(configs: Seq<DirectoryConfig>) -> Map<Seq<char>, DirectoryView>
    decreases configs.len(),
{
    if configs.len() == 0 {
        Map::empty()
    } else {
        let before = registered(configs.drop_last());
        match verdict(configs.last()) {
            Verdict::Built(directory) => before.insert(configs.last().id@, directory),
            _ => before,
        }
    }
}

/// The diagnostics that the pass over `configs` records, in the order of
/// the directories.
pub open spec fn reported(configs: Seq<DirectoryConfig>) -> Seq<DiagnosticView>
    decreases configs.len(),
{
    if configs.len() == 0 {
        Seq::empty()
    } else {
        let before = reported(configs.drop_last());
        match verdict(configs.last()) {
            Verdict::Rejected(diagnostic) => before.push(diagnostic),
            _ => before,
        }
    }
}

/// The directories that a map of ahash holds, each under its name.
pub uninterp spec fn directory_map(map: AHashMap<String, Directory>) -> Map<Seq<char>, Directory>;

/// `AHashMap::new` of ahash: a map that holds nothing.
#[verifier::external_body]
fn map_new() -> (created: AHashMap<String, Directory>)
    ensures
        directory_map(created) =~= Map::empty(),
{
    AHashMap::new()
}

/// `AHashMap::insert` of ahash, which is `HashMap::insert` of std: the
/// value is held under the key afterwards, whatever was held under it
/// before is handed back, and nothing else changes.
#[verifier::external_body]
fn map_insert(map: &mut AHashMap<String, Directory>, id: String, directory: Directory) -> (previous:
    Option<Directory>)
    ensures
        directory_map(*final(map)) == directory_map(*old(map)).insert(id@, directory),
        previous == if directory_map(*old(map)).contains_key(id@) {
            Some(directory_map(*old(map))[id@])
        } else {
            None
        },
{
    map.insert(id, directory)
}

/// `AHashMap::get` of ahash, which is `HashMap::get` of std: the value held
/// under the key, if one is.
#[verifier::external_body]
fn map_get<'a>(map: &'a AHashMap<String, Directory>, id: &str) -> (found: Option<&'a Directory>)
    ensures
        found == if directory_map(*map).contains_key(id@) {
            Some(&directory_map(*map)[id@])
        } else {
            None
        },
{
    map.get(id)
}

/// `HashMap::len` of std, reached through the `Deref` of ahash's map: the
/// number of keys that the map holds.
#[verifier::external_body]
fn map_len(map: &AHashMap<String, Directory>) -> (count: usize)
    ensures
        count == directory_map(*map).dom().len(),
{
    map.len()
}

/// Puts together the key `below` of the directory `id`.
pub fn directory_key_of(id: &str, below: &str) -> (key: String)
    ensures
        key@ == directory_key(id@, below@),
{
    let mut key = "directory.".to_owned();
    key.append(id);
    key.append(".");
    key.append(below);
    key
}

/// Puts together the key that holds the type of the directory `id`.
pub fn type_key_of(id: &str) -> (key: String)
    ensures
        key@ == type_key(id@),
{
    directory_key_of(id, "type")
}

/// Puts together what is said of a store that could not be brought up,
/// given its name and the reason as they are to be shown.
pub fn store_failed_error(store_shown: &str, reason: &str) -> (message: String)
    ensures
        message@ == store_failed_message(store_shown@, reason@),
{
    let mut message = "Failed to initialize store ".to_owned();
    message.append(store_shown);
    message.append(": ");
    message.append(reason);
    message
}

/// What is recorded of the store `store_id` of the internal directory
/// `id`, given what came of bringing the store up.
pub fn store_failure(id: &str, store_id: &str, outcome: &StoreOutcome) -> (r: Option<Diagnostic>)
    ensures
        match store_failure_of(id@, store_id@, *outcome) {
            Some(diagnostic) => r matches Some(found) && found@ == diagnostic,
            None => r is None,
        },
{
    match outcome {
        StoreOutcome::Ready => None,
        StoreOutcome::Missing => Some(
            Diagnostic {
                key: directory_key_of(id, "store"),
                message: "Store does not exist".to_owned(),
            },
        ),
        StoreOutcome::Failed(reason) => {
            let shown = debug_string(store_id);
            Some(
                Diagnostic {
                    key: directory_key_of(id, "store"),
                    message: store_failed_error(shown.as_str(), reason.as_str()),
                },
            )
        },
    }
}

/// What is recorded of the backend of the directory `id`, given what came
/// of setting it up.
pub fn failure_of(id: &str, setup: Setup) -> (r: Option<Diagnostic>)
    ensures
        match setup_failure(id@, setup) {
            Some(diagnostic) => r matches Some(found) && found@ == diagnostic,
            None => r is None,
        },
{
    match setup {
        Setup::Ready => None,
        Setup::Store { store, outcome } => store_failure(id, store.as_str(), &outcome),
        Setup::Failed { key, message } => Some(
            Diagnostic { key: directory_key_of(id, key.as_str()), message },
        ),
    }
}

/// Puts together what is said of a type that is not known, given the type
/// as it is to be shown.
pub fn unknown_type_error(shown: &str) -> (message: String)
    ensures
        message@ == unknown_type_message(shown@),
{
    let mut message = "Unknown directory type: ".to_owned();
    message.append(shown);
    message
}

/// The backend that a protocol stands for.
pub fn backend_for(protocol: Protocol, principals: Vec<Principal>) -> (store: DirectoryInner)
    ensures
        store == backend_of(protocol, principals),
{
    match protocol {
        Protocol::Internal => DirectoryInner::Internal,
        Protocol::Ldap => DirectoryInner::Ldap,
        Protocol::Sql => DirectoryInner::Sql,
        Protocol::Imap => DirectoryInner::Imap,
        Protocol::Smtp => DirectoryInner::Smtp { is_lmtp: false },
        Protocol::Lmtp => DirectoryInner::Smtp { is_lmtp: true },
        Protocol::Memory => DirectoryInner::Memory(MemoryDirectory::new(principals)),
    }
}

/// What is to be done about a declared directory before its backend is
/// set up.
#[derive(Debug, Clone, Copy, PartialEq, Eq, Structural)]
pub enum Plan {
    /// Nothing: the directory is switched off.
    Skip,
    /// Nothing: the type is not known, and a diagnostic says so.
    Reject,
    /// The backend of this protocol is to be set up.
    Construct(Protocol),
}

/// The items of `items` in the opposite order.
fn reversed(items: Vec<DirectoryConfig>) -> (turned: Vec<DirectoryConfig>)
    ensures
        turned@ == items@.reverse(),
{
    let mut items = items;
    let ghost all = items@;
    let mut turned: Vec<DirectoryConfig> = Vec::new();
    while items.len() > 0
        invariant
            items@.len() + turned@.len() == all.len(),
            items@ == all.take(items@.len() as int),
            forall|j: int| 0 <= j < turned@.len() ==> turned@[j] == all[all.len() - 1 - j],
        decreases items@.len(),
    {
        let ghost before = items@;
        let item = items.pop().unwrap();
        proof {
            assert(items@ =~= all.take(items@.len() as int));
        }
        turned.push(item);
    }
    proof {
        assert(turned@ =~= all.reverse());
    }
    turned
}

/// `AHashMap::remove` of ahash, which is `HashMap::remove` of std: what was
/// held under the key is handed out and is no longer held, and nothing
/// else changes.
#[verifier::external_body]
fn map_remove(map: &mut AHashMap<String, Directory>, id: &str) -> (removed: Option<Directory>)
    ensures
        directory_map(*final(map)) == directory_map(*old(map)).remove(id@),
        removed == if directory_map(*old(map)).contains_key(id@) {
            Some(directory_map(*old(map))[id@])
        } else {
            None
        },
{
    map.remove(id)
}

/// The answer that the cache of a directory has under `key` and that is
/// still good at the time `now`. A directory without a cache has none.
pub open spec fn cached_answer(directory: DirectoryView, key: CacheKey, now: u64) -> Option<Answer> {
    match directory.cache {
        Some(cache) => fresh(cache.kept, key, now),
        None => None,
    }
}

/// The directory after its backend answered `answer` under `key` at the
/// time `now`. A directory without a cache keeps nothing.
pub open spec fn with_answer(
    directory: DirectoryView,
    key: CacheKey,
    answer: Answer,
    now: u64,
) -> DirectoryView {
    match directory.cache {
        Some(cache) => DirectoryView {
            store: directory.store,
            cache: Some(
                CacheView { ttl: cache.ttl, kept: filed(cache.kept, key, answer, now, cache.ttl) },
            ),
        },
        None => directory,
    }
}

/// The directories by name, and what went wrong while they were built.
pub struct Directories {
    directories: AHashMap<String, Directory>,
    diagnostics: Vec<Diagnostic>,
}

impl Directories {
    /// The directories that are held, each under its name.
    pub closed spec fn entries(&self) -> Map<Seq<char>, Directory> {
        directory_map(self.directories)
    }

    /// The directories that are held, as they are at this moment.
    pub open spec fn view_entries(&self) -> Map<Seq<char>, DirectoryView> {
        self.entries().map_values(|directory: Directory| directory@)
    }

    /// The diagnostics that were recorded, the first one first.
    pub closed spec fn view_diagnostics(&self) -> Seq<DiagnosticView> {
        self.diagnostics@.map_values(|diagnostic: Diagnostic| diagnostic@)
    }

    /// Only finitely many directories are held.
    #[verifier::type_invariant]
    closed spec fn finite(&self) -> bool {
        directory_map(self.directories).dom().finite()
    }

    /// A registry that holds nothing.
    pub fn new() -> (registry: Directories)
        ensures
            registry.entries() == Map::<Seq<char>, Directory>::empty(),
            registry.view_diagnostics() == Seq::<DiagnosticView>::empty(),
    {
        let directories = map_new();
        let diagnostics: Vec<Diagnostic> = Vec::new();
        proof {
            assert(diagnostics@.map_values(|diagnostic: Diagnostic| diagnostic@)
                =~= Seq::<DiagnosticView>::empty());
        }
        Directories { directories, diagnostics }
    }

    /// The directory named `id`. That there is none is the caller's to deal
    /// with.
    pub fn get(&self, id: &str) -> (found: Option<&Directory>)
        ensures
            found == if self.entries().contains_key(id@) {
                Some(&self.entries()[id@])
            } else {
                None
            },
    {
        map_get(&self.directories, id)
    }

    /// The number of directories that are held.
    pub fn len(&self) -> (len: usize)
        ensures
            self.entries().dom().finite(),
            len == self.entries().dom().len(),
    {
        proof {
            use_type_invariant(self);
        }
        map_len(&self.directories)
    }

    /// The diagnostics that were recorded, the first one first.
    pub fn diagnostics(&self) -> (diagnostics: &Vec<Diagnostic>)
        ensures
            diagnostics@.map_values(|diagnostic: Diagnostic| diagnostic@)
                == self.view_diagnostics(),
    {
        &self.diagnostics
    }

    /// Records that something went wrong with the key `key`.
    pub fn report(&mut self, key: String, message: String)
        ensures
            final(self).entries() == old(self).entries(),
            final(self).view_diagnostics() == old(self).view_diagnostics().push(
                DiagnosticView { key: key@, message: message@ },
            ),
    {
        let ghost before = self.diagnostics@;
        let mut diagnostics: Vec<Diagnostic> = Vec::new();
        proof {
            use_type_invariant(&*self);
        }
        core::mem::swap(&mut self.diagnostics, &mut diagnostics);
        diagnostics.push(Diagnostic { key, message });
        proof {
            assert(diagnostics@.map_values(|diagnostic: Diagnostic| diagnostic@) =~= before.map_values(
                |diagnostic: Diagnostic| diagnostic@,
            ).push(DiagnosticView { key: key@, message: message@ }));
        }
        self.diagnostics = diagnostics;
    }

    /// Decides what is to be done about the directory `id`, given the
    /// values of its keys `type` and `disable`. A directory that is
    /// switched off is passed over in silence, whatever its type. A type
    /// that is not known is recorded against the key of the type, and the
    /// directory is left out.
    pub fn plan(&mut self, id: &str, protocol: &str, disable: bool) -> (plan: Plan)
        ensures
            final(self).entries() == old(self).entries(),
            disable ==> plan == Plan::Skip && final(self).view_diagnostics() == old(
                self,
            ).view_diagnostics(),
            !disable ==> match Protocol::of_token(protocol@) {
                Some(known) => plan == Plan::Construct(known) && final(self).view_diagnostics()
                    == old(self).view_diagnostics(),
                None => plan == Plan::Reject && final(self).view_diagnostics() == old(
                    self,
                ).view_diagnostics().push(
                    DiagnosticView {
                        key: type_key(id@),
                        message: unknown_type_message(debug_form(protocol@)),
                    },
                ),
            },
    {
        if disable {
            return Plan::Skip;
        }
        match Protocol::parse(protocol) {
            Some(known) => Plan::Construct(known),
            None => {
                let shown = debug_string(protocol);
                self.report(type_key_of(id), unknown_type_error(shown.as_str()));
                Plan::Reject
            },
        }
    }

    /// Takes in one declared directory with what came of setting up its
    /// backend.
    pub fn take_in(&mut self, config: DirectoryConfig)
        ensures
            match verdict(config) {
                Verdict::Skipped => final(self).view_entries() == old(self).view_entries()
                    && final(self).view_diagnostics() == old(self).view_diagnostics(),
                Verdict::Rejected(diagnostic) => final(self).view_entries() == old(
                    self,
                ).view_entries() && final(self).view_diagnostics() == old(
                    self,
                ).view_diagnostics().push(diagnostic),
                Verdict::Built(directory) => final(self).view_entries() == old(
                    self,
                ).view_entries().insert(config.id@, directory) && final(self).view_diagnostics()
                    == old(self).view_diagnostics(),
            },
    {
        let DirectoryConfig { id, protocol, disable, cache_ttl, principals, setup } = config;
        match self.plan(id.as_str(), protocol.as_str(), disable) {
            Plan::Skip => {},
            Plan::Reject => {},
            Plan::Construct(known) => {
                match failure_of(id.as_str(), setup) {
                    Some(diagnostic) => {
                        let Diagnostic { key, message } = diagnostic;
                        self.report(key, message);
                    },
                    None => {
                        self.add(id, backend_for(known, principals), cache_ttl);
                    },
                }
            },
        }
    }

    /// Builds the registry of the directories that the configuration
    /// declares, in the order in which it declares them.
    pub fn parse(configs: Vec<DirectoryConfig>) -> (registry: Directories)
        ensures
            registry.view_entries() == registered(configs@),
            registry.view_diagnostics() == reported(configs@),
    {
        let ghost all = configs@;
        let mut stack = reversed(configs);
        let mut registry = Directories::new();
        proof {
            assert(registry.view_entries() =~= Map::<Seq<char>, DirectoryView>::empty());
            assert(all.take(0) =~= Seq::<DirectoryConfig>::empty());
        }
        while stack.len() > 0
            invariant
                stack@.len() <= all.len(),
                forall|j: int| 0 <= j < stack@.len() ==> stack@[j] == all[all.len() - 1 - j],
                registry.view_entries() == registered(all.take(all.len() - stack@.len())),
                registry.view_diagnostics() == reported(all.take(all.len() - stack@.len())),
            decreases stack@.len(),
        {
            let ghost done = all.len() - stack@.len();
            let config = stack.pop().unwrap();
            proof {
                assert(config == all[done]);
                let upto = all.take(done + 1);
                assert(upto.drop_last() =~= all.take(done));
                assert(upto.last() == config);
            }
            registry.take_in(config);
        }
        proof {
            assert(all.take(all.len() as int) =~= all);
        }
        registry
    }

    /// Builds the registry for a caller that wants a result to test. The
    /// result is always a registry: a directory that cannot be built is
    /// left out and reported in it, as [`Directories::parse`] does, and
    /// never makes the build fail.
    pub fn parse_directory(configs: Vec<DirectoryConfig>) -> (r: Result<Directories, String>)
        ensures
            r matches Ok(registry) && registry.view_entries() == registered(configs@)
                && registry.view_diagnostics() == reported(configs@),
    {
        Ok(Directories::parse(configs))
    }

    /// The answer of the directory `id` to `operation` on `argument` that
    /// its cache holds and that is still good at the time `now`. With
    /// `None` the caller asks the backend, and files what it says.
    pub fn cached(&self, id: &str, operation: Operation, argument: &str, now: u64) -> (answer:
        Option<&Answer>)
        ensures
            answer == if self.view_entries().contains_key(id@) {
                match cached_answer(
                    self.view_entries()[id@],
                    CacheKey { operation, argument: argument@ },
                    now,
                ) {
                    Some(kept) => Some(&kept),
                    None => None,
                }
            } else {
                None
            },
    {
        match map_get(&self.directories, id) {
            Some(directory) => match &directory.cache {
                Some(cache) => cache.get(operation, argument, now),
                None => None,
            },
            None => None,
        }
    }

    /// Files what the backend of the directory `id` answered to
    /// `operation` on `argument` at the time `now`. Nothing is kept for a
    /// directory that is not there or has no cache.
    pub fn file(&mut self, id: &str, operation: Operation, argument: String, answer: Answer, now: u64)
        ensures
            final(self).view_diagnostics() == old(self).view_diagnostics(),
            final(self).view_entries() == if old(self).view_entries().contains_key(id@) {
                old(self).view_entries().insert(
                    id@,
                    with_answer(
                        old(self).view_entries()[id@],
                        CacheKey { operation, argument: argument@ },
                        answer,
                        now,
                    ),
                )
            } else {
                old(self).view_entries()
            },
    {
        let ghost before = self.entries();
        let ghost key = CacheKey { operation, argument: argument@ };
        let mut directories = map_new();
        proof {
            use_type_invariant(&*self);
        }
        core::mem::swap(&mut self.directories, &mut directories);
        match map_remove(&mut directories, id) {
            Some(directory) => {
                let Directory { store, cache } = directory;
                let cache = match cache {
                    Some(cache) => {
                        let mut cache = cache;
                        cache.insert(operation, argument, answer, now);
                        Some(cache)
                    },
                    None => None,
                };
                let changed = Directory { store, cache };
                map_insert(&mut directories, id.to_owned(), changed);
                proof {
                    assert(directory_map(directories) =~= before.insert(id@, changed));
                    assert(changed@ == with_answer(before[id@]@, key, answer, now));
                    assert(directory_map(directories).map_values(|directory: Directory| directory@)
                        =~= before.map_values(|directory: Directory| directory@).insert(
                        id@,
                        changed@,
                    ));
                }
            },
            None => {
                proof {
                    assert(directory_map(directories) =~= before);
                }
            },
        }
        self.directories = directories;
    }

    /// Puts a directory into the registry under the name `id`, in place of
    /// the one that was there under that name, if one was. With a
    /// time-to-live the directory gets a cache that is empty.
    pub fn add(&mut self, id: String, store: DirectoryInner, cache_ttl: Option<u64>)
        ensures
            final(self).view_diagnostics() == old(self).view_diagnostics(),
            final(self).view_entries() == old(self).view_entries().insert(
                id@,
                DirectoryView {
                    store,
                    cache: match cache_ttl {
                        Some(ttl) => Some(CacheView { ttl, kept: Map::empty() }),
                        None => None,
                    },
                },
            ),
    {
        let cache = match cache_ttl {
            Some(ttl) => Some(CachedDirectory::new(ttl)),
            None => None,
        };
        let directory = Directory { store, cache };
        let ghost before = self.entries();
        let mut directories = map_new();
        proof {
            use_type_invariant(&*self);
        }
        core::mem::swap(&mut self.directories, &mut directories);
        map_insert(&mut directories, id, directory);
        proof {
            assert(directory_map(directories).map_values(|directory: Directory| directory@)
                =~= before.map_values(|directory: Directory| directory@).insert(id@, directory@));
        }
        self.directories = directories;
    }
}

} // verus!
