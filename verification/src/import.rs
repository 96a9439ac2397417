//! Discovery of contexts in credential bundles, and the isolation of one
//! context with its cluster and its user into a bundle of its own.
//!
//! A bundle is a `kube::config::Kubeconfig`. What the logic here reads of it
//! (the names that bind contexts to clusters and users) is held in a `Bundle`
//! of plain values; the entries themselves, with the credentials in them, are
//! carried through unread.

use crate::input_validation::{optional_text, text_outcome, texts};
use vstd::prelude::*;

verus! {

// ---------------------------------------------------------------------------
// What a bundle binds
// ---------------------------------------------------------------------------

/// What a context binds together.
#[derive(Debug, Clone)]
pub struct ContextBinding {
    pub cluster: String,
    pub user: Option<String>,
    pub namespace: Option<String>,
}

/// A named context of a bundle; its binding may be missing.
#[derive(Debug, Clone)]
pub struct ContextEntry {
    pub name: String,
    pub binding: Option<ContextBinding>,
}

/// The names in a bundle: its contexts with their bindings, the names of its
/// clusters and of its users in their order, and its current context.
#[derive(Debug, Clone)]
pub struct Bundle {
    pub contexts: Vec<ContextEntry>,
    pub clusters: Vec<String>,
    pub users: Vec<String>,
    pub current_context: Option<String>,
}

pub struct ContextBindingView {
    pub cluster: Seq<char>,
    pub user: Option<Seq<char>>,
    pub namespace: Option<Seq<char>>,
}

pub struct ContextEntryView {
    pub name: Seq<char>,
    pub binding: Option<ContextBindingView>,
}

pub struct BundleView {
    pub contexts: Seq<ContextEntryView>,
    pub clusters: Seq<Seq<char>>,
    pub users: Seq<Seq<char>>,
    pub current_context: Option<Seq<char>>,
}

impl View for ContextBinding {
    type V = ContextBindingView;

    open spec fn view(&self) -> ContextBindingView {
        ContextBindingView {
            cluster: self.cluster@,
            user: optional_text(self.user),
            namespace: optional_text(self.namespace),
        }
    }
}

impl View for ContextEntry {
    type V = ContextEntryView;

    open spec fn view(&self) -> ContextEntryView {
        ContextEntryView {
            name: self.name@,
            binding: match self.binding {
                Some(b) => Some(b@),
                None => None,
            },
        }
    }
}

/// The values of a list of context entries.
pub open spec fn entry_views(entries: Seq<ContextEntry>) -> Seq<ContextEntryView> {
    entries.map_values(|e: ContextEntry| e@)
}

impl View for Bundle {
    type V = BundleView;

    open spec fn view(&self) -> BundleView {
        BundleView {
            contexts: entry_views(self.contexts@),
            clusters: texts(self.clusters@),
            users: texts(self.users@),
            current_context: optional_text(self.current_context),
        }
    }
}

// ---------------------------------------------------------------------------
// The bundle of the client library
// ---------------------------------------------------------------------------

/// A credential bundle as the `kube` client library holds it.
#[verifier::external_type_specification]
#[verifier::external_body]
pub struct ExKubeconfig(kube::config::Kubeconfig);

/// The error of `serde_yaml`, carried through unread.
#[verifier::external_type_specification]
#[verifier::external_body]
pub struct ExYamlError(serde_yaml::Error);

/// The contexts that a bundle holds, in its order.
pub uninterp spec fn bundle_contexts(k: kube::config::Kubeconfig) -> Seq<ContextEntryView>;

/// The names of the clusters that a bundle holds, in its order.
pub uninterp spec fn bundle_clusters(k: kube::config::Kubeconfig) -> Seq<Seq<char>>;

/// The names of the users that a bundle holds, in its order.
pub uninterp spec fn bundle_users(k: kube::config::Kubeconfig) -> Seq<Seq<char>>;

/// The name that a bundle gives as its current context, if it gives one.
pub uninterp spec fn bundle_current(k: kube::config::Kubeconfig) -> Seq<Seq<char>>;

/// The names in a bundle.
pub open spec fn bundle_view(k: kube::config::Kubeconfig) -> BundleView {
    BundleView {
        contexts: bundle_contexts(k),
        clusters: bundle_clusters(k),
        users: bundle_users(k),
        current_context: if bundle_current(k).len() > 0 {
            Some(bundle_current(k)[0])
        } else {
            None
        },
    }
}

/// The field `contexts` of a `Kubeconfig`, each entry's name and binding
/// copied out.
#[verifier::external_body]
fn context_entries(k: &kube::config::Kubeconfig) -> (entries: Vec<ContextEntry>)
    ensures
        entry_views(entries@) == bundle_contexts(*k),
{
    k.contexts.iter().map(|c| ContextEntry {
        name: c.name.clone(),
        binding: c.context.as_ref().map(|b| ContextBinding {
            cluster: b.cluster.clone(),
            user: b.user.clone(),
            namespace: b.namespace.clone(),
        }),
    }).collect()
}

/// The field `clusters` of a `Kubeconfig`, each entry's name copied out.
#[verifier::external_body]
fn cluster_names(k: &kube::config::Kubeconfig) -> (names: Vec<String>)
    ensures
        texts(names@) == bundle_clusters(*k),
{
    k.clusters.iter().map(|c| c.name.clone()).collect()
}

/// The field `auth_infos` of a `Kubeconfig`, each entry's name copied out.
#[verifier::external_body]
fn user_names(k: &kube::config::Kubeconfig) -> (names: Vec<String>)
    ensures
        texts(names@) == bundle_users(*k),
{
    k.auth_infos.iter().map(|u| u.name.clone()).collect()
}

/// The field `current_context` of a `Kubeconfig`, as a list of at most one
/// name.
#[verifier::external_body]
fn current_names(k: &kube::config::Kubeconfig) -> (names: Vec<String>)
    ensures
        texts(names@) == bundle_current(*k),
        names@.len() <= 1,
{
    k.current_context.iter().cloned().collect()
}

/// A new `Kubeconfig` with one entry of each list of `k` (cloned), with
/// `current` as its current context, and with the general fields of `k`.
#[verifier::external_body]
fn single_context_bundle(
    k: &kube::config::Kubeconfig,
    context: usize,
    cluster: usize,
    user: usize,
    current: &str,
) -> (r: kube::config::Kubeconfig)
    requires
        context < bundle_contexts(*k).len(),
        cluster < bundle_clusters(*k).len(),
        user < bundle_users(*k).len(),
    ensures
        bundle_contexts(r) == seq![bundle_contexts(*k)[context as int]],
        bundle_clusters(r) == seq![bundle_clusters(*k)[cluster as int]],
        bundle_users(r) == seq![bundle_users(*k)[user as int]],
        bundle_current(r) == seq![current@],
{
    kube::config::Kubeconfig {
        api_version: k.api_version.clone(),
        kind: k.kind.clone(),
        preferences: k.preferences.clone(),
        clusters: vec![k.clusters[cluster].clone()],
        auth_infos: vec![k.auth_infos[user].clone()],
        contexts: vec![k.contexts[context].clone()],
        current_context: Some(current.to_string()),
        extensions: k.extensions.clone(),
    }
}

/// `serde_yaml::to_string` on a `Kubeconfig`.
#[verifier::external_body]
fn to_yaml(k: &kube::config::Kubeconfig) -> (r: Result<String, serde_yaml::Error>) {
    serde_yaml::to_string(k)
}

/// The `Display` text of a `serde_yaml::Error`.
#[verifier::external_body]
fn yaml_error_text(e: &serde_yaml::Error) -> (text: String) {
    e.to_string()
}

/// Reads the names out of a bundle.
pub fn index_bundle(k: &kube::config::Kubeconfig) -> (bundle: Bundle)
    ensures
        bundle@ == bundle_view(*k),
{
    let mut current = current_names(k);
    let ghost names = texts(current@);
    let current_context = current.pop();
    proof {
        if names.len() > 0 {
            assert(names[0] == current_context->Some_0@);
        }
    }
    Bundle {
        contexts: context_entries(k),
        clusters: cluster_names(k),
        users: user_names(k),
        current_context,
    }
}

// ---------------------------------------------------------------------------
// Discovery
// ---------------------------------------------------------------------------

/// A context found in a bundle, with the file it was found in.
#[derive(Debug, Clone)]
pub struct DiscoveredContext {
    pub context_name: String,
    pub cluster_name: String,
    pub user_name: String,
    pub namespace: Option<String>,
    pub source_file: String,
}

pub struct DiscoveredContextView {
    pub context_name: Seq<char>,
    pub cluster_name: Seq<char>,
    pub user_name: Seq<char>,
    pub namespace: Option<Seq<char>>,
    pub source_file: Seq<char>,
}

impl View for DiscoveredContext {
    type V = DiscoveredContextView;

    open spec fn view(&self) -> DiscoveredContextView {
        DiscoveredContextView {
            context_name: self.context_name@,
            cluster_name: self.cluster_name@,
            user_name: self.user_name@,
            namespace: optional_text(self.namespace),
            source_file: self.source_file@,
        }
    }
}

/// The values of a list of discovered contexts.
pub open spec fn discovered_views(list: Seq<DiscoveredContext>) -> Seq<DiscoveredContextView> {
    list.map_values(|d: DiscoveredContext| d@)
}

/// What is discovered of a bound context: its names, an absent user read as
/// the empty name.
pub open spec fn discovered_entry(
    name: Seq<char>,
    binding: ContextBindingView,
    source_file: Seq<char>,
) -> DiscoveredContextView {
    DiscoveredContextView {
        context_name: name,
        cluster_name: binding.cluster,
        user_name: match binding.user {
            Some(u) => u,
            None => Seq::empty(),
        },
        namespace: binding.namespace,
        source_file,
    }
}

/// What is discovered among the first `upto` contexts: one entry for each
/// context that has a binding, in the bundle's order.
pub open spec fn discovered_below(
    contexts: Seq<ContextEntryView>,
    source_file: Seq<char>,
    upto: int,
) -> Seq<DiscoveredContextView>
    decreases upto,
{
    if upto <= 0 {
        Seq::empty()
    } else {
        let before = discovered_below(contexts, source_file, upto - 1);
        match contexts[upto - 1].binding {
            Some(b) => before.push(discovered_entry(contexts[upto - 1].name, b, source_file)),
            None => before,
        }
    }
}

/// What is discovered in a bundle read from `source_file`.
pub open spec fn discovered_in(contexts: Seq<ContextEntryView>, source_file: Seq<char>) -> Seq<
    DiscoveredContextView,
> {
    discovered_below(contexts, source_file, contexts.len() as int)
}

fn clone_optional(v: &Option<String>) -> (r: Option<String>)
    ensures
        optional_text(r) == optional_text(*v),
{
    match v {
        Some(s) => Some(s.clone()),
        None => None,
    }
}

/// The contexts of `bundle` that have a binding, as discovered in
/// `source_file`.
pub fn discover_contexts(bundle: &Bundle, source_file: &str) -> (found: Vec<DiscoveredContext>)
    ensures
        discovered_views(found@) == discovered_in(bundle@.contexts, source_file@),
{
    let mut found: Vec<DiscoveredContext> = Vec::new();
    let ghost contexts = bundle@.contexts;
    let mut i: usize = 0;
    while i < bundle.contexts.len()
        invariant
            i <= bundle.contexts.len(),
            contexts == entry_views(bundle.contexts@),
            discovered_views(found@) == discovered_below(contexts, source_file@, i as int),
        decreases bundle.contexts.len() - i,
    {
        let entry = &bundle.contexts[i];
        assert(contexts[i as int] == entry@);
        match &entry.binding {
            Some(b) => {
                let user_name = match &b.user {
                    Some(u) => u.clone(),
                    None => String::new(),
                };
                let item = DiscoveredContext {
                    context_name: entry.name.clone(),
                    cluster_name: b.cluster.clone(),
                    user_name,
                    namespace: clone_optional(&b.namespace),
                    source_file: String::from_str(source_file),
                };
                let ghost before = discovered_views(found@);
                found.push(item);
                assert(discovered_views(found@) =~= before.push(item@));
            },
            None => {},
        }
        i += 1;
    }
    found
}

/// The contexts of a bundle that was read from `source_file`.
pub fn discover_contexts_in_file(kubeconfig: &kube::config::Kubeconfig, source_file: &str) -> (found:
    Vec<DiscoveredContext>)
    ensures
        discovered_views(found@) == discovered_in(bundle_contexts(*kubeconfig), source_file@),
{
    let bundle = index_bundle(kubeconfig);
    discover_contexts(&bundle, source_file)
}

/// A regular file met while walking a folder: its path, and the names of the
/// bundle in it where it could be read as one.
#[derive(Debug, Clone)]
pub struct ScannedFile {
    pub path: String,
    pub bundle: Option<Bundle>,
}

pub struct ScannedFileView {
    pub path: Seq<char>,
    pub bundle: Option<BundleView>,
}

impl View for ScannedFile {
    type V = ScannedFileView;

    open spec fn view(&self) -> ScannedFileView {
        ScannedFileView {
            path: self.path@,
            bundle: match self.bundle {
                Some(b) => Some(b@),
                None => None,
            },
        }
    }
}

pub open spec fn scanned_views(files: Seq<ScannedFile>) -> Seq<ScannedFileView> {
    files.map_values(|f: ScannedFile| f@)
}

/// What is discovered in the first `upto` files of a walk: the contexts of
/// every file that is a bundle, file after file; other files add nothing.
pub open spec fn folder_discovered_below(files: Seq<ScannedFileView>, upto: int) -> Seq<
    DiscoveredContextView,
>
    decreases upto,
{
    if upto <= 0 {
        Seq::empty()
    } else {
        let before = folder_discovered_below(files, upto - 1);
        match files[upto - 1].bundle {
            Some(b) => before + discovered_in(b.contexts, files[upto - 1].path),
            None => before,
        }
    }
}

/// The contexts of all bundles among the files of a folder, in the order of
/// the walk. A file that is no bundle is passed over.
pub fn discover_contexts_in_folder(files: &Vec<ScannedFile>) -> (found: Vec<DiscoveredContext>)
    ensures
        discovered_views(found@) == folder_discovered_below(
            scanned_views(files@),
            files.len() as int,
        ),
{
    let mut found: Vec<DiscoveredContext> = Vec::new();
    let ghost all = scanned_views(files@);
    let mut i: usize = 0;
    while i < files.len()
        invariant
            i <= files.len(),
            all == scanned_views(files@),
            discovered_views(found@) == folder_discovered_below(all, i as int),
        decreases files.len() - i,
    {
        let file = &files[i];
        assert(all[i as int] == file@);
        match &file.bundle {
            Some(b) => {
                let mut more = discover_contexts(b, file.path.as_str());
                let ghost before = discovered_views(found@);
                let ghost added = discovered_views(more@);
                found.append(&mut more);
                assert(discovered_views(found@) =~= before + added);
            },
            None => {},
        }
        i += 1;
    }
    found
}

// ---------------------------------------------------------------------------
// Import candidates
// ---------------------------------------------------------------------------

/// A discovered context offered for import, with the name and description
/// suggested for the new cluster.
#[derive(Debug, Clone)]
pub struct ImportCandidate {
    pub context: DiscoveredContext,
    pub suggested_name: String,
    pub icon: Option<String>,
    pub description: Option<String>,
}

pub struct ImportCandidateView {
    pub context: DiscoveredContextView,
    pub suggested_name: Seq<char>,
    pub icon: Option<Seq<char>>,
    pub description: Option<Seq<char>>,
}

impl View for ImportCandidate {
    type V = ImportCandidateView;

    open spec fn view(&self) -> ImportCandidateView {
        ImportCandidateView {
            context: self.context@,
            suggested_name: self.suggested_name@,
            icon: optional_text(self.icon),
            description: optional_text(self.description),
        }
    }
}

/// The description suggested for a context: its cluster and user, and the
/// file it came from where `with_file` asks for it.
pub open spec fn suggested_description(c: DiscoveredContextView, with_file: bool) -> Seq<char> {
    let base = "Cluster: "@ + c.cluster_name + ", User: "@ + c.user_name;
    if with_file {
        base + ", File: "@ + c.source_file
    } else {
        base
    }
}

/// The candidate for a discovered context: named after the context, without
/// icon.
pub open spec fn candidate_of(c: DiscoveredContextView, with_file: bool) -> ImportCandidateView {
    ImportCandidateView {
        context: c,
        suggested_name: c.context_name,
        icon: None,
        description: Some(suggested_description(c, with_file)),
    }
}

/// Makes the import candidate of one discovered context.
pub fn import_candidate(context: DiscoveredContext, with_file: bool) -> (candidate: ImportCandidate)
    ensures
        candidate@ == candidate_of(context@, with_file),
{
    let mut description = String::from_str("Cluster: ");
    description.append(context.cluster_name.as_str());
    description.append(", User: ");
    description.append(context.user_name.as_str());
    if with_file {
        description.append(", File: ");
        description.append(context.source_file.as_str());
    }
    let suggested_name = context.context_name.clone();
    ImportCandidate { context, suggested_name, icon: None, description: Some(description) }
}

/// Makes the import candidates of a list of discovered contexts, one for
/// each, in their order.
pub fn import_candidates(contexts: Vec<DiscoveredContext>, with_file: bool) -> (candidates: Vec<
    ImportCandidate,
>)
    ensures
        candidates@.len() == contexts@.len(),
        forall|i: int|
            0 <= i < contexts@.len() ==> (#[trigger] candidates@[i])@ == candidate_of(
                contexts@[i]@,
                with_file,
            ),
{
    let mut candidates: Vec<ImportCandidate> = Vec::new();
    let mut i: usize = 0;
    while i < contexts.len()
        invariant
            i <= contexts.len(),
            candidates@.len() == i,
            forall|k: int|
                0 <= k < i ==> (#[trigger] candidates@[k])@ == candidate_of(
                    contexts@[k]@,
                    with_file,
                ),
        decreases contexts.len() - i,
    {
        let c = &contexts[i];
        let copy = DiscoveredContext {
            context_name: c.context_name.clone(),
            cluster_name: c.cluster_name.clone(),
            user_name: c.user_name.clone(),
            namespace: clone_optional(&c.namespace),
            source_file: c.source_file.clone(),
        };
        candidates.push(import_candidate(copy, with_file));
        i += 1;
    }
    candidates
}

// ---------------------------------------------------------------------------
// Isolating one context
// ---------------------------------------------------------------------------

/// The first position below `upto` at which `names` holds `name`.
pub open spec fn position_below(names: Seq<Seq<char>>, name: Seq<char>, upto: int) -> Option<int>
    decreases upto,
{
    if upto <= 0 {
        None
    } else {
        match position_below(names, name, upto - 1) {
            Some(i) => Some(i),
            None => if names[upto - 1] == name {
                Some(upto - 1)
            } else {
                None
            },
        }
    }
}

/// The first position at which `names` holds `name`.
pub open spec fn position(names: Seq<Seq<char>>, name: Seq<char>) -> Option<int> {
    position_below(names, name, names.len() as int)
}

/// `position` finds the least position that holds the name, and none only
/// where no position holds it.
pub proof fn lemma_position(names: Seq<Seq<char>>, name: Seq<char>, upto: int)
    requires
        0 <= upto <= names.len(),
    ensures
        match position_below(names, name, upto) {
            Some(i) => 0 <= i < upto && names[i] == name && forall|j: int|
                0 <= j < i ==> names[j] != name,
            None => forall|j: int| 0 <= j < upto ==> names[j] != name,
        },
    decreases upto,
{
    if upto > 0 {
        lemma_position(names, name, upto - 1);
    }
}

/// A position that holds the name, with none before it that does, is the
/// position found.
pub proof fn lemma_position_found(names: Seq<Seq<char>>, name: Seq<char>, i: int, upto: int)
    requires
        0 <= i < upto,
        position_below(names, name, i) is None,
        names[i] == name,
    ensures
        position_below(names, name, upto) == Some(i),
    decreases upto,
{
    if upto - 1 > i {
        lemma_position_found(names, name, i, upto - 1);
    }
}

/// The names of a list of context entries.
pub open spec fn context_names(contexts: Seq<ContextEntryView>) -> Seq<Seq<char>> {
    contexts.map_values(|c: ContextEntryView| c.name)
}

/// Why a context cannot be isolated from a bundle.
pub enum SelectionFailure {
    /// No context of the bundle has the name.
    ContextNotFound(Seq<char>),
    /// The context binds nothing.
    NoBinding,
    /// No cluster of the bundle has the name that the context binds.
    ClusterNotFound(Seq<char>),
    /// The context binds no user.
    NoUser,
    /// No user of the bundle has the name that the context binds.
    UserNotFound(Seq<char>),
}

/// The positions, in the lists of a bundle, of a context and of the cluster
/// and the user that it binds.
#[derive(Debug, Clone, Copy, PartialEq, Eq, Structural)]
pub struct Selection {
    pub context: usize,
    pub cluster: usize,
    pub user: usize,
}

pub struct SelectionView {
    pub context: int,
    pub cluster: int,
    pub user: int,
}

/// Which entries make up the context `name` of a bundle: the first context
/// of that name, the first cluster and the first user of the names it binds.
/// The failures are looked for in the order context, binding, cluster, user.
pub open spec fn selection_of(b: BundleView, name: Seq<char>) -> Result<
    SelectionView,
    SelectionFailure,
> {
    match position(context_names(b.contexts), name) {
        None => Err(SelectionFailure::ContextNotFound(name)),
        Some(c) => match b.contexts[c].binding {
            None => Err(SelectionFailure::NoBinding),
            Some(binding) => match position(b.clusters, binding.cluster) {
                None => Err(SelectionFailure::ClusterNotFound(binding.cluster)),
                Some(cl) => match binding.user {
                    None => Err(SelectionFailure::NoUser),
                    Some(user) => match position(b.users, user) {
                        None => Err(SelectionFailure::UserNotFound(user)),
                        Some(u) => Ok(SelectionView { context: c, cluster: cl, user: u }),
                    },
                },
            },
        },
    }
}

pub open spec fn selection_message(e: SelectionFailure) -> Seq<char> {
    match e {
        SelectionFailure::ContextNotFound(n) => "Context '"@ + n + "' not found"@,
        SelectionFailure::NoBinding => "Context has no context field"@,
        SelectionFailure::ClusterNotFound(n) => "Cluster '"@ + n + "' not found"@,
        SelectionFailure::NoUser => "Context has no user"@,
        SelectionFailure::UserNotFound(n) => "User '"@ + n + "' not found"@,
    }
}

/// What `select_context` returns for a bundle and a name.
pub open spec fn selection_outcome(b: BundleView, name: Seq<char>, r: Result<Selection, String>) -> bool {
    match selection_of(b, name) {
        Ok(v) => r matches Ok(s) && s.context == v.context && s.cluster == v.cluster && s.user
            == v.user,
        Err(e) => r matches Err(m) && m@ == selection_message(e),
    }
}

fn find_name(names: &Vec<String>, name: &String) -> (found: Option<usize>)
    ensures
        found matches Some(i) ==> i < names.len() && position(texts(names@), name@) == Some(
            i as int,
        ),
        found is None ==> position(texts(names@), name@) is None,
{
    let ghost all = texts(names@);
    let mut i: usize = 0;
    while i < names.len()
        invariant
            i <= names.len(),
            all == texts(names@),
            position_below(all, name@, i as int) is None,
        decreases names.len() - i,
    {
        if names[i] == *name {
            proof {
                lemma_position_found(all, name@, i as int, all.len() as int);
            }
            return Some(i);
        }
        i += 1;
    }
    None
}

fn find_context(contexts: &Vec<ContextEntry>, name: &String) -> (found: Option<usize>)
    ensures
        found matches Some(i) ==> i < contexts.len() && position(
            context_names(entry_views(contexts@)),
            name@,
        ) == Some(i as int),
        found is None ==> position(context_names(entry_views(contexts@)), name@) is None,
{
    let ghost all = context_names(entry_views(contexts@));
    let mut i: usize = 0;
    while i < contexts.len()
        invariant
            i <= contexts.len(),
            all == context_names(entry_views(contexts@)),
            position_below(all, name@, i as int) is None,
        decreases contexts.len() - i,
    {
        assert(all[i as int] == contexts@[i as int].name@);
        if contexts[i].name == *name {
            proof {
                lemma_position_found(all, name@, i as int, all.len() as int);
            }
            return Some(i);
        }
        i += 1;
    }
    None
}

fn quoted(before: &str, name: &str, after: &str) -> (m: String)
    ensures
        m@ == before@ + name@ + after@,
{
    let mut m = String::from_str(before);
    m.append(name);
    m.append(after);
    m
}

/// Finds the entries that make up the context `context_name` of a bundle.
pub fn select_context(bundle: &Bundle, context_name: &str) -> (r: Result<Selection, String>)
    ensures
        selection_outcome(bundle@, context_name@, r),
        r matches Ok(s) ==> s.context < bundle.contexts.len() && s.cluster < bundle.clusters.len()
            && s.user < bundle.users.len(),
{
    let wanted = String::from_str(context_name);
    let context = match find_context(&bundle.contexts, &wanted) {
        Some(i) => i,
        None => {
            return Err(quoted("Context '", context_name, "' not found"));
        },
    };
    assert(bundle@.contexts[context as int] == bundle.contexts@[context as int]@);
    let binding = match &bundle.contexts[context].binding {
        Some(b) => b,
        None => {
            return Err(String::from_str("Context has no context field"));
        },
    };
    let cluster = match find_name(&bundle.clusters, &binding.cluster) {
        Some(i) => i,
        None => {
            return Err(quoted("Cluster '", binding.cluster.as_str(), "' not found"));
        },
    };
    let user_name = match &binding.user {
        Some(u) => u,
        None => {
            return Err(String::from_str("Context has no user"));
        },
    };
    let user = match find_name(&bundle.users, user_name) {
        Some(i) => i,
        None => {
            return Err(quoted("User '", user_name.as_str(), "' not found"));
        },
    };
    Ok(Selection { context, cluster, user })
}

/// What `extract_context` returns: the failure of the selection; else a
/// bundle that holds exactly the selected context, its cluster and its user,
/// and names that context as its current one.
pub open spec fn extraction_outcome(
    source: kube::config::Kubeconfig,
    name: Seq<char>,
    r: Result<kube::config::Kubeconfig, String>,
) -> bool {
    match selection_of(bundle_view(source), name) {
        Err(e) => r matches Err(m) && m@ == selection_message(e),
        Ok(s) => r matches Ok(k) && bundle_view(k) == (BundleView {
            contexts: seq![bundle_contexts(source)[s.context]],
            clusters: seq![bundle_clusters(source)[s.cluster]],
            users: seq![bundle_users(source)[s.user]],
            current_context: Some(name),
        }),
    }
}

/// Isolates the context `context_name` of `source`: the bundle returned
/// holds that context, the cluster and the user it binds, and nothing else
/// of the lists of `source`.
pub fn extract_context(source: &kube::config::Kubeconfig, context_name: &str) -> (r: Result<
    kube::config::Kubeconfig,
    String,
>)
    ensures
        extraction_outcome(*source, context_name@, r),
{
    let bundle = index_bundle(source);
    let selection = match select_context(&bundle, context_name) {
        Ok(s) => s,
        Err(e) => {
            return Err(e);
        },
    };
    proof {
        assert(bundle@.contexts.len() == bundle.contexts@.len());
        assert(bundle@.clusters.len() == bundle.clusters@.len());
        assert(bundle@.users.len() == bundle.users@.len());
    }
    let isolated = single_context_bundle(
        source,
        selection.context,
        selection.cluster,
        selection.user,
        context_name,
    );
    Ok(isolated)
}

/// An isolated bundle names one context, and that context is the one it
/// holds: whatever reads the file later by its current context reads the
/// extracted context and no other.
pub proof fn law_isolated_bundle_is_single(
    source: kube::config::Kubeconfig,
    name: Seq<char>,
    isolated: kube::config::Kubeconfig,
)
    requires
        extraction_outcome(source, name, Ok(isolated)),
    ensures
        bundle_view(isolated).contexts.len() == 1,
        bundle_view(isolated).clusters.len() == 1,
        bundle_view(isolated).users.len() == 1,
        bundle_view(isolated).contexts[0].name == name,
        bundle_view(isolated).current_context == Some(name),
        bundle_view(isolated).contexts[0].binding is Some,
        bundle_view(isolated).clusters[0] == bundle_view(isolated).contexts[0].binding->Some_0.cluster,
        bundle_view(isolated).contexts[0].binding->Some_0.user == Some(
            bundle_view(isolated).users[0],
        ),
{
    let b = bundle_view(source);
    let s = selection_of(b, name)->Ok_0;
    lemma_position(context_names(b.contexts), name, b.contexts.len() as int);
    let binding = b.contexts[s.context].binding->Some_0;
    lemma_position(b.clusters, binding.cluster, b.clusters.len() as int);
    lemma_position(b.users, binding.user->Some_0, b.users.len() as int);
}

/// What `render_credentials` returns for what the serialiser gave: the
/// text, or a failure that says that the bundle could not be serialised,
/// with the reason given.
pub open spec fn rendering_outcome_of(answer: Result<String, String>) -> Result<
    Seq<char>,
    Seq<char>,
> {
    match answer {
        Ok(text) => Ok(text@),
        Err(why) => Err("Failed to serialize kubeconfig: "@ + why@),
    }
}

/// Turns what the serialiser gave, its text or the reason of its failure,
/// into the result of rendering.
pub fn rendering_outcome(answer: Result<String, String>) -> (r: Result<String, String>)
    ensures
        text_outcome(r) == rendering_outcome_of(answer),
{
    match answer {
        Ok(text) => Ok(text),
        Err(why) => {
            let mut m = String::from_str("Failed to serialize kubeconfig: ");
            m.append(why.as_str());
            Err(m)
        },
    }
}

/// The text of a bundle as YAML, as it is written to a credential file. The
/// text is the serialiser's; the result is what `rendering_outcome_of`
/// makes of what it gave.
pub fn render_credentials(k: &kube::config::Kubeconfig) -> (r: Result<String, String>)
    ensures
        exists|answer: Result<String, String>|
            text_outcome(r) == #[trigger] rendering_outcome_of(answer),
{
    let answer = match to_yaml(k) {
        Ok(text) => Ok(text),
        Err(e) => Err(yaml_error_text(&e)),
    };
    rendering_outcome(answer)
}

/// The name of the credential file of the cluster `cluster_id` inside the
/// managed directory.
pub fn credential_file_name(cluster_id: &str) -> (name: String)
    ensures
        name@ == cluster_id@ + ".yaml"@,
{
    let mut name = String::from_str(cluster_id);
    name.append(".yaml");
    name
}

/// A source of clusters to import: a way to discover contexts and to get the
/// bundle of one of them.
pub trait ImportSource {
    fn discover(&self) -> Result<Vec<DiscoveredContext>, String>;

    fn import(&self, context: &DiscoveredContext) -> Result<kube::config::Kubeconfig, String>;
}

} // verus!
