//! The choice of the credentials for a session with a cluster: by a context
//! name, searched in the candidate files in their order, or by the
//! identifier of a registered cluster, whose own file holds one context.
//!
//! Reading the files and opening the session are the caller's; what is read
//! comes in as plain values and the decisions go out as plain values.

use crate::cluster_manager::{Cluster, starts_with};
use crate::import::{
    context_names, entry_views, lemma_position_found, position, position_below, scanned_views,
    Bundle, ContextEntry, ScannedFile, ScannedFileView,
};
use crate::input_validation::{optional_text, texts};
use vstd::prelude::*;
use vstd::utf8::encode_utf8;

verus! {

// ---------------------------------------------------------------------------
// Candidate files
// ---------------------------------------------------------------------------

/// The files in which a context is looked for, in the order of the search:
/// the file named by the environment, the user's own file, then the files of
/// the managed directory.
pub open spec fn candidates_of(
    from_environment: Option<Seq<char>>,
    default_file: Option<Seq<char>>,
    managed: Seq<Seq<char>>,
) -> Seq<Seq<char>> {
    (match from_environment {
        Some(p) => seq![p],
        None => seq![],
    }) + (match default_file {
        Some(p) => seq![p],
        None => seq![],
    }) + managed
}

/// Lists the candidate files in the order of the search.
pub fn candidate_paths(
    from_environment: Option<String>,
    default_file: Option<String>,
    managed: Vec<String>,
) -> (paths: Vec<String>)
    ensures
        texts(paths@) == candidates_of(
            optional_text(from_environment),
            optional_text(default_file),
            texts(managed@),
        ),
{
    let mut paths: Vec<String> = Vec::new();
    match from_environment {
        Some(p) => {
            paths.push(p);
        },
        None => {},
    }
    match default_file {
        Some(p) => {
            paths.push(p);
        },
        None => {},
    }
    let ghost head = texts(paths@);
    let mut rest = managed;
    let ghost tail = texts(rest@);
    paths.append(&mut rest);
    assert(texts(paths@) =~= head + tail);
    paths
}

/// Whether the file holds a bundle with a context named `name`.
pub open spec fn holds_context(file: ScannedFileView, name: Seq<char>) -> bool {
    file.bundle matches Some(b) && position(context_names(b.contexts), name) is Some
}

/// The first of the first `upto` files that holds a context named `name`.
pub open spec fn first_holder_below(files: Seq<ScannedFileView>, name: Seq<char>, upto: int) -> Option<
    int,
>
    decreases upto,
{
    if upto <= 0 {
        None
    } else {
        match first_holder_below(files, name, upto - 1) {
            Some(i) => Some(i),
            None => if holds_context(files[upto - 1], name) {
                Some(upto - 1)
            } else {
                None
            },
        }
    }
}

proof fn lemma_first_holder_found(files: Seq<ScannedFileView>, name: Seq<char>, i: int, upto: int)
    requires
        0 <= i < upto,
        first_holder_below(files, name, i) is None,
        holds_context(files[i], name),
    ensures
        first_holder_below(files, name, upto) == Some(i),
    decreases upto,
{
    if upto - 1 > i {
        lemma_first_holder_found(files, name, i, upto - 1);
    }
}

/// The first holder is a holder, and no file before it is one.
pub proof fn lemma_first_holder(files: Seq<ScannedFileView>, name: Seq<char>, upto: int)
    requires
        0 <= upto <= files.len(),
    ensures
        match first_holder_below(files, name, upto) {
            Some(i) => 0 <= i < upto && holds_context(files[i], name) && forall|j: int|
                0 <= j < i ==> !holds_context(#[trigger] files[j], name),
            None => forall|j: int| 0 <= j < upto ==> !holds_context(#[trigger] files[j], name),
        },
    decreases upto,
{
    if upto > 0 {
        lemma_first_holder(files, name, upto - 1);
    }
}

fn has_context(contexts: &Vec<ContextEntry>, name: &String) -> (found: bool)
    ensures
        found == position(context_names(entry_views(contexts@)), name@) is Some,
{
    let ghost all = context_names(entry_views(contexts@));
    let mut i: usize = 0;
    while i < contexts.len()
        invariant
            i <= contexts.len(),
            all == context_names(entry_views(contexts@)),
            position_below(all, name@, i as int) is None,
        decreases contexts.len() - i,
    {
        assert(all[i as int] == contexts@[i as int].name@);
        if contexts[i].name == *name {
            proof {
                lemma_position_found(all, name@, i as int, all.len() as int);
            }
            return true;
        }
        i += 1;
    }
    false
}

/// The path of the first candidate file that holds a context named
/// `context_name`; a file that is missing or is no bundle holds none.
pub fn find_kubeconfig_path_for_context(candidates: &Vec<ScannedFile>, context_name: &str) -> (path:
    Option<String>)
    ensures
        match first_holder_below(
            scanned_views(candidates@),
            context_name@,
            candidates.len() as int,
        ) {
            Some(i) => path matches Some(p) && p@ == candidates@[i].path@,
            None => path is None,
        },
{
    let ghost files = scanned_views(candidates@);
    let wanted = String::from_str(context_name);
    let mut i: usize = 0;
    while i < candidates.len()
        invariant
            i <= candidates.len(),
            files == scanned_views(candidates@),
            wanted@ == context_name@,
            first_holder_below(files, context_name@, i as int) is None,
        decreases candidates.len() - i,
    {
        let file = &candidates[i];
        assert(files[i as int] == file@);
        let holds = match &file.bundle {
            Some(b) => has_context(&b.contexts, &wanted),
            None => false,
        };
        if holds {
            proof {
                lemma_first_holder_found(files, context_name@, i as int, files.len() as int);
            }
            return Some(file.path.clone());
        }
        i += 1;
    }
    None
}

/// The file to open a session from for the context `context_name`, or the
/// failure that says that no candidate holds it.
pub fn context_location(candidates: &Vec<ScannedFile>, context_name: &str) -> (r: Result<
    String,
    String,
>)
    ensures
        match first_holder_below(
            scanned_views(candidates@),
            context_name@,
            candidates.len() as int,
        ) {
            Some(i) => r matches Ok(p) && p@ == candidates@[i].path@,
            None => r matches Err(m) && m@ == "Context '"@ + context_name@
                + "' not found in any kubeconfig file"@,
        },
{
    match find_kubeconfig_path_for_context(candidates, context_name) {
        Some(p) => Ok(p),
        None => {
            let mut m = String::from_str("Context '");
            m.append(context_name);
            m.append("' not found in any kubeconfig file");
            Err(m)
        },
    }
}

// ---------------------------------------------------------------------------
// Sessions of registered clusters
// ---------------------------------------------------------------------------

/// The credential file of the cluster `cluster_id`, given what the registry
/// holds for it: an absent cluster is a failure here.
pub fn credential_path(cluster_id: &str, found: Option<Cluster>) -> (r: Result<String, String>)
    ensures
        match found {
            Some(c) => r matches Ok(p) && p@ == c.config_path@,
            None => r matches Err(m) && m@ == "Cluster '"@ + cluster_id@ + "' not found"@,
        },
{
    match found {
        Some(c) => Ok(c.config_path),
        None => {
            let mut m = String::from_str("Cluster '");
            m.append(cluster_id);
            m.append("' not found");
            Err(m)
        },
    }
}

/// What came of reading the credential file of a cluster.
#[derive(Debug, Clone)]
pub enum CredentialRead {
    /// There is no file at the path.
    Missing,
    /// The file could not be read as a bundle; the text says why.
    Unreadable(String),
    /// The names of the bundle in the file.
    Read(Bundle),
}

/// The context that a session with a registered cluster uses: the current
/// context of the cluster's own file. `shown_path` is the path as it is
/// shown in messages.
pub open spec fn session_context_of(
    read: CredentialRead,
    shown_path: Seq<char>,
) -> Result<Seq<char>, Seq<char>> {
    match read {
        CredentialRead::Missing => Err("Config file not found: "@ + shown_path),
        CredentialRead::Unreadable(why) => Err(
            "Failed to read kubeconfig "@ + shown_path + ": "@ + why@,
        ),
        CredentialRead::Read(bundle) => match bundle@.current_context {
            Some(c) => Ok(c),
            None => Err("No current context in kubeconfig"@),
        },
    }
}

/// Decides under which context a session with a registered cluster is
/// opened, or why it cannot be.
pub fn session_context(read: CredentialRead, shown_path: &str) -> (r: Result<String, String>)
    ensures
        match session_context_of(read, shown_path@) {
            Ok(c) => r matches Ok(v) && v@ == c,
            Err(e) => r matches Err(m) && m@ == e,
        },
{
    match read {
        CredentialRead::Missing => {
            let mut m = String::from_str("Config file not found: ");
            m.append(shown_path);
            Err(m)
        },
        CredentialRead::Unreadable(why) => {
            let mut m = String::from_str("Failed to read kubeconfig ");
            m.append(shown_path);
            m.append(": ");
            m.append(why.as_str());
            Err(m)
        },
        CredentialRead::Read(bundle) => match bundle.current_context {
            Some(c) => Ok(c),
            None => Err(String::from_str("No current context in kubeconfig")),
        },
    }
}

/// The failure of a step of opening a session, with what the step reported.
pub fn session_failure(what: &str, detail: &str) -> (m: String)
    ensures
        m@ == what@ + detail@,
        starts_with(m@, what@),
{
    let mut m = String::from_str(what);
    m.append(detail);
    m
}

// ---------------------------------------------------------------------------
// The list of all contexts
// ---------------------------------------------------------------------------

/// Lexicographic order of byte strings; a proper prefix comes first.
pub open spec fn bytes_le(a: Seq<u8>, b: Seq<u8>) -> bool
    decreases a.len(),
{
    if a.len() == 0 {
        true
    } else if b.len() == 0 {
        false
    } else if a[0] != b[0] {
        a[0] < b[0]
    } else {
        bytes_le(a.drop_first(), b.drop_first())
    }
}

/// The order of names: that of their UTF-8 encodings, byte by byte.
pub open spec fn name_le(a: Seq<char>, b: Seq<char>) -> bool {
    bytes_le(encode_utf8(a), encode_utf8(b))
}

/// Whether the names ascend (equal neighbours allowed).
pub open spec fn ascending(names: Seq<Seq<char>>) -> bool {
    forall|i: int, j: int| 0 <= i < j < names.len() ==> name_le(#[trigger] names[i], #[trigger] names[j])
}

/// `<[String]>::sort`: the strings are put in ascending order, which for
/// strings is the lexicographic order of their bytes; the list holds the
/// same strings as before, each as often as before.
#[verifier::external_body]
fn sort_names(names: &mut Vec<String>)
    ensures
        ascending(texts(final(names)@)),
        texts(final(names)@).to_multiset() == texts(old(names)@).to_multiset(),
{
    names.sort();
}

/// The names of the contexts of the first `upto` files, file after file; a
/// file that is no bundle adds none.
pub open spec fn context_names_below(files: Seq<ScannedFileView>, upto: int) -> Seq<Seq<char>>
    decreases upto,
{
    if upto <= 0 {
        Seq::empty()
    } else {
        let before = context_names_below(files, upto - 1);
        match files[upto - 1].bundle {
            Some(b) => before + context_names(b.contexts),
            None => before,
        }
    }
}

fn collect_context_names(candidates: &Vec<ScannedFile>) -> (names: Vec<String>)
    ensures
        texts(names@) == context_names_below(scanned_views(candidates@), candidates.len() as int),
{
    let ghost files = scanned_views(candidates@);
    let mut names: Vec<String> = Vec::new();
    let mut i: usize = 0;
    while i < candidates.len()
        invariant
            i <= candidates.len(),
            files == scanned_views(candidates@),
            texts(names@) == context_names_below(files, i as int),
        decreases candidates.len() - i,
    {
        let file = &candidates[i];
        assert(files[i as int] == file@);
        match &file.bundle {
            Some(b) => {
                let ghost before = texts(names@);
                let ghost all = context_names(entry_views(b.contexts@));
                let mut k: usize = 0;
                while k < b.contexts.len()
                    invariant
                        k <= b.contexts.len(),
                        all == context_names(entry_views(b.contexts@)),
                        texts(names@) == before + all.take(k as int),
                    decreases b.contexts.len() - k,
                {
                    let ghost sofar = texts(names@);
                    names.push(b.contexts[k].name.clone());
                    proof {
                        assert(all[k as int] == b.contexts@[k as int].name@);
                        assert(texts(names@) =~= sofar.push(all[k as int]));
                        assert(all.take(k + 1) =~= all.take(k as int).push(all[k as int]));
                        assert(texts(names@) =~= before + all.take(k + 1));
                    }
                    k += 1;
                }
                proof {
                    assert(all.take(b.contexts.len() as int) =~= all);
                }
            },
            None => {},
        }
        i += 1;
    }
    names
}

fn holds_name(list: &Vec<String>, name: &String) -> (b: bool)
    ensures
        b == texts(list@).contains(name@),
{
    let ghost all = texts(list@);
    let mut j: usize = 0;
    while j < list.len()
        invariant
            j <= list.len(),
            all == texts(list@),
            forall|k: int| 0 <= k < j ==> all[k] != name@,
        decreases list.len() - j,
    {
        assert(all[j as int] == list@[j as int]@);
        if list[j] == *name {
            return true;
        }
        j += 1;
    }
    false
}

/// What `list_contexts` returns for the names found: the same names, each
/// once, in ascending order.
pub open spec fn is_context_list(found: Seq<Seq<char>>, listed: Seq<Seq<char>>) -> bool {
    &&& ascending(listed)
    &&& listed.no_duplicates()
    &&& forall|name: Seq<char>| listed.contains(name) <==> found.contains(name)
}

/// The names of the contexts of all candidate files that are bundles, each
/// once, in ascending order.
pub fn list_contexts(candidates: &Vec<ScannedFile>) -> (listed: Vec<String>)
    ensures
        is_context_list(
            context_names_below(scanned_views(candidates@), candidates.len() as int),
            texts(listed@),
        ),
{
    let mut names = collect_context_names(candidates);
    let ghost found = texts(names@);
    sort_names(&mut names);
    let ghost sorted = texts(names@);
    proof {
        assert forall|name: Seq<char>| sorted.contains(name) <==> found.contains(name) by {
            vstd::seq_lib::to_multiset_contains(sorted, name);
            vstd::seq_lib::to_multiset_contains(found, name);
        }
    }
    let mut listed: Vec<String> = Vec::new();
    let mut i: usize = 0;
    while i < names.len()
        invariant
            i <= names.len(),
            sorted == texts(names@),
            ascending(sorted),
            texts(listed@).no_duplicates(),
            forall|a: int|
                0 <= a < listed@.len() ==> exists|p: int|
                    0 <= p < i && sorted[p] == #[trigger] texts(listed@)[a],
            forall|p: int| 0 <= p < i ==> texts(listed@).contains(#[trigger] sorted[p]),
            forall|a: int, b: int|
                0 <= a < b < listed@.len() ==> name_le(
                    #[trigger] texts(listed@)[a],
                    #[trigger] texts(listed@)[b],
                ),
        decreases names.len() - i,
    {
        assert(sorted[i as int] == names@[i as int]@);
        if !holds_name(&listed, &names[i]) {
            let ghost before = texts(listed@);
            listed.push(names[i].clone());
            proof {
                let after = texts(listed@);
                assert(after =~= before.push(sorted[i as int]));
                assert forall|a: int, b: int| 0 <= a < b < after.len() implies name_le(
                    #[trigger] after[a],
                    #[trigger] after[b],
                ) by {
                    if b == before.len() {
                        let p = choose|p: int| 0 <= p < i && sorted[p] == before[a];
                        assert(name_le(sorted[p], sorted[i as int]));
                    } else {
                        assert(name_le(before[a], before[b]));
                    }
                }
                assert forall|p: int| 0 <= p < i + 1 implies after.contains(
                    #[trigger] sorted[p],
                ) by {
                    if p < i {
                        let a = choose|a: int| 0 <= a < before.len() && before[a] == sorted[p];
                        assert(after[a] == sorted[p]);
                    } else {
                        assert(after[before.len() as int] == sorted[p]);
                    }
                }
                assert forall|a: int| 0 <= a < after.len() implies exists|p: int|
                    0 <= p < i + 1 && sorted[p] == #[trigger] after[a] by {
                    if a < before.len() {
                        let p = choose|p: int| 0 <= p < i && sorted[p] == before[a];
                        assert(sorted[p] == after[a]);
                    } else {
                        assert(sorted[i as int] == after[a]);
                    }
                }
            }
        }
        i += 1;
    }
    proof {
        let out = texts(listed@);
        assert forall|name: Seq<char>| out.contains(name) <==> found.contains(name) by {
            if out.contains(name) {
                let a = choose|a: int| 0 <= a < out.len() && out[a] == name;
                let p = choose|p: int| 0 <= p < i && sorted[p] == out[a];
                assert(sorted.contains(name));
            }
            if found.contains(name) {
                assert(sorted.contains(name));
                let p = choose|p: int| 0 <= p < sorted.len() && sorted[p] == name;
                assert(out.contains(sorted[p]));
            }
        }
    }
    listed
}

} // verus!
