//! Where the runtime finds a container's configuration, and how it reads its
//! own parameters from its index file.
use crate::schema::EmbeddedParams;
use crate::text::{remove_char, remove_char_exec, same_text, lemma_remove_char_free};
use vstd::prelude::*;

verus! {

broadcast use vstd::string::group_string_axioms;

/// Whether serde_json accepts `document` as a JSON value.
pub uninterp spec fn json_document_parses(document: Seq<char>) -> bool;

/// The compact JSON text that serde_json prints for the member `key` of the
/// value in `document` (`null` where there is no such member).
pub uninterp spec fn json_member_text(document: Seq<char>, key: Seq<char>) -> Seq<char>;

/// Parses `document` with `serde_json::from_str::<serde_json::Value>` and, where
/// that succeeds, prints the member `key` with `Value`'s `Display`
/// (`value[key].to_string()`). The contract claims only that the outcome is a
/// function of `document` and `key`: success as `json_document_parses`, the
/// text as `json_member_text`.
#[verifier::external_body]
fn json_member_to_string(document: &str, key: &str) -> (r: Option<String>)
    ensures
        r is Some <==> json_document_parses(document@),
        r matches Some(t) ==> t@ == json_member_text(document@, key@),
{
    match serde_json::from_str::<serde_json::Value>(document) {
        Ok(value) => Some(value[key].to_string()),
        Err(_) => None,
    }
}

/// The path of a container's `config.json` for a container manager:
/// podman keeps it under the user's home, cri-o under `/var/run`; any other
/// manager is not supported and has no path (the empty text).
pub open spec fn config_path_of(manager: Seq<char>, home: Seq<char>, id: Seq<char>) -> Seq<char> {
    if manager == "podman"@ {
        home + ".local/share/containers/storage/overlay-containers/"@ + id
            + "/userdata/config.json"@
    } else if manager == "cri-o"@ {
        "/var/run/containers/storage/overlay-containers/"@ + id + "/userdata/config.json"@
    } else {
        Seq::empty()
    }
}

/// The path of the `config.json` of the container `ep.container_id`, for the
/// container manager `ep.container_manager`; empty where that manager is not
/// supported.
pub fn get_config_path(ep: EmbeddedParams) -> (path: String)
    ensures
        path@ == config_path_of(ep.container_manager@, ep.home@, ep.container_id@),
{
    if same_text(ep.container_manager.as_str(), "podman") {
        let mut path = ep.home.clone();
        path.append(".local/share/containers/storage/overlay-containers/");
        path.append(ep.container_id.as_str());
        path.append("/userdata/config.json");
        path
    } else if same_text(ep.container_manager.as_str(), "cri-o") {
        let mut path = String::new();
        path.append("/var/run/containers/storage/overlay-containers/");
        path.append(ep.container_id.as_str());
        path.append("/userdata/config.json");
        path
    } else {
        String::new()
    }
}

/// A supported container manager always yields a path to a `config.json` in
/// the container's own directory; any other manager yields none.
pub proof fn lemma_config_path_shape(manager: Seq<char>, home: Seq<char>, id: Seq<char>)
    ensures
        (config_path_of(manager, home, id).len() > 0) <==> (manager == "podman"@ || manager
            == "cri-o"@),
        config_path_of(manager, home, id).len() > 0 ==> {
            let p = config_path_of(manager, home, id);
            let tail = "/userdata/config.json"@;
            &&& p.subrange(p.len() - tail.len(), p.len() as int) == tail
            &&& p.subrange(p.len() - tail.len() - id.len(), p.len() - tail.len()) == id
        },
{
    reveal_strlit("/userdata/config.json");
    let tail = "/userdata/config.json"@;
    let p = config_path_of(manager, home, id);
    if manager == "podman"@ {
        let front = home + ".local/share/containers/storage/overlay-containers/"@;
        assert(p == front + id + tail);
        assert(p.subrange(p.len() - tail.len(), p.len() as int) =~= tail);
        assert(p.subrange(p.len() - tail.len() - id.len(), p.len() - tail.len()) =~= id);
    } else if manager == "cri-o"@ {
        let front = "/var/run/containers/storage/overlay-containers/"@;
        assert(p == front + id + tail);
        assert(p.subrange(p.len() - tail.len(), p.len() as int) =~= tail);
        assert(p.subrange(p.len() - tail.len() - id.len(), p.len() - tail.len()) =~= id);
    }
}

/// The whole path is fixed for both managers: cri-o keeps every container's
/// configuration under `/var/run/containers/storage/overlay-containers/`
/// whatever the home directory, podman under
/// `.local/share/containers/storage/overlay-containers/` inside the home
/// directory; the two share everything from the container id on.
pub proof fn lemma_config_path_whole(home: Seq<char>, id: Seq<char>)
    ensures
        config_path_of("cri-o"@, home, id) == "/var/run/containers/storage/overlay-containers/"@
            + id + "/userdata/config.json"@,
        config_path_of("podman"@, home, id) == home
            + ".local/share/containers/storage/overlay-containers/"@ + id
            + "/userdata/config.json"@,
        config_path_of("cri-o"@, home, id) == config_path_of("cri-o"@, Seq::empty(), id),
        config_path_of("podman"@, home, id) == home + config_path_of(
            "podman"@,
            Seq::empty(),
            id,
        ),
{
    reveal_strlit("cri-o");
    reveal_strlit("podman");
    assert("cri-o"@ != "podman"@) by {
        assert("cri-o"@.len() != "podman"@.len());
    }
    let mid = ".local/share/containers/storage/overlay-containers/"@;
    let tail = "/userdata/config.json"@;
    assert(Seq::<char>::empty() + mid =~= mid);
    assert(home + mid + id + tail =~= home + (Seq::<char>::empty() + mid + id + tail));
}

/// Why the runtime's parameters could not be read.
#[derive(Debug, Clone, Copy, PartialEq, Eq)]
pub enum UnikernelConfigError {
    /// The index file could not be read.
    IndexNotFound,
    /// The index file is not JSON.
    IndexNotJson,
}

/// The runtime's parameters from the JSON texts of the index file's members
/// `containerManager`, `home` and `logLevel`: each with its quotes taken out.
/// No container is chosen yet: `container_id` is empty.
pub fn embedded_params_from_members(container_manager: &str, home: &str, log_level: &str) -> (ep:
    EmbeddedParams)
    ensures
        ep.container_manager@ == remove_char(container_manager@, '"'),
        ep.home@ == remove_char(home@, '"'),
        ep.container_id@ == Seq::<char>::empty(),
        ep.log_level@ == remove_char(log_level@, '"'),
        !ep.container_manager@.contains('"'),
        !ep.home@.contains('"'),
        !ep.log_level@.contains('"'),
{
    proof {
        lemma_remove_char_free(container_manager@, '"');
        lemma_remove_char_free(home@, '"');
        lemma_remove_char_free(log_level@, '"');
    }
    EmbeddedParams {
        container_manager: remove_char_exec(container_manager, '"'),
        home: remove_char_exec(home, '"'),
        container_id: String::new(),
        log_level: remove_char_exec(log_level, '"'),
    }
}

/// The runtime's parameters from the text of its index file (`None` where the
/// file could not be read).
pub fn get_unikernel_config(index: Option<&str>) -> (r: Result<EmbeddedParams, UnikernelConfigError>)
    ensures
        index is None ==> r matches Err(UnikernelConfigError::IndexNotFound),
        index matches Some(doc) && !json_document_parses(doc@) ==> r matches Err(
            UnikernelConfigError::IndexNotJson,
        ),
        index matches Some(doc) && json_document_parses(doc@) ==> r is Ok,
        r matches Ok(ep) ==> (index matches Some(doc) && ep.container_manager@ == remove_char(
            json_member_text(doc@, "containerManager"@),
            '"',
        ) && ep.home@ == remove_char(json_member_text(doc@, "home"@), '"')
            && ep.container_id@ == Seq::<char>::empty() && ep.log_level@ == remove_char(
            json_member_text(doc@, "logLevel"@),
            '"',
        )),
        r matches Ok(ep) ==> !ep.container_manager@.contains('"') && !ep.home@.contains('"')
            && !ep.log_level@.contains('"'),
{
    match index {
        None => Err(UnikernelConfigError::IndexNotFound),
        Some(doc) => {
            let manager = json_member_to_string(doc, "containerManager");
            let home = json_member_to_string(doc, "home");
            let level = json_member_to_string(doc, "logLevel");
            match (manager, home, level) {
                (Some(m), Some(h), Some(l)) => Ok(
                    embedded_params_from_members(m.as_str(), h.as_str(), l.as_str()),
                ),
                _ => Err(UnikernelConfigError::IndexNotJson),
            }
        },
    }
}

} // verus!
