//! Decisions of the `create` command: refusing privileged containers, and the
//! name of the runtime's own directory for a container.
use crate::schema::texts;
use crate::text::same_text;
use vstd::prelude::*;

verus! {

broadcast use vstd::string::group_string_axioms;

/// The capability sets of a container's process, each as the names of its
/// capabilities (such as `SYS_ADMIN`); `None` where the set is not given.
pub struct LinuxCapabilities {
    pub bounding: Option<Vec<String>>,
    pub effective: Option<Vec<String>>,
    pub inheritable: Option<Vec<String>>,
    pub permitted: Option<Vec<String>>,
    pub ambient: Option<Vec<String>>,
}

/// Why a container is not created.
#[derive(Debug, Clone, Copy, PartialEq, Eq)]
pub enum CreateError {
    /// A capability set of the container's process grants `SYS_ADMIN`.
    PrivilegedContainer,
}

/// A set of capability names that grants `SYS_ADMIN`.
pub open spec fn grants_sys_admin(set: Seq<Seq<char>>) -> bool {
    set.contains("SYS_ADMIN"@)
}

/// A capability set, where given, grants `SYS_ADMIN`.
pub open spec fn opt_grants_sys_admin(set: Option<Vec<String>>) -> bool {
    match set {
        Some(v) => grants_sys_admin(texts(v@)),
        None => false,
    }
}

/// Some capability set of the process grants `SYS_ADMIN`.
pub open spec fn privileged(caps: LinuxCapabilities) -> bool {
    ||| opt_grants_sys_admin(caps.bounding)
    ||| opt_grants_sys_admin(caps.effective)
    ||| opt_grants_sys_admin(caps.inheritable)
    ||| opt_grants_sys_admin(caps.permitted)
    ||| opt_grants_sys_admin(caps.ambient)
}

/// Whether the capability set `caps`, where given, grants `SYS_ADMIN`.
pub fn any_is_cap_sys_admin(caps: &Option<Vec<String>>) -> (r: bool)
    ensures
        r == opt_grants_sys_admin(*caps),
{
    match caps {
        None => false,
        Some(set) => {
            let n = set.len();
            for i in 0..n
                invariant
                    n == set@.len(),
                    *caps == Some(*set),
                    forall|j: int| 0 <= j < i ==> set@[j]@ != "SYS_ADMIN"@,
            {
                if same_text(set[i].as_str(), "SYS_ADMIN") {
                    assert(texts(set@).len() == n);
                    assert(texts(set@)[i as int] == "SYS_ADMIN"@);
                    return true;
                }
            }
            assert forall|j: int| 0 <= j < texts(set@).len() implies texts(set@)[j]
                != "SYS_ADMIN"@ by {
                assert(texts(set@)[j] == set@[j]@);
            }
            false
        },
    }
}

/// Whether some capability set of the process grants `SYS_ADMIN`.
pub fn is_privileged(caps: &LinuxCapabilities) -> (r: bool)
    ensures
        r == privileged(*caps),
{
    any_is_cap_sys_admin(&caps.bounding) || any_is_cap_sys_admin(&caps.effective)
        || any_is_cap_sys_admin(&caps.inheritable) || any_is_cap_sys_admin(&caps.permitted)
        || any_is_cap_sys_admin(&caps.ambient)
}

/// Refuses a container whose process may gain `SYS_ADMIN`; a process without
/// capability sets, or a container without a process, is accepted.
pub fn check_privileges(caps: &Option<LinuxCapabilities>) -> (r: Result<(), CreateError>)
    ensures
        r is Err <==> (*caps matches Some(c) && privileged(c)),
{
    match caps {
        Some(c) => if is_privileged(c) {
            Err(CreateError::PrivilegedContainer)
        } else {
            Ok(())
        },
        None => Ok(()),
    }
}

/// The name of the runtime's directory for the container `container_id`,
/// inside the container's root: `ucrun-` followed by the id.
pub fn ucrun_dir_name(container_id: &str) -> (name: String)
    ensures
        name@ == "ucrun-"@ + container_id@,
{
    let mut name = String::from_str("ucrun-");
    name.append(container_id);
    name
}

/// A capability set that is given and lists `SYS_ADMIN` among its names.
pub open spec fn lists_sys_admin(set: Option<Vec<String>>) -> bool {
    set matches Some(v) && exists|j: int| 0 <= j < v@.len() && #[trigger] v@[j]@ == "SYS_ADMIN"@
}

/// Each of the five capability sets alone makes a container privileged, and
/// so refused, whatever the other sets hold; a container none of whose sets
/// lists `SYS_ADMIN` is not privileged.
pub proof fn lemma_each_set_decides(caps: LinuxCapabilities)
    ensures
        lists_sys_admin(caps.bounding) ==> privileged(caps),
        lists_sys_admin(caps.effective) ==> privileged(caps),
        lists_sys_admin(caps.inheritable) ==> privileged(caps),
        lists_sys_admin(caps.permitted) ==> privileged(caps),
        lists_sys_admin(caps.ambient) ==> privileged(caps),
        privileged(caps) ==> lists_sys_admin(caps.bounding) || lists_sys_admin(caps.effective)
            || lists_sys_admin(caps.inheritable) || lists_sys_admin(caps.permitted)
            || lists_sys_admin(caps.ambient),
{
    lemma_lists_sys_admin(caps.bounding);
    lemma_lists_sys_admin(caps.effective);
    lemma_lists_sys_admin(caps.inheritable);
    lemma_lists_sys_admin(caps.permitted);
    lemma_lists_sys_admin(caps.ambient);
}

proof fn lemma_lists_sys_admin(set: Option<Vec<String>>)
    ensures
        lists_sys_admin(set) <==> opt_grants_sys_admin(set),
{
    if let Some(v) = set {
        if lists_sys_admin(set) {
            let j = choose|j: int| 0 <= j < v@.len() && #[trigger] v@[j]@ == "SYS_ADMIN"@;
            assert(texts(v@)[j] == v@[j]@);
        }
        if opt_grants_sys_admin(set) {
            let j = choose|j: int| 0 <= j < texts(v@).len() && texts(v@)[j] == "SYS_ADMIN"@;
            assert(texts(v@)[j] == v@[j]@);
        }
    }
}

/// Only `SYS_ADMIN` matters: a capability of another name added to a set never
/// changes whether the set grants it, and `SYS_ADMIN` added always makes it so.
pub proof fn lemma_only_sys_admin_matters(set: Seq<Seq<char>>, cap: Seq<char>)
    ensures
        cap != "SYS_ADMIN"@ ==> (grants_sys_admin(set.push(cap)) == grants_sys_admin(set)),
        cap == "SYS_ADMIN"@ ==> grants_sys_admin(set.push(cap)),
{
    let s2 = set.push(cap);
    assert(s2[set.len() as int] == cap);
    if grants_sys_admin(set) {
        let j = choose|j: int| 0 <= j < set.len() && set[j] == "SYS_ADMIN"@;
        assert(s2[j] == set[j]);
    }
    if cap != "SYS_ADMIN"@ && grants_sys_admin(s2) {
        let j = choose|j: int| 0 <= j < s2.len() && s2[j] == "SYS_ADMIN"@;
        assert(j < set.len());
        assert(set[j] == s2[j]);
    }
}

} // verus!
